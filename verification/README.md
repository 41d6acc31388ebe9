# qr_server

Label rendering and printing, with the rules verified by Verus.

A label is a JSON object. Its fields fill a page template, a browser turns the page into
a picture, and the picture goes to a printer. Three programs share the work:

- the **label service** keeps the templates and renders labels for workstations,
- the **print agent** of a workstation passes requests on to the service over a web
  socket, answers with the picture and prints it,
- the **stand-alone server** renders and prints on one machine.

## Layout

- `src/` is the library. Its functions have contracts, and Verus proves them; only the
  contracts of the few that call another crate (`external_body`,
  `assume_specification`) are believed.
  - `context.rs`, `page.rs`, `codec.rs`: from the fields of a label to its page, with QR
    codes and bar codes
  - `label_run.rs`: the labels of one request, one after the other
  - `service/`: template store, page requests, connected agents, print scripts, installer
  - `agent/`: jobs and their answers, the connection, print processes, configuration
  - `local/`: the stand-alone server with its three ways to render a label
  - `json.rs`, `text.rs`, `decimal.rs`, `hex.rs`, `utf16.rs`, `text_map.rs`: the ground
    that the rest stands on
- `tests/` run the library on concrete values, with the outside crates linked.
- `app/` is the programs: files, sockets, processes, the database and the web servers.
  It asks the library what to do and does it.

## What is not proved

Functions of other crates are believed to do what the contract and the doc comment of the
`external_body` function or `assume_specification` that stands for them say. Lengths in centimetres are carried through the library as
the bits of a floating point number; `app/` computes with them. The library decides the
order of what a process, a socket or a database is asked to do; that they do it is up to
them.
