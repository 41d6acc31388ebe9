//! The configuration of a print agent.
use vstd::prelude::*;


verus! {

/// The configuration of a print agent.
pub struct Config {
    pub server: ServerConfig,
    pub print: PrintConfig,
}

/// Where the agent listens and where it connects to.
pub struct ServerConfig {
    /// The port of the agent's own HTTP server.
    pub port: u16,
    /// The address of the service, such as `ws://192.168.1.10:9095/ws/agent`.
    pub url: String,
    /// The name of the station.
    pub station: String,
}

/// What the agent prints on.
pub struct PrintConfig {
    /// The printer; a request may name another one.
    pub printer_name: String,
}

/// The port that the agent listens on.
pub fn default_port() -> (r: u16)
    ensures
        r == 9195,
{
    9195
}

/// The printer that the agent prints on.
pub fn default_printer_name() -> (r: String)
    ensures
        r@ == "ZDesigner ZT231-300dpi ZPL"@,
{
    "ZDesigner ZT231-300dpi ZPL".to_owned()
}

/// The name of the station: that of the machine, as Windows or else as another system
/// has it.
pub fn default_station(computer_name: Option<String>, host_name: Option<String>) -> (r: String)
    ensures
        r@ == (match computer_name {
            Some(name) => name@,
            None => match host_name {
                Some(name) => name@,
                None => "unknown"@,
            },
        }),
{
    match computer_name {
        Some(name) => name,
        None => match host_name {
            Some(name) => name,
            None => "unknown".to_owned(),
        },
    }
}

/// The configuration that is used where there is no other, on the given station.
pub fn default_config(station: String) -> (r: Config)
    ensures
        r.server.port == 9195,
        r.server.url@ == Seq::<char>::empty(),
        r.server.station == station,
        r.print.printer_name@ == "ZDesigner ZT231-300dpi ZPL"@,
{
    let url = String::new();
    assert(url@ =~= seq![]);
    Config {
        server: ServerConfig { port: default_port(), url, station },
        print: PrintConfig { printer_name: default_printer_name() },
    }
}

/// A place where a configuration may stand.
pub enum Candidate<T> {
    /// There is none.
    Missing,
    /// There is one that cannot be read.
    Broken,
    /// There is one.
    Loaded(T),
}

/// No place before `n` holds a configuration that can be read.
pub open spec fn none_before<T>(places: Seq<Candidate<T>>, n: int) -> bool {
    forall|i: int| 0 <= i < n ==> !((#[trigger] places[i]) is Loaded)
}

/// The configuration that is used: the first one that can be read, or else `default`.
pub fn choose_config<T>(places: Vec<Candidate<T>>, default: T) -> (r: T)
    ensures
        exists|i: int| #[trigger]
            none_before(places@, i) && 0 <= i <= places@.len() && (if i < places@.len() {
                places@[i] == Candidate::Loaded(r)
            } else {
                r == default
            }),
        (forall|i: int| 0 <= i < places@.len() ==> !((#[trigger] places@[i]) is Loaded)) ==> r
            == default,
        forall|i: int|
            0 <= i < places@.len() && (#[trigger] places@[i]) is Loaded && (forall|j: int|
                0 <= j < i ==> !((#[trigger] places@[j]) is Loaded)) ==> places@[i]
                == Candidate::Loaded(r),
{
    let ghost all = places@;
    let mut rest = places;
    let ghost mut i: int = 0;
    while rest.len() > 0
        invariant
            0 <= i <= all.len(),
            rest@ == all.skip(i),
            none_before(all, i),
            all == places@,
        decreases rest@.len(),
    {
        let place = rest.remove(0);
        assert(place == all[i]);
        assert(rest@ =~= all.skip(i + 1));
        match place {
            Candidate::Loaded(config) => {
                assert(none_before(places@, i));
                return config;
            },
            _ => {},
        }
        proof {
            i = i + 1;
        }
    }
    assert(none_before(places@, i));
    default
}

/// The places of the configuration: the working directory, then the directory of the
/// program, which a Windows service needs.
pub const CONFIG_FILE: &'static str = "print-agent.toml";

} // verus!
