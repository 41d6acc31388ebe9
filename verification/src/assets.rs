//! The static files of the template designer.
use vstd::prelude::*;

use vstd::slice::slice_subrange;

use crate::text;
use crate::text::{chars_of, last_position, same_str, string_of};

verus! {

/// A name that is made of ASCII letters and digits, dots, dashes and underscores, so
/// that it cannot lead out of a directory.
pub open spec fn is_safe(name: Seq<char>) -> bool {
    name.len() > 0 && forall|i: int| 0 <= i < name.len() ==> is_safe_char(#[trigger] name[i])
}

pub open spec fn is_safe_char(c: char) -> bool {
    text::is_ascii_alphanumeric(c) || c == '.' || c == '-' || c == '_'
}

/// The name may stand for a static file.
pub fn is_safe_asset_name(filename: &str) -> (r: bool)
    ensures
        r == is_safe(filename@),
{
    let chars = chars_of(filename);
    let mut i: usize = 0;
    while i < chars.len()
        invariant
            chars@ == filename@,
            i <= chars@.len(),
            forall|j: int| 0 <= j < i ==> is_safe_char(#[trigger] chars@[j]),
        decreases chars@.len() - i,
    {
        let c = chars[i];
        if !(('0' <= c && c <= '9') || ('a' <= c && c <= 'z') || ('A' <= c && c <= 'Z') || c == '.'
            || c == '-' || c == '_') {
            assert(!is_safe_char(chars@[i as int]));
            return false;
        }
        i += 1;
    }
    chars.len() > 0
}

/// A safe name holds no separator of directories.
pub proof fn safe_names_have_no_separator(name: Seq<char>, i: int)
    requires
        is_safe(name),
        0 <= i < name.len(),
    ensures
        name[i] != '/',
        name[i] != '\\',
{
    assert(is_safe_char(name[i]));
}

/// The name of the file that a path leads to, where slashes separate directories: what
/// follows the last slash. Slashes at the end do not count, nor does a single dot behind
/// a slash.
pub open spec fn file_name(path: Seq<char>) -> Seq<char>
    decreases path.len(),
{
    if path.len() > 0 && path.last() == '/' {
        file_name(path.drop_last())
    } else if path.len() > 1 && path.last() == '.' && path[path.len() - 2] == '/' {
        file_name(path.drop_last())
    } else {
        match text::last_index(path, '/') {
            Some(i) => path.skip(i + 1),
            None => path,
        }
    }
}

/// The extension of the name of a file: what follows its last dot, where that is not
/// the first character.
pub open spec fn extension(name: Seq<char>) -> Seq<char> {
    match text::last_index(name, '.') {
        Some(i) => if i > 0 {
            name.skip(i + 1)
        } else {
            seq![]
        },
        None => seq![],
    }
}

/// The content type of a static file.
pub open spec fn content_type(path: Seq<char>) -> Seq<char> {
    let extension = extension(file_name(path));
    if extension == "js"@ {
        "application/javascript; charset=utf-8"@
    } else if extension == "css"@ {
        "text/css; charset=utf-8"@
    } else if extension == "html"@ {
        "text/html; charset=utf-8"@
    } else if extension == "png"@ {
        "image/png"@
    } else {
        "application/octet-stream"@
    }
}

fn name_of_file(path: &[char]) -> (r: &[char])
    ensures
        r@ == file_name(path@),
{
    let mut len: usize = path.len();
    assert(path@.take(len as int) =~= path@);
    while len > 0 && (path[len - 1] == '/' || (len > 1 && path[len - 1] == '.' && path[len - 2]
        == '/'))
        invariant
            len <= path@.len(),
            file_name(path@.take(len as int)) == file_name(path@),
        decreases len,
    {
        assert(path@.take(len as int).drop_last() =~= path@.take(len - 1));
        len -= 1;
    }
    let kept = slice_subrange(path, 0, len);
    assert(kept@ =~= path@.take(len as int));
    match last_position(kept, '/') {
        Some(i) => {
            let tail = slice_subrange(kept, i + 1, len);
            assert(tail@ =~= kept@.skip(i + 1));
            tail
        },
        None => kept,
    }
}

/// The content type of a static file, by its extension.
pub fn asset_content_type(filename: &str) -> (r: &'static str)
    ensures
        r@ == content_type(filename@),
{
    let chars = chars_of(filename);
    let name = name_of_file(chars.as_slice());
    let len: usize = name.len();
    let extension = match last_position(name, '.') {
        Some(i) => {
            if i > 0 {
                let tail = slice_subrange(name, i + 1, len);
                assert(tail@ =~= name@.skip(i + 1));
                string_of(tail)
            } else {
                String::new()
            }
        },
        None => String::new(),
    };
    assert(extension@ =~= self::extension(name@));
    if same_str(extension.as_str(), "js") {
        "application/javascript; charset=utf-8"
    } else if same_str(extension.as_str(), "css") {
        "text/css; charset=utf-8"
    } else if same_str(extension.as_str(), "html") {
        "text/html; charset=utf-8"
    } else if same_str(extension.as_str(), "png") {
        "image/png"
    } else {
        "application/octet-stream"
    }
}

/// A safe name is one that is made of letters, digits, dots, dashes and underscores.
pub proof fn safe_names_are_plain(name: Seq<char>)
    ensures
        is_safe(name) <==> name.len() > 0 && forall|i: int|
            0 <= i < name.len() ==> {
                let c = #[trigger] name[i];
                ('0' <= c && c <= '9') || ('a' <= c && c <= 'z') || ('A' <= c && c <= 'Z') || c
                    == '.' || c == '-' || c == '_'
            },
{
    if is_safe(name) {
        assert forall|i: int| 0 <= i < name.len() implies {
            let c = #[trigger] name[i];
            ('0' <= c && c <= '9') || ('a' <= c && c <= 'z') || ('A' <= c && c <= 'Z') || c == '.'
                || c == '-' || c == '_'
        } by {
            assert(is_safe_char(name[i]));
        }
    }
}

/// The extension is what stands behind the last dot of a file's name, where something
/// stands before it.
pub proof fn extension_is_behind_the_dot(stem: Seq<char>, ending: Seq<char>)
    requires
        stem.len() > 0,
        stem[stem.len() - 1] != '/',
        ending.len() > 0,
        text::lacks(ending, '.'),
        text::lacks(ending, '/'),
    ensures
        extension(file_name(stem + seq!['.'] + ending)) == ending,
{
    let path = stem + seq!['.'] + ending;
    assert(path.last() == ending[ending.len() - 1]);
    text::last_index_is_last(path, '/');
    match text::last_index(path, '/') {
        Some(i) => {
            if i > stem.len() {
                assert(path[i] == ending[i - stem.len() - 1]);
            }
            assert(i < stem.len() - 1);
            let head = stem.skip(i + 1);
            assert(path.skip(i + 1) =~= head + seq!['.'] + ending);
            text::last_behind(head, '.', ending);
        },
        None => {
            text::last_behind(stem, '.', ending);
        },
    }
}

/// Scripts, style sheets, pages and pictures are told by the ends of their names, and every
/// other file is sent as mere bytes.
pub proof fn content_types_are_told_by_the_name(stem: Seq<char>, ending: Seq<char>)
    requires
        stem.len() > 0,
        stem[stem.len() - 1] != '/',
        ending.len() > 0,
        text::lacks(ending, '.'),
        text::lacks(ending, '/'),
    ensures
        content_type(stem + seq!['.'] + ending) == (if ending == seq!['j', 's'] {
            "application/javascript; charset=utf-8"@
        } else if ending == seq!['c', 's', 's'] {
            "text/css; charset=utf-8"@
        } else if ending == seq!['h', 't', 'm', 'l'] {
            "text/html; charset=utf-8"@
        } else if ending == seq!['p', 'n', 'g'] {
            "image/png"@
        } else {
            "application/octet-stream"@
        }),
{
    extension_is_behind_the_dot(stem, ending);
    reveal_strlit("js");
    reveal_strlit("css");
    reveal_strlit("html");
    reveal_strlit("png");
    assert("js"@ =~= seq!['j', 's']);
    assert("css"@ =~= seq!['c', 's', 's']);
    assert("html"@ =~= seq!['h', 't', 'm', 'l']);
    assert("png"@ =~= seq!['p', 'n', 'g']);
}

/// A name without a dot, and one whose only dot comes first, is that of a file which is
/// sent as mere bytes.
pub proof fn other_files_are_bytes(name: Seq<char>)
    requires
        text::lacks(name, '.'),
        text::lacks(name, '/'),
    ensures
        content_type(name) == "application/octet-stream"@,
        content_type(seq!['.'] + name) == "application/octet-stream"@,
{
    reveal_strlit("js");
    reveal_strlit("css");
    reveal_strlit("html");
    reveal_strlit("png");
    let hidden = seq!['.'] + name;
    text::last_index_is_last(name, '/');
    text::last_index_is_last(name, '.');
    text::last_index_is_last(hidden, '/');
    assert(text::lacks(hidden, '/')) by {
        assert forall|i: int| 0 <= i < hidden.len() implies #[trigger] hidden[i] != '/' by {
            if i > 0 {
                assert(hidden[i] == name[i - 1]);
            }
        }
    }
    text::last_behind(seq![], '.', name);
    assert(seq![] + seq!['.'] + name =~= hidden);
    if name.len() > 0 {
        assert(name.last() == name[name.len() - 1]);
        assert(hidden.last() == name[name.len() - 1]);
    }
    assert(file_name(name) == name);
    assert(file_name(hidden) == hidden);
    assert(extension(name) =~= seq![]);
    assert(extension(hidden) =~= seq![]);
}

} // verus!
