//! Paths as text with `/` between their components: joining, and expanding a
//! leading `~` into the user's home directory.

use vstd::prelude::*;
use crate::text::{begins_with, chars_of, ends_with_char, finishes_with, starts_with_char};

verus! {

/// The character that separates the components of a path.
pub const SEPARATOR: char = '/';

/// The character that separates the components of a path on some platforms
/// beside the separator.
pub const BACKSLASH: char = '\\';

/// The character that stands for the home directory at the start of a path.
pub const HOME_MARKER: char = '~';

/// The character that sets the extension of a file name apart.
pub const DOT: char = '.';

/// Either of the two characters that separate the components of a path on
/// some platform.
pub open spec fn is_separator(c: char) -> bool {
    c == SEPARATOR || c == BACKSLASH
}

/// A name that is one component of a path: it is not empty and holds no
/// separator.
pub open spec fn is_plain_name(name: Seq<char>) -> bool {
    &&& name.len() > 0
    &&& forall|k: int| 0 <= k < name.len() ==> !is_separator(#[trigger] name[k])
}

/// `rest` adjoined to `base`. A `rest` that starts at the root replaces
/// `base`; otherwise the two are put together with exactly one separator
/// between them, unless `base` is empty or already ends with one.
pub open spec fn join_spec(base: Seq<char>, rest: Seq<char>) -> Seq<char> {
    if begins_with(rest, SEPARATOR) {
        rest
    } else if base.len() == 0 || finishes_with(base, SEPARATOR) {
        base + rest
    } else {
        base + seq![SEPARATOR] + rest
    }
}

/// The path is the marker followed by a separator and, maybe, more.
pub open spec fn is_home_prefixed(path: Seq<char>) -> bool {
    path.len() >= 2 && path[0] == HOME_MARKER && is_separator(path[1])
}

/// What a path expands to, given the home directory if there is one. A path
/// that is just the marker is the home directory. A path that starts with
/// the marker and a separator is the home directory joined with what follows
/// the separator. Any other path stays as it is, one that starts with the
/// marker and goes on with another character too; so does every path when no
/// home directory is known.
pub open spec fn expand_spec(path: Seq<char>, home: Option<Seq<char>>) -> Seq<char> {
    match home {
        Some(h) => if path.len() == 1 && path[0] == HOME_MARKER {
            h
        } else if is_home_prefixed(path) {
            join_spec(h, path.skip(2))
        } else {
            path
        },
        None => path,
    }
}

/// Whether the character separates the components of a path.
pub fn is_separator_char(c: char) -> (r: bool)
    ensures
        r == is_separator(c),
{
    c == SEPARATOR || c == BACKSLASH
}

/// Adjoins `rest` to `base`.
pub fn join(base: &str, rest: &str) -> (joined: String)
    ensures
        joined@ == join_spec(base@, rest@),
{
    if starts_with_char(rest, SEPARATOR) {
        String::from_str(rest)
    } else {
        let mut joined = String::from_str(base);
        if !(base.is_empty() || ends_with_char(base, SEPARATOR)) {
            proof {
                reveal_strlit("/");
            }
            joined.append("/");
        }
        joined.append(rest);
        joined
    }
}

/// Expands `path` against a home directory that the caller has looked up.
pub fn expand_with_home(path: &str, home: Option<&str>) -> (expanded: String)
    ensures
        expanded@ == expand_spec(
            path@,
            match home {
                Some(h) => Some(h@),
                None => None,
            },
        ),
{
    match home {
        Some(h) => {
            if !starts_with_char(path, HOME_MARKER) {
                String::from_str(path)
            } else {
                let n: usize = path.unicode_len();
                if n == 1 {
                    String::from_str(h)
                } else if is_separator_char(path.get_char(1)) {
                    let rest = path.substring_char(2, n);
                    join(h, rest)
                } else {
                    String::from_str(path)
                }
            }
        },
        None => String::from_str(path),
    }
}

/// `dirs::home_dir`: the home directory of the current user as the platform
/// reports it, as text, or nothing where the platform knows none. It depends
/// on the user and the environment, so nothing is claimed of the value.
#[verifier::external_body]
fn home_dir() -> (home: Option<String>) {
    dirs::home_dir().map(|p| p.to_string_lossy().into_owned())
}

/// Expands `path` against the current user's home directory: `~` alone and
/// `~` followed by a separator are expanded, every other path comes back as
/// it is. Which directory the home is depends on the machine; the result is
/// the expansion against whatever was found.
pub fn expand_tilde_path(path: &str) -> (expanded: String)
    ensures
        exists|home: Option<Seq<char>>| expanded@ == #[trigger] expand_spec(path@, home),
        !(path@.len() == 1 && path@[0] == HOME_MARKER) && !is_home_prefixed(path@) ==> expanded@
            == path@,
{
    let home = home_dir();
    match home {
        Some(h) => {
            let expanded = expand_with_home(path, Some(h.as_str()));
            expanded
        },
        None => {
            let expanded = expand_with_home(path, None);
            expanded
        },
    }
}

/// The path that the user typed, expanded as [`expand_tilde_path`] does.
pub fn expand_path(path: String) -> (expanded: String)
    ensures
        exists|home: Option<Seq<char>>| expanded@ == #[trigger] expand_spec(path@, home),
        !(path@.len() == 1 && path@[0] == HOME_MARKER) && !is_home_prefixed(path@) ==> expanded@
            == path@,
{
    expand_tilde_path(path.as_str())
}

/// The position of the last dot in a file name, or -1 where it has none.
pub open spec fn last_dot(name: Seq<char>) -> int
    decreases name.len(),
{
    if name.len() == 0 {
        -1
    } else if name.last() == DOT {
        name.len() - 1
    } else {
        last_dot(name.drop_last())
    }
}

/// A file name has an extension when its last dot is not its first
/// character, the name `..` excepted.
pub open spec fn has_extension(name: Seq<char>) -> bool {
    last_dot(name) > 0 && !(name.len() == 2 && name[0] == DOT)
}

/// The base name of a file: what stands before the last dot where the name
/// has an extension, and the whole name where it has none.
pub open spec fn stem_of(name: Seq<char>) -> Seq<char> {
    if has_extension(name) {
        name.take(last_dot(name))
    } else {
        name
    }
}

/// The extension of a file name: what follows its last dot, if it has one.
pub open spec fn extension_of(name: Seq<char>) -> Option<Seq<char>> {
    if has_extension(name) {
        Some(name.skip(last_dot(name) + 1))
    } else {
        None
    }
}

/// The last dot is a dot, and no dot follows it.
pub proof fn lemma_last_dot(name: Seq<char>)
    ensures
        -1 <= last_dot(name) < name.len(),
        last_dot(name) >= 0 ==> name[last_dot(name)] == DOT,
        forall|k: int| last_dot(name) < k < name.len() ==> name[k] != DOT,
    decreases name.len(),
{
    if name.len() > 0 && name.last() != DOT {
        let shorter = name.drop_last();
        lemma_last_dot(shorter);
        assert forall|k: int| last_dot(name) < k < name.len() implies name[k] != DOT by {
            if k < shorter.len() {
                assert(shorter[k] == name[k]);
            }
        }
    }
}

/// A dot after which no dot follows is the last dot.
pub proof fn lemma_last_dot_is(name: Seq<char>, at: int)
    requires
        0 <= at < name.len(),
        name[at] == DOT,
        forall|k: int| at < k < name.len() ==> name[k] != DOT,
    ensures
        last_dot(name) == at,
    decreases name.len(),
{
    if name.last() != DOT {
        lemma_last_dot_is(name.drop_last(), at);
    }
}

/// Finds the last dot among the characters of a file name.
pub fn find_last_dot(chars: &Vec<char>) -> (found: Option<usize>)
    ensures
        match found {
            Some(at) => at == last_dot(chars@),
            None => last_dot(chars@) == -1,
        },
{
    let mut end: usize = chars.len();
    assert(chars@.take(end as int) =~= chars@);
    while end > 0
        invariant
            0 <= end <= chars@.len(),
            last_dot(chars@) == last_dot(chars@.take(end as int)),
        decreases end,
    {
        if chars[end - 1] == DOT {
            return Some(end - 1);
        }
        assert(chars@.take(end as int).drop_last() =~= chars@.take(end - 1));
        end -= 1;
    }
    None
}

/// Where the extension of a file name is set apart: the position of its last
/// dot, if the name has an extension.
pub fn extension_dot(name: &str) -> (found: Option<usize>)
    ensures
        match found {
            Some(at) => has_extension(name@) && at == last_dot(name@),
            None => !has_extension(name@),
        },
{
    let chars = chars_of(name);
    match find_last_dot(&chars) {
        Some(at) => if at == 0 || (chars.len() == 2 && chars[0] == DOT) {
            None
        } else {
            Some(at)
        },
        None => None,
    }
}

/// The base name of a file.
pub fn file_stem(name: &str) -> (stem: String)
    ensures
        stem@ == stem_of(name@),
{
    match extension_dot(name) {
        Some(at) => {
            proof {
                lemma_last_dot(name@);
            }
            String::from_str(name.substring_char(0, at))
        },
        None => String::from_str(name),
    }
}

/// The extension of a file name, if it has one.
pub fn file_extension(name: &str) -> (extension: Option<String>)
    ensures
        extension_of(name@) == (match extension {
            Some(e) => Some(e@),
            None => None,
        }),
{
    match extension_dot(name) {
        Some(at) => {
            proof {
                lemma_last_dot(name@);
            }
            let n: usize = name.unicode_len();
            let e = String::from_str(name.substring_char(at + 1, n));
            Some(e)
        },
        None => None,
    }
}

} // verus!
