//! From a process to the name under which its time is counted.
//!
//! The name is the executable's name without its four-character extension,
//! with its first character in uppercase, as the standard library maps it. A process that only hosts other
//! applications says nothing by its own name, so for it the title of the
//! focused window is taken.

use vstd::prelude::*;
use vstd::string::StringExecFns;
use crate::text::{chars_of, text_of};

verus! {

/// How many trailing characters of an executable's name are its extension.
pub const EXTENSION_LENGTH: usize = 4;

/// The display name of the process that hosts packaged applications.
pub open spec fn host_process() -> Seq<char> {
    "ApplicationFrameHost"@
}

/// The uppercase mapping of `c` as the standard library computes it; one
/// character or several.
pub uninterp spec fn uppercase_of(c: char) -> Seq<char>;

/// The uppercase mapping of an ASCII character: for `'a'` to `'z'` the
/// letter 32 places before, for any other the character itself.
pub open spec fn ascii_uppercase_of(c: char) -> char {
    if 'a' <= c && c <= 'z' {
        ((c as u32) - 32) as char
    } else {
        c
    }
}

/// `char::to_uppercase`, collected. The result is the named mapping of the
/// character. Of an ASCII character the mapping is one character: the
/// capital of a small letter, and the character itself where it has no
/// uppercase mapping. Of other characters nothing more is claimed.
#[verifier::external_body]
fn to_uppercase(c: char) -> (upper: Vec<char>)
    ensures
        upper@ == uppercase_of(c),
        c as u32 <= 127 ==> upper@ == seq![ascii_uppercase_of(c)],
{
    c.to_uppercase().collect()
}

/// `name` without its extension: all but the last four characters, nothing
/// where there are no more than four.
pub open spec fn stem_of(name: Seq<char>) -> Seq<char> {
    if name.len() <= EXTENSION_LENGTH {
        Seq::empty()
    } else {
        name.subrange(0, name.len() - EXTENSION_LENGTH)
    }
}

/// The capital form of `c`, which is its uppercase mapping: written out
/// for an ASCII character, named for any other.
pub open spec fn capital_of(c: char) -> Seq<char> {
    if c as u32 <= 127 {
        seq![ascii_uppercase_of(c)]
    } else {
        uppercase_of(c)
    }
}

/// `s` with its first character replaced by that character's capital form.
pub open spec fn capitalized(s: Seq<char>) -> Seq<char> {
    if s.len() == 0 {
        s
    } else {
        capital_of(s[0]) + s.drop_first()
    }
}

/// The display name of the process whose executable is named `name`.
pub open spec fn display_name_of(name: Seq<char>) -> Seq<char> {
    capitalized(stem_of(name))
}

/// The name under which a tick is counted, if any: none where no process
/// was found, the window title where the process is the host process, the
/// display name otherwise; none again where that name is empty.
pub open spec fn identity_of(process_name: Option<Seq<char>>, window_title: Seq<char>) -> Option<
    Seq<char>,
> {
    match process_name {
        None => None,
        Some(name) => {
            let shown = if display_name_of(name) == host_process() {
                window_title
            } else {
                display_name_of(name)
            };
            if shown.len() == 0 {
                None
            } else {
                Some(shown)
            }
        },
    }
}

/// The string that begins with `initial` and goes on with `chars[from..to]`.
pub fn join_initial(initial: &Vec<char>, chars: &Vec<char>, from: usize, to: usize) -> (joined:
    String)
    requires
        from <= to <= chars.len(),
    ensures
        joined@ == initial@ + chars@.subrange(from as int, to as int),
{
    let mut joined = String::new();
    let mut i: usize = 0;
    while i < initial.len()
        invariant
            0 <= i <= initial.len(),
            joined@ == initial@.subrange(0, i as int),
        decreases initial.len() - i,
    {
        joined.push(initial[i]);
        assert(initial@.subrange(0, i + 1) =~= initial@.subrange(0, i as int).push(
            initial@[i as int],
        ));
        i = i + 1;
    }
    assert(initial@.subrange(0, initial.len() as int) =~= initial@);
    let mut k: usize = from;
    while k < to
        invariant
            from <= k <= to <= chars.len(),
            joined@ == initial@ + chars@.subrange(from as int, k as int),
        decreases to - k,
    {
        joined.push(chars[k]);
        assert(chars@.subrange(from as int, k + 1) =~= chars@.subrange(from as int, k as int).push(
            chars@[k as int],
        ));
        assert(joined@ =~= initial@ + chars@.subrange(from as int, k + 1));
        k = k + 1;
    }
    joined
}

/// The display name of the process whose executable is named
/// `process_name`: the extension goes, the first letter becomes a capital.
pub fn display_name(process_name: &str) -> (shown: String)
    ensures
        shown@ == display_name_of(process_name@),
{
    let chars = chars_of(process_name);
    if chars.len() <= EXTENSION_LENGTH {
        return String::new();
    }
    let end: usize = chars.len() - EXTENSION_LENGTH;
    let initial = to_uppercase(chars[0]);
    proof {
        let stem = stem_of(process_name@);
        assert(stem.drop_first() =~= chars@.subrange(1, end as int));
    }
    join_initial(&initial, &chars, 1, end)
}

/// The name under which a tick is counted. `process_name` is the
/// executable's name of the process that owns the focused window, absent
/// where there was no such window or the process was gone; `window_title`
/// is the title of that window.
pub fn identify(process_name: Option<&str>, window_title: &str) -> (name: Option<String>)
    ensures
        name is Some <==> identity_of(text_of(process_name), window_title@) is Some,
        name is Some ==> Some(name->0@) == identity_of(text_of(process_name), window_title@),
        name is Some ==> name->0@.len() > 0,
        process_name is Some && display_name_of(process_name->0@) == host_process()
            && window_title@.len() > 0 ==> name is Some && name->0@ == window_title@,
{
    match process_name {
        None => None,
        Some(process) => {
            let shown = display_name(process);
            let host = String::from_str("ApplicationFrameHost");
            let chosen = if shown == host {
                String::from_str(window_title)
            } else {
                shown
            };
            if chosen.as_str().unicode_len() == 0 {
                None
            } else {
                Some(chosen)
            }
        },
    }
}

} // verus!
