//! One observation of the foreground: the process that owns the focused
//! window, and the window's title, never longer than `TITLE_CAPACITY`.
//!
//! The window manager is asked by the caller. It answers with a process
//! id, zero where no window has the focus, and with the title as UTF-16
//! units copied into a buffer of fixed length. What is made of that answer
//! is decided here.

use vstd::prelude::*;

verus! {

/// How many UTF-16 units of a title are read; a longer title is cut.
pub const TITLE_CAPACITY: usize = 255;

/// The first unit of a surrogate pair.
pub open spec fn is_high_surrogate(unit: u16) -> bool {
    0xD800 <= unit && unit <= 0xDBFF
}

/// The second unit of a surrogate pair.
pub open spec fn is_low_surrogate(unit: u16) -> bool {
    0xDC00 <= unit && unit <= 0xDFFF
}

/// The character that a surrogate pair encodes.
pub open spec fn paired(high: u16, low: u16) -> char {
    (0x10000 + (high - 0xD800) * 0x400 + (low - 0xDC00)) as char
}

/// The text that `units` encode in UTF-16, read leniently: a unit that is
/// no surrogate is its character, a high surrogate followed by a low one is
/// the character of the pair, and any other surrogate is the replacement
/// character U+FFFD.
pub open spec fn utf16_lossy(units: Seq<u16>) -> Seq<char>
    decreases units.len(),
{
    if units.len() == 0 {
        Seq::empty()
    } else if !is_high_surrogate(units[0]) && !is_low_surrogate(units[0]) {
        seq![units[0] as char] + utf16_lossy(units.subrange(1, units.len() as int))
    } else if is_high_surrogate(units[0]) && units.len() >= 2 && is_low_surrogate(units[1]) {
        seq![paired(units[0], units[1])] + utf16_lossy(units.subrange(2, units.len() as int))
    } else {
        seq!['\u{FFFD}'] + utf16_lossy(units.subrange(1, units.len() as int))
    }
}

/// A text has no more characters than it has units.
pub proof fn lemma_utf16_lossy_len(units: Seq<u16>)
    ensures
        utf16_lossy(units).len() <= units.len(),
    decreases units.len(),
{
    if units.len() > 0 {
        lemma_utf16_lossy_len(units.subrange(1, units.len() as int));
        if units.len() >= 2 {
            lemma_utf16_lossy_len(units.subrange(2, units.len() as int));
        }
    }
}

/// Units that hold no surrogate are read one character each.
pub proof fn lemma_utf16_lossy_plain(units: Seq<u16>)
    requires
        forall|i: int|
            0 <= i < units.len() ==> !is_high_surrogate(#[trigger] units[i]) && !is_low_surrogate(
                units[i],
            ),
    ensures
        utf16_lossy(units) == Seq::new(units.len(), |i: int| units[i] as char),
    decreases units.len(),
{
    if units.len() > 0 {
        let rest = units.subrange(1, units.len() as int);
        assert forall|i: int| 0 <= i < rest.len() implies !is_high_surrogate(#[trigger] rest[i])
            && !is_low_surrogate(rest[i]) by {
            assert(rest[i] == units[i + 1]);
        }
        lemma_utf16_lossy_plain(rest);
        assert(utf16_lossy(units) =~= Seq::new(units.len(), |i: int| units[i] as char));
    } else {
        assert(utf16_lossy(units) =~= Seq::new(units.len(), |i: int| units[i] as char));
    }
}

/// `String::from_utf16_lossy` on the first `to` units. It decodes UTF-16
/// and puts the replacement character U+FFFD for every surrogate that has
/// no partner.
#[verifier::external_body]
fn decode_utf16_lossy(units: &Vec<u16>, to: usize) -> (text: String)
    requires
        to <= units.len(),
    ensures
        text@ == utf16_lossy(units@.subrange(0, to as int)),
{
    String::from_utf16_lossy(&units[..to])
}

/// An observation of the foreground.
#[derive(Clone, Debug, PartialEq, Eq)]
pub struct Sample {
    /// The process that owns the focused window.
    pub process_id: u32,
    /// The title of the focused window.
    pub window_title: String,
}

/// How many units of a buffer of `length` units make the title, where the
/// window manager reports `copied` units: never fewer than none, never more
/// than the buffer holds or the capacity allows.
pub open spec fn title_length(length: nat, copied: int) -> nat {
    let wanted = if copied < 0 {
        0
    } else {
        copied as nat
    };
    let held = if wanted > length {
        length
    } else {
        wanted
    };
    if held > TITLE_CAPACITY {
        TITLE_CAPACITY as nat
    } else {
        held
    }
}

/// The observation that the window manager's answer amounts to: none where
/// it named no process, else the process with the title decoded from the
/// units that were copied.
pub fn read_sample(process_id: u32, units: &Vec<u16>, copied: i32) -> (sample: Option<Sample>)
    ensures
        sample is Some <==> process_id != 0,
        sample is Some ==> sample->0.process_id == process_id,
        sample is Some ==> sample->0.window_title@ == utf16_lossy(
            units@.subrange(0, title_length(units@.len(), copied as int) as int),
        ),
        sample is Some ==> sample->0.window_title@.len() <= TITLE_CAPACITY,
{
    if process_id == 0 {
        return None;
    }
    let mut to: usize = if copied <= 0 {
        0
    } else {
        copied as usize
    };
    if to > units.len() {
        to = units.len();
    }
    if to > TITLE_CAPACITY {
        to = TITLE_CAPACITY;
    }
    proof {
        lemma_utf16_lossy_len(units@.subrange(0, to as int));
    }
    Some(Sample { process_id, window_title: decode_utf16_lossy(units, to) })
}

} // verus!
