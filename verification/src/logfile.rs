//! The text format of a daily log: one record per line, the name, a colon,
//! the seconds in decimal, a line feed.
//!
//! Reading is tolerant. The name is everything before the first colon of a
//! line; the seconds are what follows, with ASCII white space around the
//! digits ignored. An empty line is passed over. Any other line that does
//! not give a name and a count is skipped and counted, and reading goes on
//! with the next line.

use vstd::prelude::*;
use crate::decimal::{
    decimal_text, decimal_value, is_digit, lemma_decimal_text_value, parse_decimal,
    push_decimal,
};
use crate::log::{has_name, well_formed, with_count, DailyLog};
use crate::text::{chars_of, string_of};

verus! {

/// How many characters of `s` stand before the first `c`; the length of `s`
/// where `c` does not occur.
pub open spec fn first_index(s: Seq<char>, c: char) -> nat
    decreases s.len(),
{
    if s.len() == 0 || s[0] == c {
        0
    } else {
        1 + first_index(s.drop_first(), c)
    }
}

/// ASCII white space.
pub open spec fn is_blank(c: char) -> bool {
    c == ' ' || ('\t' <= c && c <= '\r')
}

/// `s` without its leading white space.
pub open spec fn trim_start(s: Seq<char>) -> Seq<char>
    decreases s.len(),
{
    if s.len() > 0 && is_blank(s[0]) {
        trim_start(s.drop_first())
    } else {
        s
    }
}

/// `s` without its trailing white space.
pub open spec fn trim_end(s: Seq<char>) -> Seq<char>
    decreases s.len(),
{
    if s.len() > 0 && is_blank(s.last()) {
        trim_end(s.drop_last())
    } else {
        s
    }
}

/// `s` without the white space at either end.
pub open spec fn trimmed(s: Seq<char>) -> Seq<char> {
    trim_end(trim_start(s))
}

/// The record that `line` gives, if it gives one.
pub open spec fn read_line(line: Seq<char>) -> Option<(Seq<char>, nat)> {
    let colon = first_index(line, ':') as int;
    if colon >= line.len() {
        None
    } else {
        match decimal_value(trimmed(line.subrange(colon + 1, line.len() as int))) {
            Some(seconds) => Some((line.subrange(0, colon), seconds as nat)),
            None => None,
        }
    }
}

/// The records read so far and the number of lines skipped, after `line`.
pub open spec fn after_line(state: (Seq<(Seq<char>, nat)>, nat), line: Seq<char>) -> (
    Seq<(Seq<char>, nat)>,
    nat,
) {
    if line.len() == 0 {
        state
    } else {
        match read_line(line) {
            Some(record) => (with_count(state.0, record.0, record.1), state.1),
            None => (state.0, state.1 + 1),
        }
    }
}

/// The same after every line of `text`, first to last. Lines end at a line
/// feed or at the end of the text.
pub open spec fn after_text(state: (Seq<(Seq<char>, nat)>, nat), text: Seq<char>) -> (
    Seq<(Seq<char>, nat)>,
    nat,
)
    decreases text.len(),
{
    let end = first_index(text, '\n') as int;
    let next = after_line(state, text.subrange(0, end));
    if end >= text.len() {
        next
    } else {
        after_text(next, text.subrange(end + 1, text.len() as int))
    }
}

/// What reading `text` from nothing gives: the records, and the number of
/// lines skipped.
pub open spec fn parsed(text: Seq<char>) -> (Seq<(Seq<char>, nat)>, nat) {
    after_text((Seq::empty(), 0), text)
}

/// The line that stores `record`.
pub open spec fn line_text(record: (Seq<char>, nat)) -> Seq<char> {
    record.0 + seq![':'] + decimal_text(record.1) + seq!['\n']
}

/// The text that stores `entries`, one line each, in order.
pub open spec fn log_text(entries: Seq<(Seq<char>, nat)>) -> Seq<char>
    decreases entries.len(),
{
    if entries.len() == 0 {
        Seq::empty()
    } else {
        log_text(entries.drop_last()) + line_text(entries.last())
    }
}

/// Reading an empty text changes nothing.
pub proof fn lemma_nothing_left(text: Seq<char>)
    requires
        text.len() == 0,
    ensures
        forall|state: (Seq<(Seq<char>, nat)>, nat)| #[trigger] after_text(state, text) == state,
{
    assert(text.subrange(0, 0).len() == 0);
}

/// Where the first `c` of a sequence stands, told from what comes before it.
pub proof fn lemma_first_index(s: Seq<char>, c: char, k: int)
    requires
        0 <= k <= s.len(),
        forall|i: int| 0 <= i < k ==> s[i] != c,
        k == s.len() || s[k] == c,
    ensures
        first_index(s, c) == k,
    decreases k,
{
    if k > 0 {
        let tail = s.drop_first();
        assert forall|i: int| 0 <= i < k - 1 implies tail[i] != c by {
            assert(tail[i] == s[i + 1]);
        }
        lemma_first_index(tail, c, k - 1);
    }
}

/// What is left of a sequence whose first `k` characters are its leading
/// white space.
pub proof fn lemma_trim_start(s: Seq<char>, k: int)
    requires
        0 <= k <= s.len(),
        forall|i: int| 0 <= i < k ==> is_blank(s[i]),
        k == s.len() || !is_blank(s[k]),
    ensures
        trim_start(s) == s.subrange(k, s.len() as int),
    decreases k,
{
    if k == 0 {
        assert(s.subrange(0, s.len() as int) =~= s);
    } else {
        let tail = s.drop_first();
        assert forall|i: int| 0 <= i < k - 1 implies is_blank(tail[i]) by {
            assert(tail[i] == s[i + 1]);
        }
        lemma_trim_start(tail, k - 1);
        assert(tail.subrange(k - 1, tail.len() as int) =~= s.subrange(k, s.len() as int));
    }
}

/// What is left of a sequence whose trailing white space begins at `k`.
pub proof fn lemma_trim_end(s: Seq<char>, k: int)
    requires
        0 <= k <= s.len(),
        forall|i: int| k <= i < s.len() ==> is_blank(s[i]),
        k == 0 || !is_blank(s[k - 1]),
    ensures
        trim_end(s) == s.subrange(0, k),
    decreases s.len() - k,
{
    if k == s.len() {
        assert(s.subrange(0, k) =~= s);
    } else {
        let front = s.drop_last();
        lemma_trim_end(front, k);
        assert(front.subrange(0, k) =~= s.subrange(0, k));
    }
}

/// The index of the first `c` in `chars[from..to]`, or `to` if there is none.
fn find_char(chars: &Vec<char>, from: usize, to: usize, c: char) -> (at: usize)
    requires
        from <= to <= chars.len(),
    ensures
        from <= at <= to,
        at - from == first_index(chars@.subrange(from as int, to as int), c),
{
    let mut at: usize = from;
    while at < to && chars[at] != c
        invariant
            from <= at <= to <= chars.len(),
            forall|i: int| from <= i < at ==> chars@[i] != c,
        decreases to - at,
    {
        at = at + 1;
    }
    proof {
        lemma_first_index(chars@.subrange(from as int, to as int), c, at - from);
    }
    at
}

/// Whether `c` is ASCII white space.
fn blank(c: char) -> (b: bool)
    ensures
        b == is_blank(c),
{
    c == ' ' || ('\t' <= c && c <= '\r')
}

/// The bounds of `chars[from..to]` without the white space at either end.
fn trim_bounds(chars: &Vec<char>, from: usize, to: usize) -> (bounds: (usize, usize))
    requires
        from <= to <= chars.len(),
    ensures
        from <= bounds.0 <= bounds.1 <= to,
        chars@.subrange(bounds.0 as int, bounds.1 as int) == trimmed(
            chars@.subrange(from as int, to as int),
        ),
{
    let mut lo: usize = from;
    while lo < to && blank(chars[lo])
        invariant
            from <= lo <= to <= chars.len(),
            forall|i: int| from <= i < lo ==> is_blank(chars@[i]),
        decreases to - lo,
    {
        lo = lo + 1;
    }
    let mut hi: usize = to;
    while hi > lo && blank(chars[hi - 1])
        invariant
            lo <= hi <= to <= chars.len(),
            forall|i: int| hi <= i < to ==> is_blank(chars@[i]),
        decreases hi - lo,
    {
        hi = hi - 1;
    }
    proof {
        let whole = chars@.subrange(from as int, to as int);
        lemma_trim_start(whole, lo - from);
        let rest = whole.subrange(lo - from, whole.len() as int);
        assert(rest =~= chars@.subrange(lo as int, to as int));
        lemma_trim_end(rest, hi - lo);
        assert(rest.subrange(0, hi - lo) =~= chars@.subrange(lo as int, hi as int));
    }
    (lo, hi)
}

/// Reads `chars[from..to]` as one record.
fn read_line_at(chars: &Vec<char>, from: usize, to: usize) -> (record: Option<(String, u64)>)
    requires
        from <= to <= chars.len(),
    ensures
        match (read_line(chars@.subrange(from as int, to as int)), record) {
            (Some(expected), Some(found)) => found.0@ == expected.0 && found.1 == expected.1,
            (None, None) => true,
            _ => false,
        },
{
    let ghost line = chars@.subrange(from as int, to as int);
    let colon = find_char(chars, from, to, ':');
    if colon == to {
        return None;
    }
    let (lo, hi) = trim_bounds(chars, colon + 1, to);
    proof {
        assert(line.subrange(colon - from + 1, line.len() as int) =~= chars@.subrange(
            colon + 1,
            to as int,
        ));
        assert(line.subrange(0, colon - from) =~= chars@.subrange(from as int, colon as int));
    }
    match parse_decimal(chars, lo, hi) {
        Some(seconds) => Some((string_of(chars, from, colon), seconds)),
        None => None,
    }
}

/// What reading a stored log gave.
#[derive(Clone, Debug)]
pub struct ParseOutcome {
    /// The records read.
    pub log: DailyLog,
    /// How many lines gave no record and were skipped.
    pub skipped: usize,
}

/// Reads a stored log. Never fails: a line that gives no record is skipped
/// and counted, and an empty text gives an empty log.
pub fn parse(text: &str) -> (outcome: ParseOutcome)
    ensures
        outcome.log@ == parsed(text@).0,
        outcome.skipped == parsed(text@).1,
        well_formed(outcome.log@),
{
    let chars = chars_of(text);
    let n: usize = chars.len();
    let mut log = DailyLog::new();
    let mut skipped: usize = 0;
    let mut pos: usize = 0;
    proof {
        assert(chars@.subrange(0, n as int) =~= text@);
    }
    while pos < n
        invariant
            n == chars.len(),
            pos <= n,
            skipped <= pos,
            well_formed(log@),
            after_text((log@, skipped as nat), chars@.subrange(pos as int, n as int)) == parsed(
                text@,
            ),
        decreases n - pos,
    {
        let ghost rest = chars@.subrange(pos as int, n as int);
        let end = find_char(&chars, pos, n, '\n');
        proof {
            assert(rest.subrange(0, end - pos) =~= chars@.subrange(pos as int, end as int));
            if end < n {
                assert(rest.subrange(end - pos + 1, rest.len() as int) =~= chars@.subrange(
                    end + 1,
                    n as int,
                ));
            } else {
                lemma_nothing_left(chars@.subrange(n as int, n as int));
            }
        }
        if end > pos {
            match read_line_at(&chars, pos, end) {
                Some((name, seconds)) => {
                    log.set(name.as_str(), seconds);
                },
                None => {
                    skipped = skipped + 1;
                },
            }
        }
        pos = if end < n {
            end + 1
        } else {
            n
        };
    }
    proof {
        lemma_nothing_left(chars@.subrange(n as int, n as int));
    }
    ParseOutcome { log, skipped }
}

/// What loading a day gives: the stored log where there is one, an empty
/// log where nothing was stored for that day.
pub fn load_day(stored: Option<&str>) -> (outcome: ParseOutcome)
    ensures
        well_formed(outcome.log@),
        stored is None ==> outcome.log@.len() == 0 && outcome.skipped == 0,
        stored is Some ==> outcome.log@ == parsed(stored->0@).0 && outcome.skipped == parsed(
            stored->0@,
        ).1,
{
    match stored {
        Some(text) => parse(text),
        None => ParseOutcome { log: DailyLog::new(), skipped: 0 },
    }
}

/// The text that stores `log`: every record on a line of its own, in the
/// order of the log.
pub fn serialize(log: &DailyLog) -> (text: String)
    requires
        well_formed(log@),
    ensures
        text@ == log_text(log@),
{
    let mut out: Vec<char> = Vec::new();
    let mut i: usize = 0;
    proof {
        assert(log@.subrange(0, 0) =~= Seq::<(Seq<char>, nat)>::empty());
    }
    while i < log.len()
        invariant
            0 <= i <= log@.len(),
            out@ == log_text(log@.subrange(0, i as int)),
        decreases log@.len() - i,
    {
        let ghost before = out@;
        let name = chars_of(log.name_at(i).as_str());
        let mut k: usize = 0;
        while k < name.len()
            invariant
                0 <= k <= name.len(),
                out@ == before + name@.subrange(0, k as int),
            decreases name.len() - k,
        {
            out.push(name[k]);
            proof {
                assert(name@.subrange(0, k + 1) =~= name@.subrange(0, k as int).push(name@[k as int]));
            }
            k = k + 1;
        }
        out.push(':');
        push_decimal(&mut out, log.seconds_at(i) as u128);
        out.push('\n');
        proof {
            let upto = log@.subrange(0, i + 1);
            assert(upto.drop_last() =~= log@.subrange(0, i as int));
            assert(upto.last() == log@[i as int]);
            assert(name@.subrange(0, name.len() as int) =~= name@);
            assert(out@ =~= before + line_text(log@[i as int]));
        }
        i = i + 1;
    }
    proof {
        assert(log@.subrange(0, log@.len() as int) =~= log@);
    }
    string_of(&out, 0, out.len())
}

/// An empty file reads as an empty log with no line skipped: as a day
/// that has no file at all.
pub proof fn lemma_empty_text_is_empty_log()
    ensures
        parsed(Seq::<char>::empty()) == (Seq::<(Seq<char>, nat)>::empty(), 0nat),
{
    lemma_nothing_left(Seq::<char>::empty());
}

/// Whether a name can be stored and read back: it holds neither the colon
/// that ends a name nor the line feed that ends a record.
pub open spec fn storable_name(name: Seq<char>) -> bool {
    forall|i: int| 0 <= i < name.len() ==> name[i] != ':' && name[i] != '\n'
}

/// Whether every name of `entries` can be stored and read back.
pub open spec fn storable(entries: Seq<(Seq<char>, nat)>) -> bool {
    forall|i: int| 0 <= i < entries.len() ==> storable_name((#[trigger] entries[i]).0)
}

/// The stored text begins with the line of the first record.
pub proof fn lemma_log_text_front(entries: Seq<(Seq<char>, nat)>)
    requires
        entries.len() > 0,
    ensures
        log_text(entries) == line_text(entries[0]) + log_text(entries.drop_first()),
    decreases entries.len(),
{
    let front = entries.drop_last();
    let tail = entries.drop_first();
    if entries.len() == 1 {
        assert(log_text(front) =~= Seq::<char>::empty());
        assert(log_text(tail) =~= Seq::<char>::empty());
        assert(log_text(entries) =~= line_text(entries[0]) + log_text(tail));
    } else {
        lemma_log_text_front(front);
        assert(front.drop_first() =~= tail.drop_last());
        assert(front[0] == entries[0]);
        assert(tail.last() == entries.last());
        assert(log_text(entries) =~= line_text(entries[0]) + log_text(tail));
    }
}

/// Reading the stored text of `entries` after `before` appends exactly
/// `entries`, and skips no line.
proof fn lemma_read_back(before: Seq<(Seq<char>, nat)>, skipped: nat, entries: Seq<(Seq<char>, nat)>)
    requires
        well_formed(before + entries),
        storable(entries),
    ensures
        after_text((before, skipped), log_text(entries)) == (before + entries, skipped),
    decreases entries.len(),
{
    let all = before + entries;
    if entries.len() == 0 {
        lemma_nothing_left(log_text(entries));
        assert(all =~= before);
    } else {
        let first = entries[0];
        let name = first.0;
        let rest = entries.drop_first();
        let digits = decimal_text(first.1);
        let line = name + seq![':'] + digits;
        let text = log_text(entries);
        lemma_log_text_front(entries);
        lemma_decimal_text_value(first.1);
        assert(all[before.len() as int] == first);
        assert(storable_name(name));
        assert forall|i: int| 0 <= i < digits.len() implies digits[i] != '\n' && digits[i] != ':'
            && !is_blank(digits[i]) by {
            assert(is_digit(digits[i]));
        }
        // The first line of the text is the line of the first record.
        assert(text =~= line + seq!['\n'] + log_text(rest));
        assert forall|i: int| 0 <= i < line.len() implies line[i] != '\n' by {
            if i < name.len() {
                assert(line[i] == name[i]);
            } else if i > name.len() {
                assert(line[i] == digits[i - name.len() - 1]);
            }
        }
        lemma_first_index(text, '\n', line.len() as int);
        assert(text.subrange(0, line.len() as int) =~= line);
        assert(text.subrange(line.len() as int + 1, text.len() as int) =~= log_text(rest));
        // The line gives the first record back.
        assert forall|i: int| 0 <= i < name.len() implies line[i] != ':' by {
            assert(line[i] == name[i]);
        }
        lemma_first_index(line, ':', name.len() as int);
        let field = line.subrange(name.len() as int + 1, line.len() as int);
        assert(field =~= digits);
        lemma_trim_start(digits, 0);
        assert(digits.subrange(0, digits.len() as int) =~= digits);
        lemma_trim_end(digits, digits.len() as int);
        assert(trimmed(field) == digits);
        assert(line.subrange(0, name.len() as int) =~= name);
        assert(decimal_value(digits) == Some(first.1 as u64));
        assert(read_line(line) == Some((name, first.1)));
        // The name is new, so the record goes to the end.
        assert forall|i: int| 0 <= i < before.len() implies (#[trigger] before[i]).0 != name by {
            assert(all[i] == before[i]);
        }
        assert(!has_name(before, name));
        let grown = before.push(first);
        assert(after_line((before, skipped), line) == (grown, skipped));
        assert(grown + rest =~= all);
        assert forall|i: int| 0 <= i < rest.len() implies storable_name((#[trigger] rest[i]).0) by {
            assert(rest[i] == entries[i + 1]);
        }
        lemma_read_back(grown, skipped, rest);
    }
}

/// A log that is stored and read back comes out as it went in, with every
/// record in its place and no line skipped, provided that no name holds a
/// colon or a line feed.
pub proof fn lemma_round_trip(entries: Seq<(Seq<char>, nat)>)
    requires
        well_formed(entries),
        storable(entries),
    ensures
        parsed(log_text(entries)) == (entries, 0nat),
{
    let nothing = Seq::<(Seq<char>, nat)>::empty();
    assert(nothing + entries =~= entries);
    lemma_read_back(nothing, 0, entries);
}

} // verus!
