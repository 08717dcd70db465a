//! What a viewer of the logs decides: which records make the chart, how a
//! duration is written, and where a step to the day before or the day
//! after leads.
//!
//! Drawing is left to the caller, and so is reading the log of a day. The
//! viewer says which day it wants to see; the caller reads that day's log
//! and hands it over.

use vstd::prelude::*;
use rand::Rng;
use crate::date::{day_after, day_before, precedes, Date};
use crate::decimal::{decimal_text, push_decimal};
use crate::log::{well_formed, DailyLog};
use crate::text::{chars_of, string_of};

verus! {

/// The colour of a chart segment.
#[derive(Clone, Copy, Debug, PartialEq, Eq, Structural)]
pub struct Shade {
    pub red: u8,
    pub green: u8,
    pub blue: u8,
}

/// One segment of the chart.
#[derive(Clone, Debug)]
pub struct ChartRow {
    pub name: String,
    pub seconds: u64,
    pub shade: Shade,
}

/// The bound of a colour channel: every channel of a shade lies below it.
pub const SHADE_LIMIT: u8 = 255;

/// `rand::thread_rng().gen_range(0..bound)`: a number picked at random.
/// Every outcome lies below `bound`, and nothing else is known of it. The
/// generator is seeded by the system on first use and gives up if the
/// system cannot seed it.
#[verifier::external_body]
fn random_below(bound: u8) -> (value: u8)
    requires
        bound > 0,
    ensures
        value < bound,
{
    rand::thread_rng().gen_range(0..bound)
}

/// A shade picked at random, each channel below `SHADE_LIMIT`.
fn random_shade() -> (shade: Shade)
    ensures
        within_limit(shade),
{
    let red = random_below(SHADE_LIMIT);
    let green = random_below(SHADE_LIMIT);
    let blue = random_below(SHADE_LIMIT);
    Shade { red, green, blue }
}

/// Whether every channel of `shade` lies below `SHADE_LIMIT`.
pub open spec fn within_limit(shade: Shade) -> bool {
    shade.red < SHADE_LIMIT && shade.green < SHADE_LIMIT && shade.blue < SHADE_LIMIT
}

/// Whether every shade of `shades` has its channels below `SHADE_LIMIT`.
pub open spec fn all_within_limit(shades: Seq<Shade>) -> bool {
    forall|i: int| 0 <= i < shades.len() ==> within_limit(#[trigger] shades[i])
}

/// The shade of each row.
pub open spec fn shades_view(rows: Seq<ChartRow>) -> Seq<Shade> {
    Seq::new(rows.len(), |i: int| rows[i].shade)
}

/// The records of `entries` that the chart shows: those with time on them,
/// in their order.
pub open spec fn charted(entries: Seq<(Seq<char>, nat)>) -> Seq<(Seq<char>, nat)>
    decreases entries.len(),
{
    if entries.len() == 0 {
        Seq::empty()
    } else if entries.last().1 > 0 {
        charted(entries.drop_last()).push(entries.last())
    } else {
        charted(entries.drop_last())
    }
}

/// Name and seconds of each row.
pub open spec fn rows_view(rows: Seq<ChartRow>) -> Seq<(Seq<char>, nat)> {
    Seq::new(rows.len(), |i: int| (rows[i].name@, rows[i].seconds as nat))
}

/// The sum of the seconds of `rows`.
pub open spec fn total_of(rows: Seq<ChartRow>) -> nat
    decreases rows.len(),
{
    if rows.len() == 0 {
        0
    } else {
        total_of(rows.drop_last()) + rows.last().seconds as nat
    }
}

/// A duration as the chart's legend writes it, from its hours, its minutes
/// within the hour and its seconds within the minute: the seconds alone
/// where the minutes are none, minutes and seconds where the hours are
/// none, else all three.
pub open spec fn time_text(seconds: nat) -> Seq<char> {
    let s = seconds % 60;
    let m = (seconds / 60) % 60;
    let h = seconds / 3600;
    if m < 1 {
        ": "@ + decimal_text(s) + "sec\t"@
    } else if h < 1 {
        ": "@ + decimal_text(m) + "min "@ + decimal_text(s) + "sec\t"@
    } else {
        ": "@ + decimal_text(h) + "hr "@ + decimal_text(m) + "min "@ + decimal_text(s)
            + "sec\t"@
    }
}

/// The heading over the total: the day as day, month and year.
pub open spec fn heading_text(year: int, month: int, day: int) -> Seq<char> {
    "\nTotal Time on "@ + decimal_text(day as nat) + "/"@ + decimal_text(month as nat) + "/"@
        + signed_text(year)
}

/// A whole number in decimal, with a minus sign below zero.
pub open spec fn signed_text(n: int) -> Seq<char> {
    if n < 0 {
        "-"@ + decimal_text((-n) as nat)
    } else {
        decimal_text(n as nat)
    }
}

/// Appends the characters of `part` to `out`.
fn push_str(out: &mut Vec<char>, part: &str)
    ensures
        final(out)@ == old(out)@ + part@,
{
    let chars = chars_of(part);
    let mut i: usize = 0;
    while i < chars.len()
        invariant
            0 <= i <= chars.len(),
            out@ == old(out)@ + chars@.subrange(0, i as int),
        decreases chars.len() - i,
    {
        out.push(chars[i]);
        assert(chars@.subrange(0, i + 1) =~= chars@.subrange(0, i as int).push(chars@[i as int]));
        i = i + 1;
    }
    assert(chars@.subrange(0, chars.len() as int) =~= chars@);
}

/// Writes a duration of `seconds` for the chart's legend.
pub fn format_time(seconds: u128) -> (text: String)
    ensures
        text@ == time_text(seconds as nat),
{
    let s: u128 = seconds % 60;
    let m: u128 = (seconds / 60) % 60;
    let h: u128 = seconds / 3600;
    let mut out: Vec<char> = Vec::new();
    push_str(&mut out, ": ");
    if m < 1 {
        push_decimal(&mut out, s);
    } else if h < 1 {
        push_decimal(&mut out, m);
        push_str(&mut out, "min ");
        push_decimal(&mut out, s);
    } else {
        push_decimal(&mut out, h);
        push_str(&mut out, "hr ");
        push_decimal(&mut out, m);
        push_str(&mut out, "min ");
        push_decimal(&mut out, s);
    }
    push_str(&mut out, "sec\t");
    assert(out@ =~= time_text(seconds as nat));
    string_of(&out, 0, out.len())
}

/// The rows of the chart for `log`: one for each record with time on it, in
/// the order of the log, each in a colour picked at random.
pub fn chart_rows(log: &DailyLog) -> (rows: Vec<ChartRow>)
    requires
        well_formed(log@),
    ensures
        rows_view(rows@) == charted(log@),
        all_within_limit(shades_view(rows@)),
{
    let mut rows: Vec<ChartRow> = Vec::new();
    let mut i: usize = 0;
    proof {
        assert(log@.subrange(0, 0) =~= Seq::<(Seq<char>, nat)>::empty());
        assert(rows_view(rows@) =~= charted(log@.subrange(0, 0)));
    }
    while i < log.len()
        invariant
            0 <= i <= log@.len(),
            rows_view(rows@) == charted(log@.subrange(0, i as int)),
            all_within_limit(shades_view(rows@)),
        decreases log@.len() - i,
    {
        let shade = random_shade();
        let seconds: u64 = log.seconds_at(i);
        let ghost before = rows@;
        proof {
            let upto = log@.subrange(0, i + 1);
            assert(upto.drop_last() =~= log@.subrange(0, i as int));
            assert(upto.last() == log@[i as int]);
        }
        if seconds > 0 {
            let name = log.name_at(i).clone();
            rows.push(ChartRow { name, seconds, shade });
            assert(rows_view(rows@) =~= rows_view(before).push(log@[i as int]));
            assert(shades_view(rows@) =~= shades_view(before).push(shade));
        }
        i = i + 1;
    }
    proof {
        assert(log@.subrange(0, log@.len() as int) =~= log@);
    }
    rows
}

/// The seconds of all rows together.
pub fn total_seconds(rows: &Vec<ChartRow>) -> (total: u128)
    ensures
        total == total_of(rows@),
{
    let mut total: u128 = 0;
    let mut i: usize = 0;
    proof {
        assert(rows@.subrange(0, 0) =~= Seq::<ChartRow>::empty());
    }
    while i < rows.len()
        invariant
            0 <= i <= rows.len(),
            total == total_of(rows@.subrange(0, i as int)),
            total <= i * u64::MAX,
        decreases rows.len() - i,
    {
        proof {
            let upto = rows@.subrange(0, i + 1);
            assert(upto.drop_last() =~= rows@.subrange(0, i as int));
            assert(upto.last() == rows@[i as int]);
            assert(i * u64::MAX + u64::MAX <= usize::MAX * u64::MAX + u64::MAX)
                by (nonlinear_arith)
                requires
                    i <= usize::MAX,
            ;
            assert((i + 1) * u64::MAX == i * u64::MAX + u64::MAX) by (nonlinear_arith);
        }
        total = total + rows[i].seconds as u128;
        i = i + 1;
    }
    proof {
        assert(rows@.subrange(0, rows.len() as int) =~= rows@);
    }
    total
}

/// Writes the heading over the total for `date`.
pub fn heading(date: &Date) -> (text: String)
    ensures
        text@ == heading_text(date@.0, date@.1, date@.2),
{
    let year: i32 = date.year();
    let mut out: Vec<char> = Vec::new();
    push_str(&mut out, "\nTotal Time on ");
    push_decimal(&mut out, date.day() as u128);
    push_str(&mut out, "/");
    push_decimal(&mut out, date.month() as u128);
    push_str(&mut out, "/");
    if year < 0 {
        push_str(&mut out, "-");
        push_decimal(&mut out, (-(year as i64)) as u128);
    } else {
        push_decimal(&mut out, year as u128);
    }
    assert(out@ =~= heading_text(date@.0, date@.1, date@.2));
    string_of(&out, 0, out.len())
}

/// What the viewer asks of its caller after a step was requested.
#[derive(Clone, Copy, Debug, PartialEq, Eq, Structural)]
pub enum Step {
    /// Read the log of `date` and hand it over.
    Load { date: Date },
    /// Nothing to read: the view stays on its day.
    Stay,
}

/// The day on view, its chart, and the two notices that a step can raise.
#[derive(Clone, Debug)]
pub struct Viewer {
    date: Date,
    rows: Vec<ChartRow>,
    no_data_notice: bool,
    latest_day_notice: bool,
}

/// The viewer, as contracts speak of it.
pub struct ViewerView {
    /// The day on view.
    pub date: Date,
    /// Name and seconds of each row of the chart.
    pub rows: Seq<(Seq<char>, nat)>,
    /// The shade of each row of the chart.
    pub shades: Seq<Shade>,
    /// Whether the notice "no data for the previous day" is up.
    pub no_data_notice: bool,
    /// Whether the notice "this is the latest day" is up.
    pub latest_day_notice: bool,
}

impl View for Viewer {
    type V = ViewerView;

    closed spec fn view(&self) -> ViewerView {
        ViewerView {
            date: self.date,
            rows: rows_view(self.rows@),
            shades: shades_view(self.rows@),
            no_data_notice: self.no_data_notice,
            latest_day_notice: self.latest_day_notice,
        }
    }
}

impl Viewer {
    /// A viewer on `today`, showing `log` in shades picked at random, with
    /// no notice up.
    pub fn open(today: Date, log: &DailyLog) -> (viewer: Viewer)
        requires
            well_formed(log@),
        ensures
            viewer@.date == today,
            viewer@.rows == charted(log@),
            viewer@.shades.len() == viewer@.rows.len(),
            all_within_limit(viewer@.shades),
            !viewer@.no_data_notice,
            !viewer@.latest_day_notice,
    {
        Viewer {
            date: today,
            rows: chart_rows(log),
            no_data_notice: false,
            latest_day_notice: false,
        }
    }

    /// The day on view.
    pub fn date(&self) -> (date: Date)
        ensures
            date == self@.date,
    {
        self.date
    }

    /// The rows of the chart.
    pub fn rows(&self) -> (rows: &Vec<ChartRow>)
        ensures
            rows_view(rows@) == self@.rows,
            shades_view(rows@) == self@.shades,
    {
        &self.rows
    }

    /// Whether the notice "no data for the previous day" is up.
    pub fn no_data_notice(&self) -> (up: bool)
        ensures
            up == self@.no_data_notice,
    {
        self.no_data_notice
    }

    /// Whether the notice "this is the latest day" is up.
    pub fn latest_day_notice(&self) -> (up: bool)
        ensures
            up == self@.latest_day_notice,
    {
        self.latest_day_notice
    }

    /// A step to the day before was requested: asks for that day's log,
    /// unless the calendar has no day before.
    pub fn ask_previous(&self) -> (step: Step)
        ensures
            match (day_before(self@.date@.0, self@.date@.1, self@.date@.2), step) {
                (Some(expected), Step::Load { date }) => date@ == expected,
                (None, Step::Stay) => true,
                _ => false,
            },
    {
        match self.date.previous() {
            Some(date) => Step::Load { date },
            None => Step::Stay,
        }
    }

    /// The log of the day before, `date`, has been read. An empty log
    /// raises the no-data notice and leaves the day and the chart, shades
    /// and all, as they are; any other log moves the view to `date`, with
    /// its rows in shades picked anew.
    pub fn show_previous(&mut self, date: Date, log: &DailyLog)
        requires
            well_formed(log@),
        ensures
            log@.len() == 0 ==> final(self)@ == (ViewerView {
                no_data_notice: true,
                ..old(self)@
            }),
            log@.len() > 0 ==> final(self)@.date == date && final(self)@.rows == charted(log@),
            log@.len() > 0 ==> final(self)@.shades.len() == final(self)@.rows.len()
                && all_within_limit(final(self)@.shades),
            log@.len() > 0 ==> final(self)@.no_data_notice == old(self)@.no_data_notice
                && final(self)@.latest_day_notice == old(self)@.latest_day_notice,
    {
        if log.is_empty() {
            self.no_data_notice = true;
        } else {
            self.date = date;
            self.rows = chart_rows(log);
        }
    }

    /// A step to the day after was requested, on the day `today`. A view
    /// that is on today, or past it, raises the latest-day notice and
    /// stays; any other asks for the log of the day after.
    pub fn ask_next(&mut self, today: &Date) -> (step: Step)
        ensures
            final(self)@.date == old(self)@.date,
            final(self)@.rows == old(self)@.rows,
            final(self)@.shades == old(self)@.shades,
            final(self)@.no_data_notice == old(self)@.no_data_notice,
            !precedes(old(self)@.date@, today@) ==> step is Stay
                && final(self)@.latest_day_notice,
            precedes(old(self)@.date@, today@) ==> final(self)@ == old(self)@ && match (
                day_after(old(self)@.date@.0, old(self)@.date@.1, old(self)@.date@.2),
                step,
            ) {
                (Some(expected), Step::Load { date }) => date@ == expected && !precedes(
                    today@,
                    date@,
                ),
                _ => false,
            },
    {
        if self.date.is_before(today) {
            match self.date.next() {
                Some(date) => Step::Load { date },
                None => Step::Stay,
            }
        } else {
            self.latest_day_notice = true;
            Step::Stay
        }
    }

    /// The log of the day after, `date`, has been read: the view moves to
    /// `date`, whatever the log holds, with its rows in shades picked anew.
    pub fn show_next(&mut self, date: Date, log: &DailyLog)
        requires
            well_formed(log@),
        ensures
            final(self)@.date == date,
            final(self)@.rows == charted(log@),
            final(self)@.shades.len() == final(self)@.rows.len(),
            all_within_limit(final(self)@.shades),
            final(self)@.no_data_notice == old(self)@.no_data_notice,
            final(self)@.latest_day_notice == old(self)@.latest_day_notice,
    {
        self.date = date;
        self.rows = chart_rows(log);
    }

    /// Takes the no-data notice down.
    pub fn dismiss_no_data(&mut self)
        ensures
            final(self)@ == (ViewerView { no_data_notice: false, ..old(self)@ }),
    {
        self.no_data_notice = false;
    }

    /// Takes the latest-day notice down.
    pub fn dismiss_latest_day(&mut self)
        ensures
            final(self)@ == (ViewerView { latest_day_notice: false, ..old(self)@ }),
    {
        self.latest_day_notice = false;
    }
}

} // verus!
