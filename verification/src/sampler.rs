//! The sampling loop, as the decisions it takes.
//!
//! The loop itself waits, asks the system which window has the focus, and
//! reads and writes files; none of that happens here. What happens here is
//! what each tick decides. The caller reports the date at the start of a
//! tick, then whatever it was asked to fetch, and is told after each report
//! what to do next:
//!
//! * `begin_tick` compares the date with that of the log in memory. On a
//!   new day the sampler turns to that day and asks for its stored log;
//!   otherwise it asks for a sample.
//! * `loaded` takes the stored log of the new day and asks for a sample.
//! * `sampled` takes the sample. Where it names an application, that
//!   application's count rises by one tick and the whole log is handed
//!   back to be stored; where it names none, nothing changes.
//!
//! A tick ends with `Action::Save` or `Action::Wait`. A store that failed
//! needs no report: the next tick that counts hands the whole log back
//! again.

use vstd::prelude::*;
use crate::date::Date;
use crate::identity::{identify, identity_of};
use crate::log::{seconds_for, well_formed, with_added, DailyLog};
use crate::logfile::{load_day, log_text, parsed, serialize};
use crate::text::text_of;

verus! {

/// The seconds that one tick stands for, unless the sampler is made with
/// another interval: the time between two samples.
pub const TICK_SECONDS: u64 = 3;

/// Where the sampler stands between two reports.
#[derive(Clone, Copy, Debug, PartialEq, Eq, Structural)]
pub enum Phase {
    /// The log in memory is that of the tracked day.
    Running,
    /// The day has changed and the log of the new day is still to come.
    DayRolled,
}

/// What the caller is to do next.
#[derive(Clone, Debug)]
pub enum Action {
    /// Read the stored log of `date`, creating an empty one where there is
    /// none, and report it with `loaded`.
    Load { date: Date },
    /// Ask which application is in the foreground and report it with
    /// `sampled`.
    Sample,
    /// Replace the stored log of `date` by `text`, then wait for the next
    /// tick.
    Save { date: Date, text: String },
    /// Wait for the next tick.
    Wait,
}

/// The state of the sampling loop.
#[derive(Clone, Debug)]
pub struct Sampler {
    phase: Phase,
    date: Date,
    log: DailyLog,
    skipped: usize,
    interval: u64,
}

/// The state of the sampling loop, as contracts speak of it.
pub struct SamplerView {
    /// Where the sampler stands.
    pub phase: Phase,
    /// The tracked day.
    pub date: Date,
    /// The log of the tracked day.
    pub entries: Seq<(Seq<char>, nat)>,
    /// How many lines of the stored log were skipped when it was loaded.
    pub skipped: nat,
    /// The seconds between two samples, which each tick adds.
    pub interval: nat,
}

impl View for Sampler {
    type V = SamplerView;

    closed spec fn view(&self) -> SamplerView {
        SamplerView {
            phase: self.phase,
            date: self.date,
            entries: self.log@,
            skipped: self.skipped as nat,
            interval: self.interval as nat,
        }
    }
}

/// The only stored log that `action` touches, if it touches one, is that of
/// `date`.
pub open spec fn keeps_to(action: Action, date: Date) -> bool {
    match action {
        Action::Load { date: asked } => asked == date,
        Action::Save { date: written, text } => written == date,
        _ => true,
    }
}

/// The stored logs, by day, after the caller has done what `action` asks:
/// a save replaces the log of its day, a load creates an empty log where
/// its day had none.
pub open spec fn store_after(store: Map<Date, Seq<char>>, action: Action) -> Map<
    Date,
    Seq<char>,
> {
    match action {
        Action::Save { date, text } => store.insert(date, text@),
        Action::Load { date } => if store.dom().contains(date) {
            store
        } else {
            store.insert(date, Seq::empty())
        },
        _ => store,
    }
}

/// An action that keeps to one day leaves the stored log of every other
/// day as it was.
pub proof fn lemma_day_isolation(
    store: Map<Date, Seq<char>>,
    action: Action,
    date: Date,
    other: Date,
)
    requires
        keeps_to(action, date),
        other != date,
    ensures
        store_after(store, action).dom().contains(other) == store.dom().contains(other),
        store.dom().contains(other) ==> store_after(store, action)[other] == store[other],
{
}

impl Sampler {
    /// A sampler that has no log in memory yet: the first tick asks for the
    /// stored log of its day. A tick stands for `TICK_SECONDS`.
    pub fn new(today: Date) -> (sampler: Sampler)
        ensures
            sampler@ == (SamplerView {
                phase: Phase::DayRolled,
                date: today,
                entries: Seq::empty(),
                skipped: 0,
                interval: TICK_SECONDS as nat,
            }),
            well_formed(sampler@.entries),
    {
        Sampler::with_interval(today, TICK_SECONDS)
    }

    /// The same, with ticks that stand for `interval` seconds.
    pub fn with_interval(today: Date, interval: u64) -> (sampler: Sampler)
        ensures
            sampler@ == (SamplerView {
                phase: Phase::DayRolled,
                date: today,
                entries: Seq::empty(),
                skipped: 0,
                interval: interval as nat,
            }),
            well_formed(sampler@.entries),
    {
        Sampler {
            phase: Phase::DayRolled,
            date: today,
            log: DailyLog::new(),
            skipped: 0,
            interval,
        }
    }

    /// The seconds between two samples.
    pub fn interval(&self) -> (interval: u64)
        ensures
            interval == self@.interval,
    {
        self.interval
    }

    /// How long to wait before the next tick, in milliseconds, where this
    /// tick has taken `elapsed` milliseconds: what is left of the interval,
    /// and nothing where the tick has overrun it.
    pub fn wait_after(&self, elapsed: u128) -> (wait: u128)
        ensures
            wait == if elapsed >= self@.interval * 1000 {
                0
            } else {
                self@.interval * 1000 - elapsed
            },
    {
        let whole: u128 = self.interval as u128 * 1000;
        if elapsed >= whole {
            0
        } else {
            whole - elapsed
        }
    }

    /// Where the sampler stands.
    pub fn phase(&self) -> (phase: Phase)
        ensures
            phase == self@.phase,
    {
        self.phase
    }

    /// The tracked day.
    pub fn date(&self) -> (date: Date)
        ensures
            date == self@.date,
    {
        self.date
    }

    /// The log of the tracked day.
    pub fn log(&self) -> (log: &DailyLog)
        ensures
            log@ == self@.entries,
    {
        &self.log
    }

    /// How many lines of the stored log were skipped when it was loaded.
    pub fn skipped(&self) -> (skipped: usize)
        ensures
            skipped == self@.skipped,
    {
        self.skipped
    }

    /// The start of a tick on the day `today`.
    ///
    /// While the day is the tracked one and its log is in memory, nothing
    /// changes and a sample is asked for. Otherwise the sampler turns to
    /// `today` with an empty log and asks for the stored one.
    pub fn begin_tick(&mut self, today: Date) -> (action: Action)
        requires
            well_formed(old(self)@.entries),
        ensures
            well_formed(final(self)@.entries),
            keeps_to(action, final(self)@.date),
            final(self)@.date == today,
            old(self)@.phase == Phase::Running && old(self)@.date == today ==> action
                is Sample && final(self)@ == old(self)@,
            !(old(self)@.phase == Phase::Running && old(self)@.date == today) ==> action
                == (Action::Load { date: today }) && final(self)@ == (SamplerView {
                phase: Phase::DayRolled,
                date: today,
                entries: Seq::empty(),
                skipped: 0,
                interval: old(self)@.interval,
            }),
    {
        if self.phase == Phase::Running && self.date == today {
            Action::Sample
        } else {
            self.phase = Phase::DayRolled;
            self.date = today;
            self.log = DailyLog::new();
            self.skipped = 0;
            Action::Load { date: today }
        }
    }

    /// The stored log of the tracked day has been read: `stored` is its
    /// text, absent where the day had no log yet.
    ///
    /// After a change of day the log in memory becomes what the text gives,
    /// and a sample is asked for. At any other time the report is ignored.
    pub fn loaded(&mut self, stored: Option<&str>) -> (action: Action)
        requires
            well_formed(old(self)@.entries),
        ensures
            well_formed(final(self)@.entries),
            keeps_to(action, final(self)@.date),
            final(self)@.date == old(self)@.date,
            final(self)@.interval == old(self)@.interval,
            old(self)@.phase == Phase::Running ==> action is Wait && final(self)@ == old(self)@,
            old(self)@.phase == Phase::DayRolled ==> action is Sample && final(self)@.phase
                == Phase::Running,
            old(self)@.phase == Phase::DayRolled && stored is None ==> final(self)@.entries.len()
                == 0 && final(self)@.skipped == 0,
            old(self)@.phase == Phase::DayRolled && stored is Some ==> final(self)@.entries
                == parsed(stored->0@).0 && final(self)@.skipped == parsed(stored->0@).1,
    {
        if self.phase == Phase::DayRolled {
            let outcome = load_day(stored);
            self.log = outcome.log;
            self.skipped = outcome.skipped;
            self.phase = Phase::Running;
            Action::Sample
        } else {
            Action::Wait
        }
    }

    /// The foreground has been sampled: `process_name` is the executable's
    /// name of the process that owns the focused window, absent where no
    /// window had the focus or the process was gone; `window_title` is the
    /// window's title.
    ///
    /// Where the sample names an application and the log of the day is in
    /// memory, that application's count rises by the interval, no other
    /// count changes, and the whole log is handed back to be stored under
    /// the tracked day. In every other case nothing changes: no
    /// application to name, a count that would not fit, or a log that is
    /// still to come.
    pub fn sampled(&mut self, process_name: Option<&str>, window_title: &str) -> (action: Action)
        requires
            well_formed(old(self)@.entries),
        ensures
            well_formed(final(self)@.entries),
            keeps_to(action, final(self)@.date),
            final(self)@.phase == old(self)@.phase,
            final(self)@.date == old(self)@.date,
            final(self)@.skipped == old(self)@.skipped,
            final(self)@.interval == old(self)@.interval,
            action is Save || action is Wait,
            action is Save <==> counts(old(self)@, text_of(process_name), window_title@),
            action is Wait ==> final(self)@ == old(self)@,
            action matches Action::Save { date, text } ==> {
                let name = identity_of(text_of(process_name), window_title@)->0;
                &&& date == old(self)@.date
                &&& final(self)@.entries == with_added(
                    old(self)@.entries,
                    name,
                    old(self)@.interval,
                )
                &&& text@ == log_text(final(self)@.entries)
                &&& seconds_for(final(self)@.entries, name) == seconds_for(
                    old(self)@.entries,
                    name,
                ) + old(self)@.interval
            },
    {
        if self.phase != Phase::Running {
            return Action::Wait;
        }
        match identify(process_name, window_title) {
            None => Action::Wait,
            Some(name) => {
                match self.log.accumulate(name.as_str(), self.interval) {
                    Ok(_) => {
                        let text = serialize(&self.log);
                        Action::Save { date: self.date, text }
                    },
                    Err(_) => Action::Wait,
                }
            },
        }
    }
}

/// Whether a sample is counted: the log of the day is in memory, the sample
/// names an application, and that application's count can take one more
/// tick.
pub open spec fn counts(
    state: SamplerView,
    process_name: Option<Seq<char>>,
    window_title: Seq<char>,
) -> bool {
    &&& state.phase == Phase::Running
    &&& identity_of(process_name, window_title) is Some
    &&& seconds_for(state.entries, identity_of(process_name, window_title)->0) + state.interval
        <= u64::MAX
}

} // verus!
