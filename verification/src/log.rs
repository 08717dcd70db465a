//! The usage log of one calendar day: application names with the seconds
//! each was in the foreground, in the order the names first appeared.

use vstd::prelude::*;
use vstd::string::StringExecFns;

verus! {

/// Whether some entry of `entries` carries `name`.
pub open spec fn has_name(entries: Seq<(Seq<char>, nat)>, name: Seq<char>) -> bool {
    exists|i: int| 0 <= i < entries.len() && (#[trigger] entries[i]).0 == name
}

/// An index at which `entries` carries `name`; meaningful only where
/// `has_name` holds, and the only such index where names are unique.
pub open spec fn index_of_name(entries: Seq<(Seq<char>, nat)>, name: Seq<char>) -> int {
    choose|i: int| 0 <= i < entries.len() && (#[trigger] entries[i]).0 == name
}

/// The seconds recorded for `name`, zero where the name is absent.
pub open spec fn seconds_for(entries: Seq<(Seq<char>, nat)>, name: Seq<char>) -> nat {
    if has_name(entries, name) {
        entries[index_of_name(entries, name)].1
    } else {
        0
    }
}

/// No two entries carry the same name.
pub open spec fn unique_names(entries: Seq<(Seq<char>, nat)>) -> bool {
    forall|i: int, j: int|
        0 <= i < j < entries.len() ==> (#[trigger] entries[i]).0 != (#[trigger] entries[j]).0
}

/// Every count fits the machine integer that stores it.
pub open spec fn counts_fit(entries: Seq<(Seq<char>, nat)>) -> bool {
    forall|i: int| 0 <= i < entries.len() ==> (#[trigger] entries[i]).1 <= u64::MAX
}

/// What every log satisfies: unique names, counts that fit.
pub open spec fn well_formed(entries: Seq<(Seq<char>, nat)>) -> bool {
    unique_names(entries) && counts_fit(entries)
}

/// `entries` with the count of `name` replaced by `seconds`; a name not yet
/// present is appended.
pub open spec fn with_count(entries: Seq<(Seq<char>, nat)>, name: Seq<char>, seconds: nat) -> Seq<
    (Seq<char>, nat),
> {
    if has_name(entries, name) {
        entries.update(index_of_name(entries, name), (name, seconds))
    } else {
        entries.push((name, seconds))
    }
}

/// `entries` after `name` was in the foreground for `increment` more
/// seconds. A name seen for the first time starts at the increment.
pub open spec fn with_added(entries: Seq<(Seq<char>, nat)>, name: Seq<char>, increment: nat) -> Seq<
    (Seq<char>, nat),
> {
    with_count(entries, name, seconds_for(entries, name) + increment)
}

/// What replacing or appending one count does to a log with unique names:
/// the names stay unique, the given name gets the given count, and every
/// other name keeps its presence and its count.
pub proof fn lemma_with_count(entries: Seq<(Seq<char>, nat)>, name: Seq<char>, seconds: nat)
    requires
        unique_names(entries),
    ensures
        unique_names(with_count(entries, name, seconds)),
        has_name(with_count(entries, name, seconds), name),
        seconds_for(with_count(entries, name, seconds), name) == seconds,
        forall|other: Seq<char>|
            other != name ==> has_name(with_count(entries, name, seconds), other) == has_name(
                entries,
                other,
            ) && seconds_for(with_count(entries, name, seconds), other) == seconds_for(
                entries,
                other,
            ),
{
    let after = with_count(entries, name, seconds);
    let at: int = if has_name(entries, name) {
        index_of_name(entries, name)
    } else {
        entries.len() as int
    };
    assert(after[at] == (name, seconds));
    assert(after.len() == if has_name(entries, name) {
        entries.len()
    } else {
        entries.len() + 1
    });
    assert forall|k: int| 0 <= k < after.len() && k != at implies #[trigger] after[k]
        == entries[k] && after[k].0 != name by {
        if !has_name(entries, name) {
            assert(entries[k].0 != name);
        }
    }
    assert(unique_names(after));
    assert(has_name(after, name));
    assert(after[index_of_name(after, name)].0 == name);
    assert forall|other: Seq<char>| other != name implies has_name(after, other) == has_name(
        entries,
        other,
    ) && seconds_for(after, other) == seconds_for(entries, other) by {
        if has_name(entries, other) {
            let k: int = index_of_name(entries, other);
            assert(entries[k].0 == other);
            assert(k != at);
            assert(after[k].0 == other);
            let m: int = index_of_name(after, other);
            assert(after[m].0 == other);
        }
        if has_name(after, other) {
            let m: int = index_of_name(after, other);
            assert(after[m].0 == other);
            assert(m != at);
            assert(entries[m].0 == other);
            let k: int = index_of_name(entries, other);
            assert(entries[k].0 == other);
        }
    }
}

/// The log as a mapping from names to seconds.
pub open spec fn as_map(entries: Seq<(Seq<char>, nat)>) -> Map<Seq<char>, nat> {
    Map::new(
        |name: Seq<char>| has_name(entries, name),
        |name: Seq<char>| seconds_for(entries, name),
    )
}

/// Replacing or appending a count is an insertion into the mapping.
pub proof fn lemma_with_count_as_map(
    entries: Seq<(Seq<char>, nat)>,
    name: Seq<char>,
    seconds: nat,
)
    requires
        unique_names(entries),
    ensures
        as_map(with_count(entries, name, seconds)) == as_map(entries).insert(name, seconds),
{
    lemma_with_count(entries, name, seconds);
    assert(as_map(with_count(entries, name, seconds)) =~= as_map(entries).insert(name, seconds));
}

/// The log after one tick for each name of `observed`, first to last, each
/// worth `increment` seconds.
pub open spec fn after_ticks(
    entries: Seq<(Seq<char>, nat)>,
    observed: Seq<Seq<char>>,
    increment: nat,
) -> Seq<(Seq<char>, nat)>
    decreases observed.len(),
{
    if observed.len() == 0 {
        entries
    } else {
        with_added(after_ticks(entries, observed.drop_last(), increment), observed.last(), increment)
    }
}

/// On how many ticks of `observed` the application `name` was in the
/// foreground.
pub open spec fn times_observed(observed: Seq<Seq<char>>, name: Seq<char>) -> nat
    decreases observed.len(),
{
    if observed.len() == 0 {
        0
    } else if observed.last() == name {
        times_observed(observed.drop_last(), name) + 1
    } else {
        times_observed(observed.drop_last(), name)
    }
}

/// Over any run of ticks, an application's count rises by the increment
/// once for each tick on which it was observed, and by nothing else; so it
/// never falls.
pub proof fn lemma_ticks_accumulate(
    entries: Seq<(Seq<char>, nat)>,
    observed: Seq<Seq<char>>,
    increment: nat,
    name: Seq<char>,
)
    requires
        unique_names(entries),
    ensures
        unique_names(after_ticks(entries, observed, increment)),
        seconds_for(after_ticks(entries, observed, increment), name) == seconds_for(entries, name)
            + increment * times_observed(observed, name),
        seconds_for(after_ticks(entries, observed, increment), name) >= seconds_for(
            entries,
            name,
        ),
    decreases observed.len(),
{
    if observed.len() > 0 {
        let earlier = observed.drop_last();
        let before = after_ticks(entries, earlier, increment);
        lemma_ticks_accumulate(entries, earlier, increment, name);
        lemma_ticks_accumulate(entries, earlier, increment, observed.last());
        lemma_with_count(
            before,
            observed.last(),
            seconds_for(before, observed.last()) + increment,
        );
        let last = observed.last();
        let after = after_ticks(entries, observed, increment);
        assert(after == with_count(before, last, seconds_for(before, last) + increment));
        let times = times_observed(earlier, name);
        assert(increment * (times + 1) == increment * times + increment) by (nonlinear_arith);
        if last == name {
            assert(seconds_for(after, name) == seconds_for(before, name) + increment);
        } else {
            assert(seconds_for(after, name) == seconds_for(before, name));
        }
    } else {
        assert(increment * 0 == 0) by (nonlinear_arith);
    }
    assert(increment * times_observed(observed, name) >= 0) by (nonlinear_arith);
}

/// Why a count could not be raised.
#[derive(Debug, PartialEq, Eq, Structural, Clone, Copy)]
pub enum LogError {
    /// The new total would not fit in 64 bits.
    CountOverflow,
}

/// One application's name and its accumulated foreground seconds.
#[derive(Clone, Debug)]
pub struct UsageRecord {
    pub name: String,
    pub seconds: u64,
}

/// The usage records of one day. Names are unique; a new name goes to the end.
#[derive(Clone, Debug)]
pub struct DailyLog {
    records: Vec<UsageRecord>,
}

impl View for DailyLog {
    type V = Seq<(Seq<char>, nat)>;

    closed spec fn view(&self) -> Seq<(Seq<char>, nat)> {
        Seq::new(
            self.records@.len(),
            |i: int| (self.records@[i].name@, self.records@[i].seconds as nat),
        )
    }
}

impl DailyLog {
    /// A log with no record.
    pub fn new() -> (log: DailyLog)
        ensures
            log@ == Seq::<(Seq<char>, nat)>::empty(),
            well_formed(log@),
    {
        let log = DailyLog { records: Vec::new() };
        assert(log@ =~= Seq::<(Seq<char>, nat)>::empty());
        log
    }

    /// The number of records.
    pub fn len(&self) -> (n: usize)
        ensures
            n == self@.len(),
    {
        self.records.len()
    }

    /// Whether the log has no record.
    pub fn is_empty(&self) -> (b: bool)
        ensures
            b == (self@.len() == 0),
    {
        self.records.len() == 0
    }

    /// The name of the record at `index`.
    pub fn name_at(&self, index: usize) -> (name: &String)
        requires
            index < self@.len(),
        ensures
            name@ == self@[index as int].0,
    {
        &self.records[index].name
    }

    /// The seconds of the record at `index`.
    pub fn seconds_at(&self, index: usize) -> (seconds: u64)
        requires
            index < self@.len(),
        ensures
            seconds == self@[index as int].1,
    {
        self.records[index].seconds
    }

    /// Where the record of `name` stands, if there is one.
    pub fn find(&self, name: &str) -> (found: Option<usize>)
        requires
            well_formed(self@),
        ensures
            found is Some <==> has_name(self@, name@),
            found is Some ==> found->0 == index_of_name(self@, name@),
            found is Some ==> found->0 < self@.len() && self@[found->0 as int].0 == name@,
    {
        let key = String::from_str(name);
        let mut i: usize = 0;
        while i < self.records.len()
            invariant
                0 <= i <= self.records.len(),
                key@ == name@,
                unique_names(self@),
                forall|k: int| 0 <= k < i ==> (#[trigger] self@[k]).0 != name@,
            decreases self.records.len() - i,
        {
            if self.records[i].name == key {
                proof {
                    let k: int = index_of_name(self@, name@);
                    assert(self@[i as int].0 == name@);
                    assert(self@[k].0 == name@);
                }
                return Some(i);
            }
            i = i + 1;
        }
        None
    }

    /// Gives `name` the count `seconds`, appending the name if it is new.
    pub fn set(&mut self, name: &str, seconds: u64)
        requires
            well_formed(old(self)@),
        ensures
            final(self)@ == with_count(old(self)@, name@, seconds as nat),
            as_map(final(self)@) == as_map(old(self)@).insert(name@, seconds as nat),
            well_formed(final(self)@),
    {
        proof {
            lemma_with_count(self@, name@, seconds as nat);
            lemma_with_count_as_map(self@, name@, seconds as nat);
        }
        match self.find(name) {
            Some(i) => {
                self.records[i].seconds = seconds;
                assert(self@ =~= with_count(old(self)@, name@, seconds as nat));
            },
            None => {
                self.records.push(UsageRecord { name: String::from_str(name), seconds });
                assert(self@ =~= with_count(old(self)@, name@, seconds as nat));
            },
        }
    }

    /// Adds `increment` seconds to the count of `name` and returns the new
    /// total. A name seen for the first time starts at the increment. No
    /// other count changes, and none ever falls. Where the total would not
    /// fit, the log stays as it was.
    pub fn accumulate(&mut self, name: &str, increment: u64) -> (total: Result<u64, LogError>)
        requires
            well_formed(old(self)@),
        ensures
            well_formed(final(self)@),
            total is Ok <==> seconds_for(old(self)@, name@) + increment <= u64::MAX,
            total is Ok ==> final(self)@ == with_added(old(self)@, name@, increment as nat),
            total is Ok ==> total->Ok_0 == seconds_for(old(self)@, name@) + increment,
            total is Ok ==> seconds_for(final(self)@, name@) == total->Ok_0,
            total is Ok ==> as_map(final(self)@) == as_map(old(self)@).insert(
                name@,
                total->Ok_0 as nat,
            ),
            total is Err ==> total->Err_0 == LogError::CountOverflow && final(self)@ == old(
                self,
            )@,
            forall|other: Seq<char>|
                other != name@ ==> has_name(final(self)@, other) == has_name(old(self)@, other)
                    && seconds_for(final(self)@, other) == seconds_for(old(self)@, other),
    {
        let current: u64 = match self.get(name) {
            Some(seconds) => seconds,
            None => 0,
        };
        match current.checked_add(increment) {
            Some(total) => {
                proof {
                    lemma_with_count(self@, name@, total as nat);
                }
                self.set(name, total);
                Ok(total)
            },
            None => Err(LogError::CountOverflow),
        }
    }

    /// The seconds recorded for `name`, if it has a record.
    pub fn get(&self, name: &str) -> (seconds: Option<u64>)
        requires
            well_formed(self@),
        ensures
            seconds is Some <==> has_name(self@, name@),
            seconds is Some ==> seconds->0 == seconds_for(self@, name@),
    {
        match self.find(name) {
            Some(i) => Some(self.records[i].seconds),
            None => None,
        }
    }
}

} // verus!
