//! Reminder identities and the in-memory reminder-history store.

use vstd::prelude::*;
use vstd::string::StringExecFns;

verus! {

/// Canonical identity of a reminder condition. Together with a task id it is
/// the deduplication key: each (task, identity) pair fires at most once.
#[derive(Clone, Copy, Debug, PartialEq, Eq, Structural)]
pub enum ReminderType {
    OneDayBefore,
    OneHourBefore,
    Overdue,
}

impl ReminderType {
    /// The canonical tag under which this identity is persisted.
    pub fn to_string(&self) -> (r: String)
        ensures
            r@ == self.tag(),
    {
        match self {
            ReminderType::OneDayBefore => String::from_str("1_day_before"),
            ReminderType::OneHourBefore => String::from_str("1_hour_before"),
            ReminderType::Overdue => String::from_str("overdue"),
        }
    }

    /// Reads an identity back from its canonical tag; any other text is
    /// rejected.
    pub fn from_string(s: &str) -> (r: Option<ReminderType>)
        ensures
            r == Self::spec_from_tag(s@),
    {
        if crate::render::str_eq(s, "1_day_before") {
            Some(ReminderType::OneDayBefore)
        } else if crate::render::str_eq(s, "1_hour_before") {
            Some(ReminderType::OneHourBefore)
        } else if crate::render::str_eq(s, "overdue") {
            Some(ReminderType::Overdue)
        } else {
            None
        }
    }

    /// The tag text of this identity.
    pub open spec fn tag(self) -> Seq<char> {
        match self {
            ReminderType::OneDayBefore => "1_day_before"@,
            ReminderType::OneHourBefore => "1_hour_before"@,
            ReminderType::Overdue => "overdue"@,
        }
    }

    /// Which identity, if any, a tag text denotes.
    pub open spec fn spec_from_tag(s: Seq<char>) -> Option<ReminderType> {
        if s == "1_day_before"@ {
            Some(ReminderType::OneDayBefore)
        } else if s == "1_hour_before"@ {
            Some(ReminderType::OneHourBefore)
        } else if s == "overdue"@ {
            Some(ReminderType::Overdue)
        } else {
            None
        }
    }
}

/// Round trip: every identity's tag is read back as that identity.
pub proof fn lemma_tag_round_trip(t: ReminderType)
    ensures
        ReminderType::spec_from_tag(t.tag()) == Some(t),
{
    reveal_strlit("1_day_before");
    reveal_strlit("1_hour_before");
    reveal_strlit("overdue");
    assert("1_day_before"@.len() == 12);
    assert("1_hour_before"@.len() == 13);
    assert("overdue"@.len() == 7);
}

/// One recorded firing: a (task, identity) pair and the instant it fired,
/// in Unix seconds. An entry is only ever written for a successful firing.
#[derive(Clone, Copy, Debug, PartialEq, Eq, Structural)]
pub struct HistoryEntry {
    pub todo_id: i32,
    pub reminder_time: i64,
    pub reminder_type: ReminderType,
}

/// Whether `hist` already holds a firing of `identity` for task `todo_id`.
/// Any matching entry counts, regardless of how many there are.
pub open spec fn spec_fired(hist: Seq<HistoryEntry>, todo_id: int, identity: ReminderType) -> bool {
    exists|k: int|
        0 <= k < hist.len() && hist[k].todo_id == todo_id && hist[k].reminder_type == identity
}

/// The entries of `hist` whose firing instant lies strictly after `cutoff`,
/// in order.
pub open spec fn spec_kept(hist: Seq<HistoryEntry>, cutoff: int) -> Seq<HistoryEntry>
    decreases hist.len(),
{
    if hist.len() == 0 {
        Seq::empty()
    } else if hist[0].reminder_time > cutoff {
        seq![hist[0]] + spec_kept(hist.skip(1), cutoff)
    } else {
        spec_kept(hist.skip(1), cutoff)
    }
}

/// The reminder-history store the engine consults for deduplication. It is
/// an in-memory value; loading it from persistent storage and writing new
/// entries back is the caller's concern.
pub struct HistoryStore {
    entries: Vec<HistoryEntry>,
}

impl View for HistoryStore {
    type V = Seq<HistoryEntry>;

    closed spec fn view(&self) -> Seq<HistoryEntry> {
        self.entries@
    }
}

impl HistoryStore {
    /// An empty store.
    pub fn new() -> (r: HistoryStore)
        ensures
            r@ == Seq::<HistoryEntry>::empty(),
    {
        HistoryStore { entries: Vec::new() }
    }

    /// How many entries the store holds. Within one evaluation pass this
    /// counts the writes made, since only `record_fired` adds entries.
    pub fn entry_count(&self) -> (r: usize)
        ensures
            r == self@.len(),
    {
        self.entries.len()
    }

    /// The entries, in insertion order.
    pub fn entries(&self) -> (r: &Vec<HistoryEntry>)
        ensures
            r@ == self@,
    {
        &self.entries
    }

    /// Whether a firing of `identity` for `todo_id` is already on record.
    /// Reflects every prior `record_fired` call for the pair, including ones
    /// made earlier in the same evaluation pass.
    pub fn has_fired(&self, todo_id: i32, identity: ReminderType) -> (r: bool)
        ensures
            r == spec_fired(self@, todo_id as int, identity),
    {
        let mut k: usize = 0;
        while k < self.entries.len()
            invariant
                k <= self@.len(),
                forall|j: int|
                    0 <= j < k ==> !(self@[j].todo_id == todo_id && self@[j].reminder_type
                        == identity),
            decreases self@.len() - k,
        {
            let e = self.entries[k];
            if e.todo_id == todo_id && e.reminder_type == identity {
                return true;
            }
            k += 1;
        }
        false
    }

    /// Appends a firing of `identity` for `todo_id` at instant `when`.
    pub fn record_fired(&mut self, todo_id: i32, identity: ReminderType, when: i64)
        ensures
            final(self)@ == old(self)@.push(
                HistoryEntry { todo_id, reminder_time: when, reminder_type: identity },
            ),
    {
        self.entries.push(HistoryEntry { todo_id, reminder_time: when, reminder_type: identity });
    }

    /// Administrative cleanup: drops every entry recorded at or before
    /// `days` days before `now`, and reports how many were dropped.
    pub fn purge_older_than(&mut self, now: i64, days: i64) -> (r: usize)
        ensures
            final(self)@ == spec_kept(old(self)@, now - days * 86400),
            r == old(self)@.len() - final(self)@.len(),
    {
        let cutoff: i128 = now as i128 - (days as i128) * 86400;
        let mut kept: Vec<HistoryEntry> = Vec::new();
        let mut removed: usize = 0;
        let mut k: usize = 0;
        proof {
            assert(self@.skip(0) =~= self@);
            assert(Seq::<HistoryEntry>::empty() + spec_kept(self@, now - days * 86400)
                =~= spec_kept(self@, now - days * 86400));
        }
        while k < self.entries.len()
            invariant
                k <= self@.len(),
                cutoff == now - days * 86400,
                removed == k - kept@.len(),
                spec_kept(self@, now - days * 86400) == kept@ + spec_kept(
                    self@.skip(k as int),
                    now - days * 86400,
                ),
            decreases self@.len() - k,
        {
            let ghost pre = kept@;
            let e = self.entries[k];
            proof {
                let rest = self@.skip(k as int);
                assert(rest[0] == self@[k as int]);
                assert(rest.skip(1) =~= self@.skip(k + 1));
            }
            if e.reminder_time as i128 > cutoff {
                kept.push(e);
                proof {
                    assert(kept@ + spec_kept(self@.skip(k + 1), now - days * 86400) =~= pre
                        + spec_kept(self@.skip(k as int), now - days * 86400));
                }
            } else {
                removed += 1;
            }
            k += 1;
        }
        proof {
            assert(self@.skip(k as int) =~= Seq::<HistoryEntry>::empty());
            assert(kept@ =~= spec_kept(self@, now - days * 86400));
        }
        self.entries = kept;
        removed
    }
}

} // verus!
