//! The record store: one weight per day, kept in calendar order.

use crate::date::Date;
use crate::error::JournalError;
use crate::persist::{exported, imported, read_records, write_records};
use vstd::prelude::*;

verus! {

/// One observation: a day and the weight measured on it, in tenths of a unit.
#[derive(Clone, Copy, Debug, PartialEq, Eq, Structural)]
pub struct Record {
    pub date: Date,
    pub tenths: u32,
}

/// Strictly ascending by date: ordered, and no day twice.
pub open spec fn ordered(s: Seq<Record>) -> bool {
    forall|i: int, j: int| 0 <= i < j < s.len() ==> (#[trigger] s[i]).date.before(&(#[trigger] s[j]).date)
}

/// Some record of `s` is of day `date`.
pub open spec fn holds_date(s: Seq<Record>, date: Date) -> bool {
    exists|i: int| 0 <= i < s.len() && (#[trigger] s[i]).date == date
}

/// Every date in `s` names a day that exists.
pub open spec fn all_valid(s: Seq<Record>) -> bool {
    forall|i: int| 0 <= i < s.len() ==> (#[trigger] s[i]).date.wf()
}

/// Position of the last record, if there is one.
pub open spec fn last_index_of(s: Seq<Record>) -> Option<usize> {
    if s.len() == 0 { None } else { Some((s.len() - 1) as usize) }
}

/// `i` is where a record of day `date` goes in `s` by calendar order: every
/// record before `i` is of an earlier day, every record from `i` on of a
/// later one.
pub open spec fn is_slot(s: Seq<Record>, date: Date, i: int) -> bool {
    &&& 0 <= i <= s.len()
    &&& forall|k: int| 0 <= k < i ==> (#[trigger] s[k]).date.before(&date)
    &&& forall|k: int| i <= k < s.len() ==> date.before(&(#[trigger] s[k]).date)
}

/// What a bisection for a date ends in.
pub enum Probe {
    /// A record of that date stands at this position.
    Found(int),
    /// No record of that date was met; this is where one would go.
    Slot(int),
}

/// Bisection of `s[lo..hi]` for `date`: look at the middle record, stop where
/// it is of that date, else go on in the half that calendar order points to.
pub open spec fn probe(s: Seq<Record>, date: Date, lo: int, hi: int) -> Probe
    decreases hi - lo,
{
    if lo >= hi || lo < 0 || hi > s.len() {
        Probe::Slot(lo)
    } else {
        let mid = lo + (hi - lo) / 2;
        if s[mid].date == date {
            Probe::Found(mid)
        } else if s[mid].date.before(&date) {
            probe(s, date, mid + 1, hi)
        } else {
            probe(s, date, lo, mid)
        }
    }
}

/// The records of the journal.
pub struct RecordStore {
    records: Vec<Record>,
}

impl View for RecordStore {
    type V = Seq<Record>;

    closed spec fn view(&self) -> Seq<Record> {
        self.records@
    }
}

impl RecordStore {
    /// Every record names a day that exists.
    pub open spec fn wf(&self) -> bool {
        all_valid(self@)
    }

    /// The records ascend strictly by date.
    pub open spec fn is_ordered(&self) -> bool {
        ordered(self@)
    }

    /// A store without records.
    pub fn new() -> (r: RecordStore)
        ensures
            r@ == Seq::<Record>::empty(),
            r.wf(),
            r.is_ordered(),
    {
        RecordStore { records: Vec::new() }
    }

    /// Number of records.
    pub fn len(&self) -> (r: usize)
        ensures
            r == self@.len(),
    {
        self.records.len()
    }

    /// Whether the store holds no record.
    pub fn is_empty(&self) -> (r: bool)
        ensures
            r == (self@.len() == 0),
    {
        self.records.len() == 0
    }

    /// The record at a position, if there is one.
    pub fn get(&self, index: usize) -> (r: Option<Record>)
        ensures
            r == (if index < self@.len() { Some(self@[index as int]) } else { None }),
    {
        if index < self.records.len() {
            Some(self.records[index])
        } else {
            None
        }
    }

    /// Position of the last record, if there is one.
    pub fn last_index(&self) -> (r: Option<usize>)
        ensures
            r == last_index_of(self@),
            r matches Some(i) ==> i == self@.len() - 1,
    {
        if self.records.len() == 0 {
            None
        } else {
            Some(self.records.len() - 1)
        }
    }

    /// Adds a record. The place is found by bisection: where a record of that
    /// date is met the store stays as it is and `DuplicateDate` comes back,
    /// else the record is inserted where the bisection ended and that position
    /// comes back. On an ordered store the bisection meets the date exactly
    /// where the store holds it, and the position keeps the order.
    pub fn append(&mut self, date: Date, tenths: u32) -> (r: Result<usize, JournalError>)
        requires
            old(self).wf(),
            date.wf(),
        ensures
            final(self).wf(),
            match probe(old(self)@, date, 0, old(self)@.len() as int) {
                Probe::Found(_) => r == Err::<usize, JournalError>(JournalError::DuplicateDate)
                    && final(self)@ == old(self)@,
                Probe::Slot(i) => r == Ok::<usize, JournalError>(i as usize) && 0 <= i <= old(
                    self,
                )@.len() && final(self)@ == old(self)@.insert(i, (Record { date, tenths })),
            },
            final(self)@ == after_append(old(self)@, date, tenths),
            old(self).is_ordered() ==> final(self).is_ordered() && (r is Err <==> holds_date(
                old(self)@,
                date,
            )),
            old(self).is_ordered() ==> (r matches Ok(i) ==> is_slot(old(self)@, date, i as int)),
    {
        proof {
            if self.is_ordered() {
                lemma_append_keeps_order(self@, date, tenths);
                lemma_probe_ordered(self@, date, 0, self@.len() as int);
            }
        }
        let mut lo: usize = 0;
        let mut hi: usize = self.records.len();
        while lo < hi
            invariant
                0 <= lo <= hi <= self.records.len(),
                self.records@ == old(self)@,
                self.wf(),
                probe(self.records@, date, lo as int, hi as int) == probe(
                    old(self)@,
                    date,
                    0,
                    old(self)@.len() as int,
                ),
            decreases hi - lo,
        {
            let mid: usize = lo + (hi - lo) / 2;
            let there = self.records[mid].date;
            if there == date {
                return Err(JournalError::DuplicateDate);
            } else if there.is_before(&date) {
                lo = mid + 1;
            } else {
                hi = mid;
            }
        }
        self.records.insert(lo, Record { date, tenths });
        Ok(lo)
    }

    /// Reads a persisted text into the store. A text without a line leaves
    /// the store as it is; so does one whose first line is no header, which
    /// is refused with `InvalidHeader`; otherwise the records of the lines
    /// that read take the place of what the store held, in the lines' order.
    pub fn import(&mut self, text: &str) -> (r: Result<(), JournalError>)
        ensures
            match imported(text@) {
                None => r == Ok::<(), JournalError>(()) && final(self)@ == old(self)@,
                Some(Err(e)) => r == Err::<(), JournalError>(e) && final(self)@ == old(self)@,
                Some(Ok(records)) => r == Ok::<(), JournalError>(()) && final(self)@ == records,
            },
            old(self).wf() ==> final(self).wf(),
    {
        match read_records(text) {
            None => Ok(()),
            Some(Err(e)) => Err(e),
            Some(Ok(records)) => {
                self.records = records;
                Ok(())
            },
        }
    }

    /// The persisted text of the store: the header, then a line per record
    /// in the store's order, the weight with one decimal place. Imported
    /// again, the text gives the same records.
    pub fn export(&self) -> (r: String)
        requires
            self.wf(),
        ensures
            r@ == exported(self@),
            imported(r@) == Some(Ok::<Seq<Record>, JournalError>(self@)),
    {
        write_records(&self.records)
    }

    /// Replaces the weight of the record at `index`; its date stays.
    pub fn edit(&mut self, index: usize, tenths: u32) -> (r: Result<(), JournalError>)
        requires
            old(self).wf(),
        ensures
            final(self).wf(),
            index >= old(self)@.len() ==> r == Err::<(), JournalError>(
                JournalError::IndexOutOfRange,
            ) && final(self)@ == old(self)@,
            index < old(self)@.len() ==> r == Ok::<(), JournalError>(()) && final(self)@ == old(
                self,
            )@.update(index as int, (Record { date: old(self)@[index as int].date, tenths })),
            old(self).is_ordered() ==> final(self).is_ordered(),
    {
        if index >= self.records.len() {
            return Err(JournalError::IndexOutOfRange);
        }
        let date = self.records[index].date;
        self.records.set(index, Record { date, tenths });
        Ok(())
    }

    /// Removes the record at `index`.
    pub fn delete(&mut self, index: usize) -> (r: Result<(), JournalError>)
        requires
            old(self).wf(),
        ensures
            final(self).wf(),
            index >= old(self)@.len() ==> r == Err::<(), JournalError>(
                JournalError::IndexOutOfRange,
            ) && final(self)@ == old(self)@,
            index < old(self)@.len() ==> r == Ok::<(), JournalError>(()) && final(self)@ == old(
                self,
            )@.remove(index as int),
            old(self).is_ordered() ==> final(self).is_ordered(),
    {
        if index >= self.records.len() {
            return Err(JournalError::IndexOutOfRange);
        }
        self.records.remove(index);
        Ok(())
    }
}

/// On an ordered store a bisection meets a date exactly where the store holds
/// it; where it does not, the slot it ends in has every earlier day before it
/// and every later day behind it.
pub proof fn lemma_probe_ordered(s: Seq<Record>, date: Date, lo: int, hi: int)
    requires
        ordered(s),
        0 <= lo <= hi <= s.len(),
        forall|k: int| 0 <= k < lo ==> (#[trigger] s[k]).date.before(&date),
        forall|k: int| hi <= k < s.len() ==> date.before(&(#[trigger] s[k]).date),
    ensures
        match probe(s, date, lo, hi) {
            Probe::Found(k) => 0 <= k < s.len() && s[k].date == date,
            Probe::Slot(i) => lo <= i <= hi && !holds_date(s, date) && is_slot(s, date, i),
        },
    decreases hi - lo,
{
    if lo < hi {
        let mid = lo + (hi - lo) / 2;
        if s[mid].date == date {
        } else if s[mid].date.before(&date) {
            assert forall|k: int| 0 <= k < mid + 1 implies (#[trigger] s[k]).date.before(&date) by {
                if k < mid {
                    assert(s[k].date.before(&s[mid].date));
                }
            }
            lemma_probe_ordered(s, date, mid + 1, hi);
        } else {
            assert forall|k: int| mid <= k < s.len() implies date.before(&(#[trigger] s[k]).date) by {
                if k > mid {
                    assert(s[mid].date.before(&s[k].date));
                }
            }
            lemma_probe_ordered(s, date, lo, mid);
        }
    }
}

/// The records after an append: as they were where the bisection meets the
/// date, else with the record inserted where the bisection ended.
pub open spec fn after_append(s: Seq<Record>, date: Date, tenths: u32) -> Seq<Record> {
    match probe(s, date, 0, s.len() as int) {
        Probe::Found(_) => s,
        Probe::Slot(i) => s.insert(i, Record { date, tenths }),
    }
}

/// The records after the appends of `items`, one after the other.
pub open spec fn after_appends(s: Seq<Record>, items: Seq<Record>) -> Seq<Record>
    decreases items.len(),
{
    if items.len() == 0 {
        s
    } else {
        after_append(after_appends(s, items.drop_last()), items.last().date, items.last().tenths)
    }
}

/// An append leaves an ordered store ordered. A day that the store holds is
/// refused and the store stays as it is; a day that it does not hold is
/// inserted.
pub proof fn lemma_append_keeps_order(s: Seq<Record>, date: Date, tenths: u32)
    requires
        ordered(s),
    ensures
        ordered(after_append(s, date, tenths)),
        holds_date(s, date) <==> probe(s, date, 0, s.len() as int) is Found,
        holds_date(s, date) ==> after_append(s, date, tenths) == s,
        !holds_date(s, date) ==> after_append(s, date, tenths).len() == s.len() + 1 && holds_date(
            after_append(s, date, tenths),
            date,
        ),
{
    lemma_probe_ordered(s, date, 0, s.len() as int);
    match probe(s, date, 0, s.len() as int) {
        Probe::Found(k) => {
            assert(holds_date(s, date));
        },
        Probe::Slot(i) => {
            let t = s.insert(i, Record { date, tenths });
            assert forall|a: int, b: int| 0 <= a < b < t.len() implies (#[trigger] t[a]).date.before(
                &(#[trigger] t[b]).date,
            ) by {
                if a < i && b > i {
                    assert(s[a].date.before(&date));
                    assert(date.before(&s[b - 1].date));
                }
            }
            assert(t[i].date == date);
        },
    }
}

/// Whatever is appended to an ordered store, in whatever order, the store is
/// ordered after each append.
pub proof fn lemma_appends_keep_order(s: Seq<Record>, items: Seq<Record>)
    requires
        ordered(s),
    ensures
        ordered(after_appends(s, items)),
        forall|k: int| 0 <= k <= items.len() ==> ordered(#[trigger] after_appends(s, items.take(k))),
    decreases items.len(),
{
    if items.len() > 0 {
        let front = items.drop_last();
        lemma_appends_keep_order(s, front);
        lemma_append_keeps_order(after_appends(s, front), items.last().date, items.last().tenths);
        assert forall|k: int| 0 <= k <= items.len() implies ordered(
            #[trigger] after_appends(s, items.take(k)),
        ) by {
            if k < items.len() {
                assert(items.take(k) =~= front.take(k));
            } else {
                assert(items.take(k) =~= items);
            }
        }
    } else {
        assert forall|k: int| 0 <= k <= items.len() implies ordered(
            #[trigger] after_appends(s, items.take(k)),
        ) by {
            assert(items.take(k) =~= items);
        }
    }
}

} // verus!
