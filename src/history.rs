//! A bounded log of past calculations, with recency and substring queries.
use vstd::prelude::*;
use crate::text::{contains_str, occurs_in};

verus! {

/// The default number of records a history keeps.
pub const DEFAULT_CAPACITY: usize = 100;

/// A calculation's result as the history keeps it: the bit pattern of the IEEE-754 double
/// and the text it is shown as.
#[derive(Debug, Clone, PartialEq)]
pub struct ResultValue {
    pub bits: u64,
    pub text: String,
}

impl ResultValue {
    pub fn new(bits: u64, text: String) -> (r: Self)
        ensures
            r.bits == bits,
            r.text@ == text@,
    {
        ResultValue { bits, text }
    }
}

/// A record with its texts seen as character sequences.
pub struct RecordView {
    pub expression: Seq<char>,
    pub bits: u64,
    pub text: Seq<char>,
    pub index: nat,
}

/// One past calculation: what was entered, what came out, and its place in the log.
#[derive(Debug, Clone)]
pub struct HistoryRecord {
    pub expression: String,
    pub result: ResultValue,
    pub index: usize,
}

impl View for HistoryRecord {
    type V = RecordView;

    open spec fn view(&self) -> RecordView {
        RecordView {
            expression: self.expression@,
            bits: self.result.bits,
            text: self.result.text@,
            index: self.index as nat,
        }
    }
}

impl HistoryRecord {
    pub fn new(expression: String, result: ResultValue, index: usize) -> (r: Self)
        ensures
            r@ == (RecordView { expression: expression@, bits: result.bits, text: result.text@, index: index as nat }),
    {
        HistoryRecord { expression, result, index }
    }
}

pub open spec fn records_view(rs: Seq<HistoryRecord>) -> Seq<RecordView> {
    rs.map_values(|r: HistoryRecord| r@)
}

pub open spec fn record_refs_view(rs: Seq<&HistoryRecord>) -> Seq<RecordView> {
    rs.map_values(|r: &HistoryRecord| r@)
}

/// A history as a sequence of records, oldest first, with its capacity and the index the
/// next record gets.
pub struct HistoryView {
    pub records: Seq<RecordView>,
    pub capacity: nat,
    pub next_index: nat,
}

/// The records stay within the capacity, their indices increase from oldest to newest,
/// and every index is below the next one to be given.
pub open spec fn history_wf(h: HistoryView) -> bool {
    &&& h.records.len() <= h.capacity
    &&& h.next_index >= 1
    &&& forall|i: int, j: int| 0 <= i < j < h.records.len() ==> h.records[i].index < h.records[j].index
    &&& forall|i: int| 0 <= i < h.records.len() ==> 1 <= #[trigger] h.records[i].index < h.next_index
}

/// The history after recording `expression` with result `bits` shown as `text`: the record
/// is appended with the next index, and the oldest record leaves when the capacity is exceeded.
pub open spec fn added(h: HistoryView, expression: Seq<char>, bits: u64, text: Seq<char>) -> HistoryView {
    let pushed = h.records.push(RecordView { expression, bits, text, index: h.next_index });
    HistoryView {
        records: if pushed.len() > h.capacity { pushed.drop_first() } else { pushed },
        capacity: h.capacity,
        next_index: h.next_index + 1,
    }
}

/// The last `count` records, or all of them when there are fewer.
pub open spec fn recent(h: HistoryView, count: nat) -> Seq<RecordView> {
    let n = h.records.len();
    if n > count { h.records.subrange(n - count, n as int) } else { h.records }
}

/// A record matches a query that occurs in its expression or in its result's text.
pub open spec fn record_matches(r: RecordView, query: Seq<char>) -> bool {
    occurs_in(query, r.expression) || occurs_in(query, r.text)
}

/// The records of `rs` that match `query`, in order.
pub open spec fn matching(rs: Seq<RecordView>, query: Seq<char>) -> Seq<RecordView>
    decreases rs.len(),
{
    if rs.len() == 0 {
        Seq::empty()
    } else {
        let rest = matching(rs.drop_last(), query);
        if record_matches(rs.last(), query) { rest.push(rs.last()) } else { rest }
    }
}

/// A log of calculations that keeps at most a fixed number of the newest records.
pub struct HistoryManager {
    records: Vec<HistoryRecord>,
    max_records: usize,
    next_index: usize,
}

impl View for HistoryManager {
    type V = HistoryView;

    closed spec fn view(&self) -> HistoryView {
        HistoryView {
            records: records_view(self.records@),
            capacity: self.max_records as nat,
            next_index: self.next_index as nat,
        }
    }
}

impl HistoryManager {
    pub open spec fn wf(&self) -> bool {
        history_wf(self@)
    }

    /// An empty history that keeps up to a hundred records.
    pub fn new() -> (r: Self)
        ensures
            r.wf(),
            r@.records.len() == 0,
            r@.capacity == DEFAULT_CAPACITY,
            r@.next_index == 1,
    {
        HistoryManager::with_capacity(DEFAULT_CAPACITY)
    }

    /// An empty history that keeps up to `capacity` records.
    pub fn with_capacity(capacity: usize) -> (r: Self)
        ensures
            r.wf(),
            r@.records.len() == 0,
            r@.capacity == capacity,
            r@.next_index == 1,
    {
        let r = HistoryManager { records: Vec::new(), max_records: capacity, next_index: 1 };
        assert(r@.records =~= Seq::<RecordView>::empty());
        r
    }

    /// The index the next record gets.
    pub fn next_index(&self) -> (r: usize)
        ensures
            r == self@.next_index,
    {
        self.next_index
    }

    pub fn capacity(&self) -> (r: usize)
        ensures
            r == self@.capacity,
    {
        self.max_records
    }

    /// Records a calculation under the next index, dropping the oldest record when the
    /// history would exceed its capacity.
    pub fn add_record(&mut self, expression: &str, result: ResultValue)
        requires
            old(self).wf(),
            old(self)@.next_index < usize::MAX,
        ensures
            final(self).wf(),
            final(self)@ == added(old(self)@, expression@, result.bits, result.text@),
    {
        let ghost h = self@;
        let ghost rv = RecordView { expression: expression@, bits: result.bits, text: result.text@, index: h.next_index };
        let record = HistoryRecord::new(String::from_str(expression), result, self.next_index);
        self.records.push(record);
        self.next_index = self.next_index + 1;
        proof {
            assert(records_view(self.records@) =~= h.records.push(rv));
        }
        if self.records.len() > self.max_records {
            let ghost before = self.records@;
            self.records.remove(0);
            proof {
                assert(records_view(self.records@) =~= records_view(before).drop_first());
            }
        }
    }

    /// The last `count` records, oldest first.
    pub fn get_recent_records(&self, count: usize) -> (r: &[HistoryRecord])
        ensures
            records_view(r@) == recent(self@, count as nat),
    {
        let n = self.records.len();
        let start = if n > count { n - count } else { 0 };
        let r = vstd::slice::slice_subrange(self.records.as_slice(), start, n);
        assert(records_view(r@) =~= recent(self@, count as nat));
        r
    }

    /// Every record, oldest first.
    pub fn get_all_records(&self) -> (r: &[HistoryRecord])
        ensures
            records_view(r@) == self@.records,
    {
        self.records.as_slice()
    }

    /// The records whose expression or result text contains `query`, oldest first.
    pub fn search_records(&self, query: &str) -> (r: Vec<&HistoryRecord>)
        ensures
            record_refs_view(r@) == matching(self@.records, query@),
    {
        let ghost all = self@.records;
        let mut found: Vec<&HistoryRecord> = Vec::new();
        let mut k: usize = 0;
        while k < self.records.len()
            invariant
                k <= self.records.len(),
                all == records_view(self.records@),
                record_refs_view(found@) == matching(all.subrange(0, k as int), query@),
            decreases self.records.len() - k,
        {
            let rec = &self.records[k];
            let hit = contains_str(rec.expression.as_str(), query) || contains_str(rec.result.text.as_str(), query);
            proof {
                assert(all.subrange(0, k + 1).drop_last() =~= all.subrange(0, k as int));
                assert(all.subrange(0, k + 1).last() == rec@);
            }
            if hit {
                let ghost before = found@;
                found.push(rec);
                proof {
                    assert(record_refs_view(found@) =~= record_refs_view(before).push(rec@));
                }
            }
            k = k + 1;
        }
        assert(all.subrange(0, self.records.len() as int) =~= all);
        found
    }

    /// The record with the given index, if it is still kept.
    pub fn get_record_by_index(&self, index: usize) -> (r: Option<&HistoryRecord>)
        ensures
            r is Some <==> exists|i: int| 0 <= i < self@.records.len() && #[trigger] self@.records[i].index == index,
            r is Some ==> r->Some_0@.index == index && self@.records.contains(r->Some_0@),
    {
        let mut k: usize = 0;
        while k < self.records.len()
            invariant
                k <= self.records.len(),
                forall|i: int| 0 <= i < k ==> #[trigger] self@.records[i].index != index,
            decreases self.records.len() - k,
        {
            if self.records[k].index == index {
                assert(self@.records[k as int] == self.records[k as int]@);
                assert(self@.records[k as int].index == index);
                return Some(&self.records[k]);
            }
            assert(self@.records[k as int] == self.records[k as int]@);
            k = k + 1;
        }
        None
    }

    /// Removes every record and starts numbering again from 1.
    pub fn clear(&mut self)
        ensures
            final(self).wf(),
            final(self)@.records.len() == 0,
            final(self)@.capacity == old(self)@.capacity,
            final(self)@.next_index == 1,
    {
        self.records.clear();
        self.next_index = 1;
        assert(self@.records =~= Seq::<RecordView>::empty());
    }

    pub fn count(&self) -> (r: usize)
        ensures
            r == self@.records.len(),
    {
        self.records.len()
    }

    pub fn is_empty(&self) -> (r: bool)
        ensures
            r == (self@.records.len() == 0),
    {
        self.records.len() == 0
    }
}

impl Default for HistoryManager {
    fn default() -> (r: Self)
        ensures
            r.wf(),
            r@.records.len() == 0,
            r@.capacity == DEFAULT_CAPACITY,
            r@.next_index == 1,
    {
        HistoryManager::new()
    }
}

} // verus!
