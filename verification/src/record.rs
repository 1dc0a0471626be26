//! Record handles and the two shapes in which the keeper hands them out:
//! an ordered enumeration of a whole namespace (`RecordMap`) and a
//! one-shot, forward-only stream of query matches (`RecordIterator`).

use vstd::prelude::*;

verus! {

/// The names a sequence of record handles carries, in order.
pub open spec fn record_names(rs: Seq<Record>) -> Seq<Seq<char>> {
    rs.map_values(|r: Record| r@)
}

/// A handle to one record of the registry. Its identity, as observed
/// through this crate, is its name within the namespace it came from;
/// the record's further contents belong to the producer, not to the
/// query layer.
pub struct Record {
    name: String,
}

impl View for Record {
    type V = Seq<char>;

    closed spec fn view(&self) -> Seq<char> {
        self.name@
    }
}

impl Record {
    pub(crate) fn new(name: String) -> (r: Record)
        ensures
            r@ == name@,
    {
        Record { name }
    }

    /// The record's name, the identity callers query it for.
    pub fn name(&self) -> (n: &String)
        ensures
            n@ == self@,
    {
        &self.name
    }
}

impl Clone for Record {
    fn clone(&self) -> (r: Self)
        ensures
            r@ == self@,
    {
        Record { name: self.name.clone() }
    }
}

/// An ordered view over one whole namespace of the registry, in the
/// order the producer inserted the records.
pub struct RecordMap {
    records: Vec<Record>,
}

impl View for RecordMap {
    type V = Seq<Seq<char>>;

    closed spec fn view(&self) -> Seq<Seq<char>> {
        record_names(self.records@)
    }
}

impl RecordMap {
    pub(crate) fn from_records(records: Vec<Record>) -> (m: RecordMap)
        ensures
            m@ == record_names(records@),
    {
        RecordMap { records }
    }

    /// How many records the namespace holds.
    pub fn len(&self) -> (n: usize)
        ensures
            n == self@.len(),
    {
        self.records.len()
    }

    /// The record at one position of the enumeration order.
    pub fn get(&self, i: usize) -> (r: &Record)
        requires
            i < self@.len(),
        ensures
            r@ == self@[i as int],
    {
        &self.records[i]
    }
}

/// A one-shot, forward-only stream of record handles, backed by a
/// result sequence the query materialized eagerly. The stream owns its
/// backing storage; dropping it at any point of consumption releases
/// that storage exactly once, by ownership.
pub struct RecordIterator {
    records: Vec<Record>,
    index: usize,
}

impl RecordIterator {
    /// The full result sequence the stream was created over, by name.
    pub closed spec fn backing(self) -> Seq<Seq<char>> {
        record_names(self.records@)
    }

    /// How many elements have been pulled so far.
    pub closed spec fn pos(self) -> int {
        self.index as int
    }

    /// Whether the stream has signalled exhaustion.
    pub open spec fn done(self) -> bool {
        self.pos() >= self.backing().len()
    }

    pub(crate) fn from_records(records: Vec<Record>) -> (it: RecordIterator)
        ensures
            it.backing() == record_names(records@),
            it.pos() == 0,
    {
        RecordIterator { records, index: 0 }
    }

    /// Pull the next record. Elements come back in backing order, one
    /// per call; once the stream is exhausted every further call keeps
    /// returning `None` without moving the cursor.
    pub fn next(&mut self) -> (r: Option<Record>)
        ensures
            final(self).backing() == old(self).backing(),
            r is Some <==> !old(self).done(),
            !old(self).done() ==> (
                r.unwrap()@ == old(self).backing()[old(self).pos()]
                && final(self).pos() == old(self).pos() + 1
            ),
            old(self).done() ==> *final(self) == *old(self),
    {
        if self.index < self.records.len() {
            let rec = self.records[self.index].clone();
            self.index = self.index + 1;
            Some(rec)
        } else {
            None
        }
    }
}

} // verus!
