//! The shapes of the remote table query, and the decisions of the paged
//! record download.
use vstd::prelude::*;
use crate::field::FromField;
use crate::raw::RawItem;

verus! {

/// The answer to a table query: one entry per row.
#[derive(Debug)]
pub struct CargoQuery<T> {
    pub cargoquery: Vec<CargoQueryEntry<T>>,
}

/// One row of a table query answer.
#[derive(Debug)]
pub struct CargoQueryEntry<T> {
    pub title: T,
}

/// The single row of a count query.
#[derive(Debug)]
pub struct Count {
    pub count: String,
}

impl<T> CargoQuery<T> {
    /// The rows, in order.
    pub fn into_rows(self) -> (r: Vec<T>)
        ensures
            r@ == self.cargoquery@.map_values(|e: CargoQueryEntry<T>| e.title),
    {
        let ghost entries = self.cargoquery@;
        let mut rest = self.cargoquery;
        let mut out: Vec<T> = Vec::new();
        let ghost done: int = 0;
        proof {
            assert(rest@ =~= entries.skip(0));
        }
        while rest.len() > 0
            invariant
                0 <= done <= entries.len(),
                rest@ == entries.skip(done),
                out@ == entries.take(done).map_values(|e: CargoQueryEntry<T>| e.title),
            decreases rest.len(),
        {
            let e = rest.remove(0);
            out.push(e.title);
            proof {
                assert(out@ =~= entries.take(done + 1).map_values(|e: CargoQueryEntry<T>| e.title));
                done = done + 1;
                assert(rest@ =~= entries.skip(done));
            }
        }
        proof {
            assert(entries.take(done) =~= entries);
        }
        out
    }
}

/// The number a count query reports, if its text is a number.
pub open spec fn count_spec(q: CargoQuery<Count>) -> Option<usize> {
    if q.cargoquery@.len() == 0 {
        None
    } else {
        <usize as FromField>::field_spec(q.cargoquery@[0].title.count@)
    }
}

impl Count {
    /// The number of rows the count query reports: the first row's count.
    /// `None` when there is no row or its text is not a number.
    pub fn total(q: &CargoQuery<Count>) -> (r: Option<usize>)
        ensures
            r == count_spec(*q),
    {
        if q.cargoquery.len() == 0 {
            None
        } else {
            usize::from_field(q.cargoquery[0].title.count.as_str())
        }
    }
}

/// The state of a paged download of all records.
///
/// Pages are asked for at the number of records gathered so far, until that
/// number reaches the reported total or a page comes back empty: a total
/// that is stale or wrong cannot make the download run forever.
pub struct Pagination {
    pub total: usize,
    pub records: Vec<RawItem>,
    pub exhausted: bool,
}

impl Pagination {
    pub open spec fn done_spec(&self) -> bool {
        self.exhausted || self.records@.len() >= self.total
    }

    /// Starts a download of `total` records.
    pub fn new(total: usize) -> (r: Pagination)
        ensures
            r.total == total,
            r.records@.len() == 0,
            !r.exhausted,
    {
        Pagination { total, records: Vec::new(), exhausted: false }
    }

    /// The offset of the page to ask for next, or `None` when the download
    /// is over.
    pub fn next_offset(&self) -> (r: Option<usize>)
        ensures
            match r {
                Some(o) => !self.done_spec() && o == self.records@.len(),
                None => self.done_spec(),
            },
    {
        if self.exhausted || self.records.len() >= self.total {
            None
        } else {
            Some(self.records.len())
        }
    }

    /// Takes the page that came back: its records are appended; an empty
    /// page ends the download.
    pub fn receive(&mut self, page: Vec<RawItem>)
        ensures
            final(self).total == old(self).total,
            final(self).records@ == old(self).records@ + page@,
            final(self).exhausted == (old(self).exhausted || page@.len() == 0),
    {
        if page.len() == 0 {
            self.exhausted = true;
            proof {
                assert(self.records@ =~= old(self).records@ + page@);
            }
        } else {
            let mut page = page;
            self.records.append(&mut page);
        }
    }

    /// The records gathered, in the order their pages came.
    pub fn finish(self) -> (r: Vec<RawItem>)
        ensures
            r@ == self.records@,
    {
        self.records
    }
}

} // verus!
