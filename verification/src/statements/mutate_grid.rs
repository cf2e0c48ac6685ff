//! Grid surgery around the header row: replacing it with the catalog's
//! column list, peeling it off, and carving worker-sized slices.

use crate::format_data::FormattedData;
use vstd::prelude::*;

verus! {

/// Operations on a whole grid of tagged cells.
pub trait MutateGrid: Sized {
    /// The grid's rows.
    spec fn rows(&self) -> Seq<Vec<FormattedData>>;

    /// Drops the supplied header row and returns the destination table's
    /// catalog column list as the authoritative header, in catalog order.
    fn replace_header(&mut self, catalog_columns: &Vec<String>) -> (r: Vec<FormattedData>)
        requires
            old(self).rows().len() >= 1,
        ensures
            final(self).rows() == old(self).rows().drop_first(),
            r@.len() == catalog_columns@.len(),
            forall|i: int|
                0 <= i < r@.len() ==> (#[trigger] r@[i]) is STRING && r@[i]->STRING_0@
                    == catalog_columns@[i]@,
    ;

    /// Peels the header row off and returns it.
    fn separate_header(&mut self) -> (r: Vec<FormattedData>)
        requires
            old(self).rows().len() >= 1,
        ensures
            final(self).rows() == old(self).rows().drop_first(),
            r == old(self).rows()[0],
    ;

    /// Removes and returns the first `num` rows, keeping their order.
    fn divide(&mut self, num: usize) -> (r: Self)
        requires
            num <= old(self).rows().len(),
        ensures
            r.rows() == old(self).rows().take(num as int),
            final(self).rows() == old(self).rows().skip(num as int),
    ;
}

impl MutateGrid for Vec<Vec<FormattedData>> {
    open spec fn rows(&self) -> Seq<Vec<FormattedData>> {
        self@
    }

    fn replace_header(&mut self, catalog_columns: &Vec<String>) -> (r: Vec<FormattedData>) {
        self.remove(0);
        let mut header: Vec<FormattedData> = Vec::new();
        let mut i: usize = 0;
        while i < catalog_columns.len()
            invariant
                i <= catalog_columns@.len(),
                header@.len() == i,
                forall|k: int|
                    0 <= k < i ==> (#[trigger] header@[k]) is STRING && header@[k]->STRING_0@
                        == catalog_columns@[k]@,
            decreases catalog_columns@.len() - i,
        {
            header.push(FormattedData::STRING(catalog_columns[i].clone()));
            i = i + 1;
        }
        proof {
            assert(self@ =~= old(self)@.drop_first());
        }
        header
    }

    fn separate_header(&mut self) -> (r: Vec<FormattedData>) {
        let head = self.remove(0);
        proof {
            assert(self@ =~= old(self)@.drop_first());
        }
        head
    }

    fn divide(&mut self, num: usize) -> (r: Self) {
        let mut tail = self.split_off(num);
        core::mem::swap(self, &mut tail);
        proof {
            assert(tail@ =~= old(self)@.take(num as int));
            assert(self@ =~= old(self)@.skip(num as int));
        }
        tail
    }
}

} // verus!
