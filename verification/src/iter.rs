//! Iterate over a table.
use vstd::prelude::*;

use crate::schema::{
    TableOf,IndexDesc, TableDesc};
use crate::storage::{row_keys, rows_map};

verus! {

/// An iterator over the rows of a single table (described by the generic parameter `D`).
///
/// Rows come out in the order in which the table holds them; each row comes out once.
pub struct TableIterator<'a, D: TableDesc> {
    rows: &'a Vec<(D::Key, D::Value)>,
    pos: usize,
}

impl<'a, D: TableDesc> TableIterator<'a, D> {
    #[verifier::type_invariant]
    spec fn in_bounds(self) -> bool {
        self.pos <= self.rows@.len()
    }

    /// The rows that are still to come, in order.
    pub closed spec fn remaining(&self) -> Seq<(D::Key, D::Value)> {
        self.rows@.skip(self.pos as int)
    }

    /// Create an iterator over the given rows.
    pub(crate) fn new(rows: &'a Vec<(D::Key, D::Value)>) -> (r: Self)
        ensures
            r.remaining() == rows@,
    {
        let r = TableIterator { rows, pos: 0 };
        assert(r.remaining() =~= rows@);
        r
    }

    /// The next row.
    pub fn next(&mut self) -> (r: Option<(&'a D::Key, &'a D::Value)>)
        ensures
            match r {
                Some((k, v)) => {
                    &&& old(self).remaining().len() > 0
                    &&& *k == old(self).remaining()[0].0
                    &&& *v == old(self).remaining()[0].1
                    &&& final(self).remaining() == old(self).remaining().drop_first()
                },
                None => old(self).remaining().len() == 0 && final(self).remaining() == old(self).remaining(),
            },
    {
        proof {
            use_type_invariant(&*self);
        }
        if self.pos < self.rows.len() {
            let row = &self.rows[self.pos];
            self.pos = self.pos + 1;
            proof {
                assert(self.remaining() =~= old(self).remaining().drop_first());
            }
            Some((&row.0, &row.1))
        } else {
            None
        }
    }

    /// The number of rows still to come.
    pub fn count(self) -> (r: usize)
        ensures
            r == self.remaining().len(),
    {
        proof {
            use_type_invariant(&self);
        }
        if self.pos < self.rows.len() {
            self.rows.len() - self.pos
        } else {
            0
        }
    }
}

/// An iterator over the rows of an index table, giving each key of the index with the value of
/// the row of the base table that the index maps it to.
pub struct IndexIterator<'a, D: IndexDesc> {
    rows: &'a Vec<(D::Key, D::Value)>,
    base: &'a TableOf<D::BaseTable>,
    pos: usize,
}

impl<'a, D: IndexDesc> IndexIterator<'a, D> {
    #[verifier::type_invariant]
    spec fn in_bounds(self) -> bool {
        self.pos <= self.rows@.len()
    }
}

impl<'a, D: IndexDesc> IndexIterator<'a, D> where
    D: TableDesc<Value = <D::BaseTable as TableDesc>::Key>,
 {
    /// The index rows that are still to come, in order.
    pub closed spec fn remaining(&self) -> Seq<(D::Key, D::Value)> {
        self.rows@.skip(self.pos as int)
    }

    /// The rows of the base table.
    pub closed spec fn base_rows(&self) -> Map<
        <<D::BaseTable as TableDesc>::Key as View>::V,
        <D::BaseTable as TableDesc>::Value,
    > {
        self.base.rows()
    }

    /// Create an iterator over the given index rows and base table.
    pub(crate) fn new(rows: &'a Vec<(D::Key, D::Value)>, base: &'a TableOf<D::BaseTable>) -> (r:
        Self)
        ensures
            r.remaining() == rows@,
            r.base_rows() == base.rows(),
    {
        let r = IndexIterator { rows, base, pos: 0 };
        assert(r.remaining() =~= rows@);
        r
    }

    /// The next key of the index with the value it leads to in the base table. Returns `None`
    /// at the end of the index, and at an index row whose base row is missing, which it passes.
    pub fn next(&mut self) -> (r: Option<(&'a D::Key, &'a <D::BaseTable as TableDesc>::Value)>)
        ensures
            final(self).base_rows() == old(self).base_rows(),
            match r {
                Some((k, v)) => {
                    &&& old(self).remaining().len() > 0
                    &&& *k == old(self).remaining()[0].0
                    &&& old(self).base_rows().contains_key(old(self).remaining()[0].1@)
                    &&& *v == old(self).base_rows()[old(self).remaining()[0].1@]
                    &&& final(self).remaining() == old(self).remaining().drop_first()
                },
                None => if old(self).remaining().len() == 0 {
                    final(self).remaining() == old(self).remaining()
                } else {
                    &&& !old(self).base_rows().contains_key(old(self).remaining()[0].1@)
                    &&& final(self).remaining() == old(self).remaining().drop_first()
                },
            },
    {
        proof {
            use_type_invariant(&*self);
        }
        if self.pos < self.rows.len() {
            let row = &self.rows[self.pos];
            self.pos = self.pos + 1;
            proof {
                assert(self.remaining() =~= old(self).remaining().drop_first());
            }
            match self.base.get_row(&row.1) {
                Some(v) => Some((&row.0, v)),
                None => None,
            }
        } else {
            None
        }
    }
}

} // verus!
