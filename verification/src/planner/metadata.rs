//! The registry of the columns of a query.

use crate::datavalues::data_type::DataType;
use crate::planner::column_set::IndexType;
use vstd::prelude::*;

verus! {

/// One column known to a query: its name, its type and, for a column of a
/// base table, the table it comes from.
#[derive(Debug, PartialEq, Eq)]
pub struct ColumnEntry {
    pub name: String,
    pub data_type: DataType,
    pub table_index: Option<IndexType>,
}

pub ghost struct ColumnEntryView {
    pub name: Seq<char>,
    pub data_type: DataType,
    pub table_index: Option<IndexType>,
}

impl View for ColumnEntry {
    type V = ColumnEntryView;

    open spec fn view(&self) -> ColumnEntryView {
        ColumnEntryView { name: self.name@, data_type: self.data_type, table_index: self.table_index }
    }
}

/// The columns of a query, each identified by its position. Columns are only
/// ever added, so an identifier stays valid once handed out.
#[derive(Debug, PartialEq, Eq)]
pub struct Metadata {
    columns: Vec<ColumnEntry>,
}

impl View for Metadata {
    type V = Seq<ColumnEntryView>;

    closed spec fn view(&self) -> Seq<ColumnEntryView> {
        Seq::new(self.columns.len() as nat, |i: int| self.columns[i]@)
    }
}

impl Metadata {
    /// A registry without columns.
    pub fn create() -> (m: Metadata)
        ensures
            m@ == Seq::<ColumnEntryView>::empty(),
    {
        let m = Metadata { columns: Vec::new() };
        assert(m@ =~= Seq::<ColumnEntryView>::empty());
        m
    }

    /// The number of columns, which is the identifier that the next column
    /// will get.
    pub fn len(&self) -> (n: usize)
        ensures
            n == self@.len(),
    {
        self.columns.len()
    }

    /// Registers a column and returns its identifier.
    pub fn add_column(&mut self, name: String, data_type: DataType, table_index: Option<IndexType>) -> (index:
        IndexType)
        ensures
            index == old(self)@.len(),
            final(self)@ == old(self)@.push(ColumnEntryView { name: name@, data_type, table_index }),
    {
        let index = self.columns.len();
        self.columns.push(ColumnEntry { name, data_type, table_index });
        assert(self@ =~= old(self)@.push(ColumnEntryView { name: name@, data_type, table_index }));
        index
    }

    /// The column with identifier `index`, if there is one.
    pub fn column(&self, index: IndexType) -> (r: Option<&ColumnEntry>)
        ensures
            r is Some <==> index < self@.len(),
            r matches Some(c) ==> c@ == self@[index as int],
    {
        if index < self.columns.len() {
            Some(&self.columns[index])
        } else {
            None
        }
    }
}

impl Clone for Metadata {
    fn clone(&self) -> (r: Metadata)
        ensures
            r@ == self@,
    {
        let mut columns: Vec<ColumnEntry> = Vec::new();
        let mut i: usize = 0;
        while i < self.columns.len()
            invariant
                i <= self.columns.len(),
                columns.len() == i,
                forall|j: int| 0 <= j < i ==> columns[j]@ == self.columns[j]@,
            decreases self.columns.len() - i,
        {
            let c = &self.columns[i];
            columns.push(
                ColumnEntry { name: c.name.clone(), data_type: c.data_type.clone(), table_index: c.table_index },
            );
            i += 1;
        }
        let r = Metadata { columns };
        assert(r@ =~= self@);
        r
    }
}

} // verus!
