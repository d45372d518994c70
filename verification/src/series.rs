//! The key by which a series is tracked and found again.

use vstd::prelude::*;

verus! {

/// What a key is in contracts: the characters of its column and of its table.
pub type KeyView = (Seq<char>, Seq<char>);

/// The name of one series: a column of a table.
#[derive(Debug)]
pub struct SeriesKey {
    pub column: String,
    pub table: String,
}

impl View for SeriesKey {
    type V = KeyView;

    open spec fn view(&self) -> KeyView {
        (self.column@, self.table@)
    }
}

impl Clone for SeriesKey {
    /// A copy that names the same series.
    fn clone(&self) -> (copy: Self)
        ensures
            copy == *self,
    {
        SeriesKey { column: self.column.clone(), table: self.table.clone() }
    }
}

impl SeriesKey {
    /// The key of the column `column` of the table `table`.
    pub fn new(column: &str, table: &str) -> (key: Self)
        ensures
            key@ == (column@, table@),
    {
        SeriesKey { column: column.to_owned(), table: table.to_owned() }
    }

    /// Whether both keys name the same column of the same table.
    pub fn same(&self, other: &SeriesKey) -> (equal: bool)
        ensures
            equal == (self@ == other@),
    {
        self.column == other.column && self.table == other.table
    }
}

} // verus!
