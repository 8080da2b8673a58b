//! The statement that shows how a table was created.

use crate::datavalues::column::fields_view;
use crate::datavalues::column::DataField;
use crate::datavalues::column::DataFieldView;
use crate::datavalues::data_type::DataType;
use vstd::prelude::*;

verus! {

/// `SHOW CREATE TABLE` of the table with the given name, whose parts are a
/// table, a database and a table, or a catalog, a database and a table.
#[derive(Clone, Debug, PartialEq, Eq)]
pub struct DfShowCreateTable {
    pub name: Vec<String>,
}

impl DfShowCreateTable {
    /// The fields of the result: the name of the table and the statement
    /// that creates it, both as text.
    pub fn schema() -> (r: Vec<DataField>)
        ensures
            fields_view(r@) == seq![
                DataFieldView { name: "Table"@, data_type: DataType::String },
                DataFieldView { name: "Create Table"@, data_type: DataType::String },
            ],
    {
        let mut r: Vec<DataField> = Vec::new();
        r.push(DataField::new("Table", DataType::String));
        r.push(DataField::new("Create Table", DataType::String));
        assert(fields_view(r@) =~= seq![
            DataFieldView { name: "Table"@, data_type: DataType::String },
            DataFieldView { name: "Create Table"@, data_type: DataType::String },
        ]);
        r
    }
}

} // verus!
