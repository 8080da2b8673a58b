//! The plan of removing files from a stage.

use crate::datavalues::column::fields_view;
use crate::datavalues::column::DataField;
use crate::datavalues::column::DataFieldView;
use crate::meta::user_stage::UserStageInfo;
use vstd::prelude::*;

verus! {

/// Removes the files of `stage` under `path` whose names match `pattern`.
#[derive(Clone, Debug, PartialEq, Eq)]
pub struct RemoveUserStagePlan {
    pub stage: UserStageInfo,
    pub path: String,
    pub pattern: String,
}

impl RemoveUserStagePlan {
    /// The fields of the result: there are none.
    pub fn schema(&self) -> (r: Vec<DataField>)
        ensures
            fields_view(r@) == Seq::<DataFieldView>::empty(),
    {
        let r: Vec<DataField> = Vec::new();
        assert(fields_view(r@) =~= Seq::<DataFieldView>::empty());
        r
    }
}

} // verus!
