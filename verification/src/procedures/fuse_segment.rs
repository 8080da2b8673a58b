//! The procedure that lists the segments of a snapshot of a table.

use crate::error::ErrorCode;
use crate::error::ErrorKind;
use vstd::prelude::*;

verus! {

/// What a procedure asks of its call.
#[derive(Clone, Copy, Debug, PartialEq, Eq, Structural)]
pub struct ProcedureFeatures {
    /// The number of arguments that the procedure takes.
    pub num_arguments: usize,
    /// Whether the procedure runs in management mode only.
    pub management_mode_required: bool,
}

impl Default for ProcedureFeatures {
    fn default() -> (r: ProcedureFeatures)
        ensures
            r == (ProcedureFeatures { num_arguments: 0, management_mode_required: false }),
    {
        ProcedureFeatures { num_arguments: 0, management_mode_required: false }
    }
}

impl ProcedureFeatures {
    /// The features with the number of arguments set.
    pub fn num_arguments(self, num_arguments: usize) -> (r: ProcedureFeatures)
        ensures
            r == (ProcedureFeatures { num_arguments, ..self }),
    {
        ProcedureFeatures { num_arguments, management_mode_required: self.management_mode_required }
    }
}

/// The arguments of a call of the procedure.
#[derive(Debug, PartialEq, Eq)]
pub struct FuseSegmentArguments {
    pub database_name: String,
    pub table_name: String,
    pub snapshot_id: String,
}

/// The procedure `FUSE_SEGMENT`.
pub struct FuseSegmentProcedure {}

impl FuseSegmentProcedure {
    pub fn try_create() -> (r: Result<FuseSegmentProcedure, ErrorCode>)
        ensures
            r is Ok,
    {
        Ok(FuseSegmentProcedure {})
    }

    /// The name of the procedure.
    pub fn name(&self) -> (n: &'static str)
        ensures
            n@ == "FUSE_SEGMENT"@,
    {
        "FUSE_SEGMENT"
    }

    /// The procedure takes three arguments.
    pub fn features(&self) -> (r: ProcedureFeatures)
        ensures
            r == (ProcedureFeatures { num_arguments: 3, management_mode_required: false }),
    {
        ProcedureFeatures::default().num_arguments(3)
    }

    /// The database, the table and the snapshot that a call names, in that
    /// order, or a `LogicalError` where it has fewer than three arguments.
    pub fn arguments(&self, args: &Vec<String>) -> (r: Result<FuseSegmentArguments, ErrorCode>)
        ensures
            args.len() >= 3 ==> r is Ok && r->Ok_0.database_name == args[0] && r->Ok_0.table_name == args[1]
                && r->Ok_0.snapshot_id == args[2],
            args.len() < 3 ==> r is Err && r->Err_0.kind == ErrorKind::LogicalError,
    {
        if args.len() < 3 {
            return Err(ErrorCode::create(ErrorKind::LogicalError, "FUSE_SEGMENT takes three arguments"));
        }
        Ok(
            FuseSegmentArguments {
                database_name: args[0].clone(),
                table_name: args[1].clone(),
                snapshot_id: args[2].clone(),
            },
        )
    }
}

} // verus!
