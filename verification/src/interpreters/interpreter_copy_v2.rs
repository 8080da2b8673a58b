//! Copying files of a stage into a table: which files are read.

use crate::datavalues::column::fields_view;
use crate::datavalues::column::DataField;
use crate::datavalues::column::DataFieldView;
use crate::error::ErrorCode;
use crate::error::ErrorKind;
use crate::meta::user_stage::UserStageInfo;
use crate::planner::binder::strings_view;
use crate::planner::plans::ColumnBinding;
use crate::text::join_path;
use crate::text::joined_path;
use vstd::prelude::*;
use vstd::string::StringExecFns;

verus! {

#[verifier::external_type_specification]
#[verifier::external_body]
pub struct ExRegex(regex::Regex);

#[verifier::external_type_specification]
#[verifier::external_body]
pub struct ExRegexError(regex::Error);

/// Whether a pattern is a regular expression that can be compiled.
pub uninterp spec fn pattern_compiles(pattern: Seq<char>) -> bool;

/// Calls `regex::Regex::new`, which compiles a pattern with the default
/// options. It fails for a pattern that is not valid and for one whose
/// program would be too big; which patterns these are is named, not
/// described.
#[verifier::external_body]
fn compile_pattern(pattern: &str) -> (r: Result<regex::Regex, regex::Error>)
    ensures
        r is Ok == pattern_compiles(pattern@),
{
    regex::Regex::new(pattern)
}

/// Calls `regex::Regex::is_match`, which tells whether the expression
/// matches anywhere in the text. Nothing is claimed of the answer.
#[verifier::external_body]
fn pattern_matches(regex: &regex::Regex, text: &str) -> (r: bool) {
    regex.is_match(text)
}

/// The files of a stage as a table.
pub struct StageTableInfo {
    pub schema: Vec<DataField>,
    pub stage_info: UserStageInfo,
    pub path: String,
    pub files: Vec<String>,
}

/// Where the rows of a read come from.
pub enum SourceInfo {
    /// From a table of a catalog.
    TableSource { table_name: String },
    /// From the files of a stage.
    StageSource(StageTableInfo),
}

/// The plan of a read.
pub struct ReadDataSourcePlan {
    pub catalog: String,
    pub source_info: SourceInfo,
}

/// What a `COPY` statement copies.
pub enum CopyPlanV2 {
    IntoTable {
        catalog_name: String,
        database_name: String,
        table_name: String,
        files: Vec<String>,
        pattern: String,
        from: ReadDataSourcePlan,
    },
    IntoStage { stage: UserStageInfo, columns: Vec<ColumnBinding> },
}

/// How the files of a copy are found.
#[derive(Debug, PartialEq, Eq)]
pub enum FileListing {
    /// The statement names the files; these are their paths.
    Listed(Vec<String>),
    /// The path names one file, which is copied if it exists.
    CheckObject { path: String },
    /// The path names a directory, all files of which are copied.
    ListObjects { path: String },
}

pub ghost enum FileListingView {
    Listed(Seq<Seq<char>>),
    CheckObject { path: Seq<char> },
    ListObjects { path: Seq<char> },
}

impl View for FileListing {
    type V = FileListingView;

    open spec fn view(&self) -> FileListingView {
        match self {
            FileListing::Listed(files) => FileListingView::Listed(strings_view(files@)),
            FileListing::CheckObject { path } => FileListingView::CheckObject { path: path@ },
            FileListing::ListObjects { path } => FileListingView::ListObjects { path: path@ },
        }
    }
}

/// How the files of a copy from the path `path` are found, where the
/// statement names the files `files`: each named file is taken under the
/// path; without named files, a path that ends in `/` is a directory and
/// any other path a file.
pub open spec fn listing(path: Seq<char>, files: Seq<Seq<char>>) -> FileListingView {
    if files.len() > 0 {
        FileListingView::Listed(Seq::new(files.len(), |i: int| joined_path(path, files[i])))
    } else if path.len() > 0 && path.last() == '/' {
        FileListingView::ListObjects { path }
    } else {
        FileListingView::CheckObject { path }
    }
}

/// The rows of `files` at which `matched` is true, in their order.
pub open spec fn selected(files: Seq<Seq<char>>, matched: Seq<bool>) -> Seq<Seq<char>>
    decreases files.len(),
{
    if files.len() == 0 || matched.len() != files.len() {
        Seq::empty()
    } else {
        let before = selected(files.drop_last(), matched.drop_last());
        if matched.last() {
            before.push(files.last())
        } else {
            before
        }
    }
}

/// Keeps the files at which `matched` is true.
pub fn select_files(files: Vec<String>, matched: &Vec<bool>) -> (r: Vec<String>)
    requires
        matched.len() == files.len(),
    ensures
        strings_view(r@) == selected(strings_view(files@), matched@),
{
    let ghost names = strings_view(files@);
    let mut out: Vec<String> = Vec::new();
    let mut i: usize = 0;
    assert(names.take(0) =~= Seq::<Seq<char>>::empty());
    assert(matched@.take(0) =~= Seq::<bool>::empty());
    assert(strings_view(out@) =~= selected(names.take(0), matched@.take(0)));
    while i < files.len()
        invariant
            i <= files.len(),
            matched.len() == files.len(),
            names == strings_view(files@),
            strings_view(out@) == selected(names.take(i as int), matched@.take(i as int)),
        decreases files.len() - i,
    {
        proof {
            assert(names.take(i + 1).drop_last() =~= names.take(i as int));
            assert(matched@.take(i + 1).drop_last() =~= matched@.take(i as int));
            assert(names.take(i + 1).last() == files[i as int]@);
            assert(matched@.take(i + 1).last() == matched[i as int]);
        }
        if matched[i] {
            let ghost before = strings_view(out@);
            out.push(files[i].clone());
            assert(strings_view(out@) =~= before.push(files[i as int]@));
        }
        i += 1;
    }
    assert(names.take(i as int) =~= names);
    assert(matched@.take(i as int) =~= matched@);
    out
}

/// Keeps the files that the pattern `pattern` matches; an empty pattern
/// keeps them all.
///
/// Fails with a `SyntaxException` exactly where the pattern is not empty
/// and cannot be compiled. The files that are kept are some of `files`, in
/// their order; which they are is for the pattern to say.
pub fn filter_files_by_pattern(files: Vec<String>, pattern: &str) -> (r: Result<Vec<String>, ErrorCode>)
    ensures
        pattern@.len() == 0 ==> r is Ok && strings_view(r->Ok_0@) == strings_view(files@),
        pattern@.len() > 0 && !pattern_compiles(pattern@) ==> r is Err && r->Err_0.kind
            == ErrorKind::SyntaxException,
        pattern@.len() > 0 && pattern_compiles(pattern@) ==> r is Ok && exists|matched: Seq<bool>|
            matched.len() == files.len() && strings_view(r->Ok_0@) == selected(strings_view(files@), matched),
{
    if pattern.unicode_len() == 0 {
        return Ok(files);
    }
    let regex = match compile_pattern(pattern) {
        Ok(regex) => regex,
        Err(_) => {
            let mut message = String::from_str("Pattern format invalid, got:");
            message.append(pattern);
            return Err(ErrorCode { kind: ErrorKind::SyntaxException, message });
        },
    };
    let mut matched: Vec<bool> = Vec::new();
    let mut i: usize = 0;
    while i < files.len()
        invariant
            i <= files.len(),
            matched.len() == i,
        decreases files.len() - i,
    {
        matched.push(pattern_matches(&regex, files[i].as_str()));
        i += 1;
    }
    let kept = select_files(files, &matched);
    Ok(kept)
}

fn ends_with_slash(path: &str) -> (r: bool)
    ensures
        r == (path@.len() > 0 && path@.last() == '/'),
{
    let n = path.unicode_len();
    n > 0 && path.get_char(n - 1) == '/'
}

/// Copies files into a table or into a stage. It holds the context of the
/// query and the plan of the copy.
pub struct CopyInterpreterV2<Ctx> {
    ctx: Ctx,
    plan: CopyPlanV2,
}

impl<Ctx> CopyInterpreterV2<Ctx> {
    pub closed spec fn context(self) -> Ctx {
        self.ctx
    }

    pub closed spec fn copy_plan(self) -> CopyPlanV2 {
        self.plan
    }

    /// The interpreter of the copy `plan` in the context `ctx`.
    pub fn try_create(ctx: Ctx, plan: CopyPlanV2) -> (r: Result<Self, ErrorCode>)
        ensures
            r is Ok,
            r->Ok_0.context() == ctx,
            r->Ok_0.copy_plan() == plan,
    {
        Ok(CopyInterpreterV2 { ctx, plan })
    }

    pub fn ctx(&self) -> (c: &Ctx)
        ensures
            *c == self.context(),
    {
        &self.ctx
    }

    pub fn plan(&self) -> (p: &CopyPlanV2)
        ensures
            *p == self.copy_plan(),
    {
        &self.plan
    }

    /// The name of the interpreter.
    pub fn name(&self) -> (n: &'static str)
        ensures
            n@ == "CopyInterpreterV2"@,
    {
        "CopyInterpreterV2"
    }

    /// How the files to copy are found for the read `from`, where the
    /// statement names the files `files`.
    ///
    /// Fails with a `LogicalError` exactly where the rows do not come from
    /// a stage.
    pub fn list_files(from: &ReadDataSourcePlan, files: &Vec<String>) -> (r: Result<FileListing, ErrorCode>)
        ensures
            match from.source_info {
                SourceInfo::StageSource(table_info) => r is Ok && r->Ok_0@ == listing(
                    table_info.path@,
                    strings_view(files@),
                ),
                _ => r is Err && r->Err_0.kind == ErrorKind::LogicalError,
            },
    {
        match &from.source_info {
            SourceInfo::StageSource(table_info) => {
                let path = table_info.path.as_str();
                if files.len() > 0 {
                    // Each named file is taken under the path of the stage.
                    let mut files_with_path: Vec<String> = Vec::new();
                    let mut i: usize = 0;
                    while i < files.len()
                        invariant
                            i <= files.len(),
                            path@ == table_info.path@,
                            files_with_path.len() == i,
                            forall|j: int|
                                0 <= j < i ==> (#[trigger] files_with_path[j])@ == joined_path(path@, files[j]@),
                        decreases files.len() - i,
                    {
                        files_with_path.push(join_path(path, files[i].as_str()));
                        i += 1;
                    }
                    assert(strings_view(files_with_path@) =~= Seq::new(
                        files.len() as nat,
                        |i: int| joined_path(path@, strings_view(files@)[i]),
                    ));
                    Ok(FileListing::Listed(files_with_path))
                } else if !ends_with_slash(path) {
                    Ok(FileListing::CheckObject { path: table_info.path.clone() })
                } else {
                    Ok(FileListing::ListObjects { path: table_info.path.clone() })
                }
            },
            _ => Err(ErrorCode::create(ErrorKind::LogicalError, "Cannot list files for the source info")),
        }
    }

    /// The read `plan` with the files `files` in place of its own, where it
    /// reads from a stage; any other read stays as it is.
    pub fn rewrite_read_plan_file_name(plan: ReadDataSourcePlan, files: Vec<String>) -> (r: ReadDataSourcePlan)
        ensures
            r.catalog == plan.catalog,
            match plan.source_info {
                SourceInfo::StageSource(s3) => r.source_info == SourceInfo::StageSource(
                    StageTableInfo { files, ..s3 },
                ),
                _ => r.source_info == plan.source_info,
            },
    {
        let mut plan = plan;
        match plan.source_info {
            SourceInfo::StageSource(s3) => ReadDataSourcePlan {
                catalog: plan.catalog,
                source_info: SourceInfo::StageSource(
                    StageTableInfo { schema: s3.schema, stage_info: s3.stage_info, path: s3.path, files },
                ),
            },
            other => ReadDataSourcePlan { catalog: plan.catalog, source_info: other },
        }
    }

    /// The fields of the files that a copy into a stage writes: one for
    /// each column of the query, with its name and type.
    pub fn stage_schema(columns: &Vec<ColumnBinding>) -> (r: Vec<DataField>)
        ensures
            fields_view(r@) == Seq::new(
                columns.len() as nat,
                |i: int| DataFieldView { name: columns[i]@.column_name, data_type: columns[i]@.data_type },
            ),
    {
        let mut fields: Vec<DataField> = Vec::new();
        let mut i: usize = 0;
        while i < columns.len()
            invariant
                i <= columns.len(),
                fields.len() == i,
                forall|j: int|
                    0 <= j < i ==> (#[trigger] fields[j])@ == (DataFieldView {
                        name: columns[j]@.column_name,
                        data_type: columns[j]@.data_type,
                    }),
            decreases columns.len() - i,
        {
            fields.push(DataField::new(columns[i].column_name.as_str(), columns[i].data_type.clone()));
            i += 1;
        }
        assert(fields_view(fields@) =~= Seq::new(
            columns.len() as nat,
            |i: int| DataFieldView { name: columns[i]@.column_name, data_type: columns[i]@.data_type },
        ));
        fields
    }
}

} // verus!
