//! The binder: from a parsed statement to a plan. The statements that
//! need no catalog are bound here; for the others the binder says which
//! binding they need.

use crate::datavalues::data_type::DataType;
use crate::error::ErrorCode;
use crate::error::ErrorKind;
use crate::meta::user_stage::UserIdentity;
use crate::optimizer::unnest::with_column;
use crate::optimizer::unnest::MetadataView;
use crate::planner::metadata::Metadata;
use crate::planner::plans::opt_string_view;
use crate::planner::plans::ColumnBinding;
use crate::planner::plans::ColumnBindingView;
use vstd::prelude::*;
use vstd::string::StringExecFns;

verus! {

/// What of a query an `EXPLAIN` shows.
#[derive(Clone, Copy, Debug, PartialEq, Eq, Structural)]
pub enum ExplainKind {
    Syntax,
    Graph,
    Pipeline,
}

/// The statements that are bound with the help of the catalog or of the
/// query binder, by kind.
#[derive(Clone, Copy, Debug, PartialEq, Eq, Structural)]
pub enum CatalogStatement {
    Query,
    ShowFunctions,
    Copy,
    ShowSettings,
    ShowDatabases,
    ShowCreateDatabase,
    CreateDatabase,
    DropDatabase,
    AlterDatabase,
    ShowTables,
    ShowCreateTable,
    DescribeTable,
    ShowTablesStatus,
    CreateTable,
    DropTable,
    UndropTable,
    AlterTable,
    RenameTable,
    TruncateTable,
    OptimizeTable,
    ExistsTable,
    CreateView,
    AlterView,
    DropView,
    CreateUser,
    AlterUser,
    ListStage,
    CreateStage,
    RemoveStage,
    Insert,
    Delete,
    Grant,
    Revoke,
}

/// A user-defined function.
#[derive(Clone, Debug, PartialEq, Eq)]
pub struct UserDefinedFunction {
    pub name: String,
    pub parameters: Vec<String>,
    pub definition: String,
    pub description: String,
}

pub ghost struct UserDefinedFunctionView {
    pub name: Seq<char>,
    pub parameters: Seq<Seq<char>>,
    pub definition: Seq<char>,
    pub description: Seq<char>,
}

/// The views of a sequence of strings, one by one.
pub open spec fn strings_view(v: Seq<String>) -> Seq<Seq<char>> {
    Seq::new(v.len(), |i: int| v[i]@)
}

impl View for UserDefinedFunction {
    type V = UserDefinedFunctionView;

    open spec fn view(&self) -> UserDefinedFunctionView {
        UserDefinedFunctionView {
            name: self.name@,
            parameters: strings_view(self.parameters@),
            definition: self.definition@,
            description: self.description@,
        }
    }
}

/// A parsed statement.
#[derive(Debug, PartialEq, Eq)]
pub enum Statement {
    Explain { kind: ExplainKind, query: Box<Statement> },
    ShowMetrics,
    ShowProcessList,
    ShowUsers,
    ShowRoles,
    ShowStages,
    DropUser { if_exists: bool, user: UserIdentity },
    CreateRole { if_not_exists: bool, role_name: String },
    DropRole { if_exists: bool, role_name: String },
    DescribeStage { stage_name: String },
    DropStage { stage_name: String, if_exists: bool },
    ShowGrants { principal: Option<String> },
    CreateUDF {
        if_not_exists: bool,
        udf_name: String,
        parameters: Vec<String>,
        definition: String,
        description: Option<String>,
    },
    AlterUDF { udf_name: String, parameters: Vec<String>, definition: String, description: Option<String> },
    DropUDF { if_exists: bool, udf_name: String },
    Call { name: String, args: Vec<String> },
    /// A statement that is bound with the help of the catalog.
    Catalog(CatalogStatement),
    /// A statement that the binder does not know.
    Unknown { text: String },
}

/// What a statement is bound to.
#[derive(Debug, PartialEq, Eq)]
pub enum Plan {
    Explain { kind: ExplainKind, plan: Box<Plan> },
    ShowMetrics,
    ShowProcessList,
    ShowUsers,
    ShowRoles,
    ShowStages,
    DropUser { if_exists: bool, user: UserIdentity },
    CreateRole { if_not_exists: bool, role_name: String },
    DropRole { if_exists: bool, role_name: String },
    DescribeStage { name: String },
    DropStage { if_exists: bool, name: String },
    ShowGrants { principal: Option<String> },
    CreateUDF { if_not_exists: bool, udf: UserDefinedFunction },
    AlterUDF { udf: UserDefinedFunction },
    DropUDF { if_exists: bool, name: String },
    Call { name: String, args: Vec<String> },
    /// The plan that the binding of a statement of this kind gives, which
    /// is not made here.
    Pending(CatalogStatement),
}

pub ghost enum PlanView {
    Explain { kind: ExplainKind, plan: Box<PlanView> },
    ShowMetrics,
    ShowProcessList,
    ShowUsers,
    ShowRoles,
    ShowStages,
    DropUser { if_exists: bool, username: Seq<char>, hostname: Seq<char> },
    CreateRole { if_not_exists: bool, role_name: Seq<char> },
    DropRole { if_exists: bool, role_name: Seq<char> },
    DescribeStage { name: Seq<char> },
    DropStage { if_exists: bool, name: Seq<char> },
    ShowGrants { principal: Option<Seq<char>> },
    CreateUDF { if_not_exists: bool, udf: UserDefinedFunctionView },
    AlterUDF { udf: UserDefinedFunctionView },
    DropUDF { if_exists: bool, name: Seq<char> },
    Call { name: Seq<char>, args: Seq<Seq<char>> },
    Pending(CatalogStatement),
}

/// The value of a plan.
pub open spec fn plan_view(p: Plan) -> PlanView
    decreases p,
{
    match p {
        Plan::Explain { kind, plan } => PlanView::Explain { kind, plan: Box::new(plan_view(*plan)) },
        Plan::ShowMetrics => PlanView::ShowMetrics,
        Plan::ShowProcessList => PlanView::ShowProcessList,
        Plan::ShowUsers => PlanView::ShowUsers,
        Plan::ShowRoles => PlanView::ShowRoles,
        Plan::ShowStages => PlanView::ShowStages,
        Plan::DropUser { if_exists, user } => PlanView::DropUser {
            if_exists,
            username: user.username@,
            hostname: user.hostname@,
        },
        Plan::CreateRole { if_not_exists, role_name } => PlanView::CreateRole {
            if_not_exists,
            role_name: role_name@,
        },
        Plan::DropRole { if_exists, role_name } => PlanView::DropRole { if_exists, role_name: role_name@ },
        Plan::DescribeStage { name } => PlanView::DescribeStage { name: name@ },
        Plan::DropStage { if_exists, name } => PlanView::DropStage { if_exists, name: name@ },
        Plan::ShowGrants { principal } => PlanView::ShowGrants { principal: opt_string_view(principal) },
        Plan::CreateUDF { if_not_exists, udf } => PlanView::CreateUDF { if_not_exists, udf: udf@ },
        Plan::AlterUDF { udf } => PlanView::AlterUDF { udf: udf@ },
        Plan::DropUDF { if_exists, name } => PlanView::DropUDF { if_exists, name: name@ },
        Plan::Call { name, args } => PlanView::Call { name: name@, args: strings_view(args@) },
        Plan::Pending(kind) => PlanView::Pending(kind),
    }
}

impl View for Plan {
    type V = PlanView;

    open spec fn view(&self) -> PlanView {
        plan_view(*self)
    }
}

/// The text of an optional description: empty where there is none.
pub open spec fn description_text(description: Option<String>) -> Seq<char> {
    match description {
        Some(d) => d@,
        None => Seq::empty(),
    }
}

/// The plan that a statement is bound to, `None` for a statement that the
/// binder does not know, alone or under an `EXPLAIN`.
///
/// A function that is created and a function that is altered keep their
/// definition as definition and their description as description.
pub open spec fn bound_plan(stmt: Statement) -> Option<PlanView>
    decreases stmt,
{
    match stmt {
        Statement::Explain { kind, query } => match bound_plan(*query) {
            Some(plan) => Some(PlanView::Explain { kind, plan: Box::new(plan) }),
            None => None,
        },
        Statement::ShowMetrics => Some(PlanView::ShowMetrics),
        Statement::ShowProcessList => Some(PlanView::ShowProcessList),
        Statement::ShowUsers => Some(PlanView::ShowUsers),
        Statement::ShowRoles => Some(PlanView::ShowRoles),
        Statement::ShowStages => Some(PlanView::ShowStages),
        Statement::DropUser { if_exists, user } => Some(
            PlanView::DropUser { if_exists, username: user.username@, hostname: user.hostname@ },
        ),
        Statement::CreateRole { if_not_exists, role_name } => Some(
            PlanView::CreateRole { if_not_exists, role_name: role_name@ },
        ),
        Statement::DropRole { if_exists, role_name } => Some(PlanView::DropRole { if_exists, role_name: role_name@ }),
        Statement::DescribeStage { stage_name } => Some(PlanView::DescribeStage { name: stage_name@ }),
        Statement::DropStage { stage_name, if_exists } => Some(PlanView::DropStage { if_exists, name: stage_name@ }),
        Statement::ShowGrants { principal } => Some(PlanView::ShowGrants { principal: opt_string_view(principal) }),
        Statement::CreateUDF { if_not_exists, udf_name, parameters, definition, description } => Some(
            PlanView::CreateUDF {
                if_not_exists,
                udf: UserDefinedFunctionView {
                    name: udf_name@,
                    parameters: strings_view(parameters@),
                    definition: definition@,
                    description: description_text(description),
                },
            },
        ),
        Statement::AlterUDF { udf_name, parameters, definition, description } => Some(
            PlanView::AlterUDF {
                udf: UserDefinedFunctionView {
                    name: udf_name@,
                    parameters: strings_view(parameters@),
                    definition: definition@,
                    description: description_text(description),
                },
            },
        ),
        Statement::DropUDF { if_exists, udf_name } => Some(PlanView::DropUDF { if_exists, name: udf_name@ }),
        Statement::Call { name, args } => Some(PlanView::Call { name: name@, args: strings_view(args@) }),
        Statement::Catalog(kind) => Some(PlanView::Pending(kind)),
        Statement::Unknown { .. } => None,
    }
}

fn clone_strings(v: &Vec<String>) -> (r: Vec<String>)
    ensures
        strings_view(r@) == strings_view(v@),
{
    let mut out: Vec<String> = Vec::new();
    let mut i: usize = 0;
    while i < v.len()
        invariant
            i <= v.len(),
            out.len() == i,
            forall|j: int| 0 <= j < i ==> out[j]@ == v[j]@,
        decreases v.len() - i,
    {
        out.push(v[i].clone());
        i += 1;
    }
    assert(strings_view(out@) =~= strings_view(v@));
    out
}

fn description_of(description: &Option<String>) -> (r: String)
    ensures
        r@ == description_text(*description),
{
    match description {
        Some(d) => d.clone(),
        None => String::new(),
    }
}

/// Binds a statement that needs no catalog to its plan.
///
/// Returns the plan that [`bound_plan`] gives, and an `UnImplement` error
/// exactly where it gives none. A statement that is bound with the help of
/// the catalog gives `Plan::Pending` of its kind.
pub fn bind_statement(stmt: &Statement) -> (r: Result<Plan, ErrorCode>)
    ensures
        match bound_plan(*stmt) {
            Some(plan) => r is Ok && r->Ok_0@ == plan,
            None => r is Err && r->Err_0.kind == ErrorKind::UnImplement,
        },
    decreases stmt,
{
    let plan = match stmt {
        Statement::Explain { kind, query } => Plan::Explain { kind: *kind, plan: Box::new(bind_statement(query)?) },
        Statement::ShowMetrics => Plan::ShowMetrics,
        Statement::ShowProcessList => Plan::ShowProcessList,
        Statement::ShowUsers => Plan::ShowUsers,
        Statement::ShowRoles => Plan::ShowRoles,
        Statement::ShowStages => Plan::ShowStages,
        Statement::DropUser { if_exists, user } => Plan::DropUser {
            if_exists: *if_exists,
            user: UserIdentity { username: user.username.clone(), hostname: user.hostname.clone() },
        },
        Statement::CreateRole { if_not_exists, role_name } => Plan::CreateRole {
            if_not_exists: *if_not_exists,
            role_name: role_name.clone(),
        },
        Statement::DropRole { if_exists, role_name } => Plan::DropRole {
            if_exists: *if_exists,
            role_name: role_name.clone(),
        },
        Statement::DescribeStage { stage_name } => Plan::DescribeStage { name: stage_name.clone() },
        Statement::DropStage { stage_name, if_exists } => Plan::DropStage {
            if_exists: *if_exists,
            name: stage_name.clone(),
        },
        Statement::ShowGrants { principal } => Plan::ShowGrants {
            principal: match principal {
                Some(p) => Some(p.clone()),
                None => None,
            },
        },
        Statement::CreateUDF { if_not_exists, udf_name, parameters, definition, description } => Plan::CreateUDF {
            if_not_exists: *if_not_exists,
            udf: UserDefinedFunction {
                name: udf_name.clone(),
                parameters: clone_strings(parameters),
                definition: definition.clone(),
                description: description_of(description),
            },
        },
        Statement::AlterUDF { udf_name, parameters, definition, description } => Plan::AlterUDF {
            udf: UserDefinedFunction {
                name: udf_name.clone(),
                parameters: clone_strings(parameters),
                definition: definition.clone(),
                description: description_of(description),
            },
        },
        Statement::DropUDF { if_exists, udf_name } => Plan::DropUDF { if_exists: *if_exists, name: udf_name.clone() },
        Statement::Call { name, args } => Plan::Call { name: name.clone(), args: clone_strings(args) },
        Statement::Catalog(kind) => Plan::Pending(*kind),
        Statement::Unknown { text } => {
            let mut message = String::from_str("UnImplemented stmt ");
            message.append(text.as_str());
            message.append(" in binder");
            return Err(ErrorCode { kind: ErrorKind::UnImplement, message });
        },
    };
    Ok(plan)
}

/// Turns the statements of a query into plans. It holds the context of the
/// query, the catalogs, and the registry of the query's columns.
pub struct Binder<Ctx, Catalogs> {
    ctx: Ctx,
    catalogs: Catalogs,
    metadata: Metadata,
}

impl<Ctx, Catalogs> Binder<Ctx, Catalogs> {
    /// The registry of the columns of the query.
    pub closed spec fn columns(self) -> MetadataView {
        self.metadata@
    }

    pub closed spec fn context(self) -> Ctx {
        self.ctx
    }

    pub closed spec fn catalog_manager(self) -> Catalogs {
        self.catalogs
    }

    /// A binder over the given context, catalogs and registry.
    pub fn new(ctx: Ctx, catalogs: Catalogs, metadata: Metadata) -> (r: Self)
        ensures
            r.context() == ctx,
            r.catalog_manager() == catalogs,
            r.columns() == metadata@,
    {
        Binder { ctx, catalogs, metadata }
    }

    pub fn ctx(&self) -> (c: &Ctx)
        ensures
            *c == self.context(),
    {
        &self.ctx
    }

    pub fn catalogs(&self) -> (c: &Catalogs)
        ensures
            *c == self.catalog_manager(),
    {
        &self.catalogs
    }

    pub fn metadata(&self) -> (m: &Metadata)
        ensures
            m@ == self.columns(),
    {
        &self.metadata
    }

    /// Binds the statement `stmt`, as [`bind_statement`] does.
    pub fn bind(&self, stmt: &Statement) -> (r: Result<Plan, ErrorCode>)
        ensures
            match bound_plan(*stmt) {
                Some(plan) => r is Ok && r->Ok_0@ == plan,
                None => r is Err && r->Err_0.kind == ErrorKind::UnImplement,
            },
    {
        bind_statement(stmt)
    }

    /// Registers a column and returns the binding that refers to it. The
    /// binding is visible to an unqualified wildcard.
    pub fn create_column_binding(
        &mut self,
        database_name: Option<String>,
        table_name: Option<String>,
        column_name: String,
        data_type: DataType,
    ) -> (r: ColumnBinding)
        ensures
            final(self).columns() == with_column(old(self).columns(), column_name@, data_type),
            final(self).context() == old(self).context(),
            final(self).catalog_manager() == old(self).catalog_manager(),
            r@ == (ColumnBindingView {
                database_name: opt_string_view(database_name),
                table_name: opt_string_view(table_name),
                column_name: column_name@,
                index: old(self).columns().len() as usize,
                data_type,
                visible_in_unqualified_wildcard: true,
            }),
    {
        let index = self.metadata.add_column(column_name.clone(), data_type.clone(), None);
        ColumnBinding {
            database_name,
            table_name,
            column_name,
            index,
            data_type,
            visible_in_unqualified_wildcard: true,
        }
    }
}

} // verus!
