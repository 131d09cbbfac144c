//! How a plan is shown: one line for most statements, an indented tree
//! for queries and what is built on them.

use crate::error::ErrorCode;
use crate::error::ErrorKind;
use crate::error::ErrorView;
use vstd::prelude::*;
use vstd::string::StringExecFns;

verus! {

/// A tree of lines, shown with its branches drawn.
#[derive(Debug)]
pub struct FormatTreeNode {
    pub payload: String,
    pub children: Vec<FormatTreeNode>,
}

/// The lines of the children of a node from the `k`-th on. Each child
/// hangs on a branch, the last one on a corner; what hangs below a child
/// is moved in, behind a bar as long as more children follow.
pub open spec fn pretty_children(
    children: Seq<FormatTreeNode>,
    child_prefix: Seq<char>,
    k: int,
) -> Seq<char>
    decreases children, 0int, children.len() - k,
{
    if k < 0 || k >= children.len() {
        Seq::empty()
    } else {
        let last = k == children.len() - 1;
        pretty(
            children[k],
            child_prefix + (if last {
                "└── "@
            } else {
                "├── "@
            }),
            child_prefix + (if last {
                "    "@
            } else {
                "│   "@
            }),
        ) + pretty_children(children, child_prefix, k + 1)
    }
}

/// The lines of a tree: the line of the node behind `prefix`, then the
/// lines of its children behind `child_prefix`.
pub open spec fn pretty(node: FormatTreeNode, prefix: Seq<char>, child_prefix: Seq<char>) -> Seq<
    char,
>
    decreases node, 1int, 0int,
{
    prefix + node.payload@ + "\n"@ + pretty_children(node.children@, child_prefix, 0)
}

impl FormatTreeNode {
    /// A node without children.
    pub fn new(payload: String) -> (node: FormatTreeNode)
        ensures
            node.payload == payload,
            node.children@.len() == 0,
    {
        FormatTreeNode { payload, children: Vec::new() }
    }

    /// A node with the given children.
    pub fn with_children(payload: String, children: Vec<FormatTreeNode>) -> (node: FormatTreeNode)
        ensures
            node.payload == payload,
            node.children == children,
    {
        FormatTreeNode { payload, children }
    }

    /// Appends the lines of the tree to `out`.
    fn format_pretty_impl(&self, prefix: &String, child_prefix: &String, out: &mut String)
        ensures
            final(out)@ == old(out)@ + pretty(*self, prefix@, child_prefix@),
        decreases self,
    {
        out.append(prefix.as_str());
        out.append(self.payload.as_str());
        out.append("\n");
        let n = self.children.len();
        let mut k: usize = 0;
        let ghost start = out@;
        assert(pretty_children(self.children@, child_prefix@, n as int) =~= Seq::<char>::empty());
        while k < n
            invariant
                k <= n,
                n == self.children@.len(),
                start + pretty_children(self.children@, child_prefix@, 0) == out@
                    + pretty_children(self.children@, child_prefix@, k as int),
            decreases n - k,
        {
            let last = k == n - 1;
            let branch = child_prefix.clone().concat(
                if last {
                    "└── "
                } else {
                    "├── "
                },
            );
            let below = child_prefix.clone().concat(
                if last {
                    "    "
                } else {
                    "│   "
                },
            );
            let ghost before = out@;
            self.children[k].format_pretty_impl(&branch, &below, out);
            proof {
                let rest = pretty_children(self.children@, child_prefix@, k + 1);
                assert(before + (pretty(self.children@[k as int], branch@, below@) + rest) =~= out@
                    + rest);
            }
            k = k + 1;
        }
        assert(out@ =~= old(out)@ + pretty(*self, prefix@, child_prefix@));
    }

    /// The lines of the tree, the root at the left margin.
    pub fn format_pretty(&self) -> (text: String)
        ensures
            text@ == pretty(*self, Seq::empty(), Seq::empty()),
    {
        let mut out = String::new();
        let none = String::new();
        self.format_pretty_impl(&none, &none, &mut out);
        assert(out@ =~= pretty(*self, Seq::empty(), Seq::empty()));
        out
    }
}

/// What an EXPLAIN shows.
#[derive(Clone, Copy, Debug, PartialEq, Eq, Structural)]
pub enum ExplainKind {
    Graph,
    Pipeline,
    Fragments,
    Raw,
    Plan,
    Join,
    AnalyzePlan,
}

impl ExplainKind {
    /// The name of the kind.
    pub open spec fn spec_name(self) -> Seq<char> {
        match self {
            ExplainKind::Graph => "Graph"@,
            ExplainKind::Pipeline => "Pipeline"@,
            ExplainKind::Fragments => "Fragments"@,
            ExplainKind::Raw => "Raw"@,
            ExplainKind::Plan => "Plan"@,
            ExplainKind::Join => "JOIN"@,
            ExplainKind::AnalyzePlan => "AnalyzePlan"@,
        }
    }

    /// The name of the kind.
    pub fn name(&self) -> (name: &'static str)
        ensures
            name@ == self.spec_name(),
    {
        match self {
            ExplainKind::Graph => "Graph",
            ExplainKind::Pipeline => "Pipeline",
            ExplainKind::Fragments => "Fragments",
            ExplainKind::Raw => "Raw",
            ExplainKind::Plan => "Plan",
            ExplainKind::Join => "JOIN",
            ExplainKind::AnalyzePlan => "AnalyzePlan",
        }
    }
}

/// The statements that are shown by their name alone.
#[derive(Clone, Copy, Debug, PartialEq, Eq, Structural)]
pub enum StatementKind {
    ExplainAst,
    ExplainSyntax,
    ExplainAnalyze,
    CopyIntoTable,
    CopyIntoLocation,
    ShowCreateCatalog,
    CreateCatalog,
    DropCatalog,
    ShowCreateDatabase,
    CreateDatabase,
    DropDatabase,
    UndropDatabase,
    RenameDatabase,
    ShowCreateTable,
    DropTable,
    UndropTable,
    DescribeTable,
    RenameTable,
    SetOptions,
    RenameTableColumn,
    AddTableColumn,
    ModifyTableColumn,
    DropTableColumn,
    AlterTableClusterKey,
    DropTableClusterKey,
    ReclusterTable,
    TruncateTable,
    OptimizeTable,
    VacuumTable,
    VacuumDropTable,
    AnalyzeTable,
    ExistsTable,
    CreateView,
    AlterView,
    DropView,
    CreateStream,
    DropStream,
    CreateIndex,
    DropIndex,
    RefreshIndex,
    CreateVirtualColumn,
    AlterVirtualColumn,
    DropVirtualColumn,
    RefreshVirtualColumn,
    Insert,
    Replace,
    MergeInto,
    Update,
    CreateStage,
    DropStage,
    RemoveStage,
    CreateFileFormat,
    DropFileFormat,
    ShowFileFormats,
    GrantRole,
    GrantPriv,
    ShowGrants,
    RevokePriv,
    RevokeRole,
    CreateUser,
    DropUser,
    CreateUDF,
    AlterUDF,
    DropUDF,
    AlterUser,
    CreateRole,
    DropRole,
    Presign,
    SetVariable,
    UnSetVariable,
    SetRole,
    SetSecondaryRoles,
    UseDatabase,
    Kill,
    CreateShareEndpoint,
    ShowShareEndpoint,
    DropShareEndpoint,
    CreateShare,
    DropShare,
    GrantShareObject,
    RevokeShareObject,
    AlterShareTenants,
    DescShare,
    ShowShares,
    ShowRoles,
    ShowObjectGrantPrivileges,
    ShowGrantTenantsOfShare,
    RevertTable,
    CreateDatamaskPolicy,
    DropDatamaskPolicy,
    DescDatamaskPolicy,
    CreateNetworkPolicy,
    AlterNetworkPolicy,
    DropNetworkPolicy,
    DescNetworkPolicy,
    ShowNetworkPolicies,
    CreateTask,
    DropTask,
    AlterTask,
    DescribeTask,
    ExecuteTask,
    ShowTasks,
    CreateConnection,
    DescConnection,
    DropConnection,
    ShowConnections,
}

impl StatementKind {
    /// The name under which the statement is shown.
    pub open spec fn spec_name(self) -> Seq<char> {
        match self {
            StatementKind::ExplainAst => "ExplainAst"@,
            StatementKind::ExplainSyntax => "ExplainSyntax"@,
            StatementKind::ExplainAnalyze => "ExplainAnalyze"@,
            StatementKind::CopyIntoTable => "CopyIntoTable"@,
            StatementKind::CopyIntoLocation => "CopyIntoLocation"@,
            StatementKind::ShowCreateCatalog => "ShowCreateCatalog"@,
            StatementKind::CreateCatalog => "CreateCatalog"@,
            StatementKind::DropCatalog => "DropCatalog"@,
            StatementKind::ShowCreateDatabase => "ShowCreateDatabase"@,
            StatementKind::CreateDatabase => "CreateDatabase"@,
            StatementKind::DropDatabase => "DropDatabase"@,
            StatementKind::UndropDatabase => "UndropDatabase"@,
            StatementKind::RenameDatabase => "RenameDatabase"@,
            StatementKind::ShowCreateTable => "ShowCreateTable"@,
            StatementKind::DropTable => "DropTable"@,
            StatementKind::UndropTable => "UndropTable"@,
            StatementKind::DescribeTable => "DescribeTable"@,
            StatementKind::RenameTable => "RenameTable"@,
            StatementKind::SetOptions => "SetOptions"@,
            StatementKind::RenameTableColumn => "RenameTableColumn"@,
            StatementKind::AddTableColumn => "AddTableColumn"@,
            StatementKind::ModifyTableColumn => "ModifyTableColumn"@,
            StatementKind::DropTableColumn => "DropTableColumn"@,
            StatementKind::AlterTableClusterKey => "AlterTableClusterKey"@,
            StatementKind::DropTableClusterKey => "DropTableClusterKey"@,
            StatementKind::ReclusterTable => "ReclusterTable"@,
            StatementKind::TruncateTable => "TruncateTable"@,
            StatementKind::OptimizeTable => "OptimizeTable"@,
            StatementKind::VacuumTable => "VacuumTable"@,
            StatementKind::VacuumDropTable => "VacuumDropTable"@,
            StatementKind::AnalyzeTable => "AnalyzeTable"@,
            StatementKind::ExistsTable => "ExistsTable"@,
            StatementKind::CreateView => "CreateView"@,
            StatementKind::AlterView => "AlterView"@,
            StatementKind::DropView => "DropView"@,
            StatementKind::CreateStream => "CreateStream"@,
            StatementKind::DropStream => "DropStream"@,
            StatementKind::CreateIndex => "CreateIndex"@,
            StatementKind::DropIndex => "DropIndex"@,
            StatementKind::RefreshIndex => "RefreshIndex"@,
            StatementKind::CreateVirtualColumn => "CreateVirtualColumn"@,
            StatementKind::AlterVirtualColumn => "AlterVirtualColumn"@,
            StatementKind::DropVirtualColumn => "DropVirtualColumn"@,
            StatementKind::RefreshVirtualColumn => "RefreshVirtualColumn"@,
            StatementKind::Insert => "Insert"@,
            StatementKind::Replace => "Replace"@,
            StatementKind::MergeInto => "MergeInto"@,
            StatementKind::Update => "Update"@,
            StatementKind::CreateStage => "CreateStage"@,
            StatementKind::DropStage => "DropStage"@,
            StatementKind::RemoveStage => "RemoveStage"@,
            StatementKind::CreateFileFormat => "CreateFileFormat"@,
            StatementKind::DropFileFormat => "DropFileFormat"@,
            StatementKind::ShowFileFormats => "ShowFileFormats"@,
            StatementKind::GrantRole => "GrantRole"@,
            StatementKind::GrantPriv => "GrantPrivilege"@,
            StatementKind::ShowGrants => "ShowGrants"@,
            StatementKind::RevokePriv => "RevokePrivilege"@,
            StatementKind::RevokeRole => "RevokeRole"@,
            StatementKind::CreateUser => "CreateUser"@,
            StatementKind::DropUser => "DropUser"@,
            StatementKind::CreateUDF => "CreateUDF"@,
            StatementKind::AlterUDF => "AlterUDF"@,
            StatementKind::DropUDF => "DropUDF"@,
            StatementKind::AlterUser => "AlterUser"@,
            StatementKind::CreateRole => "CreateRole"@,
            StatementKind::DropRole => "DropRole"@,
            StatementKind::Presign => "Presign"@,
            StatementKind::SetVariable => "SetVariable"@,
            StatementKind::UnSetVariable => "UnSetVariable"@,
            StatementKind::SetRole => "SetRole"@,
            StatementKind::SetSecondaryRoles => "SetSecondaryRoles"@,
            StatementKind::UseDatabase => "UseDatabase"@,
            StatementKind::Kill => "Kill"@,
            StatementKind::CreateShareEndpoint => "CreateShareEndpoint"@,
            StatementKind::ShowShareEndpoint => "ShowShareEndpoint"@,
            StatementKind::DropShareEndpoint => "DropShareEndpoint"@,
            StatementKind::CreateShare => "CreateShare"@,
            StatementKind::DropShare => "DropShare"@,
            StatementKind::GrantShareObject => "GrantShareObject"@,
            StatementKind::RevokeShareObject => "RevokeShareObject"@,
            StatementKind::AlterShareTenants => "AlterShareTenants"@,
            StatementKind::DescShare => "DescShare"@,
            StatementKind::ShowShares => "ShowShares"@,
            StatementKind::ShowRoles => "ShowRoles"@,
            StatementKind::ShowObjectGrantPrivileges => "ShowObjectGrantPrivileges"@,
            StatementKind::ShowGrantTenantsOfShare => "ShowGrantTenantsOfShare"@,
            StatementKind::RevertTable => "RevertTable"@,
            StatementKind::CreateDatamaskPolicy => "CreateDatamaskPolicy"@,
            StatementKind::DropDatamaskPolicy => "DropDatamaskPolicy"@,
            StatementKind::DescDatamaskPolicy => "DescDatamaskPolicy"@,
            StatementKind::CreateNetworkPolicy => "CreateNetworkPolicy"@,
            StatementKind::AlterNetworkPolicy => "AlterNetworkPolicy"@,
            StatementKind::DropNetworkPolicy => "DropNetworkPolicy"@,
            StatementKind::DescNetworkPolicy => "DescNetworkPolicy"@,
            StatementKind::ShowNetworkPolicies => "ShowNetworkPolicies"@,
            StatementKind::CreateTask => "CreateTask"@,
            StatementKind::DropTask => "DropTask"@,
            StatementKind::AlterTask => "AlterTask"@,
            StatementKind::DescribeTask => "DescribeTask"@,
            StatementKind::ExecuteTask => "ExecuteTask"@,
            StatementKind::ShowTasks => "ShowTasks"@,
            StatementKind::CreateConnection => "CreateConnection"@,
            StatementKind::DescConnection => "DescConnection"@,
            StatementKind::DropConnection => "DropConnection"@,
            StatementKind::ShowConnections => "ShowConnections"@,
        }
    }

    /// The name under which the statement is shown.
    pub fn name(&self) -> (name: &'static str)
        ensures
            name@ == self.spec_name(),
    {
        match self {
            StatementKind::ExplainAst => "ExplainAst",
            StatementKind::ExplainSyntax => "ExplainSyntax",
            StatementKind::ExplainAnalyze => "ExplainAnalyze",
            StatementKind::CopyIntoTable => "CopyIntoTable",
            StatementKind::CopyIntoLocation => "CopyIntoLocation",
            StatementKind::ShowCreateCatalog => "ShowCreateCatalog",
            StatementKind::CreateCatalog => "CreateCatalog",
            StatementKind::DropCatalog => "DropCatalog",
            StatementKind::ShowCreateDatabase => "ShowCreateDatabase",
            StatementKind::CreateDatabase => "CreateDatabase",
            StatementKind::DropDatabase => "DropDatabase",
            StatementKind::UndropDatabase => "UndropDatabase",
            StatementKind::RenameDatabase => "RenameDatabase",
            StatementKind::ShowCreateTable => "ShowCreateTable",
            StatementKind::DropTable => "DropTable",
            StatementKind::UndropTable => "UndropTable",
            StatementKind::DescribeTable => "DescribeTable",
            StatementKind::RenameTable => "RenameTable",
            StatementKind::SetOptions => "SetOptions",
            StatementKind::RenameTableColumn => "RenameTableColumn",
            StatementKind::AddTableColumn => "AddTableColumn",
            StatementKind::ModifyTableColumn => "ModifyTableColumn",
            StatementKind::DropTableColumn => "DropTableColumn",
            StatementKind::AlterTableClusterKey => "AlterTableClusterKey",
            StatementKind::DropTableClusterKey => "DropTableClusterKey",
            StatementKind::ReclusterTable => "ReclusterTable",
            StatementKind::TruncateTable => "TruncateTable",
            StatementKind::OptimizeTable => "OptimizeTable",
            StatementKind::VacuumTable => "VacuumTable",
            StatementKind::VacuumDropTable => "VacuumDropTable",
            StatementKind::AnalyzeTable => "AnalyzeTable",
            StatementKind::ExistsTable => "ExistsTable",
            StatementKind::CreateView => "CreateView",
            StatementKind::AlterView => "AlterView",
            StatementKind::DropView => "DropView",
            StatementKind::CreateStream => "CreateStream",
            StatementKind::DropStream => "DropStream",
            StatementKind::CreateIndex => "CreateIndex",
            StatementKind::DropIndex => "DropIndex",
            StatementKind::RefreshIndex => "RefreshIndex",
            StatementKind::CreateVirtualColumn => "CreateVirtualColumn",
            StatementKind::AlterVirtualColumn => "AlterVirtualColumn",
            StatementKind::DropVirtualColumn => "DropVirtualColumn",
            StatementKind::RefreshVirtualColumn => "RefreshVirtualColumn",
            StatementKind::Insert => "Insert",
            StatementKind::Replace => "Replace",
            StatementKind::MergeInto => "MergeInto",
            StatementKind::Update => "Update",
            StatementKind::CreateStage => "CreateStage",
            StatementKind::DropStage => "DropStage",
            StatementKind::RemoveStage => "RemoveStage",
            StatementKind::CreateFileFormat => "CreateFileFormat",
            StatementKind::DropFileFormat => "DropFileFormat",
            StatementKind::ShowFileFormats => "ShowFileFormats",
            StatementKind::GrantRole => "GrantRole",
            StatementKind::GrantPriv => "GrantPrivilege",
            StatementKind::ShowGrants => "ShowGrants",
            StatementKind::RevokePriv => "RevokePrivilege",
            StatementKind::RevokeRole => "RevokeRole",
            StatementKind::CreateUser => "CreateUser",
            StatementKind::DropUser => "DropUser",
            StatementKind::CreateUDF => "CreateUDF",
            StatementKind::AlterUDF => "AlterUDF",
            StatementKind::DropUDF => "DropUDF",
            StatementKind::AlterUser => "AlterUser",
            StatementKind::CreateRole => "CreateRole",
            StatementKind::DropRole => "DropRole",
            StatementKind::Presign => "Presign",
            StatementKind::SetVariable => "SetVariable",
            StatementKind::UnSetVariable => "UnSetVariable",
            StatementKind::SetRole => "SetRole",
            StatementKind::SetSecondaryRoles => "SetSecondaryRoles",
            StatementKind::UseDatabase => "UseDatabase",
            StatementKind::Kill => "Kill",
            StatementKind::CreateShareEndpoint => "CreateShareEndpoint",
            StatementKind::ShowShareEndpoint => "ShowShareEndpoint",
            StatementKind::DropShareEndpoint => "DropShareEndpoint",
            StatementKind::CreateShare => "CreateShare",
            StatementKind::DropShare => "DropShare",
            StatementKind::GrantShareObject => "GrantShareObject",
            StatementKind::RevokeShareObject => "RevokeShareObject",
            StatementKind::AlterShareTenants => "AlterShareTenants",
            StatementKind::DescShare => "DescShare",
            StatementKind::ShowShares => "ShowShares",
            StatementKind::ShowRoles => "ShowRoles",
            StatementKind::ShowObjectGrantPrivileges => "ShowObjectGrantPrivileges",
            StatementKind::ShowGrantTenantsOfShare => "ShowGrantTenantsOfShare",
            StatementKind::RevertTable => "RevertTable",
            StatementKind::CreateDatamaskPolicy => "CreateDatamaskPolicy",
            StatementKind::DropDatamaskPolicy => "DropDatamaskPolicy",
            StatementKind::DescDatamaskPolicy => "DescDatamaskPolicy",
            StatementKind::CreateNetworkPolicy => "CreateNetworkPolicy",
            StatementKind::AlterNetworkPolicy => "AlterNetworkPolicy",
            StatementKind::DropNetworkPolicy => "DropNetworkPolicy",
            StatementKind::DescNetworkPolicy => "DescNetworkPolicy",
            StatementKind::ShowNetworkPolicies => "ShowNetworkPolicies",
            StatementKind::CreateTask => "CreateTask",
            StatementKind::DropTask => "DropTask",
            StatementKind::AlterTask => "AlterTask",
            StatementKind::DescribeTask => "DescribeTask",
            StatementKind::ExecuteTask => "ExecuteTask",
            StatementKind::ShowTasks => "ShowTasks",
            StatementKind::CreateConnection => "CreateConnection",
            StatementKind::DescConnection => "DescConnection",
            StatementKind::DropConnection => "DropConnection",
            StatementKind::ShowConnections => "ShowConnections",
        }
    }
}

/// A subquery of a DELETE, as the planner left it.
#[derive(Debug)]
pub struct DeleteSubquery {
    /// The column under which the subquery's rows carry their identity.
    pub index: usize,
    /// The tree of the subquery's plan.
    pub input_expr: FormatTreeNode,
}

/// A DELETE statement after binding.
#[derive(Debug)]
pub struct DeletePlan {
    pub database_name: String,
    pub table_name: String,
    pub table_index: usize,
    /// The predicate, as it is shown.
    pub selection: Option<String>,
    pub subquery_desc: Vec<DeleteSubquery>,
}

/// A plan, as far as its display goes.
#[derive(Debug)]
pub enum Plan {
    /// A query, with the tree of its operators.
    Query { tree: FormatTreeNode },
    Explain { kind: ExplainKind, plan: Box<Plan> },
    /// CREATE TABLE, with the query that fills the table where it has one.
    CreateTable { as_select: Option<Box<Plan>> },
    Delete(DeletePlan),
    /// A statement that is shown by its name alone.
    Statement(StatementKind),
}

/// The error for a CREATE TABLE that is filled by something else than a
/// query.
pub open spec fn invalid_create_table() -> ErrorView {
    ErrorView { kind: ErrorKind::Internal, message: "Invalid create table plan"@ }
}

/// How a DELETE is shown: by row identity over the plan of its first
/// subquery where it has subqueries; else as a filter, with the predicate
/// where there is one, over a scan of the table.
pub open spec fn delete_text(delete: DeletePlan) -> Seq<char> {
    if delete.subquery_desc@.len() > 0 {
        "DeletePlan:\nEvalScalar\n"@ + pretty(delete.subquery_desc@[0].input_expr, "└── "@, "    "@)
    } else {
        match delete.selection {
            Some(predicate) => "DeletePlan:\nFilter\n├── filters: ["@ + predicate@
                + "]\n└── Scan\n"@,
            None => "DeletePlan:\nFilter\n└── Scan\n"@,
        }
    }
}

/// How a CREATE TABLE is shown: by its name, or where a query fills the
/// table, as the tree of the query below a line that says so. Anything
/// but a query in that place is an internal error.
pub open spec fn create_table_text(as_select: Option<Box<Plan>>) -> Result<Seq<char>, ErrorView> {
    match as_select {
        Some(plan) => match *plan {
            Plan::Query { tree } => Ok("CreateTableAsSelect\n"@ + pretty(tree, "└── "@, "    "@)),
            _ => Err(invalid_create_table()),
        },
        None => Ok("CreateTable"@),
    }
}

/// How a plan is shown.
pub open spec fn plan_text(plan: Plan) -> Result<Seq<char>, ErrorView>
    decreases plan,
{
    match plan {
        Plan::Query { tree } => Ok(pretty(tree, Seq::empty(), Seq::empty())),
        Plan::Explain { kind, plan } => match plan_text(*plan) {
            Ok(text) => Ok(kind.spec_name() + ":\n"@ + text),
            Err(e) => Err(e),
        },
        Plan::CreateTable { as_select } => create_table_text(as_select),
        Plan::Delete(delete) => Ok(delete_text(delete)),
        Plan::Statement(kind) => Ok(kind.spec_name()),
    }
}

/// Shows a DELETE.
pub fn format_delete(delete: &DeletePlan) -> (text: Result<String, ErrorCode>)
    ensures
        text matches Ok(t) && t@ == delete_text(*delete),
{
    if delete.subquery_desc.len() > 0 {
        let mut out = String::from_str("DeletePlan:\nEvalScalar\n");
        let branch = String::from_str("└── ");
        let below = String::from_str("    ");
        delete.subquery_desc[0].input_expr.format_pretty_impl(&branch, &below, &mut out);
        Ok(out)
    } else {
        match &delete.selection {
            Some(predicate) => Ok(
                String::from_str("DeletePlan:\nFilter\n├── filters: [").concat(
                    predicate.as_str(),
                ).concat("]\n└── Scan\n"),
            ),
            None => Ok(String::from_str("DeletePlan:\nFilter\n└── Scan\n")),
        }
    }
}

/// Shows a CREATE TABLE.
pub fn format_create_table(as_select: &Option<Box<Plan>>) -> (text: Result<String, ErrorCode>)
    ensures
        match text {
            Ok(t) => create_table_text(*as_select) == Ok::<Seq<char>, ErrorView>(t@),
            Err(e) => create_table_text(*as_select) == Err::<Seq<char>, ErrorView>(e@),
        },
{
    match as_select {
        Some(plan) => match &**plan {
            Plan::Query { tree } => {
                let mut out = String::from_str("CreateTableAsSelect\n");
                let branch = String::from_str("└── ");
                let below = String::from_str("    ");
                tree.format_pretty_impl(&branch, &below, &mut out);
                Ok(out)
            },
            _ => Err(ErrorCode::create(ErrorKind::Internal, "Invalid create table plan")),
        },
        None => Ok(String::from_str("CreateTable")),
    }
}

impl Plan {
    /// Shows the plan: a query as the tree of its operators; an EXPLAIN
    /// as its kind over what it explains; CREATE TABLE and DELETE in
    /// their own ways; every other statement by its name.
    pub fn format_indent(&self) -> (text: Result<String, ErrorCode>)
        ensures
            match text {
                Ok(t) => plan_text(*self) == Ok::<Seq<char>, ErrorView>(t@),
                Err(e) => plan_text(*self) == Err::<Seq<char>, ErrorView>(e@),
            },
        decreases self,
    {
        match self {
            Plan::Query { tree } => Ok(tree.format_pretty()),
            Plan::Explain { kind, plan } => match plan.format_indent() {
                Ok(result) => Ok(String::from_str(kind.name()).concat(":\n").concat(result.as_str())),
                Err(e) => Err(e),
            },
            Plan::CreateTable { as_select } => format_create_table(as_select),
            Plan::Delete(delete) => format_delete(delete),
            Plan::Statement(kind) => Ok(String::from_str(kind.name())),
        }
    }
}

} // verus!
