//! ALTER TABLE ... ADD COLUMN: which tables take it, where the new column
//! goes, and the request that replaces the table's description on
//! condition of its version.

use crate::error::ErrorCode;
use crate::error::ErrorKind;
use crate::error::ErrorView;
use crate::meta::MatchSeq;
use crate::meta::UpdateTableMetaReq;
use crate::meta::UpdateTableMetaReqView;
use crate::part::ColumnId;
use crate::table::unknown_field;
use crate::table::DatabaseType;
use crate::table::TableField;
use crate::table::TableFieldView;
use crate::table::TableInfo;
use crate::table::TableInfoView;
use vstd::prelude::*;
use vstd::string::StringExecFns;

verus! {

/// Where a new column goes.
#[derive(Debug)]
pub enum AddColumnOption {
    First,
    /// Behind the column of this name.
    After(String),
    End,
}

/// The mathematical value of an [`AddColumnOption`].
pub enum AddColumnOptionView {
    First,
    After(Seq<char>),
    End,
}

impl View for AddColumnOption {
    type V = AddColumnOptionView;

    open spec fn view(&self) -> AddColumnOptionView {
        match self {
            AddColumnOption::First => AddColumnOptionView::First,
            AddColumnOption::After(name) => AddColumnOptionView::After(name@),
            AddColumnOption::End => AddColumnOptionView::End,
        }
    }
}

/// An ADD COLUMN statement after binding.
#[derive(Debug)]
pub struct AddTableColumnPlan {
    pub catalog: String,
    pub database: String,
    pub table: String,
    pub field: TableField,
    pub comment: String,
    pub option: AddColumnOption,
}

/// The mathematical value of an [`AddTableColumnPlan`].
pub struct AddTableColumnPlanView {
    pub catalog: Seq<char>,
    pub database: Seq<char>,
    pub table: Seq<char>,
    pub field: TableFieldView,
    pub comment: Seq<char>,
    pub option: AddColumnOptionView,
}

impl View for AddTableColumnPlan {
    type V = AddTableColumnPlanView;

    open spec fn view(&self) -> AddTableColumnPlanView {
        AddTableColumnPlanView {
            catalog: self.catalog@,
            database: self.database@,
            table: self.table@,
            field: self.field@,
            comment: self.comment@,
            option: self.option@,
        }
    }
}

/// The name of the column that carries the identity of a row. No column
/// of a table may take it.
pub open spec fn row_id_col_name() -> Seq<char> {
    "_row_id"@
}

impl AddTableColumnPlanView {
    /// The error for a table whose engine takes no change of columns.
    pub open spec fn engine_refuses(self, table: TableInfoView) -> ErrorView {
        ErrorView {
            kind: ErrorKind::EngineNotSupported,
            message: self.database + "."@ + self.table + " engine is "@
                + table.meta.engine.spec_name() + " that doesn't support alter"@,
        }
    }

    /// The error for a table that is not a table of its tenant's own.
    pub open spec fn table_refuses(self) -> ErrorView {
        ErrorView {
            kind: ErrorKind::EngineNotSupported,
            message: self.database + "."@ + self.table + " doesn't support alter"@,
        }
    }

    /// Why the table does not take the statement, if it does not: it is
    /// attached for reading only, or its engine takes no change of
    /// columns, or it does not belong to a database of the tenant's own.
    pub open spec fn refusal(self, table: TableInfoView) -> Option<ErrorView> {
        if table.read_only {
            Some(self.table_refuses())
        } else if !table.meta.engine.spec_is_alterable() {
            Some(self.engine_refuses(table))
        } else if table.db_type != DatabaseType::NormalDB {
            Some(self.table_refuses())
        } else {
            None
        }
    }

    /// The position at which the new column goes, or the error for a
    /// column to go behind that the table does not have.
    pub open spec fn position(self, table: TableInfoView) -> Result<int, ErrorView> {
        match self.option {
            AddColumnOptionView::First => Ok(0),
            AddColumnOptionView::After(name) => match table.meta.schema.index_of(name) {
                Some(i) => Ok(i + 1),
                None => Err(unknown_field(name)),
            },
            AddColumnOptionView::End => Ok(table.meta.schema.fields.len() as int),
        }
    }

    /// The request that adds the column, or the error that says why it
    /// cannot be added: its name is that of the row identity; the column
    /// to go behind is unknown; the table has a column of the name; no
    /// column id is left. The request is conditional on the exact version
    /// at which the table was read; it moves no stream and carries no
    /// label.
    pub open spec fn request(self, table: TableInfoView) -> Result<UpdateTableMetaReqView, ErrorView> {
        if self.field.name == row_id_col_name() {
            Err(reserved_name())
        } else {
            match self.position(table) {
                Err(e) => Err(e),
                Ok(index) => if table.meta.schema.has_field(self.field.name) {
                    Err(
                        ErrorView {
                            kind: ErrorKind::SchemaMismatch,
                            message: "add column "@ + self.field.name + " already exist"@,
                        },
                    )
                } else if table.meta.schema.next_column_id == ColumnId::MAX {
                    Err(
                        ErrorView {
                            kind: ErrorKind::SchemaMismatch,
                            message: "no column id is left"@,
                        },
                    )
                } else {
                    Ok(
                        UpdateTableMetaReqView {
                            table_id: table.ident.table_id,
                            seq: MatchSeq::Exact(table.ident.seq),
                            new_table_meta: table.meta.with_column(self.field, self.comment, index),
                            update_stream_meta: Seq::empty(),
                            deduplicated_label: None,
                        },
                    )
                },
            }
        }
    }
}

/// The error for a column that takes the name of the row identity.
pub open spec fn reserved_name() -> ErrorView {
    ErrorView {
        kind: ErrorKind::SchemaMismatch,
        message: "a column cannot take the name of the row identity"@,
    }
}

/// Whether a column may have the given name: any name but that of the
/// row identity.
pub fn is_valid_column(name: &String) -> (valid: Result<(), ErrorCode>)
    ensures
        valid is Ok <==> name@ != row_id_col_name(),
        valid matches Err(e) ==> e@ == reserved_name(),
{
    let reserved = String::from_str("_row_id");
    if *name == reserved {
        Err(
            ErrorCode::create(
                ErrorKind::SchemaMismatch,
                "a column cannot take the name of the row identity",
            ),
        )
    } else {
        Ok(())
    }
}

impl AddTableColumnPlan {
    /// Passes where the table takes the statement, and says why where it
    /// does not.
    pub fn check_table(&self, table: &TableInfo) -> (checked: Result<(), ErrorCode>)
        ensures
            match checked {
                Ok(_) => self@.refusal(table@) is None,
                Err(e) => self@.refusal(table@) == Some(e@),
            },
    {
        if table.read_only {
            return Err(self.table_refuses());
        }
        let engine = table.engine();
        if !engine.is_alterable() {
            let message = self.database.clone().concat(".").concat(self.table.as_str()).concat(
                " engine is ",
            ).concat(engine.name()).concat(" that doesn't support alter");
            return Err(ErrorCode { kind: ErrorKind::EngineNotSupported, message });
        }
        if table.db_type != DatabaseType::NormalDB {
            return Err(self.table_refuses());
        }
        Ok(())
    }

    fn table_refuses(&self) -> (e: ErrorCode)
        ensures
            e@ == self@.table_refuses(),
    {
        let message = self.database.clone().concat(".").concat(self.table.as_str()).concat(
            " doesn't support alter",
        );
        ErrorCode { kind: ErrorKind::EngineNotSupported, message }
    }

    /// The request that adds the column of the statement to `table`, or
    /// the error that says why it cannot be added.
    pub fn build_request(&self, table: &TableInfo) -> (built: Result<UpdateTableMetaReq, ErrorCode>)
        ensures
            match built {
                Ok(req) => self@.request(table@) == Ok::<UpdateTableMetaReqView, ErrorView>(req@),
                Err(e) => self@.request(table@) == Err::<UpdateTableMetaReqView, ErrorView>(e@),
            },
    {
        match is_valid_column(&self.field.name) {
            Err(e) => {
                return Err(e);
            },
            Ok(_) => {},
        }
        let fields = table.meta.schema.num_fields();
        let index = match &self.option {
            AddColumnOption::First => 0,
            AddColumnOption::After(name) => match table.meta.schema.index_of(name) {
                Ok(i) => {
                    assert(i < fields);
                    i + 1
                },
                Err(e) => {
                    return Err(e);
                },
            },
            AddColumnOption::End => fields,
        };
        let mut new_table_meta = table.meta.duplicate();
        match new_table_meta.add_column(&self.field, &self.comment, index) {
            Ok(_) => {
                let req = UpdateTableMetaReq {
                    table_id: table.ident.table_id,
                    seq: MatchSeq::Exact(table.ident.seq),
                    new_table_meta,
                    update_stream_meta: Vec::new(),
                    deduplicated_label: None,
                };
                assert(req@.update_stream_meta =~= Seq::empty());
                Ok(req)
            },
            Err(e) => Err(e),
        }
    }
}

/// Where an ADD COLUMN stands between its first step and its last.
#[derive(Clone, Copy, Debug, PartialEq, Eq, Structural)]
pub enum AddColumnStage {
    Created,
    ResolvingTable,
    CheckingLicense,
    CheckingDefault,
    Updating,
    Sharing,
    Finished,
    Failed,
}

/// What the outside reports back to the interpreter.
#[derive(Debug)]
pub enum AddColumnEvent {
    /// The statement is handed in.
    Begin,
    /// The table as the catalog has it. A lookup that finds no table, or
    /// fails otherwise, is reported as [`AddColumnEvent::Failed`].
    TableResolved { table: TableInfo },
    /// Whether the tenant is entitled to stored computed columns.
    LicenseChecked { entitled: bool },
    /// The default expression of the new column was evaluated.
    DefaultChecked,
    /// The store replaced the table's description; `shared` says whether
    /// the table has shares that must be told.
    MetaUpdated { shared: bool },
    /// The shares were told.
    ShareSaved,
    /// The step that was asked for failed.
    Failed { error: ErrorCode },
}

/// The mathematical value of an [`AddColumnEvent`].
pub enum AddColumnEventView {
    Begin,
    TableResolved { table: TableInfoView },
    LicenseChecked { entitled: bool },
    DefaultChecked,
    MetaUpdated { shared: bool },
    ShareSaved,
    Failed { error: ErrorView },
}

impl View for AddColumnEvent {
    type V = AddColumnEventView;

    open spec fn view(&self) -> AddColumnEventView {
        match self {
            AddColumnEvent::Begin => AddColumnEventView::Begin,
            AddColumnEvent::TableResolved { table } => AddColumnEventView::TableResolved {
                table: table@,
            },
            AddColumnEvent::LicenseChecked { entitled } => AddColumnEventView::LicenseChecked {
                entitled: *entitled,
            },
            AddColumnEvent::DefaultChecked => AddColumnEventView::DefaultChecked,
            AddColumnEvent::MetaUpdated { shared } => AddColumnEventView::MetaUpdated {
                shared: *shared,
            },
            AddColumnEvent::ShareSaved => AddColumnEventView::ShareSaved,
            AddColumnEvent::Failed { error } => AddColumnEventView::Failed { error: error@ },
        }
    }
}

/// What the interpreter asks of the outside next.
#[derive(Debug)]
pub enum AddColumnAction {
    /// Fetch the table from the catalog.
    ResolveTable,
    /// Ask whether stored computed columns are entitled.
    CheckLicense,
    /// Evaluate the default expression of the new column.
    CheckDefault,
    /// Hand the request to the metadata store.
    UpdateTableMeta { req: UpdateTableMetaReq },
    /// Tell the shares of the table of its new description.
    SaveShareTableInfo,
    /// The statement is done.
    Finish,
    /// The statement failed.
    Fail { error: ErrorCode },
    /// The statement had ended before; the event is dropped.
    Nothing,
}

/// The mathematical value of an [`AddColumnAction`].
pub enum AddColumnActionView {
    ResolveTable,
    CheckLicense,
    CheckDefault,
    UpdateTableMeta { req: UpdateTableMetaReqView },
    SaveShareTableInfo,
    Finish,
    Fail { error: ErrorView },
    Nothing,
}

impl View for AddColumnAction {
    type V = AddColumnActionView;

    open spec fn view(&self) -> AddColumnActionView {
        match self {
            AddColumnAction::ResolveTable => AddColumnActionView::ResolveTable,
            AddColumnAction::CheckLicense => AddColumnActionView::CheckLicense,
            AddColumnAction::CheckDefault => AddColumnActionView::CheckDefault,
            AddColumnAction::UpdateTableMeta { req } => AddColumnActionView::UpdateTableMeta {
                req: req@,
            },
            AddColumnAction::SaveShareTableInfo => AddColumnActionView::SaveShareTableInfo,
            AddColumnAction::Finish => AddColumnActionView::Finish,
            AddColumnAction::Fail { error } => AddColumnActionView::Fail { error: error@ },
            AddColumnAction::Nothing => AddColumnActionView::Nothing,
        }
    }
}

/// What the interpreter remembers between two steps.
pub struct AddColumnStateView {
    pub stage: AddColumnStage,
    /// The table, from its resolution on.
    pub table: Option<TableInfoView>,
}

/// The error for stored computed columns without the entitlement.
pub open spec fn computed_not_entitled() -> ErrorView {
    ErrorView {
        kind: ErrorKind::LicenseDenied,
        message: "stored computed columns need an enterprise license"@,
    }
}

/// The error for an event that does not answer what was asked.
pub open spec fn alter_out_of_turn() -> ErrorView {
    ErrorView {
        kind: ErrorKind::Internal,
        message: "the event does not answer the step that was asked for"@,
    }
}

impl AddColumnStateView {
    /// Whether the statement has ended.
    pub open spec fn is_terminal(self) -> bool {
        self.stage == AddColumnStage::Finished || self.stage == AddColumnStage::Failed
    }

    /// The statement has failed with `error`.
    pub open spec fn fail(self, error: ErrorView) -> (AddColumnStateView, AddColumnActionView) {
        (
            AddColumnStateView { stage: AddColumnStage::Failed, ..self },
            AddColumnActionView::Fail { error },
        )
    }

    /// The statement goes on at `stage` with `action`.
    pub open spec fn go(self, stage: AddColumnStage, action: AddColumnActionView) -> (
        AddColumnStateView,
        AddColumnActionView,
    ) {
        (AddColumnStateView { stage, ..self }, action)
    }

    /// The request is built and handed out, or the statement fails where
    /// it cannot be built.
    pub open spec fn update(self, plan: AddTableColumnPlanView) -> (
        AddColumnStateView,
        AddColumnActionView,
    ) {
        match self.table {
            Some(table) => match plan.request(table) {
                Ok(req) => self.go(
                    AddColumnStage::Updating,
                    AddColumnActionView::UpdateTableMeta { req },
                ),
                Err(e) => self.fail(e),
            },
            None => self.fail(alter_out_of_turn()),
        }
    }

    /// The default expression is checked where the column has one; else
    /// the request is built.
    pub open spec fn after_license(self, plan: AddTableColumnPlanView) -> (
        AddColumnStateView,
        AddColumnActionView,
    ) {
        if plan.field.default_expr is Some {
            self.go(AddColumnStage::CheckingDefault, AddColumnActionView::CheckDefault)
        } else {
            self.update(plan)
        }
    }
}

/// The transition function of the interpreter.
///
/// A step that fails, the lookup of the table among them, fails the
/// statement with the error that it gave: no failure is dropped. A table
/// that does not take the statement is refused before anything else is
/// asked. The entitlement is asked for only where the new column
/// is a stored computed one, and without it the statement fails. A
/// default expression is evaluated before the request is built. The
/// request is conditional on the version at which the table was read,
/// and a refusal of the store is not retried. The shares of a shared
/// table are told before the statement ends.
pub open spec fn add_column_step(
    plan: AddTableColumnPlanView,
    state: AddColumnStateView,
    event: AddColumnEventView,
) -> (AddColumnStateView, AddColumnActionView) {
    if state.is_terminal() {
        (state, AddColumnActionView::Nothing)
    } else if event is Failed {
        state.fail(event->error)
    } else {
        match (state.stage, event) {
            (AddColumnStage::Created, AddColumnEventView::Begin) => state.go(
                AddColumnStage::ResolvingTable,
                AddColumnActionView::ResolveTable,
            ),
            (AddColumnStage::ResolvingTable, AddColumnEventView::TableResolved { table }) => {
                let resolved = AddColumnStateView { table: Some(table), ..state };
                match plan.refusal(table) {
                    Some(e) => resolved.fail(e),
                    None => if plan.field.computed_expr is Some {
                        resolved.go(
                            AddColumnStage::CheckingLicense,
                            AddColumnActionView::CheckLicense,
                        )
                    } else {
                        resolved.after_license(plan)
                    },
                }
            },
            (
                AddColumnStage::CheckingLicense,
                AddColumnEventView::LicenseChecked { entitled },
            ) => if entitled {
                state.after_license(plan)
            } else {
                state.fail(computed_not_entitled())
            },
            (AddColumnStage::CheckingDefault, AddColumnEventView::DefaultChecked) => state.update(
                plan,
            ),
            (AddColumnStage::Updating, AddColumnEventView::MetaUpdated { shared }) => if shared {
                state.go(AddColumnStage::Sharing, AddColumnActionView::SaveShareTableInfo)
            } else {
                state.go(AddColumnStage::Finished, AddColumnActionView::Finish)
            },
            (AddColumnStage::Sharing, AddColumnEventView::ShareSaved) => state.go(
                AddColumnStage::Finished,
                AddColumnActionView::Finish,
            ),
            _ => state.fail(alter_out_of_turn()),
        }
    }
}

/// Interprets an ADD COLUMN statement: holds the statement and where its
/// execution stands.
#[derive(Debug)]
pub struct AddTableColumnInterpreter {
    pub plan: AddTableColumnPlan,
    pub stage: AddColumnStage,
    pub table: Option<TableInfo>,
}

impl AddTableColumnInterpreter {
    /// What the interpreter remembers.
    pub open spec fn state(&self) -> AddColumnStateView {
        AddColumnStateView {
            stage: self.stage,
            table: match self.table {
                Some(t) => Some(t@),
                None => None,
            },
        }
    }

    /// The interpreter of `plan`, at its start.
    pub fn try_create(plan: AddTableColumnPlan) -> (made: Result<
        AddTableColumnInterpreter,
        ErrorCode,
    >)
        ensures
            made matches Ok(interpreter) && interpreter.plan == plan && interpreter.state() == (
            AddColumnStateView { stage: AddColumnStage::Created, table: None }),
    {
        Ok(AddTableColumnInterpreter { plan, stage: AddColumnStage::Created, table: None })
    }

    /// The name of this interpreter.
    pub fn name(&self) -> (name: &'static str)
        ensures
            name@ == "AddTableColumnInterpreter"@,
    {
        "AddTableColumnInterpreter"
    }

    /// Takes `event` in and says what to ask for next, as
    /// [`add_column_step`] has it.
    pub fn step(&mut self, event: AddColumnEvent) -> (action: AddColumnAction)
        ensures
            (final(self).state(), action@) == add_column_step(
                old(self).plan@,
                old(self).state(),
                event@,
            ),
            final(self).plan@ == old(self).plan@,
    {
        let terminal = match self.stage {
            AddColumnStage::Finished => true,
            AddColumnStage::Failed => true,
            _ => false,
        };
        if terminal {
            return AddColumnAction::Nothing;
        }
        match event {
            AddColumnEvent::Failed { error } => self.fail(error),
            AddColumnEvent::Begin => match self.stage {
                AddColumnStage::Created => {
                    self.stage = AddColumnStage::ResolvingTable;
                    AddColumnAction::ResolveTable
                },
                _ => self.fail_out_of_turn(),
            },
            AddColumnEvent::TableResolved { table } => match self.stage {
                AddColumnStage::ResolvingTable => {
                    let checked = self.plan.check_table(&table);
                    self.table = Some(table);
                    match checked {
                        Err(e) => self.fail(e),
                        Ok(_) => {
                            if self.plan.field.computed_expr.is_some() {
                                self.stage = AddColumnStage::CheckingLicense;
                                AddColumnAction::CheckLicense
                            } else {
                                self.after_license()
                            }
                        },
                    }
                },
                _ => self.fail_out_of_turn(),
            },
            AddColumnEvent::LicenseChecked { entitled } => match self.stage {
                AddColumnStage::CheckingLicense => {
                    if entitled {
                        self.after_license()
                    } else {
                        self.fail(
                            ErrorCode::create(
                                ErrorKind::LicenseDenied,
                                "stored computed columns need an enterprise license",
                            ),
                        )
                    }
                },
                _ => self.fail_out_of_turn(),
            },
            AddColumnEvent::DefaultChecked => match self.stage {
                AddColumnStage::CheckingDefault => self.update(),
                _ => self.fail_out_of_turn(),
            },
            AddColumnEvent::MetaUpdated { shared } => match self.stage {
                AddColumnStage::Updating => {
                    if shared {
                        self.stage = AddColumnStage::Sharing;
                        AddColumnAction::SaveShareTableInfo
                    } else {
                        self.stage = AddColumnStage::Finished;
                        AddColumnAction::Finish
                    }
                },
                _ => self.fail_out_of_turn(),
            },
            AddColumnEvent::ShareSaved => match self.stage {
                AddColumnStage::Sharing => {
                    self.stage = AddColumnStage::Finished;
                    AddColumnAction::Finish
                },
                _ => self.fail_out_of_turn(),
            },
        }
    }

    fn fail(&mut self, error: ErrorCode) -> (action: AddColumnAction)
        ensures
            (final(self).state(), action@) == old(self).state().fail(error@),
            final(self).plan@ == old(self).plan@,
    {
        self.stage = AddColumnStage::Failed;
        AddColumnAction::Fail { error }
    }

    fn fail_out_of_turn(&mut self) -> (action: AddColumnAction)
        ensures
            (final(self).state(), action@) == old(self).state().fail(alter_out_of_turn()),
            final(self).plan@ == old(self).plan@,
    {
        self.fail(
            ErrorCode::create(
                ErrorKind::Internal,
                "the event does not answer the step that was asked for",
            ),
        )
    }

    fn update(&mut self) -> (action: AddColumnAction)
        ensures
            (final(self).state(), action@) == old(self).state().update(old(self).plan@),
            final(self).plan@ == old(self).plan@,
    {
        let built = match &self.table {
            Some(table) => self.plan.build_request(table),
            None => Err(
                ErrorCode::create(
                    ErrorKind::Internal,
                    "the event does not answer the step that was asked for",
                ),
            ),
        };
        match built {
            Ok(req) => {
                self.stage = AddColumnStage::Updating;
                AddColumnAction::UpdateTableMeta { req }
            },
            Err(e) => self.fail(e),
        }
    }

    fn after_license(&mut self) -> (action: AddColumnAction)
        ensures
            (final(self).state(), action@) == old(self).state().after_license(old(self).plan@),
            final(self).plan@ == old(self).plan@,
    {
        if self.plan.field.default_expr.is_some() {
            self.stage = AddColumnStage::CheckingDefault;
            AddColumnAction::CheckDefault
        } else {
            self.update()
        }
    }
}

} // verus!
