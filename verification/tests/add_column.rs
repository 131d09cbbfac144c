use fuse_mutation::add_column::is_valid_column;
use fuse_mutation::add_column::AddColumnAction;
use fuse_mutation::add_column::AddColumnEvent;
use fuse_mutation::add_column::AddColumnOption;
use fuse_mutation::add_column::AddColumnStage;
use fuse_mutation::add_column::AddTableColumnInterpreter;
use fuse_mutation::add_column::AddTableColumnPlan;
use fuse_mutation::error::ErrorCode;
use fuse_mutation::error::ErrorKind;
use fuse_mutation::meta::MatchSeq;
use fuse_mutation::scalar::DataType;
use fuse_mutation::scalar::TypeKind;
use fuse_mutation::table::DatabaseType;
use fuse_mutation::table::Engine;
use fuse_mutation::table::TableField;
use fuse_mutation::table::TableIdent;
use fuse_mutation::table::TableInfo;
use fuse_mutation::table::TableMeta;
use fuse_mutation::table::TableSchema;

fn field(name: &str, id: u32) -> TableField {
    TableField {
        name: name.to_string(),
        data_type: DataType::of(TypeKind::Int64),
        default_expr: None,
        computed_expr: None,
        column_id: id,
    }
}

fn table(engine: Engine, db_type: DatabaseType, read_only: bool) -> TableInfo {
    TableInfo {
        ident: TableIdent { table_id: 9, seq: 4 },
        desc: "'db'.'t'".to_string(),
        name: "t".to_string(),
        meta: TableMeta {
            schema: TableSchema {
                fields: vec![field("a", 0), field("b", 1), field("c", 2)],
                next_column_id: 3,
            },
            engine,
            field_comments: vec!["first".to_string(), "".to_string(), "third".to_string()],
            snapshot_location: Some("1/9/_ss/s.mpk".to_string()),
        },
        db_type,
        read_only,
        change_tracking: false,
    }
}

fn fuse() -> TableInfo {
    table(Engine::Fuse, DatabaseType::NormalDB, false)
}

fn plan(new: TableField, option: AddColumnOption) -> AddTableColumnPlan {
    AddTableColumnPlan {
        catalog: "default".to_string(),
        database: "db".to_string(),
        table: "t".to_string(),
        field: new,
        comment: "new".to_string(),
        option,
    }
}

fn names(meta: &TableMeta) -> Vec<&str> {
    meta.schema.fields.iter().map(|f| f.name.as_str()).collect()
}

#[test]
fn the_new_column_goes_where_the_statement_says() {
    let cases = vec![
        (AddColumnOption::First, vec!["d", "a", "b", "c"], vec!["new", "first", "", "third"]),
        (
            AddColumnOption::After("a".to_string()),
            vec!["a", "d", "b", "c"],
            vec!["first", "new", "", "third"],
        ),
        (
            AddColumnOption::After("c".to_string()),
            vec!["a", "b", "c", "d"],
            vec!["first", "", "third", "new"],
        ),
        (AddColumnOption::End, vec!["a", "b", "c", "d"], vec!["first", "", "third", "new"]),
    ];
    for (option, expected_names, expected_comments) in cases {
        let req = plan(field("d", 77), option).build_request(&fuse()).unwrap();
        assert_eq!(req.table_id, 9);
        assert_eq!(req.seq, MatchSeq::Exact(4));
        assert!(req.update_stream_meta.is_empty());
        assert!(req.deduplicated_label.is_none());
        assert_eq!(names(&req.new_table_meta), expected_names);
        assert_eq!(req.new_table_meta.field_comments, expected_comments);
        let added = req.new_table_meta.schema.fields.iter().find(|f| f.name == "d").unwrap();
        assert_eq!(added.column_id, 3);
        assert_eq!(req.new_table_meta.schema.next_column_id, 4);
        assert_eq!(req.new_table_meta.engine, Engine::Fuse);
        assert_eq!(req.new_table_meta.snapshot_location.as_deref(), Some("1/9/_ss/s.mpk"));
    }
}

#[test]
fn comments_are_filled_in_where_the_table_kept_none() {
    let mut table = fuse();
    table.meta.field_comments = vec![];
    let req = plan(field("d", 0), AddColumnOption::After("b".to_string()))
        .build_request(&table)
        .unwrap();
    assert_eq!(req.new_table_meta.field_comments, vec!["", "", "new", ""]);
}

#[test]
fn a_column_that_cannot_be_added_is_refused() {
    let err = plan(field("b", 0), AddColumnOption::End).build_request(&fuse()).unwrap_err();
    assert_eq!(err.kind, ErrorKind::SchemaMismatch);
    assert_eq!(err.message, "add column b already exist");
    let err = plan(field("d", 0), AddColumnOption::After("z".to_string()))
        .build_request(&fuse())
        .unwrap_err();
    assert_eq!(err.kind, ErrorKind::SchemaMismatch);
    assert_eq!(err.message, "Unable to get field named \"z\"");
    let err = plan(field("_row_id", 0), AddColumnOption::End).build_request(&fuse()).unwrap_err();
    assert_eq!(err.kind, ErrorKind::SchemaMismatch);
    assert_eq!(err.message, "a column cannot take the name of the row identity");
    let mut full = fuse();
    full.meta.schema.next_column_id = u32::MAX;
    let err = plan(field("d", 0), AddColumnOption::End).build_request(&full).unwrap_err();
    assert_eq!(err.message, "no column id is left");
    assert!(is_valid_column(&"row_id".to_string()).is_ok());
    assert!(is_valid_column(&"_row_id".to_string()).is_err());
}

#[test]
fn tables_that_take_no_change_of_columns_are_refused() {
    let statement = plan(field("d", 0), AddColumnOption::End);
    assert!(statement.check_table(&fuse()).is_ok());
    assert!(statement.check_table(&table(Engine::Memory, DatabaseType::NormalDB, false)).is_ok());
    for (engine, name) in [(Engine::View, "VIEW"), (Engine::Stream, "STREAM")] {
        let err = statement.check_table(&table(engine, DatabaseType::NormalDB, false)).unwrap_err();
        assert_eq!(err.kind, ErrorKind::EngineNotSupported);
        assert_eq!(err.message, format!("db.t engine is {} that doesn't support alter", name));
    }
    let err = statement.check_table(&table(Engine::Fuse, DatabaseType::ShareDB, false)).unwrap_err();
    assert_eq!(err.kind, ErrorKind::EngineNotSupported);
    assert_eq!(err.message, "db.t doesn't support alter");
    let err = statement.check_table(&table(Engine::Fuse, DatabaseType::NormalDB, true)).unwrap_err();
    assert_eq!(err.message, "db.t doesn't support alter");
}

#[test]
fn a_plain_column_is_added_in_one_request() {
    let mut interpreter =
        AddTableColumnInterpreter::try_create(plan(field("d", 0), AddColumnOption::End)).unwrap();
    assert_eq!(interpreter.name(), "AddTableColumnInterpreter");
    assert!(matches!(interpreter.step(AddColumnEvent::Begin), AddColumnAction::ResolveTable));
    match interpreter.step(AddColumnEvent::TableResolved { table: fuse() }) {
        AddColumnAction::UpdateTableMeta { req } => {
            assert_eq!(req.seq, MatchSeq::Exact(4));
            assert_eq!(names(&req.new_table_meta), vec!["a", "b", "c", "d"]);
        }
        other => panic!("unexpected action {:?}", other),
    }
    assert!(matches!(
        interpreter.step(AddColumnEvent::MetaUpdated { shared: false }),
        AddColumnAction::Finish
    ));
    assert_eq!(interpreter.stage, AddColumnStage::Finished);
    assert!(matches!(interpreter.step(AddColumnEvent::Begin), AddColumnAction::Nothing));
}

#[test]
fn a_lookup_that_fails_fails_the_statement() {
    let mut interpreter =
        AddTableColumnInterpreter::try_create(plan(field("d", 0), AddColumnOption::End)).unwrap();
    interpreter.step(AddColumnEvent::Begin);
    let unknown = ErrorCode::create(ErrorKind::Transient, "Unknown table 'db'.'t'");
    match interpreter.step(AddColumnEvent::Failed { error: unknown }) {
        AddColumnAction::Fail { error } => {
            assert_eq!(error.kind, ErrorKind::Transient);
            assert_eq!(error.message, "Unknown table 'db'.'t'");
        }
        other => panic!("unexpected action {:?}", other),
    }
    assert_eq!(interpreter.stage, AddColumnStage::Failed);
    // Nothing is asked of the store afterwards.
    assert!(matches!(
        interpreter.step(AddColumnEvent::TableResolved { table: fuse() }),
        AddColumnAction::Nothing
    ));
}

#[test]
fn computed_and_default_expressions_are_checked_first() {
    let mut new = field("d", 0);
    new.computed_expr = Some("a + 1".to_string());
    new.default_expr = Some("0".to_string());
    let mut interpreter =
        AddTableColumnInterpreter::try_create(plan(new, AddColumnOption::First)).unwrap();
    interpreter.step(AddColumnEvent::Begin);
    assert!(matches!(
        interpreter.step(AddColumnEvent::TableResolved { table: fuse() }),
        AddColumnAction::CheckLicense
    ));
    assert!(matches!(
        interpreter.step(AddColumnEvent::LicenseChecked { entitled: true }),
        AddColumnAction::CheckDefault
    ));
    match interpreter.step(AddColumnEvent::DefaultChecked) {
        AddColumnAction::UpdateTableMeta { req } => {
            assert_eq!(names(&req.new_table_meta), vec!["d", "a", "b", "c"]);
            let added = &req.new_table_meta.schema.fields[0];
            assert_eq!(added.computed_expr.as_deref(), Some("a + 1"));
            assert_eq!(added.default_expr.as_deref(), Some("0"));
        }
        other => panic!("unexpected action {:?}", other),
    }
    assert!(matches!(
        interpreter.step(AddColumnEvent::MetaUpdated { shared: true }),
        AddColumnAction::SaveShareTableInfo
    ));
    assert!(matches!(interpreter.step(AddColumnEvent::ShareSaved), AddColumnAction::Finish));
}

#[test]
fn a_computed_column_without_the_entitlement_fails() {
    let mut new = field("d", 0);
    new.computed_expr = Some("a + 1".to_string());
    let mut interpreter =
        AddTableColumnInterpreter::try_create(plan(new, AddColumnOption::First)).unwrap();
    interpreter.step(AddColumnEvent::Begin);
    interpreter.step(AddColumnEvent::TableResolved { table: fuse() });
    match interpreter.step(AddColumnEvent::LicenseChecked { entitled: false }) {
        AddColumnAction::Fail { error } => {
            assert_eq!(error.kind, ErrorKind::LicenseDenied);
            assert_eq!(error.message, "stored computed columns need an enterprise license");
        }
        other => panic!("unexpected action {:?}", other),
    }
    assert_eq!(interpreter.stage, AddColumnStage::Failed);
}

#[test]
fn a_refused_table_and_a_refusing_store_fail_the_statement() {
    let mut interpreter =
        AddTableColumnInterpreter::try_create(plan(field("d", 0), AddColumnOption::End)).unwrap();
    interpreter.step(AddColumnEvent::Begin);
    let view = table(Engine::View, DatabaseType::NormalDB, false);
    match interpreter.step(AddColumnEvent::TableResolved { table: view }) {
        AddColumnAction::Fail { error } => assert_eq!(error.kind, ErrorKind::EngineNotSupported),
        other => panic!("unexpected action {:?}", other),
    }
    let mut interpreter =
        AddTableColumnInterpreter::try_create(plan(field("d", 0), AddColumnOption::End)).unwrap();
    interpreter.step(AddColumnEvent::Begin);
    interpreter.step(AddColumnEvent::TableResolved { table: fuse() });
    let stale = ErrorCode::create(ErrorKind::Conflict, "the record is not at the expected version");
    match interpreter.step(AddColumnEvent::Failed { error: stale }) {
        AddColumnAction::Fail { error } => assert_eq!(error.kind, ErrorKind::Conflict),
        other => panic!("unexpected action {:?}", other),
    }
    let mut interpreter =
        AddTableColumnInterpreter::try_create(plan(field("d", 0), AddColumnOption::End)).unwrap();
    match interpreter.step(AddColumnEvent::ShareSaved) {
        AddColumnAction::Fail { error } => assert_eq!(error.kind, ErrorKind::Internal),
        other => panic!("unexpected action {:?}", other),
    }
}
