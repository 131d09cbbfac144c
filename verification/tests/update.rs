use fuse_mutation::error::ErrorCode;
use fuse_mutation::error::ErrorKind;
use fuse_mutation::part::FuseLazyPartInfo;
use fuse_mutation::part::FusePartInfo;
use fuse_mutation::part::Compression;
use fuse_mutation::part::Location;
use fuse_mutation::part::PartInfoPtr;
use fuse_mutation::part::Partitions;
use fuse_mutation::part::PartitionsShuffleKind;
use fuse_mutation::plan::Filters;
use fuse_mutation::plan::MutationKind;
use fuse_mutation::plan::PhysicalPlan;
use fuse_mutation::plan::RemoteExpr;
use fuse_mutation::snapshot::Statistics;
use fuse_mutation::snapshot::TableSnapshot;
use fuse_mutation::table::CatalogInfo;
use fuse_mutation::table::DatabaseType;
use fuse_mutation::table::Engine;
use fuse_mutation::table::TableIdent;
use fuse_mutation::table::TableInfo;
use fuse_mutation::table::TableMeta;
use fuse_mutation::table::TableSchema;
use fuse_mutation::update::columns_of;
use fuse_mutation::update::ScalarExpr;
use fuse_mutation::update::SubqueryDesc;
use fuse_mutation::update::UpdateAction;
use fuse_mutation::update::UpdateEvent;
use fuse_mutation::update::UpdateInterpreter;
use fuse_mutation::update::UpdatePlan;
use fuse_mutation::update::UpdateStage;
use std::collections::BTreeMap;
use std::collections::HashMap;
use std::collections::HashSet;
use std::sync::Arc;

fn expr(text: &str) -> RemoteExpr {
    RemoteExpr { repr: text.to_string() }
}

fn table(engine: Engine, read_only: bool) -> TableInfo {
    TableInfo {
        ident: TableIdent { table_id: 9, seq: 4 },
        desc: "'db'.'t'".to_string(),
        name: "t".to_string(),
        meta: TableMeta {
            schema: TableSchema { fields: vec![], next_column_id: 0 },
            engine,
            field_comments: vec![],
            snapshot_location: None,
        },
        db_type: DatabaseType::NormalDB,
        read_only,
        change_tracking: false,
    }
}

fn plan(selection: Option<&[usize]>, subqueries: &[&[usize]]) -> UpdatePlan {
    UpdatePlan {
        catalog: "default".to_string(),
        database: "db".to_string(),
        table: "t".to_string(),
        selection: selection.map(|columns| ScalarExpr {
            expr: expr("b > 5"),
            used_columns: columns.iter().copied().collect(),
        }),
        subquery_desc: subqueries
            .iter()
            .enumerate()
            .map(|(i, columns)| SubqueryDesc {
                index: 10 + i,
                outer_columns: columns.iter().copied().collect(),
            })
            .collect(),
    }
}

fn interpreter(selection: bool, subquery: bool) -> UpdateInterpreter {
    let subqueries: Vec<&[usize]> = if subquery { vec![&[1]] } else { vec![] };
    UpdateInterpreter::try_create(plan(if selection { Some(&[1]) } else { None }, &subqueries))
        .unwrap()
}

fn resolved(engine: Engine) -> UpdateEvent {
    UpdateEvent::TableResolved { table: table(engine, false), supports_row_id: true }
}

/// Feeds the events in and returns the actions that answer them.
fn run(interpreter: &mut UpdateInterpreter, events: Vec<UpdateEvent>) -> Vec<UpdateAction> {
    events.into_iter().map(|e| interpreter.step(e)).collect()
}

/// The revisions that the actions give back.
fn released(actions: &[UpdateAction]) -> Vec<u64> {
    actions
        .iter()
        .filter_map(|a| match a {
            UpdateAction::Finish { release, .. } => *release,
            UpdateAction::Fail { release, .. } => *release,
            _ => None,
        })
        .collect()
}

fn up_to_fast_update() -> Vec<UpdateEvent> {
    vec![
        UpdateEvent::Begin,
        UpdateEvent::LabelChecked { duplicate: false },
        resolved(Engine::Fuse),
        UpdateEvent::LockAcquired { revision: 77 },
        UpdateEvent::FiltersPushed { deterministic: true },
        UpdateEvent::ListsGenerated { computed_columns: 0 },
    ]
}

#[test]
fn an_update_runs_through_its_stages_in_order() {
    let mut interpreter = interpreter(true, false);
    assert_eq!(interpreter.name(), "UpdateInterpreter");
    let mut events = up_to_fast_update();
    events.extend(vec![
        UpdateEvent::FastUpdated { snapshot_found: true },
        UpdateEvent::PartitionsRead,
        UpdateEvent::PipelineBuilt,
        UpdateEvent::IndexRefreshed,
        UpdateEvent::PipelineCompleted,
    ]);
    let actions = run(&mut interpreter, events);
    assert!(matches!(actions[0], UpdateAction::CheckLabel));
    assert!(matches!(actions[1], UpdateAction::ResolveTable));
    assert!(matches!(actions[2], UpdateAction::AcquireLock { table_id: 9 }));
    assert!(matches!(actions[3], UpdateAction::PushDownFilters));
    assert!(matches!(actions[4], UpdateAction::GenerateLists));
    assert!(matches!(actions[5], UpdateAction::FastUpdate { query_row_id_col: false }));
    assert!(matches!(actions[6], UpdateAction::ReadPartitions));
    assert!(matches!(actions[7], UpdateAction::BuildPipeline));
    assert!(matches!(actions[8], UpdateAction::RefreshAggIndex));
    assert!(matches!(actions[9], UpdateAction::RunPipeline));
    assert!(matches!(actions[10], UpdateAction::Finish { release: Some(77), affected: true }));
    assert_eq!(released(&actions), vec![77]);
    assert_eq!(interpreter.state.stage, UpdateStage::Finished);
    assert_eq!(interpreter.state.lock, None);
    assert!(matches!(interpreter.step(UpdateEvent::PipelineCompleted), UpdateAction::Nothing));
}

#[test]
fn an_update_that_matches_nothing_changes_nothing() {
    let mut interpreter = interpreter(true, false);
    let mut events = up_to_fast_update();
    events.push(UpdateEvent::FastUpdated { snapshot_found: false });
    let actions = run(&mut interpreter, events);
    assert!(matches!(
        actions.last().unwrap(),
        UpdateAction::Finish { release: Some(77), affected: false }
    ));
    assert!(actions.iter().all(|a| !matches!(
        a,
        UpdateAction::ReadPartitions | UpdateAction::BuildPipeline | UpdateAction::RunPipeline
    )));
    assert_eq!(interpreter.state.stage, UpdateStage::Finished);
    assert_eq!(released(&actions), vec![77]);
}

#[test]
fn a_statement_seen_before_ends_before_the_lock() {
    let mut interpreter = interpreter(true, false);
    let actions = run(
        &mut interpreter,
        vec![UpdateEvent::Begin, UpdateEvent::LabelChecked { duplicate: true }],
    );
    assert!(matches!(actions[1], UpdateAction::Finish { release: None, affected: false }));
    assert!(released(&actions).is_empty());
}

#[test]
fn a_table_that_takes_no_update_is_refused_before_the_lock() {
    for (engine, read_only, name) in [
        (Engine::View, false, "VIEW"),
        (Engine::Stream, false, "STREAM"),
        (Engine::Memory, false, "MEMORY"),
        (Engine::Fuse, true, "FUSE"),
    ] {
        let mut interpreter = interpreter(true, false);
        let actions = run(
            &mut interpreter,
            vec![
                UpdateEvent::Begin,
                UpdateEvent::LabelChecked { duplicate: false },
                UpdateEvent::TableResolved { table: table(engine, read_only), supports_row_id: true },
            ],
        );
        match &actions[2] {
            UpdateAction::Fail { release, error } => {
                assert_eq!(*release, None);
                assert_eq!(error.kind, ErrorKind::EngineNotSupported);
                assert_eq!(
                    error.message,
                    format!("table t, engine type {}, does not support UPDATE", name)
                );
            }
            other => panic!("unexpected action {:?}", other),
        }
        assert_eq!(interpreter.state.stage, UpdateStage::Failed);
    }
}

#[test]
fn subqueries_need_row_identities() {
    let mut interpreter = interpreter(true, true);
    let actions = run(
        &mut interpreter,
        vec![
            UpdateEvent::Begin,
            UpdateEvent::LabelChecked { duplicate: false },
            UpdateEvent::TableResolved { table: table(Engine::Fuse, false), supports_row_id: false },
            UpdateEvent::LockAcquired { revision: 5 },
        ],
    );
    match &actions[3] {
        UpdateAction::Fail { release, error } => {
            assert_eq!(*release, Some(5));
            assert_eq!(error.kind, ErrorKind::Unimplemented);
            assert_eq!(
                error.message,
                "table doesn't support row_id, so it can't use delete with subquery"
            );
        }
        other => panic!("unexpected action {:?}", other),
    }
    assert_eq!(interpreter.state.lock, None);
}

#[test]
fn subqueries_are_rewritten_before_the_predicate_is_pushed_down() {
    let mut interpreter = interpreter(true, true);
    let actions = run(
        &mut interpreter,
        vec![
            UpdateEvent::Begin,
            UpdateEvent::LabelChecked { duplicate: false },
            resolved(Engine::Fuse),
            UpdateEvent::LockAcquired { revision: 5 },
            UpdateEvent::SelectionRewritten,
            UpdateEvent::FiltersPushed { deterministic: true },
            UpdateEvent::ListsGenerated { computed_columns: 0 },
        ],
    );
    assert!(matches!(actions[3], UpdateAction::RewriteSelection));
    assert!(matches!(actions[4], UpdateAction::PushDownFilters));
    assert!(matches!(actions[6], UpdateAction::FastUpdate { query_row_id_col: true }));
}

#[test]
fn an_update_without_a_predicate_skips_the_filters() {
    let mut interpreter = interpreter(false, false);
    let actions = run(
        &mut interpreter,
        vec![
            UpdateEvent::Begin,
            UpdateEvent::LabelChecked { duplicate: false },
            resolved(Engine::Fuse),
            UpdateEvent::LockAcquired { revision: 5 },
        ],
    );
    assert!(matches!(actions[3], UpdateAction::GenerateLists));
}

#[test]
fn a_predicate_must_be_deterministic() {
    let mut interpreter = interpreter(true, false);
    let actions = run(
        &mut interpreter,
        vec![
            UpdateEvent::Begin,
            UpdateEvent::LabelChecked { duplicate: false },
            resolved(Engine::Fuse),
            UpdateEvent::LockAcquired { revision: 5 },
            UpdateEvent::FiltersPushed { deterministic: false },
        ],
    );
    match &actions[4] {
        UpdateAction::Fail { release, error } => {
            assert_eq!(*release, Some(5));
            assert_eq!(error.kind, ErrorKind::Unimplemented);
            assert_eq!(error.message, "Update must have deterministic predicate");
        }
        other => panic!("unexpected action {:?}", other),
    }
}

#[test]
fn stored_computed_columns_need_the_entitlement() {
    let events = |entitled: bool| {
        vec![
            UpdateEvent::Begin,
            UpdateEvent::LabelChecked { duplicate: false },
            resolved(Engine::Fuse),
            UpdateEvent::LockAcquired { revision: 5 },
            UpdateEvent::FiltersPushed { deterministic: true },
            UpdateEvent::ListsGenerated { computed_columns: 2 },
            UpdateEvent::LicenseChecked { entitled },
        ]
    };
    let mut denied = interpreter(true, false);
    let actions = run(&mut denied, events(false));
    assert!(matches!(actions[5], UpdateAction::CheckLicense));
    match &actions[6] {
        UpdateAction::Fail { release, error } => {
            assert_eq!(*release, Some(5));
            assert_eq!(error.kind, ErrorKind::LicenseDenied);
        }
        other => panic!("unexpected action {:?}", other),
    }
    let mut entitled = interpreter(true, false);
    let actions = run(&mut entitled, events(true));
    assert!(matches!(actions[6], UpdateAction::FastUpdate { query_row_id_col: false }));
}

#[test]
fn the_lock_is_given_back_wherever_the_statement_fails() {
    let mut full = up_to_fast_update();
    full.extend(vec![
        UpdateEvent::FastUpdated { snapshot_found: true },
        UpdateEvent::PartitionsRead,
        UpdateEvent::PipelineBuilt,
        UpdateEvent::IndexRefreshed,
        UpdateEvent::PipelineCompleted,
    ]);
    let count = full.len();
    for fail_at in 0..count {
        let mut events = up_to_fast_update();
        events.extend(vec![
            UpdateEvent::FastUpdated { snapshot_found: true },
            UpdateEvent::PartitionsRead,
            UpdateEvent::PipelineBuilt,
            UpdateEvent::IndexRefreshed,
            UpdateEvent::PipelineCompleted,
        ]);
        events.truncate(fail_at);
        events.push(UpdateEvent::Failed {
            error: ErrorCode::create(ErrorKind::Transient, "the store is away"),
        });
        let mut interpreter = interpreter(true, false);
        let actions = run(&mut interpreter, events);
        let locked = fail_at >= 4;
        match actions.last().unwrap() {
            UpdateAction::Fail { release, error } => {
                assert_eq!(*release, if locked { Some(77) } else { None });
                assert_eq!(error.kind, ErrorKind::Transient);
                assert_eq!(error.message, "the store is away");
            }
            other => panic!("unexpected action {:?}", other),
        }
        assert_eq!(released(&actions), if locked { vec![77] } else { vec![] });
        assert_eq!(interpreter.state.lock, None);
        assert_eq!(interpreter.state.stage, UpdateStage::Failed);
    }
}

#[test]
fn an_event_out_of_turn_fails_the_statement_and_gives_the_lock_back() {
    let mut interpreter = interpreter(true, false);
    let mut events = up_to_fast_update();
    events.push(UpdateEvent::PipelineBuilt);
    let actions = run(&mut interpreter, events);
    match actions.last().unwrap() {
        UpdateAction::Fail { release, error } => {
            assert_eq!(*release, Some(77));
            assert_eq!(error.kind, ErrorKind::Internal);
        }
        other => panic!("unexpected action {:?}", other),
    }
}

#[test]
fn a_subquery_needs_a_predicate_to_stand_in() {
    let err = UpdateInterpreter::try_create(plan(None, &[&[1]])).unwrap_err();
    assert_eq!(err.kind, ErrorKind::Internal);
    assert_eq!(err.message, "a subquery needs a predicate to stand in");
    assert!(UpdateInterpreter::try_create(plan(None, &[])).is_ok());
}

#[test]
fn the_columns_to_read_are_those_of_the_predicate() {
    let sorted = |mut columns: Vec<usize>| {
        columns.sort();
        columns
    };
    assert_eq!(plan(None, &[]).col_indices(), Vec::<usize>::new());
    assert_eq!(sorted(plan(Some(&[4, 1, 4, 2]), &[]).col_indices()), vec![1, 2, 4]);
    assert_eq!(
        sorted(plan(Some(&[4, 1]), &[&[7, 3], &[], &[3, 9]]).col_indices()),
        vec![3, 7, 9]
    );
    let set: HashSet<usize> = [5, 6, 5].into_iter().collect();
    assert_eq!(sorted(columns_of(&set)), vec![5, 6]);
}

fn block_part(location: &str) -> PartInfoPtr {
    FusePartInfo::create(
        location.to_string(),
        100,
        HashMap::new(),
        Compression::Lz4Raw,
        None,
        None,
        None,
    )
}

#[test]
fn the_plan_of_an_update_is_a_source_below_a_commit() {
    let snapshot =
        Arc::new(TableSnapshot { seq: 3, segments: vec![], summary: Statistics::zero() });
    let mut computed = BTreeMap::new();
    computed.insert(2, expr("a * 2"));
    let plan = UpdateInterpreter::build_physical_plan(
        Some(Filters { filter: expr("b > 5"), inverted_filter: expr("NOT b > 5") }),
        vec![(0, expr("a + 1"))],
        computed,
        Partitions::create(PartitionsShuffleKind::Mod, vec![block_part("b0")]),
        table(Engine::Fuse, false),
        vec![1],
        snapshot.clone(),
        CatalogInfo { name: "default".to_string() },
        false,
    )
    .unwrap();
    let sink = match plan {
        PhysicalPlan::CommitSink(sink) => sink,
        other => panic!("unexpected plan {:?}", other),
    };
    assert!(Arc::ptr_eq(&sink.snapshot, &snapshot));
    assert_eq!(sink.mutation_kind, MutationKind::Update);
    assert!(sink.update_stream_meta.is_empty());
    assert!(!sink.merge_meta);
    assert!(!sink.need_lock);
    assert_eq!(sink.table_info.ident, TableIdent { table_id: 9, seq: 4 });
    assert_eq!(sink.catalog_info.name, "default");
    let source = match *sink.input {
        PhysicalPlan::UpdateSource(source) => source,
        other => panic!("unexpected plan {:?}", other),
    };
    assert_eq!(source.parts.len(), 1);
    assert_eq!(source.filters.unwrap().filter.repr, "b > 5");
    assert_eq!(source.table_info.name, "t");
    assert_eq!(source.catalog_info.name, "default");
    assert_eq!(source.col_indices, vec![1]);
    assert!(!source.query_row_id_col);
    assert_eq!(source.update_list.len(), 1);
    assert_eq!(source.update_list[0].0, 0);
    assert_eq!(source.update_list[0].1.repr, "a + 1");
    assert_eq!(source.computed_list[&2].repr, "a * 2");
}

#[test]
fn lazy_partitions_make_the_commit_load_their_metadata() {
    let snapshot =
        Arc::new(TableSnapshot { seq: 3, segments: vec![], summary: Statistics::zero() });
    let lazy = FuseLazyPartInfo::create(0, Location { path: "s0".to_string(), version: 4 });
    let plan = UpdateInterpreter::build_physical_plan(
        None,
        vec![],
        BTreeMap::new(),
        Partitions::create(PartitionsShuffleKind::Mod, vec![lazy, block_part("b0")]),
        table(Engine::Fuse, false),
        vec![],
        snapshot,
        CatalogInfo { name: "default".to_string() },
        true,
    )
    .unwrap();
    match plan {
        PhysicalPlan::CommitSink(sink) => {
            assert!(sink.merge_meta);
            match *sink.input {
                PhysicalPlan::UpdateSource(source) => assert!(source.query_row_id_col),
                other => panic!("unexpected plan {:?}", other),
            }
        }
        other => panic!("unexpected plan {:?}", other),
    }
}
