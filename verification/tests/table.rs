use fuse_mutation::error::ErrorCode;
use fuse_mutation::error::ErrorKind;
use fuse_mutation::parquet::do_read_data;
use fuse_mutation::parquet::ParquetReadPlan;
use fuse_mutation::part::ParquetFilePart;
use fuse_mutation::part::ParquetPart;
use fuse_mutation::part::ParquetRowGroupPart;
use fuse_mutation::part::PartInfo;
use fuse_mutation::part::PartInfoPtr;
use fuse_mutation::part::Partitions;
use fuse_mutation::part::PartitionsShuffleKind;
use fuse_mutation::plan::DataField;
use fuse_mutation::plan::DataSchema;
use fuse_mutation::scalar::bytes_equal;
use fuse_mutation::scalar::DataType;
use fuse_mutation::scalar::Scalar;
use fuse_mutation::scalar::TypeKind;
use fuse_mutation::snapshot::duplicate_locations;
use fuse_mutation::snapshot::BlockMeta;
use fuse_mutation::snapshot::Statistics;
use fuse_mutation::part::Location;
use fuse_mutation::table::duplicate_strings;
use fuse_mutation::table::Engine;
use fuse_mutation::table::TableField;
use fuse_mutation::table::TableSchema;
use std::sync::Arc;

fn field(name: &str, id: u32) -> TableField {
    TableField {
        name: name.to_string(),
        data_type: DataType::of(TypeKind::String),
        default_expr: Some("''".to_string()),
        computed_expr: None,
        column_id: id,
    }
}

fn file(name: &str) -> PartInfoPtr {
    Arc::new(PartInfo::Parquet(ParquetPart::ParquetFiles(ParquetFilePart {
        file: name.to_string(),
        compressed_size: 10,
        estimated_uncompressed_size: 30,
    })))
}

fn row_group(name: &str) -> PartInfoPtr {
    Arc::new(PartInfo::Parquet(ParquetPart::ParquetRSRowGroup(ParquetRowGroupPart {
        location: name.to_string(),
        row_group: 0,
        num_rows: 5,
    })))
}

#[test]
fn a_field_is_found_by_its_name() {
    let schema = TableSchema {
        fields: vec![field("a", 0), field("b", 1), field("a", 2)],
        next_column_id: 3,
    };
    assert_eq!(schema.num_fields(), 3);
    assert_eq!(schema.index_of(&"a".to_string()).unwrap(), 0);
    assert_eq!(schema.index_of(&"b".to_string()).unwrap(), 1);
    let err = schema.index_of(&"c".to_string()).unwrap_err();
    assert_eq!(err.kind, ErrorKind::SchemaMismatch);
    assert_eq!(err.message, "Unable to get field named \"c\"");
}

#[test]
fn a_new_field_gets_the_next_column_id() {
    let mut schema = TableSchema { fields: vec![field("a", 0), field("b", 1)], next_column_id: 5 };
    schema.add_column(&field("c", 99), 1).unwrap();
    let names: Vec<&str> = schema.fields.iter().map(|f| f.name.as_str()).collect();
    assert_eq!(names, vec!["a", "c", "b"]);
    assert_eq!(schema.fields[1].column_id, 5);
    assert_eq!(schema.fields[1].default_expr.as_deref(), Some("''"));
    assert_eq!(schema.next_column_id, 6);
    let err = schema.add_column(&field("a", 0), 0).unwrap_err();
    assert_eq!(err.message, "add column a already exist");
    assert_eq!(schema.fields.len(), 3);
    assert_eq!(schema.next_column_id, 6);
    let copy = schema.duplicate();
    assert_eq!(copy.fields.len(), 3);
    assert_eq!(copy.fields[1].name, "c");
    assert_eq!(copy.next_column_id, 6);
}

#[test]
fn engines_have_names_and_abilities() {
    assert_eq!(Engine::Fuse.name(), "FUSE");
    assert_eq!(Engine::View.name(), "VIEW");
    assert_eq!(Engine::Stream.name(), "STREAM");
    assert_eq!(Engine::Memory.name(), "MEMORY");
    assert!(Engine::Fuse.is_physical());
    assert!(!Engine::Memory.is_physical());
    assert!(Engine::Memory.is_alterable());
    assert!(!Engine::View.is_alterable());
    assert!(!Engine::Stream.is_alterable());
}

#[test]
fn totals_add_up_and_come_off() {
    let a = Statistics {
        row_count: 10,
        block_count: 1,
        uncompressed_byte_size: 100,
        compressed_byte_size: 30,
    };
    let b = Statistics {
        row_count: 5,
        block_count: 2,
        uncompressed_byte_size: 50,
        compressed_byte_size: 20,
    };
    let sum = a.merge(&b).unwrap();
    assert_eq!(
        sum,
        Statistics {
            row_count: 15,
            block_count: 3,
            uncompressed_byte_size: 150,
            compressed_byte_size: 50,
        }
    );
    assert_eq!(sum.deduct(&b), Some(a));
    assert_eq!(a.deduct(&sum), None);
    assert_eq!(a.deduct(&a), Some(Statistics::zero()));
    let most = Statistics { compressed_byte_size: u64::MAX - 29, ..Statistics::zero() };
    assert_eq!(a.merge(&most), None);
    let fits = Statistics { compressed_byte_size: u64::MAX - 30, ..Statistics::zero() };
    assert_eq!(a.merge(&fits).unwrap().compressed_byte_size, u64::MAX);
    let block = BlockMeta {
        location: Location { path: "b".to_string(), version: 1 },
        row_count: 7,
        block_size: 70,
        file_size: 20,
    };
    assert_eq!(
        block.statistics(),
        Statistics {
            row_count: 7,
            block_count: 1,
            uncompressed_byte_size: 70,
            compressed_byte_size: 20,
        }
    );
    assert_eq!(block.duplicate().location.path, "b");
}

#[test]
fn scalars_compare_by_kind_and_value() {
    assert!(Scalar::Null.equals(&Scalar::Null));
    assert!(Scalar::Int64(-1).equals(&Scalar::Int64(-1)));
    assert!(!Scalar::Int64(1).equals(&Scalar::UInt64(1)));
    assert!(!Scalar::Boolean(true).equals(&Scalar::Boolean(false)));
    assert!(Scalar::String(b"a".to_vec()).equals(&Scalar::String(b"a".to_vec())));
    assert!(!Scalar::String(b"a".to_vec()).equals(&Scalar::Variant(b"a".to_vec())));
    assert!(!Scalar::String(b"a".to_vec()).equals(&Scalar::String(b"ab".to_vec())));
    assert!(Scalar::Variant(vec![1, 2]).duplicate().equals(&Scalar::Variant(vec![1, 2])));
    assert!(Scalar::Null.is_null());
    assert!(!Scalar::Boolean(false).is_null());
    assert!(bytes_equal(&vec![], &vec![]));
    assert!(!bytes_equal(&vec![1, 2], &vec![1, 3]));
}

#[test]
fn types_wrap_and_unwrap_nulls() {
    let plain = DataType::of(TypeKind::Variant);
    assert!(!plain.is_nullable());
    assert!(plain.wrap_nullable().is_nullable());
    assert_eq!(plain.wrap_nullable().remove_nullable(), plain);
    assert_eq!(plain.remove_nullable(), plain);
    let schema = DataSchema {
        fields: vec![DataField { name: "v".to_string(), data_type: plain.wrap_nullable() }],
    };
    assert_eq!(schema.num_fields(), 1);
    assert_eq!(schema.field(0).data_type, DataType { kind: TypeKind::Variant, nullable: true });
}

#[test]
fn errors_carry_their_kind_and_message() {
    let e = ErrorCode::create(ErrorKind::Conflict, "taken");
    assert_eq!(e.kind(), ErrorKind::Conflict);
    assert_eq!(e.message(), "taken");
    let copy = e.duplicate();
    assert_eq!(copy.kind, ErrorKind::Conflict);
    assert_eq!(copy.message, "taken");
}

#[test]
fn copies_hold_what_the_originals_hold() {
    let strings = vec!["a".to_string(), "".to_string()];
    assert_eq!(duplicate_strings(&strings), strings);
    let locations = vec![Location { path: "p".to_string(), version: 3 }];
    let copy = duplicate_locations(&locations);
    assert_eq!(copy.len(), 1);
    assert!(copy[0].equals(&locations[0]));
}

#[test]
fn whole_files_ask_for_a_pruner_and_a_reader_of_their_own() {
    let files_last = Partitions::create(
        PartitionsShuffleKind::Sequential,
        vec![file("f0"), row_group("g0"), file("f1"), row_group("g1")],
    );
    assert!(files_last.get(3).is_lazy());
    assert_eq!(
        do_read_data(&files_last, 8, true),
        ParquetReadPlan { pruner: true, full_file_reader: true, topk: true, num_threads: 8 }
    );
    let groups_only =
        Partitions::create(PartitionsShuffleKind::Sequential, vec![row_group("g0"), row_group("g1")]);
    assert_eq!(
        do_read_data(&groups_only, 2, false),
        ParquetReadPlan { pruner: false, full_file_reader: false, topk: false, num_threads: 2 }
    );
    let none = Partitions::create(PartitionsShuffleKind::Sequential, vec![]);
    assert_eq!(
        do_read_data(&none, 1, false),
        ParquetReadPlan { pruner: false, full_file_reader: false, topk: false, num_threads: 1 }
    );
}
