use fuse_mutation::error::ErrorKind;
use fuse_mutation::part::columns_meta_equal;
use fuse_mutation::part::hash_location;
use fuse_mutation::part::BlockMetaIndex;
use fuse_mutation::part::ColumnMeta;
use fuse_mutation::part::Compression;
use fuse_mutation::part::FuseLazyPartInfo;
use fuse_mutation::part::FusePartInfo;
use fuse_mutation::part::Location;
use fuse_mutation::part::ParquetFilePart;
use fuse_mutation::part::ParquetPart;
use fuse_mutation::part::ParquetRowGroupPart;
use fuse_mutation::part::PartInfo;
use fuse_mutation::part::PartInfoPtr;
use fuse_mutation::part::Partitions;
use fuse_mutation::part::PartitionsShuffleKind;
use fuse_mutation::part::RowRange;
use fuse_mutation::part::Timestamp;
use fuse_mutation::prune::prune_partitions;
use fuse_mutation::scalar::Scalar;
use std::collections::hash_map::DefaultHasher;
use std::collections::HashMap;
use std::hash::Hash;
use std::hash::Hasher;
use std::sync::Arc;

fn columns() -> HashMap<u32, ColumnMeta> {
    let mut columns = HashMap::new();
    columns.insert(0, ColumnMeta { offset: 4, len: 100, num_values: 10 });
    columns.insert(1, ColumnMeta { offset: 104, len: 50, num_values: 10 });
    columns
}

fn index(range: Option<RowRange>, page_size: usize) -> BlockMetaIndex {
    BlockMetaIndex {
        segment_idx: 2,
        block_idx: 3,
        range,
        page_size,
        block_id: 7,
        block_location: "1/2/_b/b.parquet".to_string(),
        segment_location: "1/2/_sg/s.mpk".to_string(),
        snapshot_location: Some("1/2/_ss/ss.mpk".to_string()),
    }
}

fn block_part(location: &str, index: Option<BlockMetaIndex>) -> PartInfoPtr {
    FusePartInfo::create(
        location.to_string(),
        10,
        columns(),
        Compression::Lz4Raw,
        Some((Scalar::Int64(-3), Scalar::Int64(9))),
        index,
        Some(Timestamp { secs: 1_700_000_000, nanos: 42 }),
    )
}

fn lazy_part(idx: usize, path: &str) -> PartInfoPtr {
    FuseLazyPartInfo::create(idx, Location { path: path.to_string(), version: 4 })
}

#[test]
fn create_keeps_every_field() {
    let part = block_part("1/2/_b/b.parquet", Some(index(None, 5)));
    let fuse = FusePartInfo::from_part(&part).unwrap();
    assert_eq!(fuse.location, "1/2/_b/b.parquet");
    assert_eq!(fuse.nums_rows, 10);
    assert_eq!(fuse.columns_meta.len(), 2);
    assert_eq!(fuse.columns_meta[&1].offset, 104);
    assert_eq!(fuse.compression, Compression::Lz4Raw);
    assert_eq!(fuse.create_on, Some(Timestamp { secs: 1_700_000_000, nanos: 42 }));
    assert!(matches!(fuse.sort_min_max, Some((Scalar::Int64(-3), Scalar::Int64(9)))));
    assert_eq!(fuse.block_meta_index().unwrap().block_id, 7);
}

#[test]
fn from_part_refuses_a_lazy_partition() {
    let part = lazy_part(0, "1/2/_sg/s.mpk");
    let err = FusePartInfo::from_part(&part).unwrap_err();
    assert_eq!(err.kind, ErrorKind::Internal);
    assert_eq!(err.message, "Cannot downcast from PartInfo to FusePartInfo.");
}

#[test]
fn range_comes_from_the_block_index() {
    let with_range = block_part("a", Some(index(Some(RowRange { start: 2, end: 6 }), 4)));
    let fuse = FusePartInfo::from_part(&with_range).unwrap();
    assert_eq!(fuse.range(), Some(&RowRange { start: 2, end: 6 }));
    let without_range = block_part("a", Some(index(None, 4)));
    assert_eq!(FusePartInfo::from_part(&without_range).unwrap().range(), None);
    let without_index = block_part("a", None);
    assert_eq!(FusePartInfo::from_part(&without_index).unwrap().range(), None);
    assert!(FusePartInfo::from_part(&without_index).unwrap().block_meta_index().is_none());
}

#[test]
fn page_size_falls_back_to_the_row_count() {
    let with_index = block_part("a", Some(index(None, 4)));
    assert_eq!(FusePartInfo::from_part(&with_index).unwrap().page_size(), 4);
    let without_index = block_part("a", None);
    assert_eq!(FusePartInfo::from_part(&without_index).unwrap().page_size(), 10);
}

#[test]
fn equal_partitions_are_equal_and_hash_alike() {
    let a = block_part("1/2/_b/b.parquet", Some(index(None, 5)));
    let b = block_part("1/2/_b/b.parquet", Some(index(None, 5)));
    assert!(a.equals(&b));
    assert!(b.equals(&a));
    assert_eq!(a.hash(), b.hash());
    assert!(FusePartInfo::from_part(&a).unwrap().equals(&b));
}

#[test]
fn any_differing_field_makes_partitions_differ() {
    let a = block_part("1/2/_b/b.parquet", Some(index(None, 5)));
    assert!(!a.equals(&block_part("1/2/_b/c.parquet", Some(index(None, 5)))));
    assert!(!a.equals(&block_part("1/2/_b/b.parquet", Some(index(None, 6)))));
    assert!(!a.equals(&block_part("1/2/_b/b.parquet", None)));
    assert!(!a.equals(&block_part(
        "1/2/_b/b.parquet",
        Some(index(Some(RowRange { start: 0, end: 1 }), 5)),
    )));
    let other_rows = FusePartInfo::create(
        "1/2/_b/b.parquet".to_string(),
        11,
        columns(),
        Compression::Lz4Raw,
        Some((Scalar::Int64(-3), Scalar::Int64(9))),
        Some(index(None, 5)),
        Some(Timestamp { secs: 1_700_000_000, nanos: 42 }),
    );
    assert!(!a.equals(&other_rows));
    let mut fewer = columns();
    fewer.remove(&1);
    let other_columns = FusePartInfo::create(
        "1/2/_b/b.parquet".to_string(),
        10,
        fewer,
        Compression::Lz4Raw,
        Some((Scalar::Int64(-3), Scalar::Int64(9))),
        Some(index(None, 5)),
        Some(Timestamp { secs: 1_700_000_000, nanos: 42 }),
    );
    assert!(!a.equals(&other_columns));
    let other_bounds = FusePartInfo::create(
        "1/2/_b/b.parquet".to_string(),
        10,
        columns(),
        Compression::Lz4Raw,
        Some((Scalar::Int64(-3), Scalar::Int64(10))),
        Some(index(None, 5)),
        Some(Timestamp { secs: 1_700_000_000, nanos: 42 }),
    );
    assert!(!a.equals(&other_bounds));
}

#[test]
fn partitions_of_different_kinds_differ() {
    let eager = block_part("1/2/_sg/s.mpk", None);
    let lazy = lazy_part(0, "1/2/_sg/s.mpk");
    assert!(!eager.equals(&lazy));
    assert!(!lazy.equals(&eager));
    // Both name the same place, so they hash alike all the same.
    assert_eq!(eager.hash(), lazy.hash());
}

#[test]
fn lazy_partitions_compare_by_index_and_location() {
    let a = lazy_part(3, "1/2/_sg/s.mpk");
    assert!(a.equals(&lazy_part(3, "1/2/_sg/s.mpk")));
    assert!(!a.equals(&lazy_part(4, "1/2/_sg/s.mpk")));
    assert!(!a.equals(&lazy_part(3, "1/2/_sg/t.mpk")));
    let other_version =
        FuseLazyPartInfo::create(3, Location { path: "1/2/_sg/s.mpk".to_string(), version: 5 });
    assert!(!a.equals(&other_version));
    match &*a {
        PartInfo::FuseLazy(lazy) => {
            assert_eq!(lazy.segment_index, 3);
            assert_eq!(lazy.segment_location.path, "1/2/_sg/s.mpk");
            assert_eq!(lazy.segment_location.version, 4);
        }
        _ => panic!("a lazy partition was created"),
    }
}

#[test]
fn the_hash_is_that_of_the_location_string() {
    for location in ["", "a", "1/2/_b/b.parquet", "caf\u{e9}/\u{4e2d}"] {
        let mut state = DefaultHasher::new();
        location.to_string().hash(&mut state);
        let expected = state.finish();
        assert_eq!(hash_location(&location.to_string()), expected);
        assert_eq!(block_part(location, None).hash(), expected);
        assert_eq!(lazy_part(1, location).hash(), expected);
    }
    assert_ne!(hash_location(&"a".to_string()), hash_location(&"b".to_string()));
}

#[test]
fn column_tables_compare_by_their_entries() {
    let a = columns();
    let mut b = HashMap::new();
    b.insert(1, ColumnMeta { offset: 104, len: 50, num_values: 10 });
    b.insert(0, ColumnMeta { offset: 4, len: 100, num_values: 10 });
    assert!(columns_meta_equal(&a, &b));
    b.insert(0, ColumnMeta { offset: 5, len: 100, num_values: 10 });
    assert!(!columns_meta_equal(&a, &b));
    b.insert(0, ColumnMeta { offset: 4, len: 100, num_values: 10 });
    b.insert(2, ColumnMeta { offset: 0, len: 0, num_values: 0 });
    assert!(!columns_meta_equal(&a, &b));
    assert!(!columns_meta_equal(&b, &a));
    assert!(columns_meta_equal(&HashMap::new(), &HashMap::new()));
}

#[test]
fn a_partition_list_puts_lazy_partitions_last() {
    let list = Partitions::create(
        PartitionsShuffleKind::Mod,
        vec![
            lazy_part(0, "s0"),
            block_part("b0", None),
            lazy_part(1, "s1"),
            block_part("b1", None),
        ],
    );
    assert_eq!(list.kind, PartitionsShuffleKind::Mod);
    assert_eq!(list.len(), 4);
    assert!(list.is_lazy());
    assert!(!list.is_empty());
    assert!(list.get(0).equals(&block_part("b0", None)));
    assert!(list.get(1).equals(&block_part("b1", None)));
    assert!(list.get(2).equals(&lazy_part(0, "s0")));
    assert!(list.get(3).equals(&lazy_part(1, "s1")));
    assert!(list.last().unwrap().equals(&lazy_part(1, "s1")));
    let mut seen_lazy = false;
    for i in 0..list.len() {
        let lazy = list.get(i).is_lazy();
        assert!(lazy || !seen_lazy);
        seen_lazy = seen_lazy || lazy;
    }
}

#[test]
fn a_list_without_lazy_partitions_is_not_lazy() {
    let list = Partitions::create(
        PartitionsShuffleKind::Sequential,
        vec![block_part("b0", None), block_part("b1", None)],
    );
    assert!(!list.is_lazy());
    assert!(list.last().unwrap().equals(&block_part("b1", None)));
    let empty = Partitions::create(PartitionsShuffleKind::Sequential, vec![]);
    assert!(empty.is_empty());
    assert!(empty.last().is_none());
    assert!(!empty.is_lazy());
}

#[test]
fn parquet_partitions_compare_and_hash_by_their_file() {
    let file = Arc::new(PartInfo::Parquet(ParquetPart::ParquetFiles(ParquetFilePart {
        file: "f.parquet".to_string(),
        compressed_size: 10,
        estimated_uncompressed_size: 30,
    })));
    let group = Arc::new(PartInfo::Parquet(ParquetPart::ParquetRSRowGroup(ParquetRowGroupPart {
        location: "f.parquet".to_string(),
        row_group: 0,
        num_rows: 5,
    })));
    assert!(file.is_lazy());
    assert!(!group.is_lazy());
    assert!(file.equals(&file));
    assert!(!file.equals(&group));
    assert_eq!(file.hash(), group.hash());
    assert_eq!(file.hash(), hash_location(&"f.parquet".to_string()));
}

#[test]
fn pruning_keeps_the_candidates_that_may_match() {
    let candidates = || {
        vec![block_part("b0", None), block_part("b1", None), lazy_part(0, "s0"), block_part("b2", None)]
    };
    let kept = prune_partitions(candidates(), &vec![true, false, true, true]);
    assert_eq!(kept.len(), 3);
    assert!(kept[0].equals(&block_part("b0", None)));
    assert!(kept[1].equals(&lazy_part(0, "s0")));
    assert!(kept[2].equals(&block_part("b2", None)));
    assert!(prune_partitions(candidates(), &vec![false; 4]).is_empty());
    assert_eq!(prune_partitions(candidates(), &vec![true; 4]).len(), 4);
    // Planning again over what was kept, by the same verdicts, keeps it all.
    let again = prune_partitions(kept, &vec![true, true, true]);
    assert_eq!(again.len(), 3);
    assert!(prune_partitions(vec![], &vec![]).is_empty());
}
