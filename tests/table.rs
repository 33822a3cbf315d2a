use tsdb_core::{
    column_qualified_name, table_manifest_dir, transform_projection, AlterKind, AlterTableRequest,
    DropTableRequest, OptionKey, ProtocolAction, ReadableSize, TableError, TableOptions, Ttl,
};
use tsdb_core::table::recovery::{
    check_region_schemas, recover_table_info, ScanError, regions_to_alter, RawTableInfo, TableMetaAction, TableMetaActionList,
    TableRecoveryError,
};

fn entry(k: &str, v: &str) -> (String, String) {
    (k.to_string(), v.to_string())
}

fn lookup<'a>(map: &'a [(String, String)], key: &str) -> Option<&'a str> {
    map.iter().find(|(k, _)| k == key).map(|(_, v)| v.as_str())
}

#[test]
fn test_table_manifest_dir() {
    assert_eq!("demo/manifest/", table_manifest_dir("demo"));
    assert_eq!("numbers/manifest/", table_manifest_dir("numbers"));
}

#[test]
fn qualified_column_name_joins_with_dots() {
    assert_eq!("t.r.c", column_qualified_name("t", "r", "c"));
}

#[test]
fn test_convert_hashmap_between_table_options() {
    let options = TableOptions {
        write_buffer_size: Some(ReadableSize::mb(128)),
        ttl: Some(Ttl::from_secs(1000)),
        extra_options: vec![],
        compaction_time_window: Some(1677652502),
    };
    let serialized_map = options.to_map();
    let serialized = TableOptions::try_from(&serialized_map).unwrap();
    assert_eq!(options, serialized);

    let options = TableOptions {
        write_buffer_size: None,
        ttl: None,
        extra_options: vec![],
        compaction_time_window: None,
    };
    let serialized_map = options.to_map();
    let serialized = TableOptions::try_from(&serialized_map).unwrap();
    assert_eq!(options, serialized);

    let options = TableOptions {
        write_buffer_size: Some(ReadableSize::mb(128)),
        ttl: Some(Ttl::from_secs(1000)),
        extra_options: vec![entry("a", "A")],
        compaction_time_window: Some(1677652502),
    };
    let serialized_map = options.to_map();
    let serialized = TableOptions::try_from(&serialized_map).unwrap();
    assert_eq!(options, serialized);
}

#[test]
fn options_map_holds_the_written_values() {
    let options = TableOptions {
        write_buffer_size: Some(ReadableSize::mb(128)),
        ttl: Some(Ttl::from_secs(1000)),
        extra_options: vec![entry("a", "A")],
        compaction_time_window: Some(-5),
    };
    let map = options.to_map();
    assert_eq!(Some("128MiB"), lookup(&map, "write_buffer_size"));
    assert_eq!(Some("16m 40s"), lookup(&map, "ttl"));
    assert_eq!(Some("-5"), lookup(&map, "compaction_time_window"));
    assert_eq!(Some("A"), lookup(&map, "a"));
    assert_eq!(4, map.len());
}

#[test]
fn options_are_read_from_a_map() {
    let map = vec![
        entry("write_buffer_size", "2KB"),
        entry("ttl", "2h 37min"),
        entry("regions", "1,2"),
        entry("compaction_time_window", "+60"),
        entry("x", "y"),
    ];
    let options = TableOptions::try_from(&map).unwrap();
    assert_eq!(Some(ReadableSize(2048)), options.write_buffer_size);
    assert_eq!(Some(Ttl { secs: 9420, nanos: 0 }), options.ttl);
    assert_eq!(Some(60), options.compaction_time_window);
    assert_eq!(vec![entry("x", "y")], options.extra_options);
}

#[test]
fn malformed_options_are_refused() {
    let bad_size = vec![entry("write_buffer_size", "12 parsecs")];
    assert_eq!(
        Err(TableError::ParseTableOption { key: OptionKey::WriteBufferSize }),
        TableOptions::try_from(&bad_size).map(|_| ())
    );
    let bad_ttl = vec![entry("ttl", "soon")];
    assert_eq!(
        Err(TableError::ParseTableOption { key: OptionKey::Ttl }),
        TableOptions::try_from(&bad_ttl).map(|_| ())
    );
    let bad_window = vec![entry("compaction_time_window", "99999999999999999999")];
    assert_eq!(
        Err(TableError::ParseTableOption { key: OptionKey::CompactionTimeWindow }),
        TableOptions::try_from(&bad_window).map(|_| ())
    );
    let empty_window = vec![entry("compaction_time_window", "-")];
    assert!(TableOptions::try_from(&empty_window).is_err());
}

#[test]
fn extreme_time_windows_round_trip() {
    for w in [i64::MIN, i64::MAX, 0] {
        let options = TableOptions {
            write_buffer_size: Some(ReadableSize(1)),
            ttl: None,
            extra_options: vec![],
            compaction_time_window: Some(w),
        };
        let map = options.to_map();
        assert_eq!(options, TableOptions::try_from(&map).unwrap());
    }
}

#[test]
fn sizes_are_written_in_their_largest_exact_unit() {
    let cases = [
        (0u64, "0KiB"),
        (1, "1B"),
        (1536, "1536B"),
        (2048, "2KiB"),
        (3 << 30, "3GiB"),
        (1 << 50, "1PiB"),
    ];
    for (bytes, text) in cases {
        let options = TableOptions {
            write_buffer_size: Some(ReadableSize(bytes)),
            ttl: None,
            extra_options: vec![],
            compaction_time_window: None,
        };
        let map = options.to_map();
        assert_eq!(Some(text), lookup(&map, "write_buffer_size"));
        assert_eq!(options, TableOptions::try_from(&map).unwrap());
    }
}

#[test]
fn drop_request_refers_to_its_table() {
    let req = DropTableRequest {
        catalog_name: "greptime".to_string(),
        schema_name: "public".to_string(),
        table_name: "demo".to_string(),
    };
    let r = req.table_ref();
    assert_eq!(("greptime", "public", "demo"), (r.catalog, r.schema, r.table));
}

#[test]
fn rename_is_recognised() {
    let rename = AlterTableRequest {
        catalog_name: "c".to_string(),
        schema_name: "s".to_string(),
        table_name: "t".to_string(),
        alter_kind: AlterKind::RenameTable { new_table_name: "u".to_string() },
    };
    assert!(rename.is_rename_table());
    let drop = AlterTableRequest {
        catalog_name: "c".to_string(),
        schema_name: "s".to_string(),
        table_name: "t".to_string(),
        alter_kind: AlterKind::DropColumns { names: vec!["x".to_string()] },
    };
    assert!(!drop.is_rename_table());
}

#[test]
fn projection_maps_table_columns_to_region_columns() {
    let table = vec!["ts".to_string(), "host".to_string(), "cpu".to_string()];
    let region = vec!["host".to_string(), "ts".to_string(), "cpu".to_string()];
    let all = transform_projection("t", &table, "r", &region, None).unwrap();
    assert_eq!(Some(vec![1, 0, 2]), all);
    let some = transform_projection("t", &table, "r", &region, Some(&vec![2, 0])).unwrap();
    assert_eq!(Some(vec![2, 1]), some);
    let short_region = vec!["ts".to_string()];
    let err = transform_projection("t", &table, "r0", &short_region, None).unwrap_err();
    assert_eq!("t.r0.host", err.column_qualified_name);
}


fn info(version: u64, name: &str) -> RawTableInfo {
    RawTableInfo { table_id: 1024, version, name: name.to_string() }
}

#[test]
fn table_info_is_the_last_change() {
    let lists = vec![
        (
            0,
            TableMetaActionList {
                actions: vec![TableMetaAction::Protocol(ProtocolAction::new()), TableMetaAction::Change(info(0, "demo"))],
            },
        ),
        (1, TableMetaActionList { actions: vec![TableMetaAction::Change(info(1, "renamed"))] }),
    ];
    let (recovered, last, protocol) = recover_table_info(&lists).unwrap();
    assert_eq!(Some(ProtocolAction::new()), protocol);
    assert_eq!(Some(info(1, "renamed")), recovered);
    assert_eq!(1, last);
    let (nothing, last, _) = recover_table_info(&vec![]).unwrap();
    assert_eq!(None, nothing);
    assert_eq!(0, last);
}

#[test]
fn table_removal_is_refused_on_recovery() {
    let lists = vec![(0, TableMetaActionList { actions: vec![TableMetaAction::Remove] })];
    assert_eq!(Err(TableRecoveryError::RemoveNotSupported), recover_table_info(&lists).map(|_| ()));
}

#[test]
fn altered_regions_are_skipped() {
    assert_eq!(vec![0, 2], regions_to_alter(&vec![3, 4, 1], 3));
    assert!(regions_to_alter(&vec![5, 6], 4).is_empty());
}

#[test]
fn region_schemas_must_agree() {
    assert_eq!(Ok(3), check_region_schemas(&vec![3, 3, 3]));
    assert_eq!(Err(ScanError::RegionSchemaMismatch { region: 2 }), check_region_schemas(&vec![3, 3, 4]));
    assert_eq!(Err(ScanError::InvalidTable), check_region_schemas(&vec![]));
}
