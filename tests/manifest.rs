use tsdb_core::{
    FileMeta, ManifestError, RawRegionMetadata, RegionChange, RegionEdit, RegionManifest,
    RegionManifestCheckpointer, RegionMetaAction, RegionMetaActionList, RegionRemove, MAX_VERSION,
};

fn build_region_meta() -> RawRegionMetadata {
    RawRegionMetadata { id: 0, name: "region-0".to_string(), version: 0 }
}

fn build_altered_region_meta() -> RawRegionMetadata {
    RawRegionMetadata { id: 0, name: "region-0".to_string(), version: 1 }
}

fn file(id: u128) -> FileMeta {
    FileMeta { region_id: 0, file_id: id, level: 0, file_size: 1024 }
}

fn build_region_edit(sequence: u64, files_to_add: &[u128], files_to_remove: &[u128]) -> RegionEdit {
    RegionEdit {
        region_version: 0,
        flushed_sequence: Some(sequence),
        files_to_add: files_to_add.iter().map(|f| file(*f)).collect(),
        files_to_remove: files_to_remove.iter().map(|f| file(*f)).collect(),
    }
}

fn change(meta: RawRegionMetadata, committed_sequence: u64) -> RegionMetaActionList {
    RegionMetaActionList::with_action(RegionMetaAction::Change(RegionChange {
        metadata: meta,
        committed_sequence,
    }))
}

fn assert_scan(manifest: &RegionManifest, start_version: u64, expected: u64) {
    let lists = manifest.scan(0, MAX_VERSION);
    let mut actions = 0;
    for (v, _) in lists {
        assert_eq!(v, start_version + actions);
        actions += 1;
    }
    assert_eq!(expected, actions);
}

#[test]
fn test_region_manifest() {
    let mut manifest = RegionManifest::with_checkpointer("/manifest/", None, None);
    let region_meta = build_region_meta();

    assert!(manifest.scan(0, MAX_VERSION).is_empty());

    assert_eq!(Ok(0), manifest.update(change(build_region_meta(), 99)));

    let lists = manifest.scan(0, MAX_VERSION);
    let (v, action_list) = &lists[0];
    assert_eq!(0, *v);
    assert_eq!(2, action_list.actions.len());
    assert!(matches!(&action_list.actions[0], RegionMetaAction::Protocol(_)));
    match &action_list.actions[1] {
        RegionMetaAction::Change(c) => {
            assert_eq!(c.metadata, region_meta);
            assert_eq!(c.committed_sequence, 99);
        }
        _ => unreachable!(),
    }

    let edits = RegionMetaActionList::new(vec![
        RegionMetaAction::Edit(build_region_edit(1, &[11], &[])),
        RegionMetaAction::Edit(build_region_edit(2, &[12, 13], &[])),
    ]);
    assert_eq!(Ok(1), manifest.update(edits));

    let lists = manifest.scan(0, MAX_VERSION);
    assert_eq!(2, lists.len());
    let (v, action_list) = &lists[0];
    assert_eq!(0, *v);
    assert_eq!(2, action_list.actions.len());
    assert!(matches!(&action_list.actions[0], RegionMetaAction::Protocol(_)));
    match &action_list.actions[1] {
        RegionMetaAction::Change(c) => {
            assert_eq!(c.metadata, region_meta);
            assert_eq!(c.committed_sequence, 99);
        }
        _ => unreachable!(),
    }
    let (v, action_list) = &lists[1];
    assert_eq!(1, *v);
    assert_eq!(2, action_list.actions.len());
    assert!(matches!(&action_list.actions[0], RegionMetaAction::Edit(_)));
    assert!(matches!(&action_list.actions[1], RegionMetaAction::Edit(_)));
}

#[test]
fn test_region_manifest_checkpoint() {
    let mut manifest = RegionManifest::with_checkpointer("/manifest/", None, Some(50));
    let file_a: u128 = 1;
    let file_ids: [u128; 2] = [2, 3];

    let actions = vec![
        change(build_region_meta(), 1),
        RegionMetaActionList::new(vec![
            RegionMetaAction::Edit(build_region_edit(2, &[file_a], &[])),
            RegionMetaAction::Edit(build_region_edit(3, &file_ids, &[file_a])),
        ]),
        change(build_altered_region_meta(), 99),
    ];
    for action in actions {
        manifest.update(action).unwrap();
    }
    assert!(manifest.last_checkpoint().is_none());
    assert_scan(&manifest, 0, 3);
    manifest.set_flushed_manifest_version(2);

    let mut checkpoint_versions = vec![];

    let checkpoint = manifest.do_checkpoint().unwrap().unwrap();
    let last_checkpoint = manifest.last_checkpoint().unwrap();
    assert_eq!(checkpoint, last_checkpoint);
    assert_eq!(checkpoint.compacted_actions, 3);
    assert_eq!(checkpoint.last_version, 2);
    checkpoint_versions.push(2);
    let data = checkpoint.checkpoint.as_ref().unwrap();
    assert_eq!(99, data.committed_sequence);
    assert_eq!(build_altered_region_meta(), data.metadata);
    let version = data.version.as_ref().unwrap();
    assert_eq!(1, version.manifest_version);
    assert_eq!(Some(3), version.flushed_sequence);
    assert_eq!(2, version.file_count());
    assert!(version.contains_file(file_ids[0]) && version.contains_file(file_ids[1]));
    assert!(manifest.scan(0, MAX_VERSION).is_empty());

    assert!(manifest.do_checkpoint().unwrap().is_none());
    assert_eq!(checkpoint, manifest.last_checkpoint().unwrap());

    let new_file: u128 = 4;
    let actions = vec![
        change(build_region_meta(), 200),
        RegionMetaActionList::new(vec![RegionMetaAction::Edit(build_region_edit(
            201,
            &[new_file],
            &file_ids,
        ))]),
    ];
    for action in actions {
        manifest.update(action).unwrap();
    }
    assert_scan(&manifest, 3, 2);

    manifest.set_flushed_manifest_version(3);
    let checkpoint = manifest.do_checkpoint().unwrap().unwrap();
    assert_eq!(checkpoint, manifest.last_checkpoint().unwrap());
    assert_eq!(checkpoint.compacted_actions, 1);
    assert_eq!(checkpoint.last_version, 3);
    checkpoint_versions.push(3);
    let data = checkpoint.checkpoint.as_ref().unwrap();
    assert_eq!(200, data.committed_sequence);
    assert_eq!(build_region_meta(), data.metadata);
    let version = data.version.as_ref().unwrap();
    assert_eq!(1, version.manifest_version);
    assert_eq!(Some(3), version.flushed_sequence);
    assert_eq!(2, version.file_count());
    assert!(version.contains_file(file_ids[0]) && version.contains_file(file_ids[1]));

    assert_scan(&manifest, 4, 1);
    manifest.set_flushed_manifest_version(4);
    let checkpoint = manifest.do_checkpoint().unwrap().unwrap();
    assert_eq!(checkpoint, manifest.last_checkpoint().unwrap());
    assert_eq!(checkpoint.compacted_actions, 1);
    assert_eq!(checkpoint.last_version, 4);
    checkpoint_versions.push(4);
    let data = checkpoint.checkpoint.as_ref().unwrap();
    assert_eq!(200, data.committed_sequence);
    assert_eq!(build_region_meta(), data.metadata);
    let version = data.version.as_ref().unwrap();
    assert_eq!(4, version.manifest_version);
    assert_eq!(Some(201), version.flushed_sequence);
    assert_eq!(1, version.file_count());
    assert!(version.contains_file(new_file));

    assert!(manifest.scan(0, MAX_VERSION).is_empty());

    assert_eq!(3, manifest.stored_checkpoint_count());
    manifest.gc();
    for v in checkpoint_versions {
        if v < 4 {
            assert!(!manifest.has_stored_checkpoint(v));
        } else {
            assert!(manifest.has_stored_checkpoint(v));
            assert_eq!(checkpoint, manifest.last_checkpoint().unwrap());
        }
    }
}

#[test]
fn recovery_replays_from_the_checkpoint() {
    let mut manifest = RegionManifest::with_checkpointer("/manifest/", None, None);
    manifest.update(change(build_region_meta(), 5)).unwrap();
    let edit = RegionMetaActionList::new(vec![RegionMetaAction::Edit(build_region_edit(6, &[7], &[]))]);
    manifest.update(edit).unwrap();
    let (_, before) = manifest.recover().unwrap();
    manifest.set_flushed_manifest_version(0);
    manifest.do_checkpoint().unwrap().unwrap();
    let (_, after) = manifest.recover().unwrap();
    assert_eq!(before, after);
    assert_eq!(5, after.committed_sequence);
    let version = after.version.as_ref().unwrap();
    assert_eq!(1, version.manifest_version);
    assert!(version.contains_file(7));
}

#[test]
fn removal_stops_checkpoint_and_recovery() {
    let mut manifest = RegionManifest::with_checkpointer("/manifest/", None, None);
    manifest.update(change(build_region_meta(), 1)).unwrap();
    manifest
        .update(RegionMetaActionList::with_action(RegionMetaAction::Remove(RegionRemove {
            region_id: 0,
        })))
        .unwrap();
    manifest.set_flushed_manifest_version(5);
    assert_eq!(Err(ManifestError::ManifestCheckpoint), manifest.do_checkpoint().map(|_| ()));
    assert!(manifest.last_checkpoint().is_none());
    assert_eq!(Err(ManifestError::RemoveNotSupported), manifest.recover().map(|_| ()));
}

#[test]
fn flushed_version_never_goes_back() {
    let mut manifest = RegionManifest::with_checkpointer("/manifest/", None, None);
    manifest.set_flushed_manifest_version(4);
    manifest.set_flushed_manifest_version(2);
    assert_eq!(4, manifest.flushed_manifest_version());
    let mut checkpointer = RegionManifestCheckpointer::new();
    checkpointer.set_flushed_manifest_version(9);
    checkpointer.set_flushed_manifest_version(3);
    assert_eq!(9, checkpointer.flushed_manifest_version());
}

#[test]
fn checkpoint_stops_at_the_flushed_version() {
    let mut manifest = RegionManifest::with_checkpointer("/manifest/", None, None);
    for seq in 0..4 {
        manifest.update(change(build_region_meta(), seq)).unwrap();
    }
    assert!(manifest.do_checkpoint().unwrap().is_some());
    assert_eq!(0, manifest.last_checkpoint().unwrap().last_version);
    manifest.set_flushed_manifest_version(100);
    let checkpoint = manifest.do_checkpoint().unwrap().unwrap();
    assert_eq!(3, checkpoint.last_version);
    assert_eq!(3, checkpoint.compacted_actions);
    assert_eq!(Some(3), manifest.last_version());
}
