use arc_replace::interception::FileState;
use arc_replace::interception::InterceptionPoint;
use arc_replace::interception::Table2Entry;
use arc_replace::interception::try_install;
use arc_replace::interception::wants_replacement;
use arc_replace::interception::FLAG_POST_RESOLVE;
use arc_replace::interception::FLAG_TABLE_INSERT;

fn loaded_entry() -> Table2Entry {
    Table2Entry {
        data: Some(vec![9, 9, 9]),
        state: FileState::Loaded,
        flags: 7,
        ref_count: 2,
    }
}

fn unloaded_null_entry() -> Table2Entry {
    Table2Entry {
        data: None,
        state: FileState::Unloaded,
        flags: 0,
        ref_count: 1,
    }
}

#[test]
fn loaded_entry_is_left_untouched_at_both_points() {
    for point in [InterceptionPoint::PostResolve, InterceptionPoint::TableInsert] {
        let mut entry = loaded_entry();
        assert!(!wants_replacement(point, &entry));
        let installed = try_install(point, &mut entry, vec![1, 2, 3]);
        assert!(!installed);
        assert_eq!(entry.data, Some(vec![9, 9, 9]));
        assert_eq!(entry.state, FileState::Loaded);
        assert_eq!(entry.flags, 7);
        assert_eq!(entry.ref_count, 2);
    }
}

#[test]
fn unloaded_null_entry_is_replaced_with_the_override_bytes() {
    let contents = vec![0xAB, 0xCD, 0xEF];

    let mut entry = unloaded_null_entry();
    assert!(try_install(InterceptionPoint::PostResolve, &mut entry, contents.clone()));
    assert_eq!(entry.data, Some(contents.clone()));
    assert_eq!(entry.state, FileState::Loaded);
    assert_eq!(entry.flags, FLAG_POST_RESOLVE);
    assert_eq!(entry.ref_count, 1);

    let mut entry = unloaded_null_entry();
    assert!(try_install(InterceptionPoint::TableInsert, &mut entry, contents.clone()));
    assert_eq!(entry.data, Some(contents));
    assert_eq!(entry.state, FileState::Loaded);
    assert_eq!(entry.flags, FLAG_TABLE_INSERT);
    assert_eq!(entry.ref_count, 1);
}

#[test]
fn table_insert_spares_an_entry_the_host_already_populated() {
    // Unloaded but with a non-null data pointer: the host's own path filled it
    // between registration and this check
    let mut entry = Table2Entry {
        data: Some(vec![5]),
        state: FileState::Unloaded,
        flags: 3,
        ref_count: 4,
    };
    assert!(!try_install(InterceptionPoint::TableInsert, &mut entry, vec![1]));
    assert_eq!(entry.data, Some(vec![5]));
    assert_eq!(entry.state, FileState::Unloaded);
    assert_eq!(entry.flags, 3);

    // the post-resolve point has no such clause and does substitute
    let mut entry = Table2Entry {
        data: Some(vec![5]),
        state: FileState::Unloaded,
        flags: 3,
        ref_count: 4,
    };
    assert!(try_install(InterceptionPoint::PostResolve, &mut entry, vec![1]));
    assert_eq!(entry.data, Some(vec![1]));
    assert_eq!(entry.state, FileState::Loaded);
    assert_eq!(entry.flags, FLAG_POST_RESOLVE);
}

#[test]
fn loading_entry_with_data_is_replaced_at_table_insert() {
    let mut entry = Table2Entry {
        data: Some(vec![5]),
        state: FileState::Loading,
        flags: 0,
        ref_count: 0,
    };
    assert!(try_install(InterceptionPoint::TableInsert, &mut entry, vec![2]));
    assert_eq!(entry.data, Some(vec![2]));
    assert_eq!(entry.state, FileState::Loaded);
    assert_eq!(entry.flags, FLAG_TABLE_INSERT);
}
