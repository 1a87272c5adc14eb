use memdb::codes::FileError;
use memdb::deserialize::backup_step_decision;
use memdb::deserialize::db_size_query_sql;
use memdb::deserialize::BackupAction;
use memdb::deserialize::Connection;
use memdb::deserialize::StepOutcome;
use memdb::pragma::DatabaseName;

#[test]
fn round_trip_serialize_deserialize() {
    // A buffer fed to deserialize comes back byte-identical from serialize.
    let mut db = Connection::new();
    let image = vec![5, 4, 3, 2, 1];
    db.deserialize(&DatabaseName::Main, image.clone()).unwrap();
    let out = db.serialize(&DatabaseName::Main).unwrap().unwrap();
    assert_eq!(image, out);

    // Re-deserializing what serialize produced and serializing again still
    // yields the same bytes.
    let mut db2 = Connection::new();
    db2.deserialize(&DatabaseName::Main, out).unwrap();
    let out2 = db2.serialize(&DatabaseName::Main).unwrap().unwrap();
    assert_eq!(image, out2);
}

#[test]
fn serialize_unhooked_slot_gives_engine_image() {
    // A slot still on the engine's default driver serializes to the image
    // the engine's page backup produces for it.
    let db = Connection::new();
    assert_eq!(Some(Vec::new()), db.serialize(&DatabaseName::Main).unwrap());

    let mut db = Connection::new();
    db.attach("extra", vec![7, 7, 7]).unwrap();
    let got = db
        .serialize(&DatabaseName::Attached(String::from("extra")))
        .unwrap()
        .unwrap();
    assert_eq!(vec![7, 7, 7], got);
}

#[test]
fn serialize_non_existing_schema() {
    let mut db = Connection::new().into_borrowing();
    let missing = DatabaseName::Attached(String::from("does not exist"));
    assert_eq!(None, db.serialize(&missing).unwrap());
    assert_eq!(None, db.serialize_rc(&missing).unwrap());
    assert_eq!(Err(FileError::Io), db.deserialize(&missing, vec![1]));
}

#[test]
fn nul_in_schema_name_is_rejected() {
    let mut db = Connection::new();
    let bad = DatabaseName::Attached(String::from("a\0b"));
    assert_eq!(Err(FileError::Io), db.deserialize(&bad, vec![1]));
    assert_eq!(Err(FileError::Io), db.serialize(&bad));
    assert_eq!(Err(FileError::Io), db.attach("a\0b", Vec::new()));
}

#[test]
fn attach_duplicate_schema_fails() {
    let mut db = Connection::new();
    assert_eq!(Err(FileError::Io), db.attach("main", Vec::new()));
    db.attach("aux", Vec::new()).unwrap();
    assert_eq!(Err(FileError::Io), db.attach("aux", Vec::new()));
}

#[test]
fn serialize_rc_counts_references() {
    // A reference-counted serialization returns the bytes without copying
    // the file out of the slot, and each one raises the snapshot count that
    // write-protects the record; releasing lowers it again.
    let mut db = Connection::new().into_borrowing();
    db.deserialize(&DatabaseName::Main, vec![1, 2]).unwrap();
    assert_eq!(Some(0), db.snapshot_refs(&DatabaseName::Main));

    let snap = db.serialize_rc(&DatabaseName::Main).unwrap().unwrap();
    assert_eq!(vec![1, 2], snap);
    assert_eq!(Some(1), db.snapshot_refs(&DatabaseName::Main));

    let snap2 = db.serialize_rc(&DatabaseName::Main).unwrap().unwrap();
    assert_eq!(vec![1, 2], snap2);
    assert_eq!(Some(2), db.snapshot_refs(&DatabaseName::Main));

    db.release_rc(&DatabaseName::Main).unwrap();
    db.release_rc(&DatabaseName::Main).unwrap();
    assert_eq!(Some(0), db.snapshot_refs(&DatabaseName::Main));
    assert_eq!(
        Err(FileError::Io),
        db.release_rc(&DatabaseName::Main)
    );
}

#[test]
fn serialize_rc_on_unhooked_slot_is_none() {
    let mut db = Connection::new().into_borrowing();
    assert_eq!(None, db.serialize_rc(&DatabaseName::Main).unwrap());
    assert_eq!(None, db.snapshot_refs(&DatabaseName::Main));
    assert_eq!(Err(FileError::Io), db.release_rc(&DatabaseName::Main));
}

#[test]
fn deserialize_read_only_attachment() {
    let mut db = Connection::new().into_borrowing();
    let bytes = vec![9, 8, 7];
    db.deserialize_read_only(&DatabaseName::Main, &bytes).unwrap();
    assert_eq!(Some(bytes), db.serialize(&DatabaseName::Main).unwrap());
}

#[test]
fn deserialize_resizable_attachment() {
    let mut db = Connection::new().into_borrowing();
    db.deserialize_resizable(&DatabaseName::Main, vec![1, 1, 2, 3]).unwrap();
    assert_eq!(
        Some(vec![1, 1, 2, 3]),
        db.serialize(&DatabaseName::Main).unwrap()
    );
}

#[test]
fn reattach_replaces_hooked_file() {
    // Attaching over a hooked slot closes the old file and installs the new
    // one; outstanding state such as the snapshot count does not carry over.
    let mut db = Connection::new().into_borrowing();
    db.deserialize(&DatabaseName::Main, vec![1]).unwrap();
    db.serialize_rc(&DatabaseName::Main).unwrap().unwrap();
    assert_eq!(Some(1), db.snapshot_refs(&DatabaseName::Main));
    db.deserialize(&DatabaseName::Main, vec![2]).unwrap();
    assert_eq!(Some(0), db.snapshot_refs(&DatabaseName::Main));
    assert_eq!(Some(vec![2]), db.serialize(&DatabaseName::Main).unwrap());
}

#[test]
fn into_borrowing_and_back() {
    let mut db = Connection::new();
    db.deserialize(&DatabaseName::Main, vec![3]).unwrap();
    let borrowing = db.into_borrowing();
    assert_eq!(Some(vec![3]), borrowing.conn().serialize(&DatabaseName::Main).unwrap());
    let db = borrowing.into_inner();
    assert_eq!(Some(vec![3]), db.serialize(&DatabaseName::Main).unwrap());
}

#[test]
fn backup_step_decisions() {
    assert_eq!(BackupAction::Continue, backup_step_decision(StepOutcome::More));
    assert_eq!(BackupAction::Finish, backup_step_decision(StepOutcome::Done));
    assert_eq!(
        BackupAction::Fail(FileError::Busy),
        backup_step_decision(StepOutcome::Busy)
    );
    assert_eq!(
        BackupAction::Fail(FileError::Locked),
        backup_step_decision(StepOutcome::Locked)
    );
}

#[test]
fn db_size_query_text() {
    assert_eq!(
        "SELECT page_count * page_size FROM 'main'.pragma_page_count, 'main'.pragma_page_size",
        db_size_query_sql("main")
    );
    // A quote in the schema name is doubled inside the quoted literal.
    assert_eq!(
        "SELECT page_count * page_size FROM 'a''b'.pragma_page_count, 'a''b'.pragma_page_size",
        db_size_query_sql("a'b")
    );
}
