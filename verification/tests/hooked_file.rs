use memdb::codes::FileError;
use memdb::codes::LOCK_EXCLUSIVE;
use memdb::codes::LOCK_RESERVED;
use memdb::codes::LOCK_SHARED;
use memdb::hooked_file::FileControlOp;
use memdb::hooked_file::FileControlReply;
use memdb::hooked_file::HookedFile;
use memdb::mem_file::MemFile;

fn owned_file(bytes: Vec<u8>, size_max: u64) -> HookedFile {
    HookedFile::new(MemFile::owned(bytes), size_max)
}

#[test]
fn read_within_bounds() {
    let h = owned_file(vec![10, 20, 30, 40], 1024);
    let (buf, r) = h.read(1, 2);
    assert_eq!(Ok(()), r);
    assert_eq!(vec![20, 30], buf);
}

#[test]
fn read_past_end_zero_fills() {
    // Reading past the end reports a short read; the available prefix holds
    // the stored bytes and the rest is zero.
    let h = owned_file(vec![1, 2, 3], 1024);
    let (buf, r) = h.read(2, 4);
    assert_eq!(Err(FileError::ShortRead), r);
    assert_eq!(vec![3, 0, 0, 0], buf);

    let (buf, r) = h.read(5, 2);
    assert_eq!(Err(FileError::ShortRead), r);
    assert_eq!(vec![0, 0], buf);
}

#[test]
fn write_in_place() {
    let mut h = owned_file(vec![1, 2, 3], 1024);
    assert_eq!(Ok(()), h.write(1, &[9]));
    let (buf, r) = h.read(0, 3);
    assert_eq!(Ok(()), r);
    assert_eq!(vec![1, 9, 3], buf);
    assert_eq!(3, h.file_size());
}

#[test]
fn write_growth_zero_fills_gap() {
    // Writing at offset 5 with current length 3 zero-fills bytes [3, 5) and
    // stores the payload at [5, 7).
    let mut h = owned_file(vec![1, 2, 3], 1024);
    assert_eq!(Ok(()), h.write(5, &[8, 9]));
    assert_eq!(7, h.file_size());
    let (buf, r) = h.read(0, 7);
    assert_eq!(Ok(()), r);
    assert_eq!(vec![1, 2, 3, 0, 0, 8, 9], buf);
}

#[test]
fn write_beyond_size_limit_fails_full() {
    // The buffer starts with capacity equal to its length, so this write
    // needs growth, and the limit forbids it.
    let mut h = owned_file(vec![1, 2, 3], 4);
    assert_eq!(Err(FileError::Full), h.write(0, &[1, 2, 3, 4, 5]));
    assert_eq!(3, h.file_size());
    let (buf, _) = h.read(0, 3);
    assert_eq!(vec![1, 2, 3], buf);

    // Raising the cap above the resulting length permits the same write.
    match h.file_control(FileControlOp::SizeLimit { limit: 10 }) {
        FileControlReply::SizeLimit(l) => assert_eq!(10, l),
        other => panic!("expected a size-limit reply, got {:?}", other),
    }
    assert_eq!(Ok(()), h.write(0, &[1, 2, 3, 4, 5]));
    assert_eq!(5, h.file_size());
}

#[test]
fn size_limit_negotiation() {
    let mut h = owned_file(vec![0; 8], 100);
    // A request below the current length clamps to the current length.
    match h.file_control(FileControlOp::SizeLimit { limit: 3 }) {
        FileControlReply::SizeLimit(l) => assert_eq!(8, l),
        other => panic!("expected a size-limit reply, got {:?}", other),
    }
    // A negative request restores the previous cap.
    match h.file_control(FileControlOp::SizeLimit { limit: -1 }) {
        FileControlReply::SizeLimit(l) => assert_eq!(8, l),
        other => panic!("expected a size-limit reply, got {:?}", other),
    }
    // Anything else is adopted.
    match h.file_control(FileControlOp::SizeLimit { limit: 64 }) {
        FileControlReply::SizeLimit(l) => assert_eq!(64, l),
        other => panic!("expected a size-limit reply, got {:?}", other),
    }
}

#[test]
fn truncate_monotonicity() {
    // Truncate never extends: growth fails full, shrinking succeeds and the
    // size query reflects the new length exactly.
    let mut h = owned_file(vec![1, 2, 3], 1024);
    assert_eq!(Err(FileError::Full), h.truncate(10));
    assert_eq!(3, h.file_size());
    assert_eq!(Ok(()), h.truncate(2));
    assert_eq!(2, h.file_size());
    let (buf, r) = h.read(0, 2);
    assert_eq!(Ok(()), r);
    assert_eq!(vec![1, 2], buf);
}

#[test]
fn snapshot_write_protection() {
    // While a shared snapshot is outstanding every write and truncate fails
    // read-only; releasing it restores write access.
    let mut h = owned_file(vec![1, 2, 3], 1024);
    assert_eq!(Ok(()), h.add_snapshot());
    assert_eq!(1, h.snapshot_refs());
    assert_eq!(Err(FileError::ReadOnly), h.write(0, &[9]));
    assert_eq!(Err(FileError::ReadOnly), h.truncate(1));
    assert_eq!(Ok(()), h.release_snapshot());
    assert_eq!(0, h.snapshot_refs());
    assert_eq!(Ok(()), h.write(0, &[9]));
    let (buf, _) = h.read(0, 3);
    assert_eq!(vec![9, 2, 3], buf);
    assert_eq!(Err(FileError::Io), h.release_snapshot());
}

#[test]
fn read_only_storage_rejects() {
    // An immutable attachment rejects all writes and truncates read-only,
    // and any lock stronger than shared.
    let mut h = HookedFile::new(MemFile::read_only(vec![1, 2, 3]), 1024);
    assert_eq!(Err(FileError::ReadOnly), h.write(0, &[9]));
    assert_eq!(Err(FileError::ReadOnly), h.truncate(1));
    assert_eq!(Err(FileError::ReadOnly), h.lock(LOCK_RESERVED));
    assert_eq!(Err(FileError::ReadOnly), h.lock(LOCK_EXCLUSIVE));
    assert_eq!(Ok(()), h.lock(LOCK_SHARED));
    assert_eq!(Ok(()), h.unlock(LOCK_SHARED));
    let (buf, r) = h.read(0, 3);
    assert_eq!(Ok(()), r);
    assert_eq!(vec![1, 2, 3], buf);
}

#[test]
fn locks_on_writable_storage() {
    let h = owned_file(vec![1], 1024);
    assert_eq!(Ok(()), h.lock(LOCK_EXCLUSIVE));
    assert_eq!(Ok(()), h.unlock(LOCK_EXCLUSIVE));
}

#[test]
fn map_lease_blocks_growth() {
    // While a map lease is outstanding, growth past the accounted capacity
    // would relocate mapped pages, so it fails full; in-place writes still
    // succeed, and releasing the lease permits growth again.
    let mut h = owned_file(vec![1, 2, 3], 1024);
    assert!(h.fetch(0, 3));
    assert_eq!(Ok(()), h.write(0, &[9]));
    assert_eq!(Err(FileError::Full), h.write(0, &[9, 9, 9, 9]));
    assert_eq!(Ok(()), h.unfetch());
    assert_eq!(Ok(()), h.write(0, &[9, 9, 9, 9]));
    assert_eq!(4, h.file_size());
}

#[test]
fn map_out_of_bounds_is_refused() {
    let mut h = owned_file(vec![1, 2, 3], 1024);
    assert!(!h.fetch(1, 3));
    assert_eq!(Err(FileError::Io), h.unfetch());
}

#[test]
fn file_control_name_and_unknown() {
    let mut h = owned_file(vec![1, 2, 3], 1024);
    match h.file_control(FileControlOp::VfsName { ptr: 0xdead }) {
        FileControlReply::Name(s) => assert_eq!("rust_memdb(0xdead,3)", s),
        other => panic!("expected a name reply, got {:?}", other),
    }
    match h.file_control(FileControlOp::Other) {
        FileControlReply::NotFound => (),
        other => panic!("expected not-found, got {:?}", other),
    }
}

#[test]
fn sync_and_characteristics() {
    let h = owned_file(vec![], 1024);
    assert_eq!(Ok(()), h.sync());
    assert_eq!(0x1601, h.device_characteristics());
}

#[test]
fn get_mut_respects_policy() {
    let mut h = owned_file(vec![1, 2, 3], 1024);
    let m = h.get_mut().unwrap();
    m.set_len(2);
    assert_eq!(2, h.file_size());
    assert_eq!(Ok(()), h.add_snapshot());
    assert!(h.get_mut().is_none());
    assert_eq!(Ok(()), h.release_snapshot());
    assert!(h.get_mut().is_some());
    let mut ro = HookedFile::new(MemFile::read_only(vec![1]), 1024);
    assert!(ro.get_mut().is_none());
}

#[test]
fn close_hands_buffer_back() {
    let h = owned_file(vec![1, 2, 3], 1024);
    let f = h.close();
    assert_eq!(&[1, 2, 3], f.as_slice());
}
