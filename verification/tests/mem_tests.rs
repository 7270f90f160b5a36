use shmem_ipc::mem::{
    add_seals, create_sized_memfd, oneshot_seals, raw_memfd, seal_read_only, Seal,
};

#[test]
fn create_mmap() {
    let opts = memfd::MemfdOptions::default().allow_sealing(true);
    let memfd = opts.create("test-ro").unwrap();
    memfd.as_file().set_len(16384).unwrap();

    seal_read_only(&memfd).unwrap();
    assert!(memfd.seals().unwrap().contains(&memfd::FileSeal::SealShrink));
    assert!(memfd.seals().unwrap().contains(&memfd::FileSeal::SealWrite));
    // The memfd is now read-only, cannot create a writable mapping.
    assert!(raw_memfd(&memfd).is_err());
}

#[test]
fn create_mmap_raw() {
    let opts = memfd::MemfdOptions::default().allow_sealing(true);
    let memfd = opts.create("test-raw").unwrap();
    memfd.as_file().set_len(16384).unwrap();
    let mmap_raw = raw_memfd(&memfd).unwrap();
    assert_eq!(mmap_raw.len(), 16384);
    // The memfd now has a writable mapping, cannot seal it read-only.
    assert!(seal_read_only(&memfd).is_err());
}

#[test]
fn sized_memfd_is_zero_filled() {
    let memfd = create_sized_memfd("sized-test", 4096).unwrap();
    assert_eq!(memfd.as_file().metadata().unwrap().len(), 4096);
    let mmap = raw_memfd(&memfd).unwrap();
    assert_eq!(mmap.len(), 4096);
}

#[test]
fn oneshot_seal_set() {
    let v = oneshot_seals();
    assert_eq!(v, vec![Seal::Grow, Seal::Shrink, Seal::Write, Seal::Sealing]);

    let memfd = create_sized_memfd("oneshot-test", 4096).unwrap();
    add_seals(&memfd, &v).unwrap();
    let have = memfd.seals().unwrap();
    assert!(have.contains(&memfd::FileSeal::SealGrow));
    assert!(have.contains(&memfd::FileSeal::SealShrink));
    assert!(have.contains(&memfd::FileSeal::SealSeal));
    assert!(have.contains(&memfd::FileSeal::SealWrite));
    // fully sealed: growing the file is now refused
    assert!(memfd.as_file().set_len(8192).is_err());
}
