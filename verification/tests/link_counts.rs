use os::fs::inode::{
    linkat, open_file, record_created_inode, unlink, LinkManager, LinkatAction, OSInode, OSInodeInner, OpenAction, OpenFlags,
    StatMode, UnlinkAction, CREATE, RDONLY, RDWR, TRUNC, WRONLY,
};

#[test]
fn root_starts_with_one_link() {
    let mut m = LinkManager::new(1);
    assert_eq!(m.get_link_count(1), 1);
}

#[test]
fn unknown_inode_is_recorded_with_one_link() {
    let mut m = LinkManager::new(1);
    assert_eq!(m.get_link_count(7), 1);
    // the lookup recorded it: one more link makes two
    m.increase_link_count(7);
    assert_eq!(m.get_link_count(7), 2);
}

#[test]
fn lookup_twice_is_stable() {
    let mut m = LinkManager::new(1);
    assert_eq!(m.get_link_count(9), 1);
    assert_eq!(m.get_link_count(9), 1);
}

#[test]
fn increase_then_decrease_restores() {
    let mut m = LinkManager::new(1);
    m.increase_link_count(5);
    m.increase_link_count(5);
    assert_eq!(m.get_link_count(5), 2);
    m.increase_link_count(5);
    assert_eq!(m.descrease_link_count(5), Some(()));
    assert_eq!(m.get_link_count(5), 2);
}

#[test]
fn last_link_removes_inode() {
    let mut m = LinkManager::new(1);
    m.increase_link_count(3);
    assert_eq!(m.descrease_link_count(3), None);
    // gone from the table: a lookup records it afresh with one link
    m.increase_link_count(3);
    m.increase_link_count(3);
    assert_eq!(m.get_link_count(3), 2);
}

#[test]
fn decrease_of_unknown_inode_is_none() {
    let mut m = LinkManager::new(1);
    assert_eq!(m.descrease_link_count(42), None);
    assert_eq!(m.get_link_count(1), 1);
}

#[test]
fn read_write_of_flags() {
    assert_eq!(OpenFlags::from_bits(RDONLY).unwrap().read_write(), (true, false));
    assert_eq!(OpenFlags::from_bits(WRONLY).unwrap().read_write(), (false, true));
    assert_eq!(OpenFlags::from_bits(RDWR).unwrap().read_write(), (true, true));
    assert_eq!(OpenFlags::from_bits(CREATE | WRONLY).unwrap().read_write(), (false, true));
    assert_eq!(OpenFlags::from_bits(CREATE).unwrap().read_write(), (true, true));
    assert_eq!(OpenFlags::from_bits(WRONLY | RDWR).unwrap().read_write(), (false, true));
}

#[test]
fn flags_from_bits() {
    assert!(OpenFlags::from_bits(4).is_none());
    assert!(OpenFlags::from_bits(1 << 11).is_none());
    let f = OpenFlags::from_bits(CREATE | TRUNC | RDWR).unwrap();
    assert_eq!(f.bits(), 1538);
    assert!(f.contains(CREATE));
    assert!(f.contains(TRUNC));
    assert!(!f.contains(WRONLY));
    assert!(!f.is_empty());
    assert!(OpenFlags::from_bits(0).unwrap().is_empty());
}

#[test]
fn open_with_create() {
    let f = OpenFlags::from_bits(CREATE | RDWR).unwrap();
    assert_eq!(
        open_file(&f, true),
        OpenAction::Open { clear: true, readable: true, writable: true }
    );
    assert_eq!(open_file(&f, false), OpenAction::Create { readable: true, writable: true });
}

#[test]
fn open_without_create() {
    let f = OpenFlags::from_bits(RDONLY).unwrap();
    assert_eq!(
        open_file(&f, true),
        OpenAction::Open { clear: false, readable: true, writable: false }
    );
    assert_eq!(open_file(&f, false), OpenAction::NotFound);
    let t = OpenFlags::from_bits(TRUNC | WRONLY).unwrap();
    assert_eq!(
        open_file(&t, true),
        OpenAction::Open { clear: true, readable: false, writable: true }
    );
}

#[test]
fn linkat_same_name_is_refused() {
    let mut m = LinkManager::new(1);
    let a = linkat(&mut m, "file", "file", Some(4), false);
    assert_eq!(a, LinkatAction::Reject);
    assert_eq!(a.code(), -1);
}

#[test]
fn linkat_missing_old_is_refused() {
    let mut m = LinkManager::new(1);
    assert_eq!(linkat(&mut m, "a", "b", None, false), LinkatAction::Reject);
}

#[test]
fn linkat_existing_new_is_refused() {
    let mut m = LinkManager::new(1);
    assert_eq!(linkat(&mut m, "a", "b", Some(4), true), LinkatAction::Reject);
    assert_eq!(m.get_link_count(4), 1);
}

#[test]
fn linkat_adds_a_link() {
    let mut m = LinkManager::new(1);
    m.increase_link_count(4);
    let a = linkat(&mut m, "a", "b", Some(4), false);
    assert_eq!(a, LinkatAction::Link { inode_id: 4 });
    assert_eq!(a.code(), 0);
    assert_eq!(m.get_link_count(4), 2);
}

#[test]
fn unlink_after_link() {
    let mut m = LinkManager::new(1);
    m.increase_link_count(4);
    linkat(&mut m, "a", "b", Some(4), false);
    let first = unlink(&mut m, Some(4));
    assert_eq!(first, UnlinkAction::Remove { last_link: false });
    assert_eq!(first.code(), 0);
    let second = unlink(&mut m, Some(4));
    assert_eq!(second, UnlinkAction::Remove { last_link: true });
}

#[test]
fn unlink_missing_file() {
    let mut m = LinkManager::new(1);
    let a = unlink(&mut m, None);
    assert_eq!(a, UnlinkAction::NotFound);
    assert_eq!(a.code(), -1);
}

#[test]
fn unlink_unrecorded_inode_is_last_link() {
    let mut m = LinkManager::new(1);
    assert_eq!(unlink(&mut m, Some(8)), UnlinkAction::Remove { last_link: true });
}

#[test]
fn link_count_growth_check() {
    let mut m = LinkManager::new(1);
    assert!(m.link_count_can_grow(1));
    assert!(m.link_count_can_grow(77));
    m.increase_link_count(77);
    assert!(m.link_count_can_grow(77));
}

#[test]
fn open_inode_state() {
    let mut f = OSInodeInner::new(false, "inode");
    assert_eq!(f.offset(), 0);
    assert_eq!(f.mode(), StatMode::File);
    assert_eq!(*f.inode(), "inode");
    assert!(f.advance(512));
    assert!(f.advance(100));
    assert!(!f.advance(0));
    assert_eq!(f.offset(), 612);
    let d = OSInodeInner::new(true, 3u32);
    assert_eq!(d.mode(), StatMode::Dir);
}

#[test]
fn stat_reports_links() {
    let mut m = LinkManager::new(1);
    m.increase_link_count(6);
    m.increase_link_count(6);
    let f = OSInodeInner::new(false, ());
    let st = f.stat(&mut m, 6);
    assert_eq!(st.dev, 0);
    assert_eq!(st.ino, 6);
    assert_eq!(st.mode, StatMode::File);
    assert_eq!(st.nlink, 2);
    assert_eq!(st.pad, [0u64; 7]);
    let st = f.stat(&mut m, 11);
    assert_eq!(st.nlink, 1);
    assert_eq!(m.get_link_count(11), 1);
}

#[test]
fn open_inode_modes_and_position() {
    let mut f = OSInode::new(true, false, false, 5u32);
    assert!(f.readable());
    assert!(!f.writable());
    assert_eq!(f.inner().mode(), StatMode::File);
    assert!(f.advance(10));
    assert!(!f.advance(0));
    assert_eq!(f.inner().offset(), 10);
    assert_eq!(*f.inner().inode(), 5);
    let d = OSInode::new(false, true, true, 6u32);
    assert!(d.writable());
    assert_eq!(d.inner().mode(), StatMode::Dir);
}

#[test]
fn linkat_of_boot_loaded_inode_counts_two_links() {
    let mut m = LinkManager::new(1);
    // inode 9 was loaded at boot: not recorded, so it has its one link
    assert_eq!(linkat(&mut m, "app", "alias", Some(9), false), LinkatAction::Link { inode_id: 9 });
    assert_eq!(m.get_link_count(9), 2);
    assert_eq!(unlink(&mut m, Some(9)), UnlinkAction::Remove { last_link: false });
    assert_eq!(m.get_link_count(9), 1);
    assert_eq!(unlink(&mut m, Some(9)), UnlinkAction::Remove { last_link: true });
}

#[test]
fn created_file_gets_one_link() {
    let mut m = LinkManager::new(1);
    let f = OpenFlags::from_bits(CREATE | WRONLY).unwrap();
    assert_eq!(open_file(&f, false), OpenAction::Create { readable: false, writable: true });
    record_created_inode(&mut m, 12);
    assert_eq!(m.get_link_count(12), 1);
    assert_eq!(unlink(&mut m, Some(12)), UnlinkAction::Remove { last_link: true });
}
