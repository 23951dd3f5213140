//! Tests of the address-space model: mapping, the free-area search,
//! reads and writes, and demand paging.

use process_core::mm::{AddressSpace, MapError, MappingFlags};

fn rw_user() -> MappingFlags {
    MappingFlags { read: true, write: true, execute: false, user: true }
}

fn ro_user() -> MappingFlags {
    MappingFlags { read: true, write: false, execute: false, user: true }
}

fn space() -> AddressSpace {
    AddressSpace::new(0x1000, 0x3fff_f000).expect("aligned bounds")
}

#[test]
fn new_rejects_unaligned_bounds() {
    assert_eq!(AddressSpace::new(0x1001, 0x1000).err(), Some(MapError::OutOfAddressSpace));
    assert_eq!(AddressSpace::new(0x1000, 0x1001).err(), Some(MapError::OutOfAddressSpace));
}

#[test]
fn map_alloc_rejects_bad_ranges() {
    let mut s = space();
    assert_eq!(s.map_alloc(0x1001, 0x1000, rw_user(), true), Err(MapError::InvalidRange));
    assert_eq!(s.map_alloc(0x1000, 0, rw_user(), true), Err(MapError::InvalidRange));
    assert_eq!(s.map_alloc(0, 0x1000, rw_user(), true), Err(MapError::OutOfAddressSpace));
    assert_eq!(s.map_alloc(0x4000_0000, 0x1000, rw_user(), true), Err(MapError::OutOfAddressSpace));
}

#[test]
fn map_alloc_rejects_conflicts() {
    let mut s = space();
    assert_eq!(s.map_alloc(0x2000, 0x2000, rw_user(), true), Ok(()));
    assert_eq!(s.map_alloc(0x3000, 0x1000, rw_user(), true), Err(MapError::MapConflict));
    assert_eq!(s.map_alloc(0x1000, 0x2000, rw_user(), true), Err(MapError::MapConflict));
    assert_eq!(s.map_alloc(0x4000, 0x1000, rw_user(), true), Ok(()));
}

#[test]
fn write_and_read_roundtrip() {
    let mut s = space();
    s.map_alloc(0x2000, 0x2000, rw_user(), true).unwrap();
    s.write(0x2ffe, &vec![0xaa, 0xbb, 0xcc, 0xdd]).unwrap();
    let back = s.read_bytes(0x2ffe, 4).unwrap();
    assert_eq!(back, vec![0xaa, 0xbb, 0xcc, 0xdd]);
    // fresh pages read as zero
    assert_eq!(s.read_bytes(0x2000, 2).unwrap(), vec![0, 0]);
}

#[test]
fn write_fails_outside_mappings() {
    let mut s = space();
    s.map_alloc(0x2000, 0x1000, rw_user(), true).unwrap();
    assert_eq!(s.write(0x3000, &vec![1]), Err(MapError::BadAddress));
    assert_eq!(s.write(0x2fff, &vec![1, 2]), Err(MapError::BadAddress));
    assert_eq!(s.read_bytes(0x1000, 1), Err(MapError::BadAddress));
}

#[test]
fn lazy_mapping_faults_pages_in() {
    let mut s = space();
    s.map_alloc(0x2000, 0x2000, rw_user(), false).unwrap();
    // nothing backed yet: a kernel read fails
    assert_eq!(s.read_bytes(0x2000, 1), Err(MapError::BadAddress));
    // a write fault on the first page is a demand-paging event
    let access = MappingFlags { read: false, write: true, execute: false, user: true };
    assert!(s.handle_page_fault(0x2004, access));
    assert_eq!(s.read_bytes(0x2000, 4).unwrap(), vec![0, 0, 0, 0]);
    // the second page still has no backing
    assert_eq!(s.read_bytes(0x3000, 1), Err(MapError::BadAddress));
    // a second fault on the same page is not a demand-paging event
    assert!(!s.handle_page_fault(0x2004, access));
}

#[test]
fn fault_requires_granted_rights() {
    let mut s = space();
    s.map_alloc(0x2000, 0x1000, ro_user(), false).unwrap();
    let write_access = MappingFlags { read: false, write: true, execute: false, user: true };
    let read_access = MappingFlags { read: true, write: false, execute: false, user: true };
    assert!(!s.handle_page_fault(0x2000, write_access));
    assert!(s.handle_page_fault(0x2000, read_access));
}

#[test]
fn fault_outside_mappings_is_rejected() {
    let mut s = space();
    let access = MappingFlags { read: true, write: false, execute: false, user: true };
    assert!(!s.handle_page_fault(0x9000, access));
}

#[test]
fn find_free_area_skips_mapped_ranges() {
    let mut s = space();
    s.map_alloc(0x2000, 0x2000, rw_user(), true).unwrap();
    // the hint lands inside the mapping; the search lands right behind it
    assert_eq!(s.find_free_area(0x2000, 0x1000), Some(0x4000));
    // an unaligned hint is rounded up
    assert_eq!(s.find_free_area(0x1234, 0x1000), Some(0x4000));
    // a free hint is taken as is
    assert_eq!(s.find_free_area(0x10000, 0x1000), Some(0x10000));
    // no room past the end
    assert_eq!(s.find_free_area(0x3fff_f000, 0x2000), None);
}

#[test]
fn checked_user_write_honours_permissions() {
    let mut s = space();
    s.map_alloc(0x2000, 0x1000, ro_user(), true).unwrap();
    s.map_alloc(0x3000, 0x1000, rw_user(), false).unwrap();
    assert!(!s.write_user_checked(0x2000, &vec![1]));
    assert_eq!(s.read_bytes(0x2000, 1).unwrap(), vec![0]);
    // the checked write backs the lazy page on its way
    assert!(s.write_user_checked(0x3ffc, &vec![9, 8, 7, 6]));
    assert_eq!(s.read_bytes(0x3ffc, 4).unwrap(), vec![9, 8, 7, 6]);
    // outside any mapping
    assert!(!s.write_user_checked(0x8000, &vec![1]));
}
