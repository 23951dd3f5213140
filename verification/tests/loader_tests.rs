//! Tests of the executable loader: header validation, segment layout,
//! and the app store.

use process_core::loader::{parse_elf, AppStore, Arch, AuxKey, LoadError};
use process_core::mm::{align_down_4k, align_offset_4k, align_up_4k};

/// Builds a minimal little-endian ELF64 image: a header, `segs` program
/// headers, and each segment's bytes appended behind the table.
/// Each segment is (vaddr, flags, file bytes, memsz).
fn make_elf(machine: u16, e_type: u16, entry: u64, segs: &[(u64, u32, Vec<u8>, u64)]) -> Vec<u8> {
    let phnum = segs.len();
    let phoff = 64u64;
    let data_base = 64 + 56 * phnum;
    let mut img = vec![0u8; data_base];
    img[0] = 0x7f;
    img[1] = b'E';
    img[2] = b'L';
    img[3] = b'F';
    img[4] = 2; // 64-bit
    img[5] = 1; // little endian
    img[6] = 1; // version
    img[16..18].copy_from_slice(&e_type.to_le_bytes());
    img[18..20].copy_from_slice(&machine.to_le_bytes());
    img[20..24].copy_from_slice(&1u32.to_le_bytes());
    img[24..32].copy_from_slice(&entry.to_le_bytes());
    img[32..40].copy_from_slice(&phoff.to_le_bytes());
    img[52..54].copy_from_slice(&64u16.to_le_bytes());
    img[54..56].copy_from_slice(&56u16.to_le_bytes());
    img[56..58].copy_from_slice(&(phnum as u16).to_le_bytes());
    let mut blobs: Vec<u8> = Vec::new();
    for (k, (vaddr, flags, data, memsz)) in segs.iter().enumerate() {
        let base = 64 + 56 * k;
        let p_offset = (data_base + blobs.len()) as u64;
        img[base..base + 4].copy_from_slice(&1u32.to_le_bytes()); // PT_LOAD
        img[base + 4..base + 8].copy_from_slice(&flags.to_le_bytes());
        img[base + 8..base + 16].copy_from_slice(&p_offset.to_le_bytes());
        img[base + 16..base + 24].copy_from_slice(&vaddr.to_le_bytes());
        img[base + 32..base + 40].copy_from_slice(&(data.len() as u64).to_le_bytes());
        img[base + 40..base + 48].copy_from_slice(&memsz.to_le_bytes());
        img[base + 48..base + 56].copy_from_slice(&0x1000u64.to_le_bytes());
        blobs.extend_from_slice(data);
    }
    img.extend_from_slice(&blobs);
    img
}

#[test]
fn parses_single_rx_segment() {
    let code = vec![0x90u8, 0x90, 0xc3];
    let img = make_elf(62, 2, 0x1000, &[(0x1000, 5, code.clone(), 3)]);
    let info = parse_elf(&img, Arch::X86_64).expect("should parse");
    assert_eq!(info.entry, 0x1000);
    assert_eq!(info.segments.len(), 1);
    let seg = &info.segments[0];
    assert_eq!(seg.start_vaddr, 0x1000);
    assert_eq!(seg.size, 0x1000);
    assert_eq!(seg.offset, 0);
    assert!(seg.flags.read);
    assert!(!seg.flags.write);
    assert!(seg.flags.execute);
    assert!(seg.flags.user);
    assert_eq!(seg.data, code);
}

#[test]
fn segment_alignment_rounds_to_pages() {
    // true start 0x1234, three pages of memory size
    let data = vec![1u8, 2, 3, 4];
    let img = make_elf(62, 2, 0x1234, &[(0x1234, 6, data, 0x2100)]);
    let info = parse_elf(&img, Arch::X86_64).expect("should parse");
    let seg = &info.segments[0];
    assert_eq!(seg.start_vaddr, 0x1000);
    assert_eq!(seg.offset, 0x234);
    // end 0x1234 + 0x2100 = 0x3334, rounded up to 0x4000
    assert_eq!(seg.size, 0x4000 - 0x1000);
    assert!(seg.flags.read);
    assert!(seg.flags.write);
    assert!(!seg.flags.execute);
}

#[test]
fn auxv_describes_the_image() {
    let code = vec![0u8; 64 + 56]; // covers the header and table when mapped at 0
    let img = make_elf(62, 2, 0x1000, &[(0x0, 5, code, 0x1000)]);
    let info = parse_elf(&img, Arch::X86_64).expect("should parse");
    let keys: Vec<AuxKey> = info.auxv.iter().map(|e| e.key).collect();
    assert!(keys.contains(&AuxKey::Phent));
    assert!(keys.contains(&AuxKey::Phnum));
    assert!(keys.contains(&AuxKey::Pagesz));
    assert!(keys.contains(&AuxKey::Entry));
    for e in &info.auxv {
        match e.key {
            AuxKey::Phent => assert_eq!(e.value, 56),
            AuxKey::Phnum => assert_eq!(e.value, 1),
            AuxKey::Pagesz => assert_eq!(e.value, 4096),
            AuxKey::Entry => assert_eq!(e.value, 0x1000),
            AuxKey::Phdr => {}
        }
    }
}

#[test]
fn rejects_bad_magic() {
    let mut img = make_elf(62, 2, 0x1000, &[(0x1000, 5, vec![0x90], 1)]);
    img[0] = 0x7e;
    assert_eq!(parse_elf(&img, Arch::X86_64).err(), Some(LoadError::InvalidFormat));
}

#[test]
fn rejects_short_image() {
    let img = vec![0x7fu8, b'E', b'L', b'F'];
    assert_eq!(parse_elf(&img, Arch::X86_64).err(), Some(LoadError::InvalidFormat));
}

#[test]
fn rejects_non_executable_type() {
    // type 3: shared object
    let img = make_elf(62, 3, 0x1000, &[(0x1000, 5, vec![0x90], 1)]);
    assert_eq!(parse_elf(&img, Arch::X86_64).err(), Some(LoadError::UnsupportedType));
}

#[test]
fn rejects_arch_mismatch() {
    // AArch64 image on an x86-64 host
    let img = make_elf(183, 2, 0x1000, &[(0x1000, 5, vec![0x90], 1)]);
    assert_eq!(parse_elf(&img, Arch::X86_64).err(), Some(LoadError::ArchMismatch));
    // and the same image loads on an AArch64 host
    assert!(parse_elf(&img, Arch::Aarch64).is_ok());
}

#[test]
fn rejects_untried_architecture() {
    let img = make_elf(99, 2, 0x1000, &[(0x1000, 5, vec![0x90], 1)]);
    assert_eq!(parse_elf(&img, Arch::X86_64).err(), Some(LoadError::UnsupportedArchitecture));
}

#[test]
fn rejects_segment_past_end_of_file() {
    let mut img = make_elf(62, 2, 0x1000, &[(0x1000, 5, vec![0x90], 1)]);
    // claim a file size far past the end
    img[64 + 32..64 + 40].copy_from_slice(&0x10000u64.to_le_bytes());
    assert_eq!(parse_elf(&img, Arch::X86_64).err(), Some(LoadError::InvalidFormat));
}

#[test]
fn valid_image_also_parses_with_reference_parser() {
    let code = vec![0x90u8, 0x90, 0xc3];
    let img = make_elf(62, 2, 0x1000, &[(0x1000, 5, code, 3)]);
    let elf = xmas_elf::ElfFile::new(&img).expect("reference parser agrees it is valid");
    assert_eq!(elf.header.pt2.entry_point(), 0x1000);
    assert_eq!(elf.header.pt2.ph_count(), 1);
    let ph = elf.program_iter().next().unwrap();
    assert_eq!(ph.virtual_addr(), 0x1000);
    assert_eq!(ph.mem_size(), 3);
}

#[test]
fn alignment_helpers_match_expected_values() {
    assert_eq!(align_down_4k(0x1234), 0x1000);
    assert_eq!(align_up_4k(0x1234), 0x2000);
    assert_eq!(align_up_4k(0x1000), 0x1000);
    assert_eq!(align_down_4k(0xfff), 0);
    assert_eq!(align_offset_4k(0x1234), 0x234);
    assert_eq!(align_offset_4k(0x2000), 0);
}

#[test]
fn app_store_finds_by_name() {
    let mut store = AppStore::new();
    store.add_app("hello".to_string(), vec![1, 2, 3]);
    store.add_app("world".to_string(), vec![4, 5]);
    assert_eq!(store.get_app_count(), 2);
    assert_eq!(store.get_app_name(0), "hello");
    assert_eq!(store.get_app_data(1), &vec![4u8, 5]);
    assert_eq!(store.get_app_data_by_name(&"world".to_string()), Some(&vec![4u8, 5]));
    assert_eq!(store.get_app_data_by_name(&"missing".to_string()), None);
    let names = store.list_apps();
    assert_eq!(names, vec!["hello".to_string(), "world".to_string()]);
}
