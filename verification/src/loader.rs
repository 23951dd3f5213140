//! Loader for executable images.
//!
//! Parses a raw ELF byte buffer into a validated entry point, an ordered
//! list of loadable segments (page-aligned, with translated permission
//! flags), and an auxiliary vector for process startup.

use vstd::prelude::*;
use vstd::slice::{slice_subrange, slice_to_vec};

use crate::config::PAGE_SIZE_4K;
use crate::mm::{spec_align_down, spec_align_up, align_down_4k, align_up_4k, align_offset_4k,
    MappingFlags};

verus! {

/// Offset of the object-type field in an ELF header.
pub const ELF_OFF_TYPE: usize = 16;
/// Offset of the machine-tag field in an ELF header.
pub const ELF_OFF_MACHINE: usize = 18;
/// Offset of the entry-point field in an ELF header.
pub const ELF_OFF_ENTRY: usize = 24;
/// Offset of the program-header-table offset field in an ELF header.
pub const ELF_OFF_PHOFF: usize = 32;
/// Offset of the program-header-entry-size field in an ELF header.
pub const ELF_OFF_PHENTSIZE: usize = 54;
/// Offset of the program-header-count field in an ELF header.
pub const ELF_OFF_PHNUM: usize = 56;
/// Size of an ELF header.
pub const ELF_HEADER_LEN: usize = 64;
/// Size of one 64-bit program header.
pub const ELF_PH_LEN: usize = 56;
/// Object-type tag of an executable file.
pub const ELF_TYPE_EXEC: u64 = 2;
/// Program-header tag of a loadable segment.
pub const ELF_PT_LOAD: u64 = 1;

/// Machine tag of x86-64.
pub const ELF_MACHINE_X86_64: u64 = 62;
/// Machine tag of AArch64.
pub const ELF_MACHINE_AARCH64: u64 = 183;
/// Machine tag of RISC-V.
pub const ELF_MACHINE_RISCV: u64 = 243;

/// The architectures the kernel can run on.
#[derive(Clone, Copy, PartialEq, Eq, Structural, Debug)]
pub enum Arch {
    /// x86-64.
    X86_64,
    /// AArch64.
    Aarch64,
    /// RISC-V 64.
    Riscv64,
}

/// Why an executable image was rejected.
#[derive(Clone, Copy, PartialEq, Eq, Structural, Debug)]
pub enum LoadError {
    /// The format marker, class or layout of the image is wrong.
    InvalidFormat,
    /// The image is valid ELF but not an executable object.
    UnsupportedType,
    /// The image targets a supported architecture other than the host.
    ArchMismatch,
    /// The image targets an architecture the kernel was never tried on.
    UnsupportedArchitecture,
}

/// The ELF machine tag of an architecture.
pub open spec fn spec_machine_of(a: Arch) -> int {
    match a {
        Arch::X86_64 => 62,
        Arch::Aarch64 => 183,
        Arch::Riscv64 => 243,
    }
}

/// The ELF machine tag of an architecture.
pub fn machine_of(a: Arch) -> (r: u64)
    ensures
        r == spec_machine_of(a),
{
    match a {
        Arch::X86_64 => ELF_MACHINE_X86_64,
        Arch::Aarch64 => ELF_MACHINE_AARCH64,
        Arch::Riscv64 => ELF_MACHINE_RISCV,
    }
}

/// True for the machine tags of the architectures any port of the kernel
/// supports.
pub open spec fn spec_supported_machine(m: int) -> bool {
    m == 62 || m == 183 || m == 243
}

/// Little-endian value of the two bytes of `s` at `off`.
pub open spec fn spec_u16_le(s: Seq<u8>, off: int) -> int {
    s[off] + 0x100 * s[off + 1]
}

/// Little-endian value of the four bytes of `s` at `off`.
pub open spec fn spec_u32_le(s: Seq<u8>, off: int) -> int {
    s[off] + 0x100 * s[off + 1] + 0x1_0000 * s[off + 2] + 0x100_0000 * s[off + 3]
}

/// Little-endian value of the eight bytes of `s` at `off`.
pub open spec fn spec_u64_le(s: Seq<u8>, off: int) -> int {
    s[off] + 0x100 * s[off + 1] + 0x1_0000 * s[off + 2] + 0x100_0000 * s[off + 3]
        + 0x1_0000_0000 * s[off + 4] + 0x100_0000_0000 * s[off + 5]
        + 0x1_0000_0000_0000 * s[off + 6] + 0x100_0000_0000_0000 * s[off + 7]
}

/// Reads the little-endian 16-bit value of `v` at `off`.
pub fn read_u16_le(v: &Vec<u8>, off: usize) -> (r: u64)
    requires
        off + 2 <= v.len(),
    ensures
        r == spec_u16_le(v@, off as int),
        r <= 0xffff,
{
    (v[off] as u64) + 0x100 * (v[off + 1] as u64)
}

/// Reads the little-endian 32-bit value of `v` at `off`.
pub fn read_u32_le(v: &Vec<u8>, off: usize) -> (r: u64)
    requires
        off + 4 <= v.len(),
    ensures
        r == spec_u32_le(v@, off as int),
        r <= 0xffff_ffff,
{
    (v[off] as u64) + 0x100 * (v[off + 1] as u64) + 0x1_0000 * (v[off + 2] as u64)
        + 0x100_0000 * (v[off + 3] as u64)
}

/// Reads the little-endian 64-bit value of `v` at `off`.
pub fn read_u64_le(v: &Vec<u8>, off: usize) -> (r: u64)
    requires
        off + 8 <= v.len(),
    ensures
        r == spec_u64_le(v@, off as int),
{
    (v[off] as u64) + 0x100 * (v[off + 1] as u64) + 0x1_0000 * (v[off + 2] as u64)
        + 0x100_0000 * (v[off + 3] as u64) + 0x1_0000_0000 * (v[off + 4] as u64)
        + 0x100_0000_0000 * (v[off + 5] as u64) + 0x1_0000_0000_0000 * (v[off + 6] as u64)
        + 0x100_0000_0000_0000 * (v[off + 7] as u64)
}

/// True when the image begins with the ELF marker for a little-endian
/// 64-bit object.
pub open spec fn spec_marker_ok(img: Seq<u8>) -> bool {
    &&& img.len() >= 64
    &&& img[0] == 0x7f
    &&& img[1] == 0x45
    &&& img[2] == 0x4c
    &&& img[3] == 0x46
    &&& img[4] == 2
    &&& img[5] == 1
}

/// The object type of the image.
pub open spec fn spec_e_type(img: Seq<u8>) -> int {
    spec_u16_le(img, 16)
}

/// The machine tag of the image.
pub open spec fn spec_e_machine(img: Seq<u8>) -> int {
    spec_u16_le(img, 18)
}

/// The entry point of the image.
pub open spec fn spec_e_entry(img: Seq<u8>) -> int {
    spec_u64_le(img, 24)
}

/// The file offset of the program-header table.
pub open spec fn spec_e_phoff(img: Seq<u8>) -> int {
    spec_u64_le(img, 32)
}

/// The size of one program-header entry.
pub open spec fn spec_e_phentsize(img: Seq<u8>) -> int {
    spec_u16_le(img, 54)
}

/// The number of program headers.
pub open spec fn spec_e_phnum(img: Seq<u8>) -> int {
    spec_u16_le(img, 56)
}

/// File offset of the `k`-th program header.
pub open spec fn spec_ph_base(img: Seq<u8>, k: int) -> int {
    spec_e_phoff(img) + 56 * k
}

/// The type tag of the `k`-th program header.
pub open spec fn spec_p_type(img: Seq<u8>, k: int) -> int {
    spec_u32_le(img, spec_ph_base(img, k))
}

/// The permission bits of the `k`-th program header.
pub open spec fn spec_p_flags(img: Seq<u8>, k: int) -> int {
    spec_u32_le(img, spec_ph_base(img, k) + 4)
}

/// The file offset of the `k`-th program header's bytes.
pub open spec fn spec_p_offset(img: Seq<u8>, k: int) -> int {
    spec_u64_le(img, spec_ph_base(img, k) + 8)
}

/// The virtual address of the `k`-th program header.
pub open spec fn spec_p_vaddr(img: Seq<u8>, k: int) -> int {
    spec_u64_le(img, spec_ph_base(img, k) + 16)
}

/// The size in the file of the `k`-th program header.
pub open spec fn spec_p_filesz(img: Seq<u8>, k: int) -> int {
    spec_u64_le(img, spec_ph_base(img, k) + 32)
}

/// The size in memory of the `k`-th program header.
pub open spec fn spec_p_memsz(img: Seq<u8>, k: int) -> int {
    spec_u64_le(img, spec_ph_base(img, k) + 40)
}

/// Bounds a loadable program header must satisfy for the image to load:
/// its bytes lie inside the file, it is at least as large in memory as in
/// the file, and its page-rounded memory range fits the machine word.
pub open spec fn spec_ph_ok(img: Seq<u8>, k: int) -> bool {
    spec_p_type(img, k) == 1 ==> {
        &&& spec_p_offset(img, k) + spec_p_filesz(img, k) <= img.len()
        &&& spec_p_filesz(img, k) <= spec_p_memsz(img, k)
        &&& spec_p_vaddr(img, k) + spec_p_memsz(img, k) + 4095 <= usize::MAX
    }
}

/// Layout conditions on a well-formed executable image, checked after the
/// marker, type and machine tags.
pub open spec fn spec_layout_ok(img: Seq<u8>) -> bool {
    &&& spec_e_phentsize(img) == 56
    &&& spec_e_phoff(img) + 56 * spec_e_phnum(img) <= img.len()
    &&& spec_e_entry(img) <= usize::MAX
    &&& forall|k: int| 0 <= k < spec_e_phnum(img) ==> spec_ph_ok(img, k)
}

/// True when bit `b` (a power of two) is set in `f`.
pub open spec fn spec_bit_set(f: int, b: int) -> bool {
    (f / b) % 2 == 1
}

/// The kernel mapping flags a loadable segment's permission bits ask for;
/// a user mapping always carries the user-accessible bit.
pub open spec fn spec_flags_of(f: int) -> MappingFlags {
    MappingFlags {
        read: spec_bit_set(f, 4),
        write: spec_bit_set(f, 2),
        execute: spec_bit_set(f, 1),
        user: true,
    }
}

/// Page-aligned start of the `k`-th program header's memory range.
pub open spec fn spec_seg_start(img: Seq<u8>, k: int) -> int {
    spec_align_down(spec_p_vaddr(img, k))
}

/// Page-aligned end of the `k`-th program header's memory range.
pub open spec fn spec_seg_end(img: Seq<u8>, k: int) -> int {
    spec_align_up(spec_p_vaddr(img, k) + spec_p_memsz(img, k))
}

/// Size of the mapping the `k`-th program header asks for.
pub open spec fn spec_seg_size(img: Seq<u8>, k: int) -> int {
    spec_seg_end(img, k) - spec_seg_start(img, k)
}

/// In-page offset of the `k`-th program header's true start.
pub open spec fn spec_seg_offset(img: Seq<u8>, k: int) -> int {
    spec_p_vaddr(img, k) % (PAGE_SIZE_4K as int)
}

/// The initialized bytes of the `k`-th program header.
pub open spec fn spec_seg_data(img: Seq<u8>, k: int) -> Seq<u8> {
    img.subrange(spec_p_offset(img, k), spec_p_offset(img, k) + spec_p_filesz(img, k))
}

/// Indices of the loadable program headers among the first `n`, in header
/// order.
pub open spec fn spec_load_idxs(img: Seq<u8>, n: int) -> Seq<int>
    decreases n,
{
    if n <= 0 {
        Seq::empty()
    } else {
        let rest = spec_load_idxs(img, n - 1);
        if spec_p_type(img, n - 1) == 1 {
            rest.push(n - 1)
        } else {
            rest
        }
    }
}

/// True when the `k`-th program header is loadable and its file range
/// covers the program-header table's offset.
pub open spec fn spec_ph_covers_table(img: Seq<u8>, k: int) -> bool {
    &&& spec_p_type(img, k) == 1
    &&& spec_p_offset(img, k) <= spec_e_phoff(img)
    &&& spec_e_phoff(img) < spec_p_offset(img, k) + spec_p_filesz(img, k)
}

/// The first program header among `[0, n)` whose file range covers the
/// program-header table, if any.
pub open spec fn spec_first_table_ph(img: Seq<u8>, n: int) -> Option<int>
    decreases n,
{
    if n <= 0 {
        None
    } else if spec_first_table_ph(img, n - 1) is Some {
        spec_first_table_ph(img, n - 1)
    } else if spec_ph_covers_table(img, n - 1) {
        Some(n - 1)
    } else {
        None
    }
}

/// A found table-covering header lies in range and covers the table.
pub proof fn lemma_first_table_ph_props(img: Seq<u8>, n: int)
    ensures
        match spec_first_table_ph(img, n) {
            Some(k) => 0 <= k < n && spec_ph_covers_table(img, k),
            None => true,
        },
    decreases n,
{
    if n > 0 {
        lemma_first_table_ph_props(img, n - 1);
    }
}

/// The verdict of validation: the error an image is rejected with, or
/// `None` when it loads.
pub open spec fn spec_load_error(img: Seq<u8>, host: Arch) -> Option<LoadError> {
    if !spec_marker_ok(img) {
        Some(LoadError::InvalidFormat)
    } else if spec_e_type(img) != 2 {
        Some(LoadError::UnsupportedType)
    } else if spec_e_machine(img) != spec_machine_of(host) {
        if spec_supported_machine(spec_e_machine(img)) {
            Some(LoadError::ArchMismatch)
        } else {
            Some(LoadError::UnsupportedArchitecture)
        }
    } else if !spec_layout_ok(img) {
        Some(LoadError::InvalidFormat)
    } else {
        None
    }
}

/// An executable image whose machine tag names a supported architecture
/// other than the host's is rejected with `ArchMismatch` — before any
/// address space is built or task spawned, since loading hands nothing
/// out on an error.
pub proof fn lemma_arch_mismatch_rejected(img: Seq<u8>, host: Arch)
    requires
        spec_marker_ok(img),
        spec_e_type(img) == 2,
        spec_supported_machine(spec_e_machine(img)),
        spec_e_machine(img) != spec_machine_of(host),
    ensures
        spec_load_error(img, host) == Some(LoadError::ArchMismatch),
{
}

/// What a startup-metadata entry describes.
#[derive(Clone, Copy, PartialEq, Eq, Structural, Debug)]
pub enum AuxKey {
    /// Virtual address of the program-header table.
    Phdr,
    /// Size of one program-header entry.
    Phent,
    /// Number of program headers.
    Phnum,
    /// Page size of the system.
    Pagesz,
    /// Entry point of the program.
    Entry,
}

/// One (type, value) pair of the auxiliary vector.
#[derive(Clone, Copy, PartialEq, Eq, Structural, Debug)]
pub struct AuxvEntry {
    /// What the entry describes.
    pub key: AuxKey,
    /// Its value.
    pub value: usize,
}

/// The auxiliary-vector tail every image gets: entry sizes, header count,
/// page size and entry point.
pub open spec fn spec_auxv_tail(img: Seq<u8>) -> Seq<AuxvEntry> {
    seq![
        AuxvEntry { key: AuxKey::Phent, value: 56 },
        AuxvEntry { key: AuxKey::Phnum, value: spec_e_phnum(img) as usize },
        AuxvEntry { key: AuxKey::Pagesz, value: PAGE_SIZE_4K },
        AuxvEntry { key: AuxKey::Entry, value: spec_e_entry(img) as usize },
    ]
}

/// The virtual address the program-header table will be visible at, given
/// the loadable header `k` whose file range covers it.
pub open spec fn spec_phdr_vaddr(img: Seq<u8>, k: int) -> int {
    spec_e_phoff(img) - spec_p_offset(img, k) + spec_p_vaddr(img, k)
}

/// The auxiliary vector of the image: the table address when a loadable
/// segment carries the table, then the fixed tail.
pub open spec fn spec_auxv(img: Seq<u8>) -> Seq<AuxvEntry> {
    match spec_first_table_ph(img, spec_e_phnum(img)) {
        Some(k) => seq![
            AuxvEntry { key: AuxKey::Phdr, value: spec_phdr_vaddr(img, k) as usize },
        ] + spec_auxv_tail(img),
        None => spec_auxv_tail(img),
    }
}

/// One loadable segment of an executable image, page-aligned and ready to
/// be mapped.
#[derive(Debug)]
pub struct ELFSegment {
    /// The page-aligned start virtual address of the segment.
    pub start_vaddr: usize,
    /// The page-aligned size of the segment.
    pub size: usize,
    /// The flags of the segment, used to set the page-table entry.
    pub flags: MappingFlags,
    /// The initialized bytes of the segment.
    pub data: Vec<u8>,
    /// The offset of the segment's true start relative to the start of its
    /// first page.
    pub offset: usize,
}

/// The validated contents of an executable image.
#[derive(Debug)]
pub struct ELFInfo {
    /// The entry point of the program.
    pub entry: usize,
    /// The loadable segments, in header order.
    pub segments: Vec<ELFSegment>,
    /// The auxiliary vector of the program.
    pub auxv: Vec<AuxvEntry>,
}

/// True when `seg` is exactly what the `k`-th program header of `img`
/// describes.
pub open spec fn spec_seg_matches(seg: ELFSegment, img: Seq<u8>, k: int) -> bool {
    &&& seg.start_vaddr == spec_seg_start(img, k)
    &&& seg.size == spec_seg_size(img, k)
    &&& seg.flags == spec_flags_of(spec_p_flags(img, k))
    &&& seg.offset == spec_seg_offset(img, k)
    &&& seg.data@ == spec_seg_data(img, k)
}

/// True when `info` is exactly the parse of `img`: its entry point, one
/// segment per loadable program header in order, and its auxiliary vector.
pub open spec fn spec_info_matches(info: ELFInfo, img: Seq<u8>) -> bool {
    let loads = spec_load_idxs(img, spec_e_phnum(img));
    &&& info.entry == spec_e_entry(img)
    &&& info.segments@.len() == loads.len()
    &&& forall|j: int|
        0 <= j < loads.len() ==> spec_seg_matches(#[trigger] info.segments@[j], img, loads[j])
    &&& info.auxv@ == spec_auxv(img)
}

/// Parses and validates an executable image.
///
/// Returns the entry point, the loadable segments in header order, and
/// the auxiliary vector; or the validation error `spec_load_error` gives.
#[verifier::loop_isolation(false)]
#[verifier::rlimit(60)]
pub fn parse_elf(img: &Vec<u8>, host: Arch) -> (r: Result<ELFInfo, LoadError>)
    ensures
        match r {
            Ok(info) => spec_load_error(img@, host) is None && spec_info_matches(info, img@),
            Err(e) => spec_load_error(img@, host) == Some(e),
        },
{
    if img.len() < ELF_HEADER_LEN {
        return Err(LoadError::InvalidFormat);
    }
    if img[0] != 0x7f || img[1] != 0x45 || img[2] != 0x4c || img[3] != 0x46 || img[4] != 2
        || img[5] != 1 {
        return Err(LoadError::InvalidFormat);
    }
    if read_u16_le(img, ELF_OFF_TYPE) != ELF_TYPE_EXEC {
        return Err(LoadError::UnsupportedType);
    }
    let machine = read_u16_le(img, ELF_OFF_MACHINE);
    if machine != machine_of(host) {
        if machine == ELF_MACHINE_X86_64 || machine == ELF_MACHINE_AARCH64
            || machine == ELF_MACHINE_RISCV {
            return Err(LoadError::ArchMismatch);
        } else {
            return Err(LoadError::UnsupportedArchitecture);
        }
    }
    if read_u16_le(img, ELF_OFF_PHENTSIZE) != 56 {
        return Err(LoadError::InvalidFormat);
    }
    let phoff: u64 = read_u64_le(img, ELF_OFF_PHOFF);
    let phnum: u64 = read_u16_le(img, ELF_OFF_PHNUM);
    let table_len: u64 = 56 * phnum;
    let table_end: u64 = match phoff.checked_add(table_len) {
        Some(e) => e,
        None => {
            return Err(LoadError::InvalidFormat);
        },
    };
    if table_end > img.len() as u64 {
        return Err(LoadError::InvalidFormat);
    }
    let entry: u64 = read_u64_le(img, ELF_OFF_ENTRY);
    if entry > usize::MAX as u64 {
        return Err(LoadError::InvalidFormat);
    }

    let mut segments: Vec<ELFSegment> = Vec::new();
    let mut table_ph: Option<usize> = None;
    let mut k: usize = 0;
    while k < phnum as usize
        invariant
            k <= phnum as usize,
            segments@.len() == spec_load_idxs(img@, k as int).len(),
            forall|j: int|
                0 <= j < segments@.len() ==> spec_seg_matches(
                    #[trigger] segments@[j],
                    img@,
                    spec_load_idxs(img@, k as int)[j],
                ),
            match table_ph {
                Some(i) => spec_first_table_ph(img@, k as int) == Some(i as int),
                None => spec_first_table_ph(img@, k as int) is None,
            },
            forall|i: int| 0 <= i < k ==> spec_ph_ok(img@, i),
        decreases phnum - k,
    {
        let base: usize = phoff as usize + ELF_PH_LEN * k;
        let p_type = read_u32_le(img, base);
        if p_type == ELF_PT_LOAD {
            let p_flags = read_u32_le(img, base + 4);
            let p_offset = read_u64_le(img, base + 8);
            let p_vaddr = read_u64_le(img, base + 16);
            let p_filesz = read_u64_le(img, base + 32);
            let p_memsz = read_u64_le(img, base + 40);
            let file_end: u64 = match p_offset.checked_add(p_filesz) {
                Some(e) => e,
                None => {
                    proof { assert(!spec_ph_ok(img@, k as int)); }
                    return Err(LoadError::InvalidFormat);
                },
            };
            if file_end > img.len() as u64 {
                proof { assert(!spec_ph_ok(img@, k as int)); }
                return Err(LoadError::InvalidFormat);
            }
            if p_filesz > p_memsz {
                proof { assert(!spec_ph_ok(img@, k as int)); }
                return Err(LoadError::InvalidFormat);
            }
            let mem_end: u64 = match p_vaddr.checked_add(p_memsz) {
                Some(e) => e,
                None => {
                    proof { assert(!spec_ph_ok(img@, k as int)); }
                    return Err(LoadError::InvalidFormat);
                },
            };
            if mem_end > usize::MAX as u64 - 4095 {
                proof { assert(!spec_ph_ok(img@, k as int)); }
                return Err(LoadError::InvalidFormat);
            }
            let st_vaddr: usize = align_down_4k(p_vaddr as usize);
            let ed_vaddr: usize = align_up_4k(mem_end as usize);
            let data: Vec<u8> = slice_to_vec(
                slice_subrange(img.as_slice(), p_offset as usize, file_end as usize),
            );
            let flags = MappingFlags {
                read: (p_flags / 4) % 2 == 1,
                write: (p_flags / 2) % 2 == 1,
                execute: p_flags % 2 == 1,
                user: true,
            };
            segments.push(ELFSegment {
                start_vaddr: st_vaddr,
                size: ed_vaddr - st_vaddr,
                flags,
                data,
                offset: align_offset_4k(p_vaddr as usize),
            });
            if table_ph.is_none() && p_offset <= phoff && phoff < file_end {
                table_ph = Some(k);
            }
        }
        k = k + 1;
    }

    let mut auxv: Vec<AuxvEntry> = Vec::new();
    match table_ph {
        Some(i) => {
            proof {
                lemma_first_table_ph_props(img@, spec_e_phnum(img@));
                assert(spec_first_table_ph(img@, spec_e_phnum(img@)) == Some(i as int));
                assert(spec_ph_covers_table(img@, i as int));
                assert(spec_ph_ok(img@, i as int));
            }
            let base: usize = phoff as usize + ELF_PH_LEN * i;
            let p_offset = read_u64_le(img, base + 8);
            let p_vaddr = read_u64_le(img, base + 16);
            let value: u64 = phoff - p_offset + p_vaddr;
            auxv.push(AuxvEntry { key: AuxKey::Phdr, value: value as usize });
        },
        None => {},
    }
    auxv.push(AuxvEntry { key: AuxKey::Phent, value: 56 });
    auxv.push(AuxvEntry { key: AuxKey::Phnum, value: phnum as usize });
    auxv.push(AuxvEntry { key: AuxKey::Pagesz, value: PAGE_SIZE_4K });
    auxv.push(AuxvEntry { key: AuxKey::Entry, value: entry as usize });
    proof {
        assert(auxv@ =~= spec_auxv(img@));
    }

    Ok(ELFInfo { entry: entry as usize, segments, auxv })
}

/// The store of executable images embedded with the kernel: named raw
/// byte buffers, owned by the binary-store collaborator in a running
/// system and handed in as plain values here.
pub struct AppStore {
    /// The images, each under its name, in embedding order.
    pub apps: Vec<(String, Vec<u8>)>,
}

/// The index of the first stored app named `name` among the first `n`.
pub open spec fn spec_first_app(apps: Seq<(String, Vec<u8>)>, name: Seq<char>, n: int) -> Option<
    int,
>
    decreases n,
{
    if n <= 0 {
        None
    } else if spec_first_app(apps, name, n - 1) is Some {
        spec_first_app(apps, name, n - 1)
    } else if apps[n - 1].0@ == name {
        Some(n - 1)
    } else {
        None
    }
}

/// A first-match verdict reached early stays the verdict of any longer
/// prefix.
pub proof fn lemma_first_app_prefix(
    apps: Seq<(String, Vec<u8>)>,
    name: Seq<char>,
    n1: int,
    n2: int,
)
    requires
        0 <= n1 <= n2,
        spec_first_app(apps, name, n1) is Some,
    ensures
        spec_first_app(apps, name, n2) == spec_first_app(apps, name, n1),
    decreases n2,
{
    if n2 > n1 {
        lemma_first_app_prefix(apps, name, n1, n2 - 1);
    }
}

impl AppStore {
    /// The names and contents of the stored apps.
    pub open spec fn spec_apps(self) -> Seq<(String, Vec<u8>)> {
        self.apps@
    }

    /// An empty store.
    pub fn new() -> (r: AppStore)
        ensures
            r.spec_apps().len() == 0,
    {
        AppStore { apps: Vec::new() }
    }

    /// Embeds one image under its name.
    pub fn add_app(&mut self, name: String, data: Vec<u8>)
        ensures
            final(self).spec_apps() == old(self).spec_apps().push((name, data)),
    {
        self.apps.push((name, data));
    }

    /// Get the number of apps.
    pub fn get_app_count(&self) -> (r: usize)
        ensures
            r == self.spec_apps().len(),
    {
        self.apps.len()
    }

    /// Get the name of an app by a given app ID.
    pub fn get_app_name(&self, app_id: usize) -> (r: &String)
        requires
            app_id < self.spec_apps().len(),
        ensures
            *r == self.spec_apps()[app_id as int].0,
    {
        &self.apps[app_id].0
    }

    /// Get the data of an app by a given app ID.
    pub fn get_app_data(&self, app_id: usize) -> (r: &Vec<u8>)
        requires
            app_id < self.spec_apps().len(),
        ensures
            *r == self.spec_apps()[app_id as int].1,
    {
        &self.apps[app_id].1
    }

    /// Get the data of an app by the given app name: the first embedded
    /// image of that name, or nothing when the name is unknown.
    pub fn get_app_data_by_name(&self, name: &String) -> (r: Option<&Vec<u8>>)
        ensures
            match r {
                Some(d) => {
                    let i = spec_first_app(self.spec_apps(), name@, self.spec_apps().len() as int);
                    i is Some && *d == self.spec_apps()[i.unwrap()].1
                },
                None => spec_first_app(self.spec_apps(), name@, self.spec_apps().len() as int)
                    is None,
            },
    {
        let n = self.apps.len();
        let mut i: usize = 0;
        while i < n
            invariant
                i <= n,
                n == self.apps@.len(),
                spec_first_app(self.apps@, name@, i as int) is None,
            decreases n - i,
        {
            if self.apps[i].0.eq(name) {
                proof {
                    lemma_first_app_prefix(self.apps@, name@, i + 1, self.apps@.len() as int);
                }
                return Some(&self.apps[i].1);
            }
            i = i + 1;
        }
        None
    }

    /// List all apps: their names, in embedding order, for the console.
    pub fn list_apps(&self) -> (r: Vec<String>)
        ensures
            r@.len() == self.spec_apps().len(),
            forall|i: int|
                0 <= i < r@.len() ==> #[trigger] r@[i]@ == self.spec_apps()[i].0@,
    {
        let n = self.apps.len();
        let mut names: Vec<String> = Vec::new();
        let mut i: usize = 0;
        while i < n
            invariant
                i <= n,
                n == self.apps@.len(),
                names@.len() == i,
                forall|q: int| 0 <= q < i ==> #[trigger] names@[q]@ == self.apps@[q].0@,
            decreases n - i,
        {
            names.push(self.apps[i].0.clone());
            i = i + 1;
        }
        names
    }
}

} // verus!
