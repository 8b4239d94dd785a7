//! Bounded structural validation for the static Bootart payload.

use crate::error::InstallError;
use vstd::prelude::*;

verus! {

pub const MAX_INSTALL_FILE_BYTES: u64 = 67108864;
pub const BOOTART_BINARY_PATH: &'static str = "/usr/bin/bootart";
pub const ELF_HEADER_SIZE: usize = 64;
pub const PROGRAM_HEADER_SIZE: usize = 56;
pub const PT_LOAD: u32 = 1;
pub const PT_DYNAMIC: u32 = 2;
pub const PT_INTERP: u32 = 3;
/// `EM_X86_64`: the machine of the product architecture.
pub const EXPECTED_MACHINE: u16 = 62;

// ---------------------------------------------------------------------------
// Little-endian fields
// ---------------------------------------------------------------------------

pub open spec fn le16(b: Seq<u8>, o: int) -> int {
    b[o] as int + 256 * b[o + 1] as int
}

pub open spec fn le32(b: Seq<u8>, o: int) -> int {
    le16(b, o) + 65536 * le16(b, o + 2)
}

pub open spec fn le64(b: Seq<u8>, o: int) -> int {
    le32(b, o) + 4294967296 * le32(b, o + 4)
}

// ---------------------------------------------------------------------------
// The accepted payload
// ---------------------------------------------------------------------------

pub open spec fn ph_count(b: Seq<u8>) -> int {
    le16(b, 56)
}

pub open spec fn ph_offset(b: Seq<u8>) -> int {
    le64(b, 32)
}

/// Byte offset of program header `i`.
pub open spec fn ph_at(b: Seq<u8>, i: int) -> int {
    ph_offset(b) + 56 * i
}

/// ELF64, little-endian, current version, SysV/GNU ABI, executable or PIE,
/// the product machine, and a nonempty in-bounds program-header table.
pub open spec fn elf_header_ok(b: Seq<u8>) -> bool {
    &&& b.len() >= 64
    &&& b[0] == 0x7f && b[1] == 0x45 && b[2] == 0x4c && b[3] == 0x46
    &&& b[4] == 2 && b[5] == 1 && b[6] == 1
    &&& b[7] == 0 || b[7] == 3
    &&& le16(b, 16) == 2 || le16(b, 16) == 3
    &&& le16(b, 18) == 62
    &&& le32(b, 20) == 1
    &&& le16(b, 52) == 64
    &&& le16(b, 54) == 56
    &&& ph_count(b) != 0
    &&& ph_offset(b) + 56 * ph_count(b) <= b.len()
}

/// A dynamic table of `n` entries at `off` that reaches `DT_NULL` before
/// any `DT_NEEDED`.
pub open spec fn dynamic_ok(b: Seq<u8>, off: int, n: int) -> bool {
    exists|k: int|
        0 <= k < n && #[trigger] dyn_tag(b, off, k) == 0 && (forall|j: int|
            0 <= j < k ==> #[trigger] dyn_tag(b, off, j) != 1)
}

/// The tag of dynamic entry `j` of the table at `off`.
pub open spec fn dyn_tag(b: Seq<u8>, off: int, j: int) -> int {
    le64(b, off + 16 * j)
}

/// Program header `i` describes an in-bounds segment whose memory image
/// covers its file image, is not `PT_INTERP`, and, for `PT_LOAD` and
/// `PT_DYNAMIC`, is well formed.
pub open spec fn segment_ok(b: Seq<u8>, i: int) -> bool {
    let h = ph_at(b, i);
    let kind = le32(b, h);
    let offset = le64(b, h + 8);
    let vaddr = le64(b, h + 16);
    let filesz = le64(b, h + 32);
    let memsz = le64(b, h + 40);
    &&& offset + filesz <= b.len()
    &&& memsz >= filesz
    &&& kind != 3
    &&& kind == 1 ==> vaddr + memsz <= u64::MAX
    &&& kind == 2 ==> filesz % 16 == 0 && dynamic_ok(b, offset, filesz / 16)
}

/// Program header `i` is an executable `PT_LOAD` containing the entry point.
pub open spec fn entry_load(b: Seq<u8>, i: int) -> bool {
    let h = ph_at(b, i);
    &&& le32(b, h) == 1
    &&& le32(b, h + 4) % 2 == 1
    &&& le64(b, h + 16) <= le64(b, 24) < le64(b, h + 16) + le64(b, h + 40)
}

/// The payload is a static ELF for the product architecture.
pub open spec fn static_elf_valid(b: Seq<u8>) -> bool {
    &&& b.len() <= MAX_INSTALL_FILE_BYTES
    &&& elf_header_ok(b)
    &&& forall|i: int| 0 <= i < ph_count(b) ==> segment_ok(b, i)
    &&& exists|i: int| 0 <= i < ph_count(b) && entry_load(b, i)
}

// ---------------------------------------------------------------------------
// Readers
// ---------------------------------------------------------------------------

fn invalid_elf(reason: &str) -> (e: InstallError)
    ensures
        e is InvalidBootartElf,
{
    InstallError::InvalidBootartElf(String::from_str(reason))
}

fn read_u16(bytes: &[u8], offset: usize) -> (r: Result<u16, InstallError>)
    ensures
        r is Ok <==> offset + 2 <= bytes@.len(),
        r matches Ok(v) ==> v == le16(bytes@, offset as int),
        r matches Err(e) ==> e is InvalidBootartElf,
{
    if offset > bytes.len() || bytes.len() - offset < 2 {
        return Err(invalid_elf("truncated u16 field"));
    }
    Ok(bytes[offset] as u16 + 256 * (bytes[offset + 1] as u16))
}

fn read_u32(bytes: &[u8], offset: usize) -> (r: Result<u32, InstallError>)
    ensures
        r is Ok <==> offset + 4 <= bytes@.len(),
        r matches Ok(v) ==> v == le32(bytes@, offset as int),
        r matches Err(e) ==> e is InvalidBootartElf,
{
    if offset > bytes.len() || bytes.len() - offset < 4 {
        return Err(invalid_elf("truncated u32 field"));
    }
    let low = bytes[offset] as u32 + 256 * (bytes[offset + 1] as u32);
    let high = bytes[offset + 2] as u32 + 256 * (bytes[offset + 3] as u32);
    Ok(low + 65536 * high)
}

fn read_u64(bytes: &[u8], offset: usize) -> (r: Result<u64, InstallError>)
    ensures
        r is Ok <==> offset + 8 <= bytes@.len(),
        r matches Ok(v) ==> v == le64(bytes@, offset as int),
        r matches Err(e) ==> e is InvalidBootartElf,
{
    if offset > bytes.len() || bytes.len() - offset < 8 {
        return Err(invalid_elf("truncated u64 field"));
    }
    let low = read_u32(bytes, offset)?;
    let high = read_u32(bytes, offset + 4)?;
    Ok(low as u64 + 4294967296 * (high as u64))
}

/// `offset..offset + size` as a range inside a payload of `length` bytes.
fn checked_range(offset: u64, size: u64, length: usize) -> (r: Result<(usize, usize), InstallError>)
    ensures
        r is Ok <==> offset + size <= length,
        r matches Ok(range) ==> range.0 == offset && range.1 == offset + size,
        r matches Err(e) ==> e is InvalidBootartElf,
{
    if offset > u64::MAX - size {
        return Err(invalid_elf("ELF table range overflow"));
    }
    let end = offset + size;
    if end > length as u64 {
        return Err(invalid_elf("ELF table extends beyond payload"));
    }
    Ok((offset as usize, end as usize))
}

/// The ELF machine of the product architecture.
fn expected_machine() -> (r: Result<u16, InstallError>)
    ensures
        r == Ok::<u16, InstallError>(EXPECTED_MACHINE),
{
    Ok(EXPECTED_MACHINE)
}

/// Scans `n` dynamic entries at `off`: `Ok` when `DT_NULL` comes before any
/// `DT_NEEDED`.
fn check_dynamic_table(bytes: &[u8], off: usize, n: usize) -> (r: Result<(), InstallError>)
    requires
        off + 16 * n <= bytes@.len(),
    ensures
        r is Ok <==> dynamic_ok(bytes@, off as int, n as int),
        r matches Err(e) ==> e is InvalidBootartElf,
{
    let mut j: usize = 0;
    while j < n
        invariant
            j <= n,
            off + 16 * n <= bytes@.len(),
            forall|k: int| 0 <= k < j ==> dyn_tag(bytes@, off as int, k) != 1 && dyn_tag(bytes@, off as int, k) != 0,
        decreases n - j,
    {
        assert(bytes@.len() == bytes.len());
        assert(off + 16 * j <= off + 16 * n);
        let tag = read_u64(bytes, off + 16 * j)?;
        if tag == 1 {
            assert(dyn_tag(bytes@, off as int, j as int) == 1);
            assert forall|k: int|
                0 <= k < n && #[trigger] dyn_tag(bytes@, off as int, k) == 0 implies exists|m: int|
                0 <= m < k && #[trigger] dyn_tag(bytes@, off as int, m) == 1 by {
                assert(k >= j);
            }
            return Err(invalid_elf("DT_NEEDED is forbidden for the static payload"));
        }
        if tag == 0 {
            assert(dyn_tag(bytes@, off as int, j as int) == 0);
            return Ok(());
        }
        j = j + 1;
    }
    assert forall|k: int| 0 <= k < n implies #[trigger] dyn_tag(bytes@, off as int, k) != 0 by {}
    Err(invalid_elf("dynamic table has no DT_NULL terminator"))
}

/// Checks program header `index`; reports whether it is the executable load
/// segment holding `entry`.
fn check_segment(bytes: &[u8], table_start: usize, index: usize, entry: u64) -> (r: Result<bool, InstallError>)
    requires
        table_start == ph_offset(bytes@),
        index < ph_count(bytes@),
        elf_header_ok(bytes@),
        entry == le64(bytes@, 24),
    ensures
        r is Ok <==> segment_ok(bytes@, index as int),
        r matches Ok(hit) ==> hit == entry_load(bytes@, index as int),
        r matches Err(e) ==> e is InvalidBootartElf,
{
    assert(bytes@.len() == bytes.len());
    assert(table_start + index * 56 + 56 <= table_start + 56 * ph_count(bytes@));
    let header = table_start + index * PROGRAM_HEADER_SIZE;
    assert(header == ph_at(bytes@, index as int));
    let kind = read_u32(bytes, header)?;
    let flags = read_u32(bytes, header + 4)?;
    let offset = read_u64(bytes, header + 8)?;
    let virtual_address = read_u64(bytes, header + 16)?;
    let file_size = read_u64(bytes, header + 32)?;
    let memory_size = read_u64(bytes, header + 40)?;
    checked_range(offset, file_size, bytes.len())?;
    if memory_size < file_size {
        return Err(invalid_elf("program segment memory size is below file size"));
    }
    if kind == PT_LOAD {
        if virtual_address > u64::MAX - memory_size {
            return Err(invalid_elf("load segment virtual range overflow"));
        }
        let memory_end = virtual_address + memory_size;
        Ok(flags % 2 == 1 && entry >= virtual_address && entry < memory_end)
    } else if kind == PT_INTERP {
        Err(invalid_elf("PT_INTERP is forbidden for the static payload"))
    } else if kind == PT_DYNAMIC {
        if file_size % 16 != 0 {
            return Err(invalid_elf("dynamic table has a partial entry"));
        }
        let (start, _end) = checked_range(offset, file_size, bytes.len())?;
        check_dynamic_table(bytes, start, (file_size / 16) as usize)?;
        Ok(false)
    } else {
        Ok(false)
    }
}

/// Validates one 64-bit little-endian Linux ELF for the product
/// architecture.  Dynamic interpreters and `DT_NEEDED` entries are rejected.
pub fn validate_static_elf(bytes: &[u8]) -> (r: Result<(), InstallError>)
    ensures
        r is Ok <==> static_elf_valid(bytes@),
        bytes@.len() > MAX_INSTALL_FILE_BYTES ==> (r matches Err(InstallError::FileTooLarge {
            path,
            size,
            limit,
        }) && path@ == BOOTART_BINARY_PATH@ && size == bytes@.len() && limit
            == MAX_INSTALL_FILE_BYTES),
        bytes@.len() <= MAX_INSTALL_FILE_BYTES ==> (r matches Err(e) ==> e is InvalidBootartElf),
{
    if bytes.len() as u64 > MAX_INSTALL_FILE_BYTES {
        return Err(
            InstallError::FileTooLarge {
                path: String::from_str(BOOTART_BINARY_PATH),
                size: bytes.len() as u64,
                limit: MAX_INSTALL_FILE_BYTES,
            },
        );
    }
    if bytes.len() < ELF_HEADER_SIZE || bytes[0] != 0x7f || bytes[1] != 0x45 || bytes[2] != 0x4c
        || bytes[3] != 0x46 {
        return Err(invalid_elf("missing or truncated ELF header"));
    }
    if bytes[4] != 2 || bytes[5] != 1 || bytes[6] != 1 {
        return Err(invalid_elf("payload must be ELF64, little-endian, current-version"));
    }
    if bytes[7] != 0 && bytes[7] != 3 {
        return Err(invalid_elf("payload has an unsupported ELF OS ABI"));
    }
    let file_type = read_u16(bytes, 16)?;
    if file_type != 2 && file_type != 3 {
        return Err(invalid_elf("payload must be ET_EXEC or ET_DYN"));
    }
    let machine = read_u16(bytes, 18)?;
    if machine != expected_machine()? {
        return Err(invalid_elf("payload machine does not match the build architecture"));
    }
    if read_u32(bytes, 20)? != 1 || read_u16(bytes, 52)? as usize != ELF_HEADER_SIZE {
        return Err(invalid_elf("invalid ELF version or header size"));
    }
    let entry_point = read_u64(bytes, 24)?;
    let program_offset = read_u64(bytes, 32)?;
    let program_entry_size = read_u16(bytes, 54)? as u64;
    let program_count = read_u16(bytes, 56)? as u64;
    if program_entry_size != PROGRAM_HEADER_SIZE as u64 || program_count == 0 {
        return Err(invalid_elf("invalid or empty program-header table"));
    }
    let table_size = program_entry_size * program_count;
    let (table_start, _table_end) = checked_range(program_offset, table_size, bytes.len())?;
    assert(elf_header_ok(bytes@));

    let mut saw_executable_load = false;
    let mut index: u64 = 0;
    while index < program_count
        invariant
            elf_header_ok(bytes@),
            bytes@.len() <= MAX_INSTALL_FILE_BYTES,
            table_start == ph_offset(bytes@),
            program_count == ph_count(bytes@),
            entry_point == le64(bytes@, 24),
            index <= program_count,
            forall|i: int| 0 <= i < index ==> segment_ok(bytes@, i),
            saw_executable_load <==> exists|i: int| 0 <= i < index && entry_load(bytes@, i),
        decreases program_count - index,
    {
        let hit = check_segment(bytes, table_start, index as usize, entry_point)?;
        if hit {
            saw_executable_load = true;
        }
        index = index + 1;
    }
    if !saw_executable_load {
        return Err(invalid_elf("ELF entry is not inside an executable PT_LOAD segment"));
    }
    Ok(())
}

} // verus!
