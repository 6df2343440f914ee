use vstd::prelude::*;

verus! {

/// The line that a dump of the memory map begins with.
pub fn memory_map_header() -> (header: &'static str)
    ensures
        header@ == "Index, Type, Type(name), PhysicalStart, NumberOfPages, Attribute\n"@,
{
    "Index, Type, Type(name), PhysicalStart, NumberOfPages, Attribute\n"
}

/// The number of bytes of the buffer that the memory map is read into.
pub const MEMORY_MAP_BUFF_SIZE: usize = 16384;

/// The number of bytes of one record of the dump.
pub const MEMORY_MAP_RECORD_SIZE: usize = 20;

/// The eight bytes of `value`, most significant first.
pub open spec fn be_bytes_u64(value: u64) -> Seq<u8> {
    seq![
        (value >> 56) as u8,
        (value >> 48) as u8,
        (value >> 40) as u8,
        (value >> 32) as u8,
        (value >> 24) as u8,
        (value >> 16) as u8,
        (value >> 8) as u8,
        value as u8,
    ]
}

/// The four bytes of `value`, most significant first.
pub open spec fn be_bytes_u32(value: u32) -> Seq<u8> {
    seq![(value >> 24) as u8, (value >> 16) as u8, (value >> 8) as u8, value as u8]
}

/// The record of the dump for one stretch of memory: the number of pages,
/// the type and the physical address at which it begins, each with its
/// most significant byte first.
pub open spec fn record_of(page_count: u64, memory_type: u32, phys_start: u64) -> Seq<u8> {
    be_bytes_u64(page_count) + be_bytes_u32(memory_type) + be_bytes_u64(phys_start)
}

/// Makes the record of the dump for one stretch of memory.
pub fn memory_descriptor_record(page_count: u64, memory_type: u32, phys_start: u64) -> (record: [u8;
    20])
    ensures
        record@ == record_of(page_count, memory_type, phys_start),
{
    let record: [u8; 20] = [
        #[verifier::truncate]
        ((page_count >> 56) as u8),
        #[verifier::truncate]
        ((page_count >> 48) as u8),
        #[verifier::truncate]
        ((page_count >> 40) as u8),
        #[verifier::truncate]
        ((page_count >> 32) as u8),
        #[verifier::truncate]
        ((page_count >> 24) as u8),
        #[verifier::truncate]
        ((page_count >> 16) as u8),
        #[verifier::truncate]
        ((page_count >> 8) as u8),
        #[verifier::truncate]
        (page_count as u8),
        #[verifier::truncate]
        ((memory_type >> 24) as u8),
        #[verifier::truncate]
        ((memory_type >> 16) as u8),
        #[verifier::truncate]
        ((memory_type >> 8) as u8),
        #[verifier::truncate]
        (memory_type as u8),
        #[verifier::truncate]
        ((phys_start >> 56) as u8),
        #[verifier::truncate]
        ((phys_start >> 48) as u8),
        #[verifier::truncate]
        ((phys_start >> 40) as u8),
        #[verifier::truncate]
        ((phys_start >> 32) as u8),
        #[verifier::truncate]
        ((phys_start >> 24) as u8),
        #[verifier::truncate]
        ((phys_start >> 16) as u8),
        #[verifier::truncate]
        ((phys_start >> 8) as u8),
        #[verifier::truncate]
        (phys_start as u8),
    ];
    assert(record@ =~= record_of(page_count, memory_type, phys_start));
    record
}

} // verus!
