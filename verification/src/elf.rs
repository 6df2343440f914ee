use vstd::prelude::*;

verus! {

/// The size of the header of a 64-bit ELF file.
pub const EHDR_SIZE: usize = 64;

/// The size of a program header of a 64-bit ELF file.
pub const PHDR_SIZE: usize = 56;

/// The type of a segment that is loaded into memory.
pub const PT_LOAD: u32 = 1;

/// The type of a segment.
#[derive(Debug, Copy, Clone, PartialEq, Eq, Structural)]
pub enum PType {
    PtNull,
    PtLoad,
    PtDynamic,
    PtInterp,
    PtNote,
    PtShlib,
    PtPhdr,
    PtTls,
    Other(u32),
}

/// A program header: where a segment lies in the file and where it goes
/// in memory.
#[derive(Debug, Copy, Clone, PartialEq, Eq, Structural)]
pub struct Phdr {
    pub p_type: PType,
    pub p_flags: u32,
    pub p_offset: u64,
    pub p_vaddr: u64,
    pub p_paddr: u64,
    pub p_filesz: u64,
    pub p_memsz: u64,
    pub p_align: u64,
}

/// The number held in the `count` bytes of `bytes` from `at` on, least
/// significant byte first.
pub open spec fn le_value(bytes: Seq<u8>, at: int, count: nat) -> nat
    decreases count,
{
    if count == 0 {
        0
    } else {
        bytes[at] as nat + 256 * le_value(bytes, at + 1, (count - 1) as nat)
    }
}

/// The type of segment that the number `value` stands for.
pub open spec fn p_type_of(value: u32) -> PType {
    if value == 0 {
        PType::PtNull
    } else if value == 1 {
        PType::PtLoad
    } else if value == 2 {
        PType::PtDynamic
    } else if value == 3 {
        PType::PtInterp
    } else if value == 4 {
        PType::PtNote
    } else if value == 5 {
        PType::PtShlib
    } else if value == 6 {
        PType::PtPhdr
    } else if value == 7 {
        PType::PtTls
    } else {
        PType::Other(value)
    }
}

/// The program header in the 56 bytes of `bytes` from `at` on.
pub open spec fn phdr_at(bytes: Seq<u8>, at: int) -> Phdr {
    Phdr {
        p_type: p_type_of(le_value(bytes, at, 4) as u32),
        p_flags: le_value(bytes, at + 4, 4) as u32,
        p_offset: le_value(bytes, at + 8, 8) as u64,
        p_vaddr: le_value(bytes, at + 16, 8) as u64,
        p_paddr: le_value(bytes, at + 24, 8) as u64,
        p_filesz: le_value(bytes, at + 32, 8) as u64,
        p_memsz: le_value(bytes, at + 40, 8) as u64,
        p_align: le_value(bytes, at + 48, 8) as u64,
    }
}

proof fn lemma_le_value_bound(bytes: Seq<u8>, at: int, count: nat)
    ensures
        count == 0 ==> le_value(bytes, at, count) == 0,
        count == 1 ==> le_value(bytes, at, count) < 0x100,
        count == 2 ==> le_value(bytes, at, count) < 0x1_0000,
        count == 3 ==> le_value(bytes, at, count) < 0x100_0000,
        count == 4 ==> le_value(bytes, at, count) < 0x1_0000_0000,
        count == 5 ==> le_value(bytes, at, count) < 0x100_0000_0000,
        count == 6 ==> le_value(bytes, at, count) < 0x1_0000_0000_0000,
        count == 7 ==> le_value(bytes, at, count) < 0x100_0000_0000_0000,
        count == 8 ==> le_value(bytes, at, count) < 0x1_0000_0000_0000_0000,
    decreases count,
{
    if 0 < count <= 8 {
        lemma_le_value_bound(bytes, at + 1, (count - 1) as nat);
    }
}

fn read_le(bytes: &[u8], at: usize, count: usize) -> (value: u64)
    requires
        1 <= count <= 8,
        at + count <= bytes@.len(),
    ensures
        value == le_value(bytes@, at as int, count as nat),
{
    let mut value: u64 = 0;
    let mut k: usize = count;
    let len: usize = bytes.len();
    while k > 0
        invariant
            k <= count,
            1 <= count <= 8,
            at + count <= len,
            len == bytes@.len(),
            value == le_value(bytes@, at + k, (count - k) as nat),
        decreases k,
    {
        proof {
            lemma_le_value_bound(bytes@, at + k, (count - k) as nat);
        }
        k = k - 1;
        value = value * 256 + bytes[at + k] as u64;
    }
    value
}

fn to_p_type(value: u32) -> (p_type: PType)
    ensures
        p_type == p_type_of(value),
{
    if value == 0 {
        PType::PtNull
    } else if value == 1 {
        PType::PtLoad
    } else if value == 2 {
        PType::PtDynamic
    } else if value == 3 {
        PType::PtInterp
    } else if value == 4 {
        PType::PtNote
    } else if value == 5 {
        PType::PtShlib
    } else if value == 6 {
        PType::PtPhdr
    } else if value == 7 {
        PType::PtTls
    } else {
        PType::Other(value)
    }
}

/// The header of a 64-bit ELF file, as far as the loader reads it.
#[derive(Debug, Copy, Clone)]
pub struct EhdrPtr<'a> {
    bytes: &'a [u8],
}

impl<'a> EhdrPtr<'a> {
    /// The bytes of the file.
    pub closed spec fn bytes(&self) -> Seq<u8> {
        self.bytes@
    }

    /// The number of program headers that the header announces; zero for a
    /// file that is shorter than a header.
    pub open spec fn spec_ph_num(&self) -> u16 {
        if self.bytes().len() >= 64 {
            le_value(self.bytes(), 56, 2) as u16
        } else {
            0
        }
    }

    /// The offset of the first program header in the file; zero for a file
    /// that is shorter than a header.
    pub open spec fn spec_ph_offset(&self) -> u64 {
        if self.bytes().len() >= 64 {
            le_value(self.bytes(), 32, 8) as u64
        } else {
            0
        }
    }

    pub fn new(bytes: &'a [u8]) -> (ehdr: Self)
        ensures
            ehdr.bytes() == bytes@,
    {
        Self { bytes }
    }

    #[verifier::when_used_as_spec(spec_ph_num)]
    pub fn ph_num(&self) -> (count: u16)
        ensures
            count == self.spec_ph_num(),
    {
        if self.bytes.len() >= EHDR_SIZE {
            proof {
                lemma_le_value_bound(self.bytes@, 56, 2);
            }
            read_le(self.bytes, 56, 2) as u16
        } else {
            0
        }
    }

    #[verifier::when_used_as_spec(spec_ph_offset)]
    pub fn ph_offset(&self) -> (offset: u64)
        ensures
            offset == self.spec_ph_offset(),
    {
        if self.bytes.len() >= EHDR_SIZE {
            read_le(self.bytes, 32, 8)
        } else {
            0
        }
    }
}

/// A cursor over the program headers of an ELF file.
pub struct PhdrIter<'a> {
    bytes: &'a [u8],
    ph_offset: u64,
    current_num: u16,
    e_phnum: u16,
}

impl<'a> PhdrIter<'a> {
    /// The bytes of the file.
    pub closed spec fn bytes(&self) -> Seq<u8> {
        self.bytes@
    }

    /// The offset of the first program header in the file.
    pub closed spec fn ph_offset(&self) -> u64 {
        self.ph_offset
    }

    /// The number of program headers that were handed out.
    pub closed spec fn handed_out(&self) -> int {
        self.current_num as int
    }

    /// The number of program headers that the file announces.
    pub closed spec fn announced(&self) -> int {
        self.e_phnum as int
    }

    /// The offset of the program header with the number `index`.
    pub open spec fn offset_of(&self, index: int) -> int {
        self.ph_offset() + 56 * index
    }

    /// A cursor before the first program header of the file of `ehdr_ptr`.
    pub fn new(ehdr_ptr: EhdrPtr<'a>) -> (iter: Self)
        ensures
            iter.bytes() == ehdr_ptr.bytes(),
            iter.ph_offset() == ehdr_ptr.ph_offset(),
            iter.announced() == ehdr_ptr.ph_num(),
            iter.handed_out() == 0,
    {
        Self {
            bytes: ehdr_ptr.bytes,
            ph_offset: ehdr_ptr.ph_offset(),
            current_num: 0,
            e_phnum: ehdr_ptr.ph_num(),
        }
    }

    /// Hands out the next program header.
    ///
    /// Returns `None` once as many headers were handed out as the file
    /// announces, or where the next header does not lie inside the file.
    pub fn next(&mut self) -> (r: Option<Phdr>)
        ensures
            final(self).bytes() == old(self).bytes(),
            final(self).ph_offset() == old(self).ph_offset(),
            final(self).announced() == old(self).announced(),
            old(self).handed_out() < old(self).announced() && old(self).offset_of(
                old(self).handed_out() + 1,
            ) <= old(self).bytes().len() ==> r == Some(
                phdr_at(old(self).bytes(), old(self).offset_of(old(self).handed_out())),
            ) && final(self).handed_out() == old(self).handed_out() + 1,
            !(old(self).handed_out() < old(self).announced() && old(self).offset_of(
                old(self).handed_out() + 1,
            ) <= old(self).bytes().len()) ==> r is None && final(self).handed_out() == old(self).handed_out(),
    {
        if self.current_num >= self.e_phnum {
            return None;
        }
        let len = self.bytes.len() as u64;
        let skip: u64 = PHDR_SIZE as u64 * self.current_num as u64;
        if self.ph_offset > len || len - self.ph_offset < skip || len - self.ph_offset - skip
            < PHDR_SIZE as u64 {
            return None;
        }
        let at: usize = (self.ph_offset + skip) as usize;
        proof {
            lemma_le_value_bound(self.bytes@, at as int, 4);
            lemma_le_value_bound(self.bytes@, at + 4, 4);
        }
        let phdr = Phdr {
            p_type: to_p_type(read_le(self.bytes, at, 4) as u32),
            p_flags: read_le(self.bytes, at + 4, 4) as u32,
            p_offset: read_le(self.bytes, at + 8, 8),
            p_vaddr: read_le(self.bytes, at + 16, 8),
            p_paddr: read_le(self.bytes, at + 24, 8),
            p_filesz: read_le(self.bytes, at + 32, 8),
            p_memsz: read_le(self.bytes, at + 40, 8),
            p_align: read_le(self.bytes, at + 48, 8),
        };
        self.current_num = self.current_num + 1;
        Some(phdr)
    }

    /// Hands out all program headers that are left.
    pub fn collect(&mut self) -> (headers: Vec<Phdr>)
        ensures
            final(self).bytes() == old(self).bytes(),
            final(self).ph_offset() == old(self).ph_offset(),
            final(self).announced() == old(self).announced(),
            final(self).handed_out() == old(self).handed_out() + headers@.len(),
            forall|i: int|
                0 <= i < headers@.len() ==> #[trigger] headers@[i] == phdr_at(
                    old(self).bytes(),
                    old(self).offset_of(old(self).handed_out() + i),
                ),
            !(final(self).handed_out() < final(self).announced() && final(self).offset_of(
                final(self).handed_out() + 1,
            ) <= final(self).bytes().len()),
    {
        let mut headers: Vec<Phdr> = Vec::new();
        loop
            invariant
                self.bytes() == old(self).bytes(),
                self.ph_offset() == old(self).ph_offset(),
                self.announced() == old(self).announced(),
                self.handed_out() == old(self).handed_out() + headers@.len(),
                forall|i: int|
                    0 <= i < headers@.len() ==> #[trigger] headers@[i] == phdr_at(
                        old(self).bytes(),
                        old(self).offset_of(old(self).handed_out() + i),
                    ),
            ensures
                self.bytes() == old(self).bytes(),
                self.ph_offset() == old(self).ph_offset(),
                self.announced() == old(self).announced(),
                self.handed_out() == old(self).handed_out() + headers@.len(),
                forall|i: int|
                    0 <= i < headers@.len() ==> #[trigger] headers@[i] == phdr_at(
                        old(self).bytes(),
                        old(self).offset_of(old(self).handed_out() + i),
                    ),
                !(self.handed_out() < self.announced() && self.offset_of(self.handed_out() + 1)
                    <= self.bytes().len()),
            decreases self.announced() - self.handed_out(),
        {
            match self.next() {
                Some(phdr) => {
                    headers.push(phdr);
                },
                None => {
                    break ;
                },
            }
        }
        headers
    }
}

} // verus!
