use vstd::prelude::*;

use crate::error::AllocateReason;
use crate::error::KernelError;
use crate::error::KernelResult;
use crate::error::PciError;
use crate::error::PciResult;

verus! {

/// The alignment the controller asks of rings and contexts, in bytes.
pub const ALIGN_64_BYTES: u64 = 64;

/// Whether `value` is a multiple of 64.
pub fn is_align_64_bytes(value: u64) -> (aligned: bool)
    ensures
        aligned == (value % 64 == 0),
{
    (value % 64) == 0
}

/// The error for an address that is not a multiple of 64.
pub open spec fn not_aligned_64() -> PciError {
    PciError::FailedAllocate(AllocateReason::NotAlignedAddress { expect_align_size: 64 })
}

/// An address handed out by an allocator for a structure the controller
/// reads, which has to lie on a 64-byte boundary.
#[derive(Debug, Clone, Copy, PartialEq, Eq, Structural)]
pub struct AlignedAddress(u64);

impl AlignedAddress {
    /// The address held, aligned or not.
    pub closed spec fn raw(self) -> u64 {
        self.0
    }

    /// Wraps `addr` without looking at it; [`AlignedAddress::address`]
    /// checks the alignment when the address is used.
    pub fn new_uncheck(addr: u64) -> (a: Self)
        ensures
            a.raw() == addr,
    {
        Self(addr)
    }

    /// The address held, aligned or not.
    pub fn raw_address(&self) -> (addr: u64)
        ensures
            addr == self.raw(),
    {
        self.0
    }

    /// Wraps `addr` if it is a multiple of 64.
    pub fn new_with_check_align_64_bytes(addr: u64) -> (r: PciResult<Self>)
        ensures
            addr % 64 == 0 ==> (r matches Ok(a) && a.raw() == addr),
            addr % 64 != 0 ==> r == Err::<Self, PciError>(not_aligned_64()),
    {
        if is_align_64_bytes(addr) {
            Ok(Self::new_uncheck(addr))
        } else {
            Err(PciError::FailedAllocate(AllocateReason::NotAlignedAddress { expect_align_size: 64 }))
        }
    }

    /// The address, if it is a multiple of 64.
    pub fn address(&self) -> (r: PciResult<u64>)
        ensures
            r == aligned_or_error(self.raw()),
    {
        if is_align_64_bytes(self.0) {
            Ok(self.0)
        } else {
            Err(PciError::FailedAllocate(AllocateReason::NotAlignedAddress { expect_align_size: 64 }))
        }
    }
}

/// `addr` if it is a multiple of 64, the alignment error otherwise.
pub open spec fn aligned_or_error(addr: u64) -> PciResult<u64> {
    if addr % 64 == 0 {
        Ok(addr)
    } else {
        Err(not_aligned_64())
    }
}

/// One request made to an allocator, with its answer.
pub struct Allocation {
    pub bytes: usize,
    /// The alignment asked for; zero when none was.
    pub align: usize,
    /// The boundary the block must not cross; zero when none was given.
    pub boundary: usize,
    /// The address granted, or `None` when the request was turned down.
    pub address: Option<u64>,
}

/// The source of memory that the controller can reach.
///
/// Nothing is promised about the addresses granted: the driver checks what
/// it is given. The only state the trait exposes is the record of the
/// requests made so far.
pub trait MemoryAllocatable {
    /// The requests answered so far, oldest first.
    spec fn granted(&self) -> Seq<Allocation>;

    /// Asks for `bytes` bytes.
    fn allocate(&mut self, bytes: usize) -> (address: Option<u64>)
        ensures
            final(self).granted() == old(self).granted().push(
                Allocation { bytes, align: 0, boundary: 0, address },
            ),
    ;

    /// Asks for `bytes` bytes that start at a multiple of `align` and do not
    /// cross a multiple of `boundary`.
    fn allocate_with_align(&mut self, bytes: usize, align: usize, boundary: usize) -> (address:
        Option<AlignedAddress>)
        ensures
            final(self).granted() == old(self).granted().push(
                Allocation {
                    bytes,
                    align,
                    boundary,
                    address: match address {
                        Some(a) => Some(a.raw()),
                        None => None,
                    },
                },
            ),
    ;
}

/// A bare source of memory, as a platform provides it. Nothing is promised
/// about it.
pub trait RawAllocator {
    /// Asks for `bytes` bytes that start at a multiple of `align` and do not
    /// cross a multiple of `boundary`; zero stands for no alignment and no
    /// boundary.
    fn allocate_raw(&mut self, bytes: usize, align: usize, boundary: usize) -> Option<u64>;
}

/// A source of memory that asks `R` and keeps a record of the requests.
pub struct RecordedAllocator<R> {
    raw: R,
    log: Ghost<Seq<Allocation>>,
}

impl<R> RecordedAllocator<R> {
    /// The requests answered so far, oldest first.
    pub closed spec fn log(&self) -> Seq<Allocation> {
        self.log@
    }

    /// The source that is asked.
    pub closed spec fn inner(&self) -> R {
        self.raw
    }

    /// A source that asks `raw`, with nothing recorded yet.
    pub fn new(raw: R) -> (recorded: Self)
        ensures
            recorded.log() == Seq::<Allocation>::empty(),
            recorded.inner() == raw,
    {
        RecordedAllocator { raw, log: Ghost(Seq::empty()) }
    }

    /// The source that is asked.
    pub fn raw(&self) -> (raw: &R)
        ensures
            *raw == self.inner(),
    {
        &self.raw
    }

    /// Gives back the source that was asked.
    pub fn into_raw(self) -> (raw: R)
        ensures
            raw == self.inner(),
    {
        self.raw
    }
}

impl<R: RawAllocator> MemoryAllocatable for RecordedAllocator<R> {
    open spec fn granted(&self) -> Seq<Allocation> {
        self.log()
    }

    fn allocate(&mut self, bytes: usize) -> (address: Option<u64>) {
        let address = self.raw.allocate_raw(bytes, 0, 0);
        proof {
            self.log@ = self.log@.push(Allocation { bytes, align: 0, boundary: 0, address });
        }
        address
    }

    fn allocate_with_align(&mut self, bytes: usize, align: usize, boundary: usize) -> (address:
        Option<AlignedAddress>) {
        let granted = self.raw.allocate_raw(bytes, align, boundary);
        proof {
            self.log@ = self.log@.push(Allocation { bytes, align, boundary, address: granted });
        }
        match granted {
            Some(a) => Some(AlignedAddress::new_uncheck(a)),
            None => None,
        }
    }
}

/// `post` continues `pre` by exactly one request, for `bytes` bytes with the
/// given alignment and boundary.
pub open spec fn one_request(
    pre: Seq<Allocation>,
    post: Seq<Allocation>,
    bytes: usize,
    align: usize,
    boundary: usize,
) -> bool {
    &&& post.len() == pre.len() + 1
    &&& forall|i: int| 0 <= i < pre.len() ==> #[trigger] post[i] == pre[i]
    &&& post.last().bytes == bytes
    &&& post.last().align == align
    &&& post.last().boundary == boundary
}

/// An allocator that hands out a fixed range of addresses from the bottom
/// up and never takes anything back.
pub struct LinearAllocator {
    next: u64,
    end: u64,
    log: Ghost<Seq<Allocation>>,
}

/// The lowest multiple of `align` that is not below `addr`; `addr` itself
/// for an alignment of zero or one.
pub open spec fn align_up(addr: int, align: int) -> int {
    if align <= 1 || addr % align == 0 {
        addr
    } else {
        addr + (align - addr % align)
    }
}

/// Where a block of `bytes` bytes is placed when the lowest free address
/// is `next`: at the next multiple of `align`, or, if the block would cross
/// a multiple of `boundary` from there, at the next multiple of `boundary`
/// that is also a multiple of `align`.
pub open spec fn placement(next: int, bytes: int, align: int, boundary: int) -> int {
    let start = align_up(next, align);
    if boundary > 0 && bytes > 0 && start / boundary != (start + bytes - 1) / boundary {
        align_up(align_up(start, boundary), align)
    } else {
        start
    }
}

impl LinearAllocator {
    /// The lowest address not yet handed out.
    pub closed spec fn next(&self) -> u64 {
        self.next
    }

    /// The address at which the range ends.
    pub closed spec fn end(&self) -> u64 {
        self.end
    }

    /// What a request does when the lowest free address is `next` and the
    /// range ends at `end`: the address granted, if the block fits.
    pub open spec fn answer(next: u64, end: u64, bytes: usize, align: usize, boundary: usize)
        -> Option<u64> {
        let start = placement(next as int, bytes as int, align as int, boundary as int);
        if start + bytes <= end {
            Some(start as u64)
        } else {
            None
        }
    }

    /// An allocator for the addresses from `start` up to, not including,
    /// `end`.
    pub fn new(start: u64, end: u64) -> (allocator: Self)
        ensures
            allocator.next() == start,
            allocator.end() == end,
            allocator.granted() == Seq::<Allocation>::empty(),
    {
        LinearAllocator { next: start, end, log: Ghost(Seq::empty()) }
    }

    fn round_up(addr: u64, align: u64) -> (r: Option<u64>)
        ensures
            align_up(addr as int, align as int) <= u64::MAX ==> r == Some(
                align_up(addr as int, align as int) as u64,
            ),
            align_up(addr as int, align as int) > u64::MAX ==> r is None,
    {
        if align <= 1 || addr % align == 0 {
            Some(addr)
        } else {
            let step: u64 = align - addr % align;
            if addr <= u64::MAX - step {
                Some(addr + step)
            } else {
                None
            }
        }
    }

    fn place(next: u64, bytes: u64, align: u64, boundary: u64) -> (r: Option<u64>)
        ensures
            r matches Some(start) ==> start == placement(
                next as int,
                bytes as int,
                align as int,
                boundary as int,
            ),
            r is None ==> placement(next as int, bytes as int, align as int, boundary as int)
                + bytes > u64::MAX,
    {
        let start = match Self::round_up(next, align) {
            Some(start) => start,
            None => {
                proof {
                    lemma_placement_not_below(
                        next as int,
                        bytes as int,
                        align as int,
                        boundary as int,
                    );
                }
                return None;
            },
        };
        if boundary > 0 && bytes > 0 {
            if start > u64::MAX - (bytes - 1) {
                proof {
                    lemma_placement_not_below(
                        next as int,
                        bytes as int,
                        align as int,
                        boundary as int,
                    );
                }
                return None;
            }
            if start / boundary != (start + (bytes - 1)) / boundary {
                let moved = match Self::round_up(start, boundary) {
                    Some(moved) => moved,
                    None => {
                        proof {
                            lemma_align_up_not_below(
                                align_up(start as int, boundary as int),
                                align as int,
                            );
                        }
                        return None;
                    },
                };
                return Self::round_up(moved, align);
            }
        }
        Some(start)
    }

    fn grant(&mut self, bytes: usize, align: usize, boundary: usize) -> (address: Option<u64>)
        ensures
            address == Self::answer(old(self).next(), old(self).end(), bytes, align, boundary),
            final(self).end() == old(self).end(),
            final(self).granted() == old(self).granted(),
            final(self).next() == match address {
                Some(a) => (a + bytes) as u64,
                None => old(self).next(),
            },
    {
        match Self::place(self.next, bytes as u64, align as u64, boundary as u64) {
            Some(start) => {
                if start <= self.end && bytes as u64 <= self.end - start {
                    self.next = start + bytes as u64;
                    Some(start)
                } else {
                    None
                }
            },
            None => None,
        }
    }
}

proof fn lemma_align_up_not_below(addr: int, align: int)
    requires
        addr >= 0,
    ensures
        align_up(addr, align) >= addr,
        align > 1 ==> align_up(addr, align) % align == 0,
{
    if align > 1 && addr % align != 0 {
        assert(0 < addr % align < align);
        let r = addr % align;
        assert((addr + (align - r)) % align == 0) by (nonlinear_arith)
            requires
                align > 1,
                r == addr % align,
                0 < r < align,
        ;
    }
}

proof fn lemma_placement_not_below(next: int, bytes: int, align: int, boundary: int)
    requires
        next >= 0,
    ensures
        placement(next, bytes, align, boundary) >= align_up(next, align),
        align_up(next, align) >= next,
{
    lemma_align_up_not_below(next, align);
    let start = align_up(next, align);
    lemma_align_up_not_below(start, boundary);
    lemma_align_up_not_below(align_up(start, boundary), align);
}

/// A block granted by a [`LinearAllocator`] starts at a multiple of the
/// alignment asked for and lies inside the allocator's range, above
/// everything granted before.
pub proof fn lemma_answer_is_sound(next: u64, end: u64, bytes: usize, align: usize, boundary: usize)
    requires
        LinearAllocator::answer(next, end, bytes, align, boundary) is Some,
    ensures
        ({
            let a = LinearAllocator::answer(next, end, bytes, align, boundary)->Some_0;
            &&& next <= a
            &&& a + bytes <= end
            &&& align > 1 ==> (a as int) % (align as int) == 0
        }),
{
    lemma_placement_not_below(next as int, bytes as int, align as int, boundary as int);
    let start = align_up(next as int, align as int);
    lemma_align_up_not_below(next as int, align as int);
    lemma_align_up_not_below(align_up(start, boundary as int), align as int);
}

impl MemoryAllocatable for LinearAllocator {
    closed spec fn granted(&self) -> Seq<Allocation> {
        self.log@
    }

    fn allocate(&mut self, bytes: usize) -> (address: Option<u64>)
        ensures
            address == Self::answer(old(self).next(), old(self).end(), bytes, 0, 0),
            final(self).end() == old(self).end(),
            final(self).next() == match address {
                Some(a) => (a + bytes) as u64,
                None => old(self).next(),
            },
    {
        let address = self.grant(bytes, 0, 0);
        proof {
            self.log@ = self.log@.push(Allocation { bytes, align: 0, boundary: 0, address });
        }
        address
    }

    fn allocate_with_align(&mut self, bytes: usize, align: usize, boundary: usize) -> (address:
        Option<AlignedAddress>)
        ensures
            match address {
                Some(a) => Some(a.raw()),
                None => None,
            } == Self::answer(old(self).next(), old(self).end(), bytes, align, boundary),
            final(self).end() == old(self).end(),
            final(self).next() == match address {
                Some(a) => (a.raw() + bytes) as u64,
                None => old(self).next(),
            },
    {
        let granted = self.grant(bytes, align, boundary);
        proof {
            self.log@ = self.log@.push(Allocation { bytes, align, boundary, address: granted });
        }
        match granted {
            Some(a) => Some(AlignedAddress::new_uncheck(a)),
            None => None,
        }
    }
}

/// The size of a frame of memory, in bytes.
pub const FRAME_SIZE: u64 = 4096;

/// The number of frames set aside for the driver.
pub const FRAMES: u64 = 512 * 32;

/// A stretch of memory as the firmware's memory map describes it.
#[derive(Debug, Clone, Copy, PartialEq, Eq, Structural)]
pub struct MemoryRegion {
    /// Whether the stretch is free for general use.
    pub conventional: bool,
    /// The address at which it starts.
    pub start: u64,
    /// Its length in frames.
    pub frames: u64,
}

impl MemoryRegion {
    /// Whether [`FRAMES`] frames can be set aside at the start of the
    /// stretch: it is free, long enough, and ends within the address
    /// space.
    pub open spec fn holds_heap(&self) -> bool {
        &&& self.conventional
        &&& self.frames >= FRAMES
        &&& self.start + FRAMES * FRAME_SIZE <= u64::MAX
    }

    /// Whether [`FRAMES`] frames can be set aside at the start of the
    /// stretch.
    #[verifier::when_used_as_spec(holds_heap)]
    pub fn can_hold_heap(&self) -> (holds: bool)
        ensures
            holds == self.holds_heap(),
    {
        self.conventional && self.frames >= FRAMES && self.start <= u64::MAX - FRAMES * FRAME_SIZE
    }
}

/// The error of [`init_alloc`].
pub open spec fn no_heap() -> KernelError {
    KernelError::FailedAllocate(AllocateReason::InitializeGlobalAllocator)
}

/// Sets aside [`FRAMES`] frames at the start of the first stretch of
/// `memory_map` that can hold them, and fails where no stretch can.
pub fn init_alloc(memory_map: &Vec<MemoryRegion>) -> (heap: KernelResult<LinearAllocator>)
    ensures
        match heap {
            Ok(allocator) => exists|i: int|
                {
                    &&& 0 <= i < memory_map@.len()
                    &&& #[trigger] memory_map@[i].holds_heap()
                    &&& forall|j: int| 0 <= j < i ==> !#[trigger] memory_map@[j].holds_heap()
                    &&& allocator.next() == memory_map@[i].start
                    &&& allocator.end() == memory_map@[i].start + FRAMES * FRAME_SIZE
                    &&& allocator.granted() == Seq::<Allocation>::empty()
                },
            Err(e) => {
                &&& e == no_heap()
                &&& forall|j: int|
                    0 <= j < memory_map@.len() ==> !#[trigger] memory_map@[j].holds_heap()
            },
        },
{
    let mut i: usize = 0;
    while i < memory_map.len()
        invariant
            i <= memory_map@.len(),
            forall|j: int| 0 <= j < i ==> !#[trigger] memory_map@[j].holds_heap(),
        decreases memory_map@.len() - i,
    {
        let region = memory_map[i];
        if region.can_hold_heap() {
            let allocator = LinearAllocator::new(region.start, region.start + FRAMES * FRAME_SIZE);
            assert(memory_map@[i as int].holds_heap());
            return Ok(allocator);
        }
        i = i + 1;
    }
    Err(KernelError::FailedAllocate(AllocateReason::InitializeGlobalAllocator))
}

} // verus!
