use xhc_core::allocator::init_alloc;
use xhc_core::allocator::is_align_64_bytes;
use xhc_core::allocator::AlignedAddress;
use xhc_core::allocator::LinearAllocator;
use xhc_core::allocator::MemoryAllocatable;
use xhc_core::allocator::MemoryRegion;
use xhc_core::allocator::RawAllocator;
use xhc_core::allocator::RecordedAllocator;
use xhc_core::allocator::FRAMES;
use xhc_core::allocator::FRAME_SIZE;
use xhc_core::error::AllocateReason;
use xhc_core::error::KernelError;
use xhc_core::error::PciError;

fn not_aligned() -> PciError {
    PciError::FailedAllocate(AllocateReason::NotAlignedAddress { expect_align_size: 64 })
}

#[test]
fn multiples_of_64_are_aligned() {
    assert!(is_align_64_bytes(0));
    assert!(is_align_64_bytes(64));
    assert!(is_align_64_bytes(0xffff_ffff_ffff_ffc0));
    assert!(!is_align_64_bytes(1));
    assert!(!is_align_64_bytes(63));
    assert!(!is_align_64_bytes(65));
    assert!(!is_align_64_bytes(32));
}

#[test]
fn checked_aligned_address_refuses_other_addresses() {
    assert_eq!(AlignedAddress::new_with_check_align_64_bytes(128).unwrap().address(), Ok(128));
    assert_eq!(AlignedAddress::new_with_check_align_64_bytes(130).err(), Some(not_aligned()));
}

#[test]
fn unchecked_aligned_address_is_checked_when_it_is_used() {
    assert_eq!(AlignedAddress::new_uncheck(0x1000).address(), Ok(0x1000));
    assert_eq!(AlignedAddress::new_uncheck(0x1001).address(), Err(not_aligned()));
    assert_eq!(AlignedAddress::new_uncheck(0x1001).raw_address(), 0x1001);
}

#[test]
fn linear_allocator_hands_out_the_range_from_the_bottom_up() {
    let mut allocator = LinearAllocator::new(0x1000, 0x2000);
    assert_eq!(allocator.allocate(0x100), Some(0x1000));
    assert_eq!(allocator.allocate(0x10), Some(0x1100));
    assert_eq!(allocator.allocate(0xef0), Some(0x1110));
    assert_eq!(allocator.allocate(1), None);
    assert_eq!(allocator.allocate(0), Some(0x2000));
}

#[test]
fn linear_allocator_aligns_what_it_hands_out() {
    let mut allocator = LinearAllocator::new(0x1001, 0x10000);
    let first = allocator.allocate_with_align(0x10, 64, 0).unwrap();
    assert_eq!(first.address(), Ok(0x1040));
    let second = allocator.allocate_with_align(0x10, 0x1000, 0).unwrap();
    assert_eq!(second.address(), Ok(0x2000));
    let third = allocator.allocate_with_align(0x10, 1, 0).unwrap();
    assert_eq!(third.raw_address(), 0x2010);
    let fourth = allocator.allocate_with_align(0x10, 0, 0).unwrap();
    assert_eq!(fourth.raw_address(), 0x2020);
}

#[test]
fn linear_allocator_does_not_let_a_block_cross_its_boundary() {
    let mut allocator = LinearAllocator::new(0x1f80, 0x10000);
    let block = allocator.allocate_with_align(0x100, 64, 0x1000).unwrap();
    assert_eq!(block.address(), Ok(0x2000));
    let next = allocator.allocate_with_align(0x100, 64, 0x1000).unwrap();
    assert_eq!(next.address(), Ok(0x2100));
}

#[test]
fn linear_allocator_turns_down_what_does_not_fit() {
    let mut allocator = LinearAllocator::new(0x1040, 0x1140);
    assert!(allocator.allocate_with_align(0x101, 64, 0).is_none());
    assert!(allocator.allocate_with_align(0x10, 0x1000, 0).is_none());
    assert!(allocator.allocate_with_align(0x100, 64, 0x80).is_none());
    assert_eq!(allocator.allocate_with_align(0x100, 64, 0).unwrap().address(), Ok(0x1040));
    assert!(allocator.allocate(1).is_none());
}

#[test]
fn linear_allocator_at_the_end_of_the_address_space_turns_down() {
    let mut allocator = LinearAllocator::new(u64::MAX - 8, u64::MAX);
    assert!(allocator.allocate_with_align(4, 64, 0).is_none());
    assert_eq!(allocator.allocate(8), Some(u64::MAX - 8));
}

struct Fixed(Option<u64>, usize);

impl RawAllocator for Fixed {
    fn allocate_raw(&mut self, _bytes: usize, _align: usize, _boundary: usize) -> Option<u64> {
        self.1 += 1;
        self.0
    }
}

#[test]
fn recorded_allocator_hands_on_what_the_source_says() {
    let mut allocator = RecordedAllocator::new(Fixed(Some(0x1234), 0));
    assert_eq!(allocator.allocate(10), Some(0x1234));
    assert_eq!(allocator.allocate_with_align(10, 64, 0).unwrap().raw_address(), 0x1234);
    assert_eq!(allocator.raw().1, 2);
    let mut none = RecordedAllocator::new(Fixed(None, 0));
    assert_eq!(none.allocate(10), None);
    assert!(none.allocate_with_align(10, 64, 0).is_none());
    assert_eq!(none.into_raw().1, 2);
}

#[test]
fn the_heap_is_set_aside_in_the_first_stretch_that_holds_it() {
    let regions = vec![
        MemoryRegion { conventional: false, start: 0x1000, frames: FRAMES * 2 },
        MemoryRegion { conventional: true, start: 0x10_0000, frames: FRAMES - 1 },
        MemoryRegion { conventional: true, start: 0x4000_0000, frames: FRAMES },
        MemoryRegion { conventional: true, start: 0x8000_0000, frames: FRAMES * 4 },
    ];
    let mut heap = init_alloc(&regions).unwrap();
    assert_eq!(heap.allocate(64), Some(0x4000_0000));
    assert_eq!(heap.allocate((FRAMES * FRAME_SIZE) as usize), None);
    assert_eq!(heap.allocate((FRAMES * FRAME_SIZE) as usize - 64), Some(0x4000_0040));
}

#[test]
fn no_heap_is_set_aside_where_no_stretch_holds_it() {
    let regions = vec![
        MemoryRegion { conventional: false, start: 0x1000, frames: FRAMES * 2 },
        MemoryRegion { conventional: true, start: u64::MAX - 0x1000, frames: FRAMES },
    ];
    assert_eq!(
        init_alloc(&regions).err(),
        Some(KernelError::FailedAllocate(AllocateReason::InitializeGlobalAllocator))
    );
    assert!(init_alloc(&Vec::new()).is_err());
}
