use xhc_core::elf::EhdrPtr;
use xhc_core::elf::PType;
use xhc_core::elf::Phdr;
use xhc_core::elf::PhdrIter;

fn put_le(bytes: &mut Vec<u8>, at: usize, value: u64, count: usize) {
    for i in 0..count {
        bytes[at + i] = (value >> (8 * i)) as u8;
    }
}

fn phdr(p_type: u32, p_flags: u32, p_offset: u64, p_vaddr: u64, p_filesz: u64, p_memsz: u64) -> Vec<u8> {
    let mut bytes = vec![0u8; 56];
    put_le(&mut bytes, 0, p_type as u64, 4);
    put_le(&mut bytes, 4, p_flags as u64, 4);
    put_le(&mut bytes, 8, p_offset, 8);
    put_le(&mut bytes, 16, p_vaddr, 8);
    put_le(&mut bytes, 24, p_vaddr, 8);
    put_le(&mut bytes, 32, p_filesz, 8);
    put_le(&mut bytes, 40, p_memsz, 8);
    put_le(&mut bytes, 48, 0x1000, 8);
    bytes
}

/// A file with a header, four program headers right behind it, two of them
/// of segments to load.
fn load_ehdr() -> Vec<u8> {
    let mut bytes = vec![0u8; 64];
    bytes[0] = 0x7f;
    bytes[1] = b'E';
    bytes[2] = b'L';
    bytes[3] = b'F';
    put_le(&mut bytes, 32, 64, 8);
    put_le(&mut bytes, 54, 56, 2);
    put_le(&mut bytes, 56, 4, 2);
    bytes.extend(phdr(6, 4, 64, 0x40_0040, 224, 224));
    bytes.extend(phdr(1, 5, 0, 0x40_0000, 0x1234, 0x1234));
    bytes.extend(phdr(1, 6, 0x2000, 0x60_0000, 0x100, 0x2000));
    bytes.extend(phdr(0x6474_e551, 6, 0, 0, 0, 0));
    bytes
}

#[test]
fn it_cast_to_ehdr() {
    let file = load_ehdr();
    let mut phdr_iter = PhdrIter::new(EhdrPtr::new(&file));
    let phdr = phdr_iter.next();
    assert!(phdr.is_some());
}

#[test]
fn it_obtain_phdr_ptr() {
    let file = load_ehdr();
    let ehdr_ptr = EhdrPtr::new(&file);
    let phdr_page_num = ehdr_ptr.ph_num();
    let mut phdr_iter = PhdrIter::new(ehdr_ptr);

    let v: Vec<Phdr> = phdr_iter.collect();
    assert_eq!(phdr_page_num, 0x04);
    assert_eq!(v.len(), phdr_page_num as usize)
}

#[test]
fn it_contains_two_load_segment() {
    let file = load_ehdr();
    let ehdr_ptr = EhdrPtr::new(&file);
    let mut phdr_iter = PhdrIter::new(ehdr_ptr);

    let v: Vec<Phdr> = phdr_iter
        .collect()
        .into_iter()
        .filter(|p| p.p_type == PType::PtLoad)
        .collect();

    assert_eq!(v.len(), 2)
}

#[test]
fn program_headers_are_read_field_by_field() {
    let file = load_ehdr();
    let mut phdr_iter = PhdrIter::new(EhdrPtr::new(&file));
    assert_eq!(
        phdr_iter.next(),
        Some(Phdr {
            p_type: PType::PtPhdr,
            p_flags: 4,
            p_offset: 64,
            p_vaddr: 0x40_0040,
            p_paddr: 0x40_0040,
            p_filesz: 224,
            p_memsz: 224,
            p_align: 0x1000,
        })
    );
    assert_eq!(
        phdr_iter.next(),
        Some(Phdr {
            p_type: PType::PtLoad,
            p_flags: 5,
            p_offset: 0,
            p_vaddr: 0x40_0000,
            p_paddr: 0x40_0000,
            p_filesz: 0x1234,
            p_memsz: 0x1234,
            p_align: 0x1000,
        })
    );
    let third = phdr_iter.next().unwrap();
    assert_eq!(third.p_memsz, 0x2000);
    let fourth = phdr_iter.next().unwrap();
    assert_eq!(fourth.p_type, PType::Other(0x6474_e551));
    assert_eq!(phdr_iter.next(), None);
    assert_eq!(phdr_iter.next(), None);
}

#[test]
fn a_file_without_program_headers_hands_out_none() {
    let mut file = load_ehdr();
    put_le(&mut file, 56, 0, 2);
    let mut phdr_iter = PhdrIter::new(EhdrPtr::new(&file));
    assert_eq!(phdr_iter.next(), None);
}

#[test]
fn a_file_that_is_cut_short_hands_out_only_the_headers_that_are_whole() {
    let mut file = load_ehdr();
    file.truncate(64 + 56 + 55);
    let mut phdr_iter = PhdrIter::new(EhdrPtr::new(&file));
    assert_eq!(phdr_iter.collect().len(), 1);
}

#[test]
fn a_file_shorter_than_a_header_announces_no_program_headers() {
    let file = vec![0x7f, b'E', b'L', b'F'];
    let ehdr = EhdrPtr::new(&file);
    assert_eq!(ehdr.ph_num(), 0);
    assert_eq!(ehdr.ph_offset(), 0);
    assert_eq!(PhdrIter::new(ehdr).next(), None);
}
