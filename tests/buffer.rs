use innodb_pages::buffer::{block_offset, BlockSource, BufferError, BufferManager, IoError};
use innodb_pages::data::{DataPage, DATA_PAGE_HEADER_SIZE};
use innodb_pages::index::{IndexFormat, IndexHeader, IndexPage, PageDirection};
use innodb_pages::page::{encode_header, PageHeader, PageId, PageType, NO_SIBLING, PAGE_SIZE};
use innodb_pages::simple::SimpleBufferManager;

/// An in-memory file that counts the reads made of it.
struct MemFile {
    bytes: Vec<u8>,
    reads: usize,
    fail: bool,
}

impl MemFile {
    fn new(bytes: Vec<u8>) -> MemFile {
        MemFile { bytes, reads: 0, fail: false }
    }
}

impl BlockSource for MemFile {
    fn read_block(&mut self, byte_offset: u64, len: usize) -> Result<Vec<u8>, IoError> {
        self.reads += 1;
        if self.fail {
            return Err(IoError::Read);
        }
        let start = (byte_offset as usize).min(self.bytes.len());
        let end = (start + len).min(self.bytes.len());
        Ok(self.bytes[start..end].to_vec())
    }
}

fn page(page_id: u32, page_type: PageType, body: &[u8]) -> Vec<u8> {
    let h = PageHeader { page_id: PageId(page_id), prev: NO_SIBLING, next: NO_SIBLING, lsn: 1, page_type };
    let mut bytes = encode_header(&h);
    bytes.extend_from_slice(body);
    bytes.resize(PAGE_SIZE, 0);
    bytes
}

fn file_of(n: u32) -> Vec<u8> {
    let mut file = Vec::new();
    for i in 0..n {
        file.extend(page(i, PageType::Allocated, &[]));
    }
    file
}

#[test]
fn repeated_pin_reads_once() {
    let mut bm = SimpleBufferManager::new(MemFile::new(file_of(3)), 4);
    let first = bm.pin(1).unwrap().raw_data.to_vec();
    let second = bm.pin(1).unwrap().raw_data.to_vec();
    assert_eq!(first, second);
    assert_eq!(bm.source().reads, 1);
    assert_eq!(bm.pin_count(1), 2);
    assert_eq!(bm.resident(), 1);
}

#[test]
fn pin_then_unpin_releases_the_page() {
    let mut bm = SimpleBufferManager::new(MemFile::new(file_of(3)), 2);
    bm.pin(0).unwrap();
    assert_eq!(bm.pin_count(0), 1);
    bm.unpin(0);
    assert_eq!(bm.pin_count(0), 0);
    assert!(bm.is_resident(0));
    bm.unpin(0);
    bm.unpin(2);
    assert_eq!(bm.pin_count(0), 0);
    assert_eq!(bm.resident(), 1);
}

#[test]
fn eviction_spares_pinned_pages() {
    let mut bm = SimpleBufferManager::new(MemFile::new(file_of(6)), 3);
    bm.pin(0).unwrap();
    bm.pin(1).unwrap();
    bm.pin(2).unwrap();
    bm.unpin(2);
    bm.unpin(1);
    // Page 2 was unpinned before page 1, so it goes first.
    let p = bm.pin(3).unwrap();
    assert_eq!(p.header().unwrap().page_id, PageId(3));
    assert!(bm.is_resident(0));
    assert!(bm.is_resident(1));
    assert!(!bm.is_resident(2));
    bm.pin(4).unwrap();
    assert!(bm.is_resident(0));
    assert!(!bm.is_resident(1));
    assert_eq!(bm.resident(), 3);
    assert_eq!(bm.capacity(), 3);
}

#[test]
fn full_cache_of_pinned_pages_is_exhausted() {
    let mut bm = SimpleBufferManager::new(MemFile::new(file_of(4)), 2);
    bm.pin(0).unwrap();
    bm.pin(1).unwrap();
    assert_eq!(bm.pin(2).err(), Some(BufferError::CacheExhausted));
    assert_eq!(bm.source().reads, 2);
    bm.unpin(1);
    assert!(bm.pin(2).is_ok());
    assert!(!bm.is_resident(1));
    assert!(bm.is_resident(0));
}

#[test]
fn zero_capacity_cache_is_exhausted() {
    let mut bm = SimpleBufferManager::new(MemFile::new(file_of(1)), 0);
    assert_eq!(bm.pin(0).err(), Some(BufferError::CacheExhausted));
    assert_eq!(bm.source().reads, 0);
}

#[test]
fn short_read_is_an_io_error() {
    let mut bm = SimpleBufferManager::new(MemFile::new(file_of(2)), 4);
    assert_eq!(bm.pin(2).err(), Some(BufferError::Io(IoError::ShortRead)));
    assert!(!bm.is_resident(2));
    let mut bytes = file_of(1);
    bytes.truncate(PAGE_SIZE - 1);
    let mut bm = SimpleBufferManager::new(MemFile::new(bytes), 4);
    assert_eq!(bm.pin(0).err(), Some(BufferError::Io(IoError::ShortRead)));
}

#[test]
fn source_failure_is_an_io_error() {
    let mut src = MemFile::new(file_of(2));
    src.fail = true;
    let mut bm = SimpleBufferManager::new(src, 4);
    assert_eq!(bm.pin(0).err(), Some(BufferError::Io(IoError::Read)));
    assert_eq!(bm.resident(), 0);
}

#[test]
fn three_page_file_end_to_end() {
    let ih = IndexHeader {
        number_of_directory_slots: 2,
        heap_top_position: 120,
        format: IndexFormat::Compact,
        number_of_heap_records: 7,
        first_garbage_record_offset: 0,
        garbage_space: 0,
        last_insert_position: 0,
        page_direction: PageDirection::NoDirection,
        number_of_inserts_in_page_direction: 0,
        number_of_records: 5,
        maximum_transaction_id: 0,
        page_level: 0,
        index_id: 42,
    };
    let mut file = page(0, PageType::FspHdr, &[]);
    file.extend(page(1, PageType::Index, &ih.to_bytes()));
    file.extend(page(2, PageType::Allocated, &vec![0u8; DATA_PAGE_HEADER_SIZE]));
    let mut bm = SimpleBufferManager::new(MemFile::new(file), 3);

    let p0 = bm.pin(0).unwrap();
    assert_eq!(p0.header().unwrap().page_type, PageType::FspHdr);
    bm.unpin(0);

    let p1 = bm.pin(1).unwrap();
    let view = IndexPage::try_from_page(p1).unwrap();
    assert_eq!(view.index_header.index_id, 42);
    assert_eq!(view.index_header.format, IndexFormat::Compact);
    assert_eq!(view.index_header.number_of_records, 5);
    assert_eq!(view.index_header.page_level, 0);
    bm.unpin(1);

    let p2 = bm.pin(2).unwrap();
    let data = DataPage::try_from_page(p2).unwrap();
    assert_eq!(data.data_header().offset, 0);
    assert_eq!(data.page_id(), PageId(2));
    bm.unpin(2);
    assert_eq!(bm.source().reads, 3);
}

#[test]
fn block_offsets_are_page_multiples() {
    assert_eq!(block_offset(0), 0);
    assert_eq!(block_offset(1), 4096);
    assert_eq!(block_offset(3), 12288);
    assert_eq!(block_offset(u32::MAX), 4294967295u64 * 4096);
}

#[test]
fn admit_block_passes_read_errors_on() {
    let mut bm = SimpleBufferManager::new(MemFile::new(Vec::new()), 2);
    assert_eq!(bm.admit_block(0, Err(IoError::Seek)).err(), Some(BufferError::Io(IoError::Seek)));
    assert_eq!(
        bm.admit_block(0, Ok(vec![0u8; PAGE_SIZE - 1])).err(),
        Some(BufferError::Io(IoError::ShortRead))
    );
    assert_eq!(
        bm.admit_block(0, Ok(vec![0u8; PAGE_SIZE + 1])).err(),
        Some(BufferError::Io(IoError::ShortRead))
    );
    assert_eq!(bm.resident(), 0);
    assert_eq!(bm.source().reads, 0);
}

#[test]
fn admit_block_caches_the_block_it_is_given() {
    let mut bm = SimpleBufferManager::new(MemFile::new(Vec::new()), 1);
    let block = page(9, PageType::Blob, &[1, 2, 3]);
    let p = bm.admit_block(5, Ok(block.clone())).unwrap();
    assert_eq!(p.raw_data.to_vec(), block);
    assert!(bm.is_resident(5));
    assert_eq!(bm.pin_count(5), 1);
    assert!(!bm.has_room());
    bm.unpin(5);
    assert!(bm.has_room());
    let other = page(6, PageType::Sys, &[]);
    let q = bm.admit_block(6, Ok(other.clone())).unwrap();
    assert_eq!(q.raw_data.to_vec(), other);
    assert!(!bm.is_resident(5));
    assert_eq!(bm.resident(), 1);
}

#[test]
fn pin_returns_the_block_at_its_offset() {
    let mut file = file_of(3);
    file[2 * PAGE_SIZE + 100] = 0xAB;
    let expected = file[2 * PAGE_SIZE..3 * PAGE_SIZE].to_vec();
    let mut bm = SimpleBufferManager::new(MemFile::new(file), 2);
    let p = bm.pin(2).unwrap();
    assert_eq!(p.raw_data.to_vec(), expected);
}
