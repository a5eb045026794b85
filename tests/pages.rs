use innodb_pages::data::{DataPage, DATA_PAGE_BODY_SIZE, DATA_PAGE_HEADER_SIZE};
use innodb_pages::index::{
    IndexFormat, IndexHeader, IndexPage, PageDirection, Record, INDEX_HEADER_SIZE,
};
use innodb_pages::page::{
    decode_header, encode_header, expect_type, FormatError, Page, PageHeader, PageId, PageType,
    NO_SIBLING, PAGE_HEADER_SIZE, PAGE_SIZE,
};

const ALL_CODES: [u16; 32] = [
    0, 2, 3, 4, 5, 6, 7, 8, 9, 10, 11, 12, 13, 14, 15, 16, 17, 18, 19, 20, 21, 22, 23, 24, 25, 26,
    27, 28, 29, 17853, 17854, 17855,
];

fn header(page_id: u32, page_type: PageType) -> PageHeader {
    PageHeader { page_id: PageId(page_id), prev: NO_SIBLING, next: NO_SIBLING, lsn: 7, page_type }
}

fn page_with(h: &PageHeader, body: &[u8]) -> Vec<u8> {
    let mut bytes = encode_header(h);
    bytes.extend_from_slice(body);
    bytes.resize(PAGE_SIZE, 0);
    bytes
}

fn index_header(format: IndexFormat, heap: u16) -> IndexHeader {
    IndexHeader {
        number_of_directory_slots: 2,
        heap_top_position: 120,
        format,
        number_of_heap_records: heap,
        first_garbage_record_offset: 0,
        garbage_space: 0,
        last_insert_position: 0,
        page_direction: PageDirection::NoDirection,
        number_of_inserts_in_page_direction: 0,
        number_of_records: 5,
        maximum_transaction_id: 0x0102_0304_0506_0708,
        page_level: 0,
        index_id: 42,
    }
}

#[test]
fn every_registered_code_round_trips() {
    for c in ALL_CODES {
        let t = PageType::try_from(c).unwrap();
        assert_eq!(t.code(), c);
    }
    assert_eq!(PageType::try_from(17855), Ok(PageType::Index));
    assert_eq!(PageType::try_from(17854), Ok(PageType::RTree));
    assert_eq!(PageType::try_from(17853), Ok(PageType::SDI));
    assert_eq!(PageType::try_from(8), Ok(PageType::FspHdr));
    assert_eq!(PageType::try_from(0), Ok(PageType::Allocated));
}

#[test]
fn unregistered_codes_are_rejected() {
    for c in [1u16, 30, 31, 100, 17852, 17856, 65535] {
        assert_eq!(PageType::try_from(c), Err(FormatError::UnknownPageType(c)));
    }
}

#[test]
fn default_page_type_is_allocated() {
    assert_eq!(PageType::default(), PageType::Allocated);
}

#[test]
fn short_buffers_fail_too_short() {
    assert_eq!(decode_header(&[]), Err(FormatError::TooShort));
    let bytes = page_with(&header(3, PageType::Index), &[]);
    assert_eq!(decode_header(&bytes[..PAGE_SIZE - 1]), Err(FormatError::TooShort));
    assert_eq!(decode_header(&bytes[..PAGE_HEADER_SIZE]), Err(FormatError::TooShort));
}

#[test]
fn header_round_trips_through_a_full_page() {
    let h = PageHeader {
        page_id: PageId(0xDEAD_BEEF),
        prev: 17,
        next: NO_SIBLING,
        lsn: 0x1122_3344_5566_7788,
        page_type: PageType::Index,
    };
    let encoded = encode_header(&h);
    assert_eq!(encoded.len(), PAGE_HEADER_SIZE);
    assert_eq!(&encoded[0..4], &[0xDE, 0xAD, 0xBE, 0xEF]);
    assert_eq!(&encoded[20..22], &[0x45, 0xBF]);
    let bytes = page_with(&h, &[9, 9, 9]);
    assert_eq!(decode_header(&bytes), Ok(h));
    let page = Page::from_bytes(&bytes).unwrap();
    assert_eq!(page.header(), Ok(h));
    assert_eq!(page.body().len(), PAGE_SIZE - PAGE_HEADER_SIZE);
    assert_eq!(&page.body()[..3], &[9, 9, 9]);
}

#[test]
fn page_from_short_buffers_fails_too_short() {
    assert_eq!(Page::from_bytes(&[0u8; 0]).err(), Some(FormatError::TooShort));
    assert_eq!(Page::from_bytes(&[0u8; 100]).err(), Some(FormatError::TooShort));
    assert_eq!(Page::from_bytes(&[0u8; PAGE_SIZE - 1]).err(), Some(FormatError::TooShort));
    let full = page_with(&header(2, PageType::Index), &[]);
    assert_eq!(Page::from_bytes(&full[..PAGE_SIZE - 1]).err(), Some(FormatError::TooShort));
}

#[test]
fn page_from_long_buffer_keeps_first_page() {
    let mut bytes = page_with(&header(2, PageType::Sys), &[4]);
    bytes.extend_from_slice(&[7u8; 10]);
    let page = Page::from_bytes(&bytes).unwrap();
    assert_eq!(page.raw_data.to_vec(), bytes[..PAGE_SIZE].to_vec());
}

#[test]
fn header_with_unknown_type_code_fails() {
    let mut bytes = page_with(&header(1, PageType::Sys), &[]);
    bytes[20] = 0;
    bytes[21] = 1;
    assert_eq!(decode_header(&bytes), Err(FormatError::UnknownPageType(1)));
}

#[test]
fn expect_type_reports_mismatch() {
    let page = Page::from_bytes(&page_with(&header(1, PageType::FspHdr), &[])).unwrap();
    assert_eq!(expect_type(&page, PageType::FspHdr), Ok(()));
    assert_eq!(
        expect_type(&page, PageType::Index),
        Err(FormatError::PageTypeMismatch { expected: PageType::Index, actual: PageType::FspHdr })
    );
}

#[test]
fn default_page_is_zeroed() {
    let page = Page::default();
    assert!(page.raw_data.iter().all(|b| *b == 0));
    assert_eq!(page.header(), Ok(header_zero()));
}

fn header_zero() -> PageHeader {
    PageHeader { page_id: PageId(0), prev: 0, next: 0, lsn: 0, page_type: PageType::Allocated }
}

#[test]
fn page_id_conversions() {
    assert_eq!(usize::from(PageId(7)), 7usize);
    assert_eq!(PageId::from(9usize), PageId(9));
    assert_eq!(PageId::from(-1i32), PageId(0xFFFF_FFFF));
    assert!(PageId(1) < PageId(2));
}

#[test]
fn index_header_redundant_fixture() {
    let mut raw = vec![0u8; INDEX_HEADER_SIZE];
    raw[4] = 0x00;
    raw[5] = 0x03;
    raw[13] = 2;
    raw[35] = 9;
    let h = IndexHeader::from_bytes(&raw).unwrap();
    assert_eq!(h.format, IndexFormat::Redundant);
    assert_eq!(h.number_of_heap_records, 3);
    assert_eq!(h.page_direction, PageDirection::Right);
    assert_eq!(h.index_id, 9);
}

#[test]
fn index_header_compact_fixture() {
    let mut raw = vec![0u8; INDEX_HEADER_SIZE];
    raw[0] = 0x00;
    raw[1] = 0x02;
    raw[4] = 0x80 | 0x12;
    raw[5] = 0x34;
    raw[13] = 5;
    raw[17] = 5;
    raw[18..26].copy_from_slice(&[0, 0, 0, 0, 0, 0, 1, 0]);
    raw[27] = 1;
    raw[28..36].copy_from_slice(&[0, 0, 0, 0, 0, 0, 0, 42]);
    let h = IndexHeader::from_bytes(&raw).unwrap();
    assert_eq!(h.format, IndexFormat::Compact);
    assert_eq!(h.number_of_heap_records, 0x1234);
    assert_eq!(h.number_of_directory_slots, 2);
    assert_eq!(h.number_of_records, 5);
    assert_eq!(h.maximum_transaction_id, 256);
    assert_eq!(h.page_level, 1);
    assert_eq!(h.index_id, 42);
    assert_eq!(h.page_direction, PageDirection::NoDirection);
}

#[test]
fn index_header_too_short() {
    let raw = vec![0u8; INDEX_HEADER_SIZE - 1];
    assert_eq!(IndexHeader::from_bytes(&raw), Err(FormatError::TooShort));
}

#[test]
fn index_header_round_trips() {
    for format in [IndexFormat::Redundant, IndexFormat::Compact] {
        let h = index_header(format, 0x7FFF);
        let bytes = h.to_bytes();
        assert_eq!(bytes.len(), INDEX_HEADER_SIZE);
        assert_eq!(IndexHeader::from_bytes(&bytes), Ok(h));
    }
    let compact = index_header(IndexFormat::Compact, 3).to_bytes();
    assert_eq!(&compact[4..6], &[0x80, 0x03]);
}

#[test]
fn page_direction_codes() {
    let expected = [
        PageDirection::Left,
        PageDirection::Right,
        PageDirection::SameRec,
        PageDirection::SamePage,
        PageDirection::NoDirection,
    ];
    for (i, d) in expected.iter().enumerate() {
        let code = (i + 1) as u16;
        assert_eq!(PageDirection::from_code(code), Ok(*d));
        assert_eq!(d.code(), code);
        let mut raw = vec![0u8; INDEX_HEADER_SIZE];
        raw[13] = code as u8;
        assert_eq!(IndexHeader::from_bytes(&raw).unwrap().page_direction, *d);
    }
    for code in [0u16, 6, 7, 256, 65535] {
        assert_eq!(PageDirection::from_code(code), Err(FormatError::InvalidDirection(code)));
        let mut raw = vec![0u8; INDEX_HEADER_SIZE];
        raw[12] = (code >> 8) as u8;
        raw[13] = code as u8;
        assert_eq!(IndexHeader::from_bytes(&raw), Err(FormatError::InvalidDirection(code)));
    }
}

#[test]
fn index_page_sentinels_resolve() {
    let ih = index_header(IndexFormat::Compact, 2).to_bytes();
    let page = Page::from_bytes(&page_with(&header(4, PageType::Index), &ih)).unwrap();
    let view = IndexPage::try_from_page(&page).unwrap();
    assert_eq!(view.index_header.index_id, 42);
    assert_eq!(view.infimum(), Ok(Record { offset: 99 }));
    assert_eq!(view.supremum(), Ok(Record { offset: 112 }));
}

#[test]
fn index_page_record_offsets() {
    let ih = index_header(IndexFormat::Redundant, 2).to_bytes();
    let page = Page::from_bytes(&page_with(&header(4, PageType::Index), &ih)).unwrap();
    let view = IndexPage::try_from_page(&page).unwrap();
    assert_eq!(view.record_at(PAGE_HEADER_SIZE), Ok(Record { offset: PAGE_HEADER_SIZE }));
    assert_eq!(view.record_at(PAGE_SIZE - 1), Ok(Record { offset: PAGE_SIZE - 1 }));
    assert_eq!(view.record_at(PAGE_SIZE), Err(FormatError::OffsetOutOfRange(PAGE_SIZE)));
    assert_eq!(view.record_at(3), Err(FormatError::OffsetOutOfRange(3)));
}

#[test]
fn index_page_rejects_other_types_and_bad_headers() {
    let ih = index_header(IndexFormat::Compact, 2).to_bytes();
    let page = Page::from_bytes(&page_with(&header(4, PageType::Blob), &ih)).unwrap();
    assert_eq!(
        IndexPage::try_from_page(&page).err(),
        Some(FormatError::PageTypeMismatch { expected: PageType::Index, actual: PageType::Blob })
    );
    let mut bad = ih.clone();
    bad[13] = 0;
    let page = Page::from_bytes(&page_with(&header(4, PageType::Index), &bad)).unwrap();
    assert_eq!(IndexPage::try_from_page(&page).err(), Some(FormatError::InvalidDirection(0)));
}

#[test]
fn data_page_new_is_zeroed() {
    let d = DataPage::new();
    assert_eq!(d.page_id(), PageId(0));
    assert_eq!(d.data_header().offset, 0);
    assert_eq!(d.header(), Ok(header_zero()));
    assert_eq!(d.body().len(), DATA_PAGE_BODY_SIZE);
    assert_eq!(DATA_PAGE_HEADER_SIZE + DATA_PAGE_BODY_SIZE, PAGE_SIZE - PAGE_HEADER_SIZE);
}

#[test]
fn data_page_view_reads_fields() {
    let mut body = vec![0u8; DATA_PAGE_HEADER_SIZE];
    body[0..4].copy_from_slice(&[0, 0, 1, 2]);
    body.extend_from_slice(&[5, 6, 7]);
    let page = Page::from_bytes(&page_with(&header(12, PageType::Allocated), &body)).unwrap();
    let d = DataPage::try_from_page(&page).unwrap();
    assert_eq!(d.page_id(), PageId(12));
    assert_eq!(d.data_header().offset, 258);
    assert_eq!(&d.body()[..3], &[5, 6, 7]);
    assert_eq!(d.header().unwrap().page_type, PageType::Allocated);
}

#[test]
fn data_page_view_rejects_index_pages() {
    let page = Page::from_bytes(&page_with(&header(12, PageType::Index), &[])).unwrap();
    assert_eq!(
        DataPage::try_from_page(&page).err().unwrap(),
        FormatError::PageTypeMismatch { expected: PageType::Allocated, actual: PageType::Index }
    );
}
