//! The index page view: the index header that starts the body of a B+Tree
//! node page, and record lookup, including the two sentinel records.
use crate::bytes::{
    be16, be64, push_be16, push_be64, read_be16, read_be64, u16_be, u64_be, lemma_be16_of,
    lemma_be64_of,
};
use crate::page::{
    check_type, expect_type, FormatError, Page, PageType, PAGE_HEADER_SIZE, PAGE_SIZE,
};
use vstd::prelude::*;

verus! {

/// Size in bytes of the encoded index header.
pub const INDEX_HEADER_SIZE: usize = 36;

/// Page offset of the infimum sentinel record.
pub const INFIMUM_OFFSET: usize = 99;

/// Page offset of the supremum sentinel record.
pub const SUPREMUM_OFFSET: usize = 112;

/// Row format of the records on an index page.
#[derive(Clone, Copy, Debug, PartialEq, Eq, Structural)]
pub enum IndexFormat {
    Redundant,
    Compact,
}

/// Direction of the last inserts on an index page.
#[derive(Clone, Copy, Debug, PartialEq, Eq, Structural)]
pub enum PageDirection {
    /// Code 1.
    Left,
    /// Code 2.
    Right,
    /// Code 3.
    SameRec,
    /// Code 4.
    SamePage,
    /// Code 5.
    NoDirection,
}

/// The direction with code `c`, if any.
pub open spec fn direction_of_code(c: u16) -> Option<PageDirection> {
    match c {
        1 => Some(PageDirection::Left),
        2 => Some(PageDirection::Right),
        3 => Some(PageDirection::SameRec),
        4 => Some(PageDirection::SamePage),
        5 => Some(PageDirection::NoDirection),
        _ => None,
    }
}

/// The on-disk code of a direction.
pub open spec fn direction_code(d: PageDirection) -> u16 {
    match d {
        PageDirection::Left => 1,
        PageDirection::Right => 2,
        PageDirection::SameRec => 3,
        PageDirection::SamePage => 4,
        PageDirection::NoDirection => 5,
    }
}

impl PageDirection {
    /// Decodes a direction code.
    pub fn from_code(c: u16) -> (r: Result<PageDirection, FormatError>)
        ensures
            r == (match direction_of_code(c) {
                Some(d) => Ok(d),
                None => Err(FormatError::InvalidDirection(c)),
            }),
    {
        match c {
            1 => Ok(PageDirection::Left),
            2 => Ok(PageDirection::Right),
            3 => Ok(PageDirection::SameRec),
            4 => Ok(PageDirection::SamePage),
            5 => Ok(PageDirection::NoDirection),
            _ => Err(FormatError::InvalidDirection(c)),
        }
    }

    /// The on-disk code of this direction.
    pub fn code(self) -> (r: u16)
        ensures
            r == direction_code(self),
    {
        match self {
            PageDirection::Left => 1,
            PageDirection::Right => 2,
            PageDirection::SameRec => 3,
            PageDirection::SamePage => 4,
            PageDirection::NoDirection => 5,
        }
    }
}

/// The header at the start of an index page's body.
#[derive(Clone, Copy, Debug, PartialEq, Eq, Structural)]
pub struct IndexHeader {
    pub number_of_directory_slots: u16,
    pub heap_top_position: u16,
    /// The top bit of the word at bytes 4..6.
    pub format: IndexFormat,
    /// The low 15 bits of the word at bytes 4..6.
    pub number_of_heap_records: u16,
    pub first_garbage_record_offset: u16,
    pub garbage_space: u16,
    pub last_insert_position: u16,
    pub page_direction: PageDirection,
    pub number_of_inserts_in_page_direction: u16,
    pub number_of_records: u16,
    pub maximum_transaction_id: u64,
    pub page_level: u16,
    pub index_id: u64,
}

/// The row format flagged by the word that also holds the heap record count.
pub open spec fn format_of_word(w: u16) -> IndexFormat {
    if w & 0x8000u16 == 0 {
        IndexFormat::Redundant
    } else {
        IndexFormat::Compact
    }
}

/// What decoding an index header from `s` gives.
pub open spec fn parse_index_header(s: Seq<u8>) -> Result<IndexHeader, FormatError> {
    if s.len() < INDEX_HEADER_SIZE {
        Err(FormatError::TooShort)
    } else {
        match direction_of_code(be16(s, 12)) {
            None => Err(FormatError::InvalidDirection(be16(s, 12))),
            Some(d) => Ok(
                IndexHeader {
                    number_of_directory_slots: be16(s, 0),
                    heap_top_position: be16(s, 2),
                    format: format_of_word(be16(s, 4)),
                    number_of_heap_records: be16(s, 4) & 0x7FFFu16,
                    first_garbage_record_offset: be16(s, 6),
                    garbage_space: be16(s, 8),
                    last_insert_position: be16(s, 10),
                    page_direction: d,
                    number_of_inserts_in_page_direction: be16(s, 14),
                    number_of_records: be16(s, 16),
                    maximum_transaction_id: be64(s, 18),
                    page_level: be16(s, 26),
                    index_id: be64(s, 28),
                },
            ),
        }
    }
}

/// The word at bytes 4..6 of an encoded index header.
pub open spec fn format_word(h: IndexHeader) -> u16 {
    match h.format {
        IndexFormat::Redundant => h.number_of_heap_records,
        IndexFormat::Compact => h.number_of_heap_records | 0x8000u16,
    }
}

/// The `INDEX_HEADER_SIZE` bytes that encode `h`.
pub open spec fn index_header_bytes(h: IndexHeader) -> Seq<u8> {
    u16_be(h.number_of_directory_slots) + u16_be(h.heap_top_position) + u16_be(format_word(h))
        + u16_be(h.first_garbage_record_offset) + u16_be(h.garbage_space) + u16_be(
        h.last_insert_position,
    ) + u16_be(direction_code(h.page_direction)) + u16_be(h.number_of_inserts_in_page_direction)
        + u16_be(h.number_of_records) + u64_be(h.maximum_transaction_id) + u16_be(h.page_level)
        + u64_be(h.index_id)
}

impl IndexHeader {
    /// Decodes an index header from the start of `data`.
    pub fn from_bytes(data: &[u8]) -> (r: Result<IndexHeader, FormatError>)
        ensures
            r == parse_index_header(data@),
    {
        if data.len() < INDEX_HEADER_SIZE {
            return Err(FormatError::TooShort);
        }
        let word = read_be16(data, 4);
        let page_direction = match PageDirection::from_code(read_be16(data, 12)) {
            Err(e) => {
                return Err(e);
            },
            Ok(d) => d,
        };
        let format = if word & 0x8000u16 == 0 {
            IndexFormat::Redundant
        } else {
            IndexFormat::Compact
        };
        Ok(
            IndexHeader {
                number_of_directory_slots: read_be16(data, 0),
                heap_top_position: read_be16(data, 2),
                format,
                number_of_heap_records: word & 0x7FFFu16,
                first_garbage_record_offset: read_be16(data, 6),
                garbage_space: read_be16(data, 8),
                last_insert_position: read_be16(data, 10),
                page_direction,
                number_of_inserts_in_page_direction: read_be16(data, 14),
                number_of_records: read_be16(data, 16),
                maximum_transaction_id: read_be64(data, 18),
                page_level: read_be16(data, 26),
                index_id: read_be64(data, 28),
            },
        )
    }

    /// Encodes this header as `INDEX_HEADER_SIZE` bytes.
    pub fn to_bytes(&self) -> (r: Vec<u8>)
        ensures
            r@ == index_header_bytes(*self),
            r@.len() == INDEX_HEADER_SIZE,
    {
        let word = match self.format {
            IndexFormat::Redundant => self.number_of_heap_records,
            IndexFormat::Compact => self.number_of_heap_records | 0x8000u16,
        };
        let mut out: Vec<u8> = Vec::new();
        push_be16(&mut out, self.number_of_directory_slots);
        push_be16(&mut out, self.heap_top_position);
        push_be16(&mut out, word);
        push_be16(&mut out, self.first_garbage_record_offset);
        push_be16(&mut out, self.garbage_space);
        push_be16(&mut out, self.last_insert_position);
        push_be16(&mut out, self.page_direction.code());
        push_be16(&mut out, self.number_of_inserts_in_page_direction);
        push_be16(&mut out, self.number_of_records);
        push_be64(&mut out, self.maximum_transaction_id);
        push_be16(&mut out, self.page_level);
        push_be64(&mut out, self.index_id);
        assert(out@ =~= index_header_bytes(*self));
        out
    }
}

/// The format flag and the heap record count share the word at bytes 4..6:
/// the top bit is the flag, the low 15 bits are the count.
pub proof fn lemma_format_word_split(s: Seq<u8>, h: IndexHeader)
    requires
        parse_index_header(s) == Ok::<IndexHeader, FormatError>(h),
    ensures
        (h.format == IndexFormat::Compact) <==> (be16(s, 4) & 0x8000u16 != 0),
        h.number_of_heap_records == be16(s, 4) & 0x7FFFu16,
{
}

/// The direction field decodes exactly for codes 1 to 5, to the five
/// directions in order; any other code fails with `InvalidDirection`.
pub proof fn lemma_direction_codes(s: Seq<u8>)
    requires
        s.len() >= INDEX_HEADER_SIZE,
    ensures
        1 <= be16(s, 12) <= 5 <==> parse_index_header(s) is Ok,
        !(1 <= be16(s, 12) <= 5) ==> parse_index_header(s) == Err::<IndexHeader, FormatError>(
            FormatError::InvalidDirection(be16(s, 12)),
        ),
        parse_index_header(s) matches Ok(h) ==> direction_code(h.page_direction) == be16(s, 12),
{
}

/// An encoded index header decodes to itself, given a heap record count
/// that fits in 15 bits.
#[verifier::rlimit(80)]
pub proof fn lemma_index_header_round_trip(h: IndexHeader, rest: Seq<u8>)
    requires
        h.number_of_heap_records <= 0x7FFFu16,
    ensures
        parse_index_header(index_header_bytes(h) + rest) == Ok::<IndexHeader, FormatError>(h),
{
    let s = index_header_bytes(h) + rest;
    let w = format_word(h);
    let n = h.number_of_heap_records;
    assert(s.subrange(0, 2) =~= u16_be(h.number_of_directory_slots));
    assert(s.subrange(2, 4) =~= u16_be(h.heap_top_position));
    assert(s.subrange(4, 6) =~= u16_be(w));
    assert(s.subrange(6, 8) =~= u16_be(h.first_garbage_record_offset));
    assert(s.subrange(8, 10) =~= u16_be(h.garbage_space));
    assert(s.subrange(10, 12) =~= u16_be(h.last_insert_position));
    assert(s.subrange(12, 14) =~= u16_be(direction_code(h.page_direction)));
    assert(s.subrange(14, 16) =~= u16_be(h.number_of_inserts_in_page_direction));
    assert(s.subrange(16, 18) =~= u16_be(h.number_of_records));
    assert(s.subrange(18, 26) =~= u64_be(h.maximum_transaction_id));
    assert(s.subrange(26, 28) =~= u16_be(h.page_level));
    assert(s.subrange(28, 36) =~= u64_be(h.index_id));
    lemma_be16_of(h.number_of_directory_slots, s, 0);
    lemma_be16_of(h.heap_top_position, s, 2);
    lemma_be16_of(w, s, 4);
    lemma_be16_of(h.first_garbage_record_offset, s, 6);
    lemma_be16_of(h.garbage_space, s, 8);
    lemma_be16_of(h.last_insert_position, s, 10);
    lemma_be16_of(direction_code(h.page_direction), s, 12);
    lemma_be16_of(h.number_of_inserts_in_page_direction, s, 14);
    lemma_be16_of(h.number_of_records, s, 16);
    lemma_be64_of(h.maximum_transaction_id, s, 18);
    lemma_be16_of(h.page_level, s, 26);
    lemma_be64_of(h.index_id, s, 28);
    assert(n <= 0x7FFFu16 ==> n & 0x8000u16 == 0 && n & 0x7FFFu16 == n) by (bit_vector);
    assert(n <= 0x7FFFu16 ==> (n | 0x8000u16) & 0x8000u16 != 0 && (n | 0x8000u16) & 0x7FFFu16
        == n) by (bit_vector);
}

/// A record, located by its byte offset within the page.
#[derive(Clone, Copy, Debug, PartialEq, Eq, Structural)]
pub struct Record {
    pub offset: usize,
}

/// What resolving a record at `offset` gives: offsets inside the page body resolve.
pub open spec fn record_result(offset: usize) -> Result<Record, FormatError> {
    if PAGE_HEADER_SIZE <= offset < PAGE_SIZE {
        Ok(Record { offset })
    } else {
        Err(FormatError::OffsetOutOfRange(offset))
    }
}

/// The body of the page held in `s`.
pub open spec fn body_of(s: Seq<u8>) -> Seq<u8> {
    s.subrange(PAGE_HEADER_SIZE as int, PAGE_SIZE as int)
}

/// What viewing the page held in `s` as an index page gives: its index header.
pub open spec fn index_view_result(s: Seq<u8>) -> Result<IndexHeader, FormatError> {
    match check_type(s, PageType::Index) {
        Err(e) => Err(e),
        Ok(_) => parse_index_header(body_of(s)),
    }
}

/// A page of type `Index`, with its decoded index header.
pub struct IndexPage<'a> {
    pub page: &'a Page,
    pub index_header: IndexHeader,
}

impl<'a> IndexPage<'a> {
    /// Views `page` as an index page: its type must be `Index` and its body
    /// must start with a valid index header.
    pub fn try_from_page(page: &'a Page) -> (r: Result<IndexPage<'a>, FormatError>)
        ensures
            match r {
                Ok(v) => v.page == page && index_view_result(page.raw_data@) == Ok::<
                    IndexHeader,
                    FormatError,
                >(v.index_header),
                Err(e) => index_view_result(page.raw_data@) == Err::<IndexHeader, FormatError>(e),
            },
    {
        match expect_type(page, PageType::Index) {
            Err(e) => Err(e),
            Ok(()) => match IndexHeader::from_bytes(page.body()) {
                Err(e) => Err(e),
                Ok(index_header) => Ok(IndexPage { page, index_header }),
            },
        }
    }

    /// Resolves the record at page offset `offset`.
    pub fn record_at(&self, offset: usize) -> (r: Result<Record, FormatError>)
        ensures
            r == record_result(offset),
    {
        if PAGE_HEADER_SIZE <= offset && offset < PAGE_SIZE {
            Ok(Record { offset })
        } else {
            Err(FormatError::OffsetOutOfRange(offset))
        }
    }

    /// The infimum sentinel record, which bounds the record chain from below.
    pub fn infimum(&self) -> (r: Result<Record, FormatError>)
        ensures
            r == Ok::<Record, FormatError>(Record { offset: INFIMUM_OFFSET }),
    {
        self.record_at(INFIMUM_OFFSET)
    }

    /// The supremum sentinel record, which bounds the record chain from above.
    pub fn supremum(&self) -> (r: Result<Record, FormatError>)
        ensures
            r == Ok::<Record, FormatError>(Record { offset: SUPREMUM_OFFSET }),
    {
        self.record_at(SUPREMUM_OFFSET)
    }
}

} // verus!
