//! The page: its fixed header, the page type registry and the header codec.
use crate::bytes::{
    be16, be32, be64, push_be16, push_be32, push_be64, read_be16, read_be32, read_be64, u16_be,
    u32_be, u64_be, lemma_be16_of, lemma_be32_of, lemma_be64_of,
};
use vstd::prelude::*;
use vstd::slice::slice_subrange;

verus! {

/// Size in bytes of every page.
pub const PAGE_SIZE: usize = 4096;

/// Size in bytes of the page header at the start of every page.
///
/// Layout, all integers big-endian: page id at 0, previous sibling at 4,
/// next sibling at 8, log sequence number at 12, type code at 20, then two
/// bytes of padding up to the 8-byte boundary.
pub const PAGE_HEADER_SIZE: usize = 24;

/// Sibling link value that means "no sibling".
pub const NO_SIBLING: u32 = 0xFFFF_FFFF;

/// A page's identifier, unique within a table.
#[derive(Clone, Copy, Debug, PartialEq, Eq, Structural, Hash, PartialOrd, Ord)]
pub struct PageId(pub u32);

impl From<PageId> for usize {
    fn from(value: PageId) -> (r: usize) {
        value.0 as usize
    }
}

impl vstd::std_specs::convert::FromSpecImpl<PageId> for usize {
    open spec fn obeys_from_spec() -> bool {
        true
    }

    open spec fn from_spec(v: PageId) -> usize {
        v.0 as usize
    }
}

impl From<usize> for PageId {
    /// Keeps the low 32 bits.
    fn from(value: usize) -> (r: PageId) {
        PageId(value as u32)
    }
}

impl vstd::std_specs::convert::FromSpecImpl<usize> for PageId {
    open spec fn obeys_from_spec() -> bool {
        true
    }

    open spec fn from_spec(v: usize) -> PageId {
        PageId(v as u32)
    }
}

impl From<i32> for PageId {
    /// Reinterprets the bits as unsigned.
    fn from(value: i32) -> (r: PageId) {
        PageId(value as u32)
    }
}

impl vstd::std_specs::convert::FromSpecImpl<i32> for PageId {
    open spec fn obeys_from_spec() -> bool {
        true
    }

    open spec fn from_spec(v: i32) -> PageId {
        PageId(v as u32)
    }
}

/// The closed set of page types, each with its on-disk code.
#[derive(Clone, Copy, Debug, PartialEq, Eq, Structural)]
pub enum PageType {
    /// Freshly allocated (code 0)
    Allocated,
    /// Undo log (code 2)
    UndoLog,
    /// File segment inode (code 3)
    Inode,
    /// Insert buffer free list (code 4)
    IbufFreeList,
    /// Insert buffer bitmap (code 5)
    IbufBitmap,
    /// System internal (code 6)
    Sys,
    /// Transaction system header (code 7)
    TrxSys,
    /// File space header (code 8)
    FspHdr,
    /// Extent descriptor (code 9)
    Xdes,
    /// Uncompressed BLOB (code 10)
    Blob,
    /// First compressed BLOB (code 11)
    Zblob,
    /// Subsequent compressed BLOB (code 12)
    Zblob2,
    /// Unknown (code 13)
    Unknown,
    /// Compressed (code 14)
    Compressed,
    /// Encrypted (code 15)
    Encrypted,
    /// Compressed and encrypted (code 16)
    CompressedAndEncrypted,
    /// Encrypted R-tree (code 17)
    EncryptedRtree,
    /// Uncompressed SDI BLOB (code 18)
    SdiBlob,
    /// Compressed SDI BLOB (code 19)
    SdiZblob,
    /// Legacy doublewrite buffer (code 20)
    LegacyDblwr,
    /// Rollback segment array (code 21)
    RsegArray,
    /// Index of uncompressed LOB (code 22)
    LobIndex,
    /// Data of uncompressed LOB (code 23)
    LobData,
    /// First page of an uncompressed LOB (code 24)
    LobFirst,
    /// First page of a compressed LOB (code 25)
    ZlobFirst,
    /// Data of compressed LOB (code 26)
    ZlobData,
    /// Index of compressed LOB (code 27)
    ZlobIndex,
    /// Fragment of compressed LOB (code 28)
    ZlobFrag,
    /// Index of fragment for compressed LOB (code 29)
    ZlobFragEntry,
    /// Serialized dictionary information (code 17853)
    SDI,
    /// R-tree index (code 17854)
    RTree,
    /// B+Tree index (code 17855)
    Index,
}

/// The on-disk code of a page type.
pub open spec fn type_code(t: PageType) -> u16 {
    match t {
        PageType::Allocated => 0,
        PageType::UndoLog => 2,
        PageType::Inode => 3,
        PageType::IbufFreeList => 4,
        PageType::IbufBitmap => 5,
        PageType::Sys => 6,
        PageType::TrxSys => 7,
        PageType::FspHdr => 8,
        PageType::Xdes => 9,
        PageType::Blob => 10,
        PageType::Zblob => 11,
        PageType::Zblob2 => 12,
        PageType::Unknown => 13,
        PageType::Compressed => 14,
        PageType::Encrypted => 15,
        PageType::CompressedAndEncrypted => 16,
        PageType::EncryptedRtree => 17,
        PageType::SdiBlob => 18,
        PageType::SdiZblob => 19,
        PageType::LegacyDblwr => 20,
        PageType::RsegArray => 21,
        PageType::LobIndex => 22,
        PageType::LobData => 23,
        PageType::LobFirst => 24,
        PageType::ZlobFirst => 25,
        PageType::ZlobData => 26,
        PageType::ZlobIndex => 27,
        PageType::ZlobFrag => 28,
        PageType::ZlobFragEntry => 29,
        PageType::SDI => 17853,
        PageType::RTree => 17854,
        PageType::Index => 17855,
    }
}

/// The page type with code `c`, if the registry has one.
pub open spec fn type_of_code(c: u16) -> Option<PageType> {
    match c {
        0 => Some(PageType::Allocated),
        2 => Some(PageType::UndoLog),
        3 => Some(PageType::Inode),
        4 => Some(PageType::IbufFreeList),
        5 => Some(PageType::IbufBitmap),
        6 => Some(PageType::Sys),
        7 => Some(PageType::TrxSys),
        8 => Some(PageType::FspHdr),
        9 => Some(PageType::Xdes),
        10 => Some(PageType::Blob),
        11 => Some(PageType::Zblob),
        12 => Some(PageType::Zblob2),
        13 => Some(PageType::Unknown),
        14 => Some(PageType::Compressed),
        15 => Some(PageType::Encrypted),
        16 => Some(PageType::CompressedAndEncrypted),
        17 => Some(PageType::EncryptedRtree),
        18 => Some(PageType::SdiBlob),
        19 => Some(PageType::SdiZblob),
        20 => Some(PageType::LegacyDblwr),
        21 => Some(PageType::RsegArray),
        22 => Some(PageType::LobIndex),
        23 => Some(PageType::LobData),
        24 => Some(PageType::LobFirst),
        25 => Some(PageType::ZlobFirst),
        26 => Some(PageType::ZlobData),
        27 => Some(PageType::ZlobIndex),
        28 => Some(PageType::ZlobFrag),
        29 => Some(PageType::ZlobFragEntry),
        17853 => Some(PageType::SDI),
        17854 => Some(PageType::RTree),
        17855 => Some(PageType::Index),
        _ => None,
    }
}

/// Why a page, or a part of one, could not be decoded.
#[derive(Clone, Copy, Debug, PartialEq, Eq, Structural)]
pub enum FormatError {
    /// The buffer holds fewer bytes than the structure needs.
    TooShort,
    /// The type code is not in the registry.
    UnknownPageType(u16),
    /// The page's declared type differs from the one asked for.
    PageTypeMismatch { expected: PageType, actual: PageType },
    /// The index page direction field is not one of the five known values.
    InvalidDirection(u16),
    /// A record offset lies outside the page body.
    OffsetOutOfRange(usize),
}

impl PageType {
    /// The on-disk code of this page type.
    pub fn code(self) -> (r: u16)
        ensures
            r == type_code(self),
    {
        match self {
            PageType::Allocated => 0,
            PageType::UndoLog => 2,
            PageType::Inode => 3,
            PageType::IbufFreeList => 4,
            PageType::IbufBitmap => 5,
            PageType::Sys => 6,
            PageType::TrxSys => 7,
            PageType::FspHdr => 8,
            PageType::Xdes => 9,
            PageType::Blob => 10,
            PageType::Zblob => 11,
            PageType::Zblob2 => 12,
            PageType::Unknown => 13,
            PageType::Compressed => 14,
            PageType::Encrypted => 15,
            PageType::CompressedAndEncrypted => 16,
            PageType::EncryptedRtree => 17,
            PageType::SdiBlob => 18,
            PageType::SdiZblob => 19,
            PageType::LegacyDblwr => 20,
            PageType::RsegArray => 21,
            PageType::LobIndex => 22,
            PageType::LobData => 23,
            PageType::LobFirst => 24,
            PageType::ZlobFirst => 25,
            PageType::ZlobData => 26,
            PageType::ZlobIndex => 27,
            PageType::ZlobFrag => 28,
            PageType::ZlobFragEntry => 29,
            PageType::SDI => 17853,
            PageType::RTree => 17854,
            PageType::Index => 17855,
        }
    }
}

impl Default for PageType {
    fn default() -> (r: PageType)
        ensures
            r == PageType::Allocated,
    {
        PageType::Allocated
    }
}

/// What decoding code `c` gives.
pub open spec fn try_from_code(c: u16) -> Result<PageType, FormatError> {
    match type_of_code(c) {
        Some(t) => Ok(t),
        None => Err(FormatError::UnknownPageType(c)),
    }
}

impl TryFrom<u16> for PageType {
    type Error = FormatError;

    fn try_from(c: u16) -> (r: Result<PageType, FormatError>) {
        match c {
            0 => Ok(PageType::Allocated),
            2 => Ok(PageType::UndoLog),
            3 => Ok(PageType::Inode),
            4 => Ok(PageType::IbufFreeList),
            5 => Ok(PageType::IbufBitmap),
            6 => Ok(PageType::Sys),
            7 => Ok(PageType::TrxSys),
            8 => Ok(PageType::FspHdr),
            9 => Ok(PageType::Xdes),
            10 => Ok(PageType::Blob),
            11 => Ok(PageType::Zblob),
            12 => Ok(PageType::Zblob2),
            13 => Ok(PageType::Unknown),
            14 => Ok(PageType::Compressed),
            15 => Ok(PageType::Encrypted),
            16 => Ok(PageType::CompressedAndEncrypted),
            17 => Ok(PageType::EncryptedRtree),
            18 => Ok(PageType::SdiBlob),
            19 => Ok(PageType::SdiZblob),
            20 => Ok(PageType::LegacyDblwr),
            21 => Ok(PageType::RsegArray),
            22 => Ok(PageType::LobIndex),
            23 => Ok(PageType::LobData),
            24 => Ok(PageType::LobFirst),
            25 => Ok(PageType::ZlobFirst),
            26 => Ok(PageType::ZlobData),
            27 => Ok(PageType::ZlobIndex),
            28 => Ok(PageType::ZlobFrag),
            29 => Ok(PageType::ZlobFragEntry),
            17853 => Ok(PageType::SDI),
            17854 => Ok(PageType::RTree),
            17855 => Ok(PageType::Index),
            _ => Err(FormatError::UnknownPageType(c)),
        }
    }
}

impl vstd::std_specs::convert::TryFromSpecImpl<u16> for PageType {
    open spec fn obeys_try_from_spec() -> bool {
        true
    }

    open spec fn try_from_spec(c: u16) -> Result<PageType, FormatError> {
        try_from_code(c)
    }
}

/// Every registered type decodes from its own code.
pub proof fn lemma_code_round_trip(t: PageType)
    ensures
        try_from_code(type_code(t)) == Ok::<PageType, FormatError>(t),
{
}

/// A code decodes exactly when some registered type has it, and then to that type.
pub proof fn lemma_decode_is_inverse(c: u16)
    ensures
        (exists|t: PageType| type_code(t) == c) <==> try_from_code(c) is Ok,
        try_from_code(c) matches Ok(t) ==> type_code(t) == c,
        try_from_code(c) is Err ==> try_from_code(c) == Err::<PageType, FormatError>(
            FormatError::UnknownPageType(c),
        ),
{
    if exists|t: PageType| type_code(t) == c {
        let t = choose|t: PageType| type_code(t) == c;
        lemma_code_round_trip(t);
    }
    if let Ok(t) = try_from_code(c) {
        assert(type_code(t) == c);
    }
}

/// The fixed header at the start of every page.
#[derive(Clone, Copy, Debug, PartialEq, Eq, Structural)]
pub struct PageHeader {
    pub page_id: PageId,
    /// Previous sibling, or `NO_SIBLING`.
    pub prev: u32,
    /// Next sibling, or `NO_SIBLING`.
    pub next: u32,
    /// Log sequence number of the last write.
    pub lsn: u64,
    pub page_type: PageType,
}

/// What decoding the header of the page held in `s` gives.
pub open spec fn parse_header(s: Seq<u8>) -> Result<PageHeader, FormatError> {
    if s.len() < PAGE_SIZE {
        Err(FormatError::TooShort)
    } else {
        match type_of_code(be16(s, 20)) {
            None => Err(FormatError::UnknownPageType(be16(s, 20))),
            Some(t) => Ok(
                PageHeader {
                    page_id: PageId(be32(s, 0)),
                    prev: be32(s, 4),
                    next: be32(s, 8),
                    lsn: be64(s, 12),
                    page_type: t,
                },
            ),
        }
    }
}

/// The `PAGE_HEADER_SIZE` bytes that encode `h`.
pub open spec fn header_bytes(h: PageHeader) -> Seq<u8> {
    u32_be(h.page_id.0) + u32_be(h.prev) + u32_be(h.next) + u64_be(h.lsn) + u16_be(
        type_code(h.page_type),
    ) + seq![0u8, 0u8]
}

/// Decodes the header of the page held in `bytes`.
pub fn decode_header(bytes: &[u8]) -> (r: Result<PageHeader, FormatError>)
    ensures
        r == parse_header(bytes@),
{
    if bytes.len() < PAGE_SIZE {
        return Err(FormatError::TooShort);
    }
    let code = read_be16(bytes, 20);
    match PageType::try_from(code) {
        Err(e) => Err(e),
        Ok(page_type) => Ok(
            PageHeader {
                page_id: PageId(read_be32(bytes, 0)),
                prev: read_be32(bytes, 4),
                next: read_be32(bytes, 8),
                lsn: read_be64(bytes, 12),
                page_type,
            },
        ),
    }
}

/// Encodes `h` as the `PAGE_HEADER_SIZE` bytes that start a page.
pub fn encode_header(h: &PageHeader) -> (r: Vec<u8>)
    ensures
        r@ == header_bytes(*h),
        r@.len() == PAGE_HEADER_SIZE,
{
    let mut out: Vec<u8> = Vec::new();
    push_be32(&mut out, h.page_id.0);
    push_be32(&mut out, h.prev);
    push_be32(&mut out, h.next);
    push_be64(&mut out, h.lsn);
    push_be16(&mut out, h.page_type.code());
    out.push(0u8);
    out.push(0u8);
    assert(out@ =~= header_bytes(*h));
    out
}

/// A buffer shorter than a page never decodes.
pub proof fn lemma_short_buffer_fails(s: Seq<u8>)
    requires
        s.len() < PAGE_SIZE,
    ensures
        parse_header(s) == Err::<PageHeader, FormatError>(FormatError::TooShort),
{
}

/// A page that starts with an encoded header decodes to that header.
pub proof fn lemma_header_round_trip(h: PageHeader, rest: Seq<u8>)
    requires
        PAGE_HEADER_SIZE + rest.len() >= PAGE_SIZE,
    ensures
        parse_header(header_bytes(h) + rest) == Ok::<PageHeader, FormatError>(h),
{
    let s = header_bytes(h) + rest;
    let hb = header_bytes(h);
    assert(hb.len() == PAGE_HEADER_SIZE);
    assert(s.subrange(0, 4) =~= u32_be(h.page_id.0));
    assert(s.subrange(4, 8) =~= u32_be(h.prev));
    assert(s.subrange(8, 12) =~= u32_be(h.next));
    assert(s.subrange(12, 20) =~= u64_be(h.lsn));
    assert(s.subrange(20, 22) =~= u16_be(type_code(h.page_type)));
    lemma_be32_of(h.page_id.0, s, 0);
    lemma_be32_of(h.prev, s, 4);
    lemma_be32_of(h.next, s, 8);
    lemma_be64_of(h.lsn, s, 12);
    lemma_be16_of(type_code(h.page_type), s, 20);
    lemma_code_round_trip(h.page_type);
}

/// One page of the file, as raw bytes.
pub struct Page {
    pub raw_data: [u8; PAGE_SIZE],
}

impl Page {
    /// Copies the page held in the first `PAGE_SIZE` bytes of `bytes`;
    /// fails with `TooShort` when `bytes` holds less than a page.
    pub fn from_bytes(bytes: &[u8]) -> (r: Result<Page, FormatError>)
        ensures
            bytes@.len() < PAGE_SIZE ==> r == Err::<Page, FormatError>(FormatError::TooShort),
            bytes@.len() >= PAGE_SIZE ==> r is Ok && r->Ok_0.raw_data@ == bytes@.subrange(
                0,
                PAGE_SIZE as int,
            ),
    {
        if bytes.len() < PAGE_SIZE {
            return Err(FormatError::TooShort);
        }
        let mut raw_data = [0u8; PAGE_SIZE];
        let mut i: usize = 0;
        while i < PAGE_SIZE
            invariant
                bytes@.len() >= PAGE_SIZE,
                0 <= i <= PAGE_SIZE,
                forall|j: int| 0 <= j < i ==> raw_data@[j] == bytes@[j],
            decreases PAGE_SIZE - i,
        {
            raw_data[i] = bytes[i];
            i = i + 1;
        }
        assert(raw_data@ =~= bytes@.subrange(0, PAGE_SIZE as int));
        Ok(Page { raw_data })
    }

    /// Decodes this page's header.
    pub fn header(&self) -> (r: Result<PageHeader, FormatError>)
        ensures
            r == parse_header(self.raw_data@),
    {
        decode_header(self.raw_data.as_slice())
    }

    /// The bytes after the page header.
    pub fn body(&self) -> (r: &[u8])
        ensures
            r@ == self.raw_data@.subrange(PAGE_HEADER_SIZE as int, PAGE_SIZE as int),
    {
        slice_subrange(self.raw_data.as_slice(), PAGE_HEADER_SIZE, PAGE_SIZE)
    }
}

impl Default for Page {
    /// A page of zero bytes.
    fn default() -> (r: Page)
        ensures
            r.raw_data@ == Seq::new(PAGE_SIZE as nat, |i: int| 0u8),
    {
        let raw_data = [0u8; PAGE_SIZE];
        assert(raw_data@ =~= Seq::new(PAGE_SIZE as nat, |i: int| 0u8));
        Page { raw_data }
    }
}

/// What checking that the page held in `s` has type `expected` gives.
pub open spec fn check_type(s: Seq<u8>, expected: PageType) -> Result<(), FormatError> {
    match parse_header(s) {
        Err(e) => Err(e),
        Ok(h) => if h.page_type == expected {
            Ok(())
        } else {
            Err(FormatError::PageTypeMismatch { expected, actual: h.page_type })
        },
    }
}

/// Checks that `page` declares type `expected`.
pub fn expect_type(page: &Page, expected: PageType) -> (r: Result<(), FormatError>)
    ensures
        r == check_type(page.raw_data@, expected),
{
    match page.header() {
        Err(e) => Err(e),
        Ok(h) => if h.page_type == expected {
            Ok(())
        } else {
            Err(FormatError::PageTypeMismatch { expected, actual: h.page_type })
        },
    }
}

} // verus!
