//! The data page view: a page whose body starts with a small data header
//! and is otherwise an opaque region.
use crate::bytes::{be32, read_be32};
use crate::page::{
    check_type, decode_header, expect_type, parse_header, FormatError, Page, PageHeader, PageId,
    PageType, PAGE_HEADER_SIZE, PAGE_SIZE,
};
use vstd::prelude::*;
use vstd::slice::slice_subrange;

verus! {

/// Size in bytes of the data header, which follows the page header: the
/// big-endian offset in its first four bytes, then padding.
pub const DATA_PAGE_HEADER_SIZE: usize = 8;

/// Size in bytes of the region after the data header.
pub const DATA_PAGE_BODY_SIZE: usize = 4064;

/// The header at the start of a data page's body.
#[derive(Clone, Copy, Debug, PartialEq, Eq, Structural)]
pub struct DataPageHeader {
    pub offset: u32,
}

/// A page read as a data page.
pub struct DataPage {
    pub page: Page,
}

/// Where the region after the data header starts within the page.
pub open spec fn data_body_start() -> int {
    PAGE_HEADER_SIZE + DATA_PAGE_HEADER_SIZE
}

/// The header and body sizes fill the page exactly.
pub proof fn lemma_data_page_sizes()
    ensures
        DATA_PAGE_HEADER_SIZE + DATA_PAGE_BODY_SIZE == PAGE_SIZE - PAGE_HEADER_SIZE,
{
}

impl DataPage {
    /// A data page of zero bytes: page 0, type `Allocated`, data offset 0.
    pub fn new() -> (r: DataPage)
        ensures
            r.page.raw_data@ == Seq::new(PAGE_SIZE as nat, |i: int| 0u8),
    {
        DataPage { page: Page::default() }
    }

    /// Copies `page` into a data page view, if it declares type `Allocated`.
    pub fn try_from_page(page: &Page) -> (r: Result<DataPage, FormatError>)
        ensures
            match r {
                Ok(d) => d.page.raw_data@ == page.raw_data@ && check_type(
                    page.raw_data@,
                    PageType::Allocated,
                ) is Ok,
                Err(e) => check_type(page.raw_data@, PageType::Allocated) == Err::<(), FormatError>(
                    e,
                ),
            },
    {
        match expect_type(page, PageType::Allocated) {
            Err(e) => Err(e),
            Ok(()) => Ok(DataPage { page: Page { raw_data: page.raw_data } }),
        }
    }

    /// The page id stored in the page header.
    pub fn page_id(&self) -> (r: PageId)
        ensures
            r == PageId(be32(self.page.raw_data@, 0)),
    {
        PageId(read_be32(self.page.raw_data.as_slice(), 0))
    }

    /// The decoded page header.
    pub fn header(&self) -> (r: Result<PageHeader, FormatError>)
        ensures
            r == parse_header(self.page.raw_data@),
    {
        decode_header(self.page.raw_data.as_slice())
    }

    /// The decoded data header.
    pub fn data_header(&self) -> (r: DataPageHeader)
        ensures
            r.offset == be32(self.page.raw_data@, PAGE_HEADER_SIZE as int),
    {
        DataPageHeader { offset: read_be32(self.page.raw_data.as_slice(), PAGE_HEADER_SIZE) }
    }

    /// The opaque region after the data header.
    pub fn body(&self) -> (r: &[u8])
        ensures
            r@ == self.page.raw_data@.subrange(data_body_start(), PAGE_SIZE as int),
            r@.len() == DATA_PAGE_BODY_SIZE,
    {
        slice_subrange(
            self.page.raw_data.as_slice(),
            PAGE_HEADER_SIZE + DATA_PAGE_HEADER_SIZE,
            PAGE_SIZE,
        )
    }
}

} // verus!
