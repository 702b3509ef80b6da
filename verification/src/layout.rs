//! Fixed sizes and offsets of the row format and of the paged store, and the
//! arithmetic that maps a row index to its page and to its place in that page.

use vstd::prelude::*;

verus! {

/// Width in bytes of the `id` column.
pub const COLUMN_ID_SIZE: usize = 4;

/// Width in bytes of the `username` column.
pub const COLUMN_USERNAME_SIZE: usize = 32;

/// Width in bytes of the `email` column.
pub const COLUMN_EMAIL_SIZE: usize = 255;

/// Offset of the `id` column in an encoded row.
pub const COLUMN_ID_OFFSET: usize = 0;

/// Offset of the `username` column in an encoded row.
pub const COLUMN_USERNAME_OFFSET: usize = COLUMN_ID_SIZE;

/// Offset of the `email` column in an encoded row.
pub const COLUMN_EMAIL_OFFSET: usize = COLUMN_USERNAME_OFFSET + COLUMN_USERNAME_SIZE;

/// Length in bytes of an encoded row.
pub const ROW_SIZE: usize = COLUMN_ID_SIZE + COLUMN_USERNAME_SIZE + COLUMN_EMAIL_SIZE;

/// Length in bytes of a page.
pub const PAGE_SIZE: usize = 4096;

/// Number of pages a table can hold.
pub const MAX_PAGES: usize = 100;

/// Number of whole rows that fit in a page; the rest of the page is padding.
pub const ROWS_PER_PAGE: usize = PAGE_SIZE / ROW_SIZE;

/// Number of rows a table can hold.
pub const MAX_ROWS: usize = MAX_PAGES * ROWS_PER_PAGE;

/// The page that holds row `index`.
pub open spec fn page_of(index: int) -> int {
    index / (ROWS_PER_PAGE as int)
}

/// The offset, within its page, of the first byte of row `index`.
pub open spec fn offset_of(index: int) -> int {
    (index % (ROWS_PER_PAGE as int)) * (ROW_SIZE as int)
}

/// Page `p` holds at least one of the first `count` rows.
pub open spec fn page_in_use(p: int, count: int) -> bool {
    p * ROWS_PER_PAGE < count
}

/// `page` with the bytes from `at` on replaced by `window`, for the length of
/// `window`.
pub open spec fn splice(page: Seq<u8>, at: int, window: Seq<u8>) -> Seq<u8> {
    page.subrange(0, at) + window + page.subrange(at + window.len(), page.len() as int)
}

/// Splicing keeps the length of the page, puts `window` at `at`, and leaves
/// every stretch of the page that does not meet the window as it was.
pub proof fn lemma_splice(page: Seq<u8>, at: int, window: Seq<u8>)
    requires
        0 <= at,
        at + window.len() <= page.len(),
    ensures
        splice(page, at, window).len() == page.len(),
        splice(page, at, window).subrange(at, at + window.len()) == window,
        forall|a: int, b: int|
            0 <= a <= b <= at ==> #[trigger] splice(page, at, window).subrange(a, b)
                == page.subrange(a, b),
        forall|a: int, b: int|
            at + window.len() <= a <= b <= page.len() ==> #[trigger] splice(
                page,
                at,
                window,
            ).subrange(a, b) == page.subrange(a, b),
{
}

/// Putting back what was there changes nothing.
pub proof fn lemma_splice_same(page: Seq<u8>, at: int, len: int)
    requires
        0 <= at,
        0 <= len,
        at + len <= page.len(),
    ensures
        splice(page, at, page.subrange(at, at + len)) == page,
{
}

/// Every row index below `MAX_ROWS` lies in one of the `MAX_PAGES` pages, its
/// slot lies wholly inside that page, and the index is found again from its
/// page and offset.
pub proof fn lemma_slot_in_page(index: int)
    requires
        0 <= index < MAX_ROWS,
    ensures
        0 <= page_of(index) < MAX_PAGES,
        0 <= offset_of(index),
        offset_of(index) + ROW_SIZE <= PAGE_SIZE,
        offset_of(index) % (ROW_SIZE as int) == 0,
        index == page_of(index) * ROWS_PER_PAGE + offset_of(index) / (ROW_SIZE as int),
{
}

/// The pages that hold one of the first `index + 1` rows are those that hold
/// one of the first `index` rows, and the page of row `index`.
pub proof fn lemma_page_in_use_next(p: int, index: int)
    requires
        0 <= p,
        0 <= index,
    ensures
        page_in_use(p, index + 1) == (page_in_use(p, index) || p == page_of(index)),
{
}

/// Two different rows never share a byte: they lie in different pages, or in
/// one page at offsets at least `ROW_SIZE` apart.
pub proof fn lemma_slots_disjoint(i: int, j: int)
    requires
        0 <= i,
        0 <= j,
        i != j,
    ensures
        page_of(i) != page_of(j) || offset_of(i) + ROW_SIZE <= offset_of(j) || offset_of(j)
            + ROW_SIZE <= offset_of(i),
{
}

} // verus!
