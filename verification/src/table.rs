//! The paged table: up to `MAX_PAGES` page buffers, each allocated and
//! zero-filled when one of its rows is first touched, and a count of the rows
//! stored. Rows are packed from index 0 upward: row `i` lives in page
//! `i / ROWS_PER_PAGE` at byte offset `(i % ROWS_PER_PAGE) * ROW_SIZE`.

use crate::layout::{
    lemma_page_in_use_next, lemma_slot_in_page, lemma_slots_disjoint, lemma_splice,
    lemma_splice_same, offset_of, page_in_use, page_of, splice, MAX_PAGES, MAX_ROWS, PAGE_SIZE,
    ROWS_PER_PAGE, ROW_SIZE,
};
use crate::row::{
    decode_row, deserialize, encode_row, lemma_decode_encode, lemma_encode_len, serialize, Row,
    RowView,
};
use vstd::prelude::*;

verus! {

/// How executing a statement ended.
#[derive(Debug, PartialEq, Eq, Clone, Copy)]
pub enum ExecuteResult {
    Success,
    TableFull,
}

/// The store. `pages` always has `MAX_PAGES` entries; an entry is `None`
/// until a row of that page is first touched.
#[derive(Debug)]
pub struct Table {
    pub num_rows: usize,
    pub pages: Vec<Option<Box<[u8; PAGE_SIZE]>>>,
}

/// What a table holds, as mathematical values: the row count, and for each
/// page its bytes, or `None` where the page has not been allocated.
#[verifier::ext_equal]
pub struct TableView {
    pub num_rows: nat,
    pub pages: Seq<Option<Seq<u8>>>,
}

/// The views of a sequence of rows.
pub open spec fn row_views(rows: Seq<Row>) -> Seq<RowView> {
    Seq::new(rows.len(), |i: int| rows[i]@)
}

/// What a table of `rows` holds after one insert of `row`: the row is
/// appended, unless the table is full.
pub open spec fn rows_after_insert(rows: Seq<RowView>, row: RowView) -> Seq<RowView> {
    if rows.len() < MAX_ROWS {
        rows.push(row)
    } else {
        rows
    }
}

/// How an insert into a table of `rows` ends.
pub open spec fn insert_result(rows: Seq<RowView>) -> ExecuteResult {
    if rows.len() < MAX_ROWS {
        ExecuteResult::Success
    } else {
        ExecuteResult::TableFull
    }
}

/// What a table of `rows` holds after the rows of `batch` were inserted one
/// after another.
pub open spec fn rows_after_inserts(rows: Seq<RowView>, batch: Seq<RowView>) -> Seq<RowView>
    decreases batch.len(),
{
    if batch.len() == 0 {
        rows
    } else {
        rows_after_insert(rows_after_inserts(rows, batch.drop_last()), batch.last())
    }
}

impl TableView {
    /// The table with no row and no page.
    pub open spec fn empty() -> TableView {
        TableView { num_rows: 0, pages: Seq::new(MAX_PAGES as nat, |p: int| None) }
    }

    /// There are `MAX_PAGES` page entries, and every page that is there has
    /// `PAGE_SIZE` bytes.
    pub open spec fn wf(self) -> bool {
        &&& self.pages.len() == MAX_PAGES
        &&& forall|p: int|
            0 <= p < MAX_PAGES && (#[trigger] self.pages[p]) is Some ==> self.page_bytes(p).len()
                == PAGE_SIZE
    }

    /// Page `p` has been allocated.
    pub open spec fn allocated(self, p: int) -> bool {
        self.pages[p] is Some
    }

    /// The bytes of page `p`; a page not yet allocated reads as zeros.
    pub open spec fn page_bytes(self, p: int) -> Seq<u8> {
        match self.pages[p] {
            Some(bytes) => bytes,
            None => Seq::new(PAGE_SIZE as nat, |i: int| 0u8),
        }
    }

    /// The `ROW_SIZE` bytes of the slot of row `index`.
    pub open spec fn slot_bytes(self, index: int) -> Seq<u8> {
        self.page_bytes(page_of(index)).subrange(offset_of(index), offset_of(index) + ROW_SIZE)
    }

    /// The row that the slot of row `index` holds.
    pub open spec fn row_at(self, index: int) -> RowView {
        decode_row(self.slot_bytes(index))
    }

    /// The rows stored, in the order of their insertion.
    pub open spec fn rows(self) -> Seq<RowView> {
        Seq::new(self.num_rows, |i: int| self.row_at(i))
    }

    /// The table after `window` was written into the slot of row `index`:
    /// the page of that row is there and holds `window` at the row's offset;
    /// no other byte, no other page and not the row count has changed.
    pub open spec fn write_slot(self, index: int, window: Seq<u8>) -> TableView {
        TableView {
            num_rows: self.num_rows,
            pages: self.pages.update(
                page_of(index),
                Some(splice(self.page_bytes(page_of(index)), offset_of(index), window)),
            ),
        }
    }

    /// The table after the slots of the first `count` rows were touched: the
    /// pages that hold them are there, and no byte has changed.
    pub open spec fn touch(self, count: nat) -> TableView {
        TableView {
            num_rows: self.num_rows,
            pages: Seq::new(
                self.pages.len(),
                |p: int|
                    if page_in_use(p, count as int) {
                        Some(self.page_bytes(p))
                    } else {
                        self.pages[p]
                    },
            ),
        }
    }

    /// The table after one insert of `row`: the row is written into the slot
    /// after the last row and counted, unless the table is full.
    pub open spec fn insert(self, row: RowView) -> TableView {
        if self.num_rows < MAX_ROWS {
            TableView {
                num_rows: self.num_rows + 1,
                pages: self.write_slot(self.num_rows as int, encode_row(row)).pages,
            }
        } else {
            self
        }
    }

    /// The table after all its rows were read.
    pub open spec fn select(self) -> TableView {
        self.touch(self.num_rows)
    }

    /// The table after the rows of `batch` were inserted one after another.
    pub open spec fn inserts(self, batch: Seq<RowView>) -> TableView
        decreases batch.len(),
    {
        if batch.len() == 0 {
            self
        } else {
            self.inserts(batch.drop_last()).insert(batch.last())
        }
    }

    /// Writing a slot keeps the table well-formed, makes that slot hold what
    /// was written, and leaves the slot of every other row as it was.
    pub proof fn lemma_write_slot(self, index: int, window: Seq<u8>)
        requires
            self.wf(),
            0 <= index < MAX_ROWS,
            window.len() == ROW_SIZE,
        ensures
            self.write_slot(index, window).wf(),
            self.write_slot(index, window).slot_bytes(index) == window,
            forall|j: int|
                0 <= j < MAX_ROWS && j != index ==> #[trigger] self.write_slot(
                    index,
                    window,
                ).slot_bytes(j) == self.slot_bytes(j),
    {
        let after = self.write_slot(index, window);
        lemma_slot_in_page(index);
        lemma_splice(self.page_bytes(page_of(index)), offset_of(index), window);
        assert forall|j: int| 0 <= j < MAX_ROWS && j != index implies #[trigger] after.slot_bytes(j)
            == self.slot_bytes(j) by {
            lemma_slot_in_page(j);
            lemma_slots_disjoint(index, j);
        }
    }

    /// Writing into a slot what it holds changes no byte: it only makes sure
    /// that the page is there.
    pub proof fn lemma_write_slot_same(self, index: int)
        requires
            self.wf(),
            0 <= index < MAX_ROWS,
        ensures
            self.write_slot(index, self.slot_bytes(index)).pages == self.pages.update(
                page_of(index),
                Some(self.page_bytes(page_of(index))),
            ),
    {
        lemma_slot_in_page(index);
        lemma_splice_same(self.page_bytes(page_of(index)), offset_of(index), ROW_SIZE as int);
    }

    /// Touching rows keeps the table well-formed and changes no byte and no
    /// row. Touching one row more is touching its slot.
    pub proof fn lemma_touch(self, count: nat)
        requires
            self.wf(),
            count <= MAX_ROWS,
        ensures
            self.touch(count).wf(),
            self.touch(count).num_rows == self.num_rows,
            forall|p: int|
                0 <= p < MAX_PAGES ==> #[trigger] self.touch(count).page_bytes(p)
                    == self.page_bytes(p),
            forall|p: int|
                0 <= p < MAX_PAGES ==> #[trigger] self.touch(count).allocated(p) == (
                self.allocated(p) || page_in_use(p, count as int)),
            self.num_rows <= MAX_ROWS ==> self.touch(count).rows() == self.rows(),
            self.touch(0) == self,
            count < MAX_ROWS ==> self.touch(count + 1) == self.touch(count).write_slot(
                count as int,
                self.touch(count).slot_bytes(count as int),
            ),
    {
        if count < MAX_ROWS {
            let index = count as int;
            let touched = self.touch(count);
            touched.lemma_write_slot_same(index);
            assert forall|p: int| 0 <= p < MAX_PAGES implies #[trigger] self.touch(
                count + 1,
            ).pages[p] == touched.write_slot(index, touched.slot_bytes(index)).pages[p] by {
                lemma_page_in_use_next(p, index);
            }
        }
    }

    /// An insert appends `row` to the rows stored, unless the table is full,
    /// and keeps the table well-formed.
    pub proof fn lemma_insert(self, row: RowView)
        requires
            self.wf(),
            row.wf(),
        ensures
            self.insert(row).wf(),
            self.insert(row).rows() == rows_after_insert(self.rows(), row),
            self.insert(row).num_rows <= MAX_ROWS || self.insert(row) == self,
    {
        if self.num_rows < MAX_ROWS {
            let index = self.num_rows as int;
            let after = self.insert(row);
            lemma_encode_len(row);
            lemma_decode_encode(row);
            self.lemma_write_slot(index, encode_row(row));
            let written = self.write_slot(index, encode_row(row));
            assert forall|i: int| 0 <= i < after.num_rows implies after.row_at(i) == (
            if i < index {
                self.row_at(i)
            } else {
                row
            }) by {
                assert(after.slot_bytes(i) == written.slot_bytes(i));
            }
        }
    }

    /// Inserting a batch of rows appends them one after another to the rows
    /// stored, as long as there is room, and keeps the table well-formed.
    pub proof fn lemma_inserts(self, batch: Seq<RowView>)
        requires
            self.wf(),
            forall|i: int| 0 <= i < batch.len() ==> (#[trigger] batch[i]).wf(),
        ensures
            self.inserts(batch).wf(),
            self.inserts(batch).rows() == rows_after_inserts(self.rows(), batch),
        decreases batch.len(),
    {
        if batch.len() > 0 {
            let front = batch.drop_last();
            self.lemma_inserts(front);
            self.inserts(front).lemma_insert(batch.last());
        }
    }
}

impl View for Table {
    type V = TableView;

    open spec fn view(&self) -> TableView {
        TableView {
            num_rows: self.num_rows as nat,
            pages: Seq::new(
                self.pages@.len(),
                |p: int|
                    match self.pages@[p] {
                        Some(page) => Some(page@),
                        None => None,
                    },
            ),
        }
    }
}

impl Table {
    /// The page table has its full length.
    pub open spec fn wf(&self) -> bool {
        self.pages@.len() == MAX_PAGES
    }

    /// A table whose page table has its full length has a well-formed view:
    /// a page buffer always has `PAGE_SIZE` bytes.
    pub proof fn lemma_view_wf(&self)
        requires
            self.wf(),
        ensures
            self@.wf(),
    {
    }

    /// An empty table: no rows, no page allocated.
    pub fn new() -> (table: Table)
        ensures
            table.wf(),
            table@ == TableView::empty(),
            table@.rows() == Seq::<RowView>::empty(),
    {
        let mut pages: Vec<Option<Box<[u8; PAGE_SIZE]>>> = Vec::new();
        let mut i: usize = 0;
        while i < MAX_PAGES
            invariant
                i <= MAX_PAGES,
                pages@.len() == i,
                forall|p: int| 0 <= p < i ==> pages@[p] is None,
            decreases MAX_PAGES - i,
        {
            pages.push(None);
            i += 1;
        }
        Table { num_rows: 0, pages }
    }

    /// The slot of row `index`, as a window into its page through which the
    /// slot can be read and written. The page is allocated, filled with zeros,
    /// if it was not there yet. Nothing else changes: the bytes of the page
    /// outside the window and all other pages stay as they are, and so does
    /// the row count.
    pub fn row_slot(&mut self, index: usize) -> (slot: &mut [u8])
        requires
            old(self).wf(),
            index / ROWS_PER_PAGE < MAX_PAGES,
        ensures
            slot@ == old(self)@.slot_bytes(index as int),
            slot@.len() == ROW_SIZE,
            final(self).wf(),
            final(self)@ =~~= old(self)@.write_slot(index as int, final(slot)@),
            final(self)@.page_bytes(page_of(index as int)).len() == PAGE_SIZE,
            final(slot)@.len() == ROW_SIZE,
    {
        let page_num: usize = index / ROWS_PER_PAGE;
        if self.pages[page_num].is_none() {
            self.pages[page_num] = Some(Box::new([0u8; PAGE_SIZE]));
        }
        let page = self.pages[page_num].as_mut().unwrap();
        let row_offset: usize = index % ROWS_PER_PAGE;
        let byte_offset: usize = row_offset * ROW_SIZE;
        let array: &mut [u8; PAGE_SIZE] = &mut **page;
        let bytes: &mut [u8] = array;
        let (_, rest) = bytes.split_at_mut(byte_offset);
        let (slot, _) = rest.split_at_mut(ROW_SIZE);
        slot
    }

    /// Appends `row`, unless the table is full. A full table is left as it is.
    pub fn insert(&mut self, row: &Row) -> (result: ExecuteResult)
        requires
            old(self).wf(),
        ensures
            final(self).wf(),
            result == insert_result(old(self)@.rows()),
            final(self)@ == old(self)@.insert(row@),
            final(self)@.rows() == rows_after_insert(old(self)@.rows(), row@),
            result is TableFull ==> *final(self) == *old(self),
    {
        proof {
            old(self).lemma_view_wf();
            old(self)@.lemma_insert(row@);
        }
        if self.num_rows >= MAX_ROWS {
            return ExecuteResult::TableFull;
        }
        let index: usize = self.num_rows;
        let slot = self.row_slot(index);
        serialize(row, slot);
        self.num_rows += 1;
        proof {
            lemma_encode_len(row@);
        }
        ExecuteResult::Success
    }

    /// All rows stored, in the order of their insertion. Reading touches each
    /// row's slot, so pages may be allocated on the way; no byte and no row
    /// changes.
    pub fn select_all(&mut self) -> (rows: Vec<Row>)
        requires
            old(self).wf(),
            old(self).num_rows <= MAX_ROWS,
        ensures
            row_views(rows@) == old(self)@.rows(),
            rows@.len() == old(self).num_rows,
            forall|i: int| 0 <= i < rows@.len() ==> (#[trigger] rows@[i])@ == old(self)@.rows()[i],
            final(self).wf(),
            final(self)@ == old(self)@.select(),
            final(self)@.rows() == old(self)@.rows(),
    {
        let mut rows: Vec<Row> = Vec::new();
        let count: usize = self.num_rows;
        let mut i: usize = 0;
        while i < count
            invariant
                i <= count,
                count == old(self).num_rows,
                count <= MAX_ROWS,
                old(self)@.wf(),
                self.wf(),
                self@ == old(self)@.touch(i as nat),
                rows@.len() == i,
                forall|j: int| 0 <= j < i ==> (#[trigger] rows@[j])@ == old(self)@.row_at(j),
            decreases count - i,
        {
            proof {
                lemma_slot_in_page(i as int);
                old(self)@.lemma_touch(i as nat);
            }
            let slot = self.row_slot(i);
            let row = deserialize(slot);
            rows.push(row);
            i += 1;
        }
        rows
    }
}

/// Appending up to `MAX_ROWS` rows to no rows keeps them all, in their
/// order, and every one of the inserts succeeds.
pub proof fn lemma_rows_after_inserts(batch: Seq<RowView>)
    requires
        batch.len() <= MAX_ROWS,
    ensures
        rows_after_inserts(Seq::empty(), batch) == batch,
        forall|n: int|
            0 <= n < batch.len() ==> insert_result(
                #[trigger] rows_after_inserts(Seq::empty(), batch.take(n)),
            ) is Success,
    decreases batch.len(),
{
    let empty = Seq::<RowView>::empty();
    if batch.len() > 0 {
        let front = batch.drop_last();
        lemma_rows_after_inserts(front);
        assert forall|n: int| 0 <= n < batch.len() implies insert_result(
            #[trigger] rows_after_inserts(empty, batch.take(n)),
        ) is Success by {
            lemma_rows_after_inserts(batch.take(n));
        }
    }
}

/// Inserting up to `MAX_ROWS` rows into an empty table stores them all: every
/// insert succeeds, and reading the table then gives exactly the rows
/// supplied, in the order of their insertion.
pub proof fn lemma_dense_packing(batch: Seq<RowView>)
    requires
        batch.len() <= MAX_ROWS,
        forall|i: int| 0 <= i < batch.len() ==> (#[trigger] batch[i]).wf(),
    ensures
        TableView::empty().inserts(batch).num_rows == batch.len(),
        TableView::empty().inserts(batch).rows() == batch,
        TableView::empty().inserts(batch).select().rows() == batch,
        forall|n: int|
            0 <= n < batch.len() ==> insert_result(
                #[trigger] TableView::empty().inserts(batch.take(n)).rows(),
            ) is Success,
{
    let empty = TableView::empty();
    assert(empty.rows() =~= Seq::<RowView>::empty());
    empty.lemma_inserts(batch);
    lemma_rows_after_inserts(batch);
    assert forall|n: int| 0 <= n < batch.len() implies insert_result(
        #[trigger] empty.inserts(batch.take(n)).rows(),
    ) is Success by {
        empty.lemma_inserts(batch.take(n));
    }
}

/// After `MAX_ROWS` rows were inserted into an empty table, all of them
/// successfully, the table is full: one more insert ends in `TableFull` and
/// leaves the table as it is, with `MAX_ROWS` rows counted, and reading it
/// still gives exactly the first `MAX_ROWS` rows.
pub proof fn lemma_capacity_boundary(batch: Seq<RowView>, extra: RowView)
    requires
        batch.len() == MAX_ROWS,
        forall|i: int| 0 <= i < batch.len() ==> (#[trigger] batch[i]).wf(),
    ensures
        TableView::empty().inserts(batch).rows() == batch,
        insert_result(TableView::empty().inserts(batch).rows()) is TableFull,
        TableView::empty().inserts(batch).insert(extra) == TableView::empty().inserts(batch),
        TableView::empty().inserts(batch.push(extra)).num_rows == MAX_ROWS,
        TableView::empty().inserts(batch.push(extra)).select().rows() == batch,
{
    lemma_dense_packing(batch);
    assert(batch.push(extra).drop_last() =~= batch);
}

/// Reading twice with no insert in between gives the same rows both times:
/// reading leaves a table that holds the same rows, and reading that table
/// leaves it as it is.
pub proof fn lemma_select_twice(table: TableView)
    requires
        table.wf(),
        table.num_rows <= MAX_ROWS,
    ensures
        table.select().rows() == table.rows(),
        table.select().select() == table.select(),
        table.select().select().rows() == table.rows(),
{
}

} // verus!
