//! The row: one record of the fixed schema, and its exact byte form.
//!
//! An encoded row is `ROW_SIZE` bytes: the id in four bytes, least significant
//! byte first, then the 32 bytes of the username field, then the 255 bytes of
//! the email field. A text field holds the UTF-8 bytes of its text, filled up
//! with zero bytes on the right.

use crate::layout::{
    COLUMN_EMAIL_OFFSET, COLUMN_EMAIL_SIZE, COLUMN_ID_SIZE, COLUMN_USERNAME_OFFSET,
    COLUMN_USERNAME_SIZE, ROW_SIZE,
};
use vstd::prelude::*;
use vstd::utf8::encode_utf8;

verus! {

/// One record: an id and two text fields of fixed width.
#[derive(Debug, PartialEq)]
pub struct Row {
    pub id: u32,
    pub username: [u8; COLUMN_USERNAME_SIZE],
    pub email: [u8; COLUMN_EMAIL_SIZE],
}

/// What a row holds, as mathematical values.
#[verifier::ext_equal]
pub struct RowView {
    pub id: u32,
    pub username: Seq<u8>,
    pub email: Seq<u8>,
}

impl RowView {
    /// Both text fields have their full width.
    pub open spec fn wf(self) -> bool {
        &&& self.username.len() == COLUMN_USERNAME_SIZE
        &&& self.email.len() == COLUMN_EMAIL_SIZE
    }
}

impl View for Row {
    type V = RowView;

    open spec fn view(&self) -> RowView {
        RowView { id: self.id, username: self.username@, email: self.email@ }
    }
}

/// The four bytes of an id, least significant first.
pub open spec fn id_bytes(id: u32) -> Seq<u8> {
    seq![
        (id % 256) as u8,
        (id / 256 % 256) as u8,
        (id / 65536 % 256) as u8,
        (id / 16777216) as u8,
    ]
}

/// The id that four bytes stand for, least significant first.
pub open spec fn id_of(bytes: Seq<u8>) -> u32 {
    (bytes[0] + bytes[1] * 256 + bytes[2] * 65536 + bytes[3] * 16777216) as u32
}

/// `text` filled up on the right with zero bytes to `width` bytes.
pub open spec fn padded(text: Seq<u8>, width: nat) -> Seq<u8> {
    text + Seq::new((width - text.len()) as nat, |i: int| 0u8)
}

/// The row made from an id and the bytes of two texts.
pub open spec fn row_of(id: u32, username: Seq<u8>, email: Seq<u8>) -> RowView {
    RowView {
        id,
        username: padded(username, COLUMN_USERNAME_SIZE as nat),
        email: padded(email, COLUMN_EMAIL_SIZE as nat),
    }
}

/// The byte form of a row.
pub open spec fn encode_row(row: RowView) -> Seq<u8> {
    id_bytes(row.id) + row.username + row.email
}

/// The row that the first `ROW_SIZE` bytes of `bytes` stand for.
pub open spec fn decode_row(bytes: Seq<u8>) -> RowView {
    RowView {
        id: id_of(bytes.subrange(0, COLUMN_USERNAME_OFFSET as int)),
        username: bytes.subrange(COLUMN_USERNAME_OFFSET as int, COLUMN_EMAIL_OFFSET as int),
        email: bytes.subrange(COLUMN_EMAIL_OFFSET as int, ROW_SIZE as int),
    }
}

/// An id is found again from its four bytes.
pub proof fn lemma_id_round_trip(id: u32)
    ensures
        id_bytes(id).len() == COLUMN_ID_SIZE,
        id_of(id_bytes(id)) == id,
{
}

/// Four bytes are found again from the id they stand for.
pub proof fn lemma_id_bytes_of(bytes: Seq<u8>)
    requires
        bytes.len() == COLUMN_ID_SIZE,
    ensures
        id_bytes(id_of(bytes)) == bytes,
{
    let b0 = bytes[0] as int;
    let b1 = bytes[1] as int;
    let b2 = bytes[2] as int;
    let b3 = bytes[3] as int;
    let id = b0 + b1 * 256 + b2 * 65536 + b3 * 16777216;
    assert(id_of(bytes) == id);
    assert(id / 256 == b1 + b2 * 256 + b3 * 65536);
    assert(id / 65536 == b2 + b3 * 256);
    assert(id / 16777216 == b3);
    assert(id % 256 == b0);
    assert(id / 256 % 256 == b1);
    assert(id / 65536 % 256 == b2);
    assert(id_bytes(id_of(bytes)) =~= bytes);
}

/// An encoded row is `ROW_SIZE` bytes long.
pub proof fn lemma_encode_len(row: RowView)
    requires
        row.wf(),
    ensures
        encode_row(row).len() == ROW_SIZE,
{
}

/// Decoding an encoded row gives the row back: its id, and both text fields
/// with their padding.
pub proof fn lemma_decode_encode(row: RowView)
    requires
        row.wf(),
    ensures
        decode_row(encode_row(row)) == row,
{
    lemma_id_round_trip(row.id);
    assert(encode_row(row).subrange(0, COLUMN_USERNAME_OFFSET as int) =~= id_bytes(row.id));
}

/// Decoding reads the first `ROW_SIZE` bytes only: what follows an encoded row
/// does not matter.
pub proof fn lemma_decode_prefix(row: RowView, rest: Seq<u8>)
    requires
        row.wf(),
    ensures
        decode_row(encode_row(row) + rest) == row,
{
    lemma_id_round_trip(row.id);
    assert((encode_row(row) + rest).subrange(0, COLUMN_USERNAME_OFFSET as int) =~= id_bytes(
        row.id,
    ));
}

/// Encoding a decoded row gives the `ROW_SIZE` bytes back.
pub proof fn lemma_encode_decode(bytes: Seq<u8>)
    requires
        bytes.len() == ROW_SIZE,
    ensures
        decode_row(bytes).wf(),
        encode_row(decode_row(bytes)) == bytes,
{
    let head = bytes.subrange(0, COLUMN_USERNAME_OFFSET as int);
    lemma_id_bytes_of(head);
}

/// A row made from texts that fit their fields has full-width fields, starts
/// each field with the text and fills the rest with zero bytes, and is found
/// again from its byte form.
pub proof fn lemma_row_of(id: u32, username: Seq<u8>, email: Seq<u8>)
    requires
        username.len() <= COLUMN_USERNAME_SIZE,
        email.len() <= COLUMN_EMAIL_SIZE,
    ensures
        row_of(id, username, email).wf(),
        row_of(id, username, email).id == id,
        row_of(id, username, email).username.subrange(0, username.len() as int) == username,
        row_of(id, username, email).email.subrange(0, email.len() as int) == email,
        forall|i: int|
            username.len() <= i < COLUMN_USERNAME_SIZE ==> row_of(id, username, email).username[i]
                == 0,
        forall|i: int|
            email.len() <= i < COLUMN_EMAIL_SIZE ==> row_of(id, username, email).email[i] == 0,
        decode_row(encode_row(row_of(id, username, email))) == row_of(id, username, email),
{
    lemma_decode_encode(row_of(id, username, email));
}

/// Writes `src` into `dest` from position `at` on and leaves the other bytes
/// as they are.
fn copy_into(dest: &mut [u8], at: usize, src: &[u8])
    requires
        at + src@.len() <= old(dest)@.len(),
    ensures
        final(dest)@ == old(dest)@.subrange(0, at as int) + src@ + old(dest)@.subrange(
            at + src@.len(),
            old(dest)@.len() as int,
        ),
{
    let n: usize = src.len();
    let total: usize = dest.len();
    let mut k: usize = 0;
    while k < n
        invariant
            n == src@.len(),
            k <= n,
            at + n <= total,
            dest@.len() == total,
            total == old(dest)@.len(),
            forall|i: int| 0 <= i < at ==> dest@[i] == old(dest)@[i],
            forall|i: int| at <= i < at + k ==> dest@[i] == src@[i - at],
            forall|i: int| at + k <= i < total ==> dest@[i] == old(dest)@[i],
        decreases n - k,
    {
        dest[at + k] = src[k];
        k += 1;
    }
}

impl Row {
    /// Makes a row from an id and two texts. Each field starts with the UTF-8
    /// bytes of its text and is filled up with zero bytes. The texts must fit
    /// their fields.
    pub fn new(id: u32, username: String, email: String) -> (row: Row)
        requires
            encode_utf8(username@).len() <= COLUMN_USERNAME_SIZE,
            encode_utf8(email@).len() <= COLUMN_EMAIL_SIZE,
        ensures
            row@ == row_of(id, encode_utf8(username@), encode_utf8(email@)),
    {
        let mut row = Row {
            id,
            username: [0u8; COLUMN_USERNAME_SIZE],
            email: [0u8; COLUMN_EMAIL_SIZE],
        };
        let username_bytes = username.as_str().as_bytes();
        let email_bytes = email.as_str().as_bytes();
        copy_into(&mut row.username, 0, username_bytes);
        copy_into(&mut row.email, 0, email_bytes);
        row
    }
}

/// Writes the byte form of `row` into the first `ROW_SIZE` bytes of `dest`.
/// Bytes of `dest` beyond those stay as they are.
pub fn serialize(row: &Row, dest: &mut [u8])
    requires
        old(dest)@.len() >= ROW_SIZE,
    ensures
        final(dest)@ == encode_row(row@) + old(dest)@.subrange(
            ROW_SIZE as int,
            old(dest)@.len() as int,
        ),
{
    let id: u32 = row.id;
    dest[0] = (id % 256) as u8;
    dest[1] = (id / 256 % 256) as u8;
    dest[2] = (id / 65536 % 256) as u8;
    dest[3] = (id / 16777216) as u8;
    copy_into(dest, COLUMN_USERNAME_OFFSET, &row.username);
    copy_into(dest, COLUMN_EMAIL_OFFSET, &row.email);
}

/// Reads a row from the first `ROW_SIZE` bytes of `src`.
pub fn deserialize(src: &[u8]) -> (row: Row)
    requires
        src@.len() >= ROW_SIZE,
    ensures
        row@ == decode_row(src@),
{
    let b0: u32 = src[0] as u32;
    let b1: u32 = src[1] as u32;
    let b2: u32 = src[2] as u32;
    let b3: u32 = src[3] as u32;
    let id: u32 = b0 + b1 * 256 + b2 * 65536 + b3 * 16777216;
    let mut row = Row {
        id,
        username: [0u8; COLUMN_USERNAME_SIZE],
        email: [0u8; COLUMN_EMAIL_SIZE],
    };
    let mut k: usize = 0;
    while k < COLUMN_USERNAME_SIZE
        invariant
            k <= COLUMN_USERNAME_SIZE,
            src@.len() >= ROW_SIZE,
            row.id == id,
            forall|i: int| 0 <= i < k ==> row.username@[i] == src@[COLUMN_USERNAME_OFFSET + i],
        decreases COLUMN_USERNAME_SIZE - k,
    {
        row.username[k] = src[COLUMN_USERNAME_OFFSET + k];
        k += 1;
    }
    let ghost username = row.username@;
    let mut k: usize = 0;
    while k < COLUMN_EMAIL_SIZE
        invariant
            k <= COLUMN_EMAIL_SIZE,
            src@.len() >= ROW_SIZE,
            row.id == id,
            row.username@ == username,
            forall|i: int| 0 <= i < k ==> row.email@[i] == src@[COLUMN_EMAIL_OFFSET + i],
        decreases COLUMN_EMAIL_SIZE - k,
    {
        row.email[k] = src[COLUMN_EMAIL_OFFSET + k];
        k += 1;
    }
    row
}

} // verus!
