//! A row as a line of text: the id in decimal, the username and the email,
//! with one space between them and the zero padding of the text fields left
//! out.

use crate::number::{decimal_digits, push_decimal};
use crate::row::{Row, RowView};
use crate::text::{chars_of, trim_end_of, trim_end_of_bound};
use vstd::prelude::*;
use vstd::utf8::{decode_utf8, encode_utf8, encode_utf8_decode_utf8, valid_utf8};

verus! {

/// What stands in place of a text field whose bytes are not valid UTF-8.
pub open spec fn invalid_text() -> Seq<char> {
    "Invalid UTF-8"@
}

/// The text of a field: its bytes read as UTF-8, without the zero characters
/// at the end. A field that is not valid UTF-8 reads as `invalid_text()`.
pub open spec fn field_text(field: Seq<u8>) -> Seq<char> {
    if valid_utf8(field) {
        trim_end_of(decode_utf8(field), '\0')
    } else {
        invalid_text()
    }
}

/// The line of text for a row, without a line feed.
pub open spec fn row_text(row: RowView) -> Seq<char> {
    decimal_digits(row.id as nat) + seq![' '] + field_text(row.username) + seq![' '] + field_text(
        row.email,
    )
}

/// The lines of text for a sequence of rows, each ended by a line feed.
pub open spec fn rows_text(rows: Seq<RowView>) -> Seq<char>
    decreases rows.len(),
{
    if rows.len() == 0 {
        Seq::empty()
    } else {
        rows_text(rows.drop_last()) + row_text(rows.last()) + seq!['\n']
    }
}

/// Calls `core::str::from_utf8` and drops the error it may return. Trusted:
/// the call gives a text exactly when `bytes` are valid UTF-8, and the text
/// it gives is the one whose UTF-8 bytes are `bytes`.
#[verifier::external_body]
fn utf8_text(bytes: &[u8]) -> (text: Option<&str>)
    ensures
        text is Some <==> valid_utf8(bytes@),
        text is Some ==> encode_utf8(text.unwrap()@) == bytes@,
{
    match core::str::from_utf8(bytes) {
        Ok(text) => Some(text),
        Err(_) => None,
    }
}

/// Appends the text of a field to `out`.
fn push_field(field: &[u8], out: &mut String)
    ensures
        final(out)@ == old(out)@ + field_text(field@),
{
    match utf8_text(field) {
        Some(text) => {
            proof {
                encode_utf8_decode_utf8(text@);
            }
            let chars = chars_of(text);
            let end = trim_end_of_bound(&chars, '\0');
            out.append(text.substring_char(0, end));
        },
        None => {
            out.append("Invalid UTF-8");
        },
    }
}

impl Row {
    /// The row as a line of text, without a line feed.
    pub fn to_string(&self) -> (line: String)
        ensures
            line@ == row_text(self@),
    {
        let mut line = String::new();
        push_decimal(self.id, &mut line);
        line.append(" ");
        push_field(&self.username, &mut line);
        line.append(" ");
        push_field(&self.email, &mut line);
        proof {
            reveal_strlit(" ");
        }
        line
    }

    /// Appends the row as a line of text, ended by a line feed, to `writer`.
    pub fn write(&self, writer: &mut String)
        ensures
            final(writer)@ == old(writer)@ + row_text(self@) + seq!['\n'],
    {
        let line = self.to_string();
        writer.append(line.as_str());
        writer.append("\n");
        proof {
            reveal_strlit("\n");
        }
    }
}

} // verus!
