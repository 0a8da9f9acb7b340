//! A text together with the tokens that were read from it.

use crate::text::slice_text;
use crate::token::{BufferSlice, Token};
use vstd::prelude::*;
use vstd::string::*;
use vstd::utf8::*;

verus! {

/// What a `Sql` holds: the characters of its text, and its tokens.
pub struct SqlView {
    pub text: Seq<char>,
    pub tokens: Seq<Token>,
}

/// A text and the tokens read from it. The text never changes; the tokens may be
/// replaced one by one, and refer to the text by byte offsets.
#[derive(Debug, PartialEq)]
pub struct Sql {
    pub(crate) buf: String,
    pub tokens: Vec<Token>,
}

impl View for Sql {
    type V = SqlView;

    open(crate) spec fn view(&self) -> SqlView {
        SqlView { text: self.buf@, tokens: self.tokens@ }
    }
}

impl Sql {
    /// The characters of the text.
    pub open spec fn text(&self) -> Seq<char> {
        self@.text
    }

    /// A text with tokens that refer to it.
    pub fn new(buf: String, tokens: Vec<Token>) -> (sql: Sql)
        ensures
            sql@ == (SqlView { text: buf@, tokens: tokens@ }),
    {
        Sql { buf: buf, tokens: tokens }
    }

    /// The text that the tokens refer to.
    pub fn buffer(&self) -> (text: &str)
        ensures
            text@ == self.text(),
    {
        self.buf.as_str()
    }

    /// The part of the text that a slice refers to. A slice that is out of order,
    /// reaches beyond the text or cuts a character in two refers to nothing.
    pub fn buffer_content(&self, pos: &BufferSlice) -> (content: &str)
        ensures
            content@ == slice_text(self.text(), *pos),
    {
        broadcast use vstd::utf8::group_utf8_lib;

        let text = self.buf.as_str();
        let len = text.as_bytes().len();
        if pos.end < pos.start || pos.end > len || !text.is_char_boundary(pos.start)
            || !text.is_char_boundary(pos.end) {
            proof {
                reveal_strlit("");
            }
            return "";
        }
        let ghost bytes = text.spec_bytes();
        let (head, _) = text.split_at(pos.end);
        proof {
            let head_bytes = bytes.subrange(0, pos.end as int);
            valid_utf8_split(bytes, pos.end as int);
            if pos.start < pos.end {
                is_char_boundary_iff_not_is_continuation_byte(bytes, pos.start as int);
                is_char_boundary_iff_not_is_continuation_byte(head_bytes, pos.start as int);
            } else {
                is_char_boundary_start_end_of_seq(head_bytes);
            }
        }
        let (_, content) = head.split_at(pos.start);
        proof {
            assert(content.spec_bytes() =~= bytes.subrange(pos.start as int, pos.end as int));
        }
        content
    }
}

} // verus!
