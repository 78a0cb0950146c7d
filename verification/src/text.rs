//! A text that is read by character index.
//!
//! Looking up the n-th character of a string means decoding the n characters
//! before it, unless the string is plain ASCII, where characters and bytes
//! are the same thing. The adapter's protocol is ASCII, so that is the case
//! worth being fast in.

use vstd::prelude::*;
use vstd::string::{is_ascii_spec_bytes, StrSliceExecFns};

verus! {

/// A string with its length in characters, and whether it is plain ASCII.
pub(crate) struct Text<'a> {
    text: &'a str,
    len: usize,
    ascii: bool,
}

impl<'a> View for Text<'a> {
    type V = Seq<char>;

    closed spec fn view(&self) -> Seq<char> {
        self.text@
    }
}

impl<'a> Text<'a> {
    #[verifier::type_invariant]
    spec fn wf(self) -> bool {
        &&& self.len == self.text@.len()
        &&& self.ascii ==> self.text.is_ascii()
    }

    pub(crate) fn new(text: &'a str) -> (r: Self)
        ensures
            r@ == text@,
    {
        let ascii = text.is_ascii();
        let len = if ascii {
            proof {
                is_ascii_spec_bytes(text);
            }
            text.as_bytes().len()
        } else {
            text.unicode_len()
        };
        Text { text, len, ascii }
    }

    /// The number of characters.
    pub(crate) fn len(&self) -> (r: usize)
        ensures
            r == self@.len(),
    {
        proof {
            use_type_invariant(self);
        }
        self.len
    }

    /// The character at index `at`.
    pub(crate) fn char_at(&self, at: usize) -> (c: char)
        requires
            at < self@.len(),
        ensures
            c == self@[at as int],
    {
        proof {
            use_type_invariant(self);
        }
        if self.ascii {
            self.text.get_ascii(at) as char
        } else {
            self.text.get_char(at)
        }
    }

    /// The text from index `from` on.
    pub(crate) fn rest(&self, from: usize) -> (r: &'a str)
        requires
            from <= self@.len(),
        ensures
            r@ == self@.skip(from as int),
    {
        proof {
            use_type_invariant(self);
        }
        if self.ascii {
            self.text.substring_ascii(from, self.len)
        } else {
            self.text.substring_char(from, self.len)
        }
    }
}

} // verus!
