//! The term that the document-frequency source is asked about.

use vstd::prelude::*;
use vstd::slice::slice_to_vec;
use vstd::utf8::*;

verus! {

/// A search term, held as the bytes of its text.
pub struct Term(pub Vec<u8>);

impl Default for Term {
    fn default() -> (term: Term)
        ensures
            term.0@ == Seq::<u8>::empty(),
    {
        Term(Vec::new())
    }
}

/// `std::str::from_utf8`: the bytes read as text. The standard library
/// documents that it fails exactly when the bytes are not valid UTF-8 and
/// that the string it returns is the same bytes, without a copy.
#[verifier::external_body]
fn from_utf8(bytes: &[u8]) -> (text: Option<&str>)
    ensures
        text is Some <==> valid_utf8(bytes@),
        text matches Some(s) ==> encode_utf8(s@) == bytes@,
{
    std::str::from_utf8(bytes).ok()
}

impl Term {
    /// Whether the bytes of the term are the UTF-8 form of some text.
    pub open spec fn is_text(&self) -> bool {
        valid_utf8(self.0@)
    }

    /// The text that the bytes of the term spell.
    pub open spec fn spec_text(&self) -> Seq<char> {
        decode_utf8(self.0@)
    }

    /// The text of the term.
    pub fn text(&self) -> (text: &str)
        requires
            self.is_text(),
        ensures
            text@ == self.spec_text(),
            encode_utf8(text@) == self.0@,
    {
        let text = from_utf8(self.0.as_slice()).unwrap();
        proof {
            encode_utf8_decode_utf8(text@);
        }
        text
    }

    /// Makes `text` the text of the term.
    pub fn set_text(&mut self, text: &str)
        ensures
            final(self).0@ == encode_utf8(text@),
            final(self).is_text(),
            final(self).spec_text() == text@,
    {
        self.0 = slice_to_vec(text.as_bytes());
        proof {
            encode_utf8_valid_utf8(text@);
            encode_utf8_decode_utf8(text@);
        }
    }
}

} // verus!
