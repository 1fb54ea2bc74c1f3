//! A string with a fixed capacity in bytes, which reports overflow instead of
//! truncating.

use vstd::prelude::*;
use vstd::utf8::*;

verus! {

/// Number of bytes that `text` occupies in UTF-8.
pub open spec fn byte_len(text: Seq<char>) -> nat {
    encode_utf8(text).len()
}

/// The encoding of a concatenation is the concatenation of the encodings.
pub proof fn lemma_encode_concat(a: Seq<char>, b: Seq<char>)
    ensures
        encode_utf8(a + b) == encode_utf8(a) + encode_utf8(b),
    decreases a.len(),
{
    if a.len() == 0 {
        assert(a + b =~= b);
        assert(encode_utf8(a) + encode_utf8(b) =~= encode_utf8(b));
    } else {
        lemma_encode_concat(a.drop_first(), b);
        assert((a + b).drop_first() =~= a.drop_first() + b);
        assert((a + b)[0] == a[0]);
        assert(encode_utf8(a + b) =~= encode_utf8(a) + encode_utf8(b));
    }
}

/// Byte lengths add up under concatenation.
pub proof fn lemma_byte_len_concat(a: Seq<char>, b: Seq<char>)
    ensures
        byte_len(a + b) == byte_len(a) + byte_len(b),
{
    lemma_encode_concat(a, b);
}

/// Text of ASCII characters takes one byte for each character.
pub proof fn lemma_byte_len_ascii(text: Seq<char>)
    requires
        is_ascii_chars(text),
    ensures
        byte_len(text) == text.len(),
{
    is_ascii_chars_encode_utf8(text);
}

/// A string that never holds more than `N` bytes.
#[derive(Debug)]
pub struct BoundedString<const N: usize> {
    text: String,
}

impl<const N: usize> View for BoundedString<N> {
    type V = Seq<char>;

    closed spec fn view(&self) -> Seq<char> {
        self.text@
    }
}

impl<const N: usize> BoundedString<N> {
    #[verifier::type_invariant]
    spec fn within_capacity(&self) -> bool {
        byte_len(self.text@) <= N
    }

    /// An empty string.
    pub fn new() -> (s: Self)
        ensures
            s@ == Seq::<char>::empty(),
    {
        let text = String::new();
        assert(encode_utf8(text@) =~= Seq::<u8>::empty());
        BoundedString { text }
    }

    /// The capacity in bytes.
    pub fn capacity(&self) -> (n: usize)
        ensures
            n == N,
    {
        N
    }

    /// The number of bytes held, which never exceeds the capacity.
    pub fn len(&self) -> (n: usize)
        ensures
            n == byte_len(self@),
            n <= N,
    {
        proof {
            use_type_invariant(self);
        }
        self.text.as_str().as_bytes().len()
    }

    /// The text held.
    pub fn as_str(&self) -> (s: &str)
        ensures
            s@ == self@,
    {
        self.text.as_str()
    }

    /// Appends `part` if the result still fits; otherwise the string is left as
    /// it was and the failure is reported.
    pub fn push_str(&mut self, part: &str) -> (r: Result<(), ()>)
        ensures
            r is Ok <==> byte_len(old(self)@) + byte_len(part@) <= N,
            r is Ok ==> final(self)@ == old(self)@ + part@,
            r is Err ==> final(self)@ == old(self)@,
    {
        proof {
            use_type_invariant(&*self);
            lemma_byte_len_concat(self.text@, part@);
        }
        let used: usize = self.text.as_str().as_bytes().len();
        let added: usize = part.as_bytes().len();
        if added > N - used {
            Err(())
        } else {
            let grown = self.text.clone().concat(part);
            self.text = grown;
            Ok(())
        }
    }
}

} // verus!
