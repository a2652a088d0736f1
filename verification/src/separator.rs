//! The separator character that joins the parts of a signed token.

use vstd::prelude::*;
use vstd::string::StrSliceExecFns;

use crate::base64::{in_alphabet, spec_in_alphabet};
use crate::error::{InvalidSeparator, SeparatorNotFound};

verus! {

/// The position of the last occurrence of `c` in `s`, or -1 when `c`
/// does not occur.
pub open spec fn spec_last_index(s: Seq<char>, c: char) -> int
    decreases s.len(),
{
    if s.len() == 0 {
        -1
    } else if s.last() == c {
        s.len() - 1
    } else {
        spec_last_index(s.drop_last(), c)
    }
}

/// What `spec_last_index` returns: the greatest position holding `c`,
/// or -1 when there is none.
pub proof fn lemma_last_index(s: Seq<char>, c: char)
    ensures
        spec_last_index(s, c) >= 0 ==> {
            &&& spec_last_index(s, c) < s.len()
            &&& s[spec_last_index(s, c)] == c
            &&& forall|j: int| spec_last_index(s, c) < j < s.len() ==> s[j] != c
        },
        spec_last_index(s, c) == -1 ==> forall|j: int| 0 <= j < s.len() ==> s[j] != c,
        spec_last_index(s, c) >= -1,
    decreases s.len(),
{
    if s.len() > 0 && s.last() != c {
        lemma_last_index(s.drop_last(), c);
        assert forall|j: int| 0 <= j < s.len() && s[j] == c implies j
            <= spec_last_index(s.drop_last(), c) by {
            assert(s.drop_last()[j] == s[j]);
        }
    }
}

/// A position that holds `c`, with no later one, is the last index.
pub proof fn lemma_last_index_is(s: Seq<char>, c: char, i: int)
    requires
        0 <= i < s.len(),
        s[i] == c,
        forall|j: int| i < j < s.len() ==> s[j] != c,
    ensures
        spec_last_index(s, c) == i,
    decreases s.len(),
{
    if s.last() == c {
    } else {
        lemma_last_index_is(s.drop_last(), c, i);
    }
}

/// A separator character for joining the parts of a signed payload.
///
/// By construction it lies outside the base64 url-safe alphabet
/// (padding included), so it can never collide with the encoded
/// signature or timestamp it delimits.
#[derive(Debug, Clone, Copy, PartialEq, Eq, Structural)]
pub struct Separator {
    c: char,
}

impl Separator {
    /// The underlying character.
    pub closed spec fn spec_char(self) -> char {
        self.c
    }

    /// A well-formed separator lies outside the base64 alphabet.
    pub open spec fn wf(self) -> bool {
        !spec_in_alphabet(self.spec_char())
    }

    /// Creates a new separator, checking to make sure it is valid.
    ///
    /// Fails exactly when the candidate character is in the base64
    /// url-safe alphabet (letters, digits, `-`, `_`, `=`), because such a
    /// separator could appear inside an encoded signature and make the
    /// framing ambiguous.
    pub fn new(separator: char) -> (r: Result<Self, InvalidSeparator>)
        ensures
            r is Ok <==> !spec_in_alphabet(separator),
            r matches Ok(s) ==> s.spec_char() == separator && s.wf(),
            r matches Err(e) ==> e == InvalidSeparator(separator),
    {
        if in_alphabet(separator) {
            Err(InvalidSeparator(separator))
        } else {
            Ok(Separator { c: separator })
        }
    }

    /// Splits `value` at the last occurrence of the separator, returning
    /// the parts before and after it; fails when the separator does not
    /// occur at all.
    pub fn split<'a>(&self, value: &'a str) -> (r: Result<(&'a str, &'a str), SeparatorNotFound>)
        ensures
            r is Ok <==> spec_last_index(value@, self.spec_char()) >= 0,
            r matches Ok(pair) ==> {
                let i = spec_last_index(value@, self.spec_char());
                &&& pair.0@ == value@.subrange(0, i)
                &&& pair.1@ == value@.subrange(i + 1, value@.len() as int)
            },
            r matches Err(e) ==> e.separator == *self,
    {
        let n: usize = value.unicode_len();
        let mut k: usize = n;
        while k > 0
            invariant
                n == value@.len(),
                k <= n,
                forall|j: int| k <= j < n ==> value@[j] != self.spec_char(),
            decreases k,
        {
            let ch = value.get_char(k - 1);
            if ch == self.c {
                proof {
                    lemma_last_index_is(value@, self.spec_char(), k - 1);
                }
                let first = value.substring_char(0, k - 1);
                let second = value.substring_char(k, n);
                return Ok((first, second));
            }
            k = k - 1;
        }
        proof {
            lemma_last_index(value@, self.spec_char());
            if spec_last_index(value@, self.spec_char()) >= 0 {
                assert(value@[spec_last_index(value@, self.spec_char())] == self.spec_char());
            }
        }
        Err(SeparatorNotFound { separator: *self })
    }

    /// The separator as a plain character.
    pub fn as_char(&self) -> (c: char)
        ensures
            c == self.spec_char(),
    {
        self.c
    }

    /// The default separator, a full stop.
    pub fn default() -> (r: Self)
        ensures
            r.spec_char() == '.',
            r.wf(),
    {
        Separator { c: '.' }
    }
}

impl Default for Separator {
    /// The default separator, a full stop.
    fn default() -> (r: Separator)
        ensures
            r.spec_char() == '.',
            r.wf(),
    {
        Separator::default()
    }
}

} // verus!
