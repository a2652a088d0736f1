//! The historical misspelling of [`crate::separator::Separator`], kept so
//! that callers written against the old name keep compiling. It behaves
//! exactly like the correctly-spelled type.

use vstd::prelude::*;

use crate::base64::spec_in_alphabet;
use crate::error::{InvalidSeparator, SeparatorNotFound};
use crate::separator::{spec_last_index, Separator};

verus! {

/// A separator character under its historical, misspelled name.
#[derive(Debug, Clone, Copy, PartialEq, Eq, Structural)]
pub struct Seperator {
    inner: Separator,
}

impl Seperator {
    /// The separator this stands for.
    pub closed spec fn spec_inner(self) -> Separator {
        self.inner
    }

    /// Creates a new separator, checking to make sure it is valid:
    /// fails exactly when the character is in the base64 url-safe
    /// alphabet.
    pub fn new(seperator: char) -> (r: Result<Self, InvalidSeparator>)
        ensures
            r is Ok <==> !spec_in_alphabet(seperator),
            r matches Ok(s) ==> s.spec_inner().spec_char() == seperator && s.spec_inner().wf(),
            r matches Err(e) ==> e == InvalidSeparator(seperator),
    {
        match Separator::new(seperator) {
            Ok(inner) => Ok(Seperator { inner }),
            Err(e) => Err(e),
        }
    }

    /// Splits `value` at the last occurrence of the separator; fails
    /// when the separator does not occur at all.
    pub fn split<'a>(&self, value: &'a str) -> (r: Result<(&'a str, &'a str), SeparatorNotFound>)
        ensures
            r is Ok <==> spec_last_index(value@, self.spec_inner().spec_char()) >= 0,
            r matches Ok(pair) ==> {
                let i = spec_last_index(value@, self.spec_inner().spec_char());
                &&& pair.0@ == value@.subrange(0, i)
                &&& pair.1@ == value@.subrange(i + 1, value@.len() as int)
            },
            r matches Err(e) ==> e.separator == self.spec_inner(),
    {
        self.inner.split(value)
    }

    /// The default separator, a full stop.
    pub fn default() -> (r: Self)
        ensures
            r.spec_inner().spec_char() == '.',
            r.spec_inner().wf(),
    {
        Seperator { inner: Separator::default() }
    }
}

} // verus!
