//! Short inline strings.

use vstd::prelude::*;
use vstd::slice::slice_subrange;
use vstd::string::StringSliceAdditionalSpecFns;

verus! {

/// A byte string that fits in 32 bytes, stored inline.
#[derive(Clone, Copy)]
pub struct String32 {
    string_data: [u8; 32],
    string_length: usize,
}

impl View for String32 {
    type V = Seq<u8>;

    closed spec fn view(&self) -> Seq<u8> {
        self.string_data@.subrange(0, self.string_length as int)
    }
}

impl String32 {
    #[verifier::type_invariant]
    spec fn inv(&self) -> bool {
        self.string_length <= 32
    }

    /// Number of bytes stored; never more than 32.
    pub fn len(&self) -> (r: usize)
        ensures
            r == self@.len(),
            r <= 32,
    {
        proof {
            use_type_invariant(self);
        }
        self.string_length
    }

    /// The stored bytes; never more than 32 of them.
    pub fn as_bytes(&self) -> (r: &[u8])
        ensures
            r@ == self@,
            r@.len() <= 32,
    {
        proof {
            use_type_invariant(self);
        }
        slice_subrange(self.string_data.as_slice(), 0, self.string_length)
    }

    /// Store the bytes of `value`; fails when they do not fit in 32 bytes.
    pub fn try_from(value: &str) -> (r: Result<String32, &'static str>)
        ensures
            match r {
                Ok(s) => value.spec_bytes().len() <= 32 && s@ == value.spec_bytes(),
                Err(_) => value.spec_bytes().len() > 32,
            },
    {
        let bytes = value.as_bytes();
        let string_length = bytes.len();
        if string_length > 32 {
            return Err("string is too long");
        }
        let mut string_data = [0u8; 32];
        let mut i: usize = 0;
        while i < string_length
            invariant
                i <= string_length <= 32,
                string_length == bytes@.len(),
                string_data@.len() == 32,
                forall|j: int| 0 <= j < i ==> string_data@[j] == bytes@[j],
            decreases string_length - i,
        {
            string_data[i] = bytes[i];
            i = i + 1;
        }
        let r = String32 { string_data, string_length };
        proof {
            assert(r@ =~= bytes@);
        }
        Ok(r)
    }
}

} // verus!
