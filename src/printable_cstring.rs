//! A C string rendered for diagnostics, with unprintable bytes escaped.
use vstd::prelude::*;
use crate::text::{digit_char, hex_digit, push_char};

verus! {

/// Printable ASCII stays as it is; any other byte becomes `!\xHH`.
pub open spec fn escape_byte(b: u8) -> Seq<char> {
    if 0x20 <= b <= 0x7e {
        seq![b as char]
    } else {
        seq!['!', '\\', 'x', hex_digit((b / 16) as nat), hex_digit((b % 16) as nat)]
    }
}

pub open spec fn escaped(s: Seq<u8>) -> Seq<char>
    decreases s.len(),
{
    if s.len() == 0 {
        seq![]
    } else {
        escaped(s.drop_last()) + escape_byte(s.last())
    }
}

/// The bytes of a C string (without its terminator); `None` for a null pointer.
pub struct PrintableCString {
    pub slice: Option<Vec<u8>>,
}

fn copy_bytes(b: &[u8]) -> (r: Vec<u8>)
    ensures
        r@ == b@,
{
    let mut r: Vec<u8> = Vec::new();
    let mut i: usize = 0;
    while i < b.len()
        invariant
            0 <= i <= b@.len(),
            r@ == b@.subrange(0, i as int),
        decreases b@.len() - i,
    {
        r.push(b[i]);
        i = i + 1;
        assert(r@ =~= b@.subrange(0, i as int));
    }
    assert(b@.subrange(0, b@.len() as int) =~= b@);
    r
}

impl PrintableCString {
    /// Holds a copy of `bytes`; `None` stands for a null pointer.
    pub fn from(bytes: Option<&[u8]>) -> (r: PrintableCString)
        ensures
            match bytes {
                None => r.slice is None,
                Some(b) => r.slice matches Some(v) && v@ == b@,
            },
    {
        match bytes {
            None => PrintableCString { slice: None },
            Some(b) => PrintableCString { slice: Some(copy_bytes(b)) },
        }
    }

    /// The escaped text; empty for a null pointer.
    pub fn to_text(&self) -> (r: String)
        ensures
            r@ == match self.slice {
                None => Seq::<char>::empty(),
                Some(v) => escaped(v@),
            },
    {
        let mut s = String::new();
        match &self.slice {
            None => {},
            Some(v) => {
                let mut i: usize = 0;
                while i < v.len()
                    invariant
                        0 <= i <= v@.len(),
                        s@ == escaped(v@.subrange(0, i as int)),
                    decreases v@.len() - i,
                {
                    let c = v[i];
                    if 0x20 <= c && c <= 0x7e {
                        push_char(&mut s, c as char);
                    } else {
                        push_char(&mut s, '!');
                        push_char(&mut s, '\\');
                        push_char(&mut s, 'x');
                        push_char(&mut s, digit_char(c / 16));
                        push_char(&mut s, digit_char(c % 16));
                    }
                    assert(v@.subrange(0, i + 1).drop_last() =~= v@.subrange(0, i as int));
                    assert(s@ =~= escaped(v@.subrange(0, i + 1)));
                    i = i + 1;
                }
                assert(v@.subrange(0, v@.len() as int) =~= v@);
            },
        }
        s
    }
}

} // verus!
