//! Contract addresses as plain 20-byte values, with textual hex parsing.

use vstd::prelude::*;
use crate::bytes::{bytes_eq, copy_range};

verus! {

/// A 20-byte contract address.
#[derive(Debug, PartialEq, Eq)]
pub struct Address {
    pub bytes: Vec<u8>,
}

impl View for Address {
    type V = Seq<u8>;

    open spec fn view(&self) -> Seq<u8> {
        self.bytes@
    }
}

pub const ADDRESS_LEN: usize = 20;

impl Address {
    /// A well-formed address holds exactly twenty bytes.
    pub open spec fn wf(&self) -> bool {
        self@.len() == ADDRESS_LEN
    }

    /// Builds an address from raw bytes; rejects any length but twenty.
    pub fn from_bytes(bytes: Vec<u8>) -> (r: Option<Address>)
        ensures
            r is Some <==> bytes@.len() == ADDRESS_LEN,
            r is Some ==> r->0@ == bytes@ && r->0.wf(),
    {
        if bytes.len() == ADDRESS_LEN {
            Some(Address { bytes })
        } else {
            None
        }
    }

    /// Copies the address.
    pub fn dup(&self) -> (r: Address)
        ensures
            r@ == self@,
    {
        Address { bytes: copy_range(self.bytes.as_slice(), 0, self.bytes.len()) }
    }
}

/// True when the two addresses hold the same bytes.
pub fn addr_eq(a: &Address, b: &Address) -> (r: bool)
    ensures
        r <==> a@ == b@,
{
    bytes_eq(a.bytes.as_slice(), b.bytes.as_slice())
}

/// The numeric value of an ASCII hex digit, or 16 for any other byte.
pub open spec fn spec_hex_val(b: u8) -> u8 {
    if 48 <= b && b <= 57 {
        (b - 48) as u8
    } else if 97 <= b && b <= 102 {
        (b - 87) as u8
    } else if 65 <= b && b <= 70 {
        (b - 55) as u8
    } else {
        16
    }
}

/// True when `b` is an ASCII hex digit.
pub open spec fn spec_is_hex(b: u8) -> bool {
    spec_hex_val(b) < 16
}

/// True when `s` is a canonical textual address: `0x` then forty hex digits.
pub open spec fn spec_hex_addr_ok(s: Seq<u8>) -> bool {
    s.len() == 42 && s[0] == 48 && s[1] == 120 && (forall|k: int| 2 <= k < 42 ==> spec_is_hex(
        s[k],
    ))
}

/// The byte at position `i` of the address that `s` spells.
pub open spec fn spec_hex_addr_byte(s: Seq<u8>, i: int) -> u8 {
    (spec_hex_val(s[2 + 2 * i]) * 16 + spec_hex_val(s[2 + 2 * i + 1])) as u8
}

/// The numeric value of one ASCII hex digit.
fn hex_val(b: u8) -> (r: u8)
    ensures
        r == spec_hex_val(b),
{
    if 48 <= b && b <= 57 {
        b - 48
    } else if 97 <= b && b <= 102 {
        b - 87
    } else if 65 <= b && b <= 70 {
        b - 55
    } else {
        16
    }
}

impl Address {
    /// Parses `0x`-prefixed forty-digit hex text into an address; returns
    /// `None` exactly on text that is not of that shape.
    pub fn from_hex(s: &[u8]) -> (r: Option<Address>)
        ensures
            r is Some <==> spec_hex_addr_ok(s@),
            r is Some ==> r->0.wf() && (forall|i: int|
                0 <= i < 20 ==> r->0@[i] == spec_hex_addr_byte(s@, i)),
    {
        if s.len() != 42 {
            return None;
        }
        if s[0] != 48 || s[1] != 120 {
            return None;
        }
        let mut out: Vec<u8> = Vec::new();
        let mut i: usize = 0;
        while i < 20
            invariant
                s@.len() == 42,
                i <= 20,
                out@.len() == i,
                forall|k: int| 0 <= k < 2 * i ==> spec_is_hex(#[trigger] s@[2 + k]),
                forall|k: int| 0 <= k < i ==> out@[k] == spec_hex_addr_byte(s@, k),
            decreases 20 - i,
        {
            let hi = hex_val(s[2 + 2 * i]);
            let lo = hex_val(s[2 + 2 * i + 1]);
            if hi >= 16 || lo >= 16 {
                return None;
            }
            out.push(hi * 16 + lo);
            i += 1;
        }
        proof {
            assert forall|k: int| 2 <= k < 42 implies spec_is_hex(s@[k]) by {
                assert(spec_is_hex(s@[2 + (k - 2)]));
            }
        }
        Some(Address { bytes: out })
    }
}

} // verus!
