//! Strict decoding of call-data parameters against a fixed schema: 32-byte
//! head words, addresses left-padded with zero bytes, dynamic address arrays
//! addressed by offset words.

use vstd::prelude::*;
use crate::address::Address;
use crate::bytes::{all_zero, be_u32_at, copy_range, spec_all_zero, spec_be_u32};
use crate::interface::ParamType;

verus! {

/// The abstract value of one decoded parameter.
#[verifier::ext_equal]
pub enum ValueV {
    Uint(Seq<u8>),
    Addr(Seq<u8>),
    AddrList(Seq<Seq<u8>>),
}

/// One decoded parameter: a 32-byte big-endian integer, an address, or a
/// list of addresses.
#[derive(Debug, PartialEq, Eq)]
pub enum AbiValue {
    Uint(Vec<u8>),
    Addr(Address),
    AddrList(Vec<Address>),
}

impl View for AbiValue {
    type V = ValueV;

    open spec fn view(&self) -> ValueV {
        match self {
            AbiValue::Uint(v) => ValueV::Uint(v@),
            AbiValue::Addr(a) => ValueV::Addr(a@),
            AbiValue::AddrList(l) => ValueV::AddrList(l@.map_values(|a: Address| a@)),
        }
    }
}

/// Call data matched an operation but its parameters do not fit the schema.
#[derive(Clone, Copy, Debug, PartialEq, Eq, Structural)]
pub struct DecodeError;

/// A word whose first 28 bytes are zero: its value fits a 32-bit count.
pub open spec fn spec_word_small(data: Seq<u8>, w: int) -> bool {
    spec_all_zero(data, w, w + 28)
}

/// The numeric value of a small word.
pub open spec fn spec_word_val(data: Seq<u8>, w: int) -> int {
    spec_be_u32(data, w + 28)
}

/// Element `k` of the array at `off` carries its 12 zero padding bytes.
pub open spec fn spec_elem_padded(data: Seq<u8>, off: int, k: int) -> bool {
    spec_all_zero(data, off + 32 + 32 * k, off + 32 + 32 * k + 12)
}

/// Decodes the parameter in head slot `i` of `data` against type `p`;
/// `None` exactly on data that does not fit the schema.
pub open spec fn spec_decode_param(p: ParamType, data: Seq<u8>, i: int) -> Option<ValueV> {
    let w = 32 * i;
    if w + 32 > data.len() {
        None
    } else {
        match p {
            ParamType::Uint256 => Some(ValueV::Uint(data.subrange(w, w + 32))),
            ParamType::Address => if spec_all_zero(data, w, w + 12) {
                Some(ValueV::Addr(data.subrange(w + 12, w + 32)))
            } else {
                None
            },
            ParamType::AddressArray => {
                if !spec_word_small(data, w) {
                    None
                } else {
                    let off = spec_word_val(data, w);
                    if off + 32 > data.len() {
                        None
                    } else if !spec_word_small(data, off) {
                        None
                    } else {
                        let n = spec_word_val(data, off);
                        if off + 32 + 32 * n > data.len() {
                            None
                        } else if !(forall|k: int|
                            0 <= k < n ==> spec_elem_padded(data, off, k)) {
                            None
                        } else {
                            Some(
                                ValueV::AddrList(
                                    Seq::new(
                                        n as nat,
                                        |k: int|
                                            data.subrange(
                                                off + 32 + 32 * k + 12,
                                                off + 32 + 32 * k + 32,
                                            ),
                                    ),
                                ),
                            )
                        }
                    }
                }
            },
        }
    }
}

/// Every parameter of the schema decodes.
pub open spec fn spec_decode_ok(ps: Seq<ParamType>, data: Seq<u8>) -> bool {
    forall|i: int| 0 <= i < ps.len() ==> spec_decode_param(#[trigger] ps[i], data, i) is Some
}

/// The decoded parameter values, in schema order.
pub open spec fn spec_decoded(ps: Seq<ParamType>, data: Seq<u8>) -> Seq<ValueV> {
    Seq::new(ps.len(), |i: int| spec_decode_param(ps[i], data, i)->0)
}

#[verifier::loop_isolation(false)]
fn decode_param_at(p: ParamType, data: &[u8], w: usize, Ghost(gi): Ghost<int>) -> (r: Option<
    AbiValue,
>)
    requires
        w as int == 32 * gi,
        w + 32 <= data@.len(),
    ensures
        r is Some <==> spec_decode_param(p, data@, gi) is Some,
        r is Some ==> r->0@ == spec_decode_param(p, data@, gi)->0,
{
    let dlen = data.len();
    match p {
        ParamType::Uint256 => Some(AbiValue::Uint(copy_range(data, w, w + 32))),
        ParamType::Address => {
            if all_zero(data, w, w + 12) {
                Some(AbiValue::Addr(Address { bytes: copy_range(data, w + 12, w + 32) }))
            } else {
                None
            }
        },
        ParamType::AddressArray => {
            if !all_zero(data, w, w + 28) {
                return None;
            }
            let off32 = be_u32_at(data, w + 28);
            let len64 = data.len() as u64;
            let off64 = off32 as u64;
            if off64 + 32 > len64 {
                return None;
            }
            let off = off32 as usize;
            if !all_zero(data, off, off + 28) {
                return None;
            }
            let n32 = be_u32_at(data, off + 28);
            let n64 = n32 as u64;
            if off64 + 32 + 32 * n64 > len64 {
                return None;
            }
            let n = n32 as usize;
            let ghost offi = off as int;
            let mut out: Vec<Address> = Vec::new();
            let mut k: usize = 0;
            let mut pos: usize = off + 32;
            while k < n
                invariant
                    offi == off as int,
                    offi + 32 + 32 * (n as int) <= data@.len(),
                    pos as int == offi + 32 + 32 * (k as int),
                    k <= n,
                    out@.len() == k,
                    forall|m: int| 0 <= m < k ==> spec_elem_padded(data@, offi, m),
                    forall|m: int|
                        0 <= m < k ==> (#[trigger] out@[m])@ == data@.subrange(
                            offi + 32 + 32 * m + 12,
                            offi + 32 + 32 * m + 32,
                        ),
                decreases n - k,
            {
                proof {
                    assert(pos as int + 32 <= data@.len());
                }
                if !all_zero(data, pos, pos + 12) {
                    proof {
                        assert(!spec_elem_padded(data@, offi, k as int));
                    }
                    return None;
                }
                proof {
                    assert(spec_elem_padded(data@, offi, k as int));
                }
                out.push(Address { bytes: copy_range(data, pos + 12, pos + 32) });
                pos += 32;
                k += 1;
            }
            proof {
                let nn = n as int;
                assert(spec_word_small(data@, 32 * gi));
                assert(spec_word_val(data@, 32 * gi) == off as int);
                assert(spec_word_val(data@, offi) == nn);
                assert(out@.map_values(|a: Address| a@) =~= Seq::new(
                    nn as nat,
                    |kk: int| data@.subrange(offi + 32 + 32 * kk + 12, offi + 32 + 32 * kk + 32),
                ));
            }
            Some(AbiValue::AddrList(out))
        },
    }
}

/// Decodes `data` against the schema `ps`: succeeds exactly when every
/// parameter fits, and then yields the values the schema prescribes.
#[verifier::loop_isolation(false)]
pub fn decode_params(ps: &[ParamType], data: &[u8]) -> (r: Result<Vec<AbiValue>, DecodeError>)
    ensures
        r is Ok <==> spec_decode_ok(ps@, data@),
        r is Ok ==> (r->Ok_0)@.map_values(|v: AbiValue| v@) == spec_decoded(ps@, data@),
{
    let n = ps.len();
    let mut out: Vec<AbiValue> = Vec::new();
    let mut i: usize = 0;
    let mut w: usize = 0;
    while i < n
        invariant
            n == ps@.len(),
            i <= n,
            w as int == 32 * (i as int),
            w <= data@.len(),
            out@.len() == i,
            forall|k: int| 0 <= k < i ==> spec_decode_param(#[trigger] ps@[k], data@, k) is Some,
            forall|k: int|
                0 <= k < i ==> (#[trigger] out@[k])@ == spec_decode_param(ps@[k], data@, k)->0,
        decreases n - i,
    {
        if data.len() - w < 32 {
            proof {
                assert(spec_decode_param(ps@[i as int], data@, i as int) is None);
            }
            return Err(DecodeError);
        }
        match decode_param_at(ps[i], data, w, Ghost(i as int)) {
            None => {
                return Err(DecodeError);
            },
            Some(v) => out.push(v),
        }
        w += 32;
        i += 1;
    }
    proof {
        assert(out@.map_values(|v: AbiValue| v@) =~= spec_decoded(ps@, data@));
    }
    Ok(out)
}

} // verus!
