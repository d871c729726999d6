//! The binary encoding of trusted calls and getters: a tag byte for the variant, then each
//! field's encoding in order.
use vstd::prelude::*;
use crate::attendance::{ProofOfAttendance, array_bytes};
use crate::fixed::BalanceType;
use crate::scale::{
    le_encode, le_decode, i128_bits, i128_of_bits, encode_u32, encode_i128, decode_u32,
    decode_i128, lemma_le_encode_decode, lemma_le_encode_len, lemma_pow256_values,
};
use crate::stf::{TrustedCall, TrustedGetter};

verus! {

/// The tag of a multi-signature holding an sr25519 signature.
pub const SR25519_SIGNATURE_TAG: u8 = 1;

/// The encoding of a proof of attendance.
pub open spec fn proof_bytes(p: ProofOfAttendance) -> Seq<u8> {
    p.prover_public@ + p.currency_identifier@ + le_encode(p.ceremony_index as nat, 4)
        + p.attendee_public@ + seq![SR25519_SIGNATURE_TAG] + p.attendee_signature@
}

/// The encoding of a trusted call.
pub open spec fn call_bytes(c: TrustedCall) -> Seq<u8> {
    match c {
        TrustedCall::balance_transfer(from, to, cid, amount) => seq![0u8] + from@ + to@ + cid@
            + le_encode(i128_bits(amount.bits), 16),
        TrustedCall::ceremonies_register_participant(from, cid, poa) => match poa {
            None => seq![1u8] + from@ + cid@ + seq![0u8],
            Some(p) => seq![1u8] + from@ + cid@ + seq![1u8] + proof_bytes(p),
        },
    }
}

/// The encoding of a trusted getter.
pub open spec fn getter_bytes(g: TrustedGetter) -> Seq<u8> {
    match g {
        TrustedGetter::balance(who, cid) => seq![0u8] + who@ + cid@,
    }
}

fn array32(bytes: &[u8], start: usize) -> (r: [u8; 32])
    requires
        start + 32 <= bytes@.len(),
    ensures
        r@ == bytes@.subrange(start as int, start + 32),
{
    let len = bytes.len();
    let mut a = [0u8; 32];
    let mut i: usize = 0;
    while i < 32
        invariant
            i <= 32,
            len == bytes@.len(),
            start + 32 <= bytes@.len(),
            forall|j: int| 0 <= j < i ==> a@[j] == bytes@[start + j],
        decreases 32 - i,
    {
        a[i] = bytes[start + i];
        i = i + 1;
    }
    assert(a@ =~= bytes@.subrange(start as int, start + 32));
    a
}

fn array64(bytes: &[u8], start: usize) -> (r: [u8; 64])
    requires
        start + 64 <= bytes@.len(),
    ensures
        r@ == bytes@.subrange(start as int, start + 64),
{
    let len = bytes.len();
    let mut a = [0u8; 64];
    let mut i: usize = 0;
    while i < 64
        invariant
            i <= 64,
            len == bytes@.len(),
            start + 64 <= bytes@.len(),
            forall|j: int| 0 <= j < i ==> a@[j] == bytes@[start + j],
        decreases 64 - i,
    {
        a[i] = bytes[start + i];
        i = i + 1;
    }
    assert(a@ =~= bytes@.subrange(start as int, start + 64));
    a
}

proof fn lemma_i128_bytes(s: Seq<u8>)
    requires
        s.len() == 16,
    ensures
        le_encode(i128_bits(i128_of_bits(le_decode(s)) as i128), 16) == s,
{
    lemma_le_encode_decode(s);
    lemma_pow256_values();
}

proof fn lemma_lengths(c: TrustedCall)
    ensures
        c matches TrustedCall::balance_transfer(_, _, _, _) ==> call_bytes(c).len() == 113,
        c matches TrustedCall::ceremonies_register_participant(_, _, None) ==> call_bytes(c).len()
            == 66,
        c matches TrustedCall::ceremonies_register_participant(_, _, Some(_)) ==> call_bytes(
            c,
        ).len() == 231,
{
    match c {
        TrustedCall::balance_transfer(_, _, _, amount) => {
            lemma_le_encode_len(i128_bits(amount.bits), 16);
        },
        TrustedCall::ceremonies_register_participant(_, _, poa) => match poa {
            None => {},
            Some(p) => {
                lemma_le_encode_len(p.ceremony_index as nat, 4);
            },
        },
    }
}

impl TrustedCall {
    /// The encoding of this call.
    pub fn encode(&self) -> (r: Vec<u8>)
        ensures
            r@ == call_bytes(*self),
    {
        match self {
            TrustedCall::balance_transfer(from, to, cid, amount) => {
                let mut r: Vec<u8> = vec![0u8];
                let mut f = array_bytes(from);
                let mut t = array_bytes(to);
                let mut c = array_bytes(cid);
                let mut a = encode_i128(amount.bits);
                r.append(&mut f);
                r.append(&mut t);
                r.append(&mut c);
                r.append(&mut a);
                r
            },
            TrustedCall::ceremonies_register_participant(from, cid, poa) => {
                let mut r: Vec<u8> = vec![1u8];
                let mut f = array_bytes(from);
                let mut c = array_bytes(cid);
                r.append(&mut f);
                r.append(&mut c);
                match poa {
                    None => {
                        r.push(0u8);
                    },
                    Some(p) => {
                        r.push(1u8);
                        let mut pp = array_bytes(&p.prover_public);
                        let mut pc = array_bytes(&p.currency_identifier);
                        let mut ci = encode_u32(p.ceremony_index);
                        let mut pa = array_bytes(&p.attendee_public);
                        let mut sig = vstd::slice::slice_to_vec(p.attendee_signature.as_slice());
                        r.append(&mut pp);
                        r.append(&mut pc);
                        r.append(&mut ci);
                        r.append(&mut pa);
                        r.push(SR25519_SIGNATURE_TAG);
                        r.append(&mut sig);
                    },
                }
                r
            },
        }
    }

    /// The call that `bytes` encode, if they encode one. Encoding the result gives `bytes`
    /// back, and every encoding of a call decodes.
    pub fn decode(bytes: &[u8]) -> (r: Option<TrustedCall>)
        ensures
            r matches Some(c) ==> call_bytes(c) == bytes@,
            r is None ==> forall|c: TrustedCall| call_bytes(c) != bytes@,
    {
        let n = bytes.len();
        if n == 113 && bytes[0] == 0 {
            let from = array32(bytes, 1);
            let to = array32(bytes, 33);
            let cid = array32(bytes, 65);
            let bits = decode_i128(bytes, 97);
            let c = TrustedCall::balance_transfer(from, to, cid, BalanceType { bits });
            proof {
                lemma_i128_bytes(bytes@.subrange(97, 113));
                assert(call_bytes(c) =~= bytes@);
            }
            Some(c)
        } else if n == 66 && bytes[0] == 1 && bytes[65] == 0 {
            let from = array32(bytes, 1);
            let cid = array32(bytes, 33);
            let c = TrustedCall::ceremonies_register_participant(from, cid, None);
            proof {
                assert(call_bytes(c) =~= bytes@);
            }
            Some(c)
        } else if n == 231 && bytes[0] == 1 && bytes[65] == 1 && bytes[166] == SR25519_SIGNATURE_TAG {
            let from = array32(bytes, 1);
            let cid = array32(bytes, 33);
            let p = ProofOfAttendance {
                prover_public: array32(bytes, 66),
                currency_identifier: array32(bytes, 98),
                ceremony_index: decode_u32(bytes, 130),
                attendee_public: array32(bytes, 134),
                attendee_signature: array64(bytes, 167),
            };
            let c = TrustedCall::ceremonies_register_participant(from, cid, Some(p));
            proof {
                let s = bytes@.subrange(130, 134);
                lemma_le_encode_decode(s);
                assert(call_bytes(c) =~= bytes@);
            }
            Some(c)
        } else {
            proof {
                assert forall|c: TrustedCall| call_bytes(c) != bytes@ by {
                    lemma_lengths(c);
                    if call_bytes(c) == bytes@ {
                        match c {
                            TrustedCall::balance_transfer(_, _, _, _) => {
                                assert(bytes@[0] == call_bytes(c)[0]);
                            },
                            TrustedCall::ceremonies_register_participant(_, _, poa) => {
                                assert(bytes@[0] == call_bytes(c)[0]);
                                assert(bytes@[65] == call_bytes(c)[65]);
                                if poa is Some {
                                    assert(bytes@[166] == call_bytes(c)[166]);
                                }
                            },
                        }
                    }
                }
            }
            None
        }
    }
}

impl TrustedGetter {
    /// The encoding of this getter.
    pub fn encode(&self) -> (r: Vec<u8>)
        ensures
            r@ == getter_bytes(*self),
    {
        match self {
            TrustedGetter::balance(who, cid) => {
                let mut r: Vec<u8> = vec![0u8];
                let mut w = array_bytes(who);
                let mut c = array_bytes(cid);
                r.append(&mut w);
                r.append(&mut c);
                r
            },
        }
    }

    /// The getter that `bytes` encode, if they encode one. Encoding the result gives `bytes`
    /// back, and every encoding of a getter decodes.
    pub fn decode(bytes: &[u8]) -> (r: Option<TrustedGetter>)
        ensures
            r matches Some(g) ==> getter_bytes(g) == bytes@,
            r is None ==> forall|g: TrustedGetter| getter_bytes(g) != bytes@,
    {
        if bytes.len() == 65 && bytes[0] == 0 {
            let g = TrustedGetter::balance(array32(bytes, 1), array32(bytes, 33));
            proof {
                assert(getter_bytes(g) =~= bytes@);
            }
            Some(g)
        } else {
            proof {
                assert forall|g: TrustedGetter| getter_bytes(g) != bytes@ by {
                    if getter_bytes(g) == bytes@ {
                        assert(bytes@[0] == getter_bytes(g)[0]);
                    }
                }
            }
            None
        }
    }
}

/// Different calls have different encodings, so decoding an encoded call gives the call back.
pub proof fn lemma_call_encoding_injective(c1: TrustedCall, c2: TrustedCall)
    requires
        call_bytes(c1) == call_bytes(c2),
    ensures
        c1 == c2,
{
    let s = call_bytes(c1);
    lemma_lengths(c1);
    lemma_lengths(c2);
    lemma_pow256_values();
    match (c1, c2) {
        (
            TrustedCall::balance_transfer(f1, t1, k1, a1),
            TrustedCall::balance_transfer(f2, t2, k2, a2),
        ) => {
            assert(f1@ =~= s.subrange(1, 33));
            assert(f2@ =~= s.subrange(1, 33));
            assert(t1@ =~= s.subrange(33, 65));
            assert(t2@ =~= s.subrange(33, 65));
            assert(k1@ =~= s.subrange(65, 97));
            assert(k2@ =~= s.subrange(65, 97));
            assert(f1 =~= f2);
            assert(t1 =~= t2);
            assert(k1 =~= k2);
            let e1 = le_encode(i128_bits(a1.bits), 16);
            let e2 = le_encode(i128_bits(a2.bits), 16);
            assert(e1 =~= s.subrange(97, 113));
            assert(e2 =~= s.subrange(97, 113));
            crate::scale::lemma_le_decode_encode(i128_bits(a1.bits), 16);
            crate::scale::lemma_le_decode_encode(i128_bits(a2.bits), 16);
            crate::scale::lemma_i128_bits_round_trip(a1.bits);
            crate::scale::lemma_i128_bits_round_trip(a2.bits);
        },
        (TrustedCall::balance_transfer(_, _, _, _), _) => {
            assert(call_bytes(c1)[0] != call_bytes(c2)[0]);
        },
        (_, TrustedCall::balance_transfer(_, _, _, _)) => {
            assert(call_bytes(c1)[0] != call_bytes(c2)[0]);
        },
        (
            TrustedCall::ceremonies_register_participant(f1, k1, p1),
            TrustedCall::ceremonies_register_participant(f2, k2, p2),
        ) => {
            assert(f1@ =~= s.subrange(1, 33));
            assert(f2@ =~= s.subrange(1, 33));
            assert(k1@ =~= s.subrange(33, 65));
            assert(k2@ =~= s.subrange(33, 65));
            assert(f1 =~= f2);
            assert(k1 =~= k2);
            match (p1, p2) {
                (Some(q1), Some(q2)) => {
                    assert(q1.prover_public@ =~= s.subrange(66, 98));
                    assert(q2.prover_public@ =~= s.subrange(66, 98));
                    assert(q1.currency_identifier@ =~= s.subrange(98, 130));
                    assert(q2.currency_identifier@ =~= s.subrange(98, 130));
                    assert(q1.attendee_public@ =~= s.subrange(134, 166));
                    assert(q2.attendee_public@ =~= s.subrange(134, 166));
                    assert(q1.attendee_signature@ =~= s.subrange(167, 231));
                    assert(q2.attendee_signature@ =~= s.subrange(167, 231));
                    assert(q1.prover_public =~= q2.prover_public);
                    assert(q1.currency_identifier =~= q2.currency_identifier);
                    assert(q1.attendee_public =~= q2.attendee_public);
                    assert(q1.attendee_signature =~= q2.attendee_signature);
                    let e1 = le_encode(q1.ceremony_index as nat, 4);
                    let e2 = le_encode(q2.ceremony_index as nat, 4);
                    assert(e1 =~= s.subrange(130, 134));
                    assert(e2 =~= s.subrange(130, 134));
                    crate::scale::lemma_le_decode_encode(q1.ceremony_index as nat, 4);
                    crate::scale::lemma_le_decode_encode(q2.ceremony_index as nat, 4);
                },
                (None, None) => {},
                _ => {},
            }
        },
    }
}

/// Different getters have different encodings, so decoding an encoded getter gives it back.
pub proof fn lemma_getter_encoding_injective(g1: TrustedGetter, g2: TrustedGetter)
    requires
        getter_bytes(g1) == getter_bytes(g2),
    ensures
        g1 == g2,
{
    let s = getter_bytes(g1);
    match (g1, g2) {
        (TrustedGetter::balance(w1, k1), TrustedGetter::balance(w2, k2)) => {
            assert(w1@ =~= s.subrange(1, 33));
            assert(w2@ =~= s.subrange(1, 33));
            assert(k1@ =~= s.subrange(33, 65));
            assert(k2@ =~= s.subrange(33, 65));
            assert(w1 =~= w2);
            assert(k1 =~= k2);
        },
    }
}

} // verus!
