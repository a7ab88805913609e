//! Packet framing shared by every packet of the protocol: a VarInt length
//! prefix, then a VarInt packet id, then the packet body. Also the big-endian
//! integer fields that packet bodies carry.

use vstd::prelude::*;
use crate::varint::{
    FrameError, varint_enc, varint_dec, push_varint, varint_decode, lemma_varint_enc_len,
    lemma_varint_round_trip,
};

verus! {

/// The bytes framed by the length prefix: VarInt id, then body.
pub open spec fn packet_inner(id: nat, body: Seq<u8>) -> Seq<u8> {
    varint_enc(id) + body
}

/// The full wire form of a packet.
pub open spec fn packet_enc(id: nat, body: Seq<u8>) -> Seq<u8> {
    varint_enc(packet_inner(id, body).len() as nat) + packet_inner(id, body)
}

/// Decoding a packet from buffered stream bytes: the id, the body, and how
/// many bytes of `s` the packet took. `TruncatedStream` also stands for a
/// buffer that does not yet hold the whole packet, and for a declared
/// length too short to cover its own packet id.
pub open spec fn packet_dec(s: Seq<u8>) -> Result<(nat, Seq<u8>, nat), FrameError> {
    match varint_dec(s) {
        Err(e) => Err(e),
        Ok((len, c1)) => if s.len() < c1 + len {
            Err(FrameError::TruncatedStream)
        } else {
            let inner = s.subrange(c1 as int, (c1 + len) as int);
            match varint_dec(inner) {
                Err(e) => Err(e),
                Ok((id, c2)) => Ok((id, inner.skip(c2 as int), (c1 + len) as nat)),
            }
        },
    }
}

/// Encodes one packet: VarInt length of (VarInt id ++ body), then that.
pub fn encode_packet(id: u32, body: &Vec<u8>) -> (r: Vec<u8>)
    requires
        body@.len() + 5 <= u32::MAX,
    ensures
        r@ == packet_enc(id as nat, body@),
{
    let mut inner: Vec<u8> = Vec::new();
    push_varint(&mut inner, id);
    let mut k: usize = 0;
    while k < body.len()
        invariant
            inner@ =~= varint_enc(id as nat) + body@.take(k as int),
            k <= body@.len(),
        decreases body@.len() - k,
    {
        inner.push(body[k]);
        k = k + 1;
    }
    proof {
        assert(inner@ =~= packet_inner(id as nat, body@));
        lemma_varint_enc_len(id as nat);
    }
    let n: u32 = inner.len() as u32;
    let mut out: Vec<u8> = Vec::new();
    push_varint(&mut out, n);
    out.append(&mut inner);
    proof {
        assert(out@ =~= packet_enc(id as nat, body@));
    }
    out
}

/// Decodes one packet from the front of `s`.
pub fn decode_packet(s: &Vec<u8>) -> (r: Result<(u32, Vec<u8>, usize), FrameError>)
    ensures
        (match r {
            Ok(t) => packet_dec(s@) == Ok::<(nat, Seq<u8>, nat), FrameError>((
                t.0 as nat,
                t.1@,
                t.2 as nat,
            )) && t.2 <= s@.len(),
            Err(e) => packet_dec(s@) == Err::<(nat, Seq<u8>, nat), FrameError>(e),
        }),
{
    proof {
        assert(s@.skip(0) =~= s@);
    }
    match varint_decode(s, 0) {
        Err(e) => Err(e),
        Ok((len32, c1)) => {
            let len: usize = len32 as usize;
            if s.len() - c1 < len {
                Err(FrameError::TruncatedStream)
            } else {
                let mut inner: Vec<u8> = Vec::new();
                let mut k: usize = 0;
                while k < len
                    invariant
                        c1 + len <= s@.len(),
                        c1 + len <= usize::MAX,
                        k <= len,
                        inner@ =~= s@.subrange(c1 as int, c1 as int + k as int),
                    decreases len - k,
                {
                    inner.push(s[c1 + k]);
                    k = k + 1;
                }
                proof {
                    assert(inner@ =~= s@.subrange(c1 as int, (c1 + len) as int));
                }
                match varint_decode(&inner, 0) {
                    Err(e) => {
                        proof {
                            assert(inner@.skip(0) =~= inner@);
                        }
                        Err(e)
                    },
                    Ok((id, c2)) => {
                        proof {
                            assert(inner@.skip(0) =~= inner@);
                        }
                        let mut body: Vec<u8> = Vec::new();
                        let mut j: usize = c2;
                        while j < inner.len()
                            invariant
                                c2 <= j <= inner@.len(),
                                body@ =~= inner@.subrange(c2 as int, j as int),
                            decreases inner@.len() - j,
                        {
                            body.push(inner[j]);
                            j = j + 1;
                        }
                        proof {
                            assert(body@ =~= inner@.skip(c2 as int));
                        }
                        Ok((id, body, c1 + len))
                    },
                }
            }
        },
    }
}

/// Frame round trip: decoding an encoded packet yields the id and the body
/// back, consuming the whole encoding.
pub proof fn lemma_packet_round_trip(id: u32, body: Seq<u8>)
    requires
        body.len() + 5 <= u32::MAX,
    ensures
        packet_dec(packet_enc(id as nat, body)) == Ok::<(nat, Seq<u8>, nat), FrameError>((
            id as nat,
            body,
            packet_enc(id as nat, body).len() as nat,
        )),
{
    let inner = packet_inner(id as nat, body);
    let n = inner.len() as nat;
    lemma_varint_enc_len(id as nat);
    lemma_varint_round_trip(n as u32, inner);
    let s = packet_enc(id as nat, body);
    let c1 = varint_enc(n).len();
    assert(s == varint_enc(n) + inner);
    assert(s.len() == c1 + n);
    assert(s.subrange(c1 as int, (c1 + n) as int) =~= inner);
    lemma_varint_round_trip(id, body);
    let c2 = varint_enc(id as nat).len();
    assert(inner.skip(c2 as int) =~= body);
}

/// A length-prefixed string field: VarInt byte count, then the bytes.
pub open spec fn string_field_enc(payload: Seq<u8>) -> Seq<u8> {
    varint_enc(payload.len() as nat) + payload
}

/// Reading a string field from the front of a packet body: the payload
/// bytes. Bytes after the field are ignored.
pub open spec fn string_field_dec(s: Seq<u8>) -> Result<Seq<u8>, FrameError> {
    match varint_dec(s) {
        Err(e) => Err(e),
        Ok((n, c)) => if s.len() < c + n {
            Err(FrameError::TruncatedStream)
        } else {
            Ok(s.subrange(c as int, (c + n) as int))
        },
    }
}

/// Encodes a string field.
pub fn encode_string_field(payload: &Vec<u8>) -> (r: Vec<u8>)
    requires
        payload@.len() + 5 <= u32::MAX,
    ensures
        r@ == string_field_enc(payload@),
{
    let mut out: Vec<u8> = Vec::new();
    push_varint(&mut out, payload.len() as u32);
    let mut k: usize = 0;
    while k < payload.len()
        invariant
            out@ =~= varint_enc(payload@.len() as nat) + payload@.take(k as int),
            k <= payload@.len(),
        decreases payload@.len() - k,
    {
        out.push(payload[k]);
        k = k + 1;
    }
    proof {
        assert(out@ =~= string_field_enc(payload@));
    }
    out
}

/// Decodes a string field from the front of `s`.
pub fn decode_string_field(s: &Vec<u8>) -> (r: Result<Vec<u8>, FrameError>)
    ensures
        (match r {
            Ok(p) => string_field_dec(s@) == Ok::<Seq<u8>, FrameError>(p@),
            Err(e) => string_field_dec(s@) == Err::<Seq<u8>, FrameError>(e),
        }),
{
    proof {
        assert(s@.skip(0) =~= s@);
    }
    match varint_decode(s, 0) {
        Err(e) => Err(e),
        Ok((n32, c)) => {
            let n: usize = n32 as usize;
            if s.len() - c < n {
                Err(FrameError::TruncatedStream)
            } else {
                let mut payload: Vec<u8> = Vec::new();
                let mut k: usize = 0;
                while k < n
                    invariant
                        c + n <= s@.len(),
                        c + n <= usize::MAX,
                        k <= n,
                        payload@ =~= s@.subrange(c as int, c as int + k as int),
                    decreases n - k,
                {
                    payload.push(s[c + k]);
                    k = k + 1;
                }
                proof {
                    assert(payload@ =~= s@.subrange(c as int, (c + n) as int));
                }
                Ok(payload)
            }
        },
    }
}

/// String-field round trip: reading back an encoded field yields the
/// payload.
pub proof fn lemma_string_field_round_trip(payload: Seq<u8>)
    requires
        payload.len() + 5 <= u32::MAX,
    ensures
        string_field_dec(string_field_enc(payload)) == Ok::<Seq<u8>, FrameError>(payload),
{
    let n = payload.len() as nat;
    lemma_varint_round_trip(n as u32, payload);
    let s = string_field_enc(payload);
    let c = varint_enc(n).len();
    assert(s.subrange(c as int, (c + n) as int) =~= payload);
}

/// The eight big-endian bytes of a 64-bit value.
pub open spec fn be64_bytes(n: nat) -> Seq<u8> {
    seq![
        (n / 0x100000000000000 % 256) as u8,
        (n / 0x1000000000000 % 256) as u8,
        (n / 0x10000000000 % 256) as u8,
        (n / 0x100000000 % 256) as u8,
        (n / 0x1000000 % 256) as u8,
        (n / 0x10000 % 256) as u8,
        (n / 0x100 % 256) as u8,
        (n % 256) as u8,
    ]
}

/// The value of eight big-endian bytes.
pub open spec fn be64_val(s: Seq<u8>) -> nat {
    (((s[0] as nat) * 0x100000000000000) + ((s[1] as nat) * 0x1000000000000) + ((s[2] as nat)
        * 0x10000000000) + ((s[3] as nat) * 0x100000000) + ((s[4] as nat) * 0x1000000) + ((
    s[5] as nat) * 0x10000) + ((s[6] as nat) * 0x100) + (s[7] as nat)) as nat
}

/// Appends the eight big-endian bytes of `n` to `out`.
pub fn push_u64_be(out: &mut Vec<u8>, n: u64)
    ensures
        final(out)@ == old(out)@ + be64_bytes(n as nat),
{
    out.push((n / 0x100000000000000 % 256) as u8);
    out.push((n / 0x1000000000000 % 256) as u8);
    out.push((n / 0x10000000000 % 256) as u8);
    out.push((n / 0x100000000 % 256) as u8);
    out.push((n / 0x1000000 % 256) as u8);
    out.push((n / 0x10000 % 256) as u8);
    out.push((n / 0x100 % 256) as u8);
    out.push((n % 256) as u8);
    proof {
        assert(out@ =~= old(out)@ + be64_bytes(n as nat));
    }
}

/// Big-endian round trip: the eight bytes of a 64-bit value read back as
/// that value.
pub proof fn lemma_be64_round_trip(n: u64)
    ensures
        be64_bytes(n as nat).len() == 8,
        be64_val(be64_bytes(n as nat)) == n as nat,
{
    let x = n as int;
    let q1 = x / 0x100;
    let q2 = x / 0x10000;
    let q3 = x / 0x1000000;
    let q4 = x / 0x100000000;
    let q5 = x / 0x10000000000;
    let q6 = x / 0x1000000000000;
    let q7 = x / 0x100000000000000;
    vstd::arithmetic::div_mod::lemma_div_denominator(x, 0x100, 0x100);
    vstd::arithmetic::div_mod::lemma_div_denominator(x, 0x10000, 0x100);
    vstd::arithmetic::div_mod::lemma_div_denominator(x, 0x1000000, 0x100);
    vstd::arithmetic::div_mod::lemma_div_denominator(x, 0x100000000, 0x100);
    vstd::arithmetic::div_mod::lemma_div_denominator(x, 0x10000000000, 0x100);
    vstd::arithmetic::div_mod::lemma_div_denominator(x, 0x1000000000000, 0x100);
    vstd::arithmetic::div_mod::lemma_fundamental_div_mod(x, 0x100);
    vstd::arithmetic::div_mod::lemma_fundamental_div_mod(q1, 0x100);
    vstd::arithmetic::div_mod::lemma_fundamental_div_mod(q2, 0x100);
    vstd::arithmetic::div_mod::lemma_fundamental_div_mod(q3, 0x100);
    vstd::arithmetic::div_mod::lemma_fundamental_div_mod(q4, 0x100);
    vstd::arithmetic::div_mod::lemma_fundamental_div_mod(q5, 0x100);
    vstd::arithmetic::div_mod::lemma_fundamental_div_mod(q6, 0x100);
    vstd::arithmetic::div_mod::lemma_multiply_divide_lt(x, 0x100, 0x100000000000000);
    vstd::arithmetic::div_mod::lemma_small_mod(q7 as nat, 0x100);
}

/// Reads eight big-endian bytes as a 64-bit value.
pub fn be64_decode(s: &Vec<u8>) -> (r: u64)
    requires
        s@.len() == 8,
    ensures
        r as nat == be64_val(s@),
{
    (s[0] as u64) * 0x100000000000000 + (s[1] as u64) * 0x1000000000000 + (s[2] as u64)
        * 0x10000000000 + (s[3] as u64) * 0x100000000 + (s[4] as u64) * 0x1000000 + (s[5] as u64)
        * 0x10000 + (s[6] as u64) * 0x100 + (s[7] as u64)
}

} // verus!
