//! The VarInt wire primitive: seven data bits per byte, least significant
//! group first, continuation bit `0x80` on every byte but the last. At most
//! five bytes, covering the 32-bit range.

use vstd::prelude::*;

verus! {

/// Errors of the framing layer: the stream ended before a complete value,
/// or a VarInt ran past five bytes or past the 32-bit range.
#[derive(Clone, Copy, Debug, PartialEq, Eq, Structural)]
pub enum FrameError {
    TruncatedStream,
    VarIntOverflow,
}

/// The VarInt encoding of `n`.
pub open spec fn varint_enc(n: nat) -> Seq<u8>
    decreases n,
{
    if n < 128 {
        seq![n as u8]
    } else {
        seq![(n % 128 + 128) as u8] + varint_enc(n / 128)
    }
}

/// Decoding limited to `fuel` bytes: the value read, and how many bytes of
/// `s` it took. Exhausted fuel means an overlong sequence.
pub open spec fn varint_dec_rec(s: Seq<u8>, fuel: nat) -> Result<(nat, nat), FrameError>
    decreases fuel,
{
    if fuel == 0 {
        Err(FrameError::VarIntOverflow)
    } else if s.len() == 0 {
        Err(FrameError::TruncatedStream)
    } else if s[0] < 128 {
        Ok((s[0] as nat, 1))
    } else {
        match varint_dec_rec(s.skip(1), (fuel - 1) as nat) {
            Ok((v, c)) => Ok((((s[0] - 128) as nat) + 128 * v, c + 1)),
            Err(e) => Err(e),
        }
    }
}

/// Full VarInt decoding: at most five bytes, and the value must lie in the
/// 32-bit range.
pub open spec fn varint_dec(s: Seq<u8>) -> Result<(nat, nat), FrameError> {
    match varint_dec_rec(s, 5) {
        Ok((v, c)) => if v < 0x1_0000_0000 {
            Ok((v, c))
        } else {
            Err(FrameError::VarIntOverflow)
        },
        Err(e) => Err(e),
    }
}

/// 128 to the power `k`.
spec fn pow128(k: nat) -> nat
    decreases k,
{
    if k == 0 {
        1
    } else {
        128 * pow128((k - 1) as nat)
    }
}

proof fn lemma_pow128_pos(k: nat)
    ensures
        pow128(k) >= 1,
    decreases k,
{
    if k > 0 {
        lemma_pow128_pos((k - 1) as nat);
    }
}

/// A successfully decoded value is bounded by the fuel spent, and the byte
/// count is positive and within both the fuel and the input.
proof fn lemma_varint_dec_rec_bound(s: Seq<u8>, fuel: nat)
    ensures
        varint_dec_rec(s, fuel) matches Ok(p) ==> p.0 < pow128(fuel) && 1 <= p.1 <= fuel
            && p.1 <= s.len(),
    decreases fuel,
{
    lemma_pow128_pos(fuel);
    if fuel > 0 && s.len() > 0 {
        if s[0] < 128 {
            assert(pow128(fuel) == 128 * pow128((fuel - 1) as nat));
            lemma_pow128_pos((fuel - 1) as nat);
        } else {
            lemma_varint_dec_rec_bound(s.skip(1), (fuel - 1) as nat);
        }
    }
}

/// Appends the VarInt encoding of `n` to `out`.
pub fn push_varint(out: &mut Vec<u8>, n: u32)
    ensures
        final(out)@ == old(out)@ + varint_enc(n as nat),
{
    let mut v: u32 = n;
    while v >= 128
        invariant
            old(out)@ + varint_enc(n as nat) =~= out@ + varint_enc(v as nat),
        decreases v,
    {
        let b: u8 = (v % 128 + 128) as u8;
        proof {
            assert(varint_enc(v as nat) =~= seq![b] + varint_enc((v as nat) / 128));
        }
        out.push(b);
        proof {
            assert(old(out)@ + varint_enc(n as nat) =~= out@ + varint_enc((v as nat) / 128));
        }
        v = v / 128;
    }
    out.push(v as u8);
    proof {
        assert(varint_enc(v as nat) =~= seq![v as u8]);
        assert(out@ =~= old(out)@ + varint_enc(n as nat));
    }
}

/// The VarInt encoding of `n` as a fresh byte vector.
pub fn varint_encode(n: u32) -> (r: Vec<u8>)
    ensures
        r@ == varint_enc(n as nat),
{
    let mut out: Vec<u8> = Vec::new();
    push_varint(&mut out, n);
    out
}

proof fn lemma_pow128_mono(a: nat, b: nat)
    requires
        a <= b,
    ensures
        pow128(a) <= pow128(b),
    decreases b,
{
    lemma_pow128_pos(a);
    if a < b {
        lemma_pow128_mono(a, (b - 1) as nat);
        lemma_pow128_pos((b - 1) as nat);
    }
}

fn varint_dec_at(s: &Vec<u8>, i: usize, fuel: u8) -> (r: Result<(u64, usize), FrameError>)
    requires
        i <= s@.len(),
        fuel <= 5,
    ensures
        (match r {
            Ok(p) => varint_dec_rec(s@.skip(i as int), fuel as nat) == Ok::<(nat, nat),
                FrameError>((p.0 as nat, p.1 as nat)) && i + p.1 <= s@.len() && 1 <= p.1,
            Err(e) => varint_dec_rec(s@.skip(i as int), fuel as nat) == Err::<(nat, nat),
                FrameError>(e),
        }),
    decreases fuel,
{
    if fuel == 0 {
        Err(FrameError::VarIntOverflow)
    } else if i == s.len() {
        proof {
            assert(s@.skip(i as int).len() == 0);
        }
        Err(FrameError::TruncatedStream)
    } else {
        let b: u8 = s[i];
        proof {
            assert(s@.skip(i as int)[0] == s@[i as int]);
        }
        if b < 128 {
            Ok((b as u64, 1))
        } else {
            proof {
                assert(s@.skip(i as int).skip(1) =~= s@.skip(i as int + 1));
            }
            match varint_dec_at(s, i + 1, fuel - 1) {
                Ok((v, c)) => {
                    proof {
                        lemma_varint_dec_rec_bound(s@.skip(i as int + 1), (fuel - 1) as nat);
                        lemma_pow128_mono((fuel - 1) as nat, 4);
                        assert(pow128(4) == 0x10000000) by {
                            assert(pow128(0) == 1);
                            assert(pow128(1) == 128);
                            assert(pow128(2) == 0x4000);
                            assert(pow128(3) == 0x200000);
                        }
                    }
                    Ok(((b - 128) as u64 + 128 * v, c + 1))
                },
                Err(e) => Err(e),
            }
        }
    }
}

/// Decodes a VarInt from `s` starting at `start`: the value and the number
/// of bytes consumed.
pub fn varint_decode(s: &Vec<u8>, start: usize) -> (r: Result<(u32, usize), FrameError>)
    requires
        start <= s@.len(),
    ensures
        (match r {
            Ok(p) => varint_dec(s@.skip(start as int)) == Ok::<(nat, nat), FrameError>((
                p.0 as nat,
                p.1 as nat,
            )) && start + p.1 <= s@.len() && 1 <= p.1 <= 5,
            Err(e) => varint_dec(s@.skip(start as int)) == Err::<(nat, nat), FrameError>(e),
        }),
{
    match varint_dec_at(s, start, 5) {
        Ok((v, c)) => {
            proof {
                lemma_varint_dec_rec_bound(s@.skip(start as int), 5);
            }
            if v < 0x1_0000_0000u64 {
                Ok((v as u32, c))
            } else {
                Err(FrameError::VarIntOverflow)
            }
        },
        Err(e) => Err(e),
    }
}

/// How long an encoding is, by the size of the value.
pub proof fn lemma_varint_enc_len(n: nat)
    ensures
        varint_enc(n).len() >= 1,
        n < 0x80 ==> varint_enc(n).len() == 1,
        n < 0x4000 ==> varint_enc(n).len() <= 2,
        n < 0x200000 ==> varint_enc(n).len() <= 3,
        n < 0x10000000 ==> varint_enc(n).len() <= 4,
        n < 0x800000000 ==> varint_enc(n).len() <= 5,
    decreases n,
{
    if n >= 128 {
        lemma_varint_enc_len(n / 128);
    }
}

proof fn lemma_varint_enc_dec(n: nat, rest: Seq<u8>, fuel: nat)
    requires
        varint_enc(n).len() <= fuel,
    ensures
        varint_dec_rec(varint_enc(n) + rest, fuel) == Ok::<(nat, nat), FrameError>((
            n,
            varint_enc(n).len() as nat,
        )),
    decreases n,
{
    let s = varint_enc(n) + rest;
    if n < 128 {
        assert(s[0] == n as u8);
        assert(s.len() >= 1);
    } else {
        assert(s[0] == (n % 128 + 128) as u8);
        assert(s.skip(1) =~= varint_enc(n / 128) + rest);
        lemma_varint_enc_dec(n / 128, rest, (fuel - 1) as nat);
        vstd::arithmetic::div_mod::lemma_fundamental_div_mod(n as int, 128);
    }
}

/// VarInt round trip: decoding the encoding of any 32-bit value, with any
/// bytes following it, yields the value back and consumes exactly the
/// encoded bytes.
pub proof fn lemma_varint_round_trip(n: u32, rest: Seq<u8>)
    ensures
        varint_dec(varint_enc(n as nat) + rest) == Ok::<(nat, nat), FrameError>((
            n as nat,
            varint_enc(n as nat).len() as nat,
        )),
{
    lemma_varint_enc_len(n as nat);
    lemma_varint_enc_dec(n as nat, rest, 5);
}

} // verus!
