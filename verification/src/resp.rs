//! The wire encodings that every reply is built from: bulk strings,
//! the null bulk string, and the decimal length prefixes inside them.
use vstd::prelude::*;

verus! {

/// Carriage return, the first byte of the protocol's line delimiter.
pub const CR: u8 = 13;

/// Line feed, the second byte of the protocol's line delimiter.
pub const LF: u8 = 10;

/// The two-byte line delimiter that terminates every protocol element.
pub open spec fn spec_crlf() -> Seq<u8> {
    seq![CR, LF]
}

/// The decimal digits of `n`, most significant first, as ASCII bytes.
pub open spec fn spec_dec_digits(n: nat) -> Seq<u8>
    decreases n,
{
    if n < 10 {
        seq![(('0' as u8) + n) as u8]
    } else {
        spec_dec_digits(n / 10).push((('0' as u8) + n % 10) as u8)
    }
}

/// Writes `n` in decimal, most significant digit first.
pub fn dec_digits(n: usize) -> (r: Vec<u8>)
    ensures
        r@ == spec_dec_digits(n as nat),
{
    let mut out: Vec<u8> = Vec::new();
    let mut m: usize = n;
    let d: u8 = (m % 10) as u8 + ('0' as u8);
    out.insert(0, d);
    m = m / 10;
    proof {
        if m > 0 {
            assert(spec_dec_digits(n as nat) =~= spec_dec_digits(m as nat) + out@);
        } else {
            assert(out@ =~= spec_dec_digits(n as nat));
        }
    }
    while m > 0
        invariant
            m > 0 ==> spec_dec_digits(n as nat) == spec_dec_digits(m as nat) + out@,
            m == 0 ==> out@ == spec_dec_digits(n as nat),
        decreases m,
    {
        let d: u8 = (m % 10) as u8 + ('0' as u8);
        out.insert(0, d);
        let ghost prev = m as nat;
        m = m / 10;
        proof {
            if m > 0 {
                assert(spec_dec_digits(prev) =~= spec_dec_digits(m as nat).push(d));
                assert(spec_dec_digits(n as nat) =~= spec_dec_digits(m as nat) + out@);
            } else {
                assert(spec_dec_digits(prev) =~= seq![d]);
                assert(out@ =~= spec_dec_digits(n as nat));
            }
        }
    }
    out
}

/// The bulk string encoding `$<byte length>\r\n<payload>\r\n`.
pub open spec fn spec_bulk_string(payload: Seq<u8>) -> Seq<u8> {
    seq![('$' as u8)] + spec_dec_digits(payload.len()) + spec_crlf() + payload + spec_crlf()
}

/// The null bulk string `$-1\r\n`: the encoding of "no value".
pub open spec fn spec_null_bulk() -> Seq<u8> {
    seq![('$' as u8), ('-' as u8), ('1' as u8), CR, LF]
}

/// Appends every byte of `src` to `out`.
pub fn push_bytes(out: &mut Vec<u8>, src: &[u8])
    ensures
        final(out)@ == old(out)@ + src@,
{
    let mut i: usize = 0;
    while i < src.len()
        invariant
            i <= src@.len(),
            out@ == old(out)@ + src@.take(i as int),
        decreases src@.len() - i,
    {
        out.push(src[i]);
        i = i + 1;
        proof {
            assert(old(out)@ + src@.take(i as int) =~= (old(out)@ + src@.take(i - 1)).push(
                src@[i - 1],
            ));
        }
    }
    proof {
        assert(old(out)@ + src@.take(src@.len() as int) =~= old(out)@ + src@);
    }
}

/// Encodes a payload as a bulk string, its byte length included.
pub fn convert_to_bulk_string(input: Vec<u8>) -> (r: Vec<u8>)
    ensures
        r@ == spec_bulk_string(input@),
{
    let mut out: Vec<u8> = Vec::new();
    out.push('$' as u8);
    let mut digits = dec_digits(input.len());
    out.append(&mut digits);
    out.push(CR);
    out.push(LF);
    push_bytes(&mut out, input.as_slice());
    out.push(CR);
    out.push(LF);
    proof {
        assert(out@ =~= spec_bulk_string(input@));
    }
    out
}

/// Builds the null bulk string reply, byte for byte.
pub fn null_bulk_string() -> (r: Vec<u8>)
    ensures
        r@ == spec_null_bulk(),
{
    let mut v: Vec<u8> = Vec::new();
    v.push('$' as u8);
    v.push('-' as u8);
    v.push('1' as u8);
    v.push(CR);
    v.push(LF);
    proof {
        assert(v@ =~= spec_null_bulk());
    }
    v
}

/// Compares two byte strings for equality.
pub fn bytes_eq(a: &[u8], b: &[u8]) -> (r: bool)
    ensures
        r == (a@ == b@),
{
    if a.len() != b.len() {
        return false;
    }
    let mut i: usize = 0;
    while i < a.len()
        invariant
            a@.len() == b@.len(),
            i <= a@.len(),
            forall|j: int| 0 <= j < i ==> a@[j] == b@[j],
        decreases a@.len() - i,
    {
        if a[i] != b[i] {
            return false;
        }
        i = i + 1;
    }
    proof {
        assert(a@ =~= b@);
    }
    true
}

} // verus!
