use vstd::prelude::*;

use sha1::Digest;
use crate::hexfmt::hex_digit_byte;

verus! {

/// The 20-byte SHA-1 digest of a byte string. SHA-1 is what the underlying
/// object store content-addresses commits with; its value is a function of the
/// input bytes alone, far too long to state here, so it only gets this name.
pub uninterp spec fn sha1_of(bytes: Seq<u8>) -> Seq<u8>;

/// Relies on sha1::Sha1 through digest::Digest::digest: the SHA-1 digest is
/// 20 bytes and depends on the input bytes alone.
#[verifier::external_body]
fn sha1_digest(bytes: &Vec<u8>) -> (r: Vec<u8>)
    ensures
        r@ == sha1_of(bytes@),
        r@.len() == 20,
{
    sha1::Sha1::digest(bytes.as_slice()).to_vec()
}

/// Lowercase hex rendering of a byte string, two digits per byte.
pub open spec fn bytes_hex_of(d: Seq<u8>) -> Seq<u8>
    decreases d.len(),
{
    if d.len() == 0 {
        Seq::empty()
    } else {
        seq![
            hex_digit_byte((d[0] / 16) as nat),
            hex_digit_byte((d[0] % 16) as nat),
        ] + bytes_hex_of(d.skip(1))
    }
}

/// The lowercase hex rendering of the SHA-1 digest of `bytes`: what the match
/// predicate inspects.
pub open spec fn sha1_hex_of(bytes: Seq<u8>) -> Seq<u8> {
    bytes_hex_of(sha1_of(bytes))
}

/// Render a byte string as lowercase hex, two digits per byte.
pub fn bytes_to_hex(d: &Vec<u8>) -> (r: Vec<u8>)
    ensures
        r@ == bytes_hex_of(d@),
        r@.len() == 2 * d@.len(),
{
    proof {
        lemma_bytes_hex_len(d@);
    }
    let mut out: Vec<u8> = Vec::new();
    let mut i: usize = 0;
    proof {
        assert(d@.skip(0) =~= d@);
        assert(out@ + bytes_hex_of(d@) =~= bytes_hex_of(d@));
    }
    while i < d.len()
        invariant
            0 <= i <= d@.len(),
            bytes_hex_of(d@) == out@ + bytes_hex_of(d@.skip(i as int)),
        decreases d@.len() - i,
    {
        let b = d[i];
        let hi = b / 16;
        let lo = b % 16;
        let ghost prev = out@;
        let ghost digits = seq![hex_digit_byte((b / 16) as nat), hex_digit_byte((b % 16) as nat)];
        proof {
            let rest = d@.skip(i as int);
            assert(rest[0] == d@[i as int]);
            assert(rest.skip(1) =~= d@.skip(i + 1));
            assert(bytes_hex_of(rest) == digits + bytes_hex_of(d@.skip(i + 1)));
        }
        if hi < 10 {
            out.push(48 + hi);
        } else {
            out.push(87 + hi);
        }
        if lo < 10 {
            out.push(48 + lo);
        } else {
            out.push(87 + lo);
        }
        proof {
            assert(out@ =~= prev + digits);
            assert(prev + (digits + bytes_hex_of(d@.skip(i + 1))) =~= (prev + digits)
                + bytes_hex_of(d@.skip(i + 1)));
        }
        i = i + 1;
    }
    proof {
        assert(d@.skip(d@.len() as int) =~= Seq::<u8>::empty());
        assert(out@ + bytes_hex_of(Seq::<u8>::empty()) =~= out@);
    }
    out
}

/// A hex rendering has two digits per byte.
pub proof fn lemma_bytes_hex_len(d: Seq<u8>)
    ensures
        bytes_hex_of(d).len() == 2 * d.len(),
    decreases d.len(),
{
    if d.len() > 0 {
        lemma_bytes_hex_len(d.skip(1));
    }
}

/// The lowercase hex rendering of the SHA-1 digest of `bytes`, computed.
pub fn sha1_hex(bytes: &Vec<u8>) -> (r: Vec<u8>)
    ensures
        r@ == sha1_hex_of(bytes@),
        r@.len() == 40,
{
    let d = sha1_digest(bytes);
    bytes_to_hex(&d)
}

} // verus!
