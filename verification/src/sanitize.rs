use vstd::prelude::*;

use crate::hexfmt::is_hex_byte;
use crate::subseq::replace_all;
use crate::subseq::replace_all_bytes;

verus! {

/// Length of the maximal leading run of hex-digit bytes of `s`.
pub open spec fn hex_run_len(s: Seq<u8>) -> nat
    decreases s.len(),
{
    if s.len() == 0 || !is_hex_byte(s[0]) {
        0
    } else {
        1 + hex_run_len(s.skip(1))
    }
}

/// `s` begins with a nonce tag: one or more hex digits followed by `'_'`.
pub open spec fn has_lead_tag(s: Seq<u8>) -> bool {
    1 <= hex_run_len(s) && hex_run_len(s) < s.len() && s[hex_run_len(s) as int] == 95
}

/// `s` with a leading nonce tag stripped, if it has one.
pub open spec fn sanitize_spec(s: Seq<u8>) -> Seq<u8> {
    if has_lead_tag(s) {
        s.skip(hex_run_len(s) + 1 as int)
    } else {
        s
    }
}

/// `hex_run_len` is the unique cut: all hex digits before it, none at it.
proof fn lemma_hex_run_len_char(s: Seq<u8>, k: nat)
    requires
        k <= s.len(),
        forall|j: int| 0 <= j < k ==> is_hex_byte(#[trigger] s[j]),
        k == s.len() || !is_hex_byte(s[k as int]),
    ensures
        hex_run_len(s) == k,
    decreases k,
{
    if k == 0 {
    } else {
        assert(is_hex_byte(s[0]));
        assert(forall|j: int| 0 <= j < k - 1 ==> is_hex_byte(#[trigger] s.skip(1)[j]));
        lemma_hex_run_len_char(s.skip(1), (k - 1) as nat);
    }
}

/// Strip a leading nonce tag (`<hex digits>_`) left by a previous run, so that
/// tags do not compound across runs.
pub fn sanitize_committer_name(committer_name: &Vec<u8>) -> (r: Vec<u8>)
    ensures
        r@ == sanitize_spec(committer_name@),
{
    let n: usize = committer_name.len();
    let mut k: usize = 0;
    loop
        invariant
            committer_name@.len() == n,
            0 <= k <= n,
            forall|j: int| 0 <= j < k ==> is_hex_byte(#[trigger] committer_name@[j]),
        ensures
            0 <= k <= n,
            forall|j: int| 0 <= j < k ==> is_hex_byte(#[trigger] committer_name@[j]),
            k == n || !is_hex_byte(committer_name@[k as int]),
        decreases n - k,
    {
        if k == n {
            break;
        }
        let b = committer_name[k];
        if !((48 <= b && b <= 57) || (97 <= b && b <= 102) || (65 <= b && b <= 70)) {
            break;
        }
        k = k + 1;
    }
    proof {
        lemma_hex_run_len_char(committer_name@, k as nat);
    }
    if 1 <= k && k < n && committer_name[k] == 95 {
        let mut out: Vec<u8> = Vec::new();
        let mut i: usize = k + 1;
        while i < n
            invariant
                committer_name@.len() == n,
                k + 1 <= i <= n,
                out@ == committer_name@.subrange(k + 1, i as int),
            decreases n - i,
        {
            out.push(committer_name[i]);
            proof {
                assert(committer_name@.subrange(k + 1, i as int) + seq![committer_name@[i as int]]
                    =~= committer_name@.subrange(k + 1, i + 1));
            }
            i = i + 1;
        }
        proof {
            assert(committer_name@.subrange(k + 1, n as int) =~= committer_name@.skip(k + 1));
        }
        out
    } else {
        committer_name.clone()
    }
}

/// A name whose sanitized form does not itself begin with a nonce tag is left
/// unchanged by a second sanitation: on such names sanitation is idempotent.
pub proof fn lemma_sanitize_idempotent(s: Seq<u8>)
    requires
        !has_lead_tag(sanitize_spec(s)),
    ensures
        sanitize_spec(sanitize_spec(s)) == sanitize_spec(s),
{
}

/// Sanitation strips nothing from a name that carries no nonce tag.
pub proof fn lemma_sanitize_untagged(s: Seq<u8>)
    requires
        !has_lead_tag(s),
    ensures
        sanitize_spec(s) == s,
{
}

/// Replace the unsanitized committer name with the sanitized one everywhere in
/// the raw header, so that the encoder's anchor search finds the sanitized name.
pub fn sanitize_raw_header(raw_header: &Vec<u8>, committer_name_raw: &Vec<u8>, committer_name: &Vec<u8>) -> (r: Vec<u8>)
    ensures
        r@ == replace_all(raw_header@, committer_name_raw@, committer_name@),
{
    replace_all_bytes(raw_header, committer_name_raw, committer_name)
}

} // verus!
