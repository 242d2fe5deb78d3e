use vstd::prelude::*;

use crate::condition::Condition;
use crate::condition::cond_matches;
use crate::condition::opt_bytes_view;
use crate::digest::sha1_hex;
use crate::digest::sha1_hex_of;
use crate::hexfmt::dec_bytes_of;
use crate::hexfmt::dec_value_of;
use crate::hexfmt::hex_bytes_of;
use crate::hexfmt::lemma_dec_bytes_are_digits;
use crate::hexfmt::lemma_dec_round_trip;
use crate::hexfmt::u64_to_hex_bytes;
use crate::hexfmt::usize_to_dec_bytes;
use crate::sanitize::sanitize_spec;
use crate::sanitize::sanitize_committer_name;
use crate::sanitize::sanitize_raw_header;
use crate::subseq::push_all;
use crate::subseq::push_sub;
use crate::subseq::replace_all;
use crate::subseq::rfind;
use crate::subseq::rfind_bytes;

verus! {

/// The trial committer identity for a nonce: the nonce's lowercase hex
/// rendering, an underscore, then the sanitized committer name.
pub open spec fn trial_identity_spec(nonce: u64, name: Seq<u8>) -> Seq<u8> {
    hex_bytes_of(nonce as nat) + seq![95u8] + name
}

/// The object-store tag that opens a framed commit: the bytes of `"commit "`.
pub open spec fn commit_tag() -> Seq<u8> {
    seq![99u8, 111u8, 109u8, 109u8, 105u8, 116u8, 32u8]
}

/// The object-store framing of a commit object body: the tag, the body's
/// decimal byte count, one null byte, then the body.
pub open spec fn framed_commit(body: Seq<u8>) -> Seq<u8> {
    commit_tag() + dec_bytes_of(body.len()) + seq![0u8] + body
}

/// The header rebuilt for a trial: the text before the anchor, the trial
/// identity, the text after the anchor, and a closing newline.
pub open spec fn rebuilt_header(header: Seq<u8>, name: Seq<u8>, nonce: u64, pos: int) -> Seq<u8> {
    header.subrange(0, pos) + trial_identity_spec(nonce, name) + header.skip(pos + name.len())
        + seq![10u8]
}

/// The exact byte string hashed for one trial, when the anchor is found at
/// the rightmost position `pos`.
pub open spec fn encoding_at(
    header: Seq<u8>,
    message: Seq<u8>,
    name: Seq<u8>,
    nonce: u64,
    pos: int,
) -> Seq<u8> {
    framed_commit(rebuilt_header(header, name, nonce, pos) + message)
}

/// The exact byte string hashed for one trial, or nothing when the committer
/// name does not occur in the header.
pub open spec fn encoding_of(header: Seq<u8>, message: Seq<u8>, name: Seq<u8>, nonce: u64) -> Option<
    Seq<u8>,
> {
    match rfind(header, name) {
        Some(pos) => Some(encoding_at(header, message, name, nonce, pos)),
        None => None,
    }
}

/// Build the trial identity `hex(nonce) + "_" + committer_name`.
pub fn build_trial_identity(nonce: u64, committer_name: &Vec<u8>) -> (r: Vec<u8>)
    ensures
        r@ == trial_identity_spec(nonce, committer_name@),
{
    let mut out = u64_to_hex_bytes(nonce);
    let ghost hex_part = out@;
    out.push(95);
    push_all(&mut out, committer_name);
    proof {
        assert(hex_part.push(95u8) =~= hex_bytes_of(nonce as nat) + seq![95u8]);
        assert((hex_bytes_of(nonce as nat) + seq![95u8]) + committer_name@ =~= trial_identity_spec(
            nonce,
            committer_name@,
        ));
    }
    out
}

/// The deterministic commit encoder: locate the rightmost occurrence of the
/// committer name in the raw header, splice the trial identity in its place,
/// close the header with a newline, append the message, and prepend the
/// object-store framing. Returns nothing when the anchor is not found.
pub fn encode_commit(
    raw_header: &Vec<u8>,
    raw_message: &Vec<u8>,
    committer_name: &Vec<u8>,
    nonce: u64,
) -> (r: Option<Vec<u8>>)
    ensures
        (r is Some) == (encoding_of(raw_header@, raw_message@, committer_name@, nonce) is Some),
        r matches Some(v) ==> encoding_of(raw_header@, raw_message@, committer_name@, nonce)
            == Some(v@),
{
    let pos = match rfind_bytes(raw_header, committer_name) {
        Some(p) => p,
        None => {
            return None;
        },
    };
    // The commit object body: rebuilt header, then the raw message.
    let mut body: Vec<u8> = Vec::new();
    push_sub(&mut body, raw_header, 0, pos);
    let identity = build_trial_identity(nonce, committer_name);
    push_all(&mut body, &identity);
    let header_len: usize = raw_header.len();
    push_sub(&mut body, raw_header, pos + committer_name.len(), header_len);
    body.push(10);
    let ghost rebuilt = body@;
    push_all(&mut body, raw_message);
    proof {
        assert(raw_header@.subrange(
            pos + committer_name@.len() as int,
            raw_header@.len() as int,
        ) =~= raw_header@.skip(pos + committer_name@.len()));
        assert(rebuilt =~= rebuilt_header(raw_header@, committer_name@, nonce, pos as int));
        assert(body@ =~= rebuilt_header(raw_header@, committer_name@, nonce, pos as int)
            + raw_message@);
    }
    // The object-store framing around the body.
    let mut out: Vec<u8> = Vec::new();
    out.push(99);
    out.push(111);
    out.push(109);
    out.push(109);
    out.push(105);
    out.push(116);
    out.push(32);
    proof {
        assert(out@ =~= commit_tag());
    }
    let count = usize_to_dec_bytes(body.len());
    push_all(&mut out, &count);
    out.push(0);
    push_all(&mut out, &body);
    proof {
        assert(out@ =~= framed_commit(body@));
    }
    Some(out)
}

/// One trial of the match predicate: encode the commit for this nonce, hash
/// it, and test the hex digest against the condition. An absent anchor is a
/// non-match, never an error.
pub open spec fn check_spec(
    header: Seq<u8>,
    message: Seq<u8>,
    name: Seq<u8>,
    prefix: Option<Seq<u8>>,
    substring: Option<Seq<u8>>,
    nonce: u64,
) -> bool {
    match encoding_of(header, message, name, nonce) {
        Some(encoded) => cond_matches(prefix, substring, sha1_hex_of(encoded)),
        None => false,
    }
}

/// Run one nonce trial: true exactly when the encoded commit's SHA-1 hex
/// digest satisfies the condition.
pub fn check_commit_with_nonce(
    raw_header: &Vec<u8>,
    raw_message: &Vec<u8>,
    committer_name: &Vec<u8>,
    nonce: u64,
    cond: &Condition,
) -> (r: bool)
    ensures
        r == check_spec(
            raw_header@,
            raw_message@,
            committer_name@,
            opt_bytes_view(cond.prefix),
            opt_bytes_view(cond.substring),
            nonce,
        ),
{
    match encode_commit(raw_header, raw_message, committer_name, nonce) {
        Some(encoded) => {
            let digest_hex = sha1_hex(&encoded);
            cond.matches_digest(&digest_hex)
        },
        None => false,
    }
}

/// The immutable search template: the sanitized raw header and committer
/// identity, the raw message, and the committer fields that the surrounding
/// program needs to persist the amended commit.
pub struct CommitTemplate {
    pub raw_header: Vec<u8>,
    pub raw_message: Vec<u8>,
    pub committer_identity: Vec<u8>,
    pub committer_email: Vec<u8>,
    pub committer_time_secs: i64,
    pub committer_tz_minutes: i32,
}

impl CommitTemplate {
    /// Build the template from a commit's raw fields, sanitizing the committer
    /// name and the header so that a tag left by a previous run does not
    /// compound.
    pub fn new(
        raw_header: &Vec<u8>,
        raw_message: &Vec<u8>,
        committer_name_raw: &Vec<u8>,
        committer_email: &Vec<u8>,
        committer_time_secs: i64,
        committer_tz_minutes: i32,
    ) -> (r: CommitTemplate)
        ensures
            r.committer_identity@ == sanitize_spec(committer_name_raw@),
            r.raw_header@ == replace_all(
                raw_header@,
                committer_name_raw@,
                sanitize_spec(committer_name_raw@),
            ),
            r.raw_message@ == raw_message@,
            r.committer_email@ == committer_email@,
            r.committer_time_secs == committer_time_secs,
            r.committer_tz_minutes == committer_tz_minutes,
    {
        let committer_identity = sanitize_committer_name(committer_name_raw);
        let header = sanitize_raw_header(raw_header, committer_name_raw, &committer_identity);
        CommitTemplate {
            raw_header: header,
            raw_message: raw_message.clone(),
            committer_identity,
            committer_email: committer_email.clone(),
            committer_time_secs,
            committer_tz_minutes,
        }
    }

    /// One nonce trial against this template.
    pub fn check_nonce(&self, nonce: u64, cond: &Condition) -> (r: bool)
        ensures
            r == check_spec(
                self.raw_header@,
                self.raw_message@,
                self.committer_identity@,
                opt_bytes_view(cond.prefix),
                opt_bytes_view(cond.substring),
                nonce,
            ),
    {
        check_commit_with_nonce(
            &self.raw_header,
            &self.raw_message,
            &self.committer_identity,
            nonce,
            cond,
        )
    }
}

/// The framing round-trip: in `framed_commit(body)` the first null byte comes
/// right after the tag and the decimal count, the count reads back as exactly
/// `body.len()`, and everything after the null is the body.
pub proof fn lemma_framing_round_trip(body: Seq<u8>)
    ensures
        ({
            let f = framed_commit(body);
            let digits = dec_bytes_of(body.len());
            let null_at = 7 + digits.len() as int;
            &&& f.len() == null_at + 1 + body.len()
            &&& f[null_at] == 0
            &&& forall|j: int| 0 <= j < null_at ==> f[j] != 0
            &&& dec_value_of(f.subrange(7, null_at)) == body.len()
            &&& f.skip(null_at + 1) == body
        }),
{
    let f = framed_commit(body);
    let digits = dec_bytes_of(body.len());
    let null_at = 7 + digits.len() as int;
    lemma_dec_bytes_are_digits(body.len());
    lemma_dec_round_trip(body.len());
    assert(f.subrange(7, null_at) =~= digits);
    assert(f.skip(null_at + 1) =~= body);
    assert(forall|j: int| 0 <= j < 7 ==> f[j] == commit_tag()[j]);
    assert(forall|j: int| 7 <= j < null_at ==> f[j] == digits[j - 7]);
}

} // verus!
