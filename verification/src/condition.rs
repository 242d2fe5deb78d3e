use vstd::prelude::*;

use crate::hexfmt::is_hex_seq;
use crate::hexfmt::is_valid_hex;
use crate::hexfmt::lower_hex_seq;
use crate::hexfmt::to_lower_hex;
use crate::subseq::seq_contains;
use crate::subseq::seq_starts_with;
use crate::subseq::starts_with_bytes;
use crate::subseq::contains_bytes;

verus! {

/// The matching target: a required hash prefix and/or a required substring of
/// the hash's hex rendering, at least one of the two present.
pub struct Condition {
    pub prefix: Option<Vec<u8>>,
    pub substring: Option<Vec<u8>>,
}

/// Why a matching target could not be built.
#[derive(Debug, PartialEq, Eq, Structural, Clone, Copy)]
pub enum ConfigError {
    /// Neither a prefix nor a substring requirement was supplied.
    NoRequirement,
    /// A supplied requirement is empty or holds a non-hex character.
    InvalidHex,
}

/// The view of an optional byte string.
pub open spec fn opt_bytes_view(o: Option<Vec<u8>>) -> Option<Seq<u8>> {
    match o {
        Some(v) => Some(v@),
        None => None,
    }
}

/// A requirement, when present, is non-empty and all hex digits.
pub open spec fn req_usable(o: Option<Vec<u8>>) -> bool {
    o matches Some(v) ==> v@.len() > 0 && is_hex_seq(v@)
}

/// The digest's hex rendering satisfies the condition: it starts with the
/// required prefix (when one is required) and holds the required substring
/// anywhere (when one is required).
pub open spec fn cond_matches(
    prefix: Option<Seq<u8>>,
    substring: Option<Seq<u8>>,
    digest_hex: Seq<u8>,
) -> bool {
    (match prefix {
        Some(p) => seq_starts_with(digest_hex, p),
        None => true,
    }) && (match substring {
        Some(m) => seq_contains(digest_hex, m),
        None => true,
    })
}

impl Condition {
    /// Both stored requirements are non-empty lowercase hex strings, and at
    /// least one is present.
    pub open spec fn wf(self) -> bool {
        (self.prefix is Some || self.substring is Some)
            && (self.prefix matches Some(p) ==> p@.len() > 0 && is_hex_seq(p@) && p@
            == lower_hex_seq(p@))
            && (self.substring matches Some(m) ==> m@.len() > 0 && is_hex_seq(m@) && m@
            == lower_hex_seq(m@))
    }

    /// Build a condition from the configured requirements. The hex letters are
    /// folded to lowercase here, so that matching against the lowercase digest
    /// rendering is case-insensitive in the supplied strings.
    pub fn new(prefix: Option<Vec<u8>>, substring: Option<Vec<u8>>) -> (r: Result<
        Condition,
        ConfigError,
    >)
        ensures
            (prefix is None && substring is None) <==> r == Err::<Condition, ConfigError>(
                ConfigError::NoRequirement,
            ),
            ((prefix is Some || substring is Some) && !(req_usable(prefix) && req_usable(
                substring,
            ))) <==> r == Err::<Condition, ConfigError>(ConfigError::InvalidHex),
            r matches Ok(c) ==> {
                &&& c.wf()
                &&& (c.prefix is Some) == (prefix is Some)
                &&& (c.substring is Some) == (substring is Some)
                &&& (prefix matches Some(p) ==> opt_bytes_view(c.prefix) == Some(
                    lower_hex_seq(p@),
                ))
                &&& (substring matches Some(m) ==> opt_bytes_view(c.substring) == Some(
                    lower_hex_seq(m@),
                ))
            },
    {
        if prefix.is_none() && substring.is_none() {
            return Err(ConfigError::NoRequirement);
        }
        let lowered_prefix: Option<Vec<u8>> = match &prefix {
            Some(p) => {
                if !is_valid_hex(p) {
                    return Err(ConfigError::InvalidHex);
                }
                proof {
                    lemma_lower_hex_keeps_hex(p@);
                }
                Some(to_lower_hex(p))
            },
            None => None,
        };
        let lowered_substring: Option<Vec<u8>> = match &substring {
            Some(m) => {
                if !is_valid_hex(m) {
                    return Err(ConfigError::InvalidHex);
                }
                proof {
                    lemma_lower_hex_keeps_hex(m@);
                }
                Some(to_lower_hex(m))
            },
            None => None,
        };
        Ok(Condition { prefix: lowered_prefix, substring: lowered_substring })
    }

    /// Does the given digest hex rendering satisfy this condition?
    pub fn matches_digest(&self, digest_hex: &Vec<u8>) -> (r: bool)
        ensures
            r == cond_matches(
                opt_bytes_view(self.prefix),
                opt_bytes_view(self.substring),
                digest_hex@,
            ),
    {
        let prefix_ok = match &self.prefix {
            Some(p) => starts_with_bytes(digest_hex, p),
            None => true,
        };
        let substring_ok = match &self.substring {
            Some(m) => contains_bytes(digest_hex, m),
            None => true,
        };
        prefix_ok && substring_ok
    }
}

/// Folding hex letters to lowercase keeps a hex string hex, lowercase, and of
/// the same length.
pub proof fn lemma_lower_hex_keeps_hex(s: Seq<u8>)
    requires
        is_hex_seq(s),
    ensures
        is_hex_seq(lower_hex_seq(s)),
        lower_hex_seq(s).len() == s.len(),
        lower_hex_seq(lower_hex_seq(s)) == lower_hex_seq(s),
{
    assert(lower_hex_seq(lower_hex_seq(s)) =~= lower_hex_seq(s));
}

} // verus!
