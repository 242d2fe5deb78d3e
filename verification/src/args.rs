use vstd::prelude::*;

use crate::hexfmt::is_hex_byte;
use crate::hexfmt::is_hex_seq;

verus! {

/// The first position `>= i` whose argument equals the flag, scanning up.
pub open spec fn find_flag_from(args: Seq<String>, flag: Seq<char>, i: int) -> Option<int>
    decreases args.len() - i,
{
    if i < 0 || i >= args.len() {
        None
    } else if args[i]@ == flag {
        Some(i)
    } else {
        find_flag_from(args, flag, i + 1)
    }
}

/// The first position whose argument equals the flag.
pub open spec fn find_flag(args: Seq<String>, flag: Seq<char>) -> Option<int> {
    find_flag_from(args, flag, 0)
}

/// The value that follows the first occurrence of `flag` in `args`, if both
/// the flag and a following argument are there.
pub fn get_argument_value(args: &Vec<String>, flag: &String) -> (r: Option<String>)
    ensures
        r matches Some(v) ==> {
            &&& find_flag(args@, flag@) matches Some(i)
            &&& i + 1 < args@.len()
            &&& v@ == args@[i + 1]@
        },
        r is None ==> (find_flag(args@, flag@) is None || (find_flag(args@, flag@) matches Some(i)
            && i + 1 >= args@.len())),
{
    let n: usize = args.len();
    let mut i: usize = 0;
    while i < n
        invariant
            args@.len() == n,
            0 <= i <= n,
            find_flag(args@, flag@) == find_flag_from(args@, flag@, i as int),
        decreases n - i,
    {
        if args[i].eq(flag) {
            if i + 1 < n {
                return Some(args[i + 1].clone());
            } else {
                return None;
            }
        }
        i = i + 1;
    }
    None
}

/// The value of one hex-digit byte.
pub open spec fn hex_digit_val(b: u8) -> nat {
    if 48 <= b <= 57 {
        (b - 48) as nat
    } else if 97 <= b <= 102 {
        (b - 87) as nat
    } else {
        (b - 55) as nat
    }
}

/// The number a sequence of hex-digit bytes denotes.
pub open spec fn hex_value_of(s: Seq<u8>) -> nat
    decreases s.len(),
{
    if s.len() == 0 {
        0
    } else {
        hex_value_of(s.drop_last()) * 16 + hex_digit_val(s.last())
    }
}

/// A prefix never denotes more than the whole string.
proof fn lemma_hex_value_prefix(s: Seq<u8>, k: int)
    requires
        0 <= k <= s.len(),
    ensures
        hex_value_of(s.take(k)) <= hex_value_of(s),
    decreases s.len(),
{
    if k < s.len() {
        assert(s.drop_last().take(k) =~= s.take(k));
        lemma_hex_value_prefix(s.drop_last(), k);
        assert(hex_value_of(s.drop_last()) * 16 >= hex_value_of(s.drop_last())) by (nonlinear_arith);
    } else {
        assert(s.take(k) =~= s);
    }
}

/// Parse a hexadecimal starting nonce. Fails exactly on an empty string, a
/// non-hex character, or a value that does not fit in 64 bits.
pub fn parse_hex_u64(s: &Vec<u8>) -> (r: Option<u64>)
    ensures
        r matches Some(n) ==> s@.len() > 0 && is_hex_seq(s@) && hex_value_of(s@) == n,
        r is None ==> s@.len() == 0 || !is_hex_seq(s@) || hex_value_of(s@) > u64::MAX,
{
    let n: usize = s.len();
    if n == 0 {
        return None;
    }
    let mut acc: u64 = 0;
    let mut i: usize = 0;
    proof {
        assert(s@.take(0) =~= Seq::<u8>::empty());
    }
    while i < n
        invariant
            s@.len() == n,
            0 <= i <= n,
            forall|j: int| 0 <= j < i ==> is_hex_byte(#[trigger] s@[j]),
            acc == hex_value_of(s@.take(i as int)),
        decreases n - i,
    {
        let b = s[i];
        let d: u64;
        if 48 <= b && b <= 57 {
            d = (b - 48) as u64;
        } else if 97 <= b && b <= 102 {
            d = (b - 87) as u64;
        } else if 65 <= b && b <= 70 {
            d = (b - 55) as u64;
        } else {
            return None;
        }
        if acc > u64::MAX / 16 {
            proof {
                let pre = s@.take(i + 1);
                assert(pre.drop_last() =~= s@.take(i as int));
                assert(pre.last() == s@[i as int]);
                assert(hex_value_of(pre) == acc * 16 + hex_digit_val(s@[i as int]));
                assert(acc * 16 > u64::MAX) by (nonlinear_arith)
                    requires
                        acc > u64::MAX / 16,
                ;
                lemma_hex_value_prefix(s@, i + 1);
            }
            return None;
        }
        proof {
            let pre = s@.take(i + 1);
            assert(pre.drop_last() =~= s@.take(i as int));
            assert(pre.last() == s@[i as int]);
            assert(acc * 16 + hex_digit_val(s@[i as int]) <= u64::MAX) by (nonlinear_arith)
                requires
                    acc <= u64::MAX / 16,
                    hex_digit_val(s@[i as int]) < 16,
            ;
        }
        acc = acc * 16 + d;
        i = i + 1;
    }
    proof {
        assert(s@.take(n as int) =~= s@);
    }
    Some(acc)
}

} // verus!
