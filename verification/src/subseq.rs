use vstd::prelude::*;

verus! {

/// The needle `nd` occurs in `h` at position `i`.
pub open spec fn match_at(h: Seq<u8>, nd: Seq<u8>, i: int) -> bool {
    0 <= i && i + nd.len() <= h.len() && h.subrange(i, i + nd.len() as int) == nd
}

/// The rightmost occurrence of `nd` in `h` at a position `<= i`, scanning down.
pub open spec fn rfind_from(h: Seq<u8>, nd: Seq<u8>, i: int) -> Option<int>
    decreases i + 1,
{
    if i < 0 {
        None
    } else if match_at(h, nd, i) {
        Some(i)
    } else {
        rfind_from(h, nd, i - 1)
    }
}

/// The rightmost occurrence of `nd` in `h`; an empty needle is found at `h.len()`.
pub open spec fn rfind(h: Seq<u8>, nd: Seq<u8>) -> Option<int> {
    rfind_from(h, nd, h.len() - nd.len())
}

/// `p` is a prefix of `h`.
pub open spec fn seq_starts_with(h: Seq<u8>, p: Seq<u8>) -> bool {
    p.len() <= h.len() && h.subrange(0, p.len() as int) == p
}

/// `nd` occurs somewhere in `h`.
pub open spec fn seq_contains(h: Seq<u8>, nd: Seq<u8>) -> bool {
    exists|i: int| match_at(h, nd, i)
}

/// `s` with every occurrence of `from` replaced by `to`, leftmost first,
/// non-overlapping; an empty `from` leaves `s` unchanged.
pub open spec fn replace_all(s: Seq<u8>, from: Seq<u8>, to: Seq<u8>) -> Seq<u8>
    decreases s.len(),
{
    if from.len() == 0 || s.len() < from.len() {
        s
    } else if s.subrange(0, from.len() as int) == from {
        to + replace_all(s.skip(from.len() as int), from, to)
    } else {
        seq![s[0]] + replace_all(s.skip(1), from, to)
    }
}

/// Bytewise comparison of `nd` against `h` at position `i`.
pub fn bytes_eq_at(h: &Vec<u8>, nd: &Vec<u8>, i: usize) -> (r: bool)
    requires
        i + nd@.len() <= h@.len(),
    ensures
        r == match_at(h@, nd@, i as int),
{
    let hl: usize = h.len();
    let mut j: usize = 0;
    while j < nd.len()
        invariant
            i + nd@.len() <= h@.len(),
            h@.len() == hl,
            0 <= j <= nd@.len(),
            forall|k: int| 0 <= k < j ==> h@[i + k] == #[trigger] nd@[k],
        decreases nd@.len() - j,
    {
        if h[i + j] != nd[j] {
            proof {
                let s = h@.subrange(i as int, i + nd@.len() as int);
                assert(s[j as int] == h@[i + j]);
                assert(s != nd@) by {
                    if s == nd@ {
                        assert(s[j as int] == nd@[j as int]);
                    }
                }
            }
            return false;
        }
        j = j + 1;
    }
    proof {
        assert(h@.subrange(i as int, i + nd@.len() as int) =~= nd@);
    }
    true
}

/// Find the rightmost occurrence of `nd` in `h`, as the header anchor search
/// needs it; mirrors the downward scan of `rfind`.
pub fn rfind_bytes(h: &Vec<u8>, nd: &Vec<u8>) -> (r: Option<usize>)
    ensures
        r matches Some(i) ==> rfind(h@, nd@) == Some(i as int) && match_at(h@, nd@, i as int),
        r is None ==> rfind(h@, nd@) is None,
{
    if nd.len() > h.len() {
        return None;
    }
    let top: usize = h.len() - nd.len();
    let mut i: usize = top;
    loop
        invariant
            nd@.len() <= h@.len(),
            top == h@.len() - nd@.len(),
            0 <= i <= top,
            rfind(h@, nd@) == rfind_from(h@, nd@, i as int),
        decreases i,
    {
        if bytes_eq_at(h, nd, i) {
            return Some(i);
        }
        if i == 0 {
            proof {
                assert(rfind_from(h@, nd@, 0) == rfind_from(h@, nd@, -1));
                assert(rfind_from(h@, nd@, -1) is None);
            }
            return None;
        }
        i = i - 1;
    }
}

/// Whether the digest rendering begins with the required prefix.
pub fn starts_with_bytes(h: &Vec<u8>, p: &Vec<u8>) -> (r: bool)
    ensures
        r == seq_starts_with(h@, p@),
{
    if p.len() > h.len() {
        return false;
    }
    bytes_eq_at(h, p, 0)
}

/// Whether the needle occurs anywhere in the haystack.
pub fn contains_bytes(h: &Vec<u8>, nd: &Vec<u8>) -> (r: bool)
    ensures
        r == seq_contains(h@, nd@),
{
    if nd.len() > h.len() {
        proof {
            assert(forall|i: int| !match_at(h@, nd@, i));
        }
        return false;
    }
    let top: usize = h.len() - nd.len();
    let mut i: usize = 0;
    loop
        invariant
            nd@.len() <= h@.len(),
            top == h@.len() - nd@.len(),
            0 <= i <= top,
            forall|j: int| 0 <= j < i ==> !match_at(h@, nd@, j),
        decreases top - i,
    {
        if bytes_eq_at(h, nd, i) {
            return true;
        }
        if i == top {
            proof {
                assert(forall|j: int| j > top ==> !match_at(h@, nd@, j));
            }
            return false;
        }
        i = i + 1;
    }
}

/// Append all of `src` to `out`.
pub fn push_all(out: &mut Vec<u8>, src: &Vec<u8>)
    ensures
        final(out)@ == old(out)@ + src@,
{
    let mut j: usize = 0;
    while j < src.len()
        invariant
            0 <= j <= src@.len(),
            out@ == old(out)@ + src@.subrange(0, j as int),
        decreases src@.len() - j,
    {
        out.push(src[j]);
        proof {
            assert(old(out)@ + src@.subrange(0, j as int) + seq![src@[j as int]] =~= old(out)@
                + src@.subrange(0, j + 1));
        }
        j = j + 1;
    }
    proof {
        assert(src@.subrange(0, src@.len() as int) =~= src@);
    }
}

/// Append `src[from..to]` to `out`.
pub fn push_sub(out: &mut Vec<u8>, src: &Vec<u8>, from: usize, to: usize)
    requires
        from <= to <= src@.len(),
    ensures
        final(out)@ == old(out)@ + src@.subrange(from as int, to as int),
{
    let mut j: usize = from;
    while j < to
        invariant
            from <= j <= to <= src@.len(),
            out@ == old(out)@ + src@.subrange(from as int, j as int),
        decreases to - j,
    {
        out.push(src[j]);
        proof {
            assert(old(out)@ + src@.subrange(from as int, j as int) + seq![src@[j as int]]
                =~= old(out)@ + src@.subrange(from as int, j + 1));
        }
        j = j + 1;
    }
}

/// `s` with every occurrence of `from` replaced by `to`, as `replace_all`
/// describes it.
pub fn replace_all_bytes(s: &Vec<u8>, from: &Vec<u8>, to: &Vec<u8>) -> (r: Vec<u8>)
    ensures
        r@ == replace_all(s@, from@, to@),
{
    if from.len() == 0 {
        return s.clone();
    }
    let mut out: Vec<u8> = Vec::new();
    let mut i: usize = 0;
    proof {
        assert(s@.skip(0) =~= s@);
        assert(out@ + replace_all(s@, from@, to@) =~= replace_all(s@, from@, to@));
    }
    while i < s.len()
        invariant
            from@.len() > 0,
            0 <= i <= s@.len(),
            replace_all(s@, from@, to@) == out@ + replace_all(s@.skip(i as int), from@, to@),
        decreases s@.len() - i,
    {
        let ghost rest = s@.skip(i as int);
        if from.len() <= s.len() - i && bytes_eq_at(s, from, i) {
            proof {
                assert(rest.subrange(0, from@.len() as int) =~= s@.subrange(
                    i as int,
                    i + from@.len() as int,
                ));
                assert(rest.skip(from@.len() as int) =~= s@.skip(i + from@.len()));
                assert(replace_all(rest, from@, to@) == to@ + replace_all(
                    s@.skip(i + from@.len()),
                    from@,
                    to@,
                ));
            }
            push_all(&mut out, to);
            i = i + from.len();
        } else {
            proof {
                if i + from@.len() <= s@.len() {
                    assert(rest.subrange(0, from@.len() as int) =~= s@.subrange(
                        i as int,
                        i + from@.len() as int,
                    ));
                    assert(rest.subrange(0, from@.len() as int) != from@);
                    assert(rest.skip(1) =~= s@.skip(i + 1));
                    assert(replace_all(rest, from@, to@) == seq![s@[i as int]] + replace_all(
                        s@.skip(i + 1),
                        from@,
                        to@,
                    ));
                } else {
                    assert(rest.len() < from@.len());
                    assert(replace_all(rest, from@, to@) == rest);
                    assert(s@.skip(i + 1).len() < from@.len());
                    assert(replace_all(s@.skip(i + 1), from@, to@) == s@.skip(i + 1));
                    assert(rest =~= seq![s@[i as int]] + s@.skip(i + 1));
                }
            }
            out.push(s[i]);
            i = i + 1;
        }
    }
    proof {
        assert(s@.skip(s@.len() as int) =~= Seq::<u8>::empty());
    }
    out
}

} // verus!
