//! Character-level string utilities: equality, substring search and
//! placeholder substitution, each proved against a sequence-level model.

use vstd::prelude::*;

verus! {

/// Whether the characters of `a` equal those of `b`.
pub fn str_eq(a: &str, b: &str) -> (r: bool)
    ensures
        r == (a@ == b@),
{
    let alen = a.unicode_len();
    let blen = b.unicode_len();
    if alen != blen {
        assert(a@ != b@) by {
            assert(a@.len() != b@.len());
        }
        return false;
    }
    let mut i: usize = 0;
    while i < alen
        invariant
            alen == a@.len(),
            alen == b@.len(),
            i <= alen,
            forall|k: int| 0 <= k < i ==> a@[k] == b@[k],
        decreases alen - i,
    {
        if a.get_char(i) != b.get_char(i) {
            return false;
        }
        i += 1;
    }
    assert(a@ =~= b@);
    true
}

/// Whether `pat` occurs in `s` starting at position `i`.
pub open spec fn match_at(s: Seq<char>, pat: Seq<char>, i: int) -> bool {
    0 <= i && i + pat.len() <= s.len() && s.subrange(i, i + pat.len() as int) == pat
}

/// The first position at or after `from` where a non-empty `pat` occurs
/// in `s`.
pub open spec fn find_from(s: Seq<char>, pat: Seq<char>, from: int) -> Option<int>
    decreases s.len() - from when 0 <= from <= s.len()
{
    if pat.len() < 1 {
        Option::None
    } else if from + pat.len() > s.len() {
        Option::None
    } else if match_at(s, pat, from) {
        Option::Some(from)
    } else {
        find_from(s, pat, from + 1)
    }
}

/// `find_from` returns a match, and the first one.
pub proof fn lemma_find_from_correct(s: Seq<char>, pat: Seq<char>, from: int)
    requires
        0 <= from <= s.len(),
        pat.len() >= 1,
    ensures
        match find_from(s, pat, from) {
            Option::Some(i) => match_at(s, pat, i) && from <= i
                && forall|j: int| from <= j < i ==> !match_at(s, pat, j),
            Option::None => forall|j: int| j >= from ==> !match_at(s, pat, j),
        },
    decreases s.len() - from,
{
    if from + pat.len() > s.len() {
    } else if match_at(s, pat, from) {
    } else {
        lemma_find_from_correct(s, pat, from + 1);
    }
}

/// Whether `pat` occurs anywhere in `s`.
pub open spec fn contains_seq(s: Seq<char>, pat: Seq<char>) -> bool {
    exists|i: int| match_at(s, pat, i)
}

/// Finds the first occurrence of `pat` in `s` at or after position `from`,
/// or `None` if there is none.
pub fn find_str_from(s: &str, pat: &str, from: usize) -> (r: Option<usize>)
    requires
        from <= s@.len(),
        pat@.len() >= 1,
    ensures
        match r {
            Option::Some(i) => from <= i && i + pat@.len() <= s@.len()
                && find_from(s@, pat@, from as int) == Option::Some(i as int),
            Option::None => find_from(s@, pat@, from as int).is_none(),
        },
{
    let slen = s.unicode_len();
    let plen = pat.unicode_len();
    let mut i: usize = from;
    while slen - i >= plen
        invariant
            slen == s@.len(),
            plen == pat@.len(),
            plen >= 1,
            from <= i,
            i <= slen,
            find_from(s@, pat@, from as int) == find_from(s@, pat@, i as int),
        decreases slen - i,
    {
        let mut k: usize = 0;
        let mut all_match = true;
        while k < plen
            invariant
                slen == s@.len(),
                plen == pat@.len(),
                i + plen <= slen,
                k <= plen,
                all_match == (forall|m: int| 0 <= m < k ==> s@[i + m] == pat@[m]),
            decreases plen - k,
        {
            if s.get_char(i + k) != pat.get_char(k) {
                all_match = false;
                assert(!(forall|m: int| 0 <= m < k + 1 ==> s@[i + m] == pat@[m]));
                k = plen;
            } else {
                k += 1;
            }
        }
        if all_match {
            assert(s@.subrange(i as int, i + pat@.len() as int) =~= pat@);
            assert(match_at(s@, pat@, i as int));
            assert(find_from(s@, pat@, i as int) == Option::Some(i as int));
            return Option::Some(i);
        }
        assert(!match_at(s@, pat@, i as int)) by {
            if match_at(s@, pat@, i as int) {
                assert(forall|m: int| 0 <= m < pat@.len() ==>
                    #[trigger] s@.subrange(i as int, i + pat@.len() as int)[m] == s@[i + m]);
            }
        }
        assert(find_from(s@, pat@, i as int) == find_from(s@, pat@, i + 1));
        i += 1;
    }
    assert(find_from(s@, pat@, i as int).is_none());
    Option::None
}

/// Replaces every occurrence of `pat` in `s` by `to`, scanning left to
/// right without rescanning replaced text.
pub open spec fn replace_all(s: Seq<char>, pat: Seq<char>, to: Seq<char>) -> Seq<char>
    decreases s.len() when pat.len() >= 1
{
    if pat.len() < 1 {
        s
    } else if s.len() < pat.len() {
        s
    } else if match_at(s, pat, 0) {
        to + replace_all(s.skip(pat.len() as int), pat, to)
    } else {
        seq![s[0]] + replace_all(s.skip(1), pat, to)
    }
}

/// When nothing past position `i` remains to scan, the tail is unchanged.
proof fn lemma_replace_all_no_match(s: Seq<char>, pat: Seq<char>, to: Seq<char>)
    requires
        pat.len() >= 1,
        s.len() < pat.len(),
    ensures
        replace_all(s, pat, to) == s,
{
}

/// Unfolds `replace_all` by one matched occurrence at the front.
proof fn lemma_replace_all_match(s: Seq<char>, pat: Seq<char>, to: Seq<char>)
    requires
        pat.len() >= 1,
        match_at(s, pat, 0),
    ensures
        replace_all(s, pat, to) == to + replace_all(s.skip(pat.len() as int), pat, to),
{
}

/// Unfolds `replace_all` by one unmatched character at the front.
proof fn lemma_replace_all_step(s: Seq<char>, pat: Seq<char>, to: Seq<char>)
    requires
        pat.len() >= 1,
        s.len() >= pat.len(),
        !match_at(s, pat, 0),
    ensures
        replace_all(s, pat, to) == seq![s[0]] + replace_all(s.skip(1), pat, to),
{
}

/// Replaces every occurrence of `pat` in `s` by `to`.
pub fn replace_str(s: &str, pat: &str, to: &str) -> (r: String)
    requires
        pat@.len() >= 1,
    ensures
        r@ == replace_all(s@, pat@, to@),
{
    let slen = s.unicode_len();
    let plen = pat.unicode_len();
    let mut result = String::new();
    let mut i: usize = 0;
    proof {
        assert(s@.skip(0) =~= s@);
        assert(Seq::<char>::empty() + replace_all(s@, pat@, to@) =~= replace_all(s@, pat@, to@));
    }
    while i < slen
        invariant
            slen == s@.len(),
            plen == pat@.len(),
            plen >= 1,
            i <= slen,
            result@ + replace_all(s@.skip(i as int), pat@, to@) == replace_all(s@, pat@, to@),
        decreases slen - i,
    {
        let mut matched = slen - i >= plen;
        if matched {
            let mut k: usize = 0;
            while k < plen
                invariant
                    slen == s@.len(),
                    plen == pat@.len(),
                    i + plen <= slen,
                    k <= plen,
                    matched == (forall|m: int| 0 <= m < k ==> s@[i + m] == pat@[m]),
                decreases plen - k,
            {
                if s.get_char(i + k) != pat.get_char(k) {
                    matched = false;
                    assert(!(forall|m: int| 0 <= m < k + 1 ==> s@[i + m] == pat@[m]));
                    k = plen;
                } else {
                    k += 1;
                }
            }
        }
        let ghost tail = s@.skip(i as int);
        if matched {
            proof {
                assert(tail.len() >= pat@.len());
                assert(forall|m: int| 0 <= m < pat@.len() ==> tail[m] == s@[i + m]);
                assert(tail.subrange(0, pat@.len() as int) =~= pat@);
                assert(match_at(tail, pat@, 0));
                lemma_replace_all_match(tail, pat@, to@);
                assert(tail.skip(pat@.len() as int) =~= s@.skip(i + plen));
            }
            result.append(to);
            i += plen;
            proof {
                assert(result@ + replace_all(s@.skip(i as int), pat@, to@)
                    =~= replace_all(s@, pat@, to@));
            }
        } else {
            proof {
                if tail.len() >= pat@.len() {
                    assert(exists|m: int| 0 <= m < pat@.len() && s@[i + m] != pat@[m]);
                    let m = choose|m: int| 0 <= m < pat@.len() && s@[i + m] != pat@[m];
                    assert(tail.subrange(0, pat@.len() as int)[m] == tail[m]);
                    assert(tail[m] == s@[i + m]);
                    assert(!match_at(tail, pat@, 0));
                    lemma_replace_all_step(tail, pat@, to@);
                } else {
                    lemma_replace_all_no_match(tail, pat@, to@);
                    assert(tail.len() >= 1);
                    assert(tail =~= seq![tail[0]] + tail.skip(1));
                }
                assert(tail.skip(1) =~= s@.skip(i + 1));
                assert(seq![tail[0]] =~= s@.subrange(i as int, i + 1));
            }
            let piece = s.substring_char(i, i + 1);
            result.append(piece);
            i += 1;
            proof {
                assert(result@ + replace_all(s@.skip(i as int), pat@, to@)
                    =~= replace_all(s@, pat@, to@));
            }
        }
    }
    proof {
        assert(s@.skip(i as int) =~= Seq::<char>::empty());
        assert(replace_all(s@.skip(i as int), pat@, to@) =~= Seq::<char>::empty());
        assert(result@ + Seq::<char>::empty() =~= result@);
    }
    result
}

} // verus!
