//! Character-level string utilities, verified against `Seq<char>` views.
//!
//! Identifiers, storage locations and policy documents are all plain text, so
//! the search, substitution and classification logic below is the foundation
//! the other modules state their contracts with.
use vstd::prelude::*;
use vstd::string::StrSliceExecFns;
use vstd::string::StringExecFns;

verus! {

/// `p` is a prefix of `s`.
pub open spec fn spec_starts_with(s: Seq<char>, p: Seq<char>) -> bool {
    p.len() <= s.len() && s.subrange(0, p.len() as int) == p
}

/// `p` occurs in `s` starting at position `i`.
pub open spec fn spec_matches_at(s: Seq<char>, i: int, p: Seq<char>) -> bool {
    0 <= i && i + p.len() <= s.len() && s.subrange(i, i + p.len() as int) == p
}

/// `p` occurs somewhere in `s`.
pub open spec fn spec_contains(s: Seq<char>, p: Seq<char>) -> bool {
    exists|i: int| spec_matches_at(s, i, p)
}

pub fn str_eq(a: &str, b: &str) -> (r: bool)
    ensures
        r == (a@ == b@),
{
    let alen = a.unicode_len();
    let blen = b.unicode_len();
    if alen != blen {
        return false;
    }
    let mut i: usize = 0;
    while i < alen
        invariant
            alen == a@.len(),
            alen == b@.len(),
            i <= alen,
            forall|j: int| 0 <= j < i ==> a@[j] == b@[j],
        decreases alen - i,
    {
        if a.get_char(i) != b.get_char(i) {
            return false;
        }
        i = i + 1;
    }
    proof {
        assert(a@ =~= b@);
    }
    true
}

pub fn matches_at(s: &str, i: usize, p: &str) -> (r: bool)
    requires
        i <= s@.len(),
    ensures
        r == spec_matches_at(s@, i as int, p@),
{
    let slen = s.unicode_len();
    let plen = p.unicode_len();
    if plen > slen - i {
        return false;
    }
    let mut j: usize = 0;
    while j < plen
        invariant
            slen == s@.len(),
            plen == p@.len(),
            i + plen <= slen,
            j <= plen,
            forall|k: int| 0 <= k < j ==> s@[i + k] == p@[k],
        decreases plen - j,
    {
        if s.get_char(i + j) != p.get_char(j) {
            return false;
        }
        j = j + 1;
    }
    proof {
        assert(s@.subrange(i as int, i + p@.len() as int) =~= p@);
    }
    true
}

pub fn starts_with_str(s: &str, p: &str) -> (r: bool)
    ensures
        r == spec_starts_with(s@, p@),
{
    matches_at(s, 0, p)
}

pub fn contains_str(s: &str, p: &str) -> (r: bool)
    ensures
        r == spec_contains(s@, p@),
{
    let slen = s.unicode_len();
    let mut i: usize = 0;
    while i < slen
        invariant
            slen == s@.len(),
            i <= slen,
            forall|k: int| 0 <= k < i ==> !spec_matches_at(s@, k, p@),
        decreases slen - i,
    {
        if matches_at(s, i, p) {
            return true;
        }
        i = i + 1;
    }
    if matches_at(s, slen, p) {
        return true;
    }
    proof {
        assert(forall|k: int| spec_matches_at(s@, k, p@) ==> 0 <= k <= slen);
    }
    false
}

/// ASCII lower-casing of a single character; all other characters unchanged.
pub open spec fn lower_char(c: char) -> char {
    match c {
        'A' => 'a',
        'B' => 'b',
        'C' => 'c',
        'D' => 'd',
        'E' => 'e',
        'F' => 'f',
        'G' => 'g',
        'H' => 'h',
        'I' => 'i',
        'J' => 'j',
        'K' => 'k',
        'L' => 'l',
        'M' => 'm',
        'N' => 'n',
        'O' => 'o',
        'P' => 'p',
        'Q' => 'q',
        'R' => 'r',
        'S' => 's',
        'T' => 't',
        'U' => 'u',
        'V' => 'v',
        'W' => 'w',
        'X' => 'x',
        'Y' => 'y',
        'Z' => 'z',
        _ => c,
    }
}

pub open spec fn spec_to_lower(s: Seq<char>) -> Seq<char> {
    Seq::new(s.len(), |i: int| lower_char(s[i]))
}

pub fn to_lower_char(c: char) -> (r: char)
    ensures
        r == lower_char(c),
{
    match c {
        'A' => 'a',
        'B' => 'b',
        'C' => 'c',
        'D' => 'd',
        'E' => 'e',
        'F' => 'f',
        'G' => 'g',
        'H' => 'h',
        'I' => 'i',
        'J' => 'j',
        'K' => 'k',
        'L' => 'l',
        'M' => 'm',
        'N' => 'n',
        'O' => 'o',
        'P' => 'p',
        'Q' => 'q',
        'R' => 'r',
        'S' => 's',
        'T' => 't',
        'U' => 'u',
        'V' => 'v',
        'W' => 'w',
        'X' => 'x',
        'Y' => 'y',
        'Z' => 'z',
        _ => c,
    }
}

pub fn eq_ignore_ascii_case_str(a: &str, b: &str) -> (r: bool)
    ensures
        r == (spec_to_lower(a@) == spec_to_lower(b@)),
{
    let alen = a.unicode_len();
    let blen = b.unicode_len();
    if alen != blen {
        proof {
            assert(spec_to_lower(a@).len() != spec_to_lower(b@).len());
        }
        return false;
    }
    let mut i: usize = 0;
    while i < alen
        invariant
            alen == a@.len(),
            alen == b@.len(),
            i <= alen,
            forall|j: int| 0 <= j < i ==> lower_char(a@[j]) == lower_char(b@[j]),
        decreases alen - i,
    {
        if to_lower_char(a.get_char(i)) != to_lower_char(b.get_char(i)) {
            proof {
                assert(spec_to_lower(a@)[i as int] != spec_to_lower(b@)[i as int]);
            }
            return false;
        }
        i = i + 1;
    }
    proof {
        assert(spec_to_lower(a@) =~= spec_to_lower(b@));
    }
    true
}

pub fn matches_at_ignore_case(s: &str, i: usize, p: &str) -> (r: bool)
    requires
        i <= s@.len(),
    ensures
        r == spec_matches_at(spec_to_lower(s@), i as int, spec_to_lower(p@)),
{
    let slen = s.unicode_len();
    let plen = p.unicode_len();
    if plen > slen - i {
        return false;
    }
    let mut j: usize = 0;
    while j < plen
        invariant
            slen == s@.len(),
            plen == p@.len(),
            i + plen <= slen,
            j <= plen,
            forall|k: int| 0 <= k < j ==> lower_char(s@[i + k]) == lower_char(p@[k]),
        decreases plen - j,
    {
        if to_lower_char(s.get_char(i + j)) != to_lower_char(p.get_char(j)) {
            proof {
                assert(spec_to_lower(s@).subrange(i as int, i + p@.len() as int)[j as int]
                    != spec_to_lower(p@)[j as int]);
            }
            return false;
        }
        j = j + 1;
    }
    proof {
        assert(spec_to_lower(s@).subrange(i as int, i + p@.len() as int) =~= spec_to_lower(p@));
    }
    true
}

pub fn starts_with_ignore_case(s: &str, p: &str) -> (r: bool)
    ensures
        r == spec_starts_with(spec_to_lower(s@), spec_to_lower(p@)),
{
    matches_at_ignore_case(s, 0, p)
}

pub fn contains_ignore_case(s: &str, p: &str) -> (r: bool)
    ensures
        r == spec_contains(spec_to_lower(s@), spec_to_lower(p@)),
{
    let slen = s.unicode_len();
    let mut i: usize = 0;
    while i < slen
        invariant
            slen == s@.len(),
            i <= slen,
            forall|k: int| 0 <= k < i ==> !spec_matches_at(spec_to_lower(s@), k, spec_to_lower(p@)),
        decreases slen - i,
    {
        if matches_at_ignore_case(s, i, p) {
            return true;
        }
        i = i + 1;
    }
    if matches_at_ignore_case(s, slen, p) {
        return true;
    }
    proof {
        assert(forall|k: int|
            spec_matches_at(spec_to_lower(s@), k, spec_to_lower(p@)) ==> 0 <= k <= slen);
    }
    false
}

/// The four ASCII whitespace characters stripped from status text.
pub open spec fn is_space_char(c: char) -> bool {
    c == ' ' || c == '\t' || c == '\n' || c == '\r'
}

pub fn is_space(c: char) -> (r: bool)
    ensures
        r == is_space_char(c),
{
    c == ' ' || c == '\t' || c == '\n' || c == '\r'
}

pub open spec fn spec_trim_front(s: Seq<char>) -> Seq<char>
    decreases s.len(),
{
    if s.len() > 0 && is_space_char(s[0]) {
        spec_trim_front(s.drop_first())
    } else {
        s
    }
}

pub open spec fn spec_trim_back(s: Seq<char>) -> Seq<char>
    decreases s.len(),
{
    if s.len() > 0 && is_space_char(s[s.len() - 1]) {
        spec_trim_back(s.drop_last())
    } else {
        s
    }
}

/// `s` with leading and trailing ASCII whitespace removed.
pub open spec fn spec_trim(s: Seq<char>) -> Seq<char> {
    spec_trim_back(spec_trim_front(s))
}

pub fn trim_str<'a>(s: &'a str) -> (r: &'a str)
    ensures
        r@ == spec_trim(s@),
{
    let slen = s.unicode_len();
    let mut a: usize = 0;
    proof {
        assert(s@.skip(0) =~= s@);
    }
    while a < slen && is_space(s.get_char(a))
        invariant
            slen == s@.len(),
            a <= slen,
            spec_trim_front(s@) == spec_trim_front(s@.skip(a as int)),
        decreases slen - a,
    {
        proof {
            assert(s@.skip(a as int).drop_first() =~= s@.skip(a + 1));
        }
        a = a + 1;
    }
    proof {
        if a == slen {
            assert(s@.skip(a as int) =~= Seq::<char>::empty());
        }
        assert(spec_trim_front(s@.skip(a as int)) == s@.skip(a as int));
        assert(s@.skip(a as int) =~= s@.subrange(a as int, slen as int));
    }
    let mut b: usize = slen;
    while b > a && is_space(s.get_char(b - 1))
        invariant
            slen == s@.len(),
            a <= b <= slen,
            spec_trim_front(s@) == s@.subrange(a as int, slen as int),
            spec_trim_back(s@.subrange(a as int, slen as int))
                == spec_trim_back(s@.subrange(a as int, b as int)),
        decreases b,
    {
        proof {
            assert(s@.subrange(a as int, b as int).drop_last() =~= s@.subrange(a as int, b - 1));
        }
        b = b - 1;
    }
    proof {
        assert(spec_trim_back(s@.subrange(a as int, b as int)) == s@.subrange(a as int, b as int));
    }
    s.substring_char(a, b)
}

/// `p` is a suffix of `s`.
pub open spec fn spec_ends_with(s: Seq<char>, p: Seq<char>) -> bool {
    p.len() <= s.len() && s.subrange(s.len() - p.len(), s.len() as int) == p
}

pub fn ends_with_str(s: &str, p: &str) -> (r: bool)
    ensures
        r == spec_ends_with(s@, p@),
{
    let slen = s.unicode_len();
    let plen = p.unicode_len();
    if plen > slen {
        return false;
    }
    matches_at(s, slen - plen, p)
}

/// Index of the first occurrence of `p` in `s`; meaningful only when
/// `spec_contains(s, p)` holds.
pub open spec fn spec_find(s: Seq<char>, p: Seq<char>) -> int {
    choose|i: int|
        spec_matches_at(s, i, p) && (forall|k: int| 0 <= k < i ==> !spec_matches_at(s, k, p))
}

pub fn find_str(s: &str, p: &str) -> (r: Option<usize>)
    ensures
        match r {
            Some(i) => i == spec_find(s@, p@) && spec_matches_at(s@, i as int, p@) && forall|k:
                int|
                0 <= k < i ==> !spec_matches_at(s@, k, p@),
            None => !spec_contains(s@, p@),
        },
{
    let slen = s.unicode_len();
    let mut i: usize = 0;
    while i < slen
        invariant
            slen == s@.len(),
            i <= slen,
            forall|k: int| 0 <= k < i ==> !spec_matches_at(s@, k, p@),
        decreases slen - i,
    {
        if matches_at(s, i, p) {
            proof {
                lemma_find_unique(s@, p@, i as int);
            }
            return Some(i);
        }
        i = i + 1;
    }
    if matches_at(s, slen, p) {
        proof {
            lemma_find_unique(s@, p@, slen as int);
        }
        return Some(slen);
    }
    proof {
        assert(forall|k: int| spec_matches_at(s@, k, p@) ==> 0 <= k <= slen);
    }
    None
}

/// A position that matches and is preceded by no match is the one `spec_find`
/// denotes.
proof fn lemma_find_unique(s: Seq<char>, p: Seq<char>, i: int)
    requires
        spec_matches_at(s, i, p),
        forall|k: int| 0 <= k < i ==> !spec_matches_at(s, k, p),
    ensures
        spec_find(s, p) == i,
{
    let j = spec_find(s, p);
    assert(spec_matches_at(s, j, p) && (forall|k: int| 0 <= k < j ==> !spec_matches_at(s, k, p)))
        by {
        assert(spec_matches_at(s, i, p) && (forall|k: int|
            0 <= k < i ==> !spec_matches_at(s, k, p)));
    }
}

/// `s` with every non-overlapping occurrence of `from`, found left to right,
/// replaced by `to`.
pub open spec fn spec_replace(s: Seq<char>, from: Seq<char>, to: Seq<char>) -> Seq<char>
    decreases s.len(),
    when from.len() > 0
{
    if s.len() < from.len() {
        s
    } else if s.subrange(0, from.len() as int) == from {
        to + spec_replace(s.skip(from.len() as int), from, to)
    } else {
        seq![s[0]] + spec_replace(s.skip(1), from, to)
    }
}

pub fn replace_all(s: &str, from: &str, to: &str) -> (r: String)
    requires
        from@.len() > 0,
    ensures
        r@ == spec_replace(s@, from@, to@),
{
    let slen = s.unicode_len();
    let flen = from.unicode_len();
    let mut r = String::new();
    let mut i: usize = 0;
    proof {
        assert(s@.skip(0) =~= s@);
        assert(r@ + spec_replace(s@, from@, to@) =~= spec_replace(s@, from@, to@));
    }
    while i < slen
        invariant
            slen == s@.len(),
            flen == from@.len(),
            flen > 0,
            i <= slen,
            r@ + spec_replace(s@.skip(i as int), from@, to@) == spec_replace(s@, from@, to@),
        decreases slen - i,
    {
        if matches_at(s, i, from) {
            proof {
                assert(s@.skip(i as int).subrange(0, flen as int)
                    =~= s@.subrange(i as int, i + flen as int));
                assert(s@.skip(i as int).skip(flen as int) =~= s@.skip(i + flen));
            }
            r.append(to);
            i = i + flen;
        } else {
            proof {
                assert(s@.skip(i as int).len() >= 1);
                if s@.skip(i as int).len() >= flen {
                    assert(s@.skip(i as int).subrange(0, flen as int)
                        =~= s@.subrange(i as int, i + flen as int));
                }
                assert(s@.subrange(i as int, i + 1) =~= seq![s@[i as int]]);
                assert(s@.skip(i as int).skip(1) =~= s@.skip(i + 1));
                if s@.skip(i as int).len() < flen {
                    // too little text is left for a match: the tail is copied as it is
                    assert(spec_replace(s@.skip(i as int), from@, to@) =~= s@.skip(i as int));
                    assert(spec_replace(s@.skip(i + 1), from@, to@) =~= s@.skip(i + 1));
                    assert(s@.skip(i as int) =~= seq![s@[i as int]] + s@.skip(i + 1));
                }
            }
            let piece = s.substring_char(i, i + 1);
            r.append(piece);
            i = i + 1;
        }
    }
    proof {
        assert(s@.skip(slen as int) =~= Seq::<char>::empty());
        assert(r@ + spec_replace(Seq::<char>::empty(), from@, to@) =~= r@);
    }
    r
}

/// `s` with every trailing occurrence of the character `c` removed.
pub open spec fn spec_trim_end_char(s: Seq<char>, c: char) -> Seq<char>
    decreases s.len(),
{
    if s.len() > 0 && s[s.len() - 1] == c {
        spec_trim_end_char(s.drop_last(), c)
    } else {
        s
    }
}

pub fn trim_end_char(s: &str, c: char) -> (r: String)
    ensures
        r@ == spec_trim_end_char(s@, c),
{
    let slen = s.unicode_len();
    let mut b: usize = slen;
    proof {
        assert(s@.subrange(0, slen as int) =~= s@);
    }
    while b > 0 && s.get_char(b - 1) == c
        invariant
            slen == s@.len(),
            b <= slen,
            spec_trim_end_char(s@, c) == spec_trim_end_char(s@.subrange(0, b as int), c),
        decreases b,
    {
        proof {
            assert(s@.subrange(0, b as int).drop_last() =~= s@.subrange(0, b - 1));
        }
        b = b - 1;
    }
    proof {
        assert(spec_trim_end_char(s@.subrange(0, b as int), c) == s@.subrange(0, b as int));
    }
    String::from_str(s.substring_char(0, b))
}

} // verus!
