//! Text helpers shared by the engine: path normalisation, identity hashing
//! and the small string operations that the rest of the library builds on.
use std::hash::BuildHasher;
use vstd::prelude::*;
use vstd::string::*;

verus! {

/// `s` with every trailing `/` removed.
pub open spec fn trim_end_slashes(s: Seq<char>) -> Seq<char>
    decreases s.len(),
{
    if s.len() > 0 && s.last() == '/' {
        trim_end_slashes(s.drop_last())
    } else {
        s
    }
}

/// `s` with every leading `/` removed.
pub open spec fn trim_start_slashes(s: Seq<char>) -> Seq<char>
    decreases s.len(),
{
    if s.len() > 0 && s[0] == '/' {
        trim_start_slashes(s.subrange(1, s.len() as int))
    } else {
        s
    }
}

/// A path fragment normalised to exactly one leading `/` and no trailing `/`.
pub open spec fn fixed(path: Seq<char>) -> Seq<char> {
    seq!['/'] + trim_start_slashes(trim_end_slashes(path))
}

/// Identity of a (source, destination) pair: the 64-bit value that std's
/// default hasher gives for the two strings hashed in that order.
pub uninterp spec fn identity_of(source: Seq<char>, destination: Seq<char>) -> u64;

/// Text as std's `to_lowercase` leaves it.
pub uninterp spec fn lower_of(s: Seq<char>) -> Seq<char>;

/// Character-wise equality of two string slices.
pub fn text_eq(a: &str, b: &str) -> (r: bool)
    ensures
        r == (a@ == b@),
{
    let n = a.unicode_len();
    let m = b.unicode_len();
    if n != m {
        return false;
    }
    let mut i: usize = 0;
    while i < n
        invariant
            n == a@.len(),
            m == b@.len(),
            n == m,
            i <= n,
            a@.subrange(0, i as int) == b@.subrange(0, i as int),
        decreases n - i,
    {
        if a.get_char(i) != b.get_char(i) {
            assert(a@[i as int] != b@[i as int]);
            return false;
        }
        assert(a@.subrange(0, i + 1) == a@.subrange(0, i as int).push(a@[i as int]));
        assert(b@.subrange(0, i + 1) == b@.subrange(0, i as int).push(b@[i as int]));
        i = i + 1;
    }
    assert(a@ == a@.subrange(0, n as int));
    assert(b@ == b@.subrange(0, n as int));
    true
}

proof fn lemma_trim_end_prefix(s: Seq<char>, k: int)
    requires
        0 <= k <= s.len(),
        forall|j: int| k <= j < s.len() ==> s[j] == '/',
    ensures
        trim_end_slashes(s) == trim_end_slashes(s.subrange(0, k)),
    decreases s.len() - k,
{
    if k < s.len() {
        assert(s.drop_last() == s.subrange(0, s.len() - 1));
        assert(s.subrange(0, s.len() - 1).subrange(0, k) == s.subrange(0, k));
        lemma_trim_end_prefix(s.drop_last(), k);
    } else {
        assert(s.subrange(0, k) == s);
    }
}

proof fn lemma_trim_start_suffix(s: Seq<char>, k: int)
    requires
        0 <= k <= s.len(),
        forall|j: int| 0 <= j < k ==> s[j] == '/',
    ensures
        trim_start_slashes(s) == trim_start_slashes(s.subrange(k, s.len() as int)),
    decreases k,
{
    if k > 0 {
        let t = s.subrange(1, s.len() as int);
        assert(t.subrange(k - 1, t.len() as int) == s.subrange(k, s.len() as int));
        lemma_trim_start_suffix(t, k - 1);
    } else {
        assert(s.subrange(0, s.len() as int) == s);
    }
}

/// Normalises a path fragment: one leading `/`, no trailing `/`.
pub fn fixer(path: &str) -> (r: String)
    ensures
        r@ == fixed(path@),
{
    let n = path.unicode_len();
    let mut end: usize = n;
    while end > 0 && path.get_char(end - 1) == '/'
        invariant
            n == path@.len(),
            end <= n,
            forall|j: int| end <= j < n ==> path@[j] == '/',
        decreases end,
    {
        end = end - 1;
    }
    proof {
        lemma_trim_end_prefix(path@, end as int);
        let p = path@.subrange(0, end as int);
        if end > 0 {
            assert(p.last() == path@[end - 1]);
            assert(p.last() != '/');
        }
        assert(trim_end_slashes(p) == p);
    }
    let mut start: usize = 0;
    while start < end && path.get_char(start) == '/'
        invariant
            n == path@.len(),
            start <= end <= n,
            forall|j: int| 0 <= j < start ==> path@[j] == '/',
        decreases end - start,
    {
        start = start + 1;
    }
    let ghost p = path@.subrange(0, end as int);
    proof {
        assert forall|j: int| 0 <= j < start implies p[j] == '/' by {}
        lemma_trim_start_suffix(p, start as int);
        let q = p.subrange(start as int, p.len() as int);
        assert(q == path@.subrange(start as int, end as int));
        if start < end {
            assert(q[0] == path@[start as int]);
        }
        assert(trim_start_slashes(q) == q);
    }
    let body = path.substring_char(start, end);
    let mut out = String::from_str("/");
    proof {
        reveal_strlit("/");
    }
    out.append(body);
    assert(out@ =~= fixed(path@));
    out
}

/// Relies on std's `BuildHasher::hash_one` over `BuildHasherDefault<DefaultHasher>`:
/// hashing the pair writes the source and then the destination into one fresh
/// `DefaultHasher::default()`, which std documents to be the same for every
/// instance made by `new` or `default` (it is not seeded per process), so the
/// value depends on the two strings alone.
#[verifier::external_body]
pub fn calculate_hash(source: &str, destination: &str) -> (r: u64)
    ensures
        r == identity_of(source@, destination@),
{
    std::hash::BuildHasherDefault::<std::hash::DefaultHasher>::default().hash_one((source, destination))
}

/// Relies on std's `str::to_lowercase`: the result depends on the characters
/// alone, and the empty string stays empty.
#[verifier::external_body]
pub(crate) fn to_lower(s: &str) -> (r: String)
    ensures
        r@ == lower_of(s@),
        s@.len() == 0 ==> r@.len() == 0,
{
    s.to_lowercase()
}

/// Equal (source, destination) pairs always give equal identities.
pub proof fn lemma_identity_pure(s1: Seq<char>, d1: Seq<char>, s2: Seq<char>, d2: Seq<char>)
    requires
        s1 == s2,
        d1 == d2,
    ensures
        identity_of(s1, d1) == identity_of(s2, d2),
{
}

} // verus!
