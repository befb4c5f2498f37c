//! Character-level text primitives: searching for patterns, slicing and
//! building strings. Text is modelled as the sequence of its characters.
use vstd::prelude::*;

verus! {

/// `pat` occurs in `s` starting at character position `i`.
pub open spec fn occurs_at(s: Seq<char>, pat: Seq<char>, i: int) -> bool {
    &&& 0 <= i
    &&& i + pat.len() <= s.len()
    &&& s.subrange(i, i + pat.len()) == pat
}

/// `i` is the leftmost occurrence of `pat` in `s`.
pub open spec fn is_first_occurrence(s: Seq<char>, pat: Seq<char>, i: int) -> bool {
    &&& occurs_at(s, pat, i)
    &&& forall|j: int| 0 <= j < i ==> !occurs_at(s, pat, j)
}

/// `i` is the rightmost occurrence of `pat` in `s`.
pub open spec fn is_last_occurrence(s: Seq<char>, pat: Seq<char>, i: int) -> bool {
    &&& occurs_at(s, pat, i)
    &&& forall|j: int| i < j ==> !occurs_at(s, pat, j)
}

/// Position of the leftmost occurrence of `pat` in `s`, if any.
pub open spec fn find_in(s: Seq<char>, pat: Seq<char>) -> Option<int> {
    if exists|i: int| occurs_at(s, pat, i) {
        Some(choose|i: int| is_first_occurrence(s, pat, i))
    } else {
        None
    }
}

/// Position of the rightmost occurrence of `pat` in `s`, if any.
pub open spec fn rfind_in(s: Seq<char>, pat: Seq<char>) -> Option<int> {
    if exists|i: int| occurs_at(s, pat, i) {
        Some(choose|i: int| is_last_occurrence(s, pat, i))
    } else {
        None
    }
}

/// Whether `pat` occurs anywhere in `s`.
pub open spec fn contains_seq(s: Seq<char>, pat: Seq<char>) -> bool {
    exists|i: int| occurs_at(s, pat, i)
}

proof fn lemma_first_occurrence_exists(s: Seq<char>, pat: Seq<char>, k: int)
    requires
        occurs_at(s, pat, k),
    ensures
        exists|i: int| is_first_occurrence(s, pat, i),
    decreases k,
{
    if exists|j: int| 0 <= j < k && occurs_at(s, pat, j) {
        let j = choose|j: int| 0 <= j < k && occurs_at(s, pat, j);
        lemma_first_occurrence_exists(s, pat, j);
    } else {
        assert(is_first_occurrence(s, pat, k));
    }
}

proof fn lemma_last_occurrence_exists(s: Seq<char>, pat: Seq<char>, k: int)
    requires
        occurs_at(s, pat, k),
    ensures
        exists|i: int| is_last_occurrence(s, pat, i),
    decreases s.len() - k,
{
    if exists|j: int| k < j && occurs_at(s, pat, j) {
        let j = choose|j: int| k < j && occurs_at(s, pat, j);
        lemma_last_occurrence_exists(s, pat, j);
    } else {
        assert(is_last_occurrence(s, pat, k));
    }
}

/// The leftmost occurrence is what `find_in` names.
pub proof fn lemma_find_in_first(s: Seq<char>, pat: Seq<char>, i: int)
    requires
        is_first_occurrence(s, pat, i),
    ensures
        find_in(s, pat) == Some(i),
{
    lemma_first_occurrence_exists(s, pat, i);
    let c = choose|c: int| is_first_occurrence(s, pat, c);
    if c < i {
        assert(!occurs_at(s, pat, c));
    } else if i < c {
        assert(!occurs_at(s, pat, i));
    }
}

/// What `find_in` returns is the leftmost occurrence.
pub proof fn lemma_find_in_some(s: Seq<char>, pat: Seq<char>)
    requires
        find_in(s, pat) is Some,
    ensures
        is_first_occurrence(s, pat, find_in(s, pat)->0),
        0 <= find_in(s, pat)->0,
        find_in(s, pat)->0 + pat.len() <= s.len(),
{
    let k = choose|k: int| occurs_at(s, pat, k);
    lemma_first_occurrence_exists(s, pat, k);
}

/// The rightmost occurrence is what `rfind_in` names.
pub proof fn lemma_rfind_in_last(s: Seq<char>, pat: Seq<char>, i: int)
    requires
        is_last_occurrence(s, pat, i),
    ensures
        rfind_in(s, pat) == Some(i),
{
    lemma_last_occurrence_exists(s, pat, i);
    let c = choose|c: int| is_last_occurrence(s, pat, c);
    if c < i {
        assert(!occurs_at(s, pat, i));
    } else if i < c {
        assert(!occurs_at(s, pat, c));
    }
}

/// What `rfind_in` returns is the rightmost occurrence.
pub proof fn lemma_rfind_in_some(s: Seq<char>, pat: Seq<char>)
    requires
        rfind_in(s, pat) is Some,
    ensures
        is_last_occurrence(s, pat, rfind_in(s, pat)->0),
        0 <= rfind_in(s, pat)->0,
        rfind_in(s, pat)->0 + pat.len() <= s.len(),
{
    let k = choose|k: int| occurs_at(s, pat, k);
    lemma_last_occurrence_exists(s, pat, k);
}

/// A leftmost occurrence stays leftmost when text is appended.
pub proof fn lemma_find_in_extend(s: Seq<char>, pat: Seq<char>, x: Seq<char>)
    requires
        find_in(s, pat) is Some,
    ensures
        find_in(s + x, pat) == find_in(s, pat),
{
    lemma_find_in_some(s, pat);
    let i = find_in(s, pat)->0;
    let t = s + x;
    assert(t.subrange(i, i + pat.len()) =~= s.subrange(i, i + pat.len()));
    assert forall|j: int| 0 <= j < i implies !occurs_at(t, pat, j) by {
        if occurs_at(t, pat, j) {
            assert(t.subrange(j, j + pat.len()) =~= s.subrange(j, j + pat.len()));
            assert(occurs_at(s, pat, j));
        }
    }
    lemma_find_in_first(t, pat, i);
}

/// Whether `pat` occurs in `v` at position `from + i`.
fn matches_at(v: &Vec<char>, start: usize, pat: &Vec<char>) -> (r: bool)
    requires
        start + pat.len() <= v.len(),
    ensures
        r == (v@.subrange(start as int, start + pat.len()) == pat@),
{
    let m = pat.len();
    let mut k: usize = 0;
    while k < m
        invariant
            k <= m,
            m == pat.len(),
            start + m <= v.len(),
            forall|t: int| 0 <= t < k ==> v@[start + t] == pat@[t],
        decreases m - k,
    {
        if v[start + k] != pat[k] {
            assert(v@.subrange(start as int, start + m)[k as int] != pat@[k as int]);
            return false;
        }
        k = k + 1;
    }
    assert(v@.subrange(start as int, start + m) =~= pat@);
    true
}

/// Leftmost occurrence of `pat` in the characters of `v` from `from` on,
/// counted from `from`.
pub fn find_from(v: &Vec<char>, from: usize, pat: &Vec<char>) -> (r: Option<usize>)
    requires
        from <= v.len(),
    ensures
        r matches Some(i) ==> find_in(v@.skip(from as int), pat@) == Some(i as int),
        r matches Some(i) ==> from + i + pat.len() <= v.len(),
        r is None ==> find_in(v@.skip(from as int), pat@) is None,
{
    let ghost w = v@.skip(from as int);
    let n = v.len();
    let m = pat.len();
    if m > n - from {
        assert forall|j: int| !occurs_at(w, pat@, j) by {}
        return None;
    }
    if m == 0 {
        assert(w.subrange(0, 0) =~= pat@);
        assert(is_first_occurrence(w, pat@, 0));
        proof {
            lemma_find_in_first(w, pat@, 0);
        }
        return Some(0);
    }
    let mut i: usize = 0;
    while i <= n - from - m
        invariant
            from <= n,
            n == v.len(),
            m == pat.len(),
            1 <= m <= n - from,
            i <= n - from - m + 1,
            w == v@.skip(from as int),
            forall|j: int| 0 <= j < i ==> !occurs_at(w, pat@, j),
        decreases n - from - m - i + 1,
    {
        let hit = matches_at(v, from + i, pat);
        assert(w.subrange(i as int, i + m) =~= v@.subrange(from + i, from + i + m));
        if hit {
            assert(is_first_occurrence(w, pat@, i as int));
            proof {
                lemma_find_in_first(w, pat@, i as int);
            }
            return Some(i);
        }
        i = i + 1;
    }
    assert forall|j: int| !occurs_at(w, pat@, j) by {}
    None
}

/// Rightmost occurrence of `pat` in the characters of `v` from `from` on,
/// counted from `from`.
pub fn rfind_from(v: &Vec<char>, from: usize, pat: &Vec<char>) -> (r: Option<usize>)
    requires
        from <= v.len(),
    ensures
        r matches Some(i) ==> rfind_in(v@.skip(from as int), pat@) == Some(i as int),
        r matches Some(i) ==> from + i + pat.len() <= v.len(),
        r is None ==> rfind_in(v@.skip(from as int), pat@) is None,
{
    let ghost w = v@.skip(from as int);
    let n = v.len();
    let m = pat.len();
    if m > n - from {
        assert forall|j: int| !occurs_at(w, pat@, j) by {}
        return None;
    }
    if m == 0 {
        let e = n - from;
        assert(w.subrange(e as int, e as int) =~= pat@);
        assert(is_last_occurrence(w, pat@, e as int));
        proof {
            lemma_rfind_in_last(w, pat@, e as int);
        }
        return Some(e);
    }
    let mut i: usize = n - from - m + 1;
    while i > 0
        invariant
            from <= n,
            n == v.len(),
            m == pat.len(),
            1 <= m <= n - from,
            i <= n - from - m + 1,
            w == v@.skip(from as int),
            forall|j: int| i <= j ==> !occurs_at(w, pat@, j),
        decreases i,
    {
        let k = i - 1;
        let hit = matches_at(v, from + k, pat);
        assert(w.subrange(k as int, k + m) =~= v@.subrange(from + k, from + k + m));
        if hit {
            assert(is_last_occurrence(w, pat@, k as int));
            proof {
                lemma_rfind_in_last(w, pat@, k as int);
            }
            return Some(k);
        }
        i = k;
    }
    assert forall|j: int| !occurs_at(w, pat@, j) by {}
    None
}

/// A copy of the characters `v[lo..hi]`.
pub fn copy_range(v: &Vec<char>, lo: usize, hi: usize) -> (r: Vec<char>)
    requires
        lo <= hi <= v.len(),
    ensures
        r@ == v@.subrange(lo as int, hi as int),
{
    let mut r: Vec<char> = Vec::new();
    let mut i = lo;
    while i < hi
        invariant
            lo <= i <= hi <= v.len(),
            r@ == v@.subrange(lo as int, i as int),
        decreases hi - i,
    {
        r.push(v[i]);
        assert(v@.subrange(lo as int, i + 1) =~= v@.subrange(lo as int, i as int).push(v@[i as int]));
        i = i + 1;
    }
    r
}

/// Appends one character to a string.
#[verifier::external_body]
pub(crate) fn push_char(s: &mut String, c: char)
    ensures
        final(s)@ == old(s)@.push(c),
{
    s.push(c);
}

/// The characters of `s`, in order.
pub fn chars_of(s: &str) -> (v: Vec<char>)
    ensures
        v@ == s@,
{
    let mut v: Vec<char> = Vec::new();
    for c in it: s.chars()
        invariant
            v@ == it.seq().take(it.index() as int),
    {
        v.push(c);
    }
    assert(v@ =~= s@);
    v
}

/// The string made of the characters `v[lo..hi]`.
pub fn string_of_range(v: &Vec<char>, lo: usize, hi: usize) -> (s: String)
    requires
        lo <= hi <= v.len(),
    ensures
        s@ == v@.subrange(lo as int, hi as int),
{
    let mut s = String::new();
    let mut i = lo;
    while i < hi
        invariant
            lo <= i <= hi <= v.len(),
            s@ == v@.subrange(lo as int, i as int),
        decreases hi - i,
    {
        push_char(&mut s, v[i]);
        assert(v@.subrange(lo as int, i + 1) =~= v@.subrange(lo as int, i as int).push(v@[i as int]));
        i = i + 1;
    }
    s
}

/// Appends the characters `v[lo..hi]` to `s`.
pub fn push_range(s: &mut String, v: &Vec<char>, lo: usize, hi: usize)
    requires
        lo <= hi <= v.len(),
    ensures
        final(s)@ == old(s)@ + v@.subrange(lo as int, hi as int),
{
    let ghost start = s@;
    let mut i = lo;
    while i < hi
        invariant
            lo <= i <= hi <= v.len(),
            s@ == start + v@.subrange(lo as int, i as int),
        decreases hi - i,
    {
        push_char(s, v[i]);
        assert(v@.subrange(lo as int, i + 1) =~= v@.subrange(lo as int, i as int).push(v@[i as int]));
        i = i + 1;
    }
}

/// Appends `t` to `s`.
pub fn push_str(s: &mut String, t: &str)
    ensures
        final(s)@ == old(s)@ + t@,
{
    let v = chars_of(t);
    push_range(s, &v, 0, v.len());
    assert(v@.subrange(0, v@.len() as int) =~= v@);
}

/// A copy of `t`.
pub fn string_from(t: &str) -> (s: String)
    ensures
        s@ == t@,
{
    let mut s = String::new();
    push_str(&mut s, t);
    assert(s@ =~= t@);
    s
}

} // verus!
