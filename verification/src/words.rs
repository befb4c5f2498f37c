//! Words of a prompt, keywords, decimal numerals and prompt hashes.
use vstd::prelude::*;
use crate::text::{chars_of, push_char, push_range};

verus! {

/// Whether std's `char::is_whitespace` holds of `c`.
pub uninterp spec fn char_is_whitespace(c: char) -> bool;

/// Whether std's `char::is_alphanumeric` holds of `c`.
pub uninterp spec fn char_is_alphanumeric(c: char) -> bool;

/// What std's `str::to_lowercase` gives for `s`.
pub uninterp spec fn lowercase_of(s: Seq<char>) -> Seq<char>;

/// What `std::hash::DefaultHasher::new()` gives after hashing the `str` `s`.
pub uninterp spec fn std_hash_of_str(s: Seq<char>) -> u64;

/// Calls `char::is_whitespace`. Claimed: the result is the named predicate.
#[verifier::external_body]
pub(crate) fn is_whitespace(c: char) -> (r: bool)
    ensures
        r == char_is_whitespace(c),
{
    c.is_whitespace()
}

/// Calls `char::is_alphanumeric`. Claimed: the result is the named predicate.
#[verifier::external_body]
pub(crate) fn is_alphanumeric(c: char) -> (r: bool)
    ensures
        r == char_is_alphanumeric(c),
{
    c.is_alphanumeric()
}

/// Calls `str::to_lowercase`. Claimed: the result is the named lowercase form.
#[verifier::external_body]
pub(crate) fn to_lowercase(s: &str) -> (r: String)
    ensures
        r@ == lowercase_of(s@),
{
    s.to_lowercase()
}

/// Hashes the `str` `s` with a `DefaultHasher` made by `DefaultHasher::new()`
/// (through `BuildHasherDefault::hash_one`, which makes the hasher, feeds it
/// `s` and finishes it). Claimed: the result is the named hash.
#[verifier::external_body]
fn default_hash_of(s: &str) -> (h: u64)
    ensures
        h == std_hash_of_str(s@),
{
    std::hash::BuildHasher::hash_one(
        &std::hash::BuildHasherDefault::<std::collections::hash_map::DefaultHasher>::default(),
        s,
    )
}

/// The hash of a prompt that keys the fold cache.
pub fn hash_prompt(prompt: &str) -> (h: u64)
    ensures
        h == std_hash_of_str(prompt@),
{
    default_hash_of(prompt)
}

/// The position at which the run of non-whitespace characters starting at
/// `i` ends.
pub open spec fn word_end(s: Seq<char>, i: int) -> int
    decreases s.len() - i,
{
    if i < 0 || i >= s.len() || char_is_whitespace(s[i]) {
        i
    } else {
        word_end(s, i + 1)
    }
}

/// The whitespace-separated words of `s[i..]`, in order (what
/// `str::split_whitespace` yields).
pub open spec fn words_from(s: Seq<char>, i: int) -> Seq<Seq<char>>
    decreases s.len() - i, 1int,
{
    if i < 0 || i >= s.len() {
        seq![]
    } else if char_is_whitespace(s[i]) {
        words_from(s, i + 1)
    } else {
        proof {
            lemma_word_end(s, i);
        }
        seq![s.subrange(i, word_end(s, i))] + words_from(s, word_end(s, i))
    }
}

/// The whitespace-separated words of `s`.
pub open spec fn words(s: Seq<char>) -> Seq<Seq<char>> {
    words_from(s, 0)
}

pub proof fn lemma_word_end(s: Seq<char>, i: int)
    requires
        0 <= i < s.len(),
        !char_is_whitespace(s[i]),
    ensures
        i < word_end(s, i) <= s.len(),
    decreases s.len() - i,
{
    assert(word_end(s, i) == word_end(s, i + 1));
    if i + 1 < s.len() && !char_is_whitespace(s[i + 1]) {
        lemma_word_end(s, i + 1);
    } else {
        assert(word_end(s, i + 1) == i + 1);
    }
}

/// The characters of `s` for which `char::is_alphanumeric` holds.
pub open spec fn alphanumeric_only(s: Seq<char>) -> Seq<char>
    decreases s.len(),
{
    if s.len() == 0 {
        seq![]
    } else if char_is_alphanumeric(s.last()) {
        alphanumeric_only(s.drop_last()).push(s.last())
    } else {
        alphanumeric_only(s.drop_last())
    }
}

/// A word turned into a candidate keyword: lowercased, with all but its
/// alphanumeric characters removed.
pub open spec fn keyword_of(w: Seq<char>) -> Seq<char> {
    alphanumeric_only(lowercase_of(w))
}

/// The keywords of a prompt: each word's candidate keyword that is longer
/// than three characters.
pub open spec fn keyword_set(prompt: Seq<char>) -> Set<Seq<char>> {
    Set::new(
        |k: Seq<char>|
            exists|i: int|
                0 <= i < words(prompt).len() && k == keyword_of(#[trigger] words(prompt)[i])
                    && k.len() > 3,
    )
}

/// The candidate keywords of `ws` that are longer than three characters, in
/// the order of the words.
pub open spec fn keyword_seq(ws: Seq<Seq<char>>) -> Seq<Seq<char>>
    decreases ws.len(),
{
    if ws.len() == 0 {
        seq![]
    } else {
        keyword_seq(ws.drop_last()) + if keyword_of(ws.last()).len() > 3 {
            seq![keyword_of(ws.last())]
        } else {
            Seq::<Seq<char>>::empty()
        }
    }
}

/// The items of `s`, each once, in the order of their first appearance.
pub open spec fn first_appearances(s: Seq<Seq<char>>) -> Seq<Seq<char>>
    decreases s.len(),
{
    if s.len() == 0 {
        seq![]
    } else {
        let d = first_appearances(s.drop_last());
        if d.contains(s.last()) {
            d
        } else {
            d.push(s.last())
        }
    }
}

/// The views of a list of strings.
pub open spec fn texts(v: Seq<String>) -> Seq<Seq<char>> {
    v.map_values(|s: String| s@)
}

/// Keeps the alphanumeric characters of `s`.
fn keep_alphanumeric(s: &str) -> (r: String)
    ensures
        r@ == alphanumeric_only(s@),
{
    let v = chars_of(s);
    let mut r = String::new();
    let mut i: usize = 0;
    assert(v@.take(0) =~= Seq::<char>::empty());
    while i < v.len()
        invariant
            i <= v.len(),
            v@ == s@,
            r@ == alphanumeric_only(v@.take(i as int)),
        decreases v.len() - i,
    {
        assert(v@.take(i + 1).drop_last() =~= v@.take(i as int));
        if is_alphanumeric(v[i]) {
            push_char(&mut r, v[i]);
        }
        i = i + 1;
    }
    assert(v@.take(v.len() as int) =~= v@);
    r
}

/// The keywords of `prompt` (see `keyword_set`), each once, in the order of
/// their first appearance.
pub fn extract_keywords(prompt: &str) -> (r: Vec<String>)
    ensures
        texts(r@) == first_appearances(keyword_seq(words(prompt@))),
        texts(r@).to_set() == keyword_set(prompt@),
        texts(r@).no_duplicates(),
{
    let v = chars_of(prompt);
    let ghost s = prompt@;
    let n = v.len();
    let mut r: Vec<String> = Vec::new();
    let mut i: usize = 0;
    let ghost mut done: Seq<Seq<char>> = seq![];
    while i < n
        invariant
            n == v.len(),
            v@ == s,
            i <= n,
            words(s) == done + words_from(s, i as int),
            texts(r@).no_duplicates(),
            texts(r@) == first_appearances(keyword_seq(done)),
            forall|k: Seq<char>|
                texts(r@).contains(k) <==> exists|j: int|
                    0 <= j < done.len() && k == keyword_of(#[trigger] done[j]) && k.len() > 3,
        decreases n - i, 1int,
    {
        if is_whitespace(v[i]) {
            i = i + 1;
        } else {
            proof {
                lemma_word_end(s, i as int);
            }
            let mut j = i + 1;
            while j < n && !is_whitespace(v[j])
                invariant
                    n == v.len(),
                    v@ == s,
                    i < j <= n,
                    word_end(s, i as int) == word_end(s, j as int),
                decreases n - j,
            {
                j = j + 1;
            }
            let mut word = String::new();
            push_range(&mut word, &v, i, j);
            assert(word@ =~= s.subrange(i as int, j as int));
            let lowered = to_lowercase(word.as_str());
            let kw = keep_alphanumeric(lowered.as_str());
            let ghost w = s.subrange(i as int, j as int);
            let ghost old_done = done;
            assert(kw@ == keyword_of(w));
            assert(forall|k: Seq<char>|
                texts(r@).contains(k) <==> exists|q: int|
                    0 <= q < old_done.len() && k == keyword_of(#[trigger] old_done[q]) && k.len() > 3);
            proof {
                done = done.push(w);
                assert(done + words_from(s, j as int) =~= old_done + (seq![w] + words_from(s, j as int)));
            }
            let ghost r_before = texts(r@);
            proof {
                assert(done.drop_last() =~= old_done);
                assert(done.last() == w);
                let ks = keyword_seq(done);
                if kw@.len() > 3 {
                    assert(ks =~= keyword_seq(old_done).push(kw@));
                    assert(ks.drop_last() =~= keyword_seq(old_done));
                    assert(first_appearances(ks) == if r_before.contains(kw@) {
                        r_before
                    } else {
                        r_before.push(kw@)
                    });
                } else {
                    assert(ks =~= keyword_seq(old_done));
                }
            }
            let kw_chars = chars_of(kw.as_str()).len();
            if kw_chars > 3 {
                let mut present = false;
                let mut t: usize = 0;
                while t < r.len()
                    invariant
                        t <= r.len(),
                        present == exists|q: int| 0 <= q < t && r@[q]@ == kw@,
                    decreases r.len() - t,
                {
                    if r[t] == kw {
                        present = true;
                    }
                    t = t + 1;
                }
                assert(present == r_before.contains(kw@)) by {
                    if present {
                        let q = choose|q: int| 0 <= q < t && r@[q]@ == kw@;
                        assert(r_before[q] == kw@);
                    }
                    if r_before.contains(kw@) {
                        let q = choose|q: int| 0 <= q < r_before.len() && r_before[q] == kw@;
                        assert(r@[q]@ == kw@);
                    }
                }
                if !present {
                    let ghost before = texts(r@);
                    let ghost rv = r@;
                    assert(forall|q: int| 0 <= q < rv.len() ==> before[q] == rv[q]@);
                    r.push(kw);
                    assert(texts(r@) =~= before.push(keyword_of(w)));
                    assert(done[old_done.len() as int] == w);
                    assert forall|k: Seq<char>|
                        texts(r@).contains(k) <==> exists|q: int|
                            0 <= q < done.len() && k == keyword_of(#[trigger] done[q]) && k.len() > 3 by {
                        if texts(r@).contains(k) {
                            if k == keyword_of(w) {
                                assert(keyword_of(done[old_done.len() as int]) == k);
                            } else {
                                let i = choose|i: int| 0 <= i < texts(r@).len() && texts(r@)[i] == k;
                                assert(i < before.len());
                                assert(before[i] == k);
                                assert(before.contains(k));
                                let q = choose|q: int|
                                    0 <= q < old_done.len() && k == keyword_of(#[trigger] old_done[q]) && k.len() > 3;
                                assert(done[q] == old_done[q]);
                            }
                        }
                        if exists|q: int|
                            0 <= q < done.len() && k == keyword_of(#[trigger] done[q]) && k.len() > 3 {
                            let q = choose|q: int|
                                0 <= q < done.len() && k == keyword_of(#[trigger] done[q]) && k.len() > 3;
                            if q < old_done.len() {
                                assert(done[q] == old_done[q]);
                                assert(before.contains(k));
                                let i = choose|i: int| 0 <= i < before.len() && before[i] == k;
                                assert(texts(r@)[i] == k);
                            } else {
                                assert(texts(r@)[before.len() as int] == k);
                            }
                        }
                    }
                    assert forall|a: int, b: int|
                        0 <= a < b < texts(r@).len() implies texts(r@)[a] != texts(r@)[b] by {
                        if b == before.len() {
                            assert(texts(r@)[a] == before[a]);
                            assert(before[a] == rv[a]@);
                        } else {
                            assert(texts(r@)[a] == before[a]);
                            assert(texts(r@)[b] == before[b]);
                        }
                    }
                } else {
                    assert forall|k: Seq<char>|
                        texts(r@).contains(k) <==> exists|q: int|
                            0 <= q < done.len() && k == keyword_of(#[trigger] done[q]) && k.len() > 3 by {
                        if texts(r@).contains(k) {
                            let q = choose|q: int|
                                0 <= q < old_done.len() && k == keyword_of(#[trigger] old_done[q]) && k.len() > 3;
                            assert(done[q] == old_done[q]);
                        }
                        if exists|q: int|
                            0 <= q < done.len() && k == keyword_of(#[trigger] done[q]) && k.len() > 3 {
                            let q = choose|q: int|
                                0 <= q < done.len() && k == keyword_of(#[trigger] done[q]) && k.len() > 3;
                            if q < old_done.len() {
                                assert(done[q] == old_done[q]);
                            } else {
                                assert(q == old_done.len());
                                assert(done[q] == w);
                                assert(k == kw@);
                                let p = choose|p: int| 0 <= p < r.len() && r@[p]@ == kw@;
                                assert(texts(r@)[p] == k);
                                assert(texts(r@).contains(k));
                            }
                        }
                    }
                }
            } else {
                assert forall|k: Seq<char>|
                    texts(r@).contains(k) <==> exists|q: int|
                        0 <= q < done.len() && k == keyword_of(#[trigger] done[q]) && k.len() > 3 by {
                    if texts(r@).contains(k) {
                        let q = choose|q: int|
                            0 <= q < old_done.len() && k == keyword_of(#[trigger] old_done[q]) && k.len() > 3;
                        assert(done[q] == old_done[q]);
                    }
                    if exists|q: int|
                        0 <= q < done.len() && k == keyword_of(#[trigger] done[q]) && k.len() > 3 {
                        let q = choose|q: int|
                            0 <= q < done.len() && k == keyword_of(#[trigger] done[q]) && k.len() > 3;
                        if q < old_done.len() {
                            assert(done[q] == old_done[q]);
                        }
                    }
                }
            }
            i = j;
        }
    }
    assert(words_from(s, i as int) =~= Seq::<Seq<char>>::empty());
    assert(done =~= words(s));
    assert(texts(r@).to_set() =~= keyword_set(s)) by {
        assert forall|k: Seq<char>| texts(r@).to_set().contains(k) <==> keyword_set(s).contains(k) by {
            if texts(r@).contains(k) {
                let q = choose|q: int|
                    0 <= q < done.len() && k == keyword_of(#[trigger] done[q]) && k.len() > 3;
                assert(keyword_set(s).contains(k));
            }
        }
    }
    r
}

/// The decimal digits.
pub open spec fn digits() -> Seq<char> {
    seq!['0', '1', '2', '3', '4', '5', '6', '7', '8', '9']
}

/// The decimal numeral of `n`, as `u64`'s `Display` writes it.
pub open spec fn decimal(n: nat) -> Seq<char>
    decreases n,
{
    if n < 10 {
        seq![digits()[n as int]]
    } else {
        decimal(n / 10).push(digits()[(n % 10) as int])
    }
}

/// A decimal numeral is made of digits only, at least one.
pub proof fn lemma_decimal_digits(n: nat)
    ensures
        decimal(n).len() >= 1,
        forall|i: int| 0 <= i < decimal(n).len() ==> digits().contains(#[trigger] decimal(n)[i]),
    decreases n,
{
    if n >= 10 {
        lemma_decimal_digits(n / 10);
        let d = decimal(n / 10);
        assert forall|i: int| 0 <= i < decimal(n).len() implies digits().contains(#[trigger] decimal(n)[i]) by {
            if i < d.len() {
                assert(decimal(n)[i] == d[i]);
            } else {
                assert(decimal(n)[i] == digits()[(n % 10) as int]);
            }
        }
    } else {
        assert(decimal(n)[0] == digits()[n as int]);
    }
}

/// Different numbers have different numerals.
pub proof fn lemma_decimal_injective(a: nat, b: nat)
    requires
        decimal(a) == decimal(b),
    ensures
        a == b,
    decreases a,
{
    let ds = digits();
    assert(forall|i: int, j: int| 0 <= i < 10 && 0 <= j < 10 && i != j ==> ds[i] != ds[j]);
    if a < 10 && b < 10 {
        assert(decimal(a)[0] == ds[a as int]);
        assert(decimal(b)[0] == ds[b as int]);
    } else if a < 10 {
        lemma_decimal_digits(b / 10);
        assert(decimal(b).len() >= 2);
    } else if b < 10 {
        lemma_decimal_digits(a / 10);
        assert(decimal(a).len() >= 2);
    } else {
        assert(decimal(a).last() == ds[(a % 10) as int]);
        assert(decimal(b).last() == ds[(b % 10) as int]);
        assert(decimal(a).drop_last() =~= decimal(a / 10));
        assert(decimal(b).drop_last() =~= decimal(b / 10));
        lemma_decimal_injective(a / 10, b / 10);
    }
}

/// Appends the decimal numeral of `n` to `s`.
pub fn push_decimal(s: &mut String, n: u64)
    ensures
        final(s)@ == old(s)@ + decimal(n as nat),
    decreases n,
{
    let table = ['0', '1', '2', '3', '4', '5', '6', '7', '8', '9'];
    assert(table@ =~= digits());
    if n < 10 {
        push_char(s, table[n as usize]);
        assert(old(s)@.push(digits()[n as int]) =~= old(s)@ + decimal(n as nat));
    } else {
        push_decimal(s, n / 10);
        push_char(s, table[(n % 10) as usize]);
        assert(old(s)@ + decimal((n / 10) as nat) + seq![digits()[(n % 10) as int]] =~= old(s)@
            + decimal(n as nat));
    }
}

} // verus!
