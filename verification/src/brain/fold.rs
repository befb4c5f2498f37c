//! Folding of source files: the bodies of functions, impls, classes and the
//! like that the prompt does not mention are replaced by a short marker, and
//! folded results are cached by file and prompt.
use vstd::prelude::*;
use vstd::string::StringSliceAdditionalSpecFns;
use vstd::utf8::{decode_utf8, encode_utf8, is_char_boundary};
use crate::cache::{
    after_put, cache_capacity, cache_entries, cache_get, cache_order, cache_put, lemma_after_put_lists,
    lemma_to_front_lists, new_text_cache, order_lists, to_front, TextCache,
};
use crate::syntax::{RustParser, SyntaxNode};
use crate::text::{chars_of, contains_seq, find_from, push_str, string_from};
use crate::words::{
    decimal, keyword_set, lowercase_of, push_decimal, std_hash_of_str, texts, to_lowercase,
};
pub use crate::words::{extract_keywords, hash_prompt};

verus! {

broadcast use {vstd::utf8::encode_utf8_valid_utf8, vstd::utf8::valid_utf8_split};

/// The marker that stands in for a folded body.
pub open spec fn fold_marker() -> Seq<char> {
    " { /* ... folded by faber-aeternus ... */ }"@
}

/// Whether the bytes `a..b` of the UTF-8 text `src` are whole characters.
pub open spec fn whole_chars(src: Seq<u8>, a: int, b: int) -> bool {
    &&& 0 <= a <= b <= src.len()
    &&& is_char_boundary(src, b)
    &&& is_char_boundary(src.subrange(0, b), a)
}

/// The text of the bytes `a..b` of `src`; empty where they are not whole
/// characters.
pub open spec fn piece(src: Seq<u8>, a: int, b: int) -> Seq<char> {
    if whole_chars(src, a, b) {
        decode_utf8(src.subrange(a, b))
    } else {
        seq![]
    }
}

/// The text of the bytes `a..b` of `source`, if they are whole characters.
fn byte_range_text(source: &str, a: usize, b: usize) -> (r: Option<&str>)
    ensures
        r is Some <==> whole_chars(source.spec_bytes(), a as int, b as int),
        r matches Some(t) ==> t@ == piece(source.spec_bytes(), a as int, b as int),
{
    let n = source.as_bytes().len();
    if a <= b && b <= n && source.is_char_boundary(b) {
        let (head, _) = source.split_at(b);
        if head.is_char_boundary(a) {
            let (_, mid) = head.split_at(a);
            proof {
                vstd::utf8::encode_utf8_decode_utf8(mid@);
                assert(mid.spec_bytes() =~= source.spec_bytes().subrange(a as int, b as int));
            }
            return Some(mid);
        }
    }
    None
}

/// Whether `kind` names a block, the part of a node that folding replaces.
pub open spec fn is_block_kind(kind: Seq<char>) -> bool {
    kind == "block"@ || kind == "statement_block"@ || kind == "block_suite"@
}

/// Whether `text`, lowercased, contains one of the keywords.
pub open spec fn mentions_keyword(text: Seq<char>, keywords: Set<Seq<char>>) -> bool {
    exists|k: Seq<char>| keywords.contains(k) && contains_seq(lowercase_of(text), k)
}

/// The byte range of the first child that is a block.
pub open spec fn first_block(children: Seq<SyntaxNode>) -> Option<(usize, usize)>
    decreases children.len(),
{
    if children.len() == 0 {
        None
    } else if is_block_kind(children[0].kind@) {
        Some((children[0].start_byte, children[0].end_byte))
    } else {
        first_block(children.drop_first())
    }
}

/// The range that folding `n` replaces, if `n` folds: `n` is of a foldable
/// kind, spans whole characters whose lowercase form mentions no keyword, and
/// has a block child.
pub open spec fn fold_target(
    n: SyntaxNode,
    kinds: Seq<Seq<char>>,
    keywords: Set<Seq<char>>,
    src: Seq<u8>,
) -> Option<(usize, usize)> {
    if kinds.contains(n.kind@) && whole_chars(src, n.start_byte as int, n.end_byte as int)
        && !mentions_keyword(piece(src, n.start_byte as int, n.end_byte as int), keywords) {
        first_block(n.children@)
    } else {
        None
    }
}

/// Law: a node that the prompt mentions is never folded. If the node's
/// text, lowercased, contains one of the keywords, the node is not replaced;
/// only what lies inside it may fold.
pub proof fn law_mentioned_node_is_kept(
    n: SyntaxNode,
    kinds: Seq<Seq<char>>,
    keywords: Set<Seq<char>>,
    src: Seq<u8>,
    k: Seq<char>,
)
    requires
        keywords.contains(k),
        contains_seq(lowercase_of(piece(src, n.start_byte as int, n.end_byte as int)), k),
    ensures
        fold_target(n, kinds, keywords, src) is None,
        fold_ranges(n, kinds, keywords, src) == fold_ranges_list(n.children@, kinds, keywords, src),
{
}

/// Law: a node that the prompt does not mention is folded when it can be: a
/// node of a foldable kind that spans whole characters, whose lowercased text
/// contains none of the keywords, and that has a block child, is replaced at
/// its first block.
pub proof fn law_unmentioned_node_is_folded(
    n: SyntaxNode,
    kinds: Seq<Seq<char>>,
    keywords: Set<Seq<char>>,
    src: Seq<u8>,
)
    requires
        kinds.contains(n.kind@),
        whole_chars(src, n.start_byte as int, n.end_byte as int),
        forall|k: Seq<char>|
            keywords.contains(k) ==> !contains_seq(
                lowercase_of(piece(src, n.start_byte as int, n.end_byte as int)),
                k,
            ),
        first_block(n.children@) is Some,
    ensures
        fold_ranges(n, kinds, keywords, src) == seq![first_block(n.children@)->0],
{
}

/// The ranges that folding replaces in the tree `n`: the node's own, if it
/// folds, and otherwise those of its children, in order.
pub open spec fn fold_ranges(
    n: SyntaxNode,
    kinds: Seq<Seq<char>>,
    keywords: Set<Seq<char>>,
    src: Seq<u8>,
) -> Seq<(usize, usize)>
    decreases n, 1int,
{
    match fold_target(n, kinds, keywords, src) {
        Some(r) => seq![r],
        None => fold_ranges_list(n.children@, kinds, keywords, src),
    }
}

/// The ranges that folding replaces in the trees `ns`, in order.
pub open spec fn fold_ranges_list(
    ns: Seq<SyntaxNode>,
    kinds: Seq<Seq<char>>,
    keywords: Set<Seq<char>>,
    src: Seq<u8>,
) -> Seq<(usize, usize)>
    decreases ns, 0int,
{
    if ns.len() == 0 {
        seq![]
    } else {
        fold_ranges_list(ns.drop_last(), kinds, keywords, src) + fold_ranges(
            ns.last(),
            kinds,
            keywords,
            src,
        )
    }
}

/// Inserts `x` after every range that starts no later than it.
pub open spec fn insert_by_start(x: (usize, usize), s: Seq<(usize, usize)>) -> Seq<(usize, usize)>
    decreases s.len(),
{
    if s.len() == 0 {
        seq![x]
    } else if x.0 < s[0].0 {
        seq![x] + s
    } else {
        seq![s[0]] + insert_by_start(x, s.drop_first())
    }
}

/// The ranges ordered by start, ranges with equal starts in their original
/// order (a stable sort).
pub open spec fn sort_by_start(s: Seq<(usize, usize)>) -> Seq<(usize, usize)>
    decreases s.len(),
{
    if s.len() == 0 {
        seq![]
    } else {
        insert_by_start(s.last(), sort_by_start(s.drop_last()))
    }
}

/// The text from byte `last` on with the ranges `rs` replaced by the marker;
/// a range that starts before the end of the previous one is skipped.
pub open spec fn splice(src: Seq<u8>, rs: Seq<(usize, usize)>, last: int) -> Seq<char>
    decreases rs.len(),
{
    if rs.len() == 0 {
        if last < src.len() {
            piece(src, last, src.len() as int)
        } else {
            seq![]
        }
    } else if rs[0].0 >= last {
        piece(src, last, rs[0].0 as int) + fold_marker() + splice(
            src,
            rs.drop_first(),
            rs[0].1 as int,
        )
    } else {
        splice(src, rs.drop_first(), last)
    }
}

/// The folded form of `source` for the tree `tree`.
pub open spec fn folded_text(
    tree: SyntaxNode,
    kinds: Seq<Seq<char>>,
    keywords: Set<Seq<char>>,
    source: Seq<char>,
) -> Seq<char> {
    let src = encode_utf8(source);
    splice(src, sort_by_start(fold_ranges(tree, kinds, keywords, src)), 0)
}

/// Whether two strings are equal.
pub fn str_eq(a: &str, b: &str) -> (r: bool)
    ensures
        r == (a@ == b@),
{
    let x = chars_of(a);
    let y = chars_of(b);
    if x.len() != y.len() {
        return false;
    }
    let mut i: usize = 0;
    while i < x.len()
        invariant
            x@ == a@,
            y@ == b@,
            x.len() == y.len(),
            i <= x.len(),
            forall|j: int| 0 <= j < i ==> x@[j] == y@[j],
        decreases x.len() - i,
    {
        if x[i] != y[i] {
            return false;
        }
        i = i + 1;
    }
    assert(x@ =~= y@);
    true
}

/// Whether `kind` is one of `kinds`.
fn kind_listed(kinds: &Vec<String>, kind: &str) -> (r: bool)
    ensures
        r == texts(kinds@).contains(kind@),
{
    let mut i: usize = 0;
    while i < kinds.len()
        invariant
            i <= kinds.len(),
            forall|j: int| 0 <= j < i ==> kinds@[j]@ != kind@,
        decreases kinds.len() - i,
    {
        if str_eq(kinds[i].as_str(), kind) {
            assert(texts(kinds@)[i as int] == kind@);
            return true;
        }
        i = i + 1;
    }
    assert forall|j: int| 0 <= j < texts(kinds@).len() implies texts(kinds@)[j] != kind@ by {
        assert(texts(kinds@)[j] == kinds@[j]@);
    }
    false
}

/// Whether the lowercase form of `text` contains one of the keywords.
fn mentions_any(text: &str, keywords: &Vec<Vec<char>>, Ghost(kwset): Ghost<Set<Seq<char>>>) -> (r: bool)
    requires
        forall|k: Seq<char>| kwset.contains(k) <==> exists|i: int| 0 <= i < keywords.len() && keywords@[i]@ == k,
    ensures
        r == mentions_keyword(text@, kwset),
{
    let lowered = to_lowercase(text);
    let low = chars_of(lowered.as_str());
    assert(low@.skip(0) =~= low@);
    let mut i: usize = 0;
    while i < keywords.len()
        invariant
            i <= keywords.len(),
            low@ == lowercase_of(text@),
            low@.skip(0) == low@,
            forall|k: Seq<char>| kwset.contains(k) <==> exists|j: int| 0 <= j < keywords.len() && keywords@[j]@ == k,
            forall|j: int| 0 <= j < i ==> !contains_seq(low@, #[trigger] keywords@[j]@),
        decreases keywords.len() - i,
    {
        if find_from(&low, 0, &keywords[i]).is_some() {
            assert(exists|j: int| 0 <= j < keywords.len() && keywords@[j]@ == keywords@[i as int]@);
            assert(kwset.contains(keywords@[i as int]@));
            return true;
        }
        i = i + 1;
    }
    assert forall|k: Seq<char>| !(kwset.contains(k) && contains_seq(lowercase_of(text@), k)) by {
        if kwset.contains(k) {
            let j = choose|j: int| 0 <= j < keywords.len() && keywords@[j]@ == k;
            assert(!contains_seq(low@, keywords@[j]@));
        }
    }
    false
}

/// The byte range of the first block child of `children`.
fn first_block_of(children: &Vec<SyntaxNode>) -> (r: Option<(usize, usize)>)
    ensures
        r == first_block(children@),
{
    let mut i: usize = 0;
    assert(children@.skip(0) =~= children@);
    while i < children.len()
        invariant
            i <= children.len(),
            first_block(children@) == first_block(children@.skip(i as int)),
        decreases children.len() - i,
    {
        assert(children@.skip(i as int).drop_first() =~= children@.skip(i + 1));
        let kind = children[i].kind.as_str();
        if str_eq(kind, "block") || str_eq(kind, "statement_block") || str_eq(kind, "block_suite") {
            return Some((children[i].start_byte, children[i].end_byte));
        }
        i = i + 1;
    }
    None
}

/// Appends to `out` the ranges that folding replaces in the tree `n`.
fn collect_folds(
    n: &SyntaxNode,
    kinds: &Vec<String>,
    keywords: &Vec<Vec<char>>,
    source: &str,
    out: &mut Vec<(usize, usize)>,
    Ghost(kwset): Ghost<Set<Seq<char>>>,
)
    requires
        forall|k: Seq<char>| kwset.contains(k) <==> exists|i: int| 0 <= i < keywords.len() && keywords@[i]@ == k,
    ensures
        final(out)@ == old(out)@ + fold_ranges(*n, texts(kinds@), kwset, source.spec_bytes()),
    decreases n,
{
    let ghost src = source.spec_bytes();
    let mut target: Option<(usize, usize)> = None;
    if kind_listed(kinds, n.kind.as_str()) {
        match byte_range_text(source, n.start_byte, n.end_byte) {
            Some(text) => {
                if !mentions_any(text, keywords, Ghost(kwset)) {
                    target = first_block_of(&n.children);
                }
            },
            None => {},
        }
    }
    assert(target == fold_target(*n, texts(kinds@), kwset, src));
    match target {
        Some(r) => {
            out.push(r);
            assert(fold_ranges(*n, texts(kinds@), kwset, src) == seq![r]);
        },
        None => {
            let ghost start = out@;
            let ghost ch = n.children@;
            let mut i: usize = 0;
            assert(ch.take(0) =~= Seq::<SyntaxNode>::empty());
            while i < n.children.len()
                invariant
                    i <= n.children.len(),
                    ch == n.children@,
                    forall|k: Seq<char>| kwset.contains(k) <==> exists|j: int| 0 <= j < keywords.len() && keywords@[j]@ == k,
                    out@ == start + fold_ranges_list(ch.take(i as int), texts(kinds@), kwset, src),
                    src == source.spec_bytes(),
                decreases n.children.len() - i,
            {
                assert(ch.take(i + 1).drop_last() =~= ch.take(i as int));
                assert(ch.take(i + 1).last() == ch[i as int]);
                collect_folds(&n.children[i], kinds, keywords, source, out, Ghost(kwset));
                assert(out@ =~= start + fold_ranges_list(ch.take(i + 1), texts(kinds@), kwset, src));
                i = i + 1;
            }
            assert(ch.take(i as int) =~= ch);
        },
    }
}

/// `insert_by_start` puts `x` in front of the first range that starts after it.
proof fn lemma_insert_by_start(x: (usize, usize), s: Seq<(usize, usize)>, p: int)
    requires
        0 <= p <= s.len(),
        forall|j: int| 0 <= j < p ==> s[j].0 <= x.0,
        p < s.len() ==> s[p].0 > x.0,
    ensures
        insert_by_start(x, s) == s.take(p) + seq![x] + s.skip(p),
    decreases s.len(),
{
    if s.len() == 0 {
        assert(s.take(p) + seq![x] + s.skip(p) =~= seq![x]);
    } else if x.0 < s[0].0 {
        assert(s.take(p) + seq![x] + s.skip(p) =~= seq![x] + s);
    } else {
        lemma_insert_by_start(x, s.drop_first(), p - 1);
        assert(s.take(p) + seq![x] + s.skip(p) =~= seq![s[0]] + (s.drop_first().take(p - 1) + seq![x]
            + s.drop_first().skip(p - 1)));
    }
}

/// The ranges sorted by start (stable).
fn sorted_by_start(rs: &Vec<(usize, usize)>) -> (r: Vec<(usize, usize)>)
    ensures
        r@ == sort_by_start(rs@),
{
    let mut out: Vec<(usize, usize)> = Vec::new();
    let mut i: usize = 0;
    assert(rs@.take(0) =~= Seq::<(usize, usize)>::empty());
    while i < rs.len()
        invariant
            i <= rs.len(),
            out@ == sort_by_start(rs@.take(i as int)),
        decreases rs.len() - i,
    {
        let x = rs[i];
        let mut p: usize = 0;
        while p < out.len() && out[p].0 <= x.0
            invariant
                p <= out.len(),
                forall|j: int| 0 <= j < p ==> out@[j].0 <= x.0,
            decreases out.len() - p,
        {
            p = p + 1;
        }
        proof {
            lemma_insert_by_start(x, out@, p as int);
        }
        let ghost before = out@;
        out.insert(p, x);
        assert(out@ =~= before.take(p as int) + seq![x] + before.skip(p as int));
        assert(rs@.take(i + 1).drop_last() =~= rs@.take(i as int));
        assert(rs@.take(i + 1).last() == x);
        i = i + 1;
    }
    assert(rs@.take(i as int) =~= rs@);
    out
}

/// Builds the folded text from ranges sorted by start.
fn splice_text(source: &str, rs: &Vec<(usize, usize)>) -> (out: String)
    ensures
        out@ == splice(source.spec_bytes(), rs@, 0),
{
    let ghost src = source.spec_bytes();
    let n = source.as_bytes().len();
    let mut out = String::new();
    let mut last: usize = 0;
    let mut i: usize = 0;
    assert(rs@.skip(0) =~= rs@);
    while i < rs.len()
        invariant
            i <= rs.len(),
            n == src.len(),
            src == source.spec_bytes(),
            splice(src, rs@, 0) == out@ + splice(src, rs@.skip(i as int), last as int),
        decreases rs.len() - i,
    {
        let (start, end) = rs[i];
        assert(rs@.skip(i as int).drop_first() =~= rs@.skip(i + 1));
        if start >= last {
            let ghost before = out@;
            match byte_range_text(source, last, start) {
                Some(t) => push_str(&mut out, t),
                None => {},
            }
            push_str(&mut out, " { /* ... folded by faber-aeternus ... */ }");
            assert(out@ =~= before + piece(src, last as int, start as int) + fold_marker());
            assert(before + splice(src, rs@.skip(i as int), last as int) =~= out@ + splice(
                src,
                rs@.skip(i + 1),
                end as int,
            ));
            last = end;
        }
        i = i + 1;
    }
    if last < n {
        let ghost before = out@;
        match byte_range_text(source, last, n) {
            Some(t) => push_str(&mut out, t),
            None => {},
        }
        assert(out@ =~= before + piece(src, last as int, n as int));
    } else {
        assert(out@ + Seq::<char>::empty() =~= out@);
    }
    out
}

/// The folded form of `source` for the tree `tree`, the foldable kinds
/// `kinds` and the keywords `keywords`: see `folded_text`.
pub fn fold_tree(tree: &SyntaxNode, kinds: &Vec<String>, keywords: &Vec<String>, source: &str) -> (out:
    String)
    ensures
        out@ == folded_text(*tree, texts(kinds@), texts(keywords@).to_set(), source@),
{
    let ghost kwset = texts(keywords@).to_set();
    let mut kws: Vec<Vec<char>> = Vec::new();
    let mut i: usize = 0;
    while i < keywords.len()
        invariant
            i <= keywords.len(),
            kws.len() == i,
            forall|j: int| 0 <= j < i ==> kws@[j]@ == keywords@[j]@,
        decreases keywords.len() - i,
    {
        kws.push(chars_of(keywords[i].as_str()));
        i = i + 1;
    }
    assert forall|k: Seq<char>| kwset.contains(k) <==> exists|j: int| 0 <= j < kws.len() && kws@[j]@ == k by {
        if kwset.contains(k) {
            let j = choose|j: int| 0 <= j < texts(keywords@).len() && texts(keywords@)[j] == k;
            assert(kws@[j]@ == k);
        }
        if exists|j: int| 0 <= j < kws.len() && kws@[j]@ == k {
            let j = choose|j: int| 0 <= j < kws.len() && kws@[j]@ == k;
            assert(texts(keywords@)[j] == k);
        }
    }
    let mut ranges: Vec<(usize, usize)> = Vec::new();
    collect_folds(tree, kinds, &kws, source, &mut ranges, Ghost(kwset));
    assert(ranges@ =~= fold_ranges(*tree, texts(kinds@), kwset, source.spec_bytes()));
    let sorted = sorted_by_start(&ranges);
    splice_text(source, &sorted)
}

} // verus!

verus! {

/// What std's `Path::extension` gives for `path`, as text.
pub uninterp spec fn path_extension_of(path: Seq<char>) -> Option<Seq<char>>;

/// Calls `std::path::Path::extension` on `path` and turns the result into
/// text (`OsStr::to_str`; an extension of a `str` path is always text).
/// Claimed: the result is the named extension.
#[verifier::external_body]
pub(crate) fn path_extension(path: &str) -> (r: Option<String>)
    ensures
        crate::json::opt_text(r) == path_extension_of(path@),
{
    match std::path::Path::new(path).extension() {
        Some(ext) => match ext.to_str() {
            Some(text) => Some(text.to_string()),
            None => None,
        },
        None => None,
    }
}

/// The language whose grammar kinds apply to a file with extension `ext`
/// (Rust where the extension is unknown).
pub open spec fn language_of(ext: Seq<char>) -> Seq<char> {
    if ext == "rs"@ {
        "rust"@
    } else if ext == "py"@ {
        "python"@
    } else if ext == "go"@ {
        "go"@
    } else if ext == "js"@ {
        "javascript"@
    } else if ext == "ts"@ {
        "typescript"@
    } else {
        "rust"@
    }
}

/// The language of the file at `path`.
pub open spec fn language_of_path(path: Seq<char>) -> Seq<char> {
    match path_extension_of(path) {
        Some(ext) => language_of(ext),
        None => language_of(Seq::empty()),
    }
}

/// The node kinds that fold, for each language.
pub open spec fn default_fold_kinds() -> Seq<(Seq<char>, Seq<Seq<char>>)> {
    seq![
        ("rust"@, seq!["function_item"@, "impl_item"@, "struct_item"@]),
        ("python"@, seq!["function_definition"@, "class_definition"@]),
        ("go"@, seq!["function_declaration"@, "method_declaration"@]),
        ("javascript"@, seq![
            "function_declaration"@,
            "class_declaration"@,
            "method_definition"@,
            "arrow_function"@,
        ]),
        ("typescript"@, seq![
            "function_declaration"@,
            "class_declaration"@,
            "method_definition"@,
            "interface_declaration"@,
            "arrow_function"@,
        ]),
    ]
}

/// The kinds listed for `lang` in `table` (the first entry for it).
pub open spec fn kinds_lookup(table: Seq<(Seq<char>, Seq<Seq<char>>)>, lang: Seq<char>) -> Option<
    Seq<Seq<char>>,
>
    decreases table.len(),
{
    if table.len() == 0 {
        None
    } else if table[0].0 == lang {
        Some(table[0].1)
    } else {
        kinds_lookup(table.drop_first(), lang)
    }
}

/// The part of a cache key that names the file and the prompt: the path,
/// `_`, the decimal hash of the prompt, and `_`.
pub open spec fn key_head(path: Seq<char>, prompt: Seq<char>) -> Seq<char> {
    path + "_"@ + decimal(std_hash_of_str(prompt) as nat) + "_"@
}

/// The key under which the fold of `source` at `path` for `prompt` is
/// cached: the head for the path and the prompt, then the source itself, so
/// that an edited file is never answered with the fold of its former text.
pub open spec fn cache_key(path: Seq<char>, prompt: Seq<char>, source: Seq<char>) -> Seq<char> {
    key_head(path, prompt) + source
}

/// Caches folded code snippets to avoid reprocessing ASTs on high-frequency LLM runs
pub struct FoldEngine {
    cache: TextCache,
    foldable_kinds: Vec<(String, Vec<String>)>,
}

/// The text views of a kinds table.
pub open spec fn table_view(t: Seq<(String, Vec<String>)>) -> Seq<(Seq<char>, Seq<Seq<char>>)> {
    t.map_values(|e: (String, Vec<String>)| (e.0@, texts(e.1@)))
}

/// What a fold of `path` with `source` under `prompt` gives with no cache,
/// for the tree `tree` that parsing gave: without a tree, or for a language
/// with no foldable kinds, the source; otherwise the source folded with the
/// kinds of its language and the prompt's keywords.
pub open spec fn uncached_fold(
    path: Seq<char>,
    source: Seq<char>,
    prompt: Seq<char>,
    tree: Option<SyntaxNode>,
) -> Seq<char> {
    match tree {
        None => source,
        Some(t) => match kinds_lookup(default_fold_kinds(), language_of_path(path)) {
            None => source,
            Some(kinds) => folded_text(t, kinds, keyword_set(prompt), source),
        },
    }
}

/// What one fold of `path` with `source` under `prompt` does, for the tree
/// `tree` that parsing gave: the fold cached under the path, the prompt and the
/// very same source is returned as it is, and its
/// entry becomes the most recently used; without a tree the source comes
/// back and the cache is left as it was; otherwise the source is folded with
/// the kinds of its language and the prompt's keywords, and the result is
/// put in the cache (see `after_put`).
pub open spec fn fold_outcome(
    before: FoldEngine,
    after: FoldEngine,
    path: Seq<char>,
    source: Seq<char>,
    prompt: Seq<char>,
    tree: Option<SyntaxNode>,
    out: Seq<char>,
) -> bool {
    let key = cache_key(path, prompt, source);
    let unchanged = after.entries() == before.entries() && after.recency() == before.recency();
    if before.entries().contains_key(key) {
        &&& out == before.entries()[key]
        &&& after.entries() == before.entries()
        &&& after.recency() == to_front(before.recency(), key)
    } else {
        &&& out == uncached_fold(path, source, prompt, tree)
        &&& match tree {
            None => unchanged,
            Some(t) => match kinds_lookup(default_fold_kinds(), language_of_path(path)) {
                None => unchanged,
                Some(kinds) => {
                    (after.entries(), after.recency()) == after_put(
                        before.entries(),
                        before.recency(),
                        before.capacity(),
                        key,
                        out,
                    )
                },
            },
        }
    }
}

impl FoldEngine {
    /// The cached folds, by cache key.
    pub closed spec fn entries(&self) -> Map<Seq<char>, Seq<char>> {
        cache_entries(self.cache)
    }

    /// The number of folds the cache holds at most.
    pub closed spec fn capacity(&self) -> nat {
        cache_capacity(self.cache)
    }

    /// The cache keys from the most recently used to the least.
    pub closed spec fn recency(&self) -> Seq<Seq<char>> {
        cache_order(self.cache)
    }

    /// The foldable kinds, by language.
    pub closed spec fn kinds_table(&self) -> Seq<(Seq<char>, Seq<Seq<char>>)> {
        table_view(self.foldable_kinds@)
    }

    /// The engine's invariant: the standard kinds table, and a cache of 100
    /// whose recency order lists each cached key once.
    pub open spec fn wf(&self) -> bool {
        &&& self.kinds_table() == default_fold_kinds()
        &&& self.capacity() == 100
        &&& self.entries().len() <= self.capacity()
        &&& order_lists(self.entries(), self.recency())
    }

    fn language_entry(language: &str, kinds: &[&str]) -> (e: (String, Vec<String>))
        ensures
            e.0@ == language@,
            texts(e.1@) == kinds@.map_values(|k: &str| k@),
    {
        let mut v: Vec<String> = Vec::new();
        let mut i: usize = 0;
        while i < kinds.len()
            invariant
                i <= kinds.len(),
                texts(v@) == kinds@.take(i as int).map_values(|k: &str| k@),
            decreases kinds.len() - i,
        {
            let ghost before = v@;
            let item = string_from(kinds[i]);
            v.push(item);
            assert(v@ == before.push(item));
            assert(texts(v@) =~= texts(before).push(kinds@[i as int]@));
            assert(kinds@.take(i + 1) =~= kinds@.take(i as int).push(kinds@[i as int]));
            assert(texts(v@) =~= kinds@.take(i + 1).map_values(|k: &str| k@));
            i = i + 1;
        }
        assert(kinds@.take(i as int) =~= kinds@);
        (string_from(language), v)
    }

    /// An engine with the standard kinds table and an empty cache of 100.
    pub fn new() -> (e: Self)
        ensures
            e.wf(),
            e.entries().dom() == Set::<Seq<char>>::empty(),
    {
        let mut foldable: Vec<(String, Vec<String>)> = Vec::new();
        foldable.push(Self::language_entry("rust", &["function_item", "impl_item", "struct_item"]));
        foldable.push(Self::language_entry("python", &["function_definition", "class_definition"]));
        foldable.push(Self::language_entry("go", &["function_declaration", "method_declaration"]));
        foldable.push(
            Self::language_entry(
                "javascript",
                &["function_declaration", "class_declaration", "method_definition", "arrow_function"],
            ),
        );
        foldable.push(
            Self::language_entry(
                "typescript",
                &[
                    "function_declaration",
                    "class_declaration",
                    "method_definition",
                    "interface_declaration",
                    "arrow_function",
                ],
            ),
        );
        let e = FoldEngine { cache: new_text_cache(100), foldable_kinds: foldable };
        assert(e.entries().dom() =~= Set::<Seq<char>>::empty());
        assert(order_lists(e.entries(), e.recency()));
        assert(e.kinds_table() =~= default_fold_kinds()) by {
            assert(table_view(foldable@)[0].1 =~= default_fold_kinds()[0].1);
            assert(table_view(foldable@)[1].1 =~= default_fold_kinds()[1].1);
            assert(table_view(foldable@)[2].1 =~= default_fold_kinds()[2].1);
            assert(table_view(foldable@)[3].1 =~= default_fold_kinds()[3].1);
            assert(table_view(foldable@)[4].1 =~= default_fold_kinds()[4].1);
        }
        e
    }

    /// The language for a file extension (see `language_of`).
    fn language_for(ext: &str) -> (lang: &'static str)
        ensures
            lang@ == language_of(ext@),
    {
        if str_eq(ext, "rs") {
            "rust"
        } else if str_eq(ext, "py") {
            "python"
        } else if str_eq(ext, "go") {
            "go"
        } else if str_eq(ext, "js") {
            "javascript"
        } else if str_eq(ext, "ts") {
            "typescript"
        } else {
            "rust"
        }
    }

    /// The position in the kinds table of the first entry for `lang`.
    fn kinds_index(&self, lang: &str) -> (r: Option<usize>)
        ensures
            r matches Some(i) ==> i < self.foldable_kinds.len() && kinds_lookup(self.kinds_table(), lang@)
                == Some(self.kinds_table()[i as int].1),
            r is None ==> kinds_lookup(self.kinds_table(), lang@) is None,
    {
        let ghost t = self.kinds_table();
        let mut i: usize = 0;
        assert(t.skip(0) =~= t);
        while i < self.foldable_kinds.len()
            invariant
                i <= self.foldable_kinds.len(),
                t == self.kinds_table(),
                t.len() == self.foldable_kinds.len(),
                kinds_lookup(t, lang@) == kinds_lookup(t.skip(i as int), lang@),
            decreases self.foldable_kinds.len() - i,
        {
            assert(t.skip(i as int).drop_first() =~= t.skip(i + 1));
            assert(t[i as int].0 == self.foldable_kinds@[i as int].0@);
            if str_eq(self.foldable_kinds[i].0.as_str(), lang) {
                return Some(i);
            }
            i = i + 1;
        }
        None
    }

    /// The cache key for `source` at `path` under `prompt`.
    fn key_for(path: &str, prompt: &str, source: &str) -> (k: String)
        ensures
            k@ == cache_key(path@, prompt@, source@),
    {
        let mut key = string_from(path);
        push_str(&mut key, "_");
        push_decimal(&mut key, hash_prompt(prompt));
        push_str(&mut key, "_");
        push_str(&mut key, source);
        key
    }

    /// One fold of `path` with `source` under `prompt`, given the tree that
    /// parsing `source` gave; see `fold_outcome`.
    pub fn fold_parsed(&mut self, path: &str, source: &str, prompt: &str, tree: Option<SyntaxNode>) -> (out:
        String)
        requires
            old(self).wf(),
        ensures
            final(self).wf(),
            fold_outcome(*old(self), *final(self), path@, source@, prompt@, tree, out@),
    {
        let key = Self::key_for(path, prompt, source);
        match cache_get(&mut self.cache, key.as_str()) {
            Some(cached) => {
                proof {
                    lemma_to_front_lists(old(self).entries(), old(self).recency(), key@);
                }
                return cached;
            },
            None => {},
        }
        assert(!old(self).entries().contains_key(cache_key(path@, prompt@, source@)));
        assert(self.entries() == old(self).entries());
        assert(self.recency() == old(self).recency());
        let t = match tree {
            Some(t) => t,
            None => {
                let s = string_from(source);
                assert(fold_outcome(*old(self), *self, path@, source@, prompt@, tree, s@));
                return s;
            },
        };
        let ext = path_extension(path);
        proof {
            reveal_strlit("");
        }
        let lang = match &ext {
            Some(e) => {
                assert(path_extension_of(path@) == Some(e@));
                Self::language_for(e.as_str())
            },
            None => {
                assert(path_extension_of(path@) is None);
                assert(""@ =~= Seq::<char>::empty());
                Self::language_for("")
            },
        };
        assert(lang@ == language_of_path(path@));
        let idx = match self.kinds_index(lang) {
            Some(i) => i,
            None => {
                let s = string_from(source);
                assert(fold_outcome(*old(self), *self, path@, source@, prompt@, tree, s@));
                return s;
            },
        };
        let keywords = extract_keywords(prompt);
        let output = fold_tree(&t, &self.foldable_kinds[idx].1, &keywords, source);
        assert(texts(self.foldable_kinds@[idx as int].1@) == self.kinds_table()[idx as int].1);
        let stored_copy = string_from(output.as_str());
        proof {
            lemma_after_put_lists(self.entries(), self.recency(), self.capacity(), key@, output@);
        }
        cache_put(&mut self.cache, key, stored_copy);
        assert(fold_outcome(*old(self), *self, path@, source@, prompt@, tree, output@));
        output
    }

    /// Recursively folds block/AST nodes that do not contain prompt keywords
    pub fn fold_document(&mut self, path: &str, source: &str, prompt: &str, parser: &mut RustParser) -> (out:
        String)
        requires
            old(self).wf(),
        ensures
            final(self).wf(),
            final(parser).ready() == old(parser).ready(),
            fold_outcome(*old(self), *final(self), path@, source@, prompt@, old(parser).tree_of(source@), out@),
    {
        let key = Self::key_for(path, prompt, source);
        match cache_get(&mut self.cache, key.as_str()) {
            Some(cached) => {
                proof {
                    lemma_to_front_lists(old(self).entries(), old(self).recency(), key@);
                }
                return cached;
            },
            None => {},
        }
        let tree = parser.parse(source);
        self.fold_parsed(path, source, prompt, tree)
    }
}

/// Every extension maps to a language that the kinds table lists.
pub proof fn lemma_language_listed(path: Seq<char>)
    ensures
        kinds_lookup(default_fold_kinds(), language_of_path(path)) is Some,
{
    reveal_strlit("rust");
    reveal_strlit("python");
    reveal_strlit("go");
    reveal_strlit("javascript");
    reveal_strlit("typescript");
    reveal_with_fuel(kinds_lookup, 6);
    let t = default_fold_kinds();
    let t1 = t.drop_first();
    let t2 = t1.drop_first();
    let t3 = t2.drop_first();
    let t4 = t3.drop_first();
    assert(t1[0] == t[1] && t2[0] == t[2] && t3[0] == t[3] && t4[0] == t[4]);
    assert(t1.len() == 4 && t2.len() == 3 && t3.len() == 2 && t4.len() == 1);
    let lang = language_of_path(path);
    assert(lang == "rust"@ || lang == "python"@ || lang == "go"@ || lang == "javascript"@ || lang
        == "typescript"@);
}

/// Law: a fold is remembered for the same text. Once a file has been folded
/// under a prompt from a parsed tree (or its fold was cached already),
/// folding the same path with the same source under the same prompt again
/// gives the same text, without parsing.
pub proof fn law_fold_is_memoized(
    e0: FoldEngine,
    e1: FoldEngine,
    e2: FoldEngine,
    path: Seq<char>,
    prompt: Seq<char>,
    source: Seq<char>,
    tree1: Option<SyntaxNode>,
    tree2: Option<SyntaxNode>,
    out1: Seq<char>,
    out2: Seq<char>,
)
    requires
        e0.wf(),
        fold_outcome(e0, e1, path, source, prompt, tree1, out1),
        fold_outcome(e1, e2, path, source, prompt, tree2, out2),
        tree1 is Some || e0.entries().contains_key(cache_key(path, prompt, source)),
    ensures
        out2 == out1,
{
    lemma_language_listed(path);
}

/// Law: the cache follows edits. After a file is folded, folding it again
/// with another source under the same prompt is not answered from the cache
/// (unless that very source was cached before): the result is what the fold
/// of the new source gives with no cache.
pub proof fn law_fold_follows_edits(
    e0: FoldEngine,
    e1: FoldEngine,
    e2: FoldEngine,
    path: Seq<char>,
    prompt: Seq<char>,
    source1: Seq<char>,
    source2: Seq<char>,
    tree1: Option<SyntaxNode>,
    tree2: Option<SyntaxNode>,
    out1: Seq<char>,
    out2: Seq<char>,
)
    requires
        e0.wf(),
        source1 != source2,
        !e0.entries().contains_key(cache_key(path, prompt, source2)),
        fold_outcome(e0, e1, path, source1, prompt, tree1, out1),
        fold_outcome(e1, e2, path, source2, prompt, tree2, out2),
    ensures
        out2 == uncached_fold(path, source2, prompt, tree2),
{
    let h = key_head(path, prompt);
    let k1 = cache_key(path, prompt, source1);
    let k2 = cache_key(path, prompt, source2);
    assert(k1 != k2) by {
        if k1 == k2 {
            assert(k1.skip(h.len() as int) =~= source1);
            assert(k2.skip(h.len() as int) =~= source2);
        }
    }
    assert(!e1.entries().contains_key(k2)) by {
        if !e0.entries().contains_key(k1) {
            if e0.entries().len() >= e0.capacity() {
                assert(e1.entries() == e0.entries().remove(e0.recency().last()).insert(k1, out1)
                    || e1.entries() == e0.entries());
            }
        }
    }
}

} // verus!
