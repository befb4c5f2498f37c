//! Streaming extraction of `<tool_call name="...">{json}</tool_call>` tags
//! from model output that arrives in chunks.
use vstd::prelude::*;
use crate::json::{json_is_valid, json_parses};
use crate::text::{
    lemma_find_in_extend, lemma_find_in_first, lemma_rfind_in_last, occurs_at,
    chars_of, copy_range, find_from, find_in, lemma_find_in_some, lemma_rfind_in_some, push_range,
    push_str, rfind_from, rfind_in, string_from, string_of_range, contains_seq,
};

verus! {

/// A tool invocation requested by a model: the tool's name and its
/// parameters as a JSON text.
pub struct ToolCall {
    pub name: String,
    pub params: String,
}

impl View for ToolCall {
    type V = (Seq<char>, Seq<char>);

    open spec fn view(&self) -> (Seq<char>, Seq<char>) {
        (self.name@, self.params@)
    }
}

impl ToolCall {
    /// A copy of the call.
    pub fn copy(&self) -> (c: ToolCall)
        ensures
            c@ == self@,
    {
        ToolCall { name: string_from(self.name.as_str()), params: string_from(self.params.as_str()) }
    }
}

/// The views of a sequence of tool calls.
pub open spec fn tool_views(ts: Seq<ToolCall>) -> Seq<(Seq<char>, Seq<char>)> {
    ts.map_values(|t: ToolCall| t@)
}

/// `<tool_call`
pub open spec fn open_tag() -> Seq<char> {
    seq!['<', 't', 'o', 'o', 'l', '_', 'c', 'a', 'l', 'l']
}

/// `</tool_call>`
pub open spec fn close_tag() -> Seq<char> {
    seq!['<', '/', 't', 'o', 'o', 'l', '_', 'c', 'a', 'l', 'l', '>']
}

/// `name="`
pub open spec fn name_attr() -> Seq<char> {
    seq!['n', 'a', 'm', 'e', '=', '"']
}

pub open spec fn one_char(c: char) -> Seq<char> {
    seq![c]
}

fn open_tag_chars() -> (v: Vec<char>)
    ensures
        v@ == open_tag(),
{
    let v = vec!['<', 't', 'o', 'o', 'l', '_', 'c', 'a', 'l', 'l'];
    assert(v@ =~= open_tag());
    v
}

fn close_tag_chars() -> (v: Vec<char>)
    ensures
        v@ == close_tag(),
{
    let v = vec!['<', '/', 't', 'o', 'o', 'l', '_', 'c', 'a', 'l', 'l', '>'];
    assert(v@ =~= close_tag());
    v
}

fn name_attr_chars() -> (v: Vec<char>)
    ensures
        v@ == name_attr(),
{
    let v = vec!['n', 'a', 'm', 'e', '=', '"'];
    assert(v@ =~= name_attr());
    v
}

fn one_char_vec(c: char) -> (v: Vec<char>)
    ensures
        v@ == one_char(c),
{
    let v = vec![c];
    assert(v@ =~= one_char(c));
    v
}

/// What a complete tag yields: the name between `name="` and the next `"`,
/// and the JSON text between the first `>` and the last `</tool_call>`,
/// provided that text is non-empty and parses as JSON.
pub open spec fn parse_tag_spec(tag: Seq<char>) -> Option<(Seq<char>, Seq<char>)> {
    match find_in(tag, name_attr()) {
        None => None,
        Some(a) => {
            let ni = a + 6;
            match find_in(tag.skip(ni), one_char('"')) {
                None => None,
                Some(ne) => {
                    let name = tag.subrange(ni, ni + ne);
                    match find_in(tag, one_char('>')) {
                        None => None,
                        Some(g) => {
                            let cb = g + 1;
                            match rfind_in(tag, close_tag()) {
                                None => None,
                                Some(je) => if cb < je && json_parses(tag.subrange(cb, je)) {
                                    Some((name, tag.subrange(cb, je)))
                                } else {
                                    None
                                },
                            }
                        },
                    }
                },
            }
        },
    }
}

/// The complete tag `<tool_call name="name">json</tool_call>`.
pub open spec fn tool_tag(name: Seq<char>, json: Seq<char>) -> Seq<char> {
    open_tag() + seq![' '] + name_attr() + name + seq!['"', '>'] + json + close_tag()
}

/// Law: a well-formed tag yields its call. For a name holding no `"` and no
/// `>`, and any non-empty JSON text, whatever characters it holds (`>`
/// included), the tag `<tool_call name="name">json</tool_call>` yields the
/// call `(name, json)`: the JSON runs from the end of the opening tag to the
/// closing tag.
#[verifier::rlimit(80)]
pub proof fn law_tag_yields_its_call(name: Seq<char>, json: Seq<char>)
    requires
        forall|i: int| 0 <= i < name.len() ==> name[i] != '"' && name[i] != '>',
        json.len() > 0,
        json_parses(json),
    ensures
        parse_tag_spec(tool_tag(name, json)) == Some((name, json)),
{
    let t = tool_tag(name, json);
    let nl = name.len() as int;
    let jl = json.len() as int;
    let len = t.len() as int;
    assert(len == 17 + nl + 2 + jl + 12);
    // the prefix `<tool_call name="`
    assert forall|p: int| 0 <= p < 17 implies t[p] == (open_tag() + seq![' '] + name_attr())[p] by {}
    assert forall|p: int| 0 <= p < nl implies t[17 + p] == name[p] by {}
    assert(t[17 + nl] == '"');
    assert(t[18 + nl] == '>');
    assert forall|p: int| 0 <= p < jl implies t[19 + nl + p] == json[p] by {}
    assert forall|p: int| 0 <= p < 12 implies t[19 + nl + jl + p] == close_tag()[p] by {}
    // `name="` first occurs at 11
    assert(t.subrange(11, 17) =~= name_attr());
    assert forall|p: int| 0 <= p < 11 implies !occurs_at(t, name_attr(), p) by {
        if occurs_at(t, name_attr(), p) {
            assert(t.subrange(p, p + 6)[0] == t[p]);
        }
    }
    lemma_find_in_first(t, name_attr(), 11);
    // the next `"` ends the name
    let rest = t.skip(17);
    assert(rest.subrange(nl, nl + 1) =~= one_char('"'));
    assert forall|p: int| 0 <= p < nl implies !occurs_at(rest, one_char('"'), p) by {
        if occurs_at(rest, one_char('"'), p) {
            assert(rest.subrange(p, p + 1)[0] == rest[p]);
            assert(rest[p] == name[p]);
        }
    }
    lemma_find_in_first(rest, one_char('"'), nl);
    assert(t.subrange(17, 17 + nl) =~= name);
    // the first `>` closes the opening tag
    assert(t.subrange(18 + nl, 19 + nl) =~= one_char('>'));
    assert forall|p: int| 0 <= p < 18 + nl implies !occurs_at(t, one_char('>'), p) by {
        if occurs_at(t, one_char('>'), p) {
            assert(t.subrange(p, p + 1)[0] == t[p]);
            if p >= 17 && p < 17 + nl {
                assert(t[p] == name[p - 17]);
            }
        }
    }
    lemma_find_in_first(t, one_char('>'), 18 + nl);
    // the last `</tool_call>` ends the tag
    let je = 19 + nl + jl;
    assert(t.subrange(je, je + 12) =~= close_tag());
    assert forall|p: int| je < p implies !occurs_at(t, close_tag(), p) by {}
    lemma_rfind_in_last(t, close_tag(), je);
    assert(t.subrange(19 + nl, je) =~= json);
}

/// The view of an optional tool call.
pub open spec fn opt_view(o: Option<ToolCall>) -> Option<(Seq<char>, Seq<char>)> {
    match o {
        Some(t) => Some(t@),
        None => None,
    }
}

pub open spec fn opt_seq<A>(o: Option<A>) -> Seq<A> {
    match o {
        Some(x) => seq![x],
        None => seq![],
    }
}

/// The tags of a buffer in which a tag starts: the text before each
/// complete tag is released and its tool call collected; an incomplete tag
/// stays buffered from its start; after the last complete tag, the rest
/// stays buffered. A complete tag runs from the first `<tool_call` to the
/// first `</tool_call>` after it.
#[verifier::opaque]
pub open spec fn drain_tags(buf: Seq<char>) -> (Seq<char>, Seq<(Seq<char>, Seq<char>)>, Seq<char>)
    decreases buf.len(),
{
    match find_in(buf, open_tag()) {
        Some(s) => match find_in(buf.skip(s), close_tag()) {
            Some(e) => {
                let stop = s + e + 12;
                if 0 <= s && 0 < stop <= buf.len() {
                    let rest = drain_tags(buf.skip(stop));
                    (
                        buf.take(s) + rest.0,
                        opt_seq(parse_tag_spec(buf.subrange(s, stop))) + rest.1,
                        rest.2,
                    )
                } else {
                    (seq![], seq![], buf)
                }
            },
            None => (buf.take(s), seq![], buf.skip(s)),
        },
        None => (seq![], seq![], buf),
    }
}

/// A buffer in which no tag starts: everything before its last `<` is
/// released and the rest stays buffered; with no `<`, all is released.
pub open spec fn flush(buf: Seq<char>) -> (Seq<char>, Seq<(Seq<char>, Seq<char>)>, Seq<char>) {
    match rfind_in(buf, one_char('<')) {
        None => (buf, seq![], seq![]),
        Some(l) => (buf.take(l), seq![], buf.skip(l)),
    }
}

/// The result of scanning a buffer: the plain text that is released, the
/// tool calls of the complete tags, and what stays buffered.
pub open spec fn drain(buf: Seq<char>) -> (Seq<char>, Seq<(Seq<char>, Seq<char>)>, Seq<char>) {
    match find_in(buf, open_tag()) {
        Some(_) => drain_tags(buf),
        None => flush(buf),
    }
}

/// The text of a stream outside its complete tags, and the tool calls of
/// those tags, in order.
#[verifier::opaque]
pub open spec fn strip(buf: Seq<char>) -> (Seq<char>, Seq<(Seq<char>, Seq<char>)>)
    decreases buf.len(),
{
    match find_in(buf, open_tag()) {
        Some(s) => match find_in(buf.skip(s), close_tag()) {
            Some(e) => {
                let stop = s + e + 12;
                if 0 <= s && 0 < stop <= buf.len() {
                    let rest = strip(buf.skip(stop));
                    (buf.take(s) + rest.0, opt_seq(parse_tag_spec(buf.subrange(s, stop))) + rest.1)
                } else {
                    (buf, seq![])
                }
            },
            None => (buf, seq![]),
        },
        None => (buf, seq![]),
    }
}

proof fn lemma_tags_complete(buf: Seq<char>, s: int, e: int)
    requires
        find_in(buf, open_tag()) == Some(s),
        find_in(buf.skip(s), close_tag()) == Some(e),
    ensures
        0 <= s,
        0 <= e,
        s + e + 12 <= buf.len(),
        drain_tags(buf).0 == buf.take(s) + drain_tags(buf.skip(s + e + 12)).0,
        drain_tags(buf).1 == opt_seq(parse_tag_spec(buf.subrange(s, s + e + 12))) + drain_tags(
            buf.skip(s + e + 12),
        ).1,
        drain_tags(buf).2 == drain_tags(buf.skip(s + e + 12)).2,
        strip(buf).0 == buf.take(s) + strip(buf.skip(s + e + 12)).0,
        strip(buf).1 == opt_seq(parse_tag_spec(buf.subrange(s, s + e + 12))) + strip(
            buf.skip(s + e + 12),
        ).1,
{
    reveal(drain_tags);
    reveal(strip);
    lemma_find_in_some(buf, open_tag());
    lemma_find_in_some(buf.skip(s), close_tag());
}

proof fn lemma_tags_partial(buf: Seq<char>, s: int)
    requires
        find_in(buf, open_tag()) == Some(s),
        find_in(buf.skip(s), close_tag()) is None,
    ensures
        0 <= s <= buf.len(),
        drain_tags(buf) == (buf.take(s), Seq::<(Seq<char>, Seq<char>)>::empty(), buf.skip(s)),
        strip(buf) == (buf, Seq::<(Seq<char>, Seq<char>)>::empty()),
{
    reveal(drain_tags);
    reveal(strip);
    lemma_find_in_some(buf, open_tag());
}

proof fn lemma_tags_none(buf: Seq<char>)
    requires
        find_in(buf, open_tag()) is None,
    ensures
        drain_tags(buf) == (Seq::<char>::empty(), Seq::<(Seq<char>, Seq<char>)>::empty(), buf),
        strip(buf) == (buf, Seq::<(Seq<char>, Seq<char>)>::empty()),
{
    reveal(drain_tags);
    reveal(strip);
}

/// Stripping text in which no tag starts, and the text after it, keeps that
/// text as it is.
#[verifier::rlimit(40)]
proof fn lemma_strip_prefix(p: Seq<char>, rest: Seq<char>)
    requires
        forall|j: int| 0 <= j < p.len() ==> !occurs_at(p + rest, open_tag(), j),
    ensures
        strip(p + rest).0 == p + strip(rest).0,
        strip(p + rest).1 == strip(rest).1,
{
    let t = p + rest;
    let k = p.len() as int;
    assert forall|j: int, q: Seq<char>| 0 <= j && occurs_at(rest, q, j) implies occurs_at(t, q, k + j) by {
        assert(t.subrange(k + j, k + j + q.len()) =~= rest.subrange(j, j + q.len()));
    }
    assert forall|j: int, q: Seq<char>| k <= j && occurs_at(t, q, j) implies occurs_at(rest, q, j - k) by {
        assert(t.subrange(j, j + q.len()) =~= rest.subrange(j - k, j - k + q.len()));
    }
    match find_in(rest, open_tag()) {
        Some(s) => {
            lemma_find_in_some(rest, open_tag());
            assert(occurs_at(t, open_tag(), k + s));
            assert forall|j: int| 0 <= j < k + s implies !occurs_at(t, open_tag(), j) by {
                if k <= j {
                    if occurs_at(t, open_tag(), j) {
                        assert(occurs_at(rest, open_tag(), j - k));
                    }
                }
            }
            lemma_find_in_first(t, open_tag(), k + s);
            assert(t.skip(k + s) =~= rest.skip(s));
            match find_in(rest.skip(s), close_tag()) {
                Some(e) => {
                    lemma_tags_complete(rest, s, e);
                    lemma_tags_complete(t, k + s, e);
                    assert(t.skip(k + s + e + 12) =~= rest.skip(s + e + 12));
                    assert(t.subrange(k + s, k + s + e + 12) =~= rest.subrange(s, s + e + 12));
                    assert(t.take(k + s) + strip(rest.skip(s + e + 12)).0 =~= p + (rest.take(s)
                        + strip(rest.skip(s + e + 12)).0));
                },
                None => {
                    lemma_tags_partial(rest, s);
                    lemma_tags_partial(t, k + s);
                },
            }
        },
        None => {
            assert forall|j: int| !occurs_at(t, open_tag(), j) by {
                if k <= j {
                    if occurs_at(t, open_tag(), j) {
                        assert(occurs_at(rest, open_tag(), j - k));
                    }
                }
            }
            lemma_tags_none(rest);
            lemma_tags_none(t);
        },
    }
}

/// What scanning releases and keeps back, together, is the stream's text
/// outside complete tags; its tool calls are those of the complete tags.
proof fn lemma_drain_tags_strip(buf: Seq<char>)
    ensures
        drain_tags(buf).0 + drain_tags(buf).2 == strip(buf).0,
        drain_tags(buf).1 == strip(buf).1,
    decreases buf.len(),
{
    match find_in(buf, open_tag()) {
        Some(s) => match find_in(buf.skip(s), close_tag()) {
            Some(e) => {
                lemma_tags_complete(buf, s, e);
                lemma_drain_tags_strip(buf.skip(s + e + 12));
                assert(drain_tags(buf).0 + drain_tags(buf).2 =~= buf.take(s) + (drain_tags(
                    buf.skip(s + e + 12),
                ).0 + drain_tags(buf.skip(s + e + 12)).2));
            },
            None => {
                lemma_tags_partial(buf, s);
                assert(buf.take(s) + buf.skip(s) =~= buf);
            },
        },
        None => {
            lemma_tags_none(buf);
            assert(Seq::<char>::empty() + buf =~= buf);
        },
    }
}

proof fn lemma_drain_strip(buf: Seq<char>)
    ensures
        drain(buf).0 + drain(buf).2 == strip(buf).0,
        drain(buf).1 == strip(buf).1,
{
    match find_in(buf, open_tag()) {
        Some(_) => lemma_drain_tags_strip(buf),
        None => {
            lemma_tags_none(buf);
            match rfind_in(buf, one_char('<')) {
                Some(l) => {
                    lemma_rfind_in_some(buf, one_char('<'));
                    assert(buf.take(l) + buf.skip(l) =~= buf);
                },
                None => {
                    assert(buf + Seq::<char>::empty() =~= buf);
                },
            }
        },
    }
}

/// Stripping a stream is stripping what scanning a tag-holding buffer
/// released, then what it kept back followed by the rest of the stream.
proof fn lemma_tags_extend(buf: Seq<char>, x: Seq<char>)
    ensures
        strip(buf + x).0 == drain_tags(buf).0 + strip(drain_tags(buf).2 + x).0,
        strip(buf + x).1 == drain_tags(buf).1 + strip(drain_tags(buf).2 + x).1,
    decreases buf.len(),
{
    let t = buf + x;
    match find_in(buf, open_tag()) {
        Some(s) => {
            lemma_find_in_some(buf, open_tag());
            lemma_find_in_extend(buf, open_tag(), x);
            assert(t.skip(s) =~= buf.skip(s) + x);
            match find_in(buf.skip(s), close_tag()) {
                Some(e) => {
                    lemma_tags_complete(buf, s, e);
                    lemma_find_in_extend(buf.skip(s), close_tag(), x);
                    lemma_tags_complete(t, s, e);
                    let stop = s + e + 12;
                    assert(t.skip(stop) =~= buf.skip(stop) + x);
                    assert(t.subrange(s, stop) =~= buf.subrange(s, stop));
                    assert(t.take(s) =~= buf.take(s));
                    lemma_tags_extend(buf.skip(stop), x);
                    assert(strip(t).0 =~= drain_tags(buf).0 + strip(drain_tags(buf).2 + x).0);
                    assert(strip(t).1 =~= drain_tags(buf).1 + strip(drain_tags(buf).2 + x).1);
                },
                None => {
                    lemma_tags_partial(buf, s);
                    let p = buf.take(s);
                    let rest = buf.skip(s) + x;
                    assert(t =~= p + rest);
                    assert forall|j: int| 0 <= j < p.len() implies !occurs_at(p + rest, open_tag(), j) by {
                        if occurs_at(t, open_tag(), j) {
                            assert(t.subrange(j, j + 10) =~= buf.subrange(j, j + 10));
                            assert(occurs_at(buf, open_tag(), j));
                        }
                    }
                    lemma_strip_prefix(p, rest);
                    assert(Seq::<(Seq<char>, Seq<char>)>::empty() + strip(rest).1 =~= strip(rest).1);
                },
            }
        },
        None => {
            lemma_tags_none(buf);
            assert(Seq::<char>::empty() + strip(t).0 =~= strip(t).0);
            assert(Seq::<(Seq<char>, Seq<char>)>::empty() + strip(t).1 =~= strip(t).1);
        },
    }
}

/// Stripping a stream is stripping what flushing a tag-free buffer
/// released, then what it kept back followed by the rest of the stream.
proof fn lemma_flush_extend(buf: Seq<char>, x: Seq<char>)
    requires
        find_in(buf, open_tag()) is None,
    ensures
        strip(buf + x).0 == flush(buf).0 + strip(flush(buf).2 + x).0,
        strip(buf + x).1 == flush(buf).1 + strip(flush(buf).2 + x).1,
{
    let t = buf + x;
    let lt = one_char('<');
    match rfind_in(buf, lt) {
        Some(l) => {
            lemma_rfind_in_some(buf, lt);
            let p = buf.take(l);
            let rest = buf.skip(l) + x;
            assert(t =~= p + rest);
            assert(buf.subrange(l, l + 1)[0] == buf[l]);
            assert forall|j: int| 0 <= j < p.len() implies !occurs_at(p + rest, open_tag(), j) by {
                if occurs_at(t, open_tag(), j) {
                    if j + 10 <= buf.len() {
                        assert(t.subrange(j, j + 10) =~= buf.subrange(j, j + 10));
                        assert(occurs_at(buf, open_tag(), j));
                    } else {
                        assert(t.subrange(j, j + 10)[l - j] == t[l]);
                    }
                }
            }
            lemma_strip_prefix(p, rest);
            assert(flush(buf).2 + x =~= rest);
            assert(Seq::<(Seq<char>, Seq<char>)>::empty() + strip(rest).1 =~= strip(rest).1);
        },
        None => {
            assert forall|j: int| 0 <= j < buf.len() implies buf[j] != '<' by {
                if buf[j] == '<' {
                    assert(buf.subrange(j, j + 1) =~= lt);
                    assert(occurs_at(buf, lt, j));
                }
            }
            assert forall|j: int| 0 <= j < buf.len() implies !occurs_at(buf + x, open_tag(), j) by {
                if occurs_at(t, open_tag(), j) {
                    assert(t.subrange(j, j + 10)[0] == t[j]);
                }
            }
            lemma_strip_prefix(buf, x);
            assert(flush(buf).2 + x =~= x);
            assert(Seq::<(Seq<char>, Seq<char>)>::empty() + strip(x).1 =~= strip(x).1);
        },
    }
}

/// Law: splitting a stream into chunks changes no tool call and no text.
/// Feeding `a` and then `b` to a parser that holds `pending` gives, in
/// total, the same tool calls as feeding `a + b` at once, and the text
/// released in total, followed by the text kept back at the end, is the
/// same too (it is the stream's text outside complete tags). Where the two
/// differ, it is only in how much of that text is still held back.
pub proof fn law_chunking_is_invisible(pending: Seq<char>, a: Seq<char>, b: Seq<char>)
    ensures
        ({
            let first = drain(pending + a);
            let second = drain(first.2 + b);
            let whole = drain(pending + (a + b));
            &&& first.1 + second.1 == whole.1
            &&& first.0 + second.0 + second.2 == whole.0 + whole.2
            &&& whole.0 + whole.2 == strip(pending + (a + b)).0
        }),
{
    let buf = pending + a;
    assert(buf + b =~= pending + (a + b));
    match find_in(buf, open_tag()) {
        Some(_) => lemma_tags_extend(buf, b),
        None => {
            lemma_tags_none(buf);
            lemma_flush_extend(buf, b);
        },
    }
    lemma_drain_strip(drain(buf).2 + b);
    lemma_drain_strip(buf + b);
    assert(drain(buf).0 + drain(drain(buf).2 + b).0 + drain(drain(buf).2 + b).2 =~= drain(buf).0
        + (drain(drain(buf).2 + b).0 + drain(drain(buf).2 + b).2));
}

/// The chunks of a stream put together, in order.
pub open spec fn joined(chunks: Seq<Seq<char>>) -> Seq<char>
    decreases chunks.len(),
{
    if chunks.len() == 0 {
        seq![]
    } else {
        chunks[0] + joined(chunks.drop_first())
    }
}

/// What consecutive pushes of `chunks` give, push by push, to a parser that
/// holds `pending` (see `StreamingParser::push`): each push's released text,
/// its tool calls, and what the parser holds afterwards.
pub open spec fn push_steps(pending: Seq<char>, chunks: Seq<Seq<char>>) -> Seq<
    (Seq<char>, Seq<(Seq<char>, Seq<char>)>, Seq<char>),
>
    decreases chunks.len(),
{
    if chunks.len() == 0 {
        seq![]
    } else {
        let d = drain(pending + chunks[0]);
        seq![d] + push_steps(d.2, chunks.drop_first())
    }
}

/// The totals of consecutive pushes of `chunks` to a parser that holds
/// `pending`: all released text, all tool calls, and what it holds at the
/// end.
pub open spec fn stream_run(pending: Seq<char>, chunks: Seq<Seq<char>>) -> (
    Seq<char>,
    Seq<(Seq<char>, Seq<char>)>,
    Seq<char>,
)
    decreases chunks.len(),
{
    if chunks.len() == 0 {
        (seq![], seq![], pending)
    } else {
        let d = drain(pending + chunks[0]);
        let r = stream_run(d.2, chunks.drop_first());
        (d.0 + r.0, d.1 + r.1, r.2)
    }
}

/// Over at least one push, the released text followed by what is held is the
/// stream's text outside its complete tags, and the tool calls are those of
/// its complete tags.
proof fn lemma_stream_run_strip(pending: Seq<char>, chunks: Seq<Seq<char>>)
    requires
        chunks.len() > 0,
    ensures
        stream_run(pending, chunks).0 + stream_run(pending, chunks).2 == strip(
            pending + joined(chunks),
        ).0,
        stream_run(pending, chunks).1 == strip(pending + joined(chunks)).1,
    decreases chunks.len(),
{
    let c = chunks[0];
    let rest = chunks.drop_first();
    let d = drain(pending + c);
    if rest.len() == 0 {
        assert(joined(rest) =~= Seq::<char>::empty());
        assert(joined(chunks) =~= c);
        lemma_drain_strip(pending + c);
        assert(stream_run(d.2, rest) == (Seq::<char>::empty(), Seq::<(Seq<char>, Seq<char>)>::empty(), d.2));
        assert(d.0 + Seq::<char>::empty() =~= d.0);
        assert(d.1 + Seq::<(Seq<char>, Seq<char>)>::empty() =~= d.1);
    } else {
        let j = joined(rest);
        lemma_stream_run_strip(d.2, rest);
        law_chunking_is_invisible(pending, c, j);
        lemma_drain_strip(d.2 + j);
        lemma_drain_strip(pending + (c + j));
        let r = stream_run(d.2, rest);
        let second = drain(d.2 + j);
        assert(joined(chunks) == c + j);
        assert(d.0 + r.0 + r.2 =~= d.0 + (second.0 + second.2));
        assert(d.0 + (second.0 + second.2) =~= d.0 + second.0 + second.2);
    }
}

/// Law: the text released over any number of pushes, from a new parser, is
/// a prefix of the stream with its complete tags cut out; text is never
/// repeated, reordered or made up. What is still held at the end completes
/// it.
pub proof fn law_stream_text_is_prefix(chunks: Seq<Seq<char>>)
    ensures
        ({
            let run = stream_run(seq![], chunks);
            let clean = strip(joined(chunks)).0;
            &&& run.0.len() <= clean.len()
            &&& clean.take(run.0.len() as int) == run.0
            &&& run.0 + run.2 == clean
        }),
{
    if chunks.len() == 0 {
        reveal(strip);
        assert(!(exists|i: int| occurs_at(Seq::<char>::empty(), open_tag(), i)));
    } else {
        lemma_stream_run_strip(seq![], chunks);
        assert(Seq::<char>::empty() + joined(chunks) =~= joined(chunks));
    }
    let run = stream_run(seq![], chunks);
    let clean = strip(joined(chunks)).0;
    assert(clean.take(run.0.len() as int) =~= run.0);
}

/// Law: the tool calls of any number of pushes, from a new parser, are those
/// of the stream's complete tags, in order: one for each tag that names a
/// tool and whose body is JSON, none for any other tag.
pub proof fn law_stream_tools_are_the_tags(chunks: Seq<Seq<char>>)
    ensures
        stream_run(seq![], chunks).1 == strip(joined(chunks)).1,
{
    if chunks.len() == 0 {
        reveal(strip);
        assert(!(exists|i: int| occurs_at(Seq::<char>::empty(), open_tag(), i)));
    } else {
        lemma_stream_run_strip(seq![], chunks);
        assert(Seq::<char>::empty() + joined(chunks) =~= joined(chunks));
    }
}

/// Law: text that cannot start a tag passes through at once. Pushing chunks
/// that hold no `<`, one after another, to a new parser releases each chunk
/// whole when it is pushed, with no tool call and nothing held.
pub proof fn law_plain_chunks_pass_through(chunks: Seq<Seq<char>>)
    requires
        forall|i: int, j: int| 0 <= i < chunks.len() && 0 <= j < chunks[i].len() ==> chunks[i][j] != '<',
    ensures
        push_steps(seq![], chunks).len() == chunks.len(),
        forall|i: int|
            0 <= i < chunks.len() ==> #[trigger] push_steps(seq![], chunks)[i] == (
                chunks[i],
                Seq::<(Seq<char>, Seq<char>)>::empty(),
                Seq::<char>::empty(),
            ),
    decreases chunks.len(),
{
    if chunks.len() > 0 {
        let c = chunks[0];
        let rest = chunks.drop_first();
        assert(Seq::<char>::empty() + c =~= c);
        assert(!(exists|k: int| occurs_at(c, open_tag(), k))) by {
            if exists|k: int| occurs_at(c, open_tag(), k) {
                let k = choose|k: int| occurs_at(c, open_tag(), k);
                assert(c.subrange(k, k + 10)[0] == c[k]);
                assert(chunks[0][k] == '<');
            }
        }
        assert(!(exists|k: int| occurs_at(c, one_char('<'), k))) by {
            if exists|k: int| occurs_at(c, one_char('<'), k) {
                let k = choose|k: int| occurs_at(c, one_char('<'), k);
                assert(c.subrange(k, k + 1)[0] == c[k]);
                assert(chunks[0][k] == '<');
            }
        }
        assert(drain(c) == (c, Seq::<(Seq<char>, Seq<char>)>::empty(), Seq::<char>::empty()));
        law_plain_chunks_pass_through(rest);
        assert forall|i: int| 0 <= i < chunks.len() implies #[trigger] push_steps(seq![], chunks)[i] == (
            chunks[i],
            Seq::<(Seq<char>, Seq<char>)>::empty(),
            Seq::<char>::empty(),
        ) by {
            if i > 0 {
                assert(push_steps(seq![], chunks)[i] == push_steps(seq![], rest)[i - 1]);
                assert(rest[i - 1] == chunks[i]);
            }
        }
    }
}

/// `</tool_call>` holds no `"`, and `<` only at its start.
proof fn lemma_close_tag_chars()
    ensures
        forall|q: int| 0 <= q < 12 ==> #[trigger] close_tag()[q] != '"',
        forall|q: int| 0 < q < 12 ==> #[trigger] close_tag()[q] != '<',
{
    let c = close_tag();
    assert forall|q: int| 0 <= q < 12 implies #[trigger] c[q] != '"' && (q > 0 ==> c[q] != '<') by {
        if q == 0 {
        } else if q == 1 {
        } else if q == 2 {
        } else if q == 3 {
        } else if q == 4 {
        } else if q == 5 {
        } else if q == 6 {
        } else if q == 7 {
        } else if q == 8 {
        } else if q == 9 {
        } else if q == 10 {
        } else {
        }
    }
}

/// `<tool_call name="` holds no `>`, and `<` only at its start.
proof fn lemma_tag_head_chars()
    ensures
        forall|q: int| 0 <= q < 17 ==> #[trigger] (open_tag() + seq![' '] + name_attr())[q] != '>',
        (open_tag() + seq![' '] + name_attr())[0] == '<',
        (open_tag() + seq![' '] + name_attr())[1] == 't',
        forall|q: int| 0 < q < 17 ==> #[trigger] (open_tag() + seq![' '] + name_attr())[q] != '<',
{
    let h = open_tag() + seq![' '] + name_attr();
    assert forall|q: int| 0 <= q < 17 implies #[trigger] h[q] != '>' && (q > 0 ==> h[q] != '<') by {
        if q < 10 {
            assert(h[q] == open_tag()[q]);
            if q == 0 {
            } else if q == 1 {
            } else if q == 2 {
            } else if q == 3 {
            } else if q == 4 {
            } else if q == 5 {
            } else if q == 6 {
            } else if q == 7 {
            } else if q == 8 {
            } else {
            }
        } else if q == 10 {
        } else {
            assert(h[q] == name_attr()[q - 11]);
            if q == 11 {
            } else if q == 12 {
            } else if q == 13 {
            } else if q == 14 {
            } else if q == 15 {
            } else {
            }
        }
    }
}

/// In a well-formed tag whose JSON holds no `</tool_call>`, the first
/// `</tool_call>` is the one that ends it.
#[verifier::rlimit(40)]
proof fn lemma_tag_closes_at_end(name: Seq<char>, json: Seq<char>)
    requires
        forall|i: int| 0 <= i < name.len() ==> name[i] != '"' && name[i] != '>',
        !contains_seq(json, close_tag()),
    ensures
        find_in(tool_tag(name, json), close_tag()) == Some((19 + name.len() + json.len()) as int),
{
    let t = tool_tag(name, json);
    let nl = name.len() as int;
    let jl = json.len() as int;
    let h = open_tag() + seq![' '] + name_attr();
    let a = 17 + nl;
    let je = 19 + nl + jl;
    lemma_close_tag_chars();
    lemma_tag_head_chars();
    assert(t.len() == je + 12);
    assert forall|p: int| 0 <= p < 17 implies t[p] == h[p] by {}
    assert forall|p: int| 0 <= p < nl implies t[17 + p] == name[p] by {}
    assert(t[a] == '"');
    assert(t[a + 1] == '>');
    assert forall|p: int| 0 <= p < jl implies t[19 + nl + p] == json[p] by {}
    assert(t[je] == '<');
    assert(t.subrange(je, je + 12) =~= close_tag());
    assert forall|p: int| 0 <= p < je implies !occurs_at(t, close_tag(), p) by {
        if occurs_at(t, close_tag(), p) {
            let w = t.subrange(p, p + 12);
            assert(w[0] == t[p]);
            assert(w[11] == t[p + 11]);
            if p <= a && a < p + 12 {
                assert(w[a - p] == t[a]);
                assert(close_tag()[a - p] != '"');
            } else if p + 12 <= a {
                if p + 11 < 17 {
                    assert(h[p + 11] != '>');
                } else {
                    assert(t[p + 11] == name[p + 11 - 17]);
                }
            } else if p == a + 1 {
                assert(t[p] == '>');
            } else if p + 12 <= je {
                let q = p - (19 + nl);
                assert(json.subrange(q, q + 12) =~= w);
                assert(occurs_at(json, close_tag(), q));
            } else {
                assert(w[je - p] == t[je]);
                assert(close_tag()[je - p] != '<');
            }
        }
    }
    lemma_find_in_first(t, close_tag(), je);
}

/// Law: a well-formed tag pushed to a new parser yields exactly its call.
/// For a name holding no `"` and no `>`, and a non-empty JSON text that holds
/// no `</tool_call>` (any other characters, `>` included, are fine), pushing
/// `<tool_call name="name">json</tool_call>` to a parser that holds nothing
/// releases no text, yields the one call `(name, json)`, and holds nothing.
#[verifier::rlimit(80)]
pub proof fn law_pushed_tag_yields_one_call(name: Seq<char>, json: Seq<char>)
    requires
        forall|i: int| 0 <= i < name.len() ==> name[i] != '"' && name[i] != '>',
        json.len() > 0,
        json_parses(json),
        !contains_seq(json, close_tag()),
    ensures
        drain(Seq::<char>::empty() + tool_tag(name, json)) == (
            Seq::<char>::empty(),
            seq![(name, json)],
            Seq::<char>::empty(),
        ),
{
    let t = tool_tag(name, json);
    assert(Seq::<char>::empty() + t =~= t);
    let je: int = (19 + name.len() + json.len()) as int;
    assert(t.len() == je + 12);
    assert(t.subrange(0, 10) =~= open_tag());
    lemma_find_in_first(t, open_tag(), 0);
    assert(t.skip(0) =~= t);
    lemma_tag_closes_at_end(name, json);
    lemma_tags_complete(t, 0, je);
    law_tag_yields_its_call(name, json);
    assert(t.subrange(0, je + 12) =~= t);
    assert(t.skip(je + 12) =~= Seq::<char>::empty());
    lemma_drain_tags_empty();
    assert(t.take(0) =~= Seq::<char>::empty());
    assert(drain(t) == drain_tags(t));
    assert(drain_tags(t).0 =~= Seq::<char>::empty());
    assert(drain_tags(t).1 =~= seq![(name, json)]);
}

/// Nothing to scan gives nothing.
proof fn lemma_drain_tags_empty()
    ensures
        drain_tags(Seq::<char>::empty()) == (
            Seq::<char>::empty(),
            Seq::<(Seq<char>, Seq<char>)>::empty(),
            Seq::<char>::empty(),
        ),
{
    reveal(drain_tags);
    assert(!(exists|i: int| occurs_at(Seq::<char>::empty(), open_tag(), i)));
}

/// Holds the part of the stream that may still belong to a tag.
pub struct StreamingParser {
    buffer: String,
}

impl StreamingParser {
    /// The text held back from earlier chunks.
    pub closed spec fn pending(&self) -> Seq<char> {
        self.buffer@
    }

    /// A parser with nothing held back.
    pub fn new() -> (p: Self)
        ensures
            p.pending() == Seq::<char>::empty(),
    {
        StreamingParser { buffer: String::new() }
    }

    /// Appends the new chunk and returns isolated clean text alongside any parsed tool calls.
    #[verifier::rlimit(40)]
    pub fn push(&mut self, chunk: &str) -> (r: (String, Vec<ToolCall>))
        ensures
            ({
                let d = drain(old(self).pending() + chunk@);
                &&& r.0@ == d.0
                &&& tool_views(r.1@) == d.1
                &&& final(self).pending() == d.2
            }),
    {
        let ghost initial = self.buffer@ + chunk@;
        push_str(&mut self.buffer, chunk);
        let buf = chars_of(&self.buffer);
        let ghost full = buf@;
        assert(full == initial);
        let n = buf.len();
        let open = open_tag_chars();
        let close = close_tag_chars();
        let mut text = String::new();
        let mut tools: Vec<ToolCall> = Vec::new();
        assert(full.skip(0) =~= full);
        if find_from(&buf, 0, &open).is_none() {
            // no tag: release everything before the last `<`
            let lt = one_char_vec('<');
            match rfind_from(&buf, 0, &lt) {
                None => {
                    push_range(&mut text, &buf, 0, n);
                    assert(full.subrange(0, n as int) =~= full);
                    self.buffer = String::new();
                },
                Some(l) => {
                    push_range(&mut text, &buf, 0, l);
                    assert(full.subrange(0, l as int) =~= full.take(l as int));
                    self.buffer = string_of_range(&buf, l, n);
                    assert(full.subrange(l as int, n as int) =~= full.skip(l as int));
                },
            }
            assert(text@ =~= drain(full).0);
            assert(tool_views(tools@) =~= drain(full).1);
            return (text, tools);
        }
        let mut pos: usize = 0;
        assert(text@ + drain_tags(full).0 =~= drain_tags(full).0);
        assert(tool_views(tools@) + drain_tags(full).1 =~= drain_tags(full).1);
        loop
            invariant_except_break
                full == old(self).pending() + chunk@,
                find_in(full, open_tag()) is Some,
                pos <= n,
                n == buf.len(),
                buf@ == full,
                open@ == open_tag(),
                close@ == close_tag(),
                drain_tags(full).0 == text@ + drain_tags(full.skip(pos as int)).0,
                drain_tags(full).1 == tool_views(tools@) + drain_tags(full.skip(pos as int)).1,
                drain_tags(full).2 == drain_tags(full.skip(pos as int)).2,
            ensures
                full == old(self).pending() + chunk@,
                find_in(full, open_tag()) is Some,
                pos <= n,
                n == buf.len(),
                buf@ == full,
                find_in(full.skip(pos as int), open_tag()) is None,
                drain_tags(full).0 == text@ + drain_tags(full.skip(pos as int)).0,
                drain_tags(full).1 == tool_views(tools@) + drain_tags(full.skip(pos as int)).1,
                drain_tags(full).2 == drain_tags(full.skip(pos as int)).2,
            decreases n - pos,
        {
            let ghost w = full.skip(pos as int);
            let found = find_from(&buf, pos, &open);
            match found {
                None => {
                    break;
                },
                Some(s) => {
                    let start = pos + s;
                    assert(w.skip(s as int) =~= full.skip(start as int));
                    let closing = find_from(&buf, start, &close);
                    match closing {
                        None => {
                            proof {
                                lemma_tags_partial(w, s as int);
                            }
                            push_range(&mut text, &buf, pos, start);
                            assert(w.take(s as int) =~= full.subrange(pos as int, start as int));
                            self.buffer = string_of_range(&buf, start, n);
                            assert(w.skip(s as int) =~= full.subrange(start as int, n as int));
                            assert(drain_tags(full).0 =~= text@);
                            assert(drain_tags(full).1 =~= tool_views(tools@));
                            return (text, tools);
                        },
                        Some(e) => {
                            proof {
                                lemma_tags_complete(w, s as int, e as int);
                            }
                            let stop = start + e + 12;
                            let ghost before_tools = tool_views(tools@);
                            push_range(&mut text, &buf, pos, start);
                            assert(w.take(s as int) =~= full.subrange(pos as int, start as int));
                            let tag = copy_range(&buf, start, stop);
                            let parsed = Self::parse_tag(&tag);
                            assert(w.subrange(s as int, s + e + 12) =~= full.subrange(
                                start as int,
                                stop as int,
                            ));
                            assert(w.skip(s + e + 12) =~= full.skip(stop as int));
                            match parsed {
                                Some(t) => {
                                    tools.push(t);
                                },
                                None => {},
                            }
                            assert(tool_views(tools@) =~= before_tools + opt_seq(
                                parse_tag_spec(tag@),
                            ));
                            pos = stop;
                            assert(drain_tags(full).0 =~= text@ + drain_tags(full.skip(pos as int)).0);
                            assert(drain_tags(full).1 =~= tool_views(tools@) + drain_tags(
                                full.skip(pos as int),
                            ).1);
                        },
                    }
                },
            }
        }
        // after the last complete tag, the rest stays buffered
        proof {
            lemma_tags_none(full.skip(pos as int));
        }
        self.buffer = string_of_range(&buf, pos, n);
        assert(full.subrange(pos as int, n as int) =~= full.skip(pos as int));
        assert(drain_tags(full).0 =~= text@);
        assert(drain_tags(full).1 =~= tool_views(tools@));
        (text, tools)
    }

    /// Reads a complete tag; see `parse_tag_spec`.
    fn parse_tag(tag: &Vec<char>) -> (r: Option<ToolCall>)
        ensures
            opt_view(r) == parse_tag_spec(tag@),
    {
        assert(tag@.skip(0) =~= tag@);
        let a = match find_from(tag, 0, &name_attr_chars()) {
            None => return None,
            Some(a) => a,
        };
        proof {
            lemma_find_in_some(tag@, name_attr());
        }
        let ni = a + 6;
        let ne = match find_from(tag, ni, &one_char_vec('"')) {
            None => return None,
            Some(ne) => ne,
        };
        proof {
            lemma_find_in_some(tag@.skip(ni as int), one_char('"'));
        }
        let name = string_of_range(tag, ni, ni + ne);
        let g = match find_from(tag, 0, &one_char_vec('>')) {
            None => return None,
            Some(g) => g,
        };
        proof {
            lemma_find_in_some(tag@, one_char('>'));
        }
        let cb = g + 1;
        let je = match rfind_from(tag, 0, &close_tag_chars()) {
            None => return None,
            Some(je) => je,
        };
        proof {
            lemma_rfind_in_some(tag@, close_tag());
        }
        if cb < je {
            let params = string_of_range(tag, cb, je);
            if json_is_valid(params.as_str()) {
                return Some(ToolCall { name, params });
            }
        }
        None
    }
}

} // verus!
