//! The remote chat API: which endpoint is called, the messages that are
//! sent, and the text that a chunk of the event stream carries.
use vstd::prelude::*;
use crate::brain::fold::str_eq;
use crate::json::{
    json_element, json_element_text, json_member, json_member_text, json_quote, json_quoted,
    json_string, json_string_content,
};
use crate::llm::provider::ProviderConfig;
use crate::text::{chars_of, push_str, string_from, string_of_range};
use crate::utf8::{utf8_lossy, utf8_lossy_text};

verus! {

/// The endpoint of a session: the configured one, or OpenAI's chat
/// completions endpoint.
pub fn endpoint_of(config: &ProviderConfig) -> (e: String)
    ensures
        e@ == (match config.endpoint {
            Some(x) => x@,
            None => "https://api.openai.com/v1/chat/completions"@,
        }),
{
    match &config.endpoint {
        Some(x) => string_from(x.as_str()),
        None => string_from("https://api.openai.com/v1/chat/completions"),
    }
}

/// The prefix that marks the user's messages in the chat history.
pub open spec fn user_marker() -> Seq<char> {
    "👤 You:"@
}

/// The role of a history message: the user's where it starts with the user
/// marker, the assistant's otherwise.
pub open spec fn role_of(msg: Seq<char>) -> Seq<char> {
    if user_marker().len() <= msg.len() && msg.take(user_marker().len() as int) == user_marker() {
        "user"@
    } else {
        "assistant"@
    }
}

/// Whether `s` starts with `prefix`.
pub fn starts_with(s: &str, prefix: &str) -> (r: bool)
    ensures
        r == (prefix@.len() <= s@.len() && s@.take(prefix@.len() as int) == prefix@),
{
    let v = chars_of(s);
    let p = chars_of(prefix);
    if p.len() > v.len() {
        return false;
    }
    let mut i: usize = 0;
    while i < p.len()
        invariant
            p@ == prefix@,
            v@ == s@,
            p.len() <= v.len(),
            i <= p.len(),
            forall|j: int| 0 <= j < i ==> v@[j] == p@[j],
        decreases p.len() - i,
    {
        if v[i] != p[i] {
            assert(s@.take(p.len() as int)[i as int] != prefix@[i as int]);
            return false;
        }
        i = i + 1;
    }
    assert(s@.take(p.len() as int) =~= prefix@);
    true
}

/// The role of a history message (see `role_of`).
pub fn chat_role(msg: &str) -> (r: &'static str)
    ensures
        r@ == role_of(msg@),
{
    if starts_with(msg, "👤 You:") {
        "user"
    } else {
        "assistant"
    }
}

/// The messages of a request: the system prompt, then each history message
/// with its role.
pub fn chat_messages(system_prompt: &str, history: &Vec<String>) -> (m: Vec<(String, String)>)
    ensures
        m@.len() == history@.len() + 1,
        m@[0].0@ == "system"@ && m@[0].1@ == system_prompt@,
        forall|i: int|
            0 <= i < history@.len() ==> (#[trigger] m@[i + 1]).0@ == role_of(history@[i]@) && m@[i
                + 1].1@ == history@[i]@,
{
    let mut m: Vec<(String, String)> = Vec::new();
    m.push((string_from("system"), string_from(system_prompt)));
    let mut i: usize = 0;
    while i < history.len()
        invariant
            i <= history.len(),
            m@.len() == i + 1,
            m@[0].0@ == "system"@ && m@[0].1@ == system_prompt@,
            forall|j: int|
                0 <= j < i ==> (#[trigger] m@[j + 1]).0@ == role_of(history@[j]@) && m@[j + 1].1@
                    == history@[j]@,
        decreases history.len() - i,
    {
        let msg = history[i].as_str();
        m.push((string_from(chat_role(msg)), string_from(msg)));
        i = i + 1;
    }
    m
}

/// The character views of a list of messages.
pub open spec fn messages_view(ms: Seq<(String, String)>) -> Seq<(Seq<char>, Seq<char>)> {
    ms.map_values(|m: (String, String)| (m.0@, m.1@))
}

/// One message of a request as JSON: its role and its content.
pub open spec fn message_json(m: (Seq<char>, Seq<char>)) -> Seq<char> {
    "{\"role\":"@ + json_quoted(m.0) + ",\"content\":"@ + json_quoted(m.1) + "}"@
}

/// The messages as JSON, separated by commas.
pub open spec fn messages_json(ms: Seq<(Seq<char>, Seq<char>)>) -> Seq<char>
    decreases ms.len(),
{
    if ms.len() == 0 {
        seq![]
    } else if ms.len() == 1 {
        message_json(ms[0])
    } else {
        messages_json(ms.drop_last()) + ","@ + message_json(ms.last())
    }
}

/// The body of a streamed chat request: the model, the messages, and the
/// request to stream.
pub open spec fn request_json(model: Seq<char>, ms: Seq<(Seq<char>, Seq<char>)>) -> Seq<char> {
    "{\"model\":"@ + json_quoted(model) + ",\"messages\":["@ + messages_json(ms)
        + "],\"stream\":true}"@
}

/// The JSON body of a streamed chat request for `model` with `messages`.
pub fn chat_request_body(model: &str, messages: &Vec<(String, String)>) -> (body: String)
    ensures
        body@ == request_json(model@, messages_view(messages@)),
{
    let ghost ms = messages_view(messages@);
    let mut body = string_from("{\"model\":");
    let quoted = json_quote(model);
    push_str(&mut body, quoted.as_str());
    push_str(&mut body, ",\"messages\":[");
    let ghost head = body@;
    let mut i: usize = 0;
    assert(ms.take(0) =~= Seq::<(Seq<char>, Seq<char>)>::empty());
    while i < messages.len()
        invariant
            i <= messages.len(),
            ms == messages_view(messages@),
            body@ == head + messages_json(ms.take(i as int)),
        decreases messages.len() - i,
    {
        let ghost before = body@;
        if i > 0 {
            push_str(&mut body, ",");
        }
        push_str(&mut body, "{\"role\":");
        let role = json_quote(messages[i].0.as_str());
        push_str(&mut body, role.as_str());
        push_str(&mut body, ",\"content\":");
        let content = json_quote(messages[i].1.as_str());
        push_str(&mut body, content.as_str());
        push_str(&mut body, "}");
        proof {
            let t = ms.take(i + 1);
            assert(t.drop_last() =~= ms.take(i as int));
            assert(t.last() == ms[i as int]);
            assert(ms[i as int] == (messages@[i as int].0@, messages@[i as int].1@));
            if i == 0 {
                assert(t =~= seq![ms[0]]);
            }
            assert(body@ =~= head + messages_json(t));
        }
        i = i + 1;
    }
    assert(ms.take(i as int) =~= ms);
    push_str(&mut body, "],\"stream\":true}");
    assert(body@ =~= request_json(model@, ms));
    body
}

/// The position of the first line feed at or after `i`, or the end.
pub open spec fn line_end(s: Seq<char>, i: int) -> int
    decreases s.len() - i,
{
    if i < 0 || i >= s.len() || s[i] == '\n' {
        i
    } else {
        line_end(s, i + 1)
    }
}

pub proof fn lemma_line_end(s: Seq<char>, i: int)
    requires
        0 <= i <= s.len(),
    ensures
        i <= line_end(s, i) <= s.len(),
        line_end(s, i) < s.len() ==> s[line_end(s, i)] == '\n',
    decreases s.len() - i,
{
    if i < s.len() && s[i] != '\n' {
        lemma_line_end(s, i + 1);
    }
}

/// The lines of `s[i..]`, as `str::lines` gives them: split at line feeds,
/// a carriage return before a line feed dropped, no empty last line after a
/// final line feed.
pub open spec fn lines_from(s: Seq<char>, i: int) -> Seq<Seq<char>>
    decreases s.len() - i,
{
    if i < 0 || i >= s.len() {
        seq![]
    } else {
        let e = line_end(s, i);
        if e < s.len() {
            let l = s.subrange(i, e);
            let line = if l.len() > 0 && l.last() == '\r' {
                l.drop_last()
            } else {
                l
            };
            proof {
                lemma_line_end(s, i);
            }
            seq![line] + lines_from(s, e + 1)
        } else {
            seq![s.subrange(i, s.len() as int)]
        }
    }
}

/// The text that one line of the event stream carries: for a `data: ` line
/// that is not `[DONE]`, the string at `choices[0].delta.content` of its JSON.
pub open spec fn line_content(line: Seq<char>) -> Seq<char> {
    if line.len() >= 6 && line.take(6) == "data: "@ {
        let data = line.skip(6);
        if data == "[DONE]"@ {
            seq![]
        } else {
            match json_member_text(data, "choices"@) {
                Some(c) => match json_element_text(c, 0) {
                    Some(first) => match json_member_text(first, "delta"@) {
                        Some(d) => match json_member_text(d, "content"@) {
                            Some(t) => match json_string_content(t) {
                                Some(text) => text,
                                None => seq![],
                            },
                            None => seq![],
                        },
                        None => seq![],
                    },
                    None => seq![],
                },
                None => seq![],
            }
        }
    } else {
        seq![]
    }
}

/// Law: a `data: ` line carries its delta text exactly. For a line `data: `
/// followed by a JSON text (not `[DONE]`) whose `choices[0].delta.content`
/// is the JSON string of `text`, the line carries `text`, every character
/// kept, leading and trailing spaces included.
pub proof fn law_data_line_carries_delta(
    payload: Seq<char>,
    choices: Seq<char>,
    first: Seq<char>,
    delta: Seq<char>,
    content: Seq<char>,
    text: Seq<char>,
)
    requires
        payload != "[DONE]"@,
        json_member_text(payload, "choices"@) == Some(choices),
        json_element_text(choices, 0) == Some(first),
        json_member_text(first, "delta"@) == Some(delta),
        json_member_text(delta, "content"@) == Some(content),
        json_string_content(content) == Some(text),
    ensures
        line_content("data: "@ + payload) == text,
{
    reveal_strlit("data: ");
    let line = "data: "@ + payload;
    assert(line.take(6) =~= "data: "@);
    assert(line.skip(6) =~= payload);
}

/// Law: a chunk carries the texts of its lines one after the other.
pub proof fn law_chunk_concatenates_lines(first: Seq<Seq<char>>, second: Seq<Seq<char>>)
    ensures
        stream_text(first + second) == stream_text(first) + stream_text(second),
    decreases first.len(),
{
    if first.len() > 0 {
        law_chunk_concatenates_lines(first.drop_first(), second);
        assert((first + second).drop_first() =~= first.drop_first() + second);
        assert((first + second)[0] == first[0]);
    } else {
        assert(first + second =~= second);
    }
}

/// The text that the lines carry, in order.
pub open spec fn stream_text(lines: Seq<Seq<char>>) -> Seq<char>
    decreases lines.len(),
{
    if lines.len() == 0 {
        seq![]
    } else {
        line_content(lines[0]) + stream_text(lines.drop_first())
    }
}

/// The text that one line carries (see `line_content`).
fn content_of_line(line: &str) -> (r: String)
    ensures
        r@ == line_content(line@),
{
    proof {
        reveal_strlit("data: ");
    }
    if !starts_with(line, "data: ") {
        return String::new();
    }
    let v = chars_of(line);
    let data = string_of_range(&v, 6, v.len());
    assert(data@ =~= line@.skip(6));
    if str_eq(data.as_str(), "[DONE]") {
        return String::new();
    }
    let c = match json_member(data.as_str(), "choices") {
        Some(c) => c,
        None => return String::new(),
    };
    let first = match json_element(c.as_str(), 0) {
        Some(f) => f,
        None => return String::new(),
    };
    let d = match json_member(first.as_str(), "delta") {
        Some(d) => d,
        None => return String::new(),
    };
    let t = match json_member(d.as_str(), "content") {
        Some(t) => t,
        None => return String::new(),
    };
    match json_string(t.as_str()) {
        Some(text) => text,
        None => String::new(),
    }
}

/// The text that a chunk of the event stream carries (see `stream_text`).
pub fn stream_chunk_text(text: &str) -> (r: String)
    ensures
        r@ == stream_text(lines_from(text@, 0)),
{
    let v = chars_of(text);
    let n = v.len();
    let ghost s = v@;
    let mut out = String::new();
    let mut i: usize = 0;
    while i < n
        invariant
            n == v.len(),
            s == v@,
            s == text@,
            i <= n,
            stream_text(lines_from(s, 0)) == out@ + stream_text(lines_from(s, i as int)),
        decreases n - i,
    {
        proof {
            lemma_line_end(s, i as int);
        }
        let mut e = i;
        while e < n && v[e] != '\n'
            invariant
                n == v.len(),
                s == v@,
                i <= e <= n,
                line_end(s, i as int) == line_end(s, e as int),
            decreases n - e,
        {
            e = e + 1;
        }
        let mut stop = e;
        if e < n && e > i && v[e - 1] == '\r' {
            stop = e - 1;
        }
        let line = string_of_range(&v, i, stop);
        let ghost l = s.subrange(i as int, e as int);
        assert(e < n ==> line@ =~= (if l.len() > 0 && l.last() == '\r' {
            l.drop_last()
        } else {
            l
        }));
        let piece = content_of_line(line.as_str());
        let ghost before = out@;
        push_str(&mut out, piece.as_str());
        if e < n {
            assert(lines_from(s, i as int) == seq![line@] + lines_from(s, e + 1));
            assert(stream_text(seq![line@] + lines_from(s, e + 1)) == line_content(line@)
                + stream_text(lines_from(s, e + 1))) by {
                assert((seq![line@] + lines_from(s, e + 1)).drop_first() =~= lines_from(s, e + 1));
            }
            assert(out@ + stream_text(lines_from(s, e + 1)) =~= before + stream_text(
                lines_from(s, i as int),
            ));
            i = e + 1;
        } else {
            assert(lines_from(s, i as int) == seq![line@]);
            assert(stream_text(seq![line@]) == line_content(line@)) by {
                assert(seq![line@].drop_first() =~= Seq::<Seq<char>>::empty());
            }
            assert(lines_from(s, n as int) =~= Seq::<Seq<char>>::empty());
            assert(out@ + stream_text(lines_from(s, n as int)) =~= before + stream_text(
                lines_from(s, i as int),
            ));
            i = n;
        }
    }
    assert(lines_from(s, i as int) =~= Seq::<Seq<char>>::empty());
    assert(out@ + stream_text(lines_from(s, i as int)) =~= out@);
    out
}

/// The text that a chunk of raw bytes of the event stream carries: the bytes
/// read lossily as UTF-8, then as in `stream_chunk_text`.
pub fn stream_chunk_bytes(bytes: &[u8]) -> (r: String)
    ensures
        r@ == stream_text(lines_from(utf8_lossy_text(bytes@), 0)),
{
    let text = utf8_lossy(bytes);
    stream_chunk_text(text.as_str())
}

} // verus!
