use faber_aeternus::tools::parser::StreamingParser;

#[test]
fn test_streaming_parser_partial() {
    let mut parser = StreamingParser::new();
    let (txt, tools) = parser.push("Thinking about it... <too");
    assert_eq!(txt, "Thinking about it... ");
    assert!(tools.is_empty());

    let (txt, tools) = parser.push("l_call name=\"run_shell\">{\"command\":\"l");
    assert_eq!(txt, "");
    assert!(tools.is_empty());

    let (txt, tools) = parser.push("s\"}</tool_call> Done.");
    assert_eq!(txt, "");
    assert_eq!(tools.len(), 1);
    assert_eq!(tools[0].name, "run_shell");

    let (txt2, tools2) = parser.push(" Finalizing.");
    assert_eq!(txt2, " Done. Finalizing.");
    assert!(tools2.is_empty());
}

#[test]
fn parser_keeps_params_text() {
    let mut parser = StreamingParser::new();
    let (txt, tools) = parser.push("a<tool_call name=\"edit_file\">{\"path\": \"x\"}</tool_call>b");
    assert_eq!(txt, "a");
    assert_eq!(tools.len(), 1);
    assert_eq!(tools[0].name, "edit_file");
    assert_eq!(tools[0].params, "{\"path\": \"x\"}");
    let (txt, tools) = parser.push("");
    assert_eq!(txt, "b");
    assert!(tools.is_empty());
}

#[test]
fn parser_drops_tag_with_invalid_json() {
    let mut parser = StreamingParser::new();
    let (txt, tools) = parser.push("x<tool_call name=\"t\">{not json}</tool_call>y");
    assert_eq!(txt, "x");
    assert!(tools.is_empty());
    let (txt, _) = parser.push("z");
    assert_eq!(txt, "yz");
}

#[test]
fn parser_drops_tag_without_name() {
    let mut parser = StreamingParser::new();
    let (txt, tools) = parser.push("<tool_call>{}</tool_call>");
    assert_eq!(txt, "");
    assert!(tools.is_empty());
}

#[test]
fn parser_holds_back_from_last_lt() {
    let mut parser = StreamingParser::new();
    let (txt, tools) = parser.push("a < b");
    assert_eq!(txt, "a ");
    assert!(tools.is_empty());
    let (txt, _) = parser.push(" c <x");
    assert_eq!(txt, "< b c ");
}

#[test]
fn parser_flushes_text_without_lt() {
    let mut parser = StreamingParser::new();
    let (txt, tools) = parser.push("plain text");
    assert_eq!(txt, "plain text");
    assert!(tools.is_empty());
    let (txt, _) = parser.push("");
    assert_eq!(txt, "");
}

#[test]
fn parser_two_tags_in_one_chunk() {
    let mut parser = StreamingParser::new();
    let (txt, tools) = parser.push(
        "1<tool_call name=\"a\">[1]</tool_call>2<tool_call name=\"b\">{\"k\":2}</tool_call>3",
    );
    assert_eq!(txt, "12");
    assert_eq!(tools.len(), 2);
    assert_eq!(tools[0].name, "a");
    assert_eq!(tools[0].params, "[1]");
    assert_eq!(tools[1].name, "b");
}

fn run_chunks(chunks: &[&str]) -> (String, Vec<(String, String)>) {
    let mut parser = StreamingParser::new();
    let mut text = String::new();
    let mut calls = Vec::new();
    for c in chunks.iter().chain(std::iter::once(&"")) {
        let (t, ts) = parser.push(c);
        text.push_str(&t);
        for tool in ts {
            calls.push((tool.name, tool.params));
        }
    }
    (text, calls)
}

#[test]
fn chunking_is_invisible() {
    let stream = "intro <b> then <tool_call name=\"edit_file\">{\"path\":\"a.rs\"}</tool_call> tail";
    let whole = run_chunks(&[stream]);
    for split in 0..=stream.len() {
        if !stream.is_char_boundary(split) {
            continue;
        }
        let (a, b) = stream.split_at(split);
        assert_eq!(run_chunks(&[a, b]), whole, "split at {}", split);
    }
    assert_eq!(whole.0, "intro <b> then  tail");
    assert_eq!(whole.1.len(), 1);
}

#[test]
fn plain_chunks_pass_through_at_once() {
    let mut parser = StreamingParser::new();
    for chunk in ["Hello, ", "world", " — no tags here.", ""] {
        let (txt, tools) = parser.push(chunk);
        assert_eq!(txt, chunk);
        assert!(tools.is_empty());
    }
}

#[test]
fn many_chunks_give_the_tags_and_a_prefix_of_the_text() {
    let stream = "a<tool_call name=\"x\">{\"k\":1}</tool_call>b<tool_call name=\"y\">bad</tool_call>c<tool_call name=\"z\">[2]</tool_call>d";
    let clean = "abcd";
    let chars: Vec<char> = stream.chars().collect();
    for size in 1..8 {
        let mut parser = StreamingParser::new();
        let mut text = String::new();
        let mut names = Vec::new();
        for piece in chars.chunks(size) {
            let chunk: String = piece.iter().collect();
            let (t, tools) = parser.push(&chunk);
            text.push_str(&t);
            assert!(clean.starts_with(&text), "size {}", size);
            names.extend(tools.into_iter().map(|t| t.name));
        }
        assert_eq!(names, vec!["x".to_string(), "z".to_string()], "size {}", size);
    }
}
