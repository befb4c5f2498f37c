use faber_aeternus::brain::fold::FoldEngine;
use faber_aeternus::syntax::RustParser;
use faber_aeternus::words::{extract_keywords, hash_prompt};
use std::hash::{Hash, Hasher};

fn rust_parser() -> RustParser {
    let parser = RustParser::new();
    assert!(parser.is_ready());
    parser
}

const SOURCE: &str = "fn alpha() { let x = 1; }\nfn beta() { let y = 2; }\n";

#[test]
fn fold_keeps_mentioned_and_folds_the_rest() {
    let mut engine = FoldEngine::new();
    let mut parser = rust_parser();
    let out = engine.fold_document("src/lib.rs", SOURCE, "please fix alpha", &mut parser);
    assert_eq!(
        out,
        "fn alpha() { let x = 1; }\nfn beta()  { /* ... folded by faber-aeternus ... */ }\n"
    );
}

#[test]
fn fold_without_keywords_folds_everything() {
    let mut engine = FoldEngine::new();
    let mut parser = rust_parser();
    let out = engine.fold_document("main.rs", SOURCE, "go", &mut parser);
    assert_eq!(
        out,
        "fn alpha()  { /* ... folded by faber-aeternus ... */ }\nfn beta()  { /* ... folded by faber-aeternus ... */ }\n"
    );
}

#[test]
fn fold_is_memoized() {
    let mut engine = FoldEngine::new();
    let mut parser = rust_parser();
    let first = engine.fold_document("a.rs", SOURCE, "alpha please", &mut parser);
    // the same path, source and prompt are answered from the cache, with no tree
    assert_eq!(engine.fold_parsed("a.rs", SOURCE, "alpha please", None), first);
}

#[test]
fn fold_follows_edits() {
    let mut engine = FoldEngine::new();
    let mut parser = rust_parser();
    engine.fold_document("a.rs", SOURCE, "alpha please", &mut parser);
    let edited = engine.fold_document("a.rs", "fn other() { 2 }", "alpha please", &mut parser);
    let fresh = FoldEngine::new().fold_document("a.rs", "fn other() { 2 }", "alpha please", &mut parser);
    assert_eq!(edited, fresh);
    assert_eq!(edited, "fn other()  { /* ... folded by faber-aeternus ... */ }");
}

#[test]
fn fold_without_tree_returns_source() {
    let mut engine = FoldEngine::new();
    let out = engine.fold_parsed("x.rs", "fn a() {}", "p", None);
    assert_eq!(out, "fn a() {}");
}

#[test]
fn fold_keeps_source_without_foldable_nodes() {
    let mut engine = FoldEngine::new();
    let mut parser = rust_parser();
    let out = engine.fold_document("c.rs", "const X: u8 = 1;\n", "alpha", &mut parser);
    assert_eq!(out, "const X: u8 = 1;\n");
}

#[test]
fn keywords_are_lowercased_alphanumeric_and_long() {
    let k = extract_keywords("Please FIX the Alpha-function now! please");
    assert_eq!(k, vec!["please".to_string(), "alphafunction".to_string()]);
    assert!(extract_keywords("a bb ccc").is_empty());
    assert_eq!(extract_keywords("  dddd\teeee\n"), vec!["dddd".to_string(), "eeee".to_string()]);
}

#[test]
fn keywords_count_chars_not_bytes() {
    // "été" is three characters (five bytes): too short to be a keyword
    assert!(extract_keywords("ÉTÉ").is_empty());
    assert_eq!(extract_keywords("étés"), vec!["étés".to_string()]);
    assert_eq!(extract_keywords("Fix the Parser's bug now!"), vec!["parsers".to_string()]);
}

#[test]
fn prompt_hash_is_default_hasher() {
    let mut h = std::collections::hash_map::DefaultHasher::new();
    "some prompt".hash(&mut h);
    assert_eq!(hash_prompt("some prompt"), h.finish());
    assert_ne!(hash_prompt("some prompt"), hash_prompt("other prompt"));
}

#[test]
fn fold_uses_the_kinds_of_the_file_language() {
    // a `.go` file folds Go's kinds, which a Rust tree does not hold
    let mut engine = FoldEngine::new();
    let mut parser = rust_parser();
    let out = engine.fold_document("pkg/main.go", SOURCE, "zzzz", &mut parser);
    assert_eq!(out, SOURCE);
}

#[test]
fn the_least_recently_used_fold_is_dropped() {
    let mut engine = FoldEngine::new();
    let mut parser = rust_parser();
    let first = engine.fold_document("f0.rs", SOURCE, "go", &mut parser);
    for i in 1..100 {
        engine.fold_document(&format!("f{i}.rs"), SOURCE, "go", &mut parser);
    }
    // using f0 again makes it the most recent, so f1 is now the oldest;
    // with no tree, only a cached fold differs from the source
    assert_eq!(engine.fold_parsed("f0.rs", SOURCE, "go", None), first);
    engine.fold_document("f100.rs", SOURCE, "go", &mut parser);
    assert_eq!(engine.fold_parsed("f0.rs", SOURCE, "go", None), first);
    assert_eq!(engine.fold_parsed("f1.rs", SOURCE, "go", None), SOURCE);
}

#[test]
fn parser_without_grammar_builds_no_tree() {
    let mut bare = RustParser::without_grammar();
    assert!(!bare.is_ready());
    assert!(bare.tree_sitter_parse("fn a() {}").is_none());
    let mut rust = rust_parser();
    let tree = rust.tree_sitter_parse("fn a() {}").unwrap();
    assert_eq!(tree.kind, "source_file");
    assert!(!tree.has_error);
    assert!(rust.tree_sitter_parse("fn a( {").unwrap().has_error);
}
