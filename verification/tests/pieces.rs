//! The scanner and the tokenizer through their public entry points, and
//! concrete instances of the compiler's stated properties: the verbatim
//! round-trip, restartable scanning, loop instrumentation, else wiring,
//! raw blocks and inert comments.

use dry_handlebars::block::add_builtins;
use dry_handlebars::compiler::{BlockMap, Compiler, Options, Rust, VariableShape};
use dry_handlebars::expression::{Expression, ExpressionType};
use dry_handlebars::expression_tokenizer::{Token, TokenType};

fn make_map() -> BlockMap {
    let mut map = BlockMap::new();
    add_builtins(&mut map);
    map
}

fn compile_rust(src: &str) -> Rust {
    Compiler::new(
        Options { root_var_name: Some("self"), write_var_name: "f", variable_types: Vec::new() },
        make_map(),
    )
    .compile(src)
    .unwrap()
}

fn compile_with_shapes(src: &str, shapes: Vec<(String, VariableShape)>) -> String {
    Compiler::new(
        Options { root_var_name: Some("self"), write_var_name: "f", variable_types: shapes },
        make_map(),
    )
    .compile(src)
    .unwrap()
    .code
}

fn compile(src: &str) -> String {
    compile_rust(src).code
}

// --- the scanner ---

#[test]
fn scan_plain_interpolation() {
    let e = Expression::from("Hello {{name}}!").unwrap().unwrap();
    assert!(matches!(e.expression_type, ExpressionType::HtmlEscaped));
    assert_eq!(e.prefix, "Hello ");
    assert_eq!(e.content, "name");
    assert_eq!(e.postfix, "!");
}

#[test]
fn scan_kinds() {
    let open = Expression::from("{{#if x}}A{{/if}}").unwrap().unwrap();
    assert!(matches!(open.expression_type, ExpressionType::Open));
    assert_eq!(open.content, "if x");
    let close = open.next().unwrap().unwrap();
    assert!(matches!(close.expression_type, ExpressionType::Close));
    assert_eq!(close.content, "if");
    let raw = Expression::from("{{{x}}}").unwrap().unwrap();
    assert!(matches!(raw.expression_type, ExpressionType::Raw));
    let comment = Expression::from("{{! hi }}").unwrap().unwrap();
    assert!(matches!(comment.expression_type, ExpressionType::Comment));
}

#[test]
fn scan_restarts_from_postfix() {
    let src = "a{{x}}b{{y}}c{{z}}d";
    let first = Expression::from(src).unwrap().unwrap();
    let via_next = first.next().unwrap().unwrap();
    let via_from = Expression::from(first.postfix).unwrap().unwrap();
    assert_eq!(via_next.prefix, via_from.prefix);
    assert_eq!(via_next.content, via_from.content);
    assert_eq!(via_next.postfix, via_from.postfix);
    assert_eq!(via_next.content, "y");
    let third = via_next.next().unwrap().unwrap();
    assert_eq!(third.content, "z");
    assert_eq!(third.postfix, "d");
}

#[test]
fn scan_none_without_delimiters() {
    assert!(Expression::from("no delimiters here").unwrap().is_none());
}

// --- the tokenizer ---

#[test]
fn tokenize_kinds() {
    let t = Token::first("user.name (helper arg) @index").unwrap().unwrap();
    assert!(matches!(t.token_type, TokenType::Variable));
    assert_eq!(t.value, "user.name");
    let sub = t.next().unwrap().unwrap();
    assert!(matches!(sub.token_type, TokenType::SubExpression(_)));
    assert_eq!(sub.value, "helper arg");
    let private = sub.next().unwrap().unwrap();
    assert!(matches!(private.token_type, TokenType::PrivateVariable));
    assert_eq!(private.value, "index");
    assert!(private.next().unwrap().is_none());
}

#[test]
fn tokenize_classifies_literals() {
    let number = Token::first("123").unwrap().unwrap();
    assert!(matches!(number.token_type, TokenType::Literal));
    let name = Token::first("abc").unwrap().unwrap();
    assert!(matches!(name.token_type, TokenType::Variable));
    let under = Token::first("_x").unwrap().unwrap();
    assert!(matches!(under.token_type, TokenType::Variable));
    let relative = Token::first("../x").unwrap().unwrap();
    assert!(matches!(relative.token_type, TokenType::Variable));
    let quoted = Token::first("\"a b\" rest").unwrap().unwrap();
    assert!(matches!(quoted.token_type, TokenType::Literal));
    assert_eq!(quoted.value, "\"a b\"");
    assert_eq!(quoted.tail, "rest");
}

// --- the compiler's stated properties, on concrete values ---

#[test]
fn verbatim_round_trip() {
    assert_eq!(compile("hello world"), "write!(f, \"hello world\")?;");
    assert_eq!(compile(""), "");
}

#[test]
fn verbatim_escapes_delimiter_breaking_characters() {
    assert_eq!(
        compile("a\"b\\c{d}e"),
        "write!(f, \"a\\\"b\\\\c{{d}}e\")?;"
    );
}

#[test]
fn if_wraps_one_merged_emission() {
    assert_eq!(
        compile("{{#if x}}A{{/if}}"),
        "if self.x.as_bool(){write!(f, \"A\")?;}"
    );
}

#[test]
fn else_flips_the_branch() {
    assert_eq!(
        compile("{{#if x}}A{{else}}B{{/if}}"),
        "if self.x.as_bool(){write!(f, \"A\")?;}else{write!(f, \"B\")?;}"
    );
}

#[test]
fn each_without_index_or_else_adds_no_instrumentation() {
    let code = compile("{{#each items as item}}{{item}}{{/each}}");
    assert_eq!(
        code,
        "for item_1 in self.items{write!(f, \"{}\", item_1.as_display_html())?;}"
    );
    assert!(!code.contains("i_1"));
    assert!(!code.contains("empty"));
}

#[test]
fn each_with_index_counts_once_per_iteration() {
    assert_eq!(
        compile("{{#each items}}{{@index}}{{/each}}"),
        "let mut i_1 = 0;for this_1 in self.items{write!(f, \"{}\", i_1.as_display_html())?;i_1+=1;}"
    );
}

#[test]
fn each_with_else_guards_on_emptiness() {
    assert_eq!(
        compile("{{#each items}}X{{else}}Y{{/each}}"),
        "{let mut empty = true;for this_1 in self.items{empty = false;write!(f, \"X\")?;} if empty {write!(f, \"Y\")?;}}"
    );
}

#[test]
fn relative_path_resolves_against_outer_with() {
    assert_eq!(
        compile("{{#with a}}{{#with b}}{{../c}}{{/with}}{{/with}}"),
        "{let this_1 = self.a;{let this_2 = this_1.b;write!(f, \"{}\", this_1.c.as_display_html())?;}}"
    );
}

#[test]
fn raw_block_emits_verbatim() {
    // The braces are doubled inside the emitted format string, so the
    // rendered output is `literal {{nope}} text`, never an interpolation.
    assert_eq!(
        compile("{{{{raw}}}}literal {{nope}} text{{{{/raw}}}}"),
        "write!(f, \"literal {{{{nope}}}} text\")?;"
    );
}

#[test]
fn comment_contributes_nothing() {
    assert_eq!(compile("A{{! note }}B"), compile("AB"));
    assert_eq!(compile("A{{!-- {{ignored}} --}}B"), "write!(f, \"AB\")?;");
}

// --- gathered capabilities and variables ---

#[test]
fn uses_lists_needed_capabilities_in_first_use_order() {
    let rust = compile_rust("{{a}} {{{b}}} {{#if c}}x{{/if}}");
    assert_eq!(
        rust.uses("rusty_handlebars").to_string(),
        "use rusty_handlebars::{AsDisplayHtml,AsDisplay,AsBool}"
    );
}

#[test]
fn top_level_variables_are_gathered_once() {
    let rust = compile_rust("{{a}} {{b.c}} {{a}}");
    assert_eq!(rust.top_level_vars, vec!["a".to_string(), "b.c".to_string()]);
}

#[test]
fn top_level_variables_skip_block_locals() {
    let rust = compile_rust("{{#each items as item}}{{item}} {{other}}{{/each}}");
    assert_eq!(rust.top_level_vars, vec!["items".to_string(), "other".to_string()]);
}

#[test]
fn with_ref_binds_by_reference() {
    assert_eq!(
        compile("{{#with_ref a as b}}{{b}}{{/with_ref}}"),
        "{let b_1 = &self.a;write!(f, \"{}\", b_1.as_display_html())?;}"
    );
}

#[test]
fn each_ref_iterates_by_reference() {
    assert_eq!(
        compile("{{#each_ref items}}{{this}}{{/each_ref}}"),
        "for this_1 in &self.items{write!(f, \"{}\", this_1.as_display_html())?;}"
    );
}

#[test]
fn spaced_pipes_around_a_local_name() {
    assert_eq!(
        compile("{{#each items as | item |}}{{item}}{{/each}}"),
        "for item_1 in self.items{write!(f, \"{}\", item_1.as_display_html())?;}"
    );
}

#[test]
fn backslash_escapes_the_delimiter() {
    // A backslash neutralizes interpolation: the literal braced span is
    // emitted verbatim (braces doubled inside the format string), so the
    // rendered output is `a{{b}}c`.
    assert_eq!(compile("a\\{{b}}c"), "write!(f, \"a{{{{b}}}}c\")?;");
}

#[test]
fn raw_spans_cover_the_delimiters() {
    let e = Expression::from("Hello {{name}}!").unwrap().unwrap();
    assert_eq!(e.raw, "{{name}}");
    assert_eq!(format!("{}{}{}", e.prefix, e.raw, e.postfix), "Hello {{name}}!");
    let open = Expression::from("{{#if x}}A{{/if}}").unwrap().unwrap();
    assert_eq!(open.raw, "{{#if x}}");
    let block = Expression::from("{{{{raw}}}}body{{{{/raw}}}}tail").unwrap().unwrap();
    assert_eq!(block.raw, "{{{{raw}}}}body{{{{/raw}}}}");
    assert_eq!(block.content, "body");
    assert_eq!(block.postfix, "tail");
    let esc = Expression::from("a\\{{b}}c").unwrap().unwrap();
    assert_eq!(esc.prefix, "a");
    assert_eq!(esc.raw, "\\{{b}}");
    assert_eq!(esc.content, "{{b}}");
    assert_eq!(esc.postfix, "c");
}

#[test]
fn spaced_else_flips_the_branch() {
    assert_eq!(
        compile("{{#if x}}A{{ else }}B{{/if}}"),
        "if self.x.as_bool(){write!(f, \"A\")?;}else{write!(f, \"B\")?;}"
    );
    assert_eq!(
        compile("{{#each items}}X{{ else }}Y{{/each}}"),
        "{let mut empty = true;for this_1 in self.items{empty = false;write!(f, \"X\")?;} if empty {write!(f, \"Y\")?;}}"
    );
}

#[test]
fn optional_hint_turns_with_into_unwrap() {
    let code = compile_with_shapes(
        "{{#with author}}{{first_name}}{{/with}}",
        vec![("author".to_string(), VariableShape::Optional)],
    );
    assert_eq!(
        code,
        "if let Some(this_1) = self.author{write!(f, \"{}\", this_1.first_name.as_display_html())?;}"
    );
}

#[test]
fn optional_hint_turns_if_into_unwrap() {
    let code = compile_with_shapes(
        "{{#if author}}X{{else}}Y{{/if}}",
        vec![("author".to_string(), VariableShape::Optional)],
    );
    assert_eq!(
        code,
        "if let Some(this_1) = self.author{write!(f, \"X\")?;}else{write!(f, \"Y\")?;}"
    );
}

#[test]
fn plain_hint_keeps_the_boolean_test() {
    let code = compile_with_shapes(
        "{{#if author}}X{{/if}}",
        vec![("author".to_string(), VariableShape::Plain)],
    );
    assert_eq!(code, "if self.author.as_bool(){write!(f, \"X\")?;}");
}
