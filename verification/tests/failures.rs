//! Every failure category reached through the public compiler, each from an
//! input that provokes it.

use dry_handlebars::block::add_builtins;
use dry_handlebars::compiler::{BlockMap, Compiler, Options};
use dry_handlebars::error::{ErrorKind, ParseError};

fn make_map() -> BlockMap {
    let mut map = BlockMap::new();
    add_builtins(&mut map);
    map
}

fn compile_err(src: &str) -> ParseError {
    Compiler::new(
        Options { root_var_name: Some("self"), write_var_name: "f", variable_types: Vec::new() },
        make_map(),
    )
    .compile(src)
    .unwrap_err()
}

#[test]
fn unclosed_delimiter() {
    assert!(matches!(compile_err("Hello {{name").kind, ErrorKind::UnclosedBlock));
}

#[test]
fn unclosed_block_helper() {
    assert!(matches!(compile_err("{{#if x}}A").kind, ErrorKind::UnclosedBlock));
}

#[test]
fn unclosed_raw_block() {
    assert!(matches!(
        compile_err("{{{{raw}}}}text without a matching close").kind,
        ErrorKind::UnclosedBlock
    ));
}

#[test]
fn mismatched_raw_block_name() {
    assert!(matches!(
        compile_err("{{{{raw}}}}text{{{{/other}}}}").kind,
        ErrorKind::UnclosedBlock
    ));
}

#[test]
fn empty_expression() {
    assert!(matches!(compile_err("a{{}}b").kind, ErrorKind::EmptyExpression));
}

#[test]
fn unmatched_brackets() {
    assert!(matches!(compile_err("{{(lookup a b}}").kind, ErrorKind::UnmatchedBrackets));
}

#[test]
fn unterminated_string() {
    assert!(matches!(compile_err("{{lookup a \"b}}").kind, ErrorKind::UnterminatedString));
}

#[test]
fn missing_token() {
    assert!(matches!(compile_err("{{ }}").kind, ErrorKind::MissingToken));
}

#[test]
fn missing_block_subject() {
    assert!(matches!(compile_err("{{#if}}A{{/if}}").kind, ErrorKind::MissingToken));
}

#[test]
fn unexpected_token_after_subject() {
    assert!(matches!(
        compile_err("{{#each items foo}}X{{/each}}").kind,
        ErrorKind::UnexpectedToken
    ));
}

#[test]
fn unknown_block_helper() {
    assert!(matches!(
        compile_err("{{#nope x}}A{{/nope}}").kind,
        ErrorKind::UnknownBlockHelper
    ));
}

#[test]
fn mismatched_block_close() {
    assert!(matches!(compile_err("{{/if}}").kind, ErrorKind::MismatchedBlockClose));
}

#[test]
fn else_under_with() {
    assert!(matches!(
        compile_err("{{#with a}}X{{else}}Y{{/with}}").kind,
        ErrorKind::ElseNotAllowed
    ));
}

#[test]
fn else_outside_any_block() {
    assert!(matches!(compile_err("A{{else}}B").kind, ErrorKind::ElseNotAllowed));
}

#[test]
fn relative_path_past_root() {
    assert!(matches!(compile_err("{{../x}}").kind, ErrorKind::ScopeNotFound));
}

#[test]
fn unknown_private_variable() {
    assert!(matches!(
        compile_err("{{#each xs}}{{@wat}}{{/each}}").kind,
        ErrorKind::UnknownPrivateVariable
    ));
}

#[test]
fn private_variable_outside_loop() {
    assert!(matches!(compile_err("{{@index}}").kind, ErrorKind::UnknownPrivateVariable));
}

#[test]
fn lookup_missing_argument() {
    assert!(matches!(compile_err("{{lookup a}}").kind, ErrorKind::WrongArgumentCount));
}

#[test]
fn lookup_extra_argument() {
    assert!(matches!(compile_err("{{lookup a b c}}").kind, ErrorKind::WrongArgumentCount));
}

#[test]
fn format_without_arguments() {
    assert!(matches!(compile_err("{{format}}").kind, ErrorKind::WrongArgumentCount));
}

#[test]
fn format_missing_value() {
    assert!(matches!(compile_err("{{format \"{}\"}}").kind, ErrorKind::WrongArgumentCount));
}

#[test]
fn format_extra_argument() {
    assert!(matches!(
        compile_err("{{format \"{}\" a b}}").kind,
        ErrorKind::WrongArgumentCount
    ));
}

#[test]
fn format_not_a_literal() {
    assert!(matches!(compile_err("{{format x y}}").kind, ErrorKind::FormatNotLiteral));
}

#[test]
fn error_message_carries_context() {
    let err = compile_err("{{#nope x}}A{{/nope}}");
    assert!(err.to_string().contains("unsupported block helper"));
}
