//! The built-in block helpers: `if`/`unless`, `if_some`/`if_some_ref`,
//! `with`/`with_ref` and `each`/`each_ref`, together with the factory
//! registry entries that [`add_builtins`] installs.
//!
//! Each helper's opening, else and closing emissions are pinned by spec
//! functions in [`crate::compiler`].

use vstd::prelude::*;
use vstd::string::*;
use crate::compiler::{append_with_depth, handle_close_m, indexer_inc, local_name, push_code,
    resolve_private_m, shape_get, shape_lookup, shapes_view, with_depth, write_var_m, Block,
    BlockModel, Compile, Local, LocalModel, Rust, RustModel, VariableShape};
use crate::error::{ErrorKind, ParseError, ParseResult};
use crate::expression::{lemma_scan_consumes, scan, Expression, ExpressionType};
use crate::expression_tokenizer::{lemma_scan_token_fits, scan_token, Token};
use crate::text::{dec_str, find_from, find_pat, head_not_ws, is_match_at, match_at, rfind_char,
    rfind_char_before, str_eq, trim_back, trim_char_back, trim_char_front, trim_front,
    trim_matches_char, trim_str, usize_string};

verus! {

/// The factory a helper name maps to: which block behaviour a block open
/// with that name creates.
#[derive(Clone, Copy, Debug, PartialEq, Eq, Structural)]
pub enum BlockFactory {
    If,
    Unless,
    IfSome,
    IfSomeRef,
    With,
    WithRef,
    Each,
    EachRef,
}

// ---------------------------------------------------------------------------
// Reading local declarations
// ---------------------------------------------------------------------------

/// The local name that follows an `as` keyword: pipe-delimited forms such
/// as `|name|` lose their pipes, and bare `|` tokens are skipped.
pub open spec fn strip_pipes_m(tail: Seq<char>) -> Result<Seq<char>, ErrorKind>
    decreases tail.len(),
        when head_not_ws(tail)
{
    match scan_token(tail) {
        Err(k) => Err(k),
        Ok(None) => Err(ErrorKind::MissingToken),
        Ok(Some(t)) => {
            if t.value == "|"@ {
                proof {
                    lemma_scan_token_fits(tail);
                }
                strip_pipes_m(t.tail)
            } else {
                Ok(trim_char_back(trim_char_front(t.value, '|'), '|'))
            }
        },
    }
}

/// Reads the local name after an `as` keyword.
fn strip_pipes<'a>(token: Token<'a>, expression: &Expression<'a>) -> (r: ParseResult<&'a str>)
    requires
        token.wf(),
    ensures
        match r {
            Ok(name) => strip_pipes_m(token@.tail) == Ok::<Seq<char>, ErrorKind>(name@),
            Err(pe) => strip_pipes_m(token@.tail) == Err::<Seq<char>, ErrorKind>(pe.kind),
        },
{
    let mut cur = token;
    loop
        invariant
            cur.wf(),
            strip_pipes_m(token@.tail) == strip_pipes_m(cur@.tail),
        decreases cur@.tail.len(),
    {
        match cur.next() {
            Err(pe) => {
                return Err(pe);
            },
            Ok(None) => {
                return Err(
                    ParseError::new(
                        ErrorKind::MissingToken,
                        "expected variable after as",
                        expression.around(),
                    ),
                );
            },
            Ok(Some(t)) => {
                if str_eq(t.value, "|") {
                    cur = t;
                } else {
                    return Ok(trim_matches_char(t.value, '|'));
                }
            },
        }
    }
}

/// The local binding declared after a block's subject: nothing yields the
/// implicit `this` binding, `as name` a named one, anything else fails.
pub open spec fn read_local_m(tail: Seq<char>) -> Result<LocalModel, ErrorKind> {
    match scan_token(tail) {
        Err(k) => Err(k),
        Ok(None) => Ok(LocalModel::This),
        Ok(Some(t)) => {
            if t.value == "as"@ {
                match strip_pipes_m(t.tail) {
                    Err(k) => Err(k),
                    Ok(name) => Ok(LocalModel::As(name)),
                }
            } else {
                Err(ErrorKind::UnexpectedToken)
            }
        },
    }
}

/// Reads the local declaration following `token`.
fn read_local<'a>(token: &Token<'a>, expression: &Expression<'a>) -> (r: ParseResult<Local>)
    requires
        token.wf(),
    ensures
        match r {
            Ok(local) => read_local_m(token@.tail) == Ok::<LocalModel, ErrorKind>(local@),
            Err(pe) => read_local_m(token@.tail) == Err::<LocalModel, ErrorKind>(pe.kind),
        },
{
    match token.next() {
        Err(pe) => Err(pe),
        Ok(None) => Ok(Local::This),
        Ok(Some(t)) => {
            if str_eq(t.value, "as") {
                match strip_pipes(t, expression) {
                    Err(pe) => Err(pe),
                    Ok(name) => Ok(Local::As(String::from_str(name))),
                }
            } else {
                let mut message = String::from_str("unexpected token ");
                message.append(t.value);
                Err(
                    ParseError::new(
                        ErrorKind::UnexpectedToken,
                        message.as_str(),
                        expression.around(),
                    ),
                )
            }
        },
    }
}

// ---------------------------------------------------------------------------
// The lookahead scans of `each`
// ---------------------------------------------------------------------------

/// Whether the `../` prefix of a private-variable reference cancels out to
/// exactly the given depth.
pub open spec fn rel_depth(prefix: Seq<char>, depth: int) -> bool
    decreases prefix.len(),
{
    if match_at(prefix, "../"@, 0) {
        proof {
            reveal_strlit("../");
        }
        rel_depth(prefix.subrange(3, prefix.len() as int), depth - 1)
    } else {
        depth == 0
    }
}

proof fn lemma_rel_depth_neg(prefix: Seq<char>, depth: int)
    requires
        depth < 0,
    ensures
        !rel_depth(prefix, depth),
    decreases prefix.len(),
{
    reveal_strlit("../");
    if match_at(prefix, "../"@, 0) {
        lemma_rel_depth_neg(prefix.subrange(3, prefix.len() as int), depth - 1);
    }
}

/// Whether one expression's content references the index of the loop that
/// is `depth` levels out: the first `index` occurrence, the `@` before it,
/// and a `../` chain that cancels to exactly that depth.
pub open spec fn contains_indexer_m(src: Seq<char>, depth: int) -> bool {
    match find_from(src, "index"@, 0) {
        None => false,
        Some(pos) => match rfind_char(src, '@', pos) {
            None => false,
            Some(start) => rel_depth(src.subrange(start + 1, pos), depth),
        },
    }
}

/// Whether `src` references the index of the loop `depth` levels out.
fn contains_indexer(src: &str, depth: usize) -> (r: bool)
    ensures
        r == contains_indexer_m(src@, depth as int),
{
    let len = src.unicode_len();
    match find_pat(src, "index", 0) {
        None => false,
        Some(pos) => match rfind_char_before(src, '@', pos) {
            None => false,
            Some(start) => {
                let mut prefix = src.substring_char(start + 1, pos);
                let mut prefix_len = pos - (start + 1);
                let mut d = depth;
                loop
                    invariant
                        prefix_len == prefix@.len(),
                        d <= depth,
                        start + 1 <= pos <= src@.len(),
                        find_from(src@, "index"@, 0) == Some(pos as int),
                        rfind_char(src@, '@', pos as int) == Some(start as int),
                        rel_depth(src@.subrange(start + 1, pos as int), depth as int)
                            == rel_depth(prefix@, d as int),
                    decreases prefix_len,
                {
                    proof {
                        reveal_strlit("../");
                    }
                    let is_rel = if prefix_len >= 3 {
                        is_match_at(prefix, "../", 0, 3)
                    } else {
                        false
                    };
                    if !is_rel {
                        return d == 0;
                    }
                    if d == 0 {
                        proof {
                            lemma_rel_depth_neg(
                                prefix@.subrange(3, prefix@.len() as int),
                                -1,
                            );
                        }
                        return false;
                    }
                    prefix = prefix.substring_char(3, prefix_len);
                    prefix_len = prefix_len - 3;
                    d = d - 1;
                }
            },
        },
    }
}

/// Whether the body ahead of an opened loop references this loop's index:
/// the scan walks expressions to the matching close, tracking nesting, and
/// ignores comments and raw text.
pub open spec fn scan_for_indexer(src: Seq<char>, depth: int) -> Result<bool, ErrorKind>
    decreases src.len(),
{
    match scan(src) {
        Err(k) => Err(k),
        Ok(None) => Ok(false),
        Ok(Some(e)) => {
            proof {
                lemma_scan_consumes(src);
            }
            match e.expression_type {
                ExpressionType::Comment => scan_for_indexer(e.postfix, depth),
                ExpressionType::Escaped => scan_for_indexer(e.postfix, depth),
                ExpressionType::Open => {
                    if contains_indexer_m(e.content, depth - 1) {
                        Ok(true)
                    } else {
                        scan_for_indexer(e.postfix, depth + 1)
                    }
                },
                ExpressionType::Close => {
                    if depth == 1 {
                        Ok(false)
                    } else {
                        scan_for_indexer(e.postfix, depth - 1)
                    }
                },
                _ => {
                    if contains_indexer_m(e.content, depth - 1) {
                        Ok(true)
                    } else {
                        scan_for_indexer(e.postfix, depth)
                    }
                },
            }
        },
    }
}

/// Scans the unparsed body of a loop for a reference to this loop's index.
fn check_for_indexer(src: &str) -> (r: ParseResult<bool>)
    ensures
        match r {
            Ok(found) => scan_for_indexer(src@, 1) == Ok::<bool, ErrorKind>(found),
            Err(pe) => scan_for_indexer(src@, 1) == Err::<bool, ErrorKind>(pe.kind),
        },
{
    let mut rest = src;
    let mut rest_len = rest.unicode_len();
    let mut depth: usize = 1;
    loop
        invariant
            rest_len == rest@.len(),
            depth >= 1,
            rest@.len() <= src@.len(),
            src@.len() <= usize::MAX,
            5 * (depth - 1) <= src@.len() - rest@.len(),
            scan_for_indexer(src@, 1) == scan_for_indexer(rest@, depth as int),
        decreases rest_len,
    {
        proof {
            lemma_scan_consumes(rest@);
        }
        let e = match Expression::from(rest) {
            Err(pe) => {
                return Err(pe);
            },
            Ok(None) => {
                return Ok(false);
            },
            Ok(Some(e)) => e,
        };
        match e.expression_type {
            ExpressionType::Comment => {},
            ExpressionType::Escaped => {},
            ExpressionType::Open => {
                if contains_indexer(e.content, depth - 1) {
                    return Ok(true);
                }
                assert(5 * (depth - 1) <= usize::MAX);
                depth = depth + 1;
            },
            ExpressionType::Close => {
                if depth == 1 {
                    return Ok(false);
                }
                depth = depth - 1;
            },
            _ => {
                if contains_indexer(e.content, depth - 1) {
                    return Ok(true);
                }
            },
        }
        rest = e.postfix;
        rest_len = rest.unicode_len();
    }
}

/// Whether the body ahead of an opened loop holds an `else` clause at this
/// loop's own nesting level, before the matching close.
pub open spec fn scan_for_else(src: Seq<char>, depth: int) -> Result<bool, ErrorKind>
    decreases src.len(),
{
    match scan(src) {
        Err(k) => Err(k),
        Ok(None) => Ok(false),
        Ok(Some(e)) => {
            proof {
                lemma_scan_consumes(src);
            }
            match e.expression_type {
                ExpressionType::Comment => scan_for_else(e.postfix, depth),
                ExpressionType::Escaped => scan_for_else(e.postfix, depth),
                ExpressionType::Open => scan_for_else(e.postfix, depth + 1),
                ExpressionType::Close => {
                    if depth == 1 {
                        Ok(false)
                    } else {
                        scan_for_else(e.postfix, depth - 1)
                    }
                },
                _ => {
                    if trim_back(trim_front(e.content)) == "else"@ && depth == 1 {
                        Ok(true)
                    } else {
                        scan_for_else(e.postfix, depth)
                    }
                },
            }
        },
    }
}

/// Scans the unparsed body of a loop for a sibling `else` clause.
fn check_for_else(src: &str) -> (r: ParseResult<bool>)
    ensures
        match r {
            Ok(found) => scan_for_else(src@, 1) == Ok::<bool, ErrorKind>(found),
            Err(pe) => scan_for_else(src@, 1) == Err::<bool, ErrorKind>(pe.kind),
        },
{
    let mut rest = src;
    let mut rest_len = rest.unicode_len();
    let mut depth: usize = 1;
    loop
        invariant
            rest_len == rest@.len(),
            depth >= 1,
            rest@.len() <= src@.len(),
            src@.len() <= usize::MAX,
            5 * (depth - 1) <= src@.len() - rest@.len(),
            scan_for_else(src@, 1) == scan_for_else(rest@, depth as int),
        decreases rest_len,
    {
        proof {
            lemma_scan_consumes(rest@);
        }
        let e = match Expression::from(rest) {
            Err(pe) => {
                return Err(pe);
            },
            Ok(None) => {
                return Ok(false);
            },
            Ok(Some(e)) => e,
        };
        match e.expression_type {
            ExpressionType::Comment => {},
            ExpressionType::Escaped => {},
            ExpressionType::Open => {
                assert(5 * (depth - 1) <= usize::MAX);
                depth = depth + 1;
            },
            ExpressionType::Close => {
                if depth == 1 {
                    return Ok(false);
                }
                depth = depth - 1;
            },
            _ => {
                if depth == 1 && str_eq(trim_str(e.content), "else") {
                    return Ok(true);
                }
            },
        }
        rest = e.postfix;
        rest_len = rest.unicode_len();
    }
}

// ---------------------------------------------------------------------------
// if / unless
// ---------------------------------------------------------------------------

/// The behaviour of an `if` or `unless` block: no locals; `else` flips the
/// branch.
pub struct IfOrUnless {}

/// What opening an `if` or `unless` block emits: the given opening text,
/// the subject under a boolean coercion, and the opening brace; the
/// boolean-coercion capability is recorded.
pub open spec fn cond_open_m(
    stack: Seq<crate::compiler::ScopeModel>,
    outer: Seq<char>,
    tail: Seq<char>,
    prefix_text: Seq<char>,
    ru: RustModel,
) -> Result<RustModel, ErrorKind> {
    match scan_token(tail) {
        Err(k) => Err(k),
        Ok(None) => Err(ErrorKind::MissingToken),
        Ok(Some(var)) => {
            let ru1 = push_code(
                RustModel { using: crate::compiler::insert_unique(ru.using, "AsBool"@), ..ru },
                prefix_text,
            );
            match write_var_m(stack, outer, var, ru1) {
                Err(k) => Err(k),
                Ok(ru2) => Ok(push_code(ru2, ".as_bool(){"@)),
            }
        },
    }
}

impl IfOrUnless {
    /// Opens an `if` or `unless` block: requires one following subject
    /// token, whose boolean coercion gates the branch.
    pub fn new<'a>(
        label: &str,
        prefix: &str,
        compile: &Compile<'a>,
        token: Token<'a>,
        expression: &'a Expression<'a>,
        rust: &mut Rust,
    ) -> (r: ParseResult<IfOrUnless>)
        requires
            compile.wf(),
            token.wf(),
            token@.tail.len() <= expression@.content.len(),
        ensures
            match r {
                Ok(_) => cond_open_m(
                    compile.stack_model(),
                    expression@.content,
                    token@.tail,
                    prefix@,
                    old(rust)@,
                ) == Ok::<RustModel, ErrorKind>(final(rust)@),
                Err(pe) => cond_open_m(
                    compile.stack_model(),
                    expression@.content,
                    token@.tail,
                    prefix@,
                    old(rust)@,
                ) == Err::<RustModel, ErrorKind>(pe.kind),
            },
    {
        match token.next() {
            Err(pe) => Err(pe),
            Ok(None) => {
                let mut message = String::from_str("expected variable after ");
                message.append(label);
                Err(
                    ParseError::new(ErrorKind::MissingToken, message.as_str(), expression.around()),
                )
            },
            Ok(Some(var)) => {
                rust.insert_use("AsBool");
                rust.code.append(prefix);
                match compile.write_var(expression, rust, &var) {
                    Err(pe) => {
                        return Err(pe);
                    },
                    Ok(()) => {},
                }
                rust.code.append(".as_bool(){");
                Ok(IfOrUnless {  })
            },
        }
    }

    /// Emits the branch flip of an `else`.
    pub fn handle_else(&self, rust: &mut Rust)
        ensures
            final(rust)@ == push_code(old(rust)@, "}else{"@),
    {
        rust.code.append("}else{");
    }
}

// ---------------------------------------------------------------------------
// if_some / if_some_ref
// ---------------------------------------------------------------------------

/// The behaviour of an `if_some` block: binds a local to the unwrapped
/// value; `else` flips the branch.
pub struct IfSome {
    pub local: Local,
}

/// What opening an `if_some` block emits: an `if let` unwrapping the
/// subject (by reference for the `_ref` variant) into the depth-named
/// local.
pub open spec fn if_some_open_m(
    stack: Seq<crate::compiler::ScopeModel>,
    outer: Seq<char>,
    tail: Seq<char>,
    by_ref: bool,
    new_depth: int,
    ru: RustModel,
) -> Result<(LocalModel, RustModel), ErrorKind> {
    match scan_token(tail) {
        Err(k) => Err(k),
        Ok(None) => Err(ErrorKind::MissingToken),
        Ok(Some(next)) => match read_local_m(next.tail) {
            Err(k) => Err(k),
            Ok(local) => {
                let ru1 = push_code(
                    ru,
                    "if let Some("@ + with_depth(local_name(local), new_depth) + ") = "@ + if by_ref {
                        "&"@
                    } else {
                        Seq::<char>::empty()
                    },
                );
                match write_var_m(stack, outer, next, ru1) {
                    Err(k) => Err(k),
                    Ok(ru2) => Ok((local, push_code(ru2, "{"@))),
                }
            },
        },
    }
}

impl IfSome {
    /// Opens an `if_some` block: requires one following subject token and
    /// an optional `as name` local declaration.
    pub fn new<'a>(
        by_ref: bool,
        compile: &Compile<'a>,
        token: Token<'a>,
        expression: &'a Expression<'a>,
        rust: &mut Rust,
    ) -> (r: ParseResult<IfSome>)
        requires
            compile.wf(),
            token.wf(),
            token@.tail.len() <= expression@.content.len(),
        ensures
            match r {
                Ok(b) => ({
                    let m = if_some_open_m(
                        compile.stack_model(),
                        expression@.content,
                        token@.tail,
                        by_ref,
                        compile.open_stack@.len() as int,
                        old(rust)@,
                    );
                    m is Ok && m->Ok_0.0 == b.local@ && m->Ok_0.1 == final(rust)@
                }),
                Err(pe) => if_some_open_m(
                    compile.stack_model(),
                    expression@.content,
                    token@.tail,
                    by_ref,
                    compile.open_stack@.len() as int,
                    old(rust)@,
                ) == Err::<(LocalModel, RustModel), ErrorKind>(pe.kind),
            },
    {
        let next = match token.next() {
            Err(pe) => {
                return Err(pe);
            },
            Ok(None) => {
                let message = if by_ref {
                    String::from_str("expected variable after if_some_ref")
                } else {
                    String::from_str("expected variable after if_some")
                };
                return Err(
                    ParseError::new(ErrorKind::MissingToken, message.as_str(), expression.around()),
                );
            },
            Ok(Some(next)) => next,
        };
        let local = match read_local(&next, expression) {
            Err(pe) => {
                return Err(pe);
            },
            Ok(local) => local,
        };
        rust.code.append("if let Some(");
        compile.write_local(rust, &local);
        rust.code.append(") = ");
        if by_ref {
            rust.code.append("&");
        }
        proof {
            assert(rust@.code =~= old(rust)@.code + ("if let Some("@ + with_depth(
                local_name(local@),
                compile.open_stack@.len() as int,
            ) + ") = "@ + if by_ref {
                "&"@
            } else {
                Seq::<char>::empty()
            }));
        }
        match compile.write_var(expression, rust, &next) {
            Err(pe) => {
                return Err(pe);
            },
            Ok(()) => {},
        }
        rust.code.append("{");
        Ok(IfSome { local })
    }

    /// Emits the branch flip of an `else`.
    pub fn handle_else(&self, rust: &mut Rust)
        ensures
            final(rust)@ == push_code(old(rust)@, "}else{"@),
    {
        rust.code.append("}else{");
    }
}

// ---------------------------------------------------------------------------
// with / with_ref
// ---------------------------------------------------------------------------

/// The behaviour of a `with` block: binds a local to a new context; no
/// else branch.
pub struct With {
    pub local: Local,
}

/// What opening a `with` block emits: a scoped `let` binding the subject
/// (by reference for the `_ref` variant) under the depth-named local.
pub open spec fn with_open_m(
    stack: Seq<crate::compiler::ScopeModel>,
    outer: Seq<char>,
    tail: Seq<char>,
    by_ref: bool,
    new_depth: int,
    ru: RustModel,
) -> Result<(LocalModel, RustModel), ErrorKind> {
    match scan_token(tail) {
        Err(k) => Err(k),
        Ok(None) => Err(ErrorKind::MissingToken),
        Ok(Some(next)) => match read_local_m(next.tail) {
            Err(k) => Err(k),
            Ok(local) => {
                let ru1 = push_code(
                    ru,
                    "{let "@ + with_depth(local_name(local), new_depth) + " = "@ + if by_ref {
                        "&"@
                    } else {
                        Seq::<char>::empty()
                    },
                );
                match write_var_m(stack, outer, next, ru1) {
                    Err(k) => Err(k),
                    Ok(ru2) => Ok((local, push_code(ru2, ";"@))),
                }
            },
        },
    }
}

impl With {
    /// Opens a `with` block: requires one following subject token and an
    /// optional `as name` local declaration.
    pub fn new<'a>(
        by_ref: bool,
        compile: &Compile<'a>,
        token: Token<'a>,
        expression: &'a Expression<'a>,
        rust: &mut Rust,
    ) -> (r: ParseResult<With>)
        requires
            compile.wf(),
            token.wf(),
            token@.tail.len() <= expression@.content.len(),
        ensures
            match r {
                Ok(b) => ({
                    let m = with_open_m(
                        compile.stack_model(),
                        expression@.content,
                        token@.tail,
                        by_ref,
                        compile.open_stack@.len() as int,
                        old(rust)@,
                    );
                    m is Ok && m->Ok_0.0 == b.local@ && m->Ok_0.1 == final(rust)@
                }),
                Err(pe) => with_open_m(
                    compile.stack_model(),
                    expression@.content,
                    token@.tail,
                    by_ref,
                    compile.open_stack@.len() as int,
                    old(rust)@,
                ) == Err::<(LocalModel, RustModel), ErrorKind>(pe.kind),
            },
    {
        let next = match token.next() {
            Err(pe) => {
                return Err(pe);
            },
            Ok(None) => {
                let message = if by_ref {
                    String::from_str("expected variable after with_ref")
                } else {
                    String::from_str("expected variable after with")
                };
                return Err(
                    ParseError::new(ErrorKind::MissingToken, message.as_str(), expression.around()),
                );
            },
            Ok(Some(next)) => next,
        };
        let local = match read_local(&next, expression) {
            Err(pe) => {
                return Err(pe);
            },
            Ok(local) => local,
        };
        rust.code.append("{let ");
        compile.write_local(rust, &local);
        rust.code.append(" = ");
        if by_ref {
            rust.code.append("&");
        }
        proof {
            assert(rust@.code =~= old(rust)@.code + ("{let "@ + with_depth(
                local_name(local@),
                compile.open_stack@.len() as int,
            ) + " = "@ + if by_ref {
                "&"@
            } else {
                Seq::<char>::empty()
            }));
        }
        match compile.write_var(expression, rust, &next) {
            Err(pe) => {
                return Err(pe);
            },
            Ok(()) => {},
        }
        rust.code.append(";");
        Ok(With { local })
    }
}

// ---------------------------------------------------------------------------
// each / each_ref
// ---------------------------------------------------------------------------

/// The behaviour of an `each` block: binds a local to the element,
/// optionally tracks a numeric index counter and an emptiness flag.
pub struct Each {
    pub local: Local,
    /// The name of the allocated index counter, when the body uses
    /// `@index` at this loop's level.
    pub indexer: Option<String>,
    /// Whether the body holds an `else` clause at this loop's level.
    pub has_else: bool,
}

/// What opening an `each` block emits.  Before the loop, the body ahead is
/// scanned twice without consuming it: a reference to this loop's index
/// allocates and initializes a depth-named counter, and a sibling `else`
/// opens an outer scope holding an emptiness flag.  Then the loop header
/// binds the depth-named local over the subject (by reference for the
/// `_ref` variant), and a non-empty iteration clears the flag.
pub open spec fn each_open_m(
    stack: Seq<crate::compiler::ScopeModel>,
    outer: Seq<char>,
    postfix: Seq<char>,
    tail: Seq<char>,
    by_ref: bool,
    new_depth: int,
    ru: RustModel,
) -> Result<(BlockModel, RustModel), ErrorKind> {
    match scan_token(tail) {
        Err(k) => Err(k),
        Ok(None) => Err(ErrorKind::MissingToken),
        Ok(Some(next)) => match scan_for_indexer(postfix, 1) {
            Err(k) => Err(k),
            Ok(found) => {
                let indexer = if found {
                    Some("i_"@ + dec_str(new_depth))
                } else {
                    None
                };
                let ru1 = if found {
                    push_code(ru, "let mut "@ + ("i_"@ + dec_str(new_depth)) + " = 0;"@)
                } else {
                    ru
                };
                match read_local_m(next.tail) {
                    Err(k) => Err(k),
                    Ok(local) => match scan_for_else(postfix, 1) {
                        Err(k) => Err(k),
                        Ok(has_else) => {
                            let ru2 = if has_else {
                                push_code(ru1, "{let mut empty = true;"@)
                            } else {
                                ru1
                            };
                            let ru3 = push_code(
                                ru2,
                                "for "@ + with_depth(local_name(local), new_depth) + " in "@
                                    + if by_ref {
                                    "&"@
                                } else {
                                    Seq::<char>::empty()
                                },
                            );
                            match write_var_m(stack, outer, next, ru3) {
                                Err(k) => Err(k),
                                Ok(ru4) => Ok(
                                    (
                                        BlockModel::Loop { local, indexer, has_else },
                                        push_code(
                                            ru4,
                                            if has_else {
                                                "{empty = false;"@
                                            } else {
                                                "{"@
                                            },
                                        ),
                                    ),
                                ),
                            }
                        },
                    },
                }
            },
        },
    }
}

impl Each {
    /// Opens an `each` block: requires one following subject token and an
    /// optional `as name` local declaration, after the two lookahead scans
    /// over the block's unparsed body.
    #[verifier::rlimit(100)]
    #[verifier::spinoff_prover]
    pub fn new<'a>(
        by_ref: bool,
        compile: &Compile<'a>,
        token: Token<'a>,
        expression: &'a Expression<'a>,
        rust: &mut Rust,
    ) -> (r: ParseResult<Each>)
        requires
            compile.wf(),
            token.wf(),
            token@.tail.len() <= expression@.content.len(),
        ensures
            match r {
                Ok(b) => ({
                    let m = each_open_m(
                        compile.stack_model(),
                        expression@.content,
                        expression@.postfix,
                        token@.tail,
                        by_ref,
                        compile.open_stack@.len() as int,
                        old(rust)@,
                    );
                    m is Ok && m->Ok_0.0 == b.block_model() && m->Ok_0.1 == final(rust)@
                }),
                Err(pe) => each_open_m(
                    compile.stack_model(),
                    expression@.content,
                    expression@.postfix,
                    token@.tail,
                    by_ref,
                    compile.open_stack@.len() as int,
                    old(rust)@,
                ) == Err::<(BlockModel, RustModel), ErrorKind>(pe.kind),
            },
    {
        let next = match token.next() {
            Err(pe) => {
                return Err(pe);
            },
            Ok(None) => {
                let message = if by_ref {
                    String::from_str("expected variable after each_ref")
                } else {
                    String::from_str("expected variable after each")
                };
                return Err(
                    ParseError::new(ErrorKind::MissingToken, message.as_str(), expression.around()),
                );
            },
            Ok(Some(next)) => next,
        };
        let found = match check_for_indexer(expression.postfix) {
            Err(pe) => {
                return Err(pe);
            },
            Ok(found) => found,
        };
        let indexer: Option<String> = if found {
            let mut name = String::from_str("i_");
            let d = usize_string(compile.open_stack.len());
            name.append(d.as_str());
            rust.code.append("let mut ");
            rust.code.append(name.as_str());
            rust.code.append(" = 0;");
            assert(rust@.code =~= old(rust)@.code + ("let mut "@ + ("i_"@ + dec_str(
                compile.open_stack@.len() as int,
            )) + " = 0;"@));
            Some(name)
        } else {
            None
        };
        let local = match read_local(&next, expression) {
            Err(pe) => {
                return Err(pe);
            },
            Ok(local) => local,
        };
        let has_else = match check_for_else(expression.postfix) {
            Err(pe) => {
                return Err(pe);
            },
            Ok(has_else) => has_else,
        };
        if has_else {
            rust.code.append("{let mut empty = true;");
        }
        let ghost before_header = rust@;
        rust.code.append("for ");
        compile.write_local(rust, &local);
        rust.code.append(" in ");
        if by_ref {
            rust.code.append("&");
        }
        proof {
            assert(rust@.code =~= before_header.code + ("for "@ + with_depth(
                local_name(local@),
                compile.open_stack@.len() as int,
            ) + " in "@ + if by_ref {
                "&"@
            } else {
                Seq::<char>::empty()
            }));
        }
        match compile.write_var(expression, rust, &next) {
            Err(pe) => {
                return Err(pe);
            },
            Ok(()) => {},
        }
        if has_else {
            rust.code.append("{empty = false;");
        } else {
            rust.code.append("{");
        }
        Ok(Each { local, indexer, has_else })
    }

    /// The mathematical value of this behaviour.
    pub open spec fn block_model(&self) -> BlockModel {
        BlockModel::Loop {
            local: self.local@,
            indexer: match self.indexer {
                Some(ref s) => Some(s@),
                None => None,
            },
            has_else: self.has_else,
        }
    }

    /// Emits the increment of the index counter, if one is allocated.
    pub fn write_indexer(&self, rust: &mut Rust)
        ensures
            final(rust)@ == push_code(
                old(rust)@,
                indexer_inc(
                    match self.indexer {
                        Some(ref s) => Some(s@),
                        None => None,
                    },
                ),
            ),
    {
        match &self.indexer {
            Some(ix) => {
                rust.code.append(ix.as_str());
                rust.code.append("+=1;");
                assert(final(rust)@ =~= push_code(
                    old(rust)@,
                    indexer_inc(
                        match self.indexer {
                            Some(ref s) => Some(s@),
                            None => None,
                        },
                    ),
                ));
            },
            None => {
                assert(final(rust)@ =~= push_code(
                    old(rust)@,
                    indexer_inc(
                        match self.indexer {
                            Some(ref s) => Some(s@),
                            None => None,
                        },
                    ),
                ));
            },
        }
    }

    /// Emits a component access of the loop's key-value element.
    pub fn write_map_var(&self, depth: usize, suffix: &str, rust: &mut Rust)
        ensures
            final(rust)@ == push_code(
                old(rust)@,
                with_depth(local_name(self.local@), depth as int) + suffix@,
            ),
    {
        append_with_depth(
            depth,
            match &self.local {
                Local::As(name) => name.as_str(),
                _ => "this",
            },
            rust,
        );
        rust.code.append(suffix);
        assert(final(rust)@ =~= push_code(
            old(rust)@,
            with_depth(local_name(self.local@), depth as int) + suffix@,
        ));
    }

    /// Emits the branch flip of an `else`: the iteration boundary counts,
    /// then the emptiness test opens.
    pub fn handle_else(&self, rust: &mut Rust)
        ensures
            final(rust)@ == push_code(
                old(rust)@,
                indexer_inc(
                    match self.indexer {
                        Some(ref s) => Some(s@),
                        None => None,
                    },
                ) + "} if empty {"@,
            ),
    {
        self.write_indexer(rust);
        rust.code.append("} if empty {");
        assert(final(rust)@ =~= push_code(
            old(rust)@,
            indexer_inc(
                match self.indexer {
                    Some(ref s) => Some(s@),
                    None => None,
                },
            ) + "} if empty {"@,
        ));
    }

    /// Renders one of the loop's private names: the allocated `index`
    /// counter, or the `key`/`value` components of the element.
    pub fn resolve_private(
        &self,
        depth: usize,
        expression: &Expression<'_>,
        name: &str,
        rust: &mut Rust,
    ) -> (r: ParseResult<()>)
        ensures
            match r {
                Ok(()) => ({
                    let rp = resolve_private_m(self.block_model(), depth as int, name@);
                    rp is Ok && final(rust)@ == push_code(old(rust)@, rp->Ok_0)
                }),
                Err(pe) => resolve_private_m(self.block_model(), depth as int, name@) == Err::<
                    Seq<char>,
                    ErrorKind,
                >(pe.kind) && final(rust)@ == old(rust)@,
            },
    {
        if str_eq(name, "index") {
            match &self.indexer {
                Some(ix) => {
                    rust.code.append(ix.as_str());
                    Ok(())
                },
                None => {
                    let mut message = String::from_str("unexpected variable ");
                    message.append(name);
                    Err(
                        ParseError::new(
                            ErrorKind::UnknownPrivateVariable,
                            message.as_str(),
                            expression.around(),
                        ),
                    )
                },
            }
        } else if str_eq(name, "key") {
            self.write_map_var(depth, ".0", rust);
            Ok(())
        } else if str_eq(name, "value") {
            self.write_map_var(depth, ".1", rust);
            Ok(())
        } else {
            let mut message = String::from_str("unexpected variable ");
            message.append(name);
            Err(
                ParseError::new(
                    ErrorKind::UnknownPrivateVariable,
                    message.as_str(),
                    expression.around(),
                ),
            )
        }
    }

    /// Emits the code closing the loop: both closing braces when an
    /// emptiness flag was opened, else the iteration boundary count and one
    /// closing brace.
    pub fn handle_close(&self, rust: &mut Rust)
        ensures
            final(rust)@ == handle_close_m(self.block_model(), old(rust)@),
    {
        if self.has_else {
            rust.code.append("}}");
        } else {
            self.write_indexer(rust);
            rust.code.append("}");
            assert(final(rust)@ =~= handle_close_m(self.block_model(), old(rust)@));
        }
    }
}

// ---------------------------------------------------------------------------
// Factories
// ---------------------------------------------------------------------------

/// Whether the subject variable of a block open is declared optional: the
/// first token after the helper name is looked up among the caller's shape
/// hints.
pub open spec fn subject_optional_m(
    shapes: Seq<(Seq<char>, VariableShape)>,
    tail: Seq<char>,
) -> Result<bool, ErrorKind> {
    match scan_token(tail) {
        Err(k) => Err(k),
        Ok(None) => Ok(false),
        Ok(Some(var)) => Ok(shape_lookup(shapes, var.value) == Some(VariableShape::Optional)),
    }
}

/// Peeks at a block's subject and looks its declared shape up.
fn subject_is_optional(compile: &Compile<'_>, token: &Token<'_>) -> (r: ParseResult<bool>)
    requires
        token.wf(),
    ensures
        match r {
            Ok(b) => subject_optional_m(shapes_view(compile.variable_types), token@.tail)
                == Ok::<bool, ErrorKind>(b),
            Err(pe) => subject_optional_m(shapes_view(compile.variable_types), token@.tail)
                == Err::<bool, ErrorKind>(pe.kind),
        },
{
    match token.next() {
        Err(pe) => Err(pe),
        Ok(None) => Ok(false),
        Ok(Some(var)) => match shape_get(compile.variable_types, var.value) {
            Some(VariableShape::Optional) => Ok(true),
            _ => Ok(false),
        },
    }
}

/// What the factory a block open dispatches to emits, and the behaviour it
/// creates.  A subject declared optional turns `if` and `with` into the
/// option-aware behaviour, keeping the factory's own binding mode.
pub open spec fn open_block_m(
    f: BlockFactory,
    stack: Seq<crate::compiler::ScopeModel>,
    shapes: Seq<(Seq<char>, VariableShape)>,
    e: crate::expression::ExprModel,
    tail: Seq<char>,
    new_depth: int,
    ru: RustModel,
) -> Result<(BlockModel, RustModel), ErrorKind> {
    match f {
        BlockFactory::If => match subject_optional_m(shapes, tail) {
            Err(k) => Err(k),
            Ok(true) => match if_some_open_m(stack, e.content, tail, false, new_depth, ru) {
                Err(k) => Err(k),
                Ok(p) => Ok((BlockModel::Opt(p.0), p.1)),
            },
            Ok(false) => match cond_open_m(stack, e.content, tail, "if "@, ru) {
                Err(k) => Err(k),
                Ok(ru1) => Ok((BlockModel::Cond, ru1)),
            },
        },
        BlockFactory::Unless => match cond_open_m(stack, e.content, tail, "if !"@, ru) {
            Err(k) => Err(k),
            Ok(ru1) => Ok((BlockModel::Cond, ru1)),
        },
        BlockFactory::IfSome => match if_some_open_m(stack, e.content, tail, false, new_depth, ru) {
            Err(k) => Err(k),
            Ok(p) => Ok((BlockModel::Opt(p.0), p.1)),
        },
        BlockFactory::IfSomeRef => match if_some_open_m(
            stack,
            e.content,
            tail,
            true,
            new_depth,
            ru,
        ) {
            Err(k) => Err(k),
            Ok(p) => Ok((BlockModel::Opt(p.0), p.1)),
        },
        BlockFactory::With => match subject_optional_m(shapes, tail) {
            Err(k) => Err(k),
            Ok(true) => match if_some_open_m(stack, e.content, tail, false, new_depth, ru) {
                Err(k) => Err(k),
                Ok(p) => Ok((BlockModel::Opt(p.0), p.1)),
            },
            Ok(false) => match with_open_m(stack, e.content, tail, false, new_depth, ru) {
                Err(k) => Err(k),
                Ok(p) => Ok((BlockModel::Ctx(p.0), p.1)),
            },
        },
        BlockFactory::WithRef => match subject_optional_m(shapes, tail) {
            Err(k) => Err(k),
            Ok(true) => match if_some_open_m(stack, e.content, tail, true, new_depth, ru) {
                Err(k) => Err(k),
                Ok(p) => Ok((BlockModel::Opt(p.0), p.1)),
            },
            Ok(false) => match with_open_m(stack, e.content, tail, true, new_depth, ru) {
                Err(k) => Err(k),
                Ok(p) => Ok((BlockModel::Ctx(p.0), p.1)),
            },
        },
        BlockFactory::Each => match each_open_m(
            stack,
            e.content,
            e.postfix,
            tail,
            false,
            new_depth,
            ru,
        ) {
            Err(k) => Err(k),
            Ok(p) => Ok(p),
        },
        BlockFactory::EachRef => match each_open_m(
            stack,
            e.content,
            e.postfix,
            tail,
            true,
            new_depth,
            ru,
        ) {
            Err(k) => Err(k),
            Ok(p) => Ok(p),
        },
    }
}

impl BlockFactory {
    /// Opens the block this factory builds, emitting its opening code.
    pub fn open<'a>(
        &self,
        compile: &Compile<'a>,
        token: Token<'a>,
        expression: &'a Expression<'a>,
        rust: &mut Rust,
    ) -> (r: ParseResult<Block>)
        requires
            compile.wf(),
            token.wf(),
            token@.tail.len() <= expression@.content.len(),
        ensures
            match r {
                Ok(b) => ({
                    let m = open_block_m(
                        *self,
                        compile.stack_model(),
                        shapes_view(compile.variable_types),
                        expression@,
                        token@.tail,
                        compile.open_stack@.len() as int,
                        old(rust)@,
                    );
                    m is Ok && m->Ok_0.0 == b@ && m->Ok_0.1 == final(rust)@ && !(b@ is Root)
                }),
                Err(pe) => open_block_m(
                    *self,
                    compile.stack_model(),
                    shapes_view(compile.variable_types),
                    expression@,
                    token@.tail,
                    compile.open_stack@.len() as int,
                    old(rust)@,
                ) == Err::<(BlockModel, RustModel), ErrorKind>(pe.kind),
            },
    {
        match self {
            BlockFactory::If => {
                let optional = match subject_is_optional(compile, &token) {
                    Err(pe) => {
                        return Err(pe);
                    },
                    Ok(b) => b,
                };
                if optional {
                    match IfSome::new(false, compile, token, expression, rust) {
                        Err(pe) => Err(pe),
                        Ok(b) => Ok(Block::Opt(b)),
                    }
                } else {
                    match IfOrUnless::new("if", "if ", compile, token, expression, rust) {
                        Err(pe) => Err(pe),
                        Ok(b) => Ok(Block::Cond(b)),
                    }
                }
            },
            BlockFactory::Unless => match IfOrUnless::new(
                "unless",
                "if !",
                compile,
                token,
                expression,
                rust,
            ) {
                Err(pe) => Err(pe),
                Ok(b) => Ok(Block::Cond(b)),
            },
            BlockFactory::IfSome => match IfSome::new(false, compile, token, expression, rust) {
                Err(pe) => Err(pe),
                Ok(b) => Ok(Block::Opt(b)),
            },
            BlockFactory::IfSomeRef => match IfSome::new(true, compile, token, expression, rust) {
                Err(pe) => Err(pe),
                Ok(b) => Ok(Block::Opt(b)),
            },
            BlockFactory::With => {
                let optional = match subject_is_optional(compile, &token) {
                    Err(pe) => {
                        return Err(pe);
                    },
                    Ok(b) => b,
                };
                if optional {
                    match IfSome::new(false, compile, token, expression, rust) {
                        Err(pe) => Err(pe),
                        Ok(b) => Ok(Block::Opt(b)),
                    }
                } else {
                    match With::new(false, compile, token, expression, rust) {
                        Err(pe) => Err(pe),
                        Ok(b) => Ok(Block::Ctx(b)),
                    }
                }
            },
            BlockFactory::WithRef => {
                let optional = match subject_is_optional(compile, &token) {
                    Err(pe) => {
                        return Err(pe);
                    },
                    Ok(b) => b,
                };
                if optional {
                    match IfSome::new(true, compile, token, expression, rust) {
                        Err(pe) => Err(pe),
                        Ok(b) => Ok(Block::Opt(b)),
                    }
                } else {
                    match With::new(true, compile, token, expression, rust) {
                        Err(pe) => Err(pe),
                        Ok(b) => Ok(Block::Ctx(b)),
                    }
                }
            },
            BlockFactory::Each => match Each::new(false, compile, token, expression, rust) {
                Err(pe) => Err(pe),
                Ok(b) => Ok(Block::Loop(b)),
            },
            BlockFactory::EachRef => match Each::new(true, compile, token, expression, rust) {
                Err(pe) => Err(pe),
                Ok(b) => Ok(Block::Loop(b)),
            },
        }
    }
}

/// The entries [`add_builtins`] registers, in order.
pub open spec fn builtin_entries() -> Seq<(Seq<char>, BlockFactory)> {
    seq![
        ("if"@, BlockFactory::If),
        ("unless"@, BlockFactory::Unless),
        ("if_some"@, BlockFactory::IfSome),
        ("if_some_ref"@, BlockFactory::IfSomeRef),
        ("with"@, BlockFactory::With),
        ("with_ref"@, BlockFactory::WithRef),
        ("each"@, BlockFactory::Each),
        ("each_ref"@, BlockFactory::EachRef),
    ]
}

/// Registers the built-in block helpers.
pub fn add_builtins(map: &mut crate::compiler::BlockMap)
    ensures
        crate::compiler::map_entries(final(map)) == crate::compiler::map_entries(old(map))
            + builtin_entries(),
{
    map.insert("if", BlockFactory::If);
    map.insert("unless", BlockFactory::Unless);
    map.insert("if_some", BlockFactory::IfSome);
    map.insert("if_some_ref", BlockFactory::IfSomeRef);
    map.insert("with", BlockFactory::With);
    map.insert("with_ref", BlockFactory::WithRef);
    map.insert("each", BlockFactory::Each);
    map.insert("each_ref", BlockFactory::EachRef);
    assert(crate::compiler::map_entries(final(map)) =~= crate::compiler::map_entries(old(map))
        + builtin_entries());
}

} // verus!
