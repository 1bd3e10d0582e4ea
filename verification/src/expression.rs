//! The expression scanner: splits template source into a forward-only
//! sequence of typed expressions (interpolations, block markers, comments,
//! raw text).
//!
//! Scanning is a pure function of the remaining text: [`Expression::from`]
//! returns the next expression or `None` when no delimiter pair remains, and
//! [`Expression::next`] simply scans the returned `postfix`.  The behaviour
//! is pinned by the spec function [`scan`].

use vstd::prelude::*;
use vstd::string::*;
use crate::error::{ErrorKind, ParseError, ParseResult};
use crate::text::{find_from, find_pat, is_match_at, lemma_find_from_found, lemma_trim_front_len,
    match_at, trim_back, trim_end_str, trim_front, trim_start_str};

verus! {

/// The kind of a scanned expression.
#[derive(Clone, Copy, Debug, PartialEq, Eq, Structural)]
pub enum ExpressionType {
    /// `{{! comment }}` or `{{!-- comment --}}`; discarded from output.
    Comment,
    /// `{{expr}}`: interpolation whose rendering is HTML-escaped.
    HtmlEscaped,
    /// `{{{expr}}}`: interpolation rendered unescaped.
    Raw,
    /// `{{#expr}}`: a block open.
    Open,
    /// `{{/expr}}`: a block close.
    Close,
    /// `\{{...}}` or `{{{{name}}}}...{{{{/name}}}}`: text emitted verbatim.
    Escaped,
}

/// One scanned expression.
#[derive(Clone, Copy, Debug)]
pub struct Expression<'a> {
    /// The kind of expression.
    pub expression_type: ExpressionType,
    /// Text before the expression, to be emitted verbatim.
    pub prefix: &'a str,
    /// The inner, untrimmed text between the delimiters; for escaped text,
    /// what is emitted verbatim.
    pub content: &'a str,
    /// All remaining unscanned source after the expression.
    pub postfix: &'a str,
    /// The full matched span, delimiters included: the source between the
    /// end of `prefix` (before trimming) and the start of `postfix`
    /// (before trimming).
    pub raw: &'a str,
}

/// The mathematical value of an [`Expression`].
#[verifier::ext_equal]
pub struct ExprModel {
    pub expression_type: ExpressionType,
    pub prefix: Seq<char>,
    pub content: Seq<char>,
    pub postfix: Seq<char>,
    pub raw: Seq<char>,
}

impl<'a> View for Expression<'a> {
    type V = ExprModel;

    open spec fn view(&self) -> ExprModel {
        ExprModel {
            expression_type: self.expression_type,
            prefix: self.prefix@,
            content: self.content@,
            postfix: self.postfix@,
            raw: self.raw@,
        }
    }
}

// ---------------------------------------------------------------------------
// The scanning model
// ---------------------------------------------------------------------------

/// What closing an expression at the first occurrence of `end` yields.  The
/// expression's span opens at `span` (its opening delimiter) and its content
/// begins at `inner`; `raw` runs from `span` through the closing delimiter,
/// and a `~` just inside the closing delimiter trims the following
/// whitespace and leaves the content.
pub open spec fn close_expr(
    t: ExpressionType,
    prefix: Seq<char>,
    src: Seq<char>,
    span: int,
    inner: int,
    end: Seq<char>,
) -> Result<ExprModel, ErrorKind> {
    let start = src.subrange(inner, src.len() as int);
    match find_from(start, end, 0) {
        None => Err(ErrorKind::UnclosedBlock),
        Some(pos) => {
            if pos == 0 {
                Err(ErrorKind::EmptyExpression)
            } else {
                let postfix0 = start.subrange(pos + end.len(), start.len() as int);
                let raw = src.subrange(span, inner + pos + end.len());
                if start[pos - 1] == '~' {
                    Ok(ExprModel {
                        expression_type: t,
                        prefix,
                        content: start.subrange(0, pos - 1),
                        postfix: trim_front(postfix0),
                        raw,
                    })
                } else {
                    Ok(ExprModel {
                        expression_type: t,
                        prefix,
                        content: start.subrange(0, pos),
                        postfix: postfix0,
                        raw,
                    })
                }
            }
        },
    }
}

/// What scanning a comment yields: `{{!--` comments close at `--}}`, plain
/// `{{!` comments at `}}`.
pub open spec fn check_comment_expr(prefix: Seq<char>, src: Seq<char>, span: int, inner: int)
    -> Result<ExprModel, ErrorKind> {
    if match_at(src, "--"@, inner) {
        close_expr(ExpressionType::Comment, prefix, src, span, inner + 2, "--}}"@)
    } else {
        close_expr(ExpressionType::Comment, prefix, src, span, inner, "}}"@)
    }
}

/// What a backslash-escaped delimiter yields: the literal `{{...}}` span,
/// braces included, becomes verbatim content; the backslash itself is kept
/// out of the surrounding text but inside the matched span.
pub open spec fn scan_backslash(src: Seq<char>, start: int) -> Result<ExprModel, ErrorKind> {
    match find_from(src, "}}"@, start + 2) {
        None => Err(ErrorKind::UnclosedBlock),
        Some(p) => Ok(
            ExprModel {
                expression_type: ExpressionType::Escaped,
                prefix: src.subrange(0, start - 1),
                content: src.subrange(start, p + 2),
                postfix: src.subrange(p + 2, src.len() as int),
                raw: src.subrange(start - 1, p + 2),
            },
        ),
    }
}

/// Where the raw block opened by `{{{{name}}}}` closes in `hay`: searches
/// past any `{{{{/` whose tag is not `name`, and yields the position where
/// the matching close begins and the position just after its `}}}}`.
pub open spec fn find_raw_close(name: Seq<char>, hay: Seq<char>) -> Result<(int, int), ErrorKind>
    decreases hay.len(),
{
    match find_from(hay, "{{{{/"@, 0) {
        None => Err(ErrorKind::UnclosedBlock),
        Some(cand) => {
            let tag_start = cand + 5;
            let remains = hay.subrange(tag_start, hay.len() as int);
            match find_from(remains, "}}}}"@, 0) {
                None => Err(ErrorKind::UnclosedBlock),
                Some(tag_end) => {
                    let stop = tag_start + tag_end + 4;
                    if remains.subrange(0, tag_end) == name {
                        Ok((cand, stop))
                    } else {
                        proof {
                            lemma_find_from_found(hay, "{{{{/"@, 0);
                            lemma_find_from_found(remains, "}}}}"@, 0);
                            reveal_strlit("{{{{/");
                            reveal_strlit("}}}}");
                        }
                        match find_raw_close(name, hay.subrange(stop, hay.len() as int)) {
                            Err(k) => Err(k),
                            Ok(cp) => Ok((stop + cp.0, stop + cp.1)),
                        }
                    }
                },
            }
        },
    }
}

/// What follows a scanned raw-block opener: everything up to the matching
/// `{{{{/name}}}}` becomes verbatim content, and the matched span runs from
/// `span` (the opener's `{{{{`) through that close.
pub open spec fn scan_escaped(src: Seq<char>, span: int, open: ExprModel) -> Result<
    ExprModel,
    ErrorKind,
> {
    match find_raw_close(open.content, open.postfix) {
        Err(k) => Err(k),
        Ok(cp) => {
            let postfix = open.postfix.subrange(cp.1, open.postfix.len() as int);
            Ok(
                ExprModel {
                    expression_type: ExpressionType::Escaped,
                    prefix: open.prefix,
                    content: open.postfix.subrange(0, cp.0),
                    postfix,
                    raw: src.subrange(span, src.len() - postfix.len()),
                },
            )
        },
    }
}

pub open spec fn lift_expr(r: Result<ExprModel, ErrorKind>) -> Result<
    Option<ExprModel>,
    ErrorKind,
> {
    match r {
        Ok(e) => Ok(Some(e)),
        Err(k) => Err(k),
    }
}

/// Dispatch on the marker character just after `{{` (and after an optional
/// `~`): `span` is the position of the `{{` and `second` the position right
/// after the marker.
pub open spec fn scan_dispatch(src: Seq<char>, prefix: Seq<char>, span: int, second: int)
    -> Result<Option<ExprModel>, ErrorKind> {
    let len = src.len() as int;
    let marker = src[second - 1];
    if marker == '{' {
        if second + 1 >= len {
            Err(ErrorKind::UnclosedBlock)
        } else {
            let c2 = src[second];
            if c2 == '{' {
                let second1 = second + 1;
                if second1 + 1 >= len {
                    Err(ErrorKind::UnclosedBlock)
                } else if src[second1] == '~' {
                    scan_escaped_open(src, trim_back(prefix), span, second1 + 1)
                } else {
                    scan_escaped_open(src, prefix, span, second1)
                }
            } else {
                if c2 == '~' {
                    lift_expr(
                        close_expr(
                            ExpressionType::Raw,
                            trim_back(prefix),
                            src,
                            span,
                            second + 1,
                            "}}}"@,
                        ),
                    )
                } else {
                    lift_expr(close_expr(ExpressionType::Raw, prefix, src, span, second, "}}}"@))
                }
            }
        }
    } else if marker == '!' {
        lift_expr(check_comment_expr(prefix, src, span, second))
    } else if marker == '#' {
        lift_expr(close_expr(ExpressionType::Open, prefix, src, span, second, "}}"@))
    } else if marker == '/' {
        lift_expr(close_expr(ExpressionType::Close, prefix, src, span, second, "}}"@))
    } else {
        lift_expr(
            close_expr(ExpressionType::HtmlEscaped, prefix, src, span, second - 1, "}}"@),
        )
    }
}

/// The raw-block opener `{{{{name}}}}` beginning at `second`, then its body.
pub open spec fn scan_escaped_open(src: Seq<char>, prefix: Seq<char>, span: int, second: int)
    -> Result<Option<ExprModel>, ErrorKind> {
    match close_expr(ExpressionType::Escaped, prefix, src, span, second, "}}}}"@) {
        Err(k) => Err(k),
        Ok(open) => lift_expr(scan_escaped(src, span, open)),
    }
}

/// The next expression of `src`: `Ok(None)` when no `{{` remains, the
/// scanned expression otherwise, or the failure that scanning runs into.
pub open spec fn scan(src: Seq<char>) -> Result<Option<ExprModel>, ErrorKind> {
    let len = src.len() as int;
    match find_from(src, "{{"@, 0) {
        None => Ok(None),
        Some(start) => {
            if start + 3 >= len {
                Err(ErrorKind::UnclosedBlock)
            } else if start > 0 && src[start - 1] == '\\' {
                lift_expr(scan_backslash(src, start))
            } else {
                let prefix0 = src.subrange(0, start);
                if src[start + 2] == '~' {
                    if start + 4 >= len {
                        Err(ErrorKind::UnclosedBlock)
                    } else {
                        scan_dispatch(src, trim_back(prefix0), start, start + 4)
                    }
                } else {
                    scan_dispatch(src, prefix0, start, start + 3)
                }
            }
        },
    }
}

// ---------------------------------------------------------------------------
// Executable scanner
// ---------------------------------------------------------------------------

impl<'a> Expression<'a> {
    /// Closes the expression whose span opens at `span` and whose content
    /// begins at `inner`, at the first occurrence of `end`.
    fn close(
        expression_type: ExpressionType,
        preffix: &'a str,
        src: &'a str,
        span: usize,
        inner: usize,
        end: &str,
    ) -> (r: ParseResult<Expression<'a>>)
        requires
            span <= inner <= src@.len(),
        ensures
            match r {
                Ok(e) => close_expr(expression_type, preffix@, src@, span as int, inner as int, end@)
                    == Ok::<ExprModel, ErrorKind>(e@) && e.postfix@.len() + end@.len() + 1
                    <= src@.len() - inner,
                Err(pe) => close_expr(
                    expression_type,
                    preffix@,
                    src@,
                    span as int,
                    inner as int,
                    end@,
                ) == Err::<ExprModel, ErrorKind>(pe.kind),
            },
    {
        let s_len = src.unicode_len();
        let start = src.substring_char(inner, s_len);
        let start_len = s_len - inner;
        let e_len = end.unicode_len();
        match find_pat(start, end, 0) {
            None => Err(ParseError::unclosed(preffix)),
            Some(pos) => {
                if pos == 0 {
                    let mut message = String::from_str("empty block near ");
                    message.append(preffix);
                    return Err(ParseError { kind: ErrorKind::EmptyExpression, message });
                }
                let postfix0 = start.substring_char(pos + e_len, start_len);
                let raw = src.substring_char(span, inner + pos + e_len);
                let ghost model = close_expr(
                    expression_type,
                    preffix@,
                    src@,
                    span as int,
                    inner as int,
                    end@,
                );
                proof {
                    lemma_trim_front_len(postfix0@);
                }
                if start.get_char(pos - 1) == '~' {
                    let e = Expression {
                        expression_type,
                        prefix: preffix,
                        content: start.substring_char(0, pos - 1),
                        postfix: trim_start_str(postfix0),
                        raw,
                    };
                    assert(model == Ok::<ExprModel, ErrorKind>(e@)) by {
                        assert(model->Ok_0 =~= e@);
                    }
                    Ok(e)
                } else {
                    let e = Expression {
                        expression_type,
                        prefix: preffix,
                        content: start.substring_char(0, pos),
                        postfix: postfix0,
                        raw,
                    };
                    assert(model == Ok::<ExprModel, ErrorKind>(e@)) by {
                        assert(model->Ok_0 =~= e@);
                    }
                    Ok(e)
                }
            },
        }
    }

    /// Scans a comment expression whose `!` marker ends at `inner`.
    fn check_comment(preffix: &'a str, src: &'a str, span: usize, inner: usize) -> (r:
        ParseResult<Expression<'a>>)
        requires
            span <= inner <= src@.len(),
        ensures
            match r {
                Ok(e) => check_comment_expr(preffix@, src@, span as int, inner as int) == Ok::<
                    ExprModel,
                    ErrorKind,
                >(e@),
                Err(pe) => check_comment_expr(preffix@, src@, span as int, inner as int) == Err::<
                    ExprModel,
                    ErrorKind,
                >(pe.kind),
            },
    {
        proof {
            reveal_strlit("--");
        }
        let s_len = src.unicode_len();
        let dashed = if s_len - inner >= 2 {
            is_match_at(src, "--", inner, 2)
        } else {
            false
        };
        if dashed {
            Self::close(ExpressionType::Comment, preffix, src, span, inner + 2, "--}}")
        } else {
            Self::close(ExpressionType::Comment, preffix, src, span, inner, "}}")
        }
    }

    /// Finds where the raw block opened with the tag `name` closes in `hay`.
    fn find_raw_close_at(name: &str, hay: &str, err_context: &str) -> (r: ParseResult<
        (usize, usize),
    >)
        ensures
            match r {
                Ok(cp) => find_raw_close(name@, hay@) == Ok::<(int, int), ErrorKind>(
                    (cp.0 as int, cp.1 as int),
                ) && cp.0 <= cp.1 <= hay@.len(),
                Err(pe) => find_raw_close(name@, hay@) == Err::<(int, int), ErrorKind>(pe.kind),
            },
        decreases hay@.len(),
    {
        let h_len = hay.unicode_len();
        match find_pat(hay, "{{{{/", 0) {
            None => Err(ParseError::unclosed(err_context)),
            Some(cand) => {
                proof {
                    reveal_strlit("{{{{/");
                    reveal_strlit("}}}}");
                }
                let tag_start = cand + 5;
                let remains = hay.substring_char(tag_start, h_len);
                match find_pat(remains, "}}}}", 0) {
                    None => Err(ParseError::unclosed(err_context)),
                    Some(tag_end) => {
                        let stop = tag_start + tag_end + 4;
                        if crate::text::str_eq(remains.substring_char(0, tag_end), name) {
                            Ok((cand, stop))
                        } else {
                            match Self::find_raw_close_at(
                                name,
                                hay.substring_char(stop, h_len),
                                err_context,
                            ) {
                                Err(pe) => Err(pe),
                                Ok(cp) => Ok((stop + cp.0, stop + cp.1)),
                            }
                        }
                    },
                }
            },
        }
    }

    /// Scans the body of a raw block whose span opens at `span` in `src`,
    /// given its scanned opener.
    fn find_closing_escape(src: &'a str, span: usize, open: Expression<'a>) -> (r: ParseResult<
        Expression<'a>,
    >)
        requires
            span + open.postfix@.len() <= src@.len(),
        ensures
            match r {
                Ok(e) => scan_escaped(src@, span as int, open@) == Ok::<ExprModel, ErrorKind>(
                    e@,
                ),
                Err(pe) => scan_escaped(src@, span as int, open@) == Err::<ExprModel, ErrorKind>(
                    pe.kind,
                ),
            },
    {
        let src_len = src.unicode_len();
        let p_len = open.postfix.unicode_len();
        match Self::find_raw_close_at(open.content, open.postfix, open.raw) {
            Err(pe) => Err(pe),
            Ok((c, p)) => {
                let e = Expression {
                    expression_type: ExpressionType::Escaped,
                    prefix: open.prefix,
                    content: open.postfix.substring_char(0, c),
                    postfix: open.postfix.substring_char(p, p_len),
                    raw: src.substring_char(span, src_len - (p_len - p)),
                };
                assert(scan_escaped(src@, span as int, open@) == Ok::<ExprModel, ErrorKind>(e@))
                    by {
                    assert(scan_escaped(src@, span as int, open@)->Ok_0 =~= e@);
                }
                Ok(e)
            },
        }
    }

    /// Parses the next expression of a template string.
    #[verifier::rlimit(100)]
    #[verifier::spinoff_prover]
    pub fn from(src: &'a str) -> (r: ParseResult<Option<Expression<'a>>>)
        ensures
            match r {
                Ok(Some(e)) => scan(src@) == Ok::<Option<ExprModel>, ErrorKind>(Some(e@)),
                Ok(None) => scan(src@) == Ok::<Option<ExprModel>, ErrorKind>(None),
                Err(pe) => scan(src@) == Err::<Option<ExprModel>, ErrorKind>(pe.kind),
            },
    {
        let src_len = src.unicode_len();
        match find_pat(src, "{{", 0) {
            None => Ok(None),
            Some(start) => {
                proof {
                    reveal_strlit("{{");
                }
                if src_len - start < 4 {
                    return Err(ParseError::unclosed(src));
                }
                let mut second = start + 3;
                if start > 0 && src.get_char(start - 1) == '\\' {
                    return match find_pat(src, "}}", start + 2) {
                        None => Err(ParseError::unclosed(src)),
                        Some(p) => {
                            proof {
                                reveal_strlit("}}");
                            }
                            let e = Expression {
                                expression_type: ExpressionType::Escaped,
                                prefix: src.substring_char(0, start - 1),
                                content: src.substring_char(start, p + 2),
                                postfix: src.substring_char(p + 2, src_len),
                                raw: src.substring_char(start - 1, p + 2),
                            };
                            assert(scan_backslash(src@, start as int) == Ok::<
                                ExprModel,
                                ErrorKind,
                            >(e@)) by {
                                assert(scan_backslash(src@, start as int)->Ok_0 =~= e@);
                            }
                            Ok(Some(e))
                        },
                    };
                }
                let mut prefix = src.substring_char(0, start);
                let mut marker = src.get_char(start + 2);
                if marker == '~' {
                    prefix = trim_end_str(prefix);
                    if src_len - second < 2 {
                        return Err(ParseError::unclosed(src));
                    }
                    second = second + 1;
                    marker = src.get_char(second - 1);
                }
                if marker == '{' {
                    if src_len - second < 2 {
                        return Err(ParseError::unclosed(src));
                    }
                    let c2 = src.get_char(second);
                    if c2 == '{' {
                        second = second + 1;
                        if src_len - second < 2 {
                            return Err(ParseError::unclosed(src));
                        }
                        if src.get_char(second) == '~' {
                            second = second + 1;
                            prefix = trim_end_str(prefix);
                        }
                        let open = match Self::close(
                            ExpressionType::Escaped,
                            prefix,
                            src,
                            start,
                            second,
                            "}}}}",
                        ) {
                            Ok(open) => open,
                            Err(pe) => {
                                return Err(pe);
                            },
                        };
                        return match Self::find_closing_escape(src, start, open) {
                            Ok(e) => Ok(Some(e)),
                            Err(pe) => Err(pe),
                        };
                    }
                    if c2 == '~' {
                        second = second + 1;
                        prefix = trim_end_str(prefix);
                    }
                    return match Self::close(
                        ExpressionType::Raw,
                        prefix,
                        src,
                        start,
                        second,
                        "}}}",
                    ) {
                        Ok(e) => Ok(Some(e)),
                        Err(pe) => Err(pe),
                    };
                }
                let result = if marker == '!' {
                    Self::check_comment(prefix, src, start, second)
                } else if marker == '#' {
                    Self::close(ExpressionType::Open, prefix, src, start, second, "}}")
                } else if marker == '/' {
                    Self::close(ExpressionType::Close, prefix, src, start, second, "}}")
                } else {
                    Self::close(ExpressionType::HtmlEscaped, prefix, src, start, second - 1, "}}")
                };
                match result {
                    Ok(e) => Ok(Some(e)),
                    Err(pe) => Err(pe),
                }
            },
        }
    }

    /// Parses the next expression after this one: scanning continues from
    /// `postfix` alone.
    pub fn next(&self) -> (r: ParseResult<Option<Expression<'a>>>)
        ensures
            match r {
                Ok(Some(e)) => scan(self.postfix@) == Ok::<Option<ExprModel>, ErrorKind>(
                    Some(e@),
                ),
                Ok(None) => scan(self.postfix@) == Ok::<Option<ExprModel>, ErrorKind>(None),
                Err(pe) => scan(self.postfix@) == Err::<Option<ExprModel>, ErrorKind>(pe.kind),
            },
    {
        Self::from(self.postfix)
    }

    /// A bounded span of the matched source kept for error context: `raw`,
    /// truncated to the content and a margin for the delimiters.
    pub fn around(&self) -> (r: &str)
        ensures
            r@ == around_spec(self@),
    {
        let len = self.raw.unicode_len();
        let content_len = self.content.unicode_len();
        if len <= 16 || len - 16 <= content_len {
            return self.raw;
        }
        self.raw.substring_char(0, content_len + 16)
    }
}

/// The bounded span of `raw` kept around an expression for error context.
pub open spec fn around_spec(e: ExprModel) -> Seq<char> {
    let hi = e.content.len() + 16;
    if e.raw.len() <= hi {
        e.raw
    } else {
        e.raw.subrange(0, hi as int)
    }
}

// ---------------------------------------------------------------------------
// Laws of the scanner
// ---------------------------------------------------------------------------

/// The expressions of a template, scanned through to the end.
pub open spec fn scan_seq(src: Seq<char>) -> Result<Seq<ExprModel>, ErrorKind>
    decreases src.len(),
{
    match scan(src) {
        Err(k) => Err(k),
        Ok(None) => Ok(Seq::empty()),
        Ok(Some(e)) => {
            proof {
                lemma_scan_consumes(src);
            }
            match scan_seq(e.postfix) {
                Err(k) => Err(k),
                Ok(s) => Ok(seq![e] + s),
            }
        },
    }
}

/// Law: scanning is restartable from any expression's `postfix`.  The
/// expressions of a template are its first expression followed by exactly
/// the expressions obtained by scanning the `postfix` as a fresh template;
/// an error met later is the same either way.  [`Expression::next`]
/// performs that re-scan, so a scan resumed from a returned `postfix`
/// agrees with scanning the original source from that point onward.
pub proof fn lemma_scan_restartable(src: Seq<char>)
    requires
        scan(src) is Ok,
        scan(src)->Ok_0 is Some,
    ensures
        ({
            let e = scan(src)->Ok_0->Some_0;
            &&& (scan_seq(src) is Ok <==> scan_seq(e.postfix) is Ok)
            &&& (scan_seq(src) is Ok ==> scan_seq(src)->Ok_0 == seq![e] + scan_seq(
                e.postfix,
            )->Ok_0)
            &&& (scan_seq(src) is Err ==> scan_seq(src)->Err_0 == scan_seq(e.postfix)->Err_0)
        }),
{
}

/// A successfully scanned expression consumes at least one character: its
/// `postfix` is strictly shorter than the text it was scanned from.  A
/// block open consumes at least five.
pub proof fn lemma_scan_consumes(src: Seq<char>)
    ensures
        scan(src) is Ok && scan(src)->Ok_0 is Some ==> scan(src)->Ok_0->Some_0.postfix.len()
            < src.len(),
        scan(src) is Ok && scan(src)->Ok_0 is Some && scan(src)->Ok_0->Some_0.expression_type
            == ExpressionType::Open ==> scan(src)->Ok_0->Some_0.postfix.len() + 5 <= src.len(),
{
    reveal_strlit("{{");
    reveal_strlit("}}");
    if scan(src) is Ok && scan(src)->Ok_0 is Some {
        let start = find_from(src, "{{"@, 0)->Some_0;
        lemma_find_from_found(src, "{{"@, 0);
        if start > 0 && src[start - 1] == '\\' {
            if find_from(src, "}}"@, start + 2) is Some {
                lemma_find_from_found(src, "}}"@, start + 2);
            }
        } else {
            let prefix0 = src.subrange(0, start);
            if src[start + 2] == '~' {
                lemma_dispatch_consumes(src, trim_back(prefix0), start, start + 4);
            } else {
                lemma_dispatch_consumes(src, prefix0, start, start + 3);
            }
        }
    }
}

proof fn lemma_dispatch_consumes(src: Seq<char>, prefix: Seq<char>, span: int, second: int)
    requires
        0 <= span,
        2 <= second < src.len(),
        scan_dispatch(src, prefix, span, second) is Ok,
        scan_dispatch(src, prefix, span, second)->Ok_0 is Some,
    ensures
        scan_dispatch(src, prefix, span, second)->Ok_0->Some_0.postfix.len() < src.len(),
        scan_dispatch(src, prefix, span, second)->Ok_0->Some_0.expression_type
            == ExpressionType::Open ==> scan_dispatch(
            src,
            prefix,
            span,
            second,
        )->Ok_0->Some_0.postfix.len() + 5 <= src.len(),
{
    let len = src.len() as int;
    let marker = src[second - 1];
    reveal_strlit("}}");
    reveal_strlit("}}}");
    reveal_strlit("}}}}");
    if marker == '{' {
        let c2 = src[second];
        if c2 == '{' {
            let second1 = second + 1;
            let second2 = if src[second1] == '~' {
                second1 + 1
            } else {
                second1
            };
            let prefix2 = if src[second1] == '~' {
                trim_back(prefix)
            } else {
                prefix
            };
            lemma_escaped_open_consumes(src, prefix2, span, second2);
        } else {
            let second2 = if c2 == '~' {
                second + 1
            } else {
                second
            };
            let prefix2 = if c2 == '~' {
                trim_back(prefix)
            } else {
                prefix
            };
            lemma_close_consumes(ExpressionType::Raw, prefix2, src, span, second2, "}}}"@);
        }
    } else if marker == '!' {
        reveal_strlit("--");
        reveal_strlit("--}}");
        if match_at(src, "--"@, second) {
            lemma_close_consumes(ExpressionType::Comment, prefix, src, span, second + 2, "--}}"@);
        } else {
            lemma_close_consumes(ExpressionType::Comment, prefix, src, span, second, "}}"@);
        }
    } else if marker == '#' {
        lemma_close_consumes(ExpressionType::Open, prefix, src, span, second, "}}"@);
    } else if marker == '/' {
        lemma_close_consumes(ExpressionType::Close, prefix, src, span, second, "}}"@);
    } else {
        lemma_close_consumes(ExpressionType::HtmlEscaped, prefix, src, span, second - 1, "}}"@);
    }
}

proof fn lemma_escaped_open_consumes(src: Seq<char>, prefix: Seq<char>, span: int, second: int)
    requires
        0 <= span,
        2 <= second <= src.len(),
        scan_escaped_open(src, prefix, span, second) is Ok,
        scan_escaped_open(src, prefix, span, second)->Ok_0 is Some,
    ensures
        scan_escaped_open(src, prefix, span, second)->Ok_0->Some_0.postfix.len() < src.len(),
{
    reveal_strlit("}}}}");
    lemma_close_consumes(ExpressionType::Escaped, prefix, src, span, second, "}}}}"@);
    let open = close_expr(ExpressionType::Escaped, prefix, src, span, second, "}}}}"@)->Ok_0;
    lemma_find_raw_close_bounds(open.content, open.postfix);
}

/// The positions yielded by [`find_raw_close`] lie in range.
pub proof fn lemma_find_raw_close_bounds(name: Seq<char>, hay: Seq<char>)
    ensures
        find_raw_close(name, hay) is Ok ==> {
            let cp = find_raw_close(name, hay)->Ok_0;
            0 <= cp.0 && cp.0 < cp.1 && cp.1 <= hay.len()
        },
    decreases hay.len(),
{
    reveal_strlit("{{{{/");
    reveal_strlit("}}}}");
    if find_raw_close(name, hay) is Ok {
        let cand = find_from(hay, "{{{{/"@, 0)->Some_0;
        lemma_find_from_found(hay, "{{{{/"@, 0);
        let tag_start = cand + 5;
        let remains = hay.subrange(tag_start, hay.len() as int);
        let tag_end = find_from(remains, "}}}}"@, 0)->Some_0;
        lemma_find_from_found(remains, "}}}}"@, 0);
        let stop = tag_start + tag_end + 4;
        if remains.subrange(0, tag_end) == name {
        } else {
            lemma_find_raw_close_bounds(name, hay.subrange(stop, hay.len() as int));
        }
    }
}

/// A closed expression's `postfix` is strictly shorter than the source, by
/// at least the closing delimiter and one content character past `inner`.
proof fn lemma_close_consumes(
    t: ExpressionType,
    prefix: Seq<char>,
    src: Seq<char>,
    span: int,
    inner: int,
    end: Seq<char>,
)
    requires
        0 <= inner <= src.len(),
        end.len() >= 1,
    ensures
        close_expr(t, prefix, src, span, inner, end) is Ok ==> close_expr(
            t,
            prefix,
            src,
            span,
            inner,
            end,
        )->Ok_0.postfix.len() + end.len() + 1 <= src.len() - inner,
{
    if close_expr(t, prefix, src, span, inner, end) is Ok {
        let start = src.subrange(inner, src.len() as int);
        let pos = find_from(start, end, 0)->Some_0;
        lemma_find_from_found(start, end, 0);
        let postfix0 = start.subrange(pos + end.len(), start.len() as int);
        lemma_trim_front_len(postfix0);
    }
}

} // verus!
