//! The expression tokenizer: splits one expression's inner content into a
//! forward-only sequence of typed tokens (variables, private variables,
//! sub-expressions and literals).
//!
//! Tokenizing is a pure function of the remaining text: [`Token::first`]
//! reads the first token of a trimmed slice and [`Token::next`] continues
//! from the returned `tail`.  The behaviour is pinned by the spec function
//! [`scan_token`].

use vstd::prelude::*;
use vstd::string::*;
use crate::error::{ErrorKind, ParseError, ParseResult};
use crate::text::{alphabetic, head_not_ws, is_alphabetic_char, is_match_at,
    lemma_trim_back_head, lemma_trim_back_len, lemma_trim_front_head, lemma_trim_front_len,
    match_at, trim_back, trim_front, trim_start_str, trim_str};

verus! {

/// The kind of a token.
#[derive(Clone, Copy, Debug)]
pub enum TokenType<'a> {
    /// A parenthesized sub-expression; the payload is its full span.
    SubExpression(&'a str),
    /// A variable prefixed with `@`, supplied by the enclosing block.
    PrivateVariable,
    /// A variable to resolve against the data context.
    Variable,
    /// A plain literal (a number, a quoted string, or any other bare text).
    Literal,
}

/// One token of an expression's content.
#[derive(Clone, Copy, Debug)]
pub struct Token<'a> {
    /// The kind of token.
    pub token_type: TokenType<'a>,
    /// The token's value.
    pub value: &'a str,
    /// The remaining text after this token, already trimmed at the front.
    pub tail: &'a str,
}

/// The mathematical value of a [`TokenType`].
#[verifier::ext_equal]
pub enum TokenTypeModel {
    SubExpression(Seq<char>),
    PrivateVariable,
    Variable,
    Literal,
}

/// The mathematical value of a [`Token`].
#[verifier::ext_equal]
pub struct TokenModel {
    pub token_type: TokenTypeModel,
    pub value: Seq<char>,
    pub tail: Seq<char>,
}

impl<'a> View for TokenType<'a> {
    type V = TokenTypeModel;

    open spec fn view(&self) -> TokenTypeModel {
        match *self {
            TokenType::SubExpression(raw) => TokenTypeModel::SubExpression(raw@),
            TokenType::PrivateVariable => TokenTypeModel::PrivateVariable,
            TokenType::Variable => TokenTypeModel::Variable,
            TokenType::Literal => TokenTypeModel::Literal,
        }
    }
}

impl<'a> View for Token<'a> {
    type V = TokenModel;

    open spec fn view(&self) -> TokenModel {
        TokenModel { token_type: self.token_type@, value: self.value@, tail: self.tail@ }
    }
}

// ---------------------------------------------------------------------------
// The tokenizing model
// ---------------------------------------------------------------------------

/// A character that ends a bare token: whitespace or an opening parenthesis.
pub open spec fn stop_char(c: char) -> bool {
    c == ' ' || c == '(' || c == '\n' || c == '\r' || c == '\t'
}

/// The position of the first stop character at or after `i`, or the length.
pub open spec fn token_end(s: Seq<char>, i: int) -> int
    decreases s.len() - i,
{
    if i < 0 || i >= s.len() {
        s.len() as int
    } else if stop_char(s[i]) {
        i
    } else {
        token_end(s, i + 1)
    }
}

pub proof fn lemma_token_end_bounds(s: Seq<char>, i: int)
    requires
        0 <= i <= s.len(),
    ensures
        i <= token_end(s, i) <= s.len(),
    decreases s.len() - i,
{
    if !(i >= s.len()) && !stop_char(s[i]) {
        lemma_token_end_bounds(s, i + 1);
    }
}

/// The position of the parenthesis closing the one at position zero, given
/// the count of parentheses open just before position `i`.
pub open spec fn paren_close(s: Seq<char>, i: int, count: int) -> Option<int>
    decreases s.len() - i,
{
    if i < 0 || i >= s.len() {
        None
    } else {
        let c = s[i];
        let count2 = if c == '(' {
            count + 1
        } else if c == ')' {
            count - 1
        } else {
            count
        };
        if count2 == 0 {
            Some(i)
        } else {
            paren_close(s, i + 1, count2)
        }
    }
}

/// The position just after the quote ending the string literal that opens
/// `s`, honouring backslash escapes.
pub open spec fn string_end(s: Seq<char>, i: int, escaped: bool) -> Option<int>
    decreases s.len() - i,
{
    if i < 0 || i >= s.len() {
        None
    } else {
        let c = s[i];
        if c == '\\' {
            string_end(s, i + 1, !escaped)
        } else if c == '"' && !escaped {
            Some(i + 1)
        } else {
            string_end(s, i + 1, escaped)
        }
    }
}

/// A bare token that cannot be a variable name: it neither starts with a
/// letter or underscore nor is a `../` relative path.
pub open spec fn invalid_name(s: Seq<char>) -> bool {
    if match_at(s, "../"@, 0) {
        false
    } else if s.len() == 0 {
        false
    } else {
        !(alphabetic(s[0]) || s[0] == '_')
    }
}

/// The mathematical value of a [`Token`] whose fields are still sequences.
pub open spec fn scan_token(src: Seq<char>) -> Result<Option<TokenModel>, ErrorKind> {
    let len = src.len() as int;
    if src.len() == 0 {
        Ok(None)
    } else {
        let c = src[0];
        if c == '@' {
            let end = token_end(src, 0);
            Ok(
                Some(
                    TokenModel {
                        token_type: TokenTypeModel::PrivateVariable,
                        value: src.subrange(1, end),
                        tail: trim_front(src.subrange(end, len)),
                    },
                ),
            )
        } else if c == '(' {
            match paren_close(src, 1, 1) {
                None => Err(ErrorKind::UnmatchedBrackets),
                Some(end) => Ok(
                    Some(
                        TokenModel {
                            token_type: TokenTypeModel::SubExpression(src.subrange(0, end + 1)),
                            value: src.subrange(1, end),
                            tail: trim_front(src.subrange(end + 1, len)),
                        },
                    ),
                ),
            }
        } else if c == '"' {
            match string_end(src, 1, false) {
                None => Err(ErrorKind::UnterminatedString),
                Some(end) => Ok(
                    Some(
                        TokenModel {
                            token_type: TokenTypeModel::Literal,
                            value: src.subrange(0, end),
                            tail: trim_front(src.subrange(end, len)),
                        },
                    ),
                ),
            }
        } else {
            let end = token_end(src, 0);
            let kind = if invalid_name(src) {
                TokenTypeModel::Literal
            } else {
                TokenTypeModel::Variable
            };
            Ok(
                Some(
                    TokenModel {
                        token_type: kind,
                        value: src.subrange(0, end),
                        tail: trim_front(src.subrange(end, len)),
                    },
                ),
            )
        }
    }
}

/// The first token of an expression's content, which is trimmed first.
pub open spec fn first_token_of(src: Seq<char>) -> Result<Option<TokenModel>, ErrorKind> {
    scan_token(trim_back(trim_front(src)))
}

/// How a produced token relates to the text it was read from: it consumes
/// at least one character, its tail is trimmed, and its value fits.
pub open spec fn token_fits(t: TokenModel, src: Seq<char>) -> bool {
    &&& t.tail.len() < src.len()
    &&& head_not_ws(t.tail)
    &&& t.value.len() <= src.len()
    &&& (t.token_type is SubExpression ==> t.value.len() + 2 <= src.len())
}

pub proof fn lemma_paren_close_bounds(s: Seq<char>, i: int, count: int)
    requires
        0 <= i,
        paren_close(s, i, count) is Some,
    ensures
        i <= paren_close(s, i, count)->Some_0 < s.len(),
    decreases s.len() - i,
{
    if !(i >= s.len()) {
        let c = s[i];
        let count2: int = if c == '(' {
            count + 1
        } else if c == ')' {
            count - 1
        } else {
            count
        };
        if count2 != 0 {
            lemma_paren_close_bounds(s, i + 1, count2);
        }
    }
}

pub proof fn lemma_string_end_bounds(s: Seq<char>, i: int, escaped: bool)
    requires
        0 <= i,
        string_end(s, i, escaped) is Some,
    ensures
        i < string_end(s, i, escaped)->Some_0 <= s.len(),
    decreases s.len() - i,
{
    if !(i >= s.len()) {
        let c = s[i];
        if c == '\\' {
            lemma_string_end_bounds(s, i + 1, !escaped);
        } else if c == '"' && !escaped {
        } else {
            lemma_string_end_bounds(s, i + 1, escaped);
        }
    }
}

/// A token read from a trimmed slice consumes at least one character and
/// leaves a trimmed tail.
pub proof fn lemma_scan_token_fits(src: Seq<char>)
    requires
        head_not_ws(src),
    ensures
        scan_token(src) is Ok && scan_token(src)->Ok_0 is Some ==> token_fits(
            scan_token(src)->Ok_0->Some_0,
            src,
        ),
{
    let len = src.len() as int;
    if src.len() > 0 {
        let c = src[0];
        assert(!stop_char(c) || c == '(');
        if c == '@' {
            lemma_token_end_bounds(src, 1);
            let end = token_end(src, 0);
            lemma_trim_front_len(src.subrange(end, len));
            lemma_trim_front_head(src.subrange(end, len));
        } else if c == '(' {
            if paren_close(src, 1, 1) is Some {
                lemma_paren_close_bounds(src, 1, 1);
                let end = paren_close(src, 1, 1)->Some_0;
                lemma_trim_front_len(src.subrange(end + 1, len));
                lemma_trim_front_head(src.subrange(end + 1, len));
            }
        } else if c == '"' {
            if string_end(src, 1, false) is Some {
                lemma_string_end_bounds(src, 1, false);
                let end = string_end(src, 1, false)->Some_0;
                lemma_trim_front_len(src.subrange(end, len));
                lemma_trim_front_head(src.subrange(end, len));
            }
        } else {
            lemma_token_end_bounds(src, 1);
            let end = token_end(src, 0);
            lemma_trim_front_len(src.subrange(end, len));
            lemma_trim_front_head(src.subrange(end, len));
        }
    }
}

// ---------------------------------------------------------------------------
// Executable tokenizer
// ---------------------------------------------------------------------------

/// The first stop character at or after `from`, or the end of `src`.
fn token_end_at(src: &str, from: usize, len: usize) -> (end: usize)
    requires
        len == src@.len(),
        from <= len,
    ensures
        end == token_end(src@, from as int),
        from <= end <= len,
{
    let mut i = from;
    while i < len
        invariant
            from <= i <= len,
            len == src@.len(),
            token_end(src@, from as int) == token_end(src@, i as int),
        decreases len - i,
    {
        let c = src.get_char(i);
        if c == ' ' || c == '(' || c == '\n' || c == '\r' || c == '\t' {
            return i;
        }
        assert(token_end(src@, i as int) == token_end(src@, i + 1));
        i += 1;
    }
    i
}

/// The parenthesis closing the one that opens `src`.
fn paren_close_at(src: &str, len: usize) -> (r: Option<usize>)
    requires
        len == src@.len(),
        1 <= len,
    ensures
        match r {
            Some(e) => paren_close(src@, 1, 1) == Some(e as int) && 1 <= e < len,
            None => paren_close(src@, 1, 1) is None,
        },
{
    let mut i: usize = 1;
    let mut count: usize = 1;
    while i < len
        invariant
            1 <= i <= len,
            1 <= count <= i,
            len == src@.len(),
            paren_close(src@, 1, 1) == paren_close(src@, i as int, count as int),
        decreases len - i,
    {
        let c = src.get_char(i);
        let count2: usize = if c == '(' {
            count + 1
        } else if c == ')' {
            count - 1
        } else {
            count
        };
        if count2 == 0 {
            return Some(i);
        }
        assert(paren_close(src@, i as int, count as int) == paren_close(
            src@,
            i + 1,
            count2 as int,
        ));
        count = count2;
        i += 1;
    }
    None
}

/// The position just after the quote that ends the string opening `src`.
fn string_end_at(src: &str, len: usize) -> (r: Option<usize>)
    requires
        len == src@.len(),
        1 <= len,
    ensures
        match r {
            Some(e) => string_end(src@, 1, false) == Some(e as int) && 2 <= e <= len,
            None => string_end(src@, 1, false) is None,
        },
{
    let mut i: usize = 1;
    let mut escaped = false;
    while i < len
        invariant
            1 <= i <= len,
            len == src@.len(),
            string_end(src@, 1, false) == string_end(src@, i as int, escaped),
        decreases len - i,
    {
        let c = src.get_char(i);
        if c == '\\' {
            escaped = !escaped;
        } else if c == '"' && !escaped {
            return Some(i + 1);
        }
        i += 1;
    }
    None
}

/// A bare token that cannot be a variable name.
fn invalid_variable_name(src: &str, len: usize) -> (r: bool)
    requires
        len == src@.len(),
        1 <= len,
    ensures
        r == invalid_name(src@),
{
    proof {
        reveal_strlit("../");
    }
    if len >= 3 {
        if is_match_at(src, "../", 0, 3) {
            return false;
        }
    }
    let c0 = src.get_char(0);
    let alpha = is_alphabetic_char(c0);
    !(alpha || c0 == '_')
}

/// Reads the single token that opens `src`, which must be trimmed in front.
fn parse<'a>(src: &'a str) -> (r: ParseResult<Option<Token<'a>>>)
    requires
        head_not_ws(src@),
    ensures
        match r {
            Ok(Some(t)) => scan_token(src@) == Ok::<Option<TokenModel>, ErrorKind>(Some(t@))
                && token_fits(t@, src@),
            Ok(None) => scan_token(src@) == Ok::<Option<TokenModel>, ErrorKind>(None),
            Err(pe) => scan_token(src@) == Err::<Option<TokenModel>, ErrorKind>(pe.kind),
        },
{
    let len = src.unicode_len();
    if len == 0 {
        return Ok(None);
    }
    let c0 = src.get_char(0);
    if c0 == '@' {
        let end = token_end_at(src, 0, len);
        assert(end >= 1) by {
            lemma_token_end_bounds(src@, 1);
        }
        let value = src.substring_char(1, end);
        let tail = trim_start_str(src.substring_char(end, len));
        proof {
            lemma_trim_front_head(src@.subrange(end as int, len as int));
            lemma_trim_front_len(src@.subrange(end as int, len as int));
        }
        let t = Token { token_type: TokenType::PrivateVariable, value, tail };
        assert(scan_token(src@)->Ok_0->Some_0 =~= t@);
        Ok(Some(t))
    } else if c0 == '(' {
        match paren_close_at(src, len) {
            None => {
                let mut message = String::from_str("unmatched brackets near ");
                message.append(crate::error::rcap(src));
                Err(ParseError { kind: ErrorKind::UnmatchedBrackets, message })
            },
            Some(end) => {
                let raw = src.substring_char(0, end + 1);
                let value = src.substring_char(1, end);
                let tail = trim_start_str(src.substring_char(end + 1, len));
                proof {
                    lemma_trim_front_head(src@.subrange(end + 1, len as int));
                    lemma_trim_front_len(src@.subrange(end + 1, len as int));
                }
                let t = Token { token_type: TokenType::SubExpression(raw), value, tail };
                assert(scan_token(src@)->Ok_0->Some_0 =~= t@);
                Ok(Some(t))
            },
        }
    } else if c0 == '"' {
        match string_end_at(src, len) {
            None => {
                let mut message = String::from_str("unterminated string near ");
                message.append(crate::error::rcap(src));
                Err(ParseError { kind: ErrorKind::UnterminatedString, message })
            },
            Some(end) => {
                let value = src.substring_char(0, end);
                let tail = trim_start_str(src.substring_char(end, len));
                proof {
                    lemma_trim_front_head(src@.subrange(end as int, len as int));
                    lemma_trim_front_len(src@.subrange(end as int, len as int));
                }
                let t = Token { token_type: TokenType::Literal, value, tail };
                assert(scan_token(src@)->Ok_0->Some_0 =~= t@);
                Ok(Some(t))
            },
        }
    } else {
        let end = token_end_at(src, 0, len);
        assert(end >= 1) by {
            lemma_token_end_bounds(src@, 1);
        }
        let kind = if invalid_variable_name(src, len) {
            TokenType::Literal
        } else {
            TokenType::Variable
        };
        let value = src.substring_char(0, end);
        let tail = trim_start_str(src.substring_char(end, len));
        proof {
            lemma_trim_front_head(src@.subrange(end as int, len as int));
            lemma_trim_front_len(src@.subrange(end as int, len as int));
        }
        let t = Token { token_type: kind, value, tail };
        assert(scan_token(src@)->Ok_0->Some_0 =~= t@);
        Ok(Some(t))
    }
}

impl<'a> Token<'a> {
    /// A token whose tail tokenizing may continue from.
    pub open spec fn wf(self) -> bool {
        head_not_ws(self.tail@)
    }

    /// Parses the first token of a string.
    pub fn first(src: &'a str) -> (r: ParseResult<Option<Token<'a>>>)
        ensures
            match r {
                Ok(Some(t)) => first_token_of(src@) == Ok::<Option<TokenModel>, ErrorKind>(
                    Some(t@),
                ) && token_fits(t@, trim_back(trim_front(src@))) && t@.value.len() <= src@.len()
                    && t.wf(),
                Ok(None) => first_token_of(src@) == Ok::<Option<TokenModel>, ErrorKind>(None),
                Err(pe) => first_token_of(src@) == Err::<Option<TokenModel>, ErrorKind>(pe.kind),
            },
    {
        proof {
            lemma_trim_front_head(src@);
            lemma_trim_back_head(trim_front(src@));
            lemma_trim_front_len(src@);
            lemma_trim_back_len(trim_front(src@));
        }
        parse(trim_str(src))
    }

    /// Parses the next token after this one.
    pub fn next(&self) -> (r: ParseResult<Option<Token<'a>>>)
        requires
            self.wf(),
        ensures
            match r {
                Ok(Some(t)) => scan_token(self.tail@) == Ok::<Option<TokenModel>, ErrorKind>(
                    Some(t@),
                ) && token_fits(t@, self.tail@) && t.wf(),
                Ok(None) => scan_token(self.tail@) == Ok::<Option<TokenModel>, ErrorKind>(None),
                Err(pe) => scan_token(self.tail@) == Err::<Option<TokenModel>, ErrorKind>(
                    pe.kind,
                ),
            },
    {
        parse(self.tail)
    }
}

} // verus!
