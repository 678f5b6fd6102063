use vstd::prelude::*;

verus! {

use vstd::string::StringSliceAdditionalSpecFns;
use vstd::string::StringExecFns;

/// A lexical token. Tokens carry no source position; the lexer reports
/// positions only in its error value.
#[derive(Debug, PartialEq, Eq)]
pub enum Tok {
    // keywords
    Int,
    Unsigned,
    Void,
    Const,
    Return,
    If,
    Else,
    While,
    Break,
    Continue,
    True,
    False,
    // identifiers / literals
    Ident(String),
    IntLit(i128),
    // punctuation
    LParen,
    RParen,
    LBrace,
    RBrace,
    Semi,
    Comma,
    // operators
    Assign,
    EqEq,
    NotEq,
    Lt,
    Le,
    Gt,
    Ge,
    Plus,
    Minus,
    Star,
    Eof,
}

/// The mathematical model of a token: identical to `Tok`, with the
/// identifier text abstracted to its character sequence.
pub enum SpecTok {
    Int,
    Unsigned,
    Void,
    Const,
    Return,
    If,
    Else,
    While,
    Break,
    Continue,
    True,
    False,
    Ident(Seq<char>),
    IntLit(i128),
    LParen,
    RParen,
    LBrace,
    RBrace,
    Semi,
    Comma,
    Assign,
    EqEq,
    NotEq,
    Lt,
    Le,
    Gt,
    Ge,
    Plus,
    Minus,
    Star,
    Eof,
}

impl View for Tok {
    type V = SpecTok;

    open spec fn view(&self) -> SpecTok {
        match self {
            Tok::Int => SpecTok::Int,
            Tok::Unsigned => SpecTok::Unsigned,
            Tok::Void => SpecTok::Void,
            Tok::Const => SpecTok::Const,
            Tok::Return => SpecTok::Return,
            Tok::If => SpecTok::If,
            Tok::Else => SpecTok::Else,
            Tok::While => SpecTok::While,
            Tok::Break => SpecTok::Break,
            Tok::Continue => SpecTok::Continue,
            Tok::True => SpecTok::True,
            Tok::False => SpecTok::False,
            Tok::Ident(s) => SpecTok::Ident(s@),
            Tok::IntLit(v) => SpecTok::IntLit(*v),
            Tok::LParen => SpecTok::LParen,
            Tok::RParen => SpecTok::RParen,
            Tok::LBrace => SpecTok::LBrace,
            Tok::RBrace => SpecTok::RBrace,
            Tok::Semi => SpecTok::Semi,
            Tok::Comma => SpecTok::Comma,
            Tok::Assign => SpecTok::Assign,
            Tok::EqEq => SpecTok::EqEq,
            Tok::NotEq => SpecTok::NotEq,
            Tok::Lt => SpecTok::Lt,
            Tok::Le => SpecTok::Le,
            Tok::Gt => SpecTok::Gt,
            Tok::Ge => SpecTok::Ge,
            Tok::Plus => SpecTok::Plus,
            Tok::Minus => SpecTok::Minus,
            Tok::Star => SpecTok::Star,
            Tok::Eof => SpecTok::Eof,
        }
    }
}

impl Clone for Tok {
    fn clone(&self) -> (r: Tok)
        ensures
            r@ == self@,
    {
        match self {
            Tok::Int => Tok::Int,
            Tok::Unsigned => Tok::Unsigned,
            Tok::Void => Tok::Void,
            Tok::Const => Tok::Const,
            Tok::Return => Tok::Return,
            Tok::If => Tok::If,
            Tok::Else => Tok::Else,
            Tok::While => Tok::While,
            Tok::Break => Tok::Break,
            Tok::Continue => Tok::Continue,
            Tok::True => Tok::True,
            Tok::False => Tok::False,
            Tok::Ident(s) => Tok::Ident(s.clone()),
            Tok::IntLit(v) => Tok::IntLit(*v),
            Tok::LParen => Tok::LParen,
            Tok::RParen => Tok::RParen,
            Tok::LBrace => Tok::LBrace,
            Tok::RBrace => Tok::RBrace,
            Tok::Semi => Tok::Semi,
            Tok::Comma => Tok::Comma,
            Tok::Assign => Tok::Assign,
            Tok::EqEq => Tok::EqEq,
            Tok::NotEq => Tok::NotEq,
            Tok::Lt => Tok::Lt,
            Tok::Le => Tok::Le,
            Tok::Gt => Tok::Gt,
            Tok::Ge => Tok::Ge,
            Tok::Plus => Tok::Plus,
            Tok::Minus => Tok::Minus,
            Tok::Star => Tok::Star,
            Tok::Eof => Tok::Eof,
        }
    }
}

/// A lexical failure: a message plus a 1-based line and column.
#[derive(Clone, Debug)]
pub struct LexError {
    pub msg: String,
    pub line: usize,
    pub col: usize,
}

/// The two lexical failure modes.
pub enum LexIssue {
    UnterminatedComment,
    UnexpectedChar(u8),
}

/// The message text that accompanies each lexical failure mode.
pub open spec fn lex_msg(e: LexIssue) -> Seq<char> {
    match e {
        LexIssue::UnterminatedComment => "unterminated block comment"@,
        LexIssue::UnexpectedChar(b) => "unexpected char: '"@ + seq![b as char] + "'"@,
    }
}

// ----- byte classes -----

pub open spec fn is_ws(b: u8) -> bool {
    b == 32 || b == 9 || b == 13 || b == 10
}

pub open spec fn is_digit(b: u8) -> bool {
    48 <= b && b <= 57
}

pub open spec fn is_ident_start(b: u8) -> bool {
    (65 <= b && b <= 90) || (97 <= b && b <= 122) || b == 95
}

pub open spec fn is_ident_cont(b: u8) -> bool {
    is_ident_start(b) || is_digit(b)
}

/// The bytes `a b` stand at position `i`.
pub open spec fn two_at(s: Seq<u8>, i: int, a: u8, b: u8) -> bool {
    0 <= i && i + 2 <= s.len() && s[i] == a && s[i + 1] == b
}

// ----- source positions -----

/// 1-based line number after consuming the first `i` bytes of `s`.
pub open spec fn line_of(s: Seq<u8>, i: int) -> int
    decreases i,
{
    if i <= 0 || i > s.len() {
        1
    } else if s[i - 1] == 10 {
        line_of(s, i - 1) + 1
    } else {
        line_of(s, i - 1)
    }
}

/// 1-based column after consuming the first `i` bytes of `s`.
pub open spec fn col_of(s: Seq<u8>, i: int) -> int
    decreases i,
{
    if i <= 0 || i > s.len() {
        1
    } else if s[i - 1] == 10 {
        1
    } else {
        col_of(s, i - 1) + 1
    }
}

pub proof fn lemma_pos_bounds(s: Seq<u8>, i: int)
    ensures
        1 <= line_of(s, i) <= i + 1 || line_of(s, i) == 1,
        1 <= col_of(s, i) <= i + 1 || col_of(s, i) == 1,
    decreases i,
{
    if 0 < i <= s.len() {
        lemma_pos_bounds(s, i - 1);
    }
}

// ----- trivia (whitespace and comments) -----

/// First position at or after `i` whose byte is not whitespace.
pub open spec fn ws_end(s: Seq<u8>, i: int) -> int
    decreases s.len() - i,
{
    if 0 <= i && i < s.len() && is_ws(s[i]) {
        ws_end(s, i + 1)
    } else {
        i
    }
}

/// Position just past the newline that ends a line comment scanned from `i`,
/// or the end of input if no newline follows.
pub open spec fn line_comment_end(s: Seq<u8>, i: int) -> int
    decreases s.len() - i,
{
    if 0 <= i && i < s.len() {
        if s[i] == 10 {
            i + 1
        } else {
            line_comment_end(s, i + 1)
        }
    } else {
        i
    }
}

/// Position just past the `*/` that closes a block comment scanned from `i`,
/// or `None` if the comment never closes.
pub open spec fn block_comment_end(s: Seq<u8>, i: int) -> Option<int>
    decreases s.len() - i,
{
    if two_at(s, i, 42, 47) {
        Some(i + 2)
    } else if 0 <= i && i < s.len() {
        block_comment_end(s, i + 1)
    } else {
        None
    }
}

/// Position of the first byte after all whitespace and comments from `i`,
/// or `None` on an unterminated block comment. The bound tests around the
/// recursive calls carry the termination measure; the scan of a comment
/// always moves forward, so their failure arms are never reached.
pub open spec fn skip_trivia(s: Seq<u8>, i: int) -> Option<int>
    decreases s.len() - i,
{
    let j = ws_end(s, i);
    if !(i <= j && j <= s.len()) {
        Some(j)
    } else if two_at(s, j, 47, 47) {
        let k = line_comment_end(s, j);
        if j < k && k <= s.len() {
            skip_trivia(s, k)
        } else {
            Some(k)
        }
    } else if two_at(s, j, 47, 42) {
        match block_comment_end(s, j + 2) {
            Option::None => Option::None,
            Option::Some(k) => {
                if j < k && k <= s.len() {
                    skip_trivia(s, k)
                } else {
                    Some(k)
                }
            },
        }
    } else {
        Some(j)
    }
}

pub proof fn lemma_ws_end_bounds(s: Seq<u8>, i: int)
    requires
        0 <= i <= s.len(),
    ensures
        i <= ws_end(s, i) <= s.len(),
    decreases s.len() - i,
{
    if i < s.len() && is_ws(s[i]) {
        lemma_ws_end_bounds(s, i + 1);
    }
}

pub proof fn lemma_line_comment_end_bounds(s: Seq<u8>, i: int)
    requires
        0 <= i <= s.len(),
    ensures
        i <= line_comment_end(s, i) <= s.len(),
        i < s.len() ==> i < line_comment_end(s, i),
    decreases s.len() - i,
{
    if i < s.len() && s[i] != 10 {
        lemma_line_comment_end_bounds(s, i + 1);
    }
}

pub proof fn lemma_block_comment_end_bounds(s: Seq<u8>, i: int)
    requires
        0 <= i <= s.len(),
        block_comment_end(s, i) is Some,
    ensures
        i < block_comment_end(s, i)->0 <= s.len(),
    decreases s.len() - i,
{
    if !two_at(s, i, 42, 47) && i < s.len() {
        lemma_block_comment_end_bounds(s, i + 1);
    }
}

pub proof fn lemma_skip_trivia_bounds(s: Seq<u8>, i: int)
    requires
        0 <= i <= s.len(),
        skip_trivia(s, i) is Some,
    ensures
        i <= skip_trivia(s, i)->0 <= s.len(),
    decreases s.len() - i,
{
    let j = ws_end(s, i);
    lemma_ws_end_bounds(s, i);
    if two_at(s, j, 47, 47) {
        let k = line_comment_end(s, j);
        lemma_line_comment_end_bounds(s, j);
        if j < k && k <= s.len() {
            lemma_skip_trivia_bounds(s, k);
        }
    } else if two_at(s, j, 47, 42) {
        match block_comment_end(s, j + 2) {
            Option::None => {},
            Option::Some(k) => {
                lemma_block_comment_end_bounds(s, j + 2);
                if j < k && k <= s.len() {
                    lemma_skip_trivia_bounds(s, k);
                }
            },
        }
    }
}

// ----- single tokens -----

/// End of the maximal run of decimal digits starting at `i`.
pub open spec fn digits_end(s: Seq<u8>, i: int) -> int
    decreases s.len() - i,
{
    if 0 <= i && i < s.len() && is_digit(s[i]) {
        digits_end(s, i + 1)
    } else {
        i
    }
}

/// End of the maximal run of identifier characters starting at `i`.
pub open spec fn ident_end(s: Seq<u8>, i: int) -> int
    decreases s.len() - i,
{
    if 0 <= i && i < s.len() && is_ident_cont(s[i]) {
        ident_end(s, i + 1)
    } else {
        i
    }
}

pub proof fn lemma_digits_end_bounds(s: Seq<u8>, i: int)
    requires
        0 <= i <= s.len(),
    ensures
        i <= digits_end(s, i) <= s.len(),
    decreases s.len() - i,
{
    if i < s.len() && is_digit(s[i]) {
        lemma_digits_end_bounds(s, i + 1);
    }
}

pub proof fn lemma_ident_end_bounds(s: Seq<u8>, i: int)
    requires
        0 <= i <= s.len(),
    ensures
        i <= ident_end(s, i) <= s.len(),
    decreases s.len() - i,
{
    if i < s.len() && is_ident_cont(s[i]) {
        lemma_ident_end_bounds(s, i + 1);
    }
}

/// Left-to-right accumulation of the digits of `s` in `[i, end)` onto `acc`,
/// by `acc * 10 + digit` with silent 128-bit wrap-around.
pub open spec fn dec_acc(s: Seq<u8>, i: int, end: int, acc: i128) -> i128
    decreases end - i,
{
    if i < end && 0 <= i && i < s.len() {
        dec_acc(
            s,
            i + 1,
            end,
            vstd::wrapping::i128_specs::wrapping_add(
                vstd::wrapping::i128_specs::wrapping_mul(acc, 10),
                (s[i] - 48) as i128,
            ),
        )
    } else {
        acc
    }
}

/// The bytes of `w` read as characters.
pub open spec fn chars_of(w: Seq<u8>) -> Seq<char> {
    w.map(|_i: int, b: u8| b as char)
}

/// Keyword table lookup: the keyword token for `w`, else an identifier.
pub open spec fn kw_tok(w: Seq<char>) -> SpecTok {
    if w == "int"@ {
        SpecTok::Int
    } else if w == "unsigned"@ {
        SpecTok::Unsigned
    } else if w == "void"@ {
        SpecTok::Void
    } else if w == "const"@ {
        SpecTok::Const
    } else if w == "return"@ {
        SpecTok::Return
    } else if w == "if"@ {
        SpecTok::If
    } else if w == "else"@ {
        SpecTok::Else
    } else if w == "while"@ {
        SpecTok::While
    } else if w == "break"@ {
        SpecTok::Break
    } else if w == "continue"@ {
        SpecTok::Continue
    } else if w == "true"@ {
        SpecTok::True
    } else if w == "false"@ {
        SpecTok::False
    } else {
        SpecTok::Ident(w)
    }
}

/// The token that starts at position `i` (no trivia before it, `i < s.len()`)
/// and the position just past it, or the offending byte.
pub open spec fn spec_tok_at(s: Seq<u8>, i: int) -> Result<(SpecTok, int), u8> {
    if two_at(s, i, 61, 61) {
        Ok((SpecTok::EqEq, i + 2))
    } else if two_at(s, i, 33, 61) {
        Ok((SpecTok::NotEq, i + 2))
    } else if two_at(s, i, 60, 61) {
        Ok((SpecTok::Le, i + 2))
    } else if two_at(s, i, 62, 61) {
        Ok((SpecTok::Ge, i + 2))
    } else if !(0 <= i && i < s.len()) {
        Err(0)
    } else if s[i] == 40 {
        Ok((SpecTok::LParen, i + 1))
    } else if s[i] == 41 {
        Ok((SpecTok::RParen, i + 1))
    } else if s[i] == 123 {
        Ok((SpecTok::LBrace, i + 1))
    } else if s[i] == 125 {
        Ok((SpecTok::RBrace, i + 1))
    } else if s[i] == 59 {
        Ok((SpecTok::Semi, i + 1))
    } else if s[i] == 44 {
        Ok((SpecTok::Comma, i + 1))
    } else if s[i] == 61 {
        Ok((SpecTok::Assign, i + 1))
    } else if s[i] == 60 {
        Ok((SpecTok::Lt, i + 1))
    } else if s[i] == 62 {
        Ok((SpecTok::Gt, i + 1))
    } else if s[i] == 43 {
        Ok((SpecTok::Plus, i + 1))
    } else if s[i] == 45 {
        Ok((SpecTok::Minus, i + 1))
    } else if s[i] == 42 {
        Ok((SpecTok::Star, i + 1))
    } else if is_digit(s[i]) {
        Ok((SpecTok::IntLit(dec_acc(s, i, digits_end(s, i), 0)), digits_end(s, i)))
    } else if is_ident_start(s[i]) {
        Ok((kw_tok(chars_of(s.subrange(i, ident_end(s, i)))), ident_end(s, i)))
    } else {
        Err(s[i])
    }
}

/// One step of the lexer from position `i`: the next token (after trivia)
/// and the position just past it. End of input yields the end marker, in
/// place, so a step yields `Eof` exactly when the input is exhausted.
pub open spec fn spec_next(s: Seq<u8>, i: int) -> Result<(SpecTok, int), (LexIssue, int)> {
    match skip_trivia(s, i) {
        Option::None => Err((LexIssue::UnterminatedComment, s.len() as int)),
        Option::Some(j) => {
            if !(i <= j && j <= s.len()) {
                Err((LexIssue::UnterminatedComment, j))
            } else if j == s.len() {
                Ok((SpecTok::Eof, j))
            } else {
                match spec_tok_at(s, j) {
                    Ok((t, k)) => Ok((t, k)),
                    Err(b) => Err((LexIssue::UnexpectedChar(b), j)),
                }
            }
        },
    }
}

pub proof fn lemma_spec_next_bounds(s: Seq<u8>, i: int)
    requires
        0 <= i <= s.len(),
    ensures
        match spec_next(s, i) {
            Ok((t, k)) => i <= k <= s.len() && (!(t is Eof) ==> i < k),
            Err(e) => true,
        },
{
    match skip_trivia(s, i) {
        Option::None => {},
        Option::Some(j) => {
            lemma_skip_trivia_bounds(s, i);
            if i <= j && j < s.len() {
                if is_digit(s[j]) {
                    lemma_digits_end_bounds(s, j + 1);
                    assert(digits_end(s, j) == digits_end(s, j + 1));
                }
                if is_ident_start(s[j]) {
                    lemma_ident_end_bounds(s, j + 1);
                    assert(ident_end(s, j) == ident_end(s, j + 1));
                }
            }
        },
    }
}

/// The full token sequence from position `i`: the tokens of `s[i..]`
/// terminated by exactly one end marker, or the first lexical failure with
/// the byte position where it is reported. A token consumes at least one
/// byte, so the bound test before the recursive call never fails.
pub open spec fn spec_lex_from(s: Seq<u8>, i: int) -> Result<Seq<SpecTok>, (LexIssue, int)>
    decreases s.len() - i + 1,
{
    match spec_next(s, i) {
        Err(e) => Err(e),
        Ok((t, k)) => {
            if t is Eof {
                Ok(seq![t])
            } else if i < k && k <= s.len() {
                match spec_lex_from(s, k) {
                    Ok(rest) => Ok(seq![t] + rest),
                    Err(e) => Err(e),
                }
            } else {
                Err((LexIssue::UnterminatedComment, k))
            }
        },
    }
}

/// The token sequence of the whole input, or its first lexical failure.
pub open spec fn spec_lex(s: Seq<u8>) -> Result<Seq<SpecTok>, (LexIssue, int)> {
    spec_lex_from(s, 0)
}

pub proof fn lemma_lex_from_end_marker(s: Seq<u8>, i: int)
    ensures
        match spec_lex_from(s, i) {
            Ok(ts) => ts.len() >= 1 && ts.last() is Eof && (forall|k: int|
                0 <= k < ts.len() - 1 ==> !((#[trigger] ts[k]) is Eof)),
            Err(e) => true,
        },
    decreases s.len() - i + 1,
{
    match spec_next(s, i) {
        Err(e) => {},
        Ok((t, k)) => {
            if !(t is Eof) && i < k && k <= s.len() {
                lemma_lex_from_end_marker(s, k);
                match spec_lex_from(s, k) {
                    Ok(rest) => {
                        let ts = seq![t] + rest;
                        assert(ts.last() == rest.last());
                        assert forall|q: int| 0 <= q < ts.len() - 1 implies !(
                        (#[trigger] ts[q]) is Eof) by {
                            if q > 0 {
                                assert(ts[q] == rest[q - 1]);
                            }
                        }
                    },
                    Err(_) => {},
                }
            }
        },
    }
}

/// Law: a token sequence the lexer accepts ends with exactly one end
/// marker: the marker stands last, and nowhere before.
pub proof fn lemma_lex_single_end_marker(s: Seq<u8>)
    requires
        spec_lex(s) is Ok,
    ensures
        spec_lex(s)->Ok_0.len() >= 1,
        spec_lex(s)->Ok_0.last() is Eof,
        forall|k: int|
            0 <= k < spec_lex(s)->Ok_0.len() - 1 ==> !((#[trigger] spec_lex(s)->Ok_0[k]) is Eof),
{
    lemma_lex_from_end_marker(s, 0);
}

// ----- the value of a digit string -----

/// Mathematical value of the decimal digit string `s[0..i)`.
pub open spec fn dec_val(s: Seq<u8>, i: int) -> int
    decreases i,
{
    if i <= 0 || i > s.len() {
        0
    } else {
        dec_val(s, i - 1) * 10 + (s[i - 1] - 48)
    }
}

proof fn lemma_dec_val_nonneg(s: Seq<u8>, i: int)
    requires
        forall|k: int| 0 <= k < i ==> is_digit(s[k]),
    ensures
        dec_val(s, i) >= 0,
    decreases i,
{
    if 0 < i <= s.len() {
        lemma_dec_val_nonneg(s, i - 1);
    }
}

proof fn lemma_dec_val_mono(s: Seq<u8>, i: int, k: int)
    requires
        0 <= i <= k <= s.len(),
        forall|q: int| 0 <= q < k ==> is_digit(s[q]),
    ensures
        dec_val(s, i) <= dec_val(s, k),
    decreases k - i,
{
    if i < k {
        lemma_dec_val_mono(s, i, k - 1);
        lemma_dec_val_nonneg(s, k - 1);
    }
}

proof fn lemma_digits_end_all(s: Seq<u8>, i: int)
    requires
        0 <= i <= s.len(),
        forall|k: int| i <= k < s.len() ==> is_digit(s[k]),
    ensures
        digits_end(s, i) == s.len(),
    decreases s.len() - i,
{
    if i < s.len() {
        lemma_digits_end_all(s, i + 1);
    }
}

proof fn lemma_dec_acc_exact(s: Seq<u8>, i: int, end: int, acc: i128)
    requires
        0 <= i <= end <= s.len(),
        forall|k: int| 0 <= k < end ==> is_digit(s[k]),
        acc as int == dec_val(s, i),
        dec_val(s, end) <= i128::MAX,
    ensures
        dec_acc(s, i, end, acc) as int == dec_val(s, end),
    decreases end - i,
{
    if i < end {
        let d = (s[i] - 48) as i128;
        lemma_dec_val_nonneg(s, i);
        lemma_dec_val_mono(s, i + 1, end);
        assert(dec_val(s, i + 1) == acc * 10 + d);
        let r = 0x1_0000_0000_0000_0000_0000_0000_0000_0000int;
        assert((acc * 10) % r == acc * 10) by (nonlinear_arith)
            requires
                0 <= acc * 10 < r,
        ;
        assert(vstd::wrapping::i128_specs::wrapping_mul(acc, 10) == acc * 10);
        lemma_dec_acc_exact(s, i + 1, end, (acc * 10 + d) as i128);
    }
}

/// Law: a decimal digit string whose mathematical value is within the
/// 128-bit signed range lexes to exactly one integer literal holding that
/// value, followed by the end marker.
pub proof fn lemma_lex_digit_string(s: Seq<u8>)
    requires
        s.len() >= 1,
        forall|k: int| 0 <= k < s.len() ==> is_digit(s[k]),
        dec_val(s, s.len() as int) <= i128::MAX,
    ensures
        spec_lex(s) == Ok::<Seq<SpecTok>, (LexIssue, int)>(
            seq![SpecTok::IntLit(dec_val(s, s.len() as int) as i128), SpecTok::Eof],
        ),
{
    let n = s.len() as int;
    lemma_digits_end_all(s, 0);
    lemma_dec_acc_exact(s, 0, n, 0);
    let v = dec_val(s, n) as i128;
    assert(is_digit(s[0]));
    assert(ws_end(s, 0) == 0);
    assert(skip_trivia(s, 0) == Some(0int));
    assert(spec_tok_at(s, 0) == Ok::<(SpecTok, int), u8>((SpecTok::IntLit(v), n)));
    assert(ws_end(s, n) == n);
    assert(skip_trivia(s, n) == Some(n));
    assert(spec_lex_from(s, n) == Ok::<Seq<SpecTok>, (LexIssue, int)>(seq![SpecTok::Eof]));
    assert(seq![SpecTok::IntLit(v)] + seq![SpecTok::Eof] =~= seq![
        SpecTok::IntLit(v),
        SpecTok::Eof,
    ]);
}

// ----- executable lexer -----

/// Relies on `String::from_utf8`: a sequence of ASCII bytes decodes to the
/// string made of exactly those characters.
#[verifier::external_body]
fn ascii_string(w: Vec<u8>) -> (r: String)
    requires
        forall|k: int| 0 <= k < w@.len() ==> w@[k] < 128,
    ensures
        r@ == chars_of(w@),
{
    match String::from_utf8(w) {
        Ok(s) => s,
        Err(_) => String::new(),
    }
}

/// Relies on `String::from(char)`: a string holding the one given character.
#[verifier::external_body]
pub(crate) fn char_string(c: char) -> (r: String)
    ensures
        r@ == seq![c],
{
    String::from(c)
}

/// Compares the bytes of `w` against an ASCII keyword.
fn word_is(w: &Vec<u8>, kw: &str) -> (r: bool)
    requires
        vstd::string::is_ascii(kw),
        forall|k: int| 0 <= k < w@.len() ==> w@[k] < 128,
    ensures
        r == (chars_of(w@) == kw@),
{
    proof {
        vstd::string::is_ascii_spec_bytes(kw);
    }
    let kb = kw.as_bytes();
    if w.len() != kb.len() {
        proof {
            assert(chars_of(w@).len() == w@.len());
            assert(chars_of(w@) != kw@);
        }
        return false;
    }
    let n = w.len();
    let mut i: usize = 0;
    while i < n
        invariant
            n == w@.len() == kb@.len(),
            kb@ == kw.spec_bytes(),
            kb@ =~= Seq::new(kw@.len(), |q: int| kw@[q] as u8),
            forall|k: int| 0 <= k < w@.len() ==> w@[k] < 128,
            vstd::string::is_ascii(kw),
            i <= n,
            forall|k: int| 0 <= k < i ==> w@[k] == kb@[k],
        decreases n - i,
    {
        if w[i] != kb[i] {
            proof {
                assert(w@[i as int] as char != kw@[i as int]);
                assert(chars_of(w@)[i as int] != kw@[i as int]);
            }
            return false;
        }
        i = i + 1;
    }
    proof {
        assert forall|k: int| 0 <= k < w@.len() implies chars_of(w@)[k] == kw@[k] by {
            assert(w@[k] == kb@[k]);
            assert(kw@[k] as u8 == w@[k]);
            assert('\0' <= kw@[k] <= '\u{7f}');
        }
        assert(chars_of(w@) =~= kw@);
    }
    true
}

struct Lexer<'a> {
    s: &'a [u8],
    i: usize,
    line: usize,
    col: usize,
}

impl<'a> Lexer<'a> {
    spec fn wf(&self) -> bool {
        &&& self.i <= self.s@.len()
        &&& self.s@.len() < usize::MAX
        &&& self.line as int == line_of(self.s@, self.i as int)
        &&& self.col as int == col_of(self.s@, self.i as int)
    }

    fn new(src: &'a str) -> (r: Self)
        requires
            src.spec_bytes().len() < usize::MAX,
        ensures
            r.wf(),
            r.s@ == src.spec_bytes(),
            r.i == 0,
    {
        Lexer { s: src.as_bytes(), i: 0, line: 1, col: 1 }
    }

    fn peek(&self) -> (r: Option<u8>)
        ensures
            r == (if self.i < self.s@.len() {
                Some(self.s@[self.i as int])
            } else {
                None::<u8>
            }),
    {
        if self.i < self.s.len() {
            Some(self.s[self.i])
        } else {
            None
        }
    }

    /// The byte under the cursor, which must exist.
    fn cur(&self) -> (r: u8)
        requires
            self.i < self.s@.len(),
        ensures
            r == self.s@[self.i as int],
    {
        self.s[self.i]
    }

    fn bump(&mut self) -> (r: Option<u8>)
        requires
            old(self).wf(),
        ensures
            final(self).wf(),
            final(self).s == old(self).s,
            if old(self).i < old(self).s@.len() {
                r == Some(old(self).s@[old(self).i as int]) && final(self).i == old(self).i + 1
            } else {
                r == None::<u8> && *final(self) == *old(self)
            },
    {
        if self.i < self.s.len() {
            let c = self.s[self.i];
            proof {
                lemma_pos_bounds(self.s@, self.i as int);
            }
            self.i = self.i + 1;
            if c == 10 {
                self.line = self.line + 1;
                self.col = 1;
            } else {
                self.col = self.col + 1;
            }
            Some(c)
        } else {
            None
        }
    }

    fn starts_with(&self, a: u8, b: u8) -> (r: bool)
        ensures
            r == two_at(self.s@, self.i as int, a, b),
    {
        self.i < self.s.len() && self.s.len() - self.i >= 2 && self.s[self.i] == a && self.s[self.i
            + 1] == b
    }

    fn at_ws(&self) -> (r: bool)
        ensures
            r == (self.i < self.s@.len() && is_ws(self.s@[self.i as int])),
    {
        match self.peek() {
            Some(c) => c == 32 || c == 9 || c == 13 || c == 10,
            None => false,
        }
    }

    fn at_digit(&self) -> (r: bool)
        ensures
            r == (self.i < self.s@.len() && is_digit(self.s@[self.i as int])),
    {
        match self.peek() {
            Some(c) => 48 <= c && c <= 57,
            None => false,
        }
    }

    fn at_ident_cont(&self) -> (r: bool)
        ensures
            r == (self.i < self.s@.len() && is_ident_cont(self.s@[self.i as int])),
    {
        match self.peek() {
            Some(c) => (65 <= c && c <= 90) || (97 <= c && c <= 122) || c == 95 || (48 <= c && c
                <= 57),
            None => false,
        }
    }

    fn in_block_comment(&self) -> (r: bool)
        ensures
            r == (self.i < self.s@.len() && !two_at(self.s@, self.i as int, 42, 47)),
    {
        self.i < self.s.len() && !self.starts_with(42, 47)
    }

    fn unterminated_err(&self) -> (r: LexError)
        ensures
            r.msg@ == lex_msg(LexIssue::UnterminatedComment),
            r.line == self.line,
            r.col == self.col,
    {
        LexError { msg: "unterminated block comment".to_owned(), line: self.line, col: self.col }
    }

    fn skip_ws_and_comments(&mut self) -> (r: Result<(), LexError>)
        requires
            old(self).wf(),
        ensures
            final(self).wf(),
            final(self).s == old(self).s,
            match skip_trivia(old(self).s@, old(self).i as int) {
                Option::Some(j) => r is Ok && final(self).i as int == j,
                Option::None => {
                    &&& r is Err
                    &&& final(self).i == old(self).s@.len()
                    &&& r->Err_0.msg@ == lex_msg(LexIssue::UnterminatedComment)
                    &&& r->Err_0.line as int == line_of(old(self).s@, old(self).s@.len() as int)
                    &&& r->Err_0.col as int == col_of(old(self).s@, old(self).s@.len() as int)
                },
            },
        decreases old(self).s@.len() - old(self).i,
    {
        let ghost s = self.s@;
        let ghost i0 = self.i as int;
        while self.at_ws()
            invariant
                self.wf(),
                self.s@ == s,
                i0 <= self.i as int,
                ws_end(s, i0) == ws_end(s, self.i as int),
            decreases s.len() - self.i,
        {
            self.bump();
        }
        let ghost j = self.i as int;
        proof {
            assert(ws_end(s, j) == j);
            lemma_ws_end_bounds(s, i0);
        }
        if self.starts_with(47, 47) {
            let mut done = false;
            while !done
                invariant
                    self.wf(),
                    self.s@ == s,
                    j <= self.i as int <= s.len(),
                    !done ==> line_comment_end(s, j) == line_comment_end(s, self.i as int),
                    done ==> self.i as int == line_comment_end(s, j),
                decreases s.len() - self.i + (if done {
                    0int
                } else {
                    1int
                }),
            {
                match self.bump() {
                    None => {
                        done = true;
                    },
                    Some(c) => {
                        if c == 10 {
                            done = true;
                        }
                    },
                }
            }
            proof {
                lemma_line_comment_end_bounds(s, j);
            }
            return self.skip_ws_and_comments();
        }
        if self.starts_with(47, 42) {
            self.bump();
            self.bump();
            while self.in_block_comment()
                invariant
                    self.wf(),
                    self.s@ == s,
                    j + 2 <= self.i as int <= s.len(),
                    block_comment_end(s, j + 2) == block_comment_end(s, self.i as int),
                decreases s.len() - self.i,
            {
                self.bump();
            }
            if self.starts_with(42, 47) {
                proof {
                    lemma_block_comment_end_bounds(s, j + 2);
                }
                self.bump();
                self.bump();
                return self.skip_ws_and_comments();
            }
            // the scan ran off the end of the input
            proof {
                assert(self.i as int == s.len());
                assert(block_comment_end(s, j + 2) is None);
            }
            return Err(self.unterminated_err());
        }
        Ok(())
    }

    fn next_tok(&mut self) -> (r: Result<Tok, LexError>)
        requires
            old(self).wf(),
        ensures
            final(self).wf(),
            final(self).s == old(self).s,
            match spec_next(old(self).s@, old(self).i as int) {
                Ok((t, k)) => r is Ok && r->Ok_0@ == t && final(self).i as int == k,
                Err((e, p)) => {
                    &&& r is Err
                    &&& r->Err_0.msg@ == lex_msg(e)
                    &&& r->Err_0.line as int == line_of(old(self).s@, p)
                    &&& r->Err_0.col as int == col_of(old(self).s@, p)
                },
            },
        decreases old(self).s@.len() - old(self).i,
    {
        let ghost s = self.s@;
        let ghost i0 = self.i as int;
        match self.skip_ws_and_comments() {
            Err(e) => {
                return Err(e);
            },
            Ok(()) => {},
        }
        proof {
            lemma_skip_trivia_bounds(s, i0);
        }
        let ghost j = self.i as int;
        // two-character operators take priority: maximal munch
        if self.starts_with(61, 61) {
            self.bump();
            self.bump();
            return Ok(Tok::EqEq);
        }
        if self.starts_with(33, 61) {
            self.bump();
            self.bump();
            return Ok(Tok::NotEq);
        }
        if self.starts_with(60, 61) {
            self.bump();
            self.bump();
            return Ok(Tok::Le);
        }
        if self.starts_with(62, 61) {
            self.bump();
            self.bump();
            return Ok(Tok::Ge);
        }
        let c = match self.peek() {
            None => {
                return Ok(Tok::Eof);
            },
            Some(c) => c,
        };
        // single-character punctuation and operators
        if c == 40 {
            self.bump();
            return Ok(Tok::LParen);
        }
        if c == 41 {
            self.bump();
            return Ok(Tok::RParen);
        }
        if c == 123 {
            self.bump();
            return Ok(Tok::LBrace);
        }
        if c == 125 {
            self.bump();
            return Ok(Tok::RBrace);
        }
        if c == 59 {
            self.bump();
            return Ok(Tok::Semi);
        }
        if c == 44 {
            self.bump();
            return Ok(Tok::Comma);
        }
        if c == 61 {
            self.bump();
            return Ok(Tok::Assign);
        }
        if c == 60 {
            self.bump();
            return Ok(Tok::Lt);
        }
        if c == 62 {
            self.bump();
            return Ok(Tok::Gt);
        }
        if c == 43 {
            self.bump();
            return Ok(Tok::Plus);
        }
        if c == 45 {
            self.bump();
            return Ok(Tok::Minus);
        }
        if c == 42 {
            self.bump();
            return Ok(Tok::Star);
        }
        if 48 <= c && c <= 57 {
            // a decimal literal: the maximal digit run, accumulated with
            // silent 128-bit wrap-around
            let ghost e = digits_end(s, j);
            proof {
                lemma_digits_end_bounds(s, j);
            }
            let mut v: i128 = 0;
            while self.at_digit()
                invariant
                    self.wf(),
                    self.s@ == s,
                    j <= self.i as int <= s.len(),
                    e == digits_end(s, self.i as int),
                    self.i as int <= e,
                    dec_acc(s, j, e, 0) == dec_acc(s, self.i as int, e, v),
                decreases s.len() - self.i,
            {
                let d = self.cur();
                proof {
                    lemma_digits_end_bounds(s, self.i as int + 1);
                }
                self.bump();
                v = v.wrapping_mul(10).wrapping_add((d - 48) as i128);
            }
            proof {
                assert(self.i as int == e);
            }
            return Ok(Tok::IntLit(v));
        }
        if (65 <= c && c <= 90) || (97 <= c && c <= 122) || c == 95 {
            // an identifier or keyword: the maximal identifier-character run
            let ghost e = ident_end(s, j);
            proof {
                lemma_ident_end_bounds(s, j);
            }
            let mut w: Vec<u8> = Vec::new();
            while self.at_ident_cont()
                invariant
                    self.wf(),
                    self.s@ == s,
                    0 <= j <= self.i as int <= s.len(),
                    e == ident_end(s, self.i as int),
                    self.i as int <= e,
                    w@ =~= s.subrange(j, self.i as int),
                    forall|k: int| 0 <= k < w@.len() ==> w@[k] < 128,
                decreases s.len() - self.i,
            {
                let d = self.cur();
                proof {
                    lemma_ident_end_bounds(s, self.i as int + 1);
                }
                self.bump();
                w.push(d);
                proof {
                    assert(w@ =~= s.subrange(j, self.i as int));
                }
            }
            proof {
                assert(self.i as int == e);
                assert(w@ =~= s.subrange(j, e));
                reveal_strlit("int");
                reveal_strlit("unsigned");
                reveal_strlit("void");
                reveal_strlit("const");
                reveal_strlit("return");
                reveal_strlit("if");
                reveal_strlit("else");
                reveal_strlit("while");
                reveal_strlit("break");
                reveal_strlit("continue");
                reveal_strlit("true");
                reveal_strlit("false");
            }
            let t = if word_is(&w, "int") {
                Tok::Int
            } else if word_is(&w, "unsigned") {
                Tok::Unsigned
            } else if word_is(&w, "void") {
                Tok::Void
            } else if word_is(&w, "const") {
                Tok::Const
            } else if word_is(&w, "return") {
                Tok::Return
            } else if word_is(&w, "if") {
                Tok::If
            } else if word_is(&w, "else") {
                Tok::Else
            } else if word_is(&w, "while") {
                Tok::While
            } else if word_is(&w, "break") {
                Tok::Break
            } else if word_is(&w, "continue") {
                Tok::Continue
            } else if word_is(&w, "true") {
                Tok::True
            } else if word_is(&w, "false") {
                Tok::False
            } else {
                Tok::Ident(ascii_string(w))
            };
            return Ok(t);
        }
        // nothing matches: report the offending byte at its position
        let mut m = "unexpected char: '".to_owned();
        m.append(char_string(c as char).as_str());
        m.append("'");
        Err(LexError { msg: m, line: self.line, col: self.col })
    }
}

/// Scans the whole input into its token sequence, ending with exactly one
/// end-of-input marker, or reports the first lexical failure with its
/// 1-based line and column.
pub fn lex_all(src: &str) -> (r: Result<Vec<Tok>, LexError>)
    requires
        src.spec_bytes().len() < usize::MAX,
    ensures
        ({
            let s = src.spec_bytes();
            match r {
                Ok(toks) => spec_lex(s) is Ok && toks@.map_values(|t: Tok| t@) == spec_lex(
                    s,
                )->Ok_0,
                Err(e) => {
                    &&& spec_lex(s) is Err
                    &&& e.msg@ == lex_msg(spec_lex(s)->Err_0.0)
                    &&& e.line as int == line_of(s, spec_lex(s)->Err_0.1)
                    &&& e.col as int == col_of(s, spec_lex(s)->Err_0.1)
                },
            }
        }),
{
    let ghost s = src.spec_bytes();
    let mut lx = Lexer::new(src);
    let mut out: Vec<Tok> = Vec::new();
    let mut fin = false;
    while !fin
        invariant
            lx.wf(),
            lx.s@ == s,
            s == src.spec_bytes(),
            lx.i <= s.len(),
            !fin ==> spec_lex_from(s, 0) == (match spec_lex_from(s, lx.i as int) {
                Ok(rest) => Ok::<Seq<SpecTok>, (LexIssue, int)>(
                    out@.map_values(|t: Tok| t@) + rest,
                ),
                Err(e) => Err(e),
            }),
            fin ==> spec_lex_from(s, 0) == Ok::<Seq<SpecTok>, (LexIssue, int)>(
                out@.map_values(|t: Tok| t@),
            ),
        decreases s.len() - lx.i + (if fin {
            0int
        } else {
            1int
        }),
    {
        let ghost ip = lx.i as int;
        let ghost prev = out@.map_values(|t: Tok| t@);
        let t = match lx.next_tok() {
            Ok(t) => t,
            Err(e) => {
                proof {
                    assert(spec_lex_from(s, ip) is Err);
                }
                return Err(e);
            },
        };
        proof {
            lemma_spec_next_bounds(s, ip);
        }
        let end = matches!(t, Tok::Eof);
        let ghost tv = t@;
        out.push(t);
        proof {
            assert(out@.map_values(|t: Tok| t@) =~= prev.push(tv));
        }
        if end {
            fin = true;
            proof {
                assert(spec_lex_from(s, ip) == Ok::<Seq<SpecTok>, (LexIssue, int)>(seq![tv]));
                assert(prev + seq![tv] =~= prev.push(tv));
            }
        } else {
            proof {
                let k = lx.i as int;
                assert(spec_lex_from(s, ip) == (match spec_lex_from(s, k) {
                    Ok(rest) => Ok::<Seq<SpecTok>, (LexIssue, int)>(seq![tv] + rest),
                    Err(e) => Err(e),
                }));
                match spec_lex_from(s, k) {
                    Ok(rest) => {
                        assert(prev + (seq![tv] + rest) =~= prev.push(tv) + rest);
                    },
                    Err(_) => {},
                }
            }
        }
    }
    Ok(out)
}

} // verus!
