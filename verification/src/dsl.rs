//! Glint, the Facet authoring language: a small expression language compiled to bytecode.
//!
//! A Facet's per-cell logic is a single expression that reads the cell's named features and
//! the Facet's params and produces one output glyph:
//!
//! ```text
//! grad_mag > 0.6 ? glyph(floor(grad_dir), "-/|\\") : ramp(luma, " .:-=+*#%@")
//! ```
//!
//! This module holds the lexer, the parser, the code generator and the assembler. Numbers
//! are carried as the bit patterns of their values: the lexer checks a number's syntax and
//! keeps its text, and the caller supplies the value of each number token.

use vstd::prelude::*;

pub mod ast;
pub mod parse;
pub mod codegen;

pub use codegen::{compile_tokens, Schema};

use crate::text::{decimal, push_decimal};
use vstd::utf8::encode_utf8;
use vstd::string::StringSliceAdditionalSpecFns;
use vstd::string::StrSliceExecFns;

verus! {

broadcast use vstd::string::group_string_axioms;

/// A compilation failure with a byte offset into the source.
#[derive(Debug, Clone, PartialEq, Eq)]
pub struct CompileError {
    pub message: String,
    pub pos: usize,
}

impl CompileError {
    /// The failure as one line: `at byte {pos}: {message}`.
    pub fn to_display_string(&self) -> (s: String)
        ensures
            s@ == "at byte "@ + decimal(self.pos as nat) + ": "@ + self.message@,
    {
        let mut s = String::new();
        s.append("at byte ");
        push_decimal(&mut s, self.pos as u64);
        s.append(": ");
        s.append(self.message.as_str());
        s
    }
}

/// A compilation failure at byte `pos`.
pub fn err<T>(pos: usize, message: String) -> (r: Result<T, CompileError>)
    ensures
        r matches Err(e) && e.pos == pos && e.message@ == message@,
{
    Err(CompileError { message, pos })
}

fn err_str<T>(pos: usize, message: &str) -> (r: Result<T, CompileError>)
    ensures
        r matches Err(e) && e.pos == pos && e.message@ == message@,
{
    err(pos, message.to_owned())
}

/// The characters of `s`, in order.
pub fn chars_of(s: &str) -> (v: Vec<char>)
    ensures
        v@ == s@,
{
    let mut v: Vec<char> = Vec::new();
    for c in it: s.chars()
        invariant
            v@ == it.seq().take(it.index() as int),
            it.seq() == s@,
    {
        v.push(c);
    }
    v
}

// ---- characters and byte offsets ----

/// The number of bytes `c` takes in UTF-8.
pub open spec fn utf8_width(c: char) -> nat {
    if (c as u32) < 0x80 {
        1
    } else if (c as u32) < 0x800 {
        2
    } else if (c as u32) < 0x10000 {
        3
    } else {
        4
    }
}

/// The byte offset of character `i` of `cs`: the length of the UTF-8 encoding of the
/// characters before it.
pub open spec fn byte_offset(cs: Seq<char>, i: int) -> nat {
    encode_utf8(cs.take(i)).len()
}

proof fn lemma_encode_concat(a: Seq<char>, b: Seq<char>)
    ensures
        encode_utf8(a + b) == encode_utf8(a) + encode_utf8(b),
    decreases a.len(),
{
    if a.len() == 0 {
        assert(a + b =~= b);
        assert(encode_utf8(a) =~= Seq::<u8>::empty());
        assert(Seq::<u8>::empty() + encode_utf8(b) =~= encode_utf8(b));
    } else {
        assert((a + b).drop_first() =~= a.drop_first() + b);
        lemma_encode_concat(a.drop_first(), b);
        assert(vstd::utf8::encode_scalar(a[0] as u32) + (encode_utf8(a.drop_first()) + encode_utf8(b))
            =~= (vstd::utf8::encode_scalar(a[0] as u32) + encode_utf8(a.drop_first())) + encode_utf8(b));
    }
}

proof fn lemma_byte_offset_step(cs: Seq<char>, i: int)
    requires
        0 <= i < cs.len(),
    ensures
        byte_offset(cs, i + 1) == byte_offset(cs, i) + utf8_width(cs[i]),
{
    assert(cs.take(i + 1) =~= cs.take(i) + seq![cs[i]]);
    lemma_encode_concat(cs.take(i), seq![cs[i]]);
    let c = cs[i];
    vstd::utf8::char_is_scalar(c);
    assert(seq![c].drop_first() =~= Seq::<char>::empty());
    assert(encode_utf8(seq![c]) =~= vstd::utf8::encode_scalar(c as u32) + encode_utf8(Seq::<char>::empty()));
}

proof fn lemma_byte_offset_mono(cs: Seq<char>, i: int, j: int)
    requires
        0 <= i <= j <= cs.len(),
    ensures
        byte_offset(cs, i) <= byte_offset(cs, j),
    decreases j - i,
{
    if i < j {
        lemma_byte_offset_step(cs, j - 1);
        lemma_byte_offset_mono(cs, i, j - 1);
    }
}

fn width_of(c: char) -> (w: usize)
    ensures
        w == utf8_width(c),
{
    let u = c as u32;
    if u < 0x80 {
        1
    } else if u < 0x800 {
        2
    } else if u < 0x10000 {
        3
    } else {
        4
    }
}

/// ASCII whitespace: space, tab, line feed, form feed, carriage return.
pub open spec fn is_space(c: char) -> bool {
    c == ' ' || c == '\t' || c == '\n' || c == '\x0C' || c == '\r'
}

pub open spec fn is_digit(c: char) -> bool {
    '0' <= c <= '9'
}

pub open spec fn is_alpha(c: char) -> bool {
    ('a' <= c <= 'z') || ('A' <= c <= 'Z')
}

/// A character that may continue a number's text.
pub open spec fn is_num_char(c: char) -> bool {
    is_digit(c) || c == '.'
}

/// A character that may continue an identifier.
pub open spec fn is_ident_char(c: char) -> bool {
    is_alpha(c) || is_digit(c) || c == '_'
}

/// The end of the run of characters satisfying `p` that starts at `i`.
pub open spec fn run_end(cs: Seq<char>, i: int, p: spec_fn(char) -> bool) -> int
    decreases cs.len() - i,
{
    if i < 0 || i >= cs.len() || !p(cs[i]) {
        i
    } else {
        run_end(cs, i + 1, p)
    }
}

/// The number of `.` in `t`.
pub open spec fn dot_count(t: Seq<char>) -> nat
    decreases t.len(),
{
    if t.len() == 0 {
        0
    } else {
        dot_count(t.drop_last()) + if t.last() == '.' { 1nat } else { 0nat }
    }
}

/// A number's text (digits and dots) is a number: at most one dot and at least one digit.
pub open spec fn number_text_ok(t: Seq<char>) -> bool {
    dot_count(t) <= 1 && exists|k: int| 0 <= k < t.len() && is_digit(#[trigger] t[k])
}

// ---- tokens ----

/// A token. Number tokens keep their text; their values are supplied to the compiler.
#[derive(Debug)]
pub enum Tok {
    Num(Vec<char>),
    Ident(Vec<char>),
    Char(char),
    Str(Vec<char>),
    Plus,
    Minus,
    Star,
    Slash,
    Lt,
    Le,
    Gt,
    Ge,
    EqEq,
    Ne,
    AndAnd,
    OrOr,
    Bang,
    Question,
    Colon,
    Comma,
    Eq,
    Semi,
    LParen,
    RParen,
    Eof,
}

/// A token as plain values.
pub enum TokV {
    Num(Seq<char>),
    Ident(Seq<char>),
    Char(char),
    Str(Seq<char>),
    Plus,
    Minus,
    Star,
    Slash,
    Lt,
    Le,
    Gt,
    Ge,
    EqEq,
    Ne,
    AndAnd,
    OrOr,
    Bang,
    Question,
    Colon,
    Comma,
    Eq,
    Semi,
    LParen,
    RParen,
    Eof,
}

/// A token seen as plain values.
pub open spec fn tok_view(t: Tok) -> TokV {
    match t {
        Tok::Num(v) => TokV::Num(v@),
        Tok::Ident(v) => TokV::Ident(v@),
        Tok::Char(c) => TokV::Char(c),
        Tok::Str(v) => TokV::Str(v@),
        Tok::Plus => TokV::Plus,
        Tok::Minus => TokV::Minus,
        Tok::Star => TokV::Star,
        Tok::Slash => TokV::Slash,
        Tok::Lt => TokV::Lt,
        Tok::Le => TokV::Le,
        Tok::Gt => TokV::Gt,
        Tok::Ge => TokV::Ge,
        Tok::EqEq => TokV::EqEq,
        Tok::Ne => TokV::Ne,
        Tok::AndAnd => TokV::AndAnd,
        Tok::OrOr => TokV::OrOr,
        Tok::Bang => TokV::Bang,
        Tok::Question => TokV::Question,
        Tok::Colon => TokV::Colon,
        Tok::Comma => TokV::Comma,
        Tok::Eq => TokV::Eq,
        Tok::Semi => TokV::Semi,
        Tok::LParen => TokV::LParen,
        Tok::RParen => TokV::RParen,
        Tok::Eof => TokV::Eof,
    }
}

/// The character of the escape `\e` in a char literal, if `e` is one.
pub open spec fn char_escape(e: char) -> Option<char> {
    if e == 'n' {
        Some('\n')
    } else if e == 't' {
        Some('\t')
    } else if e == '\\' {
        Some('\\')
    } else if e == '\'' {
        Some('\'')
    } else if e == '0' {
        Some('\0')
    } else {
        None
    }
}

/// The char literal opening at `cs[i]`: its character and the index just past it, or the
/// error message.
pub open spec fn char_literal(cs: Seq<char>, i: int) -> Result<(char, int), Seq<char>> {
    if i + 1 >= cs.len() {
        Err("unterminated char literal"@)
    } else if cs[i + 1] == '\\' {
        if i + 2 >= cs.len() {
            Err("unterminated escape"@)
        } else {
            match char_escape(cs[i + 2]) {
                None => Err("unknown escape in char literal"@),
                Some(cp) => if i + 3 < cs.len() && cs[i + 3] == '\'' {
                    Ok((cp, i + 4))
                } else {
                    Err("expected closing `'` in char literal"@)
                },
            }
        }
    } else if i + 2 < cs.len() && cs[i + 2] == '\'' {
        Ok((cs[i + 1], i + 3))
    } else {
        Err("expected closing `'` in char literal"@)
    }
}

/// The character an escape `\e` in a string literal stands for, if `e` is one.
pub open spec fn string_escape(e: char) -> Option<char> {
    if e == 'n' {
        Some('\n')
    } else if e == 't' {
        Some('\t')
    } else if e == '\\' {
        Some('\\')
    } else if e == '"' {
        Some('"')
    } else if e == '\'' {
        Some('\'')
    } else {
        None
    }
}

/// The rest of a string literal from `cs[j]`, with `acc` read so far: its characters and
/// the index just past the closing quote, or the error message.
pub open spec fn string_rest(cs: Seq<char>, j: int, acc: Seq<char>) -> Result<(Seq<char>, int), Seq<char>>
    decreases cs.len() - j,
{
    if j < 0 || j >= cs.len() {
        Err("unterminated string literal"@)
    } else if cs[j] == '"' {
        Ok((acc, j + 1))
    } else if cs[j] == '\\' {
        if j + 1 >= cs.len() {
            Err("unterminated escape in string"@)
        } else {
            match string_escape(cs[j + 1]) {
                None => Err("unknown escape in string literal"@),
                Some(c) => string_rest(cs, j + 2, acc.push(c)),
            }
        }
    } else {
        string_rest(cs, j + 1, acc.push(cs[j]))
    }
}

/// One lexing step at `cs[i]`.
pub enum LexStep {
    /// Skip to this index.
    Skip(int),
    /// This token, then continue at this index.
    Token(TokV, int),
    /// Stop with this error message (at the step's start).
    Fail(Seq<char>),
}

/// A two-character operator: `second` completes it, else the one-character one.
pub open spec fn pair_or_single(cs: Seq<char>, i: int, second: char, pair: TokV, single: TokV) -> LexStep {
    if i + 1 < cs.len() && cs[i + 1] == second {
        LexStep::Token(pair, i + 2)
    } else {
        LexStep::Token(single, i + 1)
    }
}

/// What the lexer does at `cs[i]` (`0 <= i < cs.len()`).
pub open spec fn lex_step(cs: Seq<char>, i: int) -> LexStep {
    let c = cs[i];
    if is_space(c) {
        LexStep::Skip(i + 1)
    } else if c == '+' {
        LexStep::Token(TokV::Plus, i + 1)
    } else if c == '-' {
        LexStep::Token(TokV::Minus, i + 1)
    } else if c == '*' {
        LexStep::Token(TokV::Star, i + 1)
    } else if c == '/' {
        LexStep::Token(TokV::Slash, i + 1)
    } else if c == '?' {
        LexStep::Token(TokV::Question, i + 1)
    } else if c == ':' {
        LexStep::Token(TokV::Colon, i + 1)
    } else if c == ',' {
        LexStep::Token(TokV::Comma, i + 1)
    } else if c == ';' {
        LexStep::Token(TokV::Semi, i + 1)
    } else if c == '(' {
        LexStep::Token(TokV::LParen, i + 1)
    } else if c == ')' {
        LexStep::Token(TokV::RParen, i + 1)
    } else if c == '<' {
        pair_or_single(cs, i, '=', TokV::Le, TokV::Lt)
    } else if c == '>' {
        pair_or_single(cs, i, '=', TokV::Ge, TokV::Gt)
    } else if c == '=' {
        pair_or_single(cs, i, '=', TokV::EqEq, TokV::Eq)
    } else if c == '!' {
        pair_or_single(cs, i, '=', TokV::Ne, TokV::Bang)
    } else if c == '&' {
        if i + 1 < cs.len() && cs[i + 1] == '&' {
            LexStep::Token(TokV::AndAnd, i + 2)
        } else {
            LexStep::Fail("expected `&&`"@)
        }
    } else if c == '|' {
        if i + 1 < cs.len() && cs[i + 1] == '|' {
            LexStep::Token(TokV::OrOr, i + 2)
        } else {
            LexStep::Fail("expected `||`"@)
        }
    } else if c == '\'' {
        match char_literal(cs, i) {
            Ok((cp, j)) => LexStep::Token(TokV::Char(cp), j),
            Err(m) => LexStep::Fail(m),
        }
    } else if c == '"' {
        match string_rest(cs, i + 1, Seq::empty()) {
            Ok((s, j)) => LexStep::Token(TokV::Str(s), j),
            Err(m) => LexStep::Fail(m),
        }
    } else if is_num_char(c) {
        let j = run_end(cs, i, |x: char| is_num_char(x));
        let text = cs.subrange(i, j);
        if number_text_ok(text) {
            LexStep::Token(TokV::Num(text), j)
        } else {
            LexStep::Fail("invalid number `"@ + text + "`"@)
        }
    } else if is_alpha(c) || c == '_' {
        let j = run_end(cs, i, |x: char| is_ident_char(x));
        LexStep::Token(TokV::Ident(cs.subrange(i, j)), j)
    } else {
        LexStep::Fail("unexpected character `"@ + seq![c] + "`"@)
    }
}

/// The tokens of `cs[i..]`, each with its byte offset, ending with `Eof` at the end of the
/// source; or the first error, with its byte offset.
pub open spec fn lex_from(cs: Seq<char>, i: int) -> Result<Seq<(TokV, nat)>, (nat, Seq<char>)>
    decreases cs.len() - i,
{
    if i < 0 || i >= cs.len() {
        Ok(seq![(TokV::Eof, byte_offset(cs, cs.len() as int))])
    } else {
        match lex_step(cs, i) {
            LexStep::Skip(j) => if i < j <= cs.len() {
                lex_from(cs, j)
            } else {
                Err((byte_offset(cs, i), Seq::empty()))
            },
            LexStep::Token(t, j) => if i < j <= cs.len() {
                match lex_from(cs, j) {
                    Ok(rest) => Ok(seq![(t, byte_offset(cs, i))] + rest),
                    Err(e) => Err(e),
                }
            } else {
                Err((byte_offset(cs, i), Seq::empty()))
            },
            LexStep::Fail(m) => Err((byte_offset(cs, i), m)),
        }
    }
}

/// The tokens of a lexed source as plain values.
pub open spec fn toks_view(v: Seq<(Tok, usize)>) -> Seq<(TokV, nat)> {
    v.map_values(|p: (Tok, usize)| (tok_view(p.0), p.1 as nat))
}

/// Tokens already read, followed by the outcome of lexing the rest.
pub open spec fn after_tokens(pre: Seq<(TokV, nat)>, r: Result<Seq<(TokV, nat)>, (nat, Seq<char>)>) -> Result<Seq<(TokV, nat)>, (nat, Seq<char>)> {
    match r {
        Ok(rest) => Ok(pre + rest),
        Err(e) => Err(e),
    }
}

/// The predicate of characters continuing a number.
pub open spec fn num_pred() -> spec_fn(char) -> bool {
    |x: char| is_num_char(x)
}

/// The predicate of characters continuing an identifier.
pub open spec fn ident_pred() -> spec_fn(char) -> bool {
    |x: char| is_ident_char(x)
}

fn is_space_exec(c: char) -> (b: bool)
    ensures
        b == is_space(c),
{
    c == ' ' || c == '\t' || c == '\n' || c == '\x0C' || c == '\r'
}

fn is_digit_exec(c: char) -> (b: bool)
    ensures
        b == is_digit(c),
{
    '0' <= c && c <= '9'
}

fn is_alpha_exec(c: char) -> (b: bool)
    ensures
        b == is_alpha(c),
{
    ('a' <= c && c <= 'z') || ('A' <= c && c <= 'Z')
}

/// The byte offset of `cs[j]`, from that of `cs[i]`.
fn advance(cs: &Vec<char>, i: usize, j: usize, pos: usize, Ghost(total): Ghost<nat>) -> (p: usize)
    requires
        i <= j <= cs@.len(),
        pos == byte_offset(cs@, i as int),
        byte_offset(cs@, cs@.len() as int) == total,
        total <= usize::MAX,
    ensures
        p == byte_offset(cs@, j as int),
{
    let mut k = i;
    let mut p = pos;
    while k < j
        invariant
            i <= k <= j <= cs@.len(),
            p == byte_offset(cs@, k as int),
            byte_offset(cs@, cs@.len() as int) == total,
            total <= usize::MAX,
        decreases j - k,
    {
        proof {
            lemma_byte_offset_step(cs@, k as int);
            lemma_byte_offset_mono(cs@, k + 1, cs@.len() as int);
        }
        p = p + width_of(cs[k]);
        k += 1;
    }
    p
}

/// Read the char literal opening at `cs[i]`: its character and the index just past it. An
/// error is reported at `pos`.
pub fn lex_char(cs: &Vec<char>, i: usize, pos: usize) -> (r: Result<(char, usize), CompileError>)
    requires
        i < cs@.len(),
    ensures
        match char_literal(cs@, i as int) {
            Ok((cp, j)) => r == Ok::<(char, usize), CompileError>((cp, j as usize)),
            Err(m) => r matches Err(e) && e.pos == pos && e.message@ == m,
        },
{
    let n = cs.len();
    if i + 1 >= n {
        return err_str(pos, "unterminated char literal");
    }
    if cs[i + 1] == '\\' {
        if i + 2 >= n {
            return err_str(pos, "unterminated escape");
        }
        let e = cs[i + 2];
        let cp: char = if e == 'n' {
            '\n'
        } else if e == 't' {
            '\t'
        } else if e == '\\' {
            '\\'
        } else if e == '\'' {
            '\''
        } else if e == '0' {
            '\0'
        } else {
            return err_str(pos, "unknown escape in char literal");
        };
        if i + 3 < n && cs[i + 3] == '\'' {
            Ok((cp, i + 4))
        } else {
            err_str(pos, "expected closing `'` in char literal")
        }
    } else if i + 2 < n && cs[i + 2] == '\'' {
        Ok((cs[i + 1], i + 3))
    } else {
        err_str(pos, "expected closing `'` in char literal")
    }
}

/// Read the string literal opening at `cs[i]`: its characters (escapes resolved) and the
/// index just past its closing quote. An error is reported at `pos`.
pub fn lex_string(cs: &Vec<char>, i: usize, pos: usize) -> (r: Result<(Vec<char>, usize), CompileError>)
    requires
        i < cs@.len(),
    ensures
        match string_rest(cs@, i + 1, Seq::empty()) {
            Ok((s, j)) => r matches Ok((v, k)) && v@ == s && k == j,
            Err(m) => r matches Err(e) && e.pos == pos && e.message@ == m,
        },
{
    let n = cs.len();
    let mut out: Vec<char> = Vec::new();
    let mut j = i + 1;
    while j < n
        invariant
            n == cs@.len(),
            i < j <= n,
            string_rest(cs@, i + 1, Seq::empty()) == string_rest(cs@, j as int, out@),
        decreases n - j,
    {
        let c = cs[j];
        if c == '"' {
            return Ok((out, j + 1));
        }
        if c == '\\' {
            if j + 1 >= n {
                return err_str(pos, "unterminated escape in string");
            }
            let e = cs[j + 1];
            let x = if e == 'n' {
                '\n'
            } else if e == 't' {
                '\t'
            } else if e == '\\' {
                '\\'
            } else if e == '"' {
                '"'
            } else if e == '\'' {
                '\''
            } else {
                return err_str(pos, "unknown escape in string literal");
            };
            out.push(x);
            j = j + 2;
        } else {
            out.push(c);
            j = j + 1;
        }
    }
    err_str(pos, "unterminated string literal")
}

fn run_end_exec(cs: &Vec<char>, i: usize, number: bool) -> (j: usize)
    requires
        i <= cs@.len(),
    ensures
        j == run_end(cs@, i as int, if number { num_pred() } else { ident_pred() }),
        i <= j <= cs@.len(),
{
    let ghost p = if number { num_pred() } else { ident_pred() };
    let mut j = i;
    while j < cs.len()
        invariant
            i <= j <= cs@.len(),
            p == (if number { num_pred() } else { ident_pred() }),
            run_end(cs@, i as int, p) == run_end(cs@, j as int, p),
        decreases cs@.len() - j,
    {
        let c = cs[j];
        let more = if number {
            is_digit_exec(c) || c == '.'
        } else {
            is_alpha_exec(c) || is_digit_exec(c) || c == '_'
        };
        if !more {
            return j;
        }
        j += 1;
    }
    j
}

fn number_ok_exec(cs: &Vec<char>, i: usize, j: usize) -> (b: bool)
    requires
        i <= j <= cs@.len(),
    ensures
        b == number_text_ok(cs@.subrange(i as int, j as int)),
{
    let mut dots: usize = 0;
    let mut digit = false;
    let mut k = i;
    while k < j
        invariant
            i <= k <= j <= cs@.len(),
            dots == dot_count(cs@.subrange(i as int, k as int)),
            dots <= k - i,
            digit == exists|m: int| 0 <= m < k - i && is_digit(#[trigger] cs@.subrange(i as int, k as int)[m]),
        decreases j - k,
    {
        proof {
            assert(cs@.subrange(i as int, k + 1).drop_last() =~= cs@.subrange(i as int, k as int));
            assert forall|m: int| 0 <= m < k - i implies #[trigger] cs@.subrange(i as int, k + 1)[m] == cs@.subrange(i as int, k as int)[m] by {}
            if digit {
                let m = choose|m: int| 0 <= m < k - i && is_digit(#[trigger] cs@.subrange(i as int, k as int)[m]);
                assert(cs@.subrange(i as int, k + 1)[m] == cs@.subrange(i as int, k as int)[m]);
            }
        }
        let c = cs[k];
        if c == '.' {
            dots = dots + 1;
        }
        if is_digit_exec(c) {
            digit = true;
            proof {
                assert(cs@.subrange(i as int, k + 1)[k - i] == c);
            }
        }
        k += 1;
    }
    proof {
        let t = cs@.subrange(i as int, j as int);
        assert(t.len() == j - i);
    }
    dots <= 1 && digit
}

proof fn lemma_source_bytes(src: &str)
    ensures
        byte_offset(src@, src@.len() as int) == src.spec_bytes().len(),
{
    assert(src@.take(src@.len() as int) =~= src@);
}

/// One lexing step at `cs[i]`: skip it, or the token starting there and the index past it,
/// or the error (reported at `pos`).
fn lex_one(src: &str, cs: &Vec<char>, i: usize, pos: usize) -> (r: Result<(Option<Tok>, usize), CompileError>)
    requires
        cs@ == src@,
        i < cs@.len(),
    ensures
        match lex_step(cs@, i as int) {
            LexStep::Skip(j) => r matches Ok((None, k)) && k == j,
            LexStep::Token(t, j) => r matches Ok((Some(tk), k)) && tok_view(tk) == t && k == j,
            LexStep::Fail(m) => r matches Err(e) && e.pos == pos && e.message@ == m,
        },
        r matches Ok((_, k)) ==> i < k <= cs@.len(),
{
    let n = cs.len();
    let c = cs[i];
    if is_space_exec(c) {
        return Ok((None, i + 1));
    }
    if c == '+' {
        Ok((Some(Tok::Plus), i + 1))
    } else if c == '-' {
        Ok((Some(Tok::Minus), i + 1))
    } else if c == '*' {
        Ok((Some(Tok::Star), i + 1))
    } else if c == '/' {
        Ok((Some(Tok::Slash), i + 1))
    } else if c == '?' {
        Ok((Some(Tok::Question), i + 1))
    } else if c == ':' {
        Ok((Some(Tok::Colon), i + 1))
    } else if c == ',' {
        Ok((Some(Tok::Comma), i + 1))
    } else if c == ';' {
        Ok((Some(Tok::Semi), i + 1))
    } else if c == '(' {
        Ok((Some(Tok::LParen), i + 1))
    } else if c == ')' {
        Ok((Some(Tok::RParen), i + 1))
    } else if c == '<' || c == '>' || c == '=' || c == '!' {
        let pair = i + 1 < n && cs[i + 1] == '=';
        let tok = if c == '<' {
            if pair { Tok::Le } else { Tok::Lt }
        } else if c == '>' {
            if pair { Tok::Ge } else { Tok::Gt }
        } else if c == '=' {
            if pair { Tok::EqEq } else { Tok::Eq }
        } else {
            if pair { Tok::Ne } else { Tok::Bang }
        };
        Ok((Some(tok), if pair { i + 2 } else { i + 1 }))
    } else if c == '&' || c == '|' {
        if i + 1 < n && cs[i + 1] == c {
            Ok((Some(if c == '&' { Tok::AndAnd } else { Tok::OrOr }), i + 2))
        } else {
            err_str(pos, if c == '&' { "expected `&&`" } else { "expected `||`" })
        }
    } else if c == '\'' {
        match lex_char(cs, i, pos) {
            Ok((cp, j)) => Ok((Some(Tok::Char(cp)), j)),
            Err(e) => Err(e),
        }
    } else if c == '"' {
        match lex_string(cs, i, pos) {
            Ok((v, j)) => {
                proof {
                    lemma_string_rest_advances(cs@, i + 1, Seq::empty());
                }
                Ok((Some(Tok::Str(v)), j))
            },
            Err(e) => Err(e),
        }
    } else if is_digit_exec(c) || c == '.' {
        let j = run_end_exec(cs, i, true);
        proof {
            assert(num_pred()(c));
            assert(run_end(cs@, i as int, num_pred()) == run_end(cs@, i + 1, num_pred()));
            lemma_run_end_bounds(cs@, i + 1, num_pred());
        }
        if !number_ok_exec(cs, i, j) {
            let mut m = String::new();
            m.append("invalid number `");
            m.append(src.substring_char(i, j));
            m.append("`");
            return err(pos, m);
        }
        Ok((Some(Tok::Num(copy_chars(cs, i, j))), j))
    } else if is_alpha_exec(c) || c == '_' {
        let j = run_end_exec(cs, i + 1, false);
        proof {
            assert(ident_pred()(c));
            assert(run_end(cs@, i as int, ident_pred()) == run_end(cs@, i + 1, ident_pred()));
        }
        Ok((Some(Tok::Ident(copy_chars(cs, i, j))), j))
    } else {
        let mut m = String::new();
        m.append("unexpected character `");
        m.append(src.substring_char(i, i + 1));
        m.append("`");
        proof {
            assert(src@.subrange(i as int, i + 1) =~= seq![c]);
        }
        err(pos, m)
    }
}

proof fn lemma_run_end_bounds(cs: Seq<char>, i: int, p: spec_fn(char) -> bool)
    requires
        0 <= i <= cs.len(),
    ensures
        i <= run_end(cs, i, p) <= cs.len(),
    decreases cs.len() - i,
{
    if i < cs.len() && p(cs[i]) {
        lemma_run_end_bounds(cs, i + 1, p);
    }
}

proof fn lemma_string_rest_advances(cs: Seq<char>, j: int, acc: Seq<char>)
    requires
        0 <= j,
    ensures
        string_rest(cs, j, acc) matches Ok((_, k)) ==> j < k <= cs.len(),
    decreases cs.len() - j,
{
    if j < cs.len() && cs[j] != '"' {
        if cs[j] == '\\' {
            if j + 1 < cs.len() {
                if let Some(c) = string_escape(cs[j + 1]) {
                    lemma_string_rest_advances(cs, j + 2, acc.push(c));
                }
            }
        } else {
            lemma_string_rest_advances(cs, j + 1, acc.push(cs[j]));
        }
    }
}

fn copy_chars(cs: &Vec<char>, i: usize, j: usize) -> (v: Vec<char>)
    requires
        i <= j <= cs@.len(),
    ensures
        v@ == cs@.subrange(i as int, j as int),
{
    let mut v: Vec<char> = Vec::new();
    let mut k = i;
    while k < j
        invariant
            i <= k <= j <= cs@.len(),
            v@ == cs@.subrange(i as int, k as int),
        decreases j - k,
    {
        v.push(cs[k]);
        k += 1;
    }
    v
}

/// Split a source into tokens, each with its byte offset, ending with `Eof` at the source's
/// length; or the first lexical error, with its byte offset.
pub fn lex(src: &str) -> (r: Result<Vec<(Tok, usize)>, CompileError>)
    ensures
        match lex_from(src@, 0) {
            Ok(ts) => r matches Ok(v) && toks_view(v@) == ts,
            Err((p, m)) => r matches Err(e) && e.pos == p && e.message@ == m,
        },
{
    let cs = chars_of(src);
    let n = cs.len();
    let bytes = src.as_bytes();
    let total_exec = bytes.len();
    let ghost total = src.spec_bytes().len();
    proof {
        lemma_source_bytes(src);
    }
    let mut out: Vec<(Tok, usize)> = Vec::new();
    let mut i: usize = 0;
    let mut pos: usize = 0;
    assert(src@.take(0) =~= Seq::<char>::empty());
    assert(encode_utf8(Seq::<char>::empty()) =~= Seq::<u8>::empty());
    while i < n
        invariant
            n == cs@.len(),
            cs@ == src@,
            i <= n,
            pos == byte_offset(cs@, i as int),
            byte_offset(cs@, n as int) == total,
            total == total_exec,
            lex_from(cs@, 0) == after_tokens(toks_view(out@), lex_from(cs@, i as int)),
        decreases n - i,
    {
        proof {
            lemma_byte_offset_mono(cs@, i as int, n as int);
        }
        let start = i;
        match lex_one(src, &cs, i, pos) {
            Err(e) => return Err(e),
            Ok((None, j)) => {
                i = j;
            },
            Ok((Some(tok), j)) => {
                proof {
                    let pre = toks_view(out@);
                    assert(toks_view(out@.push((tok, pos))) =~= pre + seq![(tok_view(tok), pos as nat)]);
                    match lex_from(cs@, j as int) {
                        Ok(rest) => {
                            assert(pre + (seq![(tok_view(tok), pos as nat)] + rest) =~= pre + seq![(tok_view(tok), pos as nat)] + rest);
                        },
                        Err(_) => {},
                    }
                }
                out.push((tok, pos));
                i = j;
            },
        }
        pos = advance(&cs, start, i, pos, Ghost(total));
    }
    proof {
        assert(toks_view(out@.push((Tok::Eof, total_exec))) =~= toks_view(out@) + seq![(TokV::Eof, total)]);
    }
    out.push((Tok::Eof, total_exec));
    Ok(out)
}

} // verus!
