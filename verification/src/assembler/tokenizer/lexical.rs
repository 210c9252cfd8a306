//! What the tokenizer produces, stated over the source text as a sequence of chars.
use crate::assembler::tokenizer::errors::TokenizeErrorView;
use crate::assembler::tokenizer::token::{
    is_mnemonic_char, keyword_lookup, keyword_text, lemma_keyword_text_chars, lemma_keyword_text_lookup,
    Keyword, LiteralView, Operator, TokenView,
};
use vstd::prelude::*;

verus! {

/// The number of bytes of the UTF-8 encoding of `c`.
pub open spec fn utf8_width(c: char) -> nat {
    if (c as u32) <= 0x7F {
        1
    } else if (c as u32) <= 0x7FF {
        2
    } else if (c as u32) <= 0xFFFF {
        3
    } else {
        4
    }
}

/// The number of bytes of the UTF-8 encoding of `s`.
pub open spec fn utf8_len(s: Seq<char>) -> nat
    decreases s.len(),
{
    if s.len() == 0 {
        0
    } else {
        utf8_len(s.drop_last()) + utf8_width(s.last())
    }
}

/// The byte position, in the UTF-8 encoding of `s`, of the char at index `j`.
pub open spec fn byte_offset(s: Seq<char>, j: int) -> nat {
    utf8_len(s.take(j))
}

pub proof fn lemma_byte_offset_step(s: Seq<char>, j: int)
    requires
        0 <= j < s.len(),
    ensures
        byte_offset(s, j + 1) == byte_offset(s, j) + utf8_width(s[j]),
{
    assert(s.take(j + 1).drop_last() =~= s.take(j));
}

pub proof fn lemma_byte_offset_monotone(s: Seq<char>, j: int, k: int)
    requires
        0 <= j <= k <= s.len(),
    ensures
        byte_offset(s, j) <= byte_offset(s, k),
    decreases k - j,
{
    if j < k {
        lemma_byte_offset_step(s, k - 1);
        lemma_byte_offset_monotone(s, j, k - 1);
    }
}

pub proof fn lemma_byte_offset_bounded(s: Seq<char>, j: int)
    requires
        0 <= j <= s.len(),
    ensures
        byte_offset(s, j) <= utf8_len(s),
{
    lemma_byte_offset_monotone(s, j, s.len() as int);
    assert(s.take(s.len() as int) =~= s);
}

pub open spec fn is_digit(c: char) -> bool {
    '0' <= c <= '9'
}

pub open spec fn is_alpha(c: char) -> bool {
    ('a' <= c <= 'z') || ('A' <= c <= 'Z')
}

/// The chars that identifiers, keywords, directives and radix literals are made of.
pub open spec fn is_word_char(c: char) -> bool {
    is_digit(c) || is_alpha(c) || c == '_'
}

/// ASCII lower case.
pub open spec fn to_lower(c: char) -> char {
    if 'A' <= c <= 'Z' {
        ((c as u32) + 32) as char
    } else {
        c
    }
}

pub open spec fn lower_all(s: Seq<char>) -> Seq<char> {
    s.map_values(|c: char| to_lower(c))
}

/// The value of `c` as a digit in `radix` (at most 36), if it is one.
pub open spec fn digit_value(c: char, radix: nat) -> Option<nat> {
    let v: int = if is_digit(c) {
        c as int - '0' as int
    } else if 'a' <= c <= 'z' {
        c as int - 'a' as int + 10
    } else if 'A' <= c <= 'Z' {
        c as int - 'A' as int + 10
    } else {
        36
    };
    if v < radix {
        Some(v as nat)
    } else {
        None
    }
}

/// The number that the digits `s` spell in `radix`, if all of them are digits of `radix`.
pub open spec fn digits_value(s: Seq<char>, radix: nat) -> Option<nat>
    decreases s.len(),
{
    if s.len() == 0 {
        Some(0)
    } else {
        match (digits_value(s.drop_last(), radix), digit_value(s.last(), radix)) {
            (Some(v), Some(d)) => Some(v * radix + d),
            _ => None,
        }
    }
}

/// The unsigned 32-bit number that the non-empty digit string `s` spells in `radix`,
/// if it is one.
pub open spec fn parse_u32_radix(s: Seq<char>, radix: nat) -> Option<u32> {
    if s.len() == 0 {
        None
    } else {
        match digits_value(s, radix) {
            Some(v) => if v <= u32::MAX {
                Some(v as u32)
            } else {
                None
            },
            None => None,
        }
    }
}

/// The index of the first char at or after `i` that is not a word char.
pub open spec fn word_end(s: Seq<char>, i: int) -> int
    decreases s.len() - i,
{
    if 0 <= i < s.len() && is_word_char(s[i]) {
        word_end(s, i + 1)
    } else {
        i
    }
}

/// The index of the first char at or after `i` that is not a decimal digit.
pub open spec fn digits_end(s: Seq<char>, i: int) -> int
    decreases s.len() - i,
{
    if 0 <= i < s.len() && is_digit(s[i]) {
        digits_end(s, i + 1)
    } else {
        i
    }
}

/// The index of the first newline at or after `i`, or the end of the text.
pub open spec fn line_end(s: Seq<char>, i: int) -> int
    decreases s.len() - i,
{
    if 0 <= i < s.len() && s[i] != '\n' {
        line_end(s, i + 1)
    } else {
        i
    }
}

pub proof fn lemma_word_end(s: Seq<char>, i: int)
    requires
        0 <= i <= s.len(),
    ensures
        i <= word_end(s, i) <= s.len(),
        forall|k: int| i <= k < word_end(s, i) ==> is_word_char(#[trigger] s[k]),
        word_end(s, i) < s.len() ==> !is_word_char(s[word_end(s, i)]),
    decreases s.len() - i,
{
    if i < s.len() && is_word_char(s[i]) {
        lemma_word_end(s, i + 1);
    }
}

pub proof fn lemma_digits_end(s: Seq<char>, i: int)
    requires
        0 <= i <= s.len(),
    ensures
        i <= digits_end(s, i) <= s.len(),
        forall|k: int| i <= k < digits_end(s, i) ==> is_digit(#[trigger] s[k]),
        digits_end(s, i) < s.len() ==> !is_digit(s[digits_end(s, i)]),
    decreases s.len() - i,
{
    if i < s.len() && is_digit(s[i]) {
        lemma_digits_end(s, i + 1);
    }
}

pub proof fn lemma_line_end(s: Seq<char>, i: int)
    requires
        0 <= i <= s.len(),
    ensures
        i <= line_end(s, i) <= s.len(),
        line_end(s, i) < s.len() ==> s[line_end(s, i)] == '\n',
    decreases s.len() - i,
{
    if i < s.len() && s[i] != '\n' {
        lemma_line_end(s, i + 1);
    }
}

/// The char that the escape sequence `\c` stands for.
pub open spec fn unescape(c: char) -> char {
    if c == 'n' {
        '\n'
    } else if c == 't' {
        '\t'
    } else if c == 'r' {
        '\r'
    } else if c == '0' {
        '\0'
    } else {
        c
    }
}

/// Reads a quoted text from index `i` (just after the opening quote) up to the closing `quote`,
/// resolving backslash escapes: the text and the index after the closing quote, or `None`
/// when the input ends first.
pub open spec fn read_quoted(s: Seq<char>, i: int, quote: char) -> Option<(Seq<char>, int)>
    decreases s.len() - i,
{
    if i < 0 || i >= s.len() {
        None
    } else if s[i] == '\\' {
        if i + 1 >= s.len() {
            None
        } else {
            match read_quoted(s, i + 2, quote) {
                Some((v, e)) => Some((seq![unescape(s[i + 1])] + v, e)),
                None => None,
            }
        }
    } else if s[i] == quote {
        Some((Seq::empty(), i + 1))
    } else {
        match read_quoted(s, i + 1, quote) {
            Some((v, e)) => Some((seq![s[i]] + v, e)),
            None => None,
        }
    }
}

pub proof fn lemma_read_quoted(s: Seq<char>, i: int, quote: char)
    requires
        0 <= i,
    ensures
        read_quoted(s, i, quote) matches Some((_, e)) ==> i < e <= s.len(),
    decreases s.len() - i,
{
    if 0 <= i < s.len() {
        if s[i] == '\\' {
            if i + 1 < s.len() {
                lemma_read_quoted(s, i + 2, quote);
            }
        } else if s[i] != quote {
            lemma_read_quoted(s, i + 1, quote);
        }
    }
}

/// An illegal token ending at char index `e`.
pub open spec fn illegal_at(s: Seq<char>, e: int, text: Seq<char>) -> TokenView {
    TokenView::Illegal(byte_offset(s, e) as usize, text)
}

/// The integer literal in `radix` whose digits start at index `i` (after the `0x`/`0b` prefix).
pub open spec fn lex_radix(s: Seq<char>, i: int, radix: nat) -> (TokenView, int) {
    let e = word_end(s, i);
    let text = s.subrange(i, e);
    match parse_u32_radix(text, radix) {
        Some(n) => (TokenView::Literal(LiteralView::Int(n as i32)), e),
        None => (illegal_at(s, e, text), e),
    }
}

/// The numeric literal starting with the digit at index `i`.
pub open spec fn lex_number(s: Seq<char>, i: int) -> (TokenView, int) {
    if s[i] == '0' && i + 1 < s.len() && (s[i + 1] == 'x' || s[i + 1] == 'X') {
        lex_radix(s, i + 2, 16)
    } else if s[i] == '0' && i + 1 < s.len() && (s[i + 1] == 'b' || s[i + 1] == 'B') {
        lex_radix(s, i + 2, 2)
    } else {
        let e = digits_end(s, i + 1);
        let text = s.subrange(i, e);
        match digits_value(text, 10) {
            Some(v) => if v <= i32::MAX {
                (TokenView::Literal(LiteralView::Int(v as i32)), e)
            } else {
                (illegal_at(s, e, text), e)
            },
            None => (illegal_at(s, e, text), e),
        }
    }
}

/// The keyword or identifier starting at index `i`; keywords are matched case-insensitively,
/// identifiers keep their casing.
pub open spec fn lex_word(s: Seq<char>, i: int) -> (TokenView, int) {
    let e = word_end(s, i);
    let text = s.subrange(i, e);
    match keyword_lookup(lower_all(text)) {
        Some(k) => (TokenView::Keyword(k), e),
        None => (TokenView::Identifier(text), e),
    }
}

/// The directive whose `.` is at index `i`.
pub open spec fn lex_directive(s: Seq<char>, i: int) -> (TokenView, int) {
    if i + 1 < s.len() && (is_alpha(s[i + 1]) || s[i + 1] == '_') {
        let e = word_end(s, i + 1);
        (TokenView::Directive(s.subrange(i + 1, e)), e)
    } else {
        (TokenView::Unknown(byte_offset(s, i) as usize, seq!['.']), i + 1)
    }
}

/// The char literal whose opening quote is at index `i`: exactly one char after escapes.
pub open spec fn lex_char(s: Seq<char>, i: int) -> (TokenView, int) {
    match read_quoted(s, i + 1, '\'') {
        Some((v, e)) => if v.len() == 1 {
            (TokenView::Literal(LiteralView::Char(v[0])), e)
        } else {
            (illegal_at(s, e, seq!['\''] + v + seq!['\'']), e)
        },
        None => (illegal_at(s, s.len() as int, seq!['\'']), s.len() as int),
    }
}

/// The string literal whose opening quote is at index `i`.
pub open spec fn lex_string(s: Seq<char>, i: int) -> (TokenView, int) {
    match read_quoted(s, i + 1, '"') {
        Some((v, e)) => (TokenView::Literal(LiteralView::String(v)), e),
        None => (illegal_at(s, s.len() as int, seq!['"']), s.len() as int),
    }
}

/// The next token at or after index `i` and the index after it, skipping blanks and line
/// comments; `None` at the end of the text.
pub open spec fn next_token(s: Seq<char>, i: int) -> Option<(TokenView, int)>
    decreases s.len() - i,
{
    if i < 0 || i >= s.len() {
        None
    } else {
        let c = s[i];
        if c == ' ' || c == '\t' || c == '\r' {
            next_token(s, i + 1)
        } else if c == '\n' {
            Some((TokenView::NewLine, i + 1))
        } else if is_digit(c) {
            Some(lex_number(s, i))
        } else if is_alpha(c) || c == '_' {
            Some(lex_word(s, i))
        } else if c == '.' {
            Some(lex_directive(s, i))
        } else if c == '\'' {
            Some(lex_char(s, i))
        } else if c == '"' {
            Some(lex_string(s, i))
        } else if c == '+' {
            Some((TokenView::Operator(Operator::Plus), i + 1))
        } else if c == '-' {
            Some((TokenView::Operator(Operator::Minus), i + 1))
        } else if c == '#' {
            proof {
                lemma_line_end(s, i + 1);
            }
            next_token(s, line_end(s, i + 1))
        } else if c == ':' {
            Some((TokenView::Colon, i + 1))
        } else {
            Some((TokenView::Unknown(byte_offset(s, i) as usize, seq![c]), i + 1))
        }
    }
}

/// Per line: how many newlines lie before byte position `pos` among the first `j` chars,
/// and the byte position just after the last of them (0 if none).
pub open spec fn newlines_before(s: Seq<char>, pos: nat, j: int) -> (nat, nat)
    decreases j,
{
    if j <= 0 {
        (0, 0)
    } else {
        let (count, start) = newlines_before(s, pos, j - 1);
        if s[j - 1] == '\n' && byte_offset(s, j - 1) < pos {
            (count + 1, byte_offset(s, j - 1) + 1)
        } else {
            (count, start)
        }
    }
}

/// The 1-based line and the 0-based byte column of byte position `pos` in `s` (the line number
/// stops at `usize::MAX`).
pub open spec fn line_col(s: Seq<char>, pos: nat) -> (usize, usize) {
    let (count, start) = newlines_before(s, pos, s.len() as int);
    (if count < usize::MAX { (count + 1) as usize } else { count as usize }, (pos - start) as usize)
}


/// Each token ends after the index where it starts, and within the text.
pub proof fn lemma_next_token_advances(s: Seq<char>, i: int)
    requires
        0 <= i,
    ensures
        next_token(s, i) matches Some((_, k)) ==> i < k <= s.len(),
    decreases s.len() - i,
{
    if i < s.len() {
        let c = s[i];
        if c == ' ' || c == '\t' || c == '\r' {
            lemma_next_token_advances(s, i + 1);
        } else if is_digit(c) {
            if s[i] == '0' && i + 1 < s.len() && (s[i + 1] == 'x' || s[i + 1] == 'X' || s[i + 1]
                == 'b' || s[i + 1] == 'B') {
                lemma_word_end(s, i + 2);
            } else {
                lemma_digits_end(s, i + 1);
            }
        } else if is_alpha(c) || c == '_' {
            lemma_word_end(s, i);
        } else if c == '.' {
            if i + 1 < s.len() {
                lemma_word_end(s, i + 1);
            }
        } else if c == '\'' {
            lemma_read_quoted(s, i + 1, '\'');
        } else if c == '"' {
            lemma_read_quoted(s, i + 1, '"');
        } else if c == '#' {
            lemma_line_end(s, i + 1);
            lemma_next_token_advances(s, line_end(s, i + 1));
        }
    }
}

/// The tokens of the text from index `i` on, or the first illegal or unknown token with its
/// line and column.
pub open spec fn tokenize_from(s: Seq<char>, i: int) -> Result<Seq<TokenView>, TokenizeErrorView>
    decreases s.len() - i,
{
    if i < 0 {
        Ok(Seq::empty())
    } else {
        match next_token(s, i) {
            None => Ok(Seq::empty()),
            Some((t, k)) => match t {
                TokenView::Illegal(pos, _) => {
                    let (line, col) = line_col(s, pos as nat);
                    Err(TokenizeErrorView::IllegalToken(t, line, col))
                },
                TokenView::Unknown(pos, _) => {
                    let (line, col) = line_col(s, pos as nat);
                    Err(TokenizeErrorView::UnknownToken(t, line, col))
                },
                _ => {
                    proof {
                        lemma_next_token_advances(s, i);
                    }
                    match tokenize_from(s, k) {
                        Ok(rest) => Ok(seq![t] + rest),
                        Err(e) => Err(e),
                    }
                },
            },
        }
    }
}

/// Law: mnemonics are matched case-insensitively. Two words that are equal up to ASCII case lex
/// as the same keyword, if either lexes as a keyword.
pub proof fn lemma_keywords_ignore_case(s: Seq<char>, i: int, t: Seq<char>, j: int)
    requires
        lower_all(s.subrange(i, word_end(s, i))) == lower_all(t.subrange(j, word_end(t, j))),
    ensures
        lex_word(s, i).0 is Keyword ==> lex_word(t, j).0 == lex_word(s, i).0,
        lex_word(t, j).0 is Keyword ==> lex_word(t, j).0 == lex_word(s, i).0,
{
}

/// The byte position that an illegal or unknown token reports lies within the text.
pub proof fn lemma_next_token_position(s: Seq<char>, i: int)
    requires
        0 <= i,
        utf8_len(s) <= usize::MAX,
    ensures
        next_token(s, i) matches Some((TokenView::Illegal(p, _), _)) ==> p <= utf8_len(s),
        next_token(s, i) matches Some((TokenView::Unknown(p, _), _)) ==> p <= utf8_len(s),
    decreases s.len() - i,
{
    if i < s.len() {
        let c = s[i];
        lemma_byte_offset_bounded(s, i);
        lemma_byte_offset_bounded(s, s.len() as int);
        if c == ' ' || c == '\t' || c == '\r' {
            lemma_next_token_position(s, i + 1);
        } else if is_digit(c) {
            if s[i] == '0' && i + 1 < s.len() && (s[i + 1] == 'x' || s[i + 1] == 'X' || s[i + 1]
                == 'b' || s[i + 1] == 'B') {
                lemma_word_end(s, i + 2);
                lemma_byte_offset_bounded(s, word_end(s, i + 2));
            } else {
                lemma_digits_end(s, i + 1);
                lemma_byte_offset_bounded(s, digits_end(s, i + 1));
            }
        } else if c == '\'' || c == '"' {
            lemma_read_quoted(s, i + 1, c);
            match read_quoted(s, i + 1, c) {
                Some((_, e)) => lemma_byte_offset_bounded(s, e),
                None => {},
            }
        } else if c == '#' {
            lemma_line_end(s, i + 1);
            lemma_next_token_position(s, line_end(s, i + 1));
        }
    }
}

pub open spec fn is_blank(c: char) -> bool {
    c == ' ' || c == '\t' || c == '\r'
}

/// Whether the text from index `i` on holds no token: blanks, then possibly a line comment that
/// runs to the end of the text.
pub open spec fn only_blanks_and_comment(s: Seq<char>, i: int) -> bool {
    exists|c: int|
        i <= c <= s.len() && (forall|j: int| i <= j < c ==> is_blank(#[trigger] s[j])) && (c
            == s.len() || (s[c] == '#' && forall|j: int| c < j < s.len() ==> #[trigger] s[j]
            != '\n'))
}

proof fn lemma_line_end_no_newline(s: Seq<char>, i: int)
    requires
        0 <= i <= s.len(),
    ensures
        forall|j: int| i <= j < line_end(s, i) ==> #[trigger] s[j] != '\n',
    decreases s.len() - i,
{
    if i < s.len() && s[i] != '\n' {
        lemma_line_end_no_newline(s, i + 1);
    }
}

proof fn lemma_next_token_cases(s: Seq<char>, i: int)
    requires
        0 <= i < s.len(),
    ensures
        is_blank(s[i]) ==> next_token(s, i) == next_token(s, i + 1),
        s[i] == '#' ==> next_token(s, i) == next_token(s, line_end(s, i + 1)),
        !is_blank(s[i]) && s[i] != '#' ==> next_token(s, i) is Some,
{
}

/// Law: the end of the tokens. There is no next token from index `i` exactly when the rest of
/// the text is blanks, possibly followed by a comment without a newline; at the end of the text
/// there is never one more.
pub proof fn lemma_no_next_token(s: Seq<char>, i: int)
    requires
        0 <= i <= s.len(),
    ensures
        next_token(s, i) is None <==> only_blanks_and_comment(s, i),
        next_token(s, s.len() as int) is None,
    decreases s.len() - i,
{
    if i == s.len() {
        assert(only_blanks_and_comment(s, i)) by {
            assert(forall|j: int| i <= j < i ==> is_blank(#[trigger] s[j]));
        }
    } else {
        let c = s[i];
        lemma_next_token_cases(s, i);
        if is_blank(c) {
            lemma_no_next_token(s, i + 1);
            if only_blanks_and_comment(s, i) {
                let w = choose|w: int|
                    i <= w <= s.len() && (forall|j: int| i <= j < w ==> is_blank(#[trigger] s[j]))
                        && (w == s.len() || (s[w] == '#' && forall|j: int|
                        w < j < s.len() ==> #[trigger] s[j] != '\n'));
                assert(w != i);
                assert(only_blanks_and_comment(s, i + 1));
            }
            if only_blanks_and_comment(s, i + 1) {
                let w = choose|w: int|
                    i + 1 <= w <= s.len() && (forall|j: int| i + 1 <= j < w ==> is_blank(
                        #[trigger] s[j],
                    )) && (w == s.len() || (s[w] == '#' && forall|j: int|
                        w < j < s.len() ==> #[trigger] s[j] != '\n'));
                assert(forall|j: int| i <= j < w ==> is_blank(#[trigger] s[j]));
            }
        } else if c == '#' {
            lemma_line_end(s, i + 1);
            lemma_line_end_no_newline(s, i + 1);
            let e = line_end(s, i + 1);
            if e == s.len() {
                assert(forall|j: int| i <= j < i ==> is_blank(#[trigger] s[j]));
                assert(forall|j: int| i < j < s.len() ==> #[trigger] s[j] != '\n');
            } else {
                if only_blanks_and_comment(s, i) {
                    let w = choose|w: int|
                        i <= w <= s.len() && (forall|j: int| i <= j < w ==> is_blank(
                            #[trigger] s[j],
                        )) && (w == s.len() || (s[w] == '#' && forall|j: int|
                            w < j < s.len() ==> #[trigger] s[j] != '\n'));
                    if w > i {
                        assert(is_blank(s[i]));
                    }
                    assert(s[e] == '\n');
                }
            }
        } else {
            if only_blanks_and_comment(s, i) {
                let w = choose|w: int|
                    i <= w <= s.len() && (forall|j: int| i <= j < w ==> is_blank(#[trigger] s[j]))
                        && (w == s.len() || (s[w] == '#' && forall|j: int|
                        w < j < s.len() ==> #[trigger] s[j] != '\n'));
                if w > i {
                    assert(is_blank(s[i]));
                }
            }
        }
    }
}

/// Whether a token stops tokenizing: an illegal or unknown token.
pub open spec fn is_bad_token(t: TokenView) -> bool {
    t is Illegal || t is Unknown
}

/// The error that tokenizing reports for the bad token `t` of text `s`.
pub open spec fn bad_token_error(s: Seq<char>, t: TokenView) -> TokenizeErrorView {
    match t {
        TokenView::Illegal(pos, _) => {
            let (line, col) = line_col(s, pos as nat);
            TokenizeErrorView::IllegalToken(t, line, col)
        },
        TokenView::Unknown(pos, _) => {
            let (line, col) = line_col(s, pos as nat);
            TokenizeErrorView::UnknownToken(t, line, col)
        },
        _ => TokenizeErrorView::UnknownToken(t, 0, 0),
    }
}

/// Every token that repeated `next_token` calls yield from index `i` until there is none,
/// bad ones included.
pub open spec fn token_stream(s: Seq<char>, i: int) -> Seq<TokenView>
    decreases s.len() - i,
{
    if i < 0 {
        Seq::empty()
    } else {
        match next_token(s, i) {
            None => Seq::empty(),
            Some((t, k)) => {
                proof {
                    lemma_next_token_advances(s, i);
                }
                seq![t] + token_stream(s, k)
            },
        }
    }
}

/// Law: tokenizing is taking tokens one at a time. When no token of the stream is bad,
/// tokenizing gives the whole stream; otherwise it gives the error for the first bad token.
pub proof fn lemma_tokenize_is_token_stream(s: Seq<char>, i: int)
    requires
        0 <= i,
    ensures
        (forall|j: int| 0 <= j < token_stream(s, i).len() ==> !is_bad_token(
            #[trigger] token_stream(s, i)[j],
        )) ==> tokenize_from(s, i) == Ok::<Seq<TokenView>, TokenizeErrorView>(token_stream(s, i)),
        forall|k: int|
            0 <= k < token_stream(s, i).len() && is_bad_token(#[trigger] token_stream(s, i)[k])
                && (forall|j: int| 0 <= j < k ==> !is_bad_token(token_stream(s, i)[j])) ==> tokenize_from(s, i)
                == Err::<Seq<TokenView>, TokenizeErrorView>(bad_token_error(s, token_stream(s, i)[k])),
    decreases s.len() - i,
{
    match next_token(s, i) {
        None => {},
        Some((t, k)) => {
            lemma_next_token_advances(s, i);
            lemma_tokenize_is_token_stream(s, k);
            let st = token_stream(s, i);
            let rest = token_stream(s, k);
            assert(st == seq![t] + rest);
            assert(st[0] == t);
            assert forall|j: int| 0 <= j < rest.len() implies rest[j] == #[trigger] st[j + 1] by {}
            if !is_bad_token(t) {
                if forall|j: int| 0 <= j < st.len() ==> !is_bad_token(#[trigger] st[j]) {
                    assert forall|j: int| 0 <= j < rest.len() implies !is_bad_token(#[trigger] rest[j]) by {
                        assert(!is_bad_token(st[j + 1]));
                    }
                    assert(seq![t] + rest =~= st);
                }
                assert forall|m: int|
                    0 <= m < st.len() && is_bad_token(#[trigger] st[m]) && (forall|j: int|
                        0 <= j < m ==> !is_bad_token(st[j])) implies tokenize_from(s, i) == Err::<
                    Seq<TokenView>,
                    TokenizeErrorView,
                >(bad_token_error(s, st[m])) by {
                    assert(m > 0);
                    assert(rest[m - 1] == st[m]);
                    assert forall|j: int| 0 <= j < m - 1 implies !is_bad_token(rest[j]) by {
                        assert(!is_bad_token(st[j + 1]));
                    }
                    assert(is_bad_token(rest[m - 1]));
                }
            } else {
                assert(st[0] == t);
            }
        },
    }
}

/// ASCII upper case.
pub open spec fn to_upper(c: char) -> char {
    if 'a' <= c <= 'z' {
        (((c as u32) - 32) as u32) as char
    } else {
        c
    }
}

pub open spec fn upper_all(s: Seq<char>) -> Seq<char> {
    s.map_values(|c: char| to_upper(c))
}

proof fn lemma_word_is_keyword(s: Seq<char>, k: Keyword)
    requires
        s.len() > 0,
        is_alpha(s[0]),
        forall|j: int| 0 <= j < s.len() ==> is_word_char(#[trigger] s[j]),
        keyword_lookup(lower_all(s)) == Some(k),
    ensures
        tokenize_from(s, 0) == Ok::<Seq<TokenView>, TokenizeErrorView>(seq![TokenView::Keyword(k)]),
{
    lemma_word_end(s, 0);
    assert(word_end(s, 0) == s.len());
    assert(s.subrange(0, s.len() as int) =~= s);
    assert(lex_word(s, 0) == (TokenView::Keyword(k), s.len() as int));
    assert(next_token(s, 0) == Some((TokenView::Keyword(k), s.len() as int)));
    assert(next_token(s, s.len() as int) is None);
    assert(tokenize_from(s, s.len() as int) == Ok::<Seq<TokenView>, TokenizeErrorView>(Seq::empty()));
    lemma_next_token_advances(s, 0);
    assert(seq![TokenView::Keyword(k)] + Seq::<TokenView>::empty() =~= seq![TokenView::Keyword(k)]);
}

/// Law: a keyword's mnemonic, in lower or in upper case, tokenizes to exactly that keyword.
/// (Distinct keywords have distinct mnemonics: see `lemma_keyword_text_lookup`.)
pub proof fn lemma_mnemonic_tokenizes_to_keyword(k: Keyword)
    ensures
        tokenize_from(keyword_text(k), 0) == Ok::<Seq<TokenView>, TokenizeErrorView>(
            seq![TokenView::Keyword(k)],
        ),
        tokenize_from(upper_all(keyword_text(k)), 0) == Ok::<Seq<TokenView>, TokenizeErrorView>(
            seq![TokenView::Keyword(k)],
        ),
{
    let w = keyword_text(k);
    lemma_keyword_text_chars(k);
    lemma_keyword_text_lookup(k);
    assert(lower_all(w) =~= w);
    lemma_word_is_keyword(w, k);
    let u = upper_all(w);
    assert forall|j: int| 0 <= j < u.len() implies is_word_char(#[trigger] u[j]) && to_lower(u[j])
        == w[j] by {
        assert(is_mnemonic_char(w[j]));
    }
    assert(lower_all(u) =~= w);
    assert(is_alpha(u[0]));
    lemma_word_is_keyword(u, k);
}

/// Law: the escape table. In a char literal, `\n`, `\t`, `\r` and `\0` stand for newline, tab,
/// carriage return and NUL, and a backslash before any other char stands for that char; an
/// unescaped char other than a quote or a backslash stands for itself. String literals read
/// escapes the same way.
pub proof fn lemma_escape_table(c: char)
    ensures
        ({
            let meant = if c == 'n' {
                '\n'
            } else if c == 't' {
                '\t'
            } else if c == 'r' {
                '\r'
            } else if c == '0' {
                '\0'
            } else {
                c
            };
            &&& lex_char(seq!['\'', '\\', c, '\''], 0) == (TokenView::Literal(LiteralView::Char(meant)), 4int)
            &&& lex_string(seq!['"', '\\', c, '"'], 0) == (TokenView::Literal(LiteralView::String(seq![meant])), 4int)
            &&& (c != '\'' && c != '\\' ==> lex_char(seq!['\'', c, '\''], 0) == (
                TokenView::Literal(LiteralView::Char(c)),
                3int,
            ))
        }),
{
    let s = seq!['\'', '\\', c, '\''];
    assert(read_quoted(s, 3, '\'') == Some((Seq::<char>::empty(), 4int)));
    assert(seq![unescape(c)] + Seq::<char>::empty() =~= seq![unescape(c)]);
    assert(read_quoted(s, 1, '\'') == Some((seq![unescape(c)], 4int)));
    let t = seq!['"', '\\', c, '"'];
    assert(read_quoted(t, 3, '"') == Some((Seq::<char>::empty(), 4int)));
    assert(read_quoted(t, 1, '"') == Some((seq![unescape(c)], 4int)));
    let u = seq!['\'', c, '\''];
    assert(read_quoted(u, 2, '\'') == Some((Seq::<char>::empty(), 3int)));
    if c != '\'' && c != '\\' {
        assert(seq![c] + Seq::<char>::empty() =~= seq![c]);
        assert(read_quoted(u, 1, '\'') == Some((seq![c], 3int)));
    }
}

/// Law: the digit table. Decimal digits are worth 0 to 9 in every radix up to their value,
/// `a`-`f` and `A`-`F` are worth 10 to 15 in hexadecimal, and no other char is a hexadecimal
/// digit; only `0` and `1` are binary digits.
pub proof fn lemma_digit_table(c: char)
    ensures
        is_digit(c) ==> digit_value(c, 10) == Some((c as int - '0' as int) as nat)
            && digit_value(c, 16) == Some((c as int - '0' as int) as nat),
        (c == '0' || c == '1') ==> digit_value(c, 2) == Some((c as int - '0' as int) as nat),
        ('2' <= c <= '9') ==> digit_value(c, 2) is None,
        'a' <= c <= 'f' ==> digit_value(c, 16) == Some((c as int - 'a' as int + 10) as nat),
        'A' <= c <= 'F' ==> digit_value(c, 16) == Some((c as int - 'A' as int + 10) as nat),
        !is_digit(c) ==> digit_value(c, 10) is None && digit_value(c, 2) is None,
        !(is_digit(c) || 'a' <= c <= 'f' || 'A' <= c <= 'F') ==> digit_value(c, 16) is None,
{
}

/// Law: positional notation. The empty digit string is worth 0, and appending a digit `d` in
/// `radix` to a string worth `v` gives `v * radix + d`; a string with a non-digit is worth
/// nothing.
pub proof fn lemma_digits_positional(t: Seq<char>, c: char, radix: nat)
    ensures
        digits_value(Seq::empty(), radix) == Some(0nat),
        digits_value(t.push(c), radix) == match (digits_value(t, radix), digit_value(c, radix)) {
            (Some(v), Some(d)) => Some(v * radix + d),
            _ => None::<nat>,
        },
{
    assert(t.push(c).drop_last() =~= t);
}

/// Law: decimal literals. A run of decimal digits (not starting a `0x` or `0b` prefix) followed
/// by the end of the text is the integer it spells when that fits in `i32`, and an illegal
/// token otherwise.
pub proof fn lemma_decimal_literal(t: Seq<char>)
    requires
        t.len() > 0,
        forall|j: int| 0 <= j < t.len() ==> is_digit(#[trigger] t[j]),
        !(t.len() > 1 && t[0] == '0' && (t[1] == 'x' || t[1] == 'X' || t[1] == 'b' || t[1] == 'B')),
    ensures
        digits_value(t, 10) is Some,
        lex_number(t, 0) == if digits_value(t, 10)->0 <= i32::MAX {
            (TokenView::Literal(LiteralView::Int((digits_value(t, 10)->0) as i32)), t.len() as int)
        } else {
            (TokenView::Illegal(byte_offset(t, t.len() as int) as usize, t), t.len() as int)
        },
{
    lemma_digits_some(t, 10);
    lemma_digits_end(t, 1);
    assert(t.subrange(0, t.len() as int) =~= t);
}

proof fn lemma_digits_some(t: Seq<char>, radix: nat)
    requires
        forall|j: int| 0 <= j < t.len() ==> digit_value(#[trigger] t[j], radix) is Some,
    ensures
        digits_value(t, radix) is Some,
    decreases t.len(),
{
    if t.len() > 0 {
        let u = t.drop_last();
        assert forall|j: int| 0 <= j < u.len() implies digit_value(#[trigger] u[j], radix) is Some by {
            assert(u[j] == t[j]);
        }
        lemma_digits_some(u, radix);
        assert(digit_value(t[t.len() - 1], radix) is Some);
    }
}

/// Law: hexadecimal and binary literals. `0x` or `0X` (`0b` or `0B`) followed by digits of
/// that radix up to the end of the text is the 32-bit unsigned number they spell, taken as an
/// `i32` (so `0xFFFFFFFF` is `-1`), when it fits in 32 bits.
pub proof fn lemma_radix_literal(t: Seq<char>, p: char)
    requires
        t.len() > 0,
        p == 'x' || p == 'X' || p == 'b' || p == 'B',
        forall|j: int| 0 <= j < t.len() ==> digit_value(#[trigger] t[j], if p == 'x' || p == 'X' { 16nat } else { 2nat }) is Some,
        forall|j: int| 0 <= j < t.len() ==> is_word_char(#[trigger] t[j]),
    ensures
        ({
            let radix: nat = if p == 'x' || p == 'X' { 16 } else { 2 };
            let s = seq!['0', p] + t;
            &&& digits_value(t, radix) is Some
            &&& digits_value(t, radix)->0 <= u32::MAX ==> lex_number(s, 0) == (
                TokenView::Literal(LiteralView::Int(((digits_value(t, radix)->0) as u32) as i32)),
                s.len() as int,
            )
        }),
{
    let radix: nat = if p == 'x' || p == 'X' { 16 } else { 2 };
    let s = seq!['0', p] + t;
    lemma_digits_some(t, radix);
    assert forall|j: int| 2 <= j < s.len() implies is_word_char(#[trigger] s[j]) by {
        assert(s[j] == t[j - 2]);
    }
    lemma_word_end(s, 2);
    assert(s.subrange(2, s.len() as int) =~= t);
}

/// Law: one-char tokens. `+` and `-` are the plus and minus operators, `:` is a colon and a
/// newline is a newline token; blanks and `#` alone give no token; a char that starts no token
/// (not a letter, digit, `_`, `.`, quote, operator, `:`, `#`, blank or newline) is unknown, at
/// the byte position where it stands.
pub proof fn lemma_single_char_tokens(c: char)
    ensures
        c == '+' ==> next_token(seq![c], 0) == Some((TokenView::Operator(Operator::Plus), 1int)),
        c == '-' ==> next_token(seq![c], 0) == Some((TokenView::Operator(Operator::Minus), 1int)),
        c == ':' ==> next_token(seq![c], 0) == Some((TokenView::Colon, 1int)),
        c == '\n' ==> next_token(seq![c], 0) == Some((TokenView::NewLine, 1int)),
        (c == ' ' || c == '\t' || c == '\r' || c == '#') ==> next_token(seq![c], 0) is None,
        !(is_alpha(c) || is_digit(c) || c == '_' || c == '.' || c == '\'' || c == '"' || c == '+' || c
            == '-' || c == ':' || c == '#' || c == ' ' || c == '\t' || c == '\r' || c == '\n') ==> next_token(
            seq![c],
            0,
        ) == Some((TokenView::Unknown(0, seq![c]), 1int)),
{
    assert(byte_offset(seq![c], 0) == 0) by {
        assert(seq![c].take(0) =~= Seq::<char>::empty());
    }
    assert(line_end(seq![c], 1) == 1);
    assert(next_token(seq![c], 1) is None);
}

/// Law: directives. A `.` followed by a name (a letter or `_`, then word chars) up to the end of
/// the text is the directive of that name, without the dot; a `.` followed by anything else is
/// an unknown token at the dot.
pub proof fn lemma_directive(t: Seq<char>)
    requires
        forall|j: int| 0 <= j < t.len() ==> is_word_char(#[trigger] t[j]),
    ensures
        t.len() > 0 && (is_alpha(t[0]) || t[0] == '_') ==> next_token(seq!['.'] + t, 0) == Some(
            (TokenView::Directive(t), t.len() + 1int),
        ),
        t.len() == 0 ==> next_token(seq!['.'], 0) == Some((TokenView::Unknown(0, seq!['.']), 1int)),
{
    let s = seq!['.'] + t;
    assert forall|j: int| 1 <= j < s.len() implies is_word_char(#[trigger] s[j]) by {
        assert(s[j] == t[j - 1]);
    }
    lemma_word_end(s, 1);
    assert(s.subrange(1, s.len() as int) =~= t);
    assert(seq!['.'].take(0) =~= Seq::<char>::empty());
}

proof fn lemma_newlines_before_none(s: Seq<char>, pos: nat, j: int)
    requires
        0 <= j <= s.len(),
        forall|k: int| 0 <= k < j ==> #[trigger] s[k] != '\n',
    ensures
        newlines_before(s, pos, j) == (0nat, 0nat),
    decreases j,
{
    if j > 0 {
        lemma_newlines_before_none(s, pos, j - 1);
    }
}

/// Law: positions on the first line. In a text without a newline before byte position `pos`,
/// `pos` is on line 1 at column `pos`.
pub proof fn lemma_line_col_first_line(s: Seq<char>, pos: nat)
    requires
        forall|k: int| 0 <= k < s.len() ==> #[trigger] s[k] != '\n',
        pos <= usize::MAX,
    ensures
        line_col(s, pos) == (1usize, pos as usize),
{
    lemma_newlines_before_none(s, pos, s.len() as int);
}

/// Law: positions after a newline. When the text is `a`, a newline, then `b` without newlines,
/// a byte position in `b` is on the line after the last line of `a`, at its column counted from
/// just after the newline.
pub proof fn lemma_line_col_after_newline(a: Seq<char>, b: Seq<char>, pos: nat)
    requires
        forall|k: int| 0 <= k < b.len() ==> #[trigger] b[k] != '\n',
        utf8_len(a) < pos,
        pos <= usize::MAX,
        newlines_before(a, pos, a.len() as int).0 + 1 < usize::MAX,
    ensures
        line_col(a.push('\n') + b, pos) == (
            (newlines_before(a, pos, a.len() as int).0 + 2) as usize,
            (pos - utf8_len(a) - 1) as usize,
        ),
{
    let s = a.push('\n') + b;
    let n = a.len() as int;
    assert(s.take(n) =~= a);
    lemma_newlines_before_prefix(a, s, pos, n);
    assert(byte_offset(s, n) == utf8_len(a));
    assert(s[n] == '\n');
    let (c0, _) = newlines_before(a, pos, n);
    assert(newlines_before(s, pos, n + 1) == (c0 + 1, utf8_len(a) + 1));
    assert forall|k: int| n + 1 <= k < s.len() implies #[trigger] s[k] != '\n' by {
        assert(s[k] == b[k - n - 1]);
    }
    lemma_newlines_before_tail(s, pos, n + 1, s.len() as int);
}

proof fn lemma_newlines_before_prefix(a: Seq<char>, s: Seq<char>, pos: nat, j: int)
    requires
        0 <= j <= a.len() <= s.len(),
        s.take(a.len() as int) == a,
    ensures
        newlines_before(s, pos, j) == newlines_before(a, pos, j),
    decreases j,
{
    if j > 0 {
        lemma_newlines_before_prefix(a, s, pos, j - 1);
        assert(s[j - 1] == a[j - 1]);
        assert(s.take(j - 1) =~= a.take(j - 1));
    }
}

proof fn lemma_newlines_before_tail(s: Seq<char>, pos: nat, m: int, j: int)
    requires
        0 <= m <= j <= s.len(),
        forall|k: int| m <= k < s.len() ==> #[trigger] s[k] != '\n',
    ensures
        newlines_before(s, pos, j) == newlines_before(s, pos, m),
    decreases j - m,
{
    if j > m {
        lemma_newlines_before_tail(s, pos, m, j - 1);
    }
}

} // verus!
