use crate::assembler::tokenizer::errors::{SASMTokenizeError, TokenizeErrorView};
use crate::assembler::tokenizer::lexical::{
    byte_offset, digit_value, digits_end, digits_value, is_alpha, is_digit, is_word_char,
    lemma_byte_offset_bounded, lemma_byte_offset_monotone, lemma_byte_offset_step, lemma_digits_end,
    lemma_line_end, lemma_next_token_advances, lemma_next_token_position, lemma_read_quoted, lemma_word_end, lex_char,
    lex_directive, lex_number, lex_radix, lex_string, lex_word, line_col, line_end, lower_all,
    newlines_before, next_token, parse_u32_radix, read_quoted, to_lower, tokenize_from, unescape,
    utf8_len, utf8_width, word_end,
};
use crate::assembler::tokenizer::token::{
    keyword_from_text, string_from_chars, Keyword, LiteralToken, LiteralView, Operator, Token,
    TokenView,
};
use vstd::prelude::*;

verus! {

/// The tokenizer itself
#[derive(Debug)]
pub struct Tokenizer {
    /// The chars of the input
    chars: Vec<char>,
    /// The index of the next char
    idx: usize,
    /// The current position, as a byte offset into the input
    pos: usize,
}

/// The UTF-8 encoding of `s` is `utf8_len(s)` bytes long.
proof fn lemma_utf8_len_encoding(s: Seq<char>)
    ensures
        utf8_len(s) == vstd::utf8::encode_utf8(s).len(),
    decreases s.len(),
{
    broadcast use vstd::utf8::char_is_scalar;
    if s.len() > 0 {
        let t = s.drop_last();
        lemma_utf8_len_encoding(t);
        lemma_encode_concat(t, seq![s.last()]);
        assert(t + seq![s.last()] =~= s);
        let one = seq![s.last()];
        assert(one[0] == s.last());
        assert(one.drop_first() =~= Seq::<char>::empty());
        assert(vstd::utf8::encode_utf8(one.drop_first()) =~= Seq::<u8>::empty());
        assert(vstd::utf8::encode_utf8(one) =~= vstd::utf8::encode_scalar(s.last() as u32));
        vstd::utf8::char_is_scalar(s.last());
    }
}

proof fn lemma_encode_concat(a: Seq<char>, b: Seq<char>)
    ensures
        vstd::utf8::encode_utf8(a + b) == vstd::utf8::encode_utf8(a) + vstd::utf8::encode_utf8(b),
    decreases a.len(),
{
    if a.len() == 0 {
        assert(a + b =~= b);
    } else {
        lemma_encode_concat(a.drop_first(), b);
        assert((a + b).drop_first() =~= a.drop_first() + b);
        assert((a + b)[0] == a[0]);
        assert(vstd::utf8::encode_utf8(a + b) =~= vstd::utf8::encode_utf8(a) + vstd::utf8::encode_utf8(b));
    }
}

impl Tokenizer {
    /// The input text
    pub closed spec fn text(&self) -> Seq<char> {
        self.chars@
    }

    /// The index, in the input text, of the next char to read
    pub closed spec fn index(&self) -> int {
        self.idx as int
    }

    /// The internal consistency of a tokenizer
    pub closed spec fn wf(&self) -> bool {
        &&& self.idx <= self.chars@.len()
        &&& self.pos == byte_offset(self.chars@, self.idx as int)
        &&& utf8_len(self.chars@) <= usize::MAX
    }

    /// A well-formed tokenizer reads at an index within its text, whose UTF-8 encoding fits in
    /// `usize`.
    pub proof fn lemma_wf_bounds(&self)
        requires
            self.wf(),
        ensures
            0 <= self.index() <= self.text().len(),
            utf8_len(self.text()) <= usize::MAX,
    {
    }

    /// Construct a new tokenizer for a given input
    pub fn new(input: &str) -> (r: Self)
        ensures
            r.wf(),
            r.text() == input@,
            r.index() == 0,
    {
        // a slice's length fits in a usize: this bounds every byte position below
        let byte_len = input.as_bytes().len();
        let mut chars: Vec<char> = Vec::new();
        for c in it: input.chars()
            invariant
                chars@ == it.seq().take(it.index() as int),
        {
            chars.push(c);
        }
        proof {
            lemma_utf8_len_encoding(input@);
            assert(chars@ =~= input@);
            assert(utf8_len(chars@) == byte_len);
        }
        Self { chars, idx: 0, pos: 0 }
    }

    fn peek(&self) -> (r: Option<char>)
        requires
            self.wf(),
        ensures
            self.index() < self.text().len() ==> r == Some(self.text()[self.index()]),
            self.index() >= self.text().len() ==> r is None,
    {
        if self.idx < self.chars.len() {
            Some(self.chars[self.idx])
        } else {
            None
        }
    }

    /// Advance the tokenizer to the next character and increase our position
    fn advance(&mut self) -> (r: Option<char>)
        requires
            old(self).wf(),
        ensures
            final(self).wf(),
            final(self).text() == old(self).text(),
            old(self).index() < old(self).text().len() ==> r == Some(
                old(self).text()[old(self).index()],
            ) && final(self).index() == old(self).index() + 1,
            old(self).index() >= old(self).text().len() ==> r is None && final(self).index()
                == old(self).index(),
    {
        if self.idx < self.chars.len() {
            let c = self.chars[self.idx];
            proof {
                lemma_byte_offset_step(self.chars@, self.idx as int);
                lemma_byte_offset_bounded(self.chars@, self.idx + 1);
            }
            self.pos = self.pos + char_width(c);
            self.idx = self.idx + 1;
            Some(c)
        } else {
            None
        }
    }

    /// Consumes the word chars from the current position on and returns them
    fn collect_word(&mut self) -> (r: Vec<char>)
        requires
            old(self).wf(),
        ensures
            final(self).wf(),
            final(self).text() == old(self).text(),
            final(self).index() == word_end(old(self).text(), old(self).index()),
            old(self).index() <= final(self).index() <= final(self).text().len(),
            r@ == old(self).text().subrange(old(self).index(), final(self).index()),
    {
        let ghost start = self.idx as int;
        let mut value: Vec<char> = Vec::new();
        proof {
            lemma_word_end(self.chars@, start);
        }
        while self.idx < self.chars.len() && is_word_char_exec(self.chars[self.idx])
            invariant
                self.wf(),
                self.chars@ == old(self).chars@,
                start == old(self).idx,
                start <= self.idx,
                word_end(self.chars@, start) == word_end(self.chars@, self.idx as int),
                value@ == self.chars@.subrange(start, self.idx as int),
            decreases self.chars@.len() - self.idx,
        {
            let c = self.chars[self.idx];
            value.push(c);
            self.advance();
            assert(value@ =~= self.chars@.subrange(start, self.idx as int));
        }
        value
    }

    /// Consumes the decimal digits from the current position on and appends them to `value`
    fn collect_digits(&mut self, value: &mut Vec<char>)
        requires
            old(self).wf(),
        ensures
            final(self).wf(),
            final(self).text() == old(self).text(),
            final(self).index() == digits_end(old(self).text(), old(self).index()),
            old(self).index() <= final(self).index() <= final(self).text().len(),
            final(value)@ == old(value)@ + old(self).text().subrange(
                old(self).index(),
                final(self).index(),
            ),
    {
        let ghost start = self.idx as int;
        proof {
            lemma_digits_end(self.chars@, start);
        }
        while self.idx < self.chars.len() && is_digit_exec(self.chars[self.idx])
            invariant
                self.wf(),
                self.chars@ == old(self).chars@,
                start == old(self).idx,
                start <= self.idx,
                digits_end(self.chars@, start) == digits_end(self.chars@, self.idx as int),
                value@ == old(value)@ + self.chars@.subrange(start, self.idx as int),
            decreases self.chars@.len() - self.idx,
        {
            let c = self.chars[self.idx];
            value.push(c);
            self.advance();
            assert(value@ =~= old(value)@ + self.chars@.subrange(start, self.idx as int));
        }
    }

    /// Lex a numeric literal, supports decimal, hex (`0x`) and binary (`0b`) integers
    fn lex_number(&mut self) -> (r: Token)
        requires
            old(self).wf(),
            old(self).index() < old(self).text().len(),
            is_digit(old(self).text()[old(self).index()]),
        ensures
            final(self).wf(),
            final(self).text() == old(self).text(),
            (r@, final(self).index()) == lex_number(old(self).text(), old(self).index()),
    {
        let ghost s = self.chars@;
        let ghost i = self.idx as int;
        let first = match self.advance() {
            Some(c) => c,
            None => return Token::NewLine,
        };
        // check for a radix prefix
        if first == '0' {
            match self.peek() {
                Some(c) => {
                    if c == 'x' || c == 'X' {
                        return self.lex_radix(16);
                    } else if c == 'b' || c == 'B' {
                        return self.lex_radix(2);
                    }
                },
                None => {},
            }
        }
        let mut value: Vec<char> = Vec::new();
        value.push(first);
        self.collect_digits(&mut value);
        assert(value@ =~= s.subrange(i, self.idx as int));
        match parse_digits(&value, 10, 0x7fff_ffff) {
            Some(n) => Token::Literal(LiteralToken::Int(n as i32)),
            None => Token::Illegal(self.pos, string_from_chars(&value)),
        }
    }

    /// Lex an integer in the given radix, the radix prefix (`0x`/`0X`/`0b`/`0B`) is expected to have been peeked
    fn lex_radix(&mut self, radix: u32) -> (r: Token)
        requires
            old(self).wf(),
            old(self).index() < old(self).text().len(),
            radix == 2 || radix == 16,
        ensures
            final(self).wf(),
            final(self).text() == old(self).text(),
            (r@, final(self).index()) == lex_radix(
                old(self).text(),
                old(self).index() + 1,
                radix as nat,
            ),
    {
        // consume the prefix
        self.advance();
        let value = self.collect_word();
        let parsed = if value.len() == 0 {
            None
        } else {
            parse_digits(&value, radix, 0xffff_ffff)
        };
        match parsed {
            // the full unsigned 32 bit range is allowed so that immediates like `0xFFFFFFFF` work as expected
            Some(n) => Token::Literal(LiteralToken::Int(n as i32)),
            None => Token::Illegal(self.pos, string_from_chars(&value)),
        }
    }

    /// Lex an identifier or a keyword, keywords are matched case-insensitively while
    /// identifiers keep their original casing
    fn lex_identifier_or_keyword(&mut self) -> (r: Token)
        requires
            old(self).wf(),
        ensures
            final(self).wf(),
            final(self).text() == old(self).text(),
            (r@, final(self).index()) == lex_word(old(self).text(), old(self).index()),
    {
        let value = self.collect_word();
        let lower = lower_chars(&value);
        match keyword_from_text(&lower) {
            Some(k) => Token::Keyword(k),
            None => Token::Identifier(string_from_chars(&value)),
        }
    }

    /// Lex a directive, expects the next char to be a `.` followed by a name
    fn lex_directive(&mut self) -> (r: Token)
        requires
            old(self).wf(),
            old(self).index() < old(self).text().len(),
        ensures
            final(self).wf(),
            final(self).text() == old(self).text(),
            (r@, final(self).index()) == lex_directive(old(self).text(), old(self).index()),
    {
        let dot_pos = self.pos;
        // consume the `.`
        self.advance();
        match self.peek() {
            Some(c) => {
                if is_alpha_exec(c) || c == '_' {
                    let name = self.collect_word();
                    return Token::Directive(string_from_chars(&name));
                }
            },
            None => {},
        }
        let mut dot: Vec<char> = Vec::new();
        dot.push('.');
        assert(dot@ =~= seq!['.']);
        Token::Unknown(dot_pos, string_from_chars(&dot))
    }

    /// Reads characters until the closing `quote`, processing backslash escape sequences
    /// (`\n`, `\t`, `\r`, `\0`, `\\`, `\'` and `\"`).
    ///
    /// Unknown escapes resolve to the escaped character itself.
    /// Returns `None` if the input ends before the closing quote is found
    fn read_quoted(&mut self, quote: char) -> (r: Option<Vec<char>>)
        requires
            old(self).wf(),
        ensures
            final(self).wf(),
            final(self).text() == old(self).text(),
            match read_quoted(old(self).text(), old(self).index(), quote) {
                Some((v, e)) => r matches Some(value) && value@ == v && final(self).index() == e,
                None => r is None && final(self).index() == final(self).text().len(),
            },
    {
        let mut value: Vec<char> = Vec::new();
        loop
            invariant
                self.wf(),
                self.chars@ == old(self).chars@,
                old(self).idx <= self.idx,
                read_quoted(self.chars@, old(self).idx as int, quote) == match read_quoted(
                    self.chars@,
                    self.idx as int,
                    quote,
                ) {
                    Some((v, e)) => Some((value@ + v, e)),
                    None => None::<(Seq<char>, int)>,
                },
            decreases self.chars@.len() - self.idx,
        {
            let ghost s = self.chars@;
            let ghost i = self.idx as int;
            match self.advance() {
                None => {
                    return None;
                },
                Some(c) => {
                    if c == '\\' {
                        match self.advance() {
                            None => {
                                return None;
                            },
                            Some(escaped) => {
                                let u = if escaped == 'n' {
                                    '\n'
                                } else if escaped == 't' {
                                    '\t'
                                } else if escaped == 'r' {
                                    '\r'
                                } else if escaped == '0' {
                                    '\0'
                                } else {
                                    escaped
                                };
                                assert(u == unescape(escaped));
                                let ghost old_value = value@;
                                value.push(u);
                                assert(read_quoted(s, i, quote) == match read_quoted(s, i + 2, quote) {
                                    Some((v, e)) => Some((seq![u] + v, e)),
                                    None => None::<(Seq<char>, int)>,
                                });
                                assert forall|v: Seq<char>| old_value + (seq![u] + v) == value@ + v by {
                                    assert(old_value + (seq![u] + v) =~= value@ + v);
                                }
                            },
                        }
                    } else if c == quote {
                        assert(value@ + Seq::<char>::empty() =~= value@);
                        return Some(value);
                    } else {
                        let ghost old_value = value@;
                        value.push(c);
                        assert forall|v: Seq<char>| old_value + (seq![c] + v) == value@ + v by {
                            assert(old_value + (seq![c] + v) =~= value@ + v);
                        }
                    }
                },
            }
        }
    }

    /// Lex a char literal, expects the next char to be a `'`.
    /// The contents must be exactly one character after escape processing
    fn lex_char(&mut self) -> (r: Token)
        requires
            old(self).wf(),
            old(self).index() < old(self).text().len(),
        ensures
            final(self).wf(),
            final(self).text() == old(self).text(),
            (r@, final(self).index()) == lex_char(old(self).text(), old(self).index()),
    {
        // consume the opening quote
        self.advance();
        match self.read_quoted('\'') {
            Some(value) => {
                if value.len() == 1 {
                    Token::Literal(LiteralToken::Char(value[0]))
                } else {
                    let mut text: Vec<char> = Vec::new();
                    text.push('\'');
                    let mut k: usize = 0;
                    while k < value.len()
                        invariant
                            k <= value@.len(),
                            text@ == seq!['\''] + value@.take(k as int),
                        decreases value@.len() - k,
                    {
                        text.push(value[k]);
                        k = k + 1;
                        assert(text@ =~= seq!['\''] + value@.take(k as int));
                    }
                    text.push('\'');
                    assert(value@.take(value@.len() as int) =~= value@);
                    assert(text@ =~= seq!['\''] + value@ + seq!['\'']);
                    Token::Illegal(self.pos, string_from_chars(&text))
                }
            },
            None => {
                let mut text: Vec<char> = Vec::new();
                text.push('\'');
                assert(text@ =~= seq!['\'']);
                Token::Illegal(self.pos, string_from_chars(&text))
            },
        }
    }

    /// Lex a string literal, expects the next char to be a `"`
    fn lex_string(&mut self) -> (r: Token)
        requires
            old(self).wf(),
            old(self).index() < old(self).text().len(),
        ensures
            final(self).wf(),
            final(self).text() == old(self).text(),
            (r@, final(self).index()) == lex_string(old(self).text(), old(self).index()),
    {
        // consume the opening quote
        self.advance();
        match self.read_quoted('"') {
            Some(value) => Token::Literal(LiteralToken::String(string_from_chars(&value))),
            None => {
                let mut text: Vec<char> = Vec::new();
                text.push('"');
                assert(text@ =~= seq!['"']);
                Token::Illegal(self.pos, string_from_chars(&text))
            },
        }
    }

    /// Skips to the end of the current line comment, leaving the terminating newline
    /// in place so that it is emitted as a `NewLine` token
    fn skip_line_comment(&mut self)
        requires
            old(self).wf(),
            old(self).index() < old(self).text().len(),
        ensures
            final(self).wf(),
            final(self).text() == old(self).text(),
            final(self).index() == line_end(old(self).text(), old(self).index() + 1),
    {
        // consume the `#`
        self.advance();
        while self.idx < self.chars.len() && self.chars[self.idx] != '\n'
            invariant
                self.wf(),
                self.chars@ == old(self).chars@,
                line_end(self.chars@, old(self).idx + 1) == line_end(self.chars@, self.idx as int),
            decreases self.chars@.len() - self.idx,
        {
            self.advance();
        }
    }


    /// Gets the next token if one exists
    pub fn get_next_token(&mut self) -> (r: Option<Token>)
        requires
            old(self).wf(),
        ensures
            final(self).wf(),
            final(self).text() == old(self).text(),
            match next_token(old(self).text(), old(self).index()) {
                Some((t, k)) => r matches Some(tok) && tok@ == t && final(self).index() == k,
                None => r is None && final(self).index() == final(self).text().len(),
            },
    {
        loop
            invariant
                self.wf(),
                self.chars@ == old(self).chars@,
                next_token(self.chars@, self.idx as int) == next_token(
                    self.chars@,
                    old(self).idx as int,
                ),
            decreases self.chars@.len() - self.idx,
        {
            let c = match self.peek() {
                Some(c) => c,
                None => return None,
            };
            if c == ' ' || c == '\t' || c == '\r' {
                // whitespace
                self.advance();
            } else if c == '\n' {
                // newline, terminates the current line
                self.advance();
                return Some(Token::NewLine);
            } else if is_digit_exec(c) {
                // numeric literal, supports decimal, hex and binary
                return Some(self.lex_number());
            } else if is_alpha_exec(c) || c == '_' {
                // a keyword or an identifier
                return Some(self.lex_identifier_or_keyword());
            } else if c == '.' {
                // a directive
                return Some(self.lex_directive());
            } else if c == '\'' {
                // a char literal
                return Some(self.lex_char());
            } else if c == '"' {
                // a string literal
                return Some(self.lex_string());
            } else if c == '+' {
                self.advance();
                return Some(Token::Operator(Operator::Plus));
            } else if c == '-' {
                self.advance();
                return Some(Token::Operator(Operator::Minus));
            } else if c == '#' {
                // line comment
                proof {
                    lemma_line_end(self.chars@, self.idx + 1);
                }
                self.skip_line_comment();
            } else if c == ':' {
                // label definition separator
                self.advance();
                return Some(Token::Colon);
            } else {
                // anything else
                let pos = self.pos;
                self.advance();
                let mut text: Vec<char> = Vec::new();
                text.push(c);
                assert(text@ =~= seq![c]);
                return Some(Token::Unknown(pos, string_from_chars(&text)));
            }
        }
    }

    /// Parse the input that was given to us into a list of raw tokens
    pub fn tokenize(&mut self) -> (r: Result<Vec<Token>, SASMTokenizeError>)
        requires
            old(self).wf(),
        ensures
            final(self).wf(),
            final(self).text() == old(self).text(),
            match tokenize_from(old(self).text(), old(self).index()) {
                Ok(ts) => r matches Ok(v) && v@.map_values(|t: Token| t@) == ts,
                Err(e) => r matches Err(x) && x@ == e,
            },
    {
        let mut tokens: Vec<Token> = Vec::new();
        loop
            invariant
                self.wf(),
                self.chars@ == old(self).chars@,
                tokenize_from(self.chars@, old(self).idx as int) == match tokenize_from(
                    self.chars@,
                    self.idx as int,
                ) {
                    Ok(rest) => Ok(tokens@.map_values(|t: Token| t@) + rest),
                    Err(e) => Err::<Seq<TokenView>, TokenizeErrorView>(e),
                },
            decreases self.chars@.len() - self.idx,
        {
            let ghost i = self.idx as int;
            proof {
                lemma_next_token_advances(self.chars@, i);
                lemma_next_token_position(self.chars@, i);
            }
            match self.get_next_token() {
                None => {
                    assert(tokens@.map_values(|t: Token| t@) + Seq::<TokenView>::empty()
                        =~= tokens@.map_values(|t: Token| t@));
                    return Ok(tokens);
                },
                Some(tok) => {
                    match tok {
                        Token::Illegal(pos, _) => {
                            let (line, col) = match self.pos_to_line_col(pos) {
                                Some(lc) => lc,
                                None => {
                                    // the position of a token lies within the text
                                    assert(false);
                                    (0, 0)
                                },
                            };
                            return Err(SASMTokenizeError::IllegalToken(tok, line, col));
                        },
                        Token::Unknown(pos, _) => {
                            let (line, col) = match self.pos_to_line_col(pos) {
                                Some(lc) => lc,
                                None => {
                                    // the position of a token lies within the text
                                    assert(false);
                                    (0, 0)
                                },
                            };
                            return Err(SASMTokenizeError::UnknownToken(tok, line, col));
                        },
                        _ => {},
                    }
                    let ghost before = tokens@.map_values(|t: Token| t@);
                    let ghost tv = tok@;
                    tokens.push(tok);
                    assert(tokens@.map_values(|t: Token| t@) =~= before.push(tv));
                    assert forall|rest: Seq<TokenView>| before + (seq![tv] + rest) == before.push(tv) + rest by {
                        assert(before + (seq![tv] + rest) =~= before.push(tv) + rest);
                    }
                },
            }
        }
    }

    /// Turns a byte position into a line and column number of the underlying input string:
    /// (1-based line, 0-based byte column), or `None` when `pos` lies past the end of the input
    fn pos_to_line_col(&self, pos: usize) -> (r: Option<(usize, usize)>)
        requires
            self.wf(),
        ensures
            r == if pos > utf8_len(self.text()) {
                None
            } else {
                Some(line_col(self.text(), pos as nat))
            },
    {
        let mut line: usize = 0;
        let mut line_start: usize = 0;
        let mut off: usize = 0;
        let mut j: usize = 0;
        while j < self.chars.len()
            invariant
                self.wf(),
                j <= self.chars@.len(),
                off == byte_offset(self.chars@, j as int),
                (line as nat, line_start as nat) == newlines_before(self.chars@, pos as nat, j as int),
                line <= j,
                line_start <= pos,
            decreases self.chars@.len() - j,
        {
            let c = self.chars[j];
            proof {
                lemma_byte_offset_step(self.chars@, j as int);
                lemma_byte_offset_bounded(self.chars@, j + 1);
            }
            if c == '\n' && off < pos {
                line = line + 1;
                line_start = off + 1;
            }
            off = off + char_width(c);
            j = j + 1;
        }
        assert(self.chars@.take(self.chars@.len() as int) =~= self.chars@);
        if pos > off {
            return None;
        }
        let l = if line < usize::MAX {
            line + 1
        } else {
            line
        };
        Some((l, pos - line_start))
    }

}

/// The number of bytes of the UTF-8 encoding of `c`
fn char_width(c: char) -> (r: usize)
    ensures
        r == utf8_width(c),
{
    let v = c as u32;
    if v <= 0x7F {
        1
    } else if v <= 0x7FF {
        2
    } else if v <= 0xFFFF {
        3
    } else {
        4
    }
}

fn is_digit_exec(c: char) -> (r: bool)
    ensures
        r == is_digit(c),
{
    '0' <= c && c <= '9'
}

fn is_alpha_exec(c: char) -> (r: bool)
    ensures
        r == is_alpha(c),
{
    ('a' <= c && c <= 'z') || ('A' <= c && c <= 'Z')
}

fn is_word_char_exec(c: char) -> (r: bool)
    ensures
        r == is_word_char(c),
{
    is_digit_exec(c) || is_alpha_exec(c) || c == '_'
}

/// The ASCII lower case of every char of `v`
fn lower_chars(v: &Vec<char>) -> (r: Vec<char>)
    ensures
        r@ == lower_all(v@),
{
    let mut r: Vec<char> = Vec::with_capacity(v.len());
    let mut k: usize = 0;
    while k < v.len()
        invariant
            k <= v@.len(),
            r@ == lower_all(v@.take(k as int)),
        decreases v@.len() - k,
    {
        let c = v[k];
        let l = if 'A' <= c && c <= 'Z' {
            ((c as u8) + 32) as char
        } else {
            c
        };
        assert(l == to_lower(c));
        r.push(l);
        k = k + 1;
        assert(r@ =~= lower_all(v@.take(k as int)));
    }
    assert(v@.take(v@.len() as int) =~= v@);
    r
}

/// The value of `c` as a digit in `radix`, if it is one
fn digit_of(c: char, radix: u32) -> (r: Option<u32>)
    requires
        radix <= 36,
    ensures
        r matches Some(d) ==> digit_value(c, radix as nat) == Some(d as nat),
        r is None ==> digit_value(c, radix as nat) is None,
{
    let v: u32 = if '0' <= c && c <= '9' {
        (c as u32) - ('0' as u32)
    } else if 'a' <= c && c <= 'z' {
        (c as u32) - ('a' as u32) + 10
    } else if 'A' <= c && c <= 'Z' {
        (c as u32) - ('A' as u32) + 10
    } else {
        36
    };
    if v < radix {
        Some(v)
    } else {
        None
    }
}

/// A prefix that is not a digit string, or spells a number larger than `bound`, rules out
/// the whole string spelling a number up to `bound`.
proof fn lemma_digits_prefix(s: Seq<char>, j: int, radix: nat)
    requires
        0 <= j <= s.len(),
        radix >= 1,
    ensures
        digits_value(s.take(j), radix) is None ==> digits_value(s, radix) is None,
        digits_value(s.take(j), radix) matches Some(v) ==> (digits_value(s, radix) is None
            || digits_value(s, radix)->0 >= v),
    decreases s.len() - j,
{
    if j == s.len() {
        assert(s.take(j) =~= s);
    } else {
        let t = s.drop_last();
        assert(t.take(j) =~= s.take(j));
        lemma_digits_prefix(t, j, radix);
        match (digits_value(t, radix), digit_value(s.last(), radix)) {
            (Some(v), Some(d)) => {
                assert(v * radix + d >= v) by (nonlinear_arith)
                    requires
                        radix >= 1,
                ;
            },
            _ => {},
        }
    }
}

/// The number that the digits `text` spell in `radix`, if all are digits of `radix` and the
/// number is at most `bound`
fn parse_digits(text: &Vec<char>, radix: u32, bound: u32) -> (r: Option<u32>)
    requires
        2 <= radix <= 16,
    ensures
        r == (match digits_value(text@, radix as nat) {
            Some(v) => if v <= bound {
                Some(v as u32)
            } else {
                None
            },
            None => None,
        }),
{
    let mut acc: u64 = 0;
    let mut k: usize = 0;
    assert(text@.take(0) =~= Seq::<char>::empty());
    while k < text.len()
        invariant
            2 <= radix <= 16,
            k <= text@.len(),
            digits_value(text@.take(k as int), radix as nat) == Some(acc as nat),
            acc <= bound,
        decreases text@.len() - k,
    {
        let ghost prefix = text@.take(k as int + 1);
        assert(prefix.drop_last() =~= text@.take(k as int));
        match digit_of(text[k], radix) {
            Some(d) => {
                assert(acc * (radix as u64) <= 0xffff_ffff * 16) by (nonlinear_arith)
                    requires
                        acc <= 0xffff_ffff,
                        radix <= 16,
                ;
                acc = acc * (radix as u64) + (d as u64);
                if acc > bound as u64 {
                    proof {
                        lemma_digits_prefix(text@, k + 1, radix as nat);
                    }
                    return None;
                }
            },
            None => {
                proof {
                    lemma_digits_prefix(text@, k + 1, radix as nat);
                }
                return None;
            },
        }
        k = k + 1;
    }
    assert(text@.take(text@.len() as int) =~= text@);
    Some(acc as u32)
}

} // verus!
