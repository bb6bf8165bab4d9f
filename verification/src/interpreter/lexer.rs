//! The lexer: turns source text into tokens.
//!
//! The input is held as its characters; `position` points at the character
//! under examination (`ch`), `read_position` just past it.  `next_token`
//! skips whitespace and `//` comments, then reads one token; its result and
//! the lexer's advance are specified exactly by `spec_next_token`.
//!
//! Character classes are the ASCII ones of the score grammar: letters,
//! digits, the identifier marks `#`, `*` and `_`, and the whitespace
//! characters space, tab, carriage return, newline and the two page breaks.

use vstd::prelude::*;

use crate::interpreter::text::{char_to_string, push_char};
use crate::interpreter::token::{spec_lookup_ident, Token, TokenType};

verus! {

/// The character of `s` at `p`, the NUL sentinel beyond the end.
pub open spec fn char_at(s: Seq<char>, p: int) -> char {
    if 0 <= p < s.len() {
        s[p]
    } else {
        '\x00'
    }
}

/// Whitespace that the lexer skips.
pub open spec fn spec_is_ws(c: char) -> bool {
    c == ' ' || c == '\t' || c == '\n' || c == '\r' || c == '\x0b' || c == '\x0c'
}

/// ASCII letters.
pub open spec fn spec_is_alpha(c: char) -> bool {
    ('a' <= c && c <= 'z') || ('A' <= c && c <= 'Z')
}

/// ASCII digits.
pub open spec fn spec_is_digit(c: char) -> bool {
    '0' <= c && c <= '9'
}

/// The extra characters words may carry: sharps, dots-as-stars, joints and
/// digits.
pub open spec fn spec_is_ident_mark(c: char) -> bool {
    c == '#' || c == '*' || c == '_' || spec_is_digit(c)
}

/// A character that continues a word.
pub open spec fn spec_is_ident_char(c: char) -> bool {
    spec_is_alpha(c) || spec_is_ident_mark(c)
}

/// The first position at or after `p` whose character is not whitespace
/// (the end of input counts as such a position).
pub open spec fn spec_skip_ws(s: Seq<char>, p: int) -> int
    decreases s.len() - p,
{
    if 0 <= p < s.len() && spec_is_ws(s[p]) {
        spec_skip_ws(s, p + 1)
    } else {
        p
    }
}

/// The first position at or after `p` holding a newline or a NUL, or the
/// end: where a `//` comment stops.
pub open spec fn spec_skip_line(s: Seq<char>, p: int) -> int
    decreases s.len() - p,
{
    if 0 <= p < s.len() && s[p] != '\n' && s[p] != '\x00' {
        spec_skip_line(s, p + 1)
    } else {
        p
    }
}

/// Skipping whitespace bounds: the result moves forward, not past the end,
/// and lands on a non-whitespace character.
pub proof fn lemma_skip_ws_bounds(s: Seq<char>, p: int)
    requires
        0 <= p <= s.len(),
    ensures
        p <= spec_skip_ws(s, p) <= s.len(),
        !spec_is_ws(char_at(s, spec_skip_ws(s, p))),
        spec_skip_ws(s, spec_skip_ws(s, p)) == spec_skip_ws(s, p),
    decreases s.len() - p,
{
    if p < s.len() && spec_is_ws(s[p]) {
        lemma_skip_ws_bounds(s, p + 1);
    }
}

/// Skipping to the end of a line moves forward and not past the end.
pub proof fn lemma_skip_line_bounds(s: Seq<char>, p: int)
    requires
        0 <= p <= s.len(),
    ensures
        p <= spec_skip_line(s, p) <= s.len(),
    decreases s.len() - p,
{
    if p < s.len() && s[p] != '\n' && s[p] != '\x00' {
        lemma_skip_line_bounds(s, p + 1);
    }
}

/// The position of the next token at or after `p`: whitespace and `//`
/// comment lines are skipped, alternately, until neither applies.
pub open spec fn spec_skip(s: Seq<char>, p: int) -> int
    recommends
        0 <= p <= s.len(),
    decreases s.len() - p,
    via spec_skip_dec
{
    let q = spec_skip_ws(s, p);
    if 0 <= q && q + 1 < s.len() && s[q] == '/' && s[q + 1] == '/' {
        spec_skip(s, spec_skip_line(s, q))
    } else {
        q
    }
}

#[via_fn]
proof fn spec_skip_dec(s: Seq<char>, p: int) {
    if 0 <= p <= s.len() {
        lemma_skip_ws_bounds(s, p);
        let q = spec_skip_ws(s, p);
        if 0 <= q && q + 1 < s.len() && s[q] == '/' && s[q + 1] == '/' {
            lemma_skip_line_bounds(s, q);
            assert(spec_skip_line(s, q) == spec_skip_line(s, q + 1));
            assert(spec_skip_line(s, q + 1) == spec_skip_line(s, q + 2));
            lemma_skip_line_bounds(s, q + 2);
        }
    }
}

/// The token start lands on a non-whitespace character that does not open a
/// comment, and skipping again from it stays put.
pub proof fn lemma_skip_bounds(s: Seq<char>, p: int)
    requires
        0 <= p <= s.len(),
    ensures
        p <= spec_skip(s, p) <= s.len(),
        !spec_is_ws(char_at(s, spec_skip(s, p))),
        spec_skip(s, spec_skip(s, p)) == spec_skip(s, p),
    decreases s.len() - p,
{
    lemma_skip_ws_bounds(s, p);
    let q = spec_skip_ws(s, p);
    if 0 <= q && q + 1 < s.len() && s[q] == '/' && s[q + 1] == '/' {
        lemma_skip_line_bounds(s, q);
        assert(spec_skip_line(s, q) == spec_skip_line(s, q + 1));
        assert(spec_skip_line(s, q + 1) == spec_skip_line(s, q + 2));
        lemma_skip_line_bounds(s, q + 2);
        lemma_skip_bounds(s, spec_skip_line(s, q));
    } else {
        lemma_skip_ws_bounds(s, q);
    }
}

/// The end of the word starting at `p`: the first position whose character
/// no longer continues a word.
pub open spec fn spec_scan_ident(s: Seq<char>, p: int) -> int
    decreases s.len() - p,
{
    if 0 <= p < s.len() && spec_is_ident_char(s[p]) {
        spec_scan_ident(s, p + 1)
    } else {
        p
    }
}

/// The end of the digit run starting at `p`.
pub open spec fn spec_scan_digits(s: Seq<char>, p: int) -> int
    decreases s.len() - p,
{
    if 0 <= p < s.len() && spec_is_digit(s[p]) {
        spec_scan_digits(s, p + 1)
    } else {
        p
    }
}

/// Scanning a word moves forward and not past the end.
pub proof fn lemma_scan_ident_bounds(s: Seq<char>, p: int)
    requires
        0 <= p <= s.len(),
    ensures
        p <= spec_scan_ident(s, p) <= s.len(),
    decreases s.len() - p,
{
    if p < s.len() && spec_is_ident_char(s[p]) {
        lemma_scan_ident_bounds(s, p + 1);
    }
}

/// Scanning digits moves forward and not past the end.
pub proof fn lemma_scan_digits_bounds(s: Seq<char>, p: int)
    requires
        0 <= p <= s.len(),
    ensures
        p <= spec_scan_digits(s, p) <= s.len(),
    decreases s.len() - p,
{
    if p < s.len() && spec_is_digit(s[p]) {
        lemma_scan_digits_bounds(s, p + 1);
    }
}

/// How many newlines `s` holds before position `upto`.
pub open spec fn spec_newlines(s: Seq<char>, upto: int) -> int
    decreases upto,
{
    if upto <= 0 {
        0
    } else {
        spec_newlines(s, upto - 1) + if 0 <= upto - 1 < s.len() && s[upto - 1] == '\n' {
            1int
        } else {
            0int
        }
    }
}

/// Newline counts are bounded by the prefix length and grow one at a time.
pub proof fn lemma_newlines_bound(s: Seq<char>, upto: int)
    ensures
        0 <= spec_newlines(s, upto),
        spec_newlines(s, upto) <= if upto <= 0 { 0int } else { upto },
    decreases upto,
{
    if upto > 0 {
        lemma_newlines_bound(s, upto - 1);
    }
}

/// The line number the lexer reports while standing at `pos`: the newlines
/// seen up to and including the character under examination.
pub open spec fn spec_line_at(s: Seq<char>, pos: int) -> int {
    if pos < s.len() {
        spec_newlines(s, pos + 1)
    } else {
        spec_newlines(s, s.len() as int)
    }
}

/// The position the lexer stands at after reading the character at `p`.
pub open spec fn spec_advance(s: Seq<char>, p: int) -> int {
    if p < s.len() {
        p + 1
    } else {
        s.len() as int
    }
}

/// Whether `c` spells one of the one-character tokens.
pub open spec fn spec_is_single(c: char) -> bool {
    c == '+' || c == '*' || c == '(' || c == ')' || c == ';' || c == '/' || c == '-' || c == ','
        || c == '='
}

/// The kind of the one-character token `c` spells.
pub open spec fn spec_single_type(c: char) -> TokenType {
    if c == '+' { TokenType::Plus }
    else if c == '*' { TokenType::Asterisk }
    else if c == '(' { TokenType::Lparen }
    else if c == ')' { TokenType::Rparen }
    else if c == ';' { TokenType::Semicolon }
    else if c == '/' { TokenType::Slash }
    else if c == '-' { TokenType::Minus }
    else if c == ',' { TokenType::Comma }
    else { TokenType::Assign }
}

/// The mathematical shape of one `next_token` step: the token's kind,
/// spelling and line, and the position the lexer ends at.
pub struct TokenModel {
    pub ttype: TokenType,
    pub literal: Seq<char>,
    pub line: int,
    pub end: int,
}

/// What `next_token` does from position `p0` of input `s`: skip to the
/// token start; then an exhausted input yields `Eof`, a one-character token
/// its kind, a letter starts a word (a keyword or an identifier), a digit a
/// number, and anything else is `Illegal`.
pub open spec fn spec_next_token(s: Seq<char>, p0: int) -> TokenModel {
    let p = spec_skip(s, p0);
    let c = char_at(s, p);
    if c == '\x00' {
        TokenModel {
            ttype: TokenType::Eof,
            literal: seq![c],
            line: spec_line_at(s, p),
            end: spec_advance(s, p),
        }
    } else if spec_is_single(c) {
        TokenModel {
            ttype: spec_single_type(c),
            literal: seq![c],
            line: spec_line_at(s, p),
            end: spec_advance(s, p),
        }
    } else if spec_is_alpha(c) {
        let e = spec_scan_ident(s, p);
        TokenModel {
            ttype: spec_lookup_ident(s.subrange(p, e)),
            literal: s.subrange(p, e),
            line: spec_line_at(s, e),
            end: e,
        }
    } else if spec_is_digit(c) {
        let e = spec_scan_digits(s, p);
        TokenModel {
            ttype: TokenType::Int,
            literal: s.subrange(p, e),
            line: spec_line_at(s, e),
            end: e,
        }
    } else {
        TokenModel {
            ttype: TokenType::Illegal,
            literal: seq![c],
            line: spec_line_at(s, p),
            end: spec_advance(s, p),
        }
    }
}

/// The lexer state over an input text.
pub struct Lexer {
    pub input: Vec<char>,
    pub position: usize,
    pub read_position: usize,
    pub ch: char,
    pub line: usize,
}

impl Lexer {
    /// The lexer's internal consistency: the cursor within bounds, the read
    /// cursor one past it, the current character and line derived from the
    /// cursor.
    pub open spec fn wf(self) -> bool {
        &&& self.position <= self.input@.len()
        &&& self.read_position == spec_advance(self.input@, self.position as int)
        &&& self.ch == char_at(self.input@, self.position as int)
        &&& self.line == spec_line_at(self.input@, self.position as int)
    }

    /// A lexer over `input`, standing at its first character.
    pub fn new(input: &str) -> (r: Self)
        ensures
            r.wf(),
            r.input@ == input@,
            r.position == 0,
    {
        let n = input.unicode_len();
        let mut chars: Vec<char> = Vec::new();
        let mut i: usize = 0;
        while i < n
            invariant
                n == input@.len(),
                i <= n,
                chars@ == input@.subrange(0, i as int),
            decreases n - i,
        {
            chars.push(input.get_char(i));
            proof {
                assert(chars@ =~= input@.subrange(0, i + 1));
            }
            i = i + 1;
        }
        proof {
            assert(chars@ =~= input@);
        }
        let mut lex = Self {
            input: chars,
            position: 0,
            read_position: 0,
            ch: '\x00',
            line: 0,
        };
        proof {
            assert(spec_newlines(lex.input@, 0) == 0);
        }
        lex.read_char_first();
        lex
    }

    /// The first read: examine character zero without moving the cursor.
    fn read_char_first(&mut self)
        requires
            old(self).position == 0,
            old(self).read_position == 0,
            old(self).line == 0,
        ensures
            final(self).wf(),
            final(self).input@ == old(self).input@,
            final(self).position == 0,
    {
        let ghost s = self.input@;
        if self.read_position < self.input.len() {
            self.ch = self.input[self.read_position];
            if self.ch == '\n' {
                self.line = 1;
            }
            self.position = 0;
            self.read_position = 1;
            proof {
                assert(spec_newlines(s, 0) == 0);
                assert(spec_newlines(s, 1) == if s[0] == '\n' { 1int } else { 0int });
            }
        } else {
            self.ch = '\x00';
            proof {
                assert(spec_newlines(s, s.len() as int) == 0) by {
                    assert(s.len() == 0);
                }
            }
        }
    }

    /// Step to the next character: the read cursor's character becomes
    /// current (the NUL sentinel at the end), newlines count up the line.
    fn read_char(&mut self)
        requires
            old(self).wf(),
        ensures
            final(self).wf(),
            final(self).input@ == old(self).input@,
            final(self).position == spec_advance(old(self).input@, old(self).position as int),
            final(self).line == spec_line_at(old(self).input@, final(self).position as int),
    {
        let ghost s = self.input@;
        let ghost p = self.position as int;
        if self.read_position < self.input.len() {
            self.ch = self.input[self.read_position];
            if self.ch == '\n' {
                proof {
                    lemma_newlines_bound(s, self.read_position as int + 1);
                }
                self.line = self.line + 1;
            }
            self.position = self.read_position;
            self.read_position = self.read_position + 1;
            proof {
                assert(spec_newlines(s, self.position + 1) == spec_newlines(s,
                    self.position as int) + if s[self.position as int] == '\n' {
                    1int
                } else {
                    0int
                });
            }
        } else {
            self.ch = '\x00';
            self.position = self.read_position;
        }
    }

    /// The character after the current one, the NUL sentinel at the end.
    fn peek_char(&mut self) -> (c: char)
        requires
            old(self).wf(),
        ensures
            *final(self) == *old(self),
            c == char_at(old(self).input@, final(self).read_position as int),
    {
        if self.read_position < self.input.len() {
            self.input[self.read_position]
        } else {
            '\x00'
        }
    }

    /// Skip whitespace: stop at the first non-whitespace character.
    fn skip_all_whitespace(&mut self)
        requires
            old(self).wf(),
        ensures
            final(self).wf(),
            final(self).input@ == old(self).input@,
            final(self).position == spec_skip_ws(old(self).input@, old(self).position as int),
    {
        let ghost s = self.input@;
        let ghost p0 = old(self).position as int;
        while is_ws_char(self.ch)
            invariant
                self.wf(),
                self.input@ == s,
                spec_skip_ws(s, p0) == spec_skip_ws(s, self.position as int),
            decreases s.len() - self.position,
        {
            proof {
                assert(char_at(s, self.position as int) == s[self.position as int]);
            }
            self.read_char();
        }
    }

    /// Skip `//` comment lines (and the whitespace after each), stopping at
    /// the first real token character.
    fn skip_comments(&mut self)
        requires
            old(self).wf(),
            !spec_is_ws(char_at(old(self).input@, old(self).position as int)),
        ensures
            final(self).wf(),
            final(self).input@ == old(self).input@,
            final(self).position == spec_skip(old(self).input@, old(self).position as int),
        decreases old(self).input@.len() - old(self).position,
    {
        let ghost s = self.input@;
        let ghost p0 = old(self).position as int;
        proof {
            assert(spec_skip_ws(s, p0) == p0);
        }
        let next = self.peek_char();
        if self.ch == '/' && next == '/' {
            while self.ch != '\n' && self.ch != '\x00'
                invariant
                    self.wf(),
                    self.input@ == s,
                    0 <= p0 <= self.position <= s.len(),
                    spec_skip_line(s, p0) == spec_skip_line(s, self.position as int),
                decreases s.len() - self.position,
            {
                proof {
                    assert(char_at(s, self.position as int) == s[self.position as int]);
                }
                self.read_char();
            }
            proof {
                assert(spec_skip_line(s, self.position as int) == self.position as int);
                assert(s[p0] == '/' && s[p0 + 1] == '/');
                assert(spec_skip_line(s, p0) == spec_skip_line(s, p0 + 1));
                assert(spec_skip_line(s, p0 + 1) == spec_skip_line(s, p0 + 2));
                lemma_skip_line_bounds(s, p0 + 2);
                assert(self.position >= p0 + 2);
            }
            self.skip_all_whitespace();
            proof {
                lemma_skip_ws_bounds(s, spec_skip_line(s, p0));
            }
            self.skip_comments();
            proof {
                let w = spec_skip_ws(s, spec_skip_line(s, p0));
                lemma_skip_ws_bounds(s, spec_skip_line(s, p0));
                assert(spec_skip_ws(s, w) == w);
                assert(spec_skip(s, spec_skip_line(s, p0)) == spec_skip(s, w));
                assert(spec_skip(s, p0) == spec_skip(s, spec_skip_line(s, p0)));
            }
        }
    }

    /// Read the next token and step past it.
    pub fn next_token(&mut self) -> (tok: Token)
        requires
            old(self).wf(),
        ensures
            final(self).wf(),
            final(self).input@ == old(self).input@,
            ({
                let m = spec_next_token(old(self).input@, old(self).position as int);
                &&& tok.ttype == m.ttype
                &&& tok.literal@ == m.literal
                &&& tok.line == m.line
                &&& final(self).position == m.end
            }),
            tok.ttype != TokenType::Eof ==> final(self).position > old(self).position,
    {
        let ghost s = self.input@;
        let ghost p0 = old(self).position as int;
        self.skip_all_whitespace();
        proof {
            lemma_skip_ws_bounds(s, p0);
        }
        self.skip_comments();
        proof {
            lemma_skip_bounds(s, p0);
            assert(spec_skip(s, spec_skip_ws(s, p0)) == spec_skip(s, p0)) by {
                lemma_skip_ws_bounds(s, p0);
            }
        }
        let ghost p = self.position as int;
        let c = self.ch;
        if c == '\x00' {
            let tok = Token { ttype: TokenType::Eof, literal: char_to_string(c),
                line: self.line };
            self.read_char();
            return tok;
        }
        if c == '+' || c == '*' || c == '(' || c == ')' || c == ';' || c == '/' || c == '-'
            || c == ',' || c == '=' {
            let ttype = if c == '+' { TokenType::Plus }
                else if c == '*' { TokenType::Asterisk }
                else if c == '(' { TokenType::Lparen }
                else if c == ')' { TokenType::Rparen }
                else if c == ';' { TokenType::Semicolon }
                else if c == '/' { TokenType::Slash }
                else if c == '-' { TokenType::Minus }
                else if c == ',' { TokenType::Comma }
                else { TokenType::Assign };
            let tok = Token { ttype, literal: char_to_string(c), line: self.line };
            self.read_char();
            return tok;
        }
        if is_alpha_char(c) {
            proof {
                assert(p < s.len());
                assert(spec_scan_ident(s, p) == spec_scan_ident(s, p + 1));
                lemma_scan_ident_bounds(s, p + 1);
            }
            let literal = self.read_ident();
            let ttype = crate::interpreter::token::lookup_ident(literal.as_str());
            return Token { ttype, literal, line: self.line };
        }
        if is_digit_char(c) {
            proof {
                assert(p < s.len());
                assert(spec_scan_digits(s, p) == spec_scan_digits(s, p + 1));
                lemma_scan_digits_bounds(s, p + 1);
            }
            let literal = self.read_number();
            return Token { ttype: TokenType::Int, literal, line: self.line };
        }
        let tok = Token { ttype: TokenType::Illegal, literal: char_to_string(c),
            line: self.line };
        self.read_char();
        tok
    }

    /// Read a word: the current character and every following word
    /// character.
    fn read_ident(&mut self) -> (r: String)
        requires
            old(self).wf(),
        ensures
            final(self).wf(),
            final(self).input@ == old(self).input@,
            final(self).position == spec_scan_ident(old(self).input@, old(self).position as int),
            r@ == final(self).input@.subrange(old(self).position as int, final(self).position as int),
    {
        let ghost s = self.input@;
        let ghost p0 = old(self).position as int;
        let mut literal = String::new();
        proof {
            lemma_scan_ident_bounds(s, p0);
            assert(literal@ =~= s.subrange(p0, p0));
        }
        while is_ident_char_now(self.ch)
            invariant
                self.wf(),
                self.input@ == s,
                0 <= p0 <= self.position <= s.len(),
                spec_scan_ident(s, p0) == spec_scan_ident(s, self.position as int),
                literal@ == s.subrange(p0, self.position as int),
            decreases s.len() - self.position,
        {
            let ghost before = self.position as int;
            proof {
                assert(!spec_is_ident_char('\x00'));
                assert(before < s.len());
                assert(self.ch == s[before]);
            }
            push_char(&mut literal, self.ch);
            self.read_char();
            proof {
                crate::views::lemma_subrange_push(s, p0, before);
                assert(literal@ =~= s.subrange(p0, self.position as int));
            }
        }
        literal
    }

    /// Read a run of digits.
    fn read_number(&mut self) -> (r: String)
        requires
            old(self).wf(),
        ensures
            final(self).wf(),
            final(self).input@ == old(self).input@,
            final(self).position == spec_scan_digits(old(self).input@, old(self).position as int),
            r@ == final(self).input@.subrange(old(self).position as int, final(self).position as int),
    {
        let ghost s = self.input@;
        let ghost p0 = old(self).position as int;
        let mut literal = String::new();
        proof {
            lemma_scan_digits_bounds(s, p0);
            assert(literal@ =~= s.subrange(p0, p0));
        }
        while is_digit_char(self.ch)
            invariant
                self.wf(),
                self.input@ == s,
                0 <= p0 <= self.position <= s.len(),
                spec_scan_digits(s, p0) == spec_scan_digits(s, self.position as int),
                literal@ == s.subrange(p0, self.position as int),
            decreases s.len() - self.position,
        {
            let ghost before = self.position as int;
            proof {
                assert(!spec_is_digit('\x00'));
                assert(before < s.len());
                assert(self.ch == s[before]);
            }
            push_char(&mut literal, self.ch);
            self.read_char();
            proof {
                crate::views::lemma_subrange_push(s, p0, before);
                assert(literal@ =~= s.subrange(p0, self.position as int));
            }
        }
        literal
    }

    /// Read a quoted string: the characters after the current one, up to
    /// (not including) the next quote or the end of input.
    pub fn read_string(&mut self) -> (r: String)
        requires
            old(self).wf(),
            old(self).position < old(self).input@.len(),
        ensures
            final(self).wf(),
            final(self).input@ == old(self).input@,
            r@ == final(self).input@.subrange(
                old(self).position as int + 1,
                spec_scan_string(old(self).input@, old(self).position as int + 1),
            ),
    {
        let ghost s = self.input@;
        let ghost start = old(self).position as int + 1;
        let mut literal = String::new();
        proof {
            assert(literal@ =~= s.subrange(start, start));
        }
        self.read_char();
        while self.ch != '"' && self.ch != '\x00'
            invariant
                self.wf(),
                self.input@ == s,
                0 <= start <= self.position <= s.len(),
                spec_scan_string(s, start) == spec_scan_string(s, self.position as int),
                literal@ == s.subrange(start, self.position as int),
            decreases s.len() - self.position,
        {
            let ghost before = self.position as int;
            proof {
                assert(before < s.len());
                assert(self.ch == s[before]);
            }
            push_char(&mut literal, self.ch);
            self.read_char();
            proof {
                crate::views::lemma_subrange_push(s, start, before);
                assert(literal@ =~= s.subrange(start, self.position as int));
            }
        }
        literal
    }
}

/// The end of a quoted string's body starting at `p`: the position of the
/// closing quote, or the end of input.
pub open spec fn spec_scan_string(s: Seq<char>, p: int) -> int
    decreases s.len() - p,
{
    if 0 <= p < s.len() && s[p] != '"' && s[p] != '\x00' {
        spec_scan_string(s, p + 1)
    } else {
        p
    }
}

/// Whitespace that the lexer skips.
fn is_ws_char(c: char) -> (r: bool)
    ensures
        r == spec_is_ws(c),
{
    c == ' ' || c == '\t' || c == '\n' || c == '\r' || c == '\x0b' || c == '\x0c'
}

/// ASCII letters.
fn is_alpha_char(c: char) -> (r: bool)
    ensures
        r == spec_is_alpha(c),
{
    ('a' <= c && c <= 'z') || ('A' <= c && c <= 'Z')
}

/// ASCII digits.
fn is_digit_char(c: char) -> (r: bool)
    ensures
        r == spec_is_digit(c),
{
    '0' <= c && c <= '9'
}

/// A character that continues a word.
fn is_ident_char_now(c: char) -> (r: bool)
    ensures
        r == spec_is_ident_char(c),
{
    is_alpha_char(c) || c == '#' || c == '*' || c == '_' || is_digit_char(c)
}

} // verus!
