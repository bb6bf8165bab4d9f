//! The parser: a recursive-descent Pratt parser over the lexer's tokens.
//!
//! `Parser::new` drains the lexer up front — the token stream is exactly
//! `spec_token_stream` of the input — and parsing walks that stream with a
//! cursor.  Malformed input never stops the parser: it records a `ParseErr`
//! and moves on, and every parse is proved to terminate.

use vstd::prelude::*;
use vstd::string::StringExecFns;

use crate::interpreter::ast::{
    AssignStatement, CallExpression, Identifier, InfixExpression, IntegerLiteral, NodeType,
    PrefixExpression, Program,
};
use crate::interpreter::lexer::{spec_next_token, Lexer, TokenModel};
use crate::interpreter::text::{spec_all_digits, spec_digit_val, spec_digits_val};
use crate::interpreter::token::{Token, TokenType};

verus! {

/// Binding strength of an operator, lowest first.
#[derive(Debug, Clone, Copy, PartialEq, Eq, Structural)]
pub enum Precedence {
    Lowest,
    Sum,
    Product,
    Prefix,
    Call,
}

impl Precedence {
    /// The strength as a number, for comparisons.
    pub open spec fn spec_rank(self) -> int {
        match self {
            Precedence::Lowest => 1,
            Precedence::Sum => 2,
            Precedence::Product => 3,
            Precedence::Prefix => 4,
            Precedence::Call => 5,
        }
    }

    /// The strength as a number, for comparisons.
    pub fn rank(&self) -> (r: u8)
        ensures
            r == self.spec_rank(),
    {
        match self {
            Precedence::Lowest => 1,
            Precedence::Sum => 2,
            Precedence::Product => 3,
            Precedence::Prefix => 4,
            Precedence::Call => 5,
        }
    }
}

/// The binding strength a token has when it follows an expression.
pub open spec fn spec_precedence_of(t: TokenType) -> Precedence {
    match t {
        TokenType::Plus => Precedence::Sum,
        TokenType::Minus => Precedence::Sum,
        TokenType::Slash => Precedence::Product,
        TokenType::Asterisk => Precedence::Product,
        TokenType::Lparen => Precedence::Call,
        _ => Precedence::Lowest,
    }
}

/// The binding strength a token has when it follows an expression.
pub fn precedence_of(t: TokenType) -> (r: Precedence)
    ensures
        r == spec_precedence_of(t),
{
    match t {
        TokenType::Plus => Precedence::Sum,
        TokenType::Minus => Precedence::Sum,
        TokenType::Slash => Precedence::Product,
        TokenType::Asterisk => Precedence::Product,
        TokenType::Lparen => Precedence::Call,
        _ => Precedence::Lowest,
    }
}

/// A token that can open an expression in prefix position.
pub open spec fn spec_has_prefix(t: TokenType) -> bool {
    t == TokenType::Lparen || t == TokenType::Int || t == TokenType::Minus
        || t == TokenType::Asterisk || t == TokenType::Ident
}

/// A token that can continue an expression as an infix operator or a call.
pub open spec fn spec_is_infix_token(t: TokenType) -> bool {
    t == TokenType::Plus || t == TokenType::Minus || t == TokenType::Asterisk
        || t == TokenType::Slash || t == TokenType::Lparen
}

/// What can go wrong while parsing: no parse for the token in prefix or in
/// infix position, an unexpected next token, or an integer literal out of
/// range.
#[derive(Debug)]
pub enum ParseErr {
    NoPrefix(Token),
    NoInfix(Token),
    Peek(TokenType, String),
    IntConv(String),
}

/// Whether an exec token spells the token model `m`.
pub open spec fn spec_token_matches(t: Token, m: TokenModel) -> bool {
    &&& t.ttype == m.ttype
    &&& t.literal@ == m.literal
    &&& t.line == m.line
}

/// The whole token stream of `s` from position `p`: tokens up to and
/// including the first `Eof`.
pub open spec fn spec_token_stream(s: Seq<char>, p: int) -> Seq<TokenModel>
    recommends
        0 <= p <= s.len(),
    decreases s.len() - p,
    via spec_token_stream_dec
{
    let m = spec_next_token(s, p);
    if m.ttype == TokenType::Eof || !(0 <= p <= s.len()) {
        seq![m]
    } else {
        seq![m] + spec_token_stream(s, m.end)
    }
}

/// A token that is not `Eof` moves the lexer strictly forward, and never
/// out of bounds.
pub proof fn lemma_next_token_advances(s: Seq<char>, p: int)
    requires
        0 <= p <= s.len(),
    ensures
        p <= spec_next_token(s, p).end <= s.len(),
        spec_next_token(s, p).ttype != TokenType::Eof ==> spec_next_token(s, p).end > p,
{
    crate::interpreter::lexer::lemma_skip_bounds(s, p);
    let q = crate::interpreter::lexer::spec_skip(s, p);
    let c = crate::interpreter::lexer::char_at(s, q);
    if c != '\x00' {
        assert(q < s.len());
        if crate::interpreter::lexer::spec_is_alpha(c) {
            assert(crate::interpreter::lexer::spec_scan_ident(s, q)
                == crate::interpreter::lexer::spec_scan_ident(s, q + 1));
            crate::interpreter::lexer::lemma_scan_ident_bounds(s, q + 1);
        } else if crate::interpreter::lexer::spec_is_digit(c) {
            assert(crate::interpreter::lexer::spec_scan_digits(s, q)
                == crate::interpreter::lexer::spec_scan_digits(s, q + 1));
            crate::interpreter::lexer::lemma_scan_digits_bounds(s, q + 1);
        }
    }
}

#[via_fn]
proof fn spec_token_stream_dec(s: Seq<char>, p: int) {
    if 0 <= p <= s.len() {
        lemma_next_token_advances(s, p);
    }
}

/// Whether `tokens` spells out the models `ms`, token for token.
pub open spec fn spec_tokens_match(tokens: Seq<Token>, ms: Seq<TokenModel>) -> bool {
    &&& tokens.len() == ms.len()
    &&& forall|i: int| 0 <= i < tokens.len() ==> spec_token_matches(#[trigger] tokens[i], ms[i])
}

/// The token of `tokens` at `i`, saturating at the final `Eof`.
pub open spec fn spec_tok_at(tokens: Seq<Token>, i: int) -> Token
    recommends
        tokens.len() > 0,
{
    if i < tokens.len() {
        tokens[if i < 0 { 0int } else { i }]
    } else {
        tokens[tokens.len() - 1]
    }
}

/// A parser whose current token is not `Eof` stands strictly before the
/// final token.
pub proof fn lemma_cur_in_bounds(p: Parser)
    requires
        p.wf(),
        p.cur_token.ttype != TokenType::Eof,
    ensures
        (p.idx as int) < p.tokens@.len() - 1,
{
}

/// A parser whose lookahead token is not `Eof` can step at least twice.
pub proof fn lemma_peek_in_bounds(p: Parser)
    requires
        p.wf(),
        p.peek_token.ttype != TokenType::Eof,
    ensures
        (p.idx as int) + 1 < p.tokens@.len() - 1,
{
}

/// Whether two tokens agree in kind, spelling and line.
pub open spec fn spec_token_eqv(a: Token, b: Token) -> bool {
    a.ttype == b.ttype && a.literal@ == b.literal@ && a.line == b.line
}

/// The parser state: the token stream, a cursor into it, the two-token
/// lookahead window, and the errors recorded so far.
pub struct Parser {
    pub tokens: Vec<Token>,
    pub idx: usize,
    pub errors: Vec<ParseErr>,
    pub cur_token: Token,
    pub peek_token: Token,
}

impl Parser {
    /// The parser's internal consistency: a nonempty stream whose one `Eof`
    /// stands last, the cursor within it, and the lookahead window derived
    /// from the cursor.
    pub open spec fn wf(self) -> bool {
        &&& self.tokens@.len() >= 1
        &&& self.tokens@.last().ttype == TokenType::Eof
        &&& forall|i: int| 0 <= i < self.tokens@.len() - 1 ==> (#[trigger] self.tokens@[i]).ttype
            != TokenType::Eof
        &&& self.idx <= self.tokens@.len()
        &&& spec_token_eqv(self.cur_token, spec_tok_at(self.tokens@, self.idx as int))
        &&& spec_token_eqv(self.peek_token, spec_tok_at(self.tokens@, self.idx as int + 1))
    }

    /// A parser over the lexer's whole token stream, standing at its first
    /// token.
    pub fn new(lex: Lexer) -> (r: Self)
        requires
            lex.wf(),
        ensures
            r.wf(),
            r.errors@.len() == 0,
            r.idx == 0,
            spec_tokens_match(r.tokens@, spec_token_stream(lex.input@, lex.position as int)),
    {
        let ghost s0 = lex.input@;
        let ghost p0 = lex.position as int;
        let ghost stream = spec_token_stream(lex.input@, lex.position as int);
        let mut lex = lex;
        let mut tokens: Vec<Token> = Vec::new();
        proof {
            assert(stream.skip(0) =~= stream);
            assert(stream.take(0).len() == 0);
        }
        loop
            invariant_except_break
                stream.skip(tokens@.len() as int) =~= spec_token_stream(s0,
                    lex.position as int),
                forall|i: int| 0 <= i < tokens@.len() ==> (#[trigger] tokens@[i]).ttype
                    != TokenType::Eof,
            invariant
                lex.wf(),
                lex.input@ == s0,
                0 <= p0 <= s0.len(),
                stream == spec_token_stream(s0, p0),
                tokens@.len() <= stream.len(),
                spec_tokens_match(tokens@, stream.take(tokens@.len() as int)),
            ensures
                tokens@.len() >= 1,
                tokens@.last().ttype == TokenType::Eof,
                forall|i: int| 0 <= i < tokens@.len() - 1 ==> (#[trigger] tokens@[i]).ttype
                    != TokenType::Eof,
                spec_tokens_match(tokens@, spec_token_stream(s0, p0)),
            decreases s0.len() - lex.position,
        {
            let ghost pos_before = lex.position as int;
            let ghost k = tokens@.len() as int;
            let tok = lex.next_token();
            proof {
                lemma_next_token_advances(s0, pos_before);
            }
            let ghost m = spec_next_token(s0, pos_before);
            let ghost pre = tokens@;
            let ghost tokg = tok;
            let is_eof = matches!(tok.ttype, TokenType::Eof);
            tokens.push(tok);
            proof {
                assert(spec_token_matches(tokg, m));
                let st = spec_token_stream(s0, pos_before);
                if m.ttype == TokenType::Eof {
                    assert(st == seq![m]);
                    assert(st[0] == m);
                } else {
                    assert(st == seq![m] + spec_token_stream(s0, m.end));
                    assert(st[0] == seq![m][0]);
                    assert(seq![m][0] == m);
                }
                assert(stream.skip(k).len() == st.len());
                assert(stream.skip(k)[0] == st[0]);
                assert(stream.skip(k)[0] == stream[k]);
                assert(stream[k] == m);
                assert(k + 1 <= stream.len());
                assert forall|i: int| 0 <= i < k + 1 implies spec_token_matches(
                    #[trigger] tokens@[i], stream.take(k + 1)[i]) by {
                    if i < k {
                        assert(tokens@[i] == pre[i]);
                        assert(spec_token_matches(pre[i], stream.take(k)[i]));
                        assert(stream.take(k)[i] == stream[i]);
                        assert(stream.take(k + 1)[i] == stream[i]);
                    } else {
                        assert(tokens@[i] == tokg);
                        assert(stream.take(k + 1)[i] == stream[k]);
                    }
                }
                assert(spec_tokens_match(tokens@, stream.take(k + 1)));
            }
            if is_eof {
                proof {
                    assert(spec_token_stream(s0, pos_before) =~= seq![m]);
                    assert(stream.skip(k) =~= seq![m]);
                    assert(stream.len() == k + 1);
                    assert(stream.take(k + 1) =~= stream);
                }
                break;
            }
            proof {
                assert(spec_token_stream(s0, pos_before) =~= seq![m] + spec_token_stream(s0,
                    m.end));
                assert(stream.skip(k) =~= spec_token_stream(s0, pos_before));
                assert forall|i: int| 0 <= i < stream.len() - (k + 1) implies stream.skip(
                    k + 1)[i] == spec_token_stream(s0, m.end)[i] by {
                    assert(stream.skip(k + 1)[i] == stream[k + 1 + i]);
                    assert(stream.skip(k)[i + 1] == stream[k + 1 + i]);
                    assert(spec_token_stream(s0, pos_before)[i + 1] == (seq![m]
                        + spec_token_stream(s0, m.end))[i + 1]);
                }
                assert(stream.skip(k + 1) =~= spec_token_stream(s0, m.end));
            }
        }
        let cur_token = tok_at_vec(&tokens, 0);
        let peek_token = tok_at_vec(&tokens, 1);
        Parser { tokens, idx: 0, errors: Vec::new(), cur_token, peek_token }
    }

    /// The parse errors recorded so far.
    pub fn get_errors(&self) -> (r: &Vec<ParseErr>)
        ensures
            r == &self.errors,
    {
        &self.errors
    }

    /// Parse the whole program: expressions and `let` statements until the
    /// end of input, skipping what does not parse.
    pub fn parse_program(&mut self) -> (prog: Program)
        requires
            old(self).wf(),
        ensures
            final(self).wf(),
            final(self).cur_token.ttype == TokenType::Eof,
    {
        let mut exprs: Vec<NodeType> = Vec::new();
        while !self.cur_token_is(TokenType::Eof)
            invariant
                self.wf(),
            decreases self.tokens@.len() - self.idx,
        {
            let ghost i0 = self.idx;
            if self.cur_token_is(TokenType::Let) {
                let st = self.parse_assign_statement();
                match st {
                    Some(e) => exprs.push(e),
                    None => {}
                }
            } else {
                let e = self.parse_whole_expr();
                match e {
                    Some(e) => exprs.push(e),
                    None => {}
                }
            }
            self.next_token();
        }
        Program { exprs }
    }

    /// Parse one top-level expression, consuming a trailing semicolon.
    fn parse_whole_expr(&mut self) -> (r: Option<NodeType>)
        requires
            old(self).wf(),
        ensures
            final(self).wf(),
            final(self).tokens == old(self).tokens,
            final(self).idx >= old(self).idx,
        decreases old(self).tokens@.len() - old(self).idx, 6int,
    {
        let expr = self.parse_expression(Precedence::Lowest);
        if self.peek_token_is(TokenType::Semicolon) {
            self.next_token();
        }
        expr
    }

    /// Parse `let <name> = <expression>;`.
    fn parse_assign_statement(&mut self) -> (r: Option<NodeType>)
        requires
            old(self).wf(),
        ensures
            final(self).wf(),
            final(self).tokens == old(self).tokens,
            final(self).idx >= old(self).idx,
        decreases old(self).tokens@.len() - old(self).idx, 6int,
    {
        let token = self.cur_token.dup();
        if self.expect_peek(TokenType::Ident).is_none() {
            return None;
        }
        let name = Identifier { token: self.cur_token.dup(), value: self.cur_token.literal
            .clone() };
        if self.expect_peek(TokenType::Assign).is_none() {
            return None;
        }
        self.next_token();
        let value = match self.parse_expression(Precedence::Lowest) {
            Some(v) => v,
            None => {
                return None;
            }
        };
        if self.peek_token_is(TokenType::Semicolon) {
            self.next_token();
        }
        Some(NodeType::AssignStmt(Box::new(AssignStatement { token, name,
            value: Box::new(value) })))
    }

    /// Parse one expression at the given precedence: a prefix part, then
    /// operators as long as they bind tighter.  A token with no prefix
    /// parse yields nothing and records a `NoPrefix` error — never a stop.
    fn parse_expression(&mut self, precedence: Precedence) -> (r: Option<NodeType>)
        requires
            old(self).wf(),
        ensures
            final(self).wf(),
            final(self).tokens == old(self).tokens,
            final(self).idx >= old(self).idx,
            !spec_has_prefix(old(self).cur_token.ttype) ==> r is None && final(self).idx
                == old(self).idx && final(self).errors@.len() == old(self).errors@.len() + 1
                && (final(self).errors@.last() matches ParseErr::NoPrefix(t) && t.ttype
                == old(self).cur_token.ttype && t.literal@ == old(self).cur_token.literal@),
        decreases old(self).tokens@.len() - old(self).idx, 5int,
    {
        let left_exp = match self.prefix(self.cur_token.ttype) {
            Some(pr) => pr,
            None => {
                let t = self.cur_token.dup();
                self.errors.push(ParseErr::NoPrefix(t));
                return None;
            }
        };
        let r = self.parse_infix_chain(left_exp, precedence);
        Some(r)
    }

    /// Extend `left` with infix operators while the lookahead binds
    /// tighter than `precedence`.
    fn parse_infix_chain(&mut self, left: NodeType, precedence: Precedence) -> (r: NodeType)
        requires
            old(self).wf(),
        ensures
            final(self).wf(),
            final(self).tokens == old(self).tokens,
            final(self).idx >= old(self).idx,
        decreases old(self).tokens@.len() - old(self).idx, 4int,
    {
        if !self.peek_token_is(TokenType::Semicolon) && precedence.rank()
            < self.peek_precedence().rank() {
            let ptt = self.peek_token.ttype;
            proof {
                assert(spec_is_infix_token(ptt));
            }
            let next = self.infix(ptt, left);
            self.parse_infix_chain(next, precedence)
        } else {
            left
        }
    }

    /// Parse the continuation of `expr` at the operator or call the
    /// lookahead token opens.
    fn infix(&mut self, token_type: TokenType, expr: NodeType) -> (r: NodeType)
        requires
            old(self).wf(),
            spec_is_infix_token(token_type),
            token_type == old(self).peek_token.ttype,
        ensures
            final(self).wf(),
            final(self).tokens == old(self).tokens,
            final(self).idx > old(self).idx,
        decreases old(self).tokens@.len() - old(self).idx, 3int,
    {
        proof {
            lemma_peek_in_bounds(*old(self));
        }
        match token_type {
            TokenType::Lparen => {
                self.next_token();
                self.parse_call_exp(expr)
            }
            _ => {
                self.next_token();
                self.parse_plus_infix(expr)
            }
        }
    }

    /// Parse the right side of a binary operator whose token is current.
    fn parse_plus_infix(&mut self, left: NodeType) -> (r: NodeType)
        requires
            old(self).wf(),
            old(self).cur_token.ttype != TokenType::Eof,
        ensures
            final(self).wf(),
            final(self).tokens == old(self).tokens,
            final(self).idx >= old(self).idx,
        decreases old(self).tokens@.len() - old(self).idx, 2int,
    {
        let precedence = self.cur_precedence();
        let tok = self.cur_token.dup();
        let operator = tok.literal.clone();
        self.next_token();
        let right = match self.parse_expression(precedence) {
            Some(r) => Some(Box::new(r)),
            None => None,
        };
        NodeType::InfixExp(Box::new(InfixExpression { token: tok, left: Box::new(left),
            operator, right }))
    }

    /// Parse a call's argument list; the `(` token is current.
    fn parse_call_exp(&mut self, func: NodeType) -> (r: NodeType)
        requires
            old(self).wf(),
            old(self).cur_token.ttype == TokenType::Lparen,
        ensures
            final(self).wf(),
            final(self).tokens == old(self).tokens,
            final(self).idx >= old(self).idx,
        decreases old(self).tokens@.len() - old(self).idx, 2int,
    {
        let token = self.cur_token.dup();
        let args = self.parse_expr_list(TokenType::Rparen);
        NodeType::CallExp(Box::new(CallExpression { token, func: Box::new(func), args }))
    }

    /// Parse a comma-separated expression list up to `end`; on a missing
    /// closer the whole list is discarded.
    fn parse_expr_list(&mut self, end: TokenType) -> (r: Vec<NodeType>)
        requires
            old(self).wf(),
            old(self).cur_token.ttype != TokenType::Eof,
        ensures
            final(self).wf(),
            final(self).tokens == old(self).tokens,
            final(self).idx >= old(self).idx,
        decreases old(self).tokens@.len() - old(self).idx, 1int,
    {
        let mut args: Vec<NodeType> = Vec::new();
        if self.peek_token_is(end) {
            self.next_token();
            return args;
        }
        proof {
            lemma_cur_in_bounds(*old(self));
        }
        self.next_token();
        match self.parse_expression(Precedence::Lowest) {
            Some(ex) => args.push(ex),
            None => {}
        }
        match self.parse_more_args(end) {
            Some(mut more) => {
                args.append(&mut more);
                args
            }
            None => Vec::new(),
        }
    }

    /// Parse the remaining `, <expression>` items of an argument list,
    /// then the closer; a missing closer discards the whole list.
    fn parse_more_args(&mut self, end: TokenType) -> (r: Option<Vec<NodeType>>)
        requires
            old(self).wf(),
        ensures
            final(self).wf(),
            final(self).tokens == old(self).tokens,
            final(self).idx >= old(self).idx,
        decreases old(self).tokens@.len() - old(self).idx, 0int,
    {
        let mut args: Vec<NodeType> = Vec::new();
        if self.peek_token_is(TokenType::Comma) {
            proof {
                lemma_peek_in_bounds(*old(self));
            }
            self.next_token();
            self.next_token();
            match self.parse_expression(Precedence::Lowest) {
                Some(ex) => args.push(ex),
                None => {}
            }
            match self.parse_more_args(end) {
                Some(mut more) => {
                    args.append(&mut more);
                    Some(args)
                }
                None => None,
            }
        } else {
            if self.expect_peek(end).is_none() {
                return None;
            }
            Some(args)
        }
    }

    /// Parse the token in prefix position: a grouped expression, an
    /// integer, a prefix operator, or a name.  Anything else has no prefix
    /// parse and is left untouched; the name and integer cases are pinned.
    fn prefix(&mut self, token_type: TokenType) -> (r: Option<NodeType>)
        requires
            old(self).wf(),
            token_type == old(self).cur_token.ttype,
        ensures
            final(self).wf(),
            final(self).tokens == old(self).tokens,
            final(self).idx >= old(self).idx,
            !spec_has_prefix(token_type) ==> r is None && *final(self) == *old(self),
            token_type == TokenType::Ident ==> (r matches Some(e) && (e matches
                NodeType::Ident(b) && b.token == old(self).cur_token && b.value@ == old(
                self).cur_token.literal@) && *final(self) == *old(self)),
            token_type == TokenType::Int ==> final(self).idx == old(self).idx && ({
                let l = old(self).cur_token.literal@;
                if spec_all_digits(l) && l.len() > 0 && spec_digits_val(l) <= i32::MAX {
                    r matches Some(e) && (e matches NodeType::IntLit(b) && b.value
                        == spec_digits_val(l) && b.token == old(self).cur_token) && final(
                        self).errors == old(self).errors
                } else {
                    r is None && final(self).errors@.len() == old(self).errors@.len() + 1
                }
            }),
        decreases old(self).tokens@.len() - old(self).idx, 4int,
    {
        match token_type {
            TokenType::Lparen => self.parse_grouped_expr(),
            TokenType::Int => self.parse_int_lit(),
            TokenType::Minus => self.parse_prefix_expr(),
            TokenType::Asterisk => self.parse_prefix_expr(),
            TokenType::Ident => Some(self.parse_ident()),
            _ => None,
        }
    }

    /// Parse a name in prefix position.
    fn parse_ident(&self) -> (r: NodeType)
        ensures
            r matches NodeType::Ident(b) && b.token == self.cur_token && b.value@
                == self.cur_token.literal@,
    {
        let tok = self.cur_token.dup();
        let lit = tok.literal.clone();
        NodeType::Ident(Box::new(Identifier { token: tok, value: lit }))
    }

    /// Parse `-`/`*` in prefix position and the expression after it.
    fn parse_prefix_expr(&mut self) -> (r: Option<NodeType>)
        requires
            old(self).wf(),
            old(self).cur_token.ttype == TokenType::Minus || old(self).cur_token.ttype
                == TokenType::Asterisk,
        ensures
            final(self).wf(),
            final(self).tokens == old(self).tokens,
            final(self).idx >= old(self).idx,
        decreases old(self).tokens@.len() - old(self).idx, 3int,
    {
        let cur_token = self.cur_token.dup();
        let operator = cur_token.literal.clone();
        proof {
            lemma_cur_in_bounds(*old(self));
        }
        self.next_token();
        let right = match self.parse_expression(Precedence::Prefix) {
            Some(r) => r,
            None => {
                return None;
            }
        };
        Some(NodeType::PrefixExpr(Box::new(PrefixExpression { token: cur_token, operator,
            right: Box::new(right) })))
    }

    /// Parse an integer literal: the current token's spelling read as a
    /// number.  A spelling that is not digits, or does not fit, records an
    /// `IntConv` error.
    fn parse_int_lit(&mut self) -> (r: Option<NodeType>)
        requires
            old(self).wf(),
        ensures
            final(self).wf(),
            final(self).tokens == old(self).tokens,
            final(self).idx == old(self).idx,
            ({
                let l = old(self).cur_token.literal@;
                if spec_all_digits(l) && l.len() > 0 && spec_digits_val(l) <= i32::MAX {
                    &&& r matches Some(e)
                    &&& (e matches NodeType::IntLit(b) && b.value == spec_digits_val(l)
                        && b.token == old(self).cur_token)
                    &&& final(self).errors == old(self).errors
                } else {
                    &&& r is None
                    &&& final(self).errors@.len() == old(self).errors@.len() + 1
                    &&& (final(self).errors@.last() matches ParseErr::IntConv(lit) && lit@
                        == l)
                }
            }),
    {
        let ghost l = self.cur_token.literal@;
        let n = self.cur_token.literal.as_str().unicode_len();
        if n == 0 {
            let lit = self.cur_token.literal.clone();
            self.errors.push(ParseErr::IntConv(lit));
            return None;
        }
        let mut value: u64 = 0;
        let mut i: usize = 0;
        while i < n
            invariant
                self.wf(),
                *self == *old(self),
                l == self.cur_token.literal@,
                n == l.len(),
                i <= n,
                value <= i32::MAX,
                spec_all_digits(l.subrange(0, i as int)),
                value == spec_digits_val(l.subrange(0, i as int)),
            decreases n - i,
        {
            let c = self.cur_token.literal.as_str().get_char(i);
            if c < '0' || c > '9' {
                proof {
                    assert(!('0' <= l[i as int] && l[i as int] <= '9'));
                }
                let lit = self.cur_token.literal.clone();
                self.errors.push(ParseErr::IntConv(lit));
                return None;
            }
            let d: u64 = (c as u32 as u64) - ('0' as u32 as u64);
            proof {
                assert(d == spec_digit_val(l[i as int]));
                assert(l.subrange(0, i + 1).drop_last() =~= l.subrange(0, i as int));
                assert(l.subrange(0, i + 1).last() == l[i as int]);
            }
            let next: u64 = value * 10 + d;
            if next > 0x7fff_ffff {
                proof {
                    assert(spec_digits_val(l.subrange(0, i + 1)) == next);
                    assert(spec_all_digits(l.subrange(0, i + 1)));
                    if spec_all_digits(l) {
                        crate::interpreter::text::lemma_digits_val_extend(l, i + 1);
                        assert(l.subrange(0, l.len() as int) =~= l);
                    }
                }
                let lit = self.cur_token.literal.clone();
                self.errors.push(ParseErr::IntConv(lit));
                return None;
            }
            value = next;
            i = i + 1;
        }
        proof {
            assert(l.subrange(0, l.len() as int) =~= l);
        }
        Some(NodeType::IntLit(Box::new(IntegerLiteral { token: self.cur_token.dup(),
            value: value as i32 })))
    }

    /// Parse `( <expression> )`.
    fn parse_grouped_expr(&mut self) -> (r: Option<NodeType>)
        requires
            old(self).wf(),
            old(self).cur_token.ttype == TokenType::Lparen,
        ensures
            final(self).wf(),
            final(self).tokens == old(self).tokens,
            final(self).idx >= old(self).idx,
        decreases old(self).tokens@.len() - old(self).idx, 3int,
    {
        proof {
            lemma_cur_in_bounds(*old(self));
        }
        self.next_token();
        let exp = self.parse_expression(Precedence::Lowest);
        if self.expect_peek(TokenType::Rparen).is_none() {
            return None;
        }
        exp
    }

    /// Step the cursor: the lookahead token becomes current.
    fn next_token(&mut self)
        requires
            old(self).wf(),
        ensures
            final(self).wf(),
            final(self).tokens == old(self).tokens,
            final(self).errors == old(self).errors,
            final(self).idx == if old(self).idx < old(self).tokens@.len() {
                old(self).idx + 1
            } else {
                old(self).idx as int
            },
            old(self).cur_token.ttype != TokenType::Eof ==> final(self).idx == old(self).idx
                + 1,
    {
        if self.idx < self.tokens.len() {
            self.idx = self.idx + 1;
        }
        self.cur_token = tok_at_vec(&self.tokens, self.idx);
        let at = if self.idx < usize::MAX { self.idx + 1 } else { self.idx };
        self.peek_token = tok_at_vec(&self.tokens, at);
    }

    /// Whether the lookahead token has the given kind.
    fn peek_token_is(&self, token_type: TokenType) -> (r: bool)
        ensures
            r == (self.peek_token.ttype == token_type),
    {
        self.peek_token.ttype == token_type
    }

    /// Whether the current token has the given kind.
    fn cur_token_is(&self, token_type: TokenType) -> (r: bool)
        ensures
            r == (self.cur_token.ttype == token_type),
    {
        self.cur_token.ttype == token_type
    }

    /// The binding strength of the lookahead token.
    fn peek_precedence(&self) -> (r: Precedence)
        ensures
            r == spec_precedence_of(self.peek_token.ttype),
    {
        precedence_of(self.peek_token.ttype)
    }

    /// The binding strength of the current token.
    fn cur_precedence(&self) -> (r: Precedence)
        ensures
            r == spec_precedence_of(self.cur_token.ttype),
    {
        precedence_of(self.cur_token.ttype)
    }

    /// Step past the lookahead token if it has the expected kind; record a
    /// `Peek` error and stay put otherwise.
    fn expect_peek(&mut self, token_type: TokenType) -> (r: Option<()>)
        requires
            old(self).wf(),
        ensures
            final(self).wf(),
            final(self).tokens == old(self).tokens,
            final(self).idx >= old(self).idx,
            r is Some <==> old(self).peek_token.ttype == token_type,
            r is Some ==> final(self).idx == if old(self).idx < old(self).tokens@.len() {
                old(self).idx + 1
            } else {
                old(self).idx as int
            } && final(self).errors == old(self).errors,
            r is None ==> final(self).idx == old(self).idx && final(self).errors@.len() == old(
                self).errors@.len() + 1,
    {
        if self.peek_token_is(token_type) {
            self.next_token();
            return Some(());
        }
        self.peek_err(token_type);
        None
    }

    /// Record that the lookahead token did not have the expected kind.
    fn peek_err(&mut self, token_type: TokenType)
        requires
            old(self).wf(),
        ensures
            final(self).wf(),
            final(self).tokens == old(self).tokens,
            final(self).idx == old(self).idx,
            final(self).cur_token == old(self).cur_token,
            final(self).peek_token == old(self).peek_token,
            final(self).errors@.len() == old(self).errors@.len() + 1,
            final(self).errors@.last() matches ParseErr::Peek(t, _) && t == token_type,
    {
        let mut msg = String::from_str("expected next token to be ");
        let expected = token_type_name(token_type);
        msg.append(expected.as_str());
        msg.append(", got ");
        let got = token_type_name(self.peek_token.ttype);
        msg.append(got.as_str());
        msg.append(" instead");
        self.errors.push(ParseErr::Peek(token_type, msg));
    }
}

/// The token of `tokens` at `i`, saturating at the final token.
fn tok_at_vec(tokens: &Vec<Token>, i: usize) -> (r: Token)
    requires
        tokens@.len() > 0,
    ensures
        spec_token_eqv(r, spec_tok_at(tokens@, i as int)),
{
    if i < tokens.len() {
        tokens[i].dup()
    } else {
        tokens[tokens.len() - 1].dup()
    }
}

/// The name of a token kind, as error messages spell it.
pub fn token_type_name(t: TokenType) -> (r: String) {
    match t {
        TokenType::Illegal => String::from_str("Illegal"),
        TokenType::Eof => String::from_str("Eof"),
        TokenType::Ident => String::from_str("Ident"),
        TokenType::Lt => String::from_str("Lt"),
        TokenType::Gt => String::from_str("Gt"),
        TokenType::Int => String::from_str("Int"),
        TokenType::Plus => String::from_str("Plus"),
        TokenType::Asterisk => String::from_str("Asterisk"),
        TokenType::Slash => String::from_str("Slash"),
        TokenType::Minus => String::from_str("Minus"),
        TokenType::Eq => String::from_str("Eq"),
        TokenType::NotEq => String::from_str("NotEq"),
        TokenType::Comma => String::from_str("Comma"),
        TokenType::Semicolon => String::from_str("Semicolon"),
        TokenType::Colon => String::from_str("Colon"),
        TokenType::Lparen => String::from_str("Lparen"),
        TokenType::Rparen => String::from_str("Rparen"),
        TokenType::Lbrace => String::from_str("Lbrace"),
        TokenType::Rbrace => String::from_str("Rbrace"),
        TokenType::Lbracket => String::from_str("Lbracket"),
        TokenType::Rbracket => String::from_str("Rbracket"),
        TokenType::If => String::from_str("If"),
        TokenType::Assign => String::from_str("Assign"),
        TokenType::Let => String::from_str("Let"),
    }
}

} // verus!
