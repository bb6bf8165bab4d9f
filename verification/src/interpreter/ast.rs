//! The abstract syntax of the score language.
//!
//! Every node is a case of the `NodeType` sum: identifiers, integer
//! literals, prefix and infix expressions, call expressions, and `let`
//! assignments.  A program is the list of its top-level expressions.

use vstd::prelude::*;

use crate::interpreter::text::push_char;
use crate::interpreter::token::Token;

verus! {

/// A syntax node.
#[derive(Debug)]
pub enum NodeType {
    CallExp(Box<CallExpression>),
    InfixExp(Box<InfixExpression>),
    IntLit(Box<IntegerLiteral>),
    Ident(Box<Identifier>),
    PrefixExpr(Box<PrefixExpression>),
    AssignStmt(Box<AssignStatement>),
}

/// A name, as written.
#[derive(Debug)]
pub struct Identifier {
    pub token: Token,
    pub value: String,
}

impl Identifier {
    /// The name itself.
    pub fn get_value(&self) -> (r: String)
        ensures
            r@ == self.value@,
    {
        self.value.clone()
    }

    /// The spelling of the token the name came from.
    pub fn token_literal(&self) -> (r: String)
        ensures
            r@ == self.token.literal@,
    {
        self.token.literal.clone()
    }

    /// An equal copy of this identifier.
    pub fn dup(&self) -> (r: Self)
        ensures
            r.token == self.token,
            r.value == self.value,
    {
        Identifier { token: self.token.dup(), value: self.value.clone() }
    }
}

/// A call: a callee and its arguments, as in `play(c, e)`.
#[derive(Debug)]
pub struct CallExpression {
    pub token: Token,
    pub func: Box<NodeType>,
    pub args: Vec<NodeType>,
}

/// A binary operation, as in `1 + 2`; a failed parse can leave the right
/// side empty.
#[derive(Debug)]
pub struct InfixExpression {
    pub token: Token,
    pub left: Box<NodeType>,
    pub operator: String,
    pub right: Option<Box<NodeType>>,
}

/// An integer literal.
#[derive(Debug)]
pub struct IntegerLiteral {
    pub token: Token,
    pub value: i32,
}

impl IntegerLiteral {
    /// The literal's value.
    pub fn get_value(&self) -> (r: i32)
        ensures
            r == self.value,
    {
        self.value
    }
}

/// A prefix operation, as in `-5`.
#[derive(Debug)]
pub struct PrefixExpression {
    pub token: Token,
    pub operator: String,
    pub right: Box<NodeType>,
}

/// A `let` statement: a name bound to the value of an expression.
#[derive(Debug)]
pub struct AssignStatement {
    pub token: Token,
    pub name: Identifier,
    pub value: Box<NodeType>,
}

/// A parsed program: its top-level expressions in order.
#[derive(Debug)]
pub struct Program {
    pub exprs: Vec<NodeType>,
}

impl Program {
    /// The text of the program's first expression, empty for an empty
    /// program.
    pub fn token_literal(&self) -> (r: String)
        ensures
            self.exprs@.len() == 0 ==> r@ == Seq::<char>::empty(),
    {
        if self.exprs.len() > 0 {
            (&self.exprs[0]).to_string()
        } else {
            String::new()
        }
    }
}

impl NodeType {
    /// The node rendered back as text, parenthesized the way it parsed.
    pub fn to_string(&self) -> String
        decreases *self,
    {
        match self {
            NodeType::Ident(b) => b.value.clone(),
            NodeType::IntLit(b) => b.token.literal.clone(),
            NodeType::PrefixExpr(b) => {
                let mut out = String::new();
                push_char(&mut out, '(');
                out.append(b.operator.as_str());
                proof {
                    assert(decreases_to!(*self => *b.right));
                }
                let right = (&*b.right).to_string();
                out.append(right.as_str());
                push_char(&mut out, ')');
                out
            }
            NodeType::InfixExp(b) => {
                let mut out = String::new();
                push_char(&mut out, '(');
                proof {
                    assert(decreases_to!(*self => *b.left));
                }
                let left = (&*b.left).to_string();
                out.append(left.as_str());
                push_char(&mut out, ' ');
                out.append(b.operator.as_str());
                push_char(&mut out, ' ');
                match &b.right {
                    Some(r) => {
                        proof {
                            assert(decreases_to!(*self => **r));
                        }
                        let right = (&**r).to_string();
                        out.append(right.as_str());
                    }
                    None => {}
                }
                push_char(&mut out, ')');
                out
            }
            NodeType::CallExp(b) => {
                let mut out = String::new();
                proof {
                    assert(decreases_to!(*self => *b.func));
                }
                let func = (&*b.func).to_string();
                out.append(func.as_str());
                push_char(&mut out, '(');
                let n = b.args.len();
                let mut i: usize = 0;
                proof {
                    assert(decreases_to!(*self => **b));
                }
                while i < n
                    invariant
                        n == b.args@.len(),
                        i <= n,
                        decreases_to!(*self => **b),
                    decreases n - i,
                {
                    proof {
                        assert(decreases_to!(**b => (**b).args@[i as int]));
                        assert(decreases_to!(*self => b.args@[i as int]));
                    }
                    let arg = (&b.args[i]).to_string();
                    out.append(arg.as_str());
                    if i + 1 < n {
                        push_char(&mut out, ',');
                        push_char(&mut out, ' ');
                    }
                    i = i + 1;
                }
                push_char(&mut out, ')');
                out
            }
            NodeType::AssignStmt(b) => {
                let mut out = String::new();
                out.append("let ");
                out.append(b.name.value.as_str());
                out.append(" = ");
                proof {
                    assert(decreases_to!(*self => *b.value));
                }
                let value = (&*b.value).to_string();
                out.append(value.as_str());
                out
            }
        }
    }

    /// The spelling of the token the node came from.
    pub fn token_literal(&self) -> (r: String)
        ensures
            r@ == self.spec_token().literal@,
    {
        match self {
            NodeType::Ident(b) => b.token.literal.clone(),
            NodeType::IntLit(b) => b.token.literal.clone(),
            NodeType::PrefixExpr(b) => b.token.literal.clone(),
            NodeType::InfixExp(b) => b.token.literal.clone(),
            NodeType::CallExp(b) => b.token.literal.clone(),
            NodeType::AssignStmt(b) => b.token.literal.clone(),
        }
    }

    /// The token the node came from.
    pub open spec fn spec_token(&self) -> Token {
        match self {
            NodeType::Ident(b) => b.token,
            NodeType::IntLit(b) => b.token,
            NodeType::PrefixExpr(b) => b.token,
            NodeType::InfixExp(b) => b.token,
            NodeType::CallExp(b) => b.token,
            NodeType::AssignStmt(b) => b.token,
        }
    }
}

} // verus!
