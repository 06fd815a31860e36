use vstd::prelude::*;

use crate::compiler::frontend::token::{Position, Token, TokenKind};
use crate::compiler::frontend::types::Type;
use crate::compiler::frontend::variable::Variable;

verus! {

/// A function definition: its name, where it is defined, its statements,
/// its frame size, its return type, and its locals and parameters.
#[derive(Debug)]
pub struct Function {
    pub name: String,
    pub def_position: Position,
    pub stmts: Vec<Node>,
    pub frame_size: usize,
    pub return_type: Type,
    pub local_map: Vec<(String, Variable)>,
    pub params: Vec<(String, Variable)>,
}

impl Function {
    /// A function with no statements, locals or parameters yet.
    pub fn init(name: String, pos: Position, return_type: Type) -> (f: Self)
        ensures
            f.name == name,
            f.def_position == pos,
            f.stmts@.len() == 0,
            f.frame_size == 0,
            f.return_type == return_type,
            f.local_map@.len() == 0,
            f.params@.len() == 0,
    {
        Self { name, def_position: pos, stmts: Vec::new(), frame_size: 0, return_type, local_map: Vec::new(), params: Vec::new() }
    }
}

/// A node of the syntax tree: where it starts, what it is, and its type.
#[derive(Debug)]
pub struct Node {
    pub position: Position,
    pub kind: NodeKind,
    pub ctype: Type,
}

/// The kinds of syntax-tree nodes: statements, then expressions.
#[derive(Debug)]
pub enum NodeKind {
    RETURNSTMT(Box<Node>),
    GOTOSTMT(String),
    LABELEDSTMT(String, Box<Node>),
    EXPRSTMT(Box<Node>),
    DECLARATION(String, Type),
    COMPOUNDSTMT(Vec<Node>),
    IFSTMT(Box<Node>, Box<Node>),
    IFELSESTMT(Box<Node>, Box<Node>, Box<Node>),
    WHILESTMT(Box<Node>, Box<Node>),
    DOWHILESTMT(Box<Node>, Box<Node>),
    FORSTMT(Box<Node>, Box<Node>, Box<Node>, Box<Node>),
    NOP,
    ASSIGN(Box<Node>, Box<Node>),
    ADD(Box<Node>, Box<Node>),
    SUB(Box<Node>, Box<Node>),
    MUL(Box<Node>, Box<Node>),
    DIV(Box<Node>, Box<Node>),
    NEGATIVE(Box<Node>),
    CALL(Box<Node>, Vec<Node>),
    INTEGER(i128),
    IDENTIFIER(String),
    INVALID,
}

/// The precedence levels of binary operators.
pub enum Priority {
    ADDITIVE,
    MULTIPLICATIVE,
}

/// A syntax-tree node as a mathematical value: names as text, lists as sequences.
pub struct NodeV {
    pub position: Position,
    pub kind: NodeKindV,
    pub ctype: Type,
}

/// The kinds of `NodeV`, one for each kind of node.
pub enum NodeKindV {
    Return(Box<NodeV>),
    Goto(Seq<char>),
    Labeled(Seq<char>, Box<NodeV>),
    ExprStmt(Box<NodeV>),
    Declaration(Seq<char>, Type),
    Compound(Seq<NodeV>),
    If(Box<NodeV>, Box<NodeV>),
    IfElse(Box<NodeV>, Box<NodeV>, Box<NodeV>),
    While(Box<NodeV>, Box<NodeV>),
    DoWhile(Box<NodeV>, Box<NodeV>),
    For(Box<NodeV>, Box<NodeV>, Box<NodeV>, Box<NodeV>),
    Nop,
    Assign(Box<NodeV>, Box<NodeV>),
    Add(Box<NodeV>, Box<NodeV>),
    Sub(Box<NodeV>, Box<NodeV>),
    Mul(Box<NodeV>, Box<NodeV>),
    Div(Box<NodeV>, Box<NodeV>),
    Negative(Box<NodeV>),
    Call(Box<NodeV>, Seq<NodeV>),
    Integer(i128),
    Identifier(Seq<char>),
    Invalid,
}

/// A node as a value.
pub open spec fn node_v(n: Node) -> NodeV
    decreases n,
{
    let kind = match n.kind {
        NodeKind::RETURNSTMT(e) => NodeKindV::Return(Box::new(node_v(*e))),
        NodeKind::GOTOSTMT(l) => NodeKindV::Goto(l@),
        NodeKind::LABELEDSTMT(l, s) => NodeKindV::Labeled(l@, Box::new(node_v(*s))),
        NodeKind::EXPRSTMT(e) => NodeKindV::ExprStmt(Box::new(node_v(*e))),
        NodeKind::DECLARATION(name, ty) => NodeKindV::Declaration(name@, ty),
        NodeKind::COMPOUNDSTMT(v) => NodeKindV::Compound(nodes_v(v@)),
        NodeKind::IFSTMT(c, s) => NodeKindV::If(Box::new(node_v(*c)), Box::new(node_v(*s))),
        NodeKind::IFELSESTMT(c, s, a) => NodeKindV::IfElse(Box::new(node_v(*c)), Box::new(node_v(*s)), Box::new(node_v(*a))),
        NodeKind::WHILESTMT(c, s) => NodeKindV::While(Box::new(node_v(*c)), Box::new(node_v(*s))),
        NodeKind::DOWHILESTMT(s, c) => NodeKindV::DoWhile(Box::new(node_v(*s)), Box::new(node_v(*c))),
        NodeKind::FORSTMT(a, b, c, s) => NodeKindV::For(
            Box::new(node_v(*a)),
            Box::new(node_v(*b)),
            Box::new(node_v(*c)),
            Box::new(node_v(*s)),
        ),
        NodeKind::NOP => NodeKindV::Nop,
        NodeKind::ASSIGN(l, r) => NodeKindV::Assign(Box::new(node_v(*l)), Box::new(node_v(*r))),
        NodeKind::ADD(l, r) => NodeKindV::Add(Box::new(node_v(*l)), Box::new(node_v(*r))),
        NodeKind::SUB(l, r) => NodeKindV::Sub(Box::new(node_v(*l)), Box::new(node_v(*r))),
        NodeKind::MUL(l, r) => NodeKindV::Mul(Box::new(node_v(*l)), Box::new(node_v(*r))),
        NodeKind::DIV(l, r) => NodeKindV::Div(Box::new(node_v(*l)), Box::new(node_v(*r))),
        NodeKind::NEGATIVE(e) => NodeKindV::Negative(Box::new(node_v(*e))),
        NodeKind::CALL(f, args) => NodeKindV::Call(Box::new(node_v(*f)), nodes_v(args@)),
        NodeKind::INTEGER(v) => NodeKindV::Integer(v),
        NodeKind::IDENTIFIER(name) => NodeKindV::Identifier(name@),
        NodeKind::INVALID => NodeKindV::Invalid,
    };
    NodeV { position: n.position, kind, ctype: n.ctype }
}

/// A list of nodes as values.
pub open spec fn nodes_v(s: Seq<Node>) -> Seq<NodeV>
    decreases s,
{
    if s.len() == 0 {
        Seq::empty()
    } else {
        nodes_v(s.drop_last()).push(node_v(s.last()))
    }
}

/// The type every new node starts with.
pub open spec fn unknown_type() -> Type {
    Type { kind: crate::compiler::frontend::types::TypeKind::UNKNOWN, byte_size: 4 }
}

/// A node value with the starting type.
pub open spec fn mk(pos: Position, kind: NodeKindV) -> NodeV {
    NodeV { position: pos, kind, ctype: unknown_type() }
}

/// The binary node a `+`, `-`, `*` or `/` token builds.
pub open spec fn binary_v(op: TokenKind, left: NodeV, right: NodeV) -> NodeKindV {
    match op {
        TokenKind::PLUS => NodeKindV::Add(Box::new(left), Box::new(right)),
        TokenKind::MINUS => NodeKindV::Sub(Box::new(left), Box::new(right)),
        TokenKind::ASTERISK => NodeKindV::Mul(Box::new(left), Box::new(right)),
        _ => NodeKindV::Div(Box::new(left), Box::new(right)),
    }
}

/// The view of a list of nodes grows by the view of what is pushed.
pub proof fn lemma_nodes_v_push(s: Seq<Node>, n: Node)
    ensures
        nodes_v(s.push(n)) == nodes_v(s).push(node_v(n)),
{
    assert(s.push(n).drop_last() =~= s);
}

/// The view of a list has one entry per node.
pub proof fn lemma_nodes_v_len(s: Seq<Node>)
    ensures
        nodes_v(s).len() == s.len(),
        forall|i: int| 0 <= i < s.len() ==> #[trigger] nodes_v(s)[i] == node_v(s[i]),
    decreases s.len(),
{
    if s.len() > 0 {
        lemma_nodes_v_len(s.drop_last());
        assert forall|i: int| 0 <= i < s.len() implies #[trigger] nodes_v(s)[i] == node_v(s[i]) by {
            if i < s.len() - 1 {
                assert(nodes_v(s.drop_last())[i] == node_v(s.drop_last()[i]));
            }
        }
    }
}

impl Node {
    /// A node of the given kind at `pos`, of unknown type.
    pub fn new(pos: Position, kind: NodeKind) -> (n: Self)
        ensures
            n.position == pos,
            n.kind == kind,
            n.ctype == unknown_type(),
    {
        Self { position: pos, kind, ctype: Type::new_unknown() }
    }

    /// `label_name: stmt`.
    pub fn new_labeled(pos: Position, label_name: String, stmt: Node) -> (n: Self)
        ensures
            node_v(n) == mk(pos, NodeKindV::Labeled(label_name@, Box::new(node_v(stmt)))),
    {
        Self::new(pos, NodeKind::LABELEDSTMT(label_name, Box::new(stmt)))
    }

    /// `goto label_name;`.
    pub fn new_goto(pos: Position, label_name: String) -> (n: Self)
        ensures
            node_v(n) == mk(pos, NodeKindV::Goto(label_name@)),
    {
        Self::new(pos, NodeKind::GOTOSTMT(label_name))
    }

    /// `expr;`.
    pub fn new_exprstmt(pos: Position, expr: Node) -> (n: Self)
        ensures
            node_v(n) == mk(pos, NodeKindV::ExprStmt(Box::new(node_v(expr)))),
    {
        Self::new(pos, NodeKind::EXPRSTMT(Box::new(expr)))
    }

    /// A declaration of `name` of type `ty`.
    pub fn new_declaration(pos: Position, name: String, ty: Type) -> (n: Self)
        ensures
            node_v(n) == mk(pos, NodeKindV::Declaration(name@, ty)),
    {
        Self::new(pos, NodeKind::DECLARATION(name, ty))
    }

    /// `lvalue = rvalue`.
    pub fn new_assign(pos: Position, lvalue: Node, rvalue: Node) -> (n: Self)
        ensures
            node_v(n) == mk(pos, NodeKindV::Assign(Box::new(node_v(lvalue)), Box::new(node_v(rvalue)))),
    {
        Self::new(pos, NodeKind::ASSIGN(Box::new(lvalue), Box::new(rvalue)))
    }

    /// `return expr;`.
    pub fn new_return(pos: Position, expr: Node) -> (n: Self)
        ensures
            node_v(n) == mk(pos, NodeKindV::Return(Box::new(node_v(expr)))),
    {
        Self::new(pos, NodeKind::RETURNSTMT(Box::new(expr)))
    }

    /// The binary node for an operator token, at the token's position.
    pub fn new_binary_node(tok: &Token, left: Node, right: Node) -> (n: Self)
        requires
            tok.kind is PLUS || tok.kind is MINUS || tok.kind is ASTERISK || tok.kind is SLASH,
        ensures
            node_v(n) == mk(tok.position, binary_v(tok.kind, node_v(left), node_v(right))),
    {
        let node_kind = match tok.kind {
            TokenKind::PLUS => NodeKind::ADD(Box::new(left), Box::new(right)),
            TokenKind::MINUS => NodeKind::SUB(Box::new(left), Box::new(right)),
            TokenKind::ASTERISK => NodeKind::MUL(Box::new(left), Box::new(right)),
            _ => NodeKind::DIV(Box::new(left), Box::new(right)),
        };
        Self::new(tok.position, node_kind)
    }

    /// The negation of `inner`, at the operator token's position.
    pub fn new_unary_node(tok: &Token, inner: Node) -> (n: Self)
        ensures
            node_v(n) == mk(tok.position, NodeKindV::Negative(Box::new(node_v(inner)))),
    {
        Self::new(tok.position, NodeKind::NEGATIVE(Box::new(inner)))
    }

    /// An empty node, at (0, 0).
    pub fn new_nop() -> (n: Self)
        ensures
            node_v(n) == mk((0, 0), NodeKindV::Nop),
    {
        Self::new((0, 0), NodeKind::NOP)
    }

    /// `{ stmts }`.
    pub fn new_compound(pos: Position, stmts: Vec<Node>) -> (n: Self)
        ensures
            node_v(n) == mk(pos, NodeKindV::Compound(nodes_v(stmts@))),
    {
        Self::new(pos, NodeKind::COMPOUNDSTMT(stmts))
    }

    /// `if (cond) stmt`.
    pub fn new_if(pos: Position, cond: Node, stmt: Node) -> (n: Self)
        ensures
            node_v(n) == mk(pos, NodeKindV::If(Box::new(node_v(cond)), Box::new(node_v(stmt)))),
    {
        Self::new(pos, NodeKind::IFSTMT(Box::new(cond), Box::new(stmt)))
    }

    /// `if (cond) stmt else alt`.
    pub fn new_if_else(pos: Position, cond: Node, stmt: Node, alt: Node) -> (n: Self)
        ensures
            node_v(n) == mk(
                pos,
                NodeKindV::IfElse(Box::new(node_v(cond)), Box::new(node_v(stmt)), Box::new(node_v(alt))),
            ),
    {
        Self::new(pos, NodeKind::IFELSESTMT(Box::new(cond), Box::new(stmt), Box::new(alt)))
    }

    /// `while (cond) stmt`.
    pub fn new_while(pos: Position, cond: Node, stmt: Node) -> (n: Self)
        ensures
            node_v(n) == mk(pos, NodeKindV::While(Box::new(node_v(cond)), Box::new(node_v(stmt)))),
    {
        Self::new(pos, NodeKind::WHILESTMT(Box::new(cond), Box::new(stmt)))
    }

    /// `do stmt while (cond);`.
    pub fn new_do_while(pos: Position, stmt: Node, cond: Node) -> (n: Self)
        ensures
            node_v(n) == mk(pos, NodeKindV::DoWhile(Box::new(node_v(stmt)), Box::new(node_v(cond)))),
    {
        Self::new(pos, NodeKind::DOWHILESTMT(Box::new(stmt), Box::new(cond)))
    }

    /// `for (clause; cond; step) stmt`.
    pub fn new_for(pos: Position, clause: Node, cond: Node, step: Node, stmt: Node) -> (n: Self)
        ensures
            node_v(n) == mk(
                pos,
                NodeKindV::For(
                    Box::new(node_v(clause)),
                    Box::new(node_v(cond)),
                    Box::new(node_v(step)),
                    Box::new(node_v(stmt)),
                ),
            ),
    {
        Self::new(pos, NodeKind::FORSTMT(Box::new(clause), Box::new(cond), Box::new(step), Box::new(stmt)))
    }

    /// A call of `callee` with `args`.
    pub fn new_call(pos: Position, callee: Node, args: Vec<Node>) -> (n: Self)
        ensures
            node_v(n) == mk(pos, NodeKindV::Call(Box::new(node_v(callee)), nodes_v(args@))),
    {
        Self::new(pos, NodeKind::CALL(Box::new(callee), args))
    }

    /// The name of an identifier node; the empty name for any other node.
    pub fn ident_name(&self) -> (s: String)
        ensures
            s@ == (match self.kind {
                NodeKind::IDENTIFIER(name) => name@,
                _ => Seq::empty(),
            }),
    {
        match &self.kind {
            NodeKind::IDENTIFIER(name) => name.clone(),
            _ => String::new(),
        }
    }
}

/// A deep copy of a list of nodes.
pub fn duplicate_nodes(v: &Vec<Node>) -> (c: Vec<Node>)
    ensures
        nodes_v(c@) == nodes_v(v@),
    decreases v, 0int,
{
    let mut c: Vec<Node> = Vec::new();
    let mut i: usize = 0;
    while i < v.len()
        invariant
            0 <= i <= v@.len(),
            nodes_v(c@) == nodes_v(v@.take(i as int)),
        decreases v@.len() - i,
    {
        assert(decreases_to!(v => v@[i as int]));
        let d = v[i].duplicate();
        proof {
            lemma_nodes_v_push(c@, d);
            assert(v@.take(i + 1) =~= v@.take(i as int).push(v@[i as int]));
            lemma_nodes_v_push(v@.take(i as int), v@[i as int]);
        }
        c.push(d);
        i = i + 1;
    }
    assert(v@.take(v@.len() as int) =~= v@);
    c
}

impl Node {
    /// A deep copy of the node.
    pub fn duplicate(&self) -> (c: Node)
        ensures
            node_v(c) == node_v(*self),
        decreases self, 1int,
    {
        let kind = match &self.kind {
            NodeKind::RETURNSTMT(e) => NodeKind::RETURNSTMT(Box::new(e.duplicate())),
            NodeKind::GOTOSTMT(l) => NodeKind::GOTOSTMT(l.clone()),
            NodeKind::LABELEDSTMT(l, s) => NodeKind::LABELEDSTMT(l.clone(), Box::new(s.duplicate())),
            NodeKind::EXPRSTMT(e) => NodeKind::EXPRSTMT(Box::new(e.duplicate())),
            NodeKind::DECLARATION(n, t) => NodeKind::DECLARATION(n.clone(), t.duplicate()),
            NodeKind::COMPOUNDSTMT(v) => NodeKind::COMPOUNDSTMT(duplicate_nodes(v)),
            NodeKind::IFSTMT(c, s) => NodeKind::IFSTMT(Box::new(c.duplicate()), Box::new(s.duplicate())),
            NodeKind::IFELSESTMT(c, s, a) => NodeKind::IFELSESTMT(
                Box::new(c.duplicate()),
                Box::new(s.duplicate()),
                Box::new(a.duplicate()),
            ),
            NodeKind::WHILESTMT(c, s) => NodeKind::WHILESTMT(Box::new(c.duplicate()), Box::new(s.duplicate())),
            NodeKind::DOWHILESTMT(s, c) => NodeKind::DOWHILESTMT(Box::new(s.duplicate()), Box::new(c.duplicate())),
            NodeKind::FORSTMT(a, b, c, s) => NodeKind::FORSTMT(
                Box::new(a.duplicate()),
                Box::new(b.duplicate()),
                Box::new(c.duplicate()),
                Box::new(s.duplicate()),
            ),
            NodeKind::NOP => NodeKind::NOP,
            NodeKind::ASSIGN(l, r) => NodeKind::ASSIGN(Box::new(l.duplicate()), Box::new(r.duplicate())),
            NodeKind::ADD(l, r) => NodeKind::ADD(Box::new(l.duplicate()), Box::new(r.duplicate())),
            NodeKind::SUB(l, r) => NodeKind::SUB(Box::new(l.duplicate()), Box::new(r.duplicate())),
            NodeKind::MUL(l, r) => NodeKind::MUL(Box::new(l.duplicate()), Box::new(r.duplicate())),
            NodeKind::DIV(l, r) => NodeKind::DIV(Box::new(l.duplicate()), Box::new(r.duplicate())),
            NodeKind::NEGATIVE(e) => NodeKind::NEGATIVE(Box::new(e.duplicate())),
            NodeKind::CALL(f, args) => NodeKind::CALL(Box::new(f.duplicate()), duplicate_nodes(args)),
            NodeKind::INTEGER(v) => NodeKind::INTEGER(*v),
            NodeKind::IDENTIFIER(n) => NodeKind::IDENTIFIER(n.clone()),
            NodeKind::INVALID => NodeKind::INVALID,
        };
        Node { position: self.position, kind, ctype: self.ctype.duplicate() }
    }
}

} // verus!
