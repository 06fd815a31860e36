use vstd::prelude::*;

use crate::compiler::frontend::manager::Manager;
use crate::compiler::frontend::node::{
    binary_v, lemma_nodes_v_push, mk, node_v, nodes_v, unknown_type, Function, Node, NodeKind, NodeKindV, NodeV, Priority,
};
use crate::compiler::frontend::token::{global_eof_token, kind_eq, Position, Token, TokenKind};
use crate::compiler::frontend::types::{type_of_token, Type, TypeKind};
use crate::compiler::frontend::variable::{table_duplicate, table_insert_exec, table_view, view_insert, Variable};
use crate::error::{Error, ErrorKind, ErrorMsg};

verus! {

/// The parser's state: the position in the tokens, the locals and
/// parameters declared so far, and the errors reported so far.
pub type PState = (int, Seq<(Seq<char>, Variable)>, Seq<(Seq<char>, Variable)>, Seq<Error>);

/// A function definition as a value.
pub struct FunctionV {
    pub name: Seq<char>,
    pub def_position: Position,
    pub stmts: Seq<NodeV>,
    pub return_type: Type,
    pub local_map: Seq<(Seq<char>, Variable)>,
    pub params: Seq<(Seq<char>, Variable)>,
}

/// A function definition as a value; its frame size aside.
pub open spec fn function_v(f: Function) -> FunctionV {
    FunctionV {
        name: f.name@,
        def_position: f.def_position,
        stmts: nodes_v(f.stmts@),
        return_type: f.return_type,
        local_map: table_view(f.local_map@),
        params: table_view(f.params@),
    }
}

/// The kind of the token at `p`, the end of input past the last token.
pub open spec fn kind_at(toks: Seq<Token>, p: int) -> TokenKind {
    if 0 <= p < toks.len() {
        toks[p].kind
    } else {
        TokenKind::EOF
    }
}

/// The token at `p`; past the last token, the end of input at the last
/// token's position.
pub open spec fn tok_at(toks: Seq<Token>, p: int) -> Token {
    if 0 <= p < toks.len() {
        toks[p]
    } else {
        Token { position: toks.last().position, kind: TokenKind::EOF }
    }
}

/// A type keyword.
pub open spec fn is_type_kind(k: TokenKind) -> bool {
    k is INT || k is VOID
}

/// A position the parser can be at.
pub open spec fn ok_pos(toks: Seq<Token>, p: int) -> bool {
    0 <= p <= toks.len() + 1
}

/// The state moved on by `n` tokens.
pub open spec fn adv(st: PState, n: int) -> PState {
    (st.0 + n, st.1, st.2, st.3)
}

/// The state at another position.
pub open spec fn at(st: PState, p: int) -> PState {
    (p, st.1, st.2, st.3)
}

/// The state after `kind` must come next, or `None` (the parser panics).
pub open spec fn sp_expect(toks: Seq<Token>, st: PState, kind: TokenKind) -> Option<PState> {
    if kind_eq(kind_at(toks, st.0), kind) {
        Some(adv(st, 1))
    } else {
        None
    }
}

/// The state after an optional `kind`.
pub open spec fn sp_consume(toks: Seq<Token>, st: PState, kind: TokenKind) -> PState {
    if kind_eq(kind_at(toks, st.0), kind) {
        adv(st, 1)
    } else {
        st
    }
}

/// `primary = integer | identifier | "(" expression ")"`; anything else is
/// reported and gives an invalid node at (0, 0).
pub open spec fn sp_primary(toks: Seq<Token>, st: PState) -> Option<(NodeV, PState)>
    decreases toks.len() + 2 - st.0, 1int,
{
    if !ok_pos(toks, st.0) {
        None
    } else {
        let cur = tok_at(toks, st.0);
        let st1 = adv(st, 1);
        match cur.kind {
            TokenKind::INTEGER(v) => Some((mk(cur.position, NodeKindV::Integer(v)), st1)),
            TokenKind::IDENTIFIER(name) => Some((mk(cur.position, NodeKindV::Identifier(name@)), st1)),
            TokenKind::LPAREN => match sp_expression(toks, st1) {
                Some((e, st2)) => match sp_expect(toks, st2, TokenKind::RPAREN) {
                    Some(st3) => Some((e, st3)),
                    None => None,
                },
                None => None,
            },
            _ => Some((
                mk((0, 0), NodeKindV::Invalid),
                (
                    st1.0,
                    st1.1,
                    st1.2,
                    st1.3.push(Error { kind: ErrorKind::Parse, message: ErrorMsg::MustBePrimary, position: cur.position }),
                ),
            )),
        }
    }
}

/// `postfix = primary ("(" (assign ","?)* ")")?`.
pub open spec fn sp_postfix(toks: Seq<Token>, st: PState) -> Option<(NodeV, PState)>
    decreases toks.len() + 2 - st.0, 2int,
{
    if !ok_pos(toks, st.0) {
        None
    } else {
        match sp_primary(toks, st) {
            Some((prim, st1)) => {
                if st1.0 <= st.0 || !ok_pos(toks, st1.0) {
                    None
                } else {
                    let cur = tok_at(toks, st1.0);
                    if cur.kind is LPAREN {
                        match sp_args_rest(toks, adv(st1, 1), Seq::empty()) {
                            Some((args, st2)) => Some((mk(cur.position, NodeKindV::Call(Box::new(prim), args)), st2)),
                            None => None,
                        }
                    } else {
                        Some((prim, st1))
                    }
                }
            },
            None => None,
        }
    }
}

/// The arguments of a call up to the closing parenthesis.
pub open spec fn sp_args_rest(toks: Seq<Token>, st: PState, acc: Seq<NodeV>) -> Option<(Seq<NodeV>, PState)>
    decreases toks.len() + 2 - st.0, 7int,
{
    if !ok_pos(toks, st.0) {
        None
    } else if kind_at(toks, st.0) is RPAREN {
        Some((acc, adv(st, 1)))
    } else {
        match sp_assign(toks, st) {
            Some((a, st1)) => {
                let st2 = sp_consume(toks, st1, TokenKind::COMMA);
                if st2.0 <= st.0 || !ok_pos(toks, st2.0) {
                    None
                } else {
                    sp_args_rest(toks, st2, acc.push(a))
                }
            },
            None => None,
        }
    }
}

/// `unary = "-" unary | postfix`.
pub open spec fn sp_unary(toks: Seq<Token>, st: PState) -> Option<(NodeV, PState)>
    decreases toks.len() + 2 - st.0, 3int,
{
    if !ok_pos(toks, st.0) {
        None
    } else {
        let cur = tok_at(toks, st.0);
        if cur.kind is MINUS {
            match sp_unary(toks, adv(st, 1)) {
                Some((inner, st1)) => Some((mk(cur.position, NodeKindV::Negative(Box::new(inner))), st1)),
                None => None,
            }
        } else {
            sp_postfix(toks, st)
        }
    }
}

/// `multiplicative = unary (("*" | "/") unary)*`, associating to the left.
pub open spec fn sp_mult(toks: Seq<Token>, st: PState) -> Option<(NodeV, PState)>
    decreases toks.len() + 2 - st.0, 4int,
{
    if !ok_pos(toks, st.0) {
        None
    } else {
        match sp_unary(toks, st) {
            Some((l, st1)) => if st1.0 <= st.0 || !ok_pos(toks, st1.0) {
                None
            } else {
                sp_mult_rest(toks, st1, l)
            },
            None => None,
        }
    }
}

/// The rest of a multiplicative expression whose left part is `left`.
pub open spec fn sp_mult_rest(toks: Seq<Token>, st: PState, left: NodeV) -> Option<(NodeV, PState)>
    decreases toks.len() + 2 - st.0, 4int,
{
    if !ok_pos(toks, st.0) {
        None
    } else {
        let cur = tok_at(toks, st.0);
        if cur.kind is ASTERISK || cur.kind is SLASH {
            match sp_unary(toks, adv(st, 1)) {
                Some((r, st2)) => if st2.0 <= st.0 || !ok_pos(toks, st2.0) {
                    None
                } else {
                    sp_mult_rest(toks, st2, mk(cur.position, binary_v(cur.kind, left, r)))
                },
                None => None,
            }
        } else {
            Some((left, st))
        }
    }
}

/// `additive = multiplicative (("+" | "-") multiplicative)*`, associating to the left.
pub open spec fn sp_additive(toks: Seq<Token>, st: PState) -> Option<(NodeV, PState)>
    decreases toks.len() + 2 - st.0, 5int,
{
    if !ok_pos(toks, st.0) {
        None
    } else {
        match sp_mult(toks, st) {
            Some((l, st1)) => if st1.0 <= st.0 || !ok_pos(toks, st1.0) {
                None
            } else {
                sp_additive_rest(toks, st1, l)
            },
            None => None,
        }
    }
}

/// The rest of an additive expression whose left part is `left`.
pub open spec fn sp_additive_rest(toks: Seq<Token>, st: PState, left: NodeV) -> Option<(NodeV, PState)>
    decreases toks.len() + 2 - st.0, 5int,
{
    if !ok_pos(toks, st.0) {
        None
    } else {
        let cur = tok_at(toks, st.0);
        if cur.kind is PLUS || cur.kind is MINUS {
            match sp_mult(toks, adv(st, 1)) {
                Some((r, st2)) => if st2.0 <= st.0 || !ok_pos(toks, st2.0) {
                    None
                } else {
                    sp_additive_rest(toks, st2, mk(cur.position, binary_v(cur.kind, left, r)))
                },
                None => None,
            }
        } else {
            Some((left, st))
        }
    }
}

/// `assign = additive ("=" assign)?`; the assignment sits at the `=`.
pub open spec fn sp_assign(toks: Seq<Token>, st: PState) -> Option<(NodeV, PState)>
    decreases toks.len() + 2 - st.0, 6int,
{
    if !ok_pos(toks, st.0) {
        None
    } else {
        match sp_additive(toks, st) {
            Some((l, st1)) => if st1.0 <= st.0 || !ok_pos(toks, st1.0) {
                None
            } else {
                let cur = tok_at(toks, st1.0);
                if cur.kind is ASSIGN {
                    match sp_assign(toks, adv(st1, 1)) {
                        Some((r, st2)) => Some((mk(cur.position, NodeKindV::Assign(Box::new(l), Box::new(r))), st2)),
                        None => None,
                    }
                } else {
                    Some((l, st1))
                }
            },
            None => None,
        }
    }
}

/// `expression = assign`.
pub open spec fn sp_expression(toks: Seq<Token>, st: PState) -> Option<(NodeV, PState)>
    decreases toks.len() + 2 - st.0, 8int,
{
    if !ok_pos(toks, st.0) {
        None
    } else {
        sp_assign(toks, st)
    }
}

/// The state after a run of `*`s, and the type they wrap `base` in.
pub open spec fn sp_stars(toks: Seq<Token>, st: PState, base: Type) -> (Type, PState)
    decreases toks.len() + 2 - st.0,
{
    if !ok_pos(toks, st.0) || !(kind_at(toks, st.0) is ASTERISK) {
        (base, st)
    } else {
        sp_stars(toks, adv(st, 1), Type { kind: TypeKind::POINTER(Box::new(base)), byte_size: 8 })
    }
}

/// `declarator = "*"* ("(" declarator ")" | identifier)`; a parenthesized
/// declarator gives its own name and type (from an unknown base).
pub open spec fn sp_declarator(toks: Seq<Token>, st: PState, base: Type) -> Option<(Seq<char>, Type, PState)>
    decreases toks.len() + 2 - st.0,
{
    if !ok_pos(toks, st.0) {
        None
    } else {
        let (covered, st1) = sp_stars(toks, st, base);
        if st1.0 < st.0 || !ok_pos(toks, st1.0) {
            None
        } else if kind_at(toks, st1.0) is LPAREN {
            match sp_declarator(toks, adv(st1, 1), unknown_type()) {
                Some((name, ty, st2)) => match sp_expect(toks, st2, TokenKind::RPAREN) {
                    Some(st3) => Some((name, ty, st3)),
                    None => None,
                },
                None => None,
            }
        } else {
            match kind_at(toks, st1.0) {
                TokenKind::IDENTIFIER(name) => Some((name@, covered, adv(st1, 1))),
                _ => None,
            }
        }
    }
}

/// `declaration = type declarator ";"`; the local is entered in the table.
pub open spec fn sp_declaration(toks: Seq<Token>, st: PState) -> Option<(NodeV, PState)>
    decreases toks.len() + 2 - st.0, 9int,
{
    if !ok_pos(toks, st.0) || !is_type_kind(kind_at(toks, st.0)) {
        None
    } else {
        let pos = tok_at(toks, st.0).position;
        let base = type_of_token(kind_at(toks, st.0));
        match sp_declarator(toks, adv(st, 1), base) {
            Some((name, ty, st1)) => {
                let st2 = (st1.0, view_insert(st1.1, name, Variable { kind: crate::compiler::frontend::variable::VarKind::LOCAL(0), ctype: ty }), st1.2, st1.3);
                match sp_expect(toks, st2, TokenKind::SEMICOLON) {
                    Some(st3) => Some((mk(pos, NodeKindV::Declaration(name, ty)), st3)),
                    None => None,
                }
            },
            None => None,
        }
    }
}

/// A statement: a declaration, `return`, `goto`, a labeled statement, a
/// compound statement, `if`, `for`, `do`-`while`, `while`, or an expression
/// followed by `;`.
pub open spec fn sp_statement(toks: Seq<Token>, st: PState) -> Option<(NodeV, PState)>
    decreases toks.len() + 2 - st.0, 10int,
{
    if !ok_pos(toks, st.0) {
        None
    } else if is_type_kind(kind_at(toks, st.0)) {
        sp_declaration(toks, st)
    } else {
        let cur = tok_at(toks, st.0);
        match cur.kind {
            TokenKind::RETURN => sp_return(toks, st),
            TokenKind::GOTO => sp_goto(toks, st),
            TokenKind::IDENTIFIER(_) if kind_at(toks, st.0 + 1) is COLON => sp_labeled(toks, st),
            TokenKind::LBRACE => sp_compound(toks, st),
            TokenKind::IF => sp_if(toks, st),
            TokenKind::FOR => sp_for(toks, st),
            TokenKind::DO => sp_do_while(toks, st),
            TokenKind::WHILE => sp_while(toks, st),
            _ => match sp_expression(toks, st) {
                Some((e, st1)) => match sp_expect(toks, st1, TokenKind::SEMICOLON) {
                    Some(st2) => Some((mk(cur.position, NodeKindV::ExprStmt(Box::new(e))), st2)),
                    None => None,
                },
                None => None,
            },
        }
    }
}

/// `return expression ;`.
pub open spec fn sp_return(toks: Seq<Token>, st: PState) -> Option<(NodeV, PState)>
    decreases toks.len() + 2 - st.0, 9int,
{
    if !ok_pos(toks, st.0) || !(kind_at(toks, st.0) is RETURN) {
        None
    } else {
        let pos = tok_at(toks, st.0).position;
        match sp_expression(toks, adv(st, 1)) {
            Some((e, st2)) => match sp_expect(toks, st2, TokenKind::SEMICOLON) {
                Some(st3) => Some((mk(pos, NodeKindV::Return(Box::new(e))), st3)),
                None => None,
            },
            None => None,
        }
    }
}

/// `goto identifier ;`.
pub open spec fn sp_goto(toks: Seq<Token>, st: PState) -> Option<(NodeV, PState)> {
    if !ok_pos(toks, st.0) || !(kind_at(toks, st.0) is GOTO) {
        None
    } else {
        let pos = tok_at(toks, st.0).position;
        match kind_at(toks, st.0 + 1) {
            TokenKind::IDENTIFIER(name) => match sp_expect(toks, adv(st, 2), TokenKind::SEMICOLON) {
                Some(st3) => Some((mk(pos, NodeKindV::Goto(name@)), st3)),
                None => None,
            },
            _ => None,
        }
    }
}

/// `identifier : statement`.
pub open spec fn sp_labeled(toks: Seq<Token>, st: PState) -> Option<(NodeV, PState)>
    decreases toks.len() + 2 - st.0, 9int,
{
    if !ok_pos(toks, st.0) {
        None
    } else {
        let pos = tok_at(toks, st.0).position;
        match kind_at(toks, st.0) {
            TokenKind::IDENTIFIER(name) => match sp_expect(toks, adv(st, 1), TokenKind::COLON) {
                Some(st2) => match sp_statement(toks, st2) {
                    Some((s, st3)) => Some((mk(pos, NodeKindV::Labeled(name@, Box::new(s))), st3)),
                    None => None,
                },
                None => None,
            },
            _ => None,
        }
    }
}

/// `{ statement* }`.
pub open spec fn sp_compound(toks: Seq<Token>, st: PState) -> Option<(NodeV, PState)>
    decreases toks.len() + 2 - st.0, 9int,
{
    if !ok_pos(toks, st.0) || !(kind_at(toks, st.0) is LBRACE) {
        None
    } else {
        let pos = tok_at(toks, st.0).position;
        match sp_compound_rest(toks, adv(st, 1), Seq::empty()) {
            Some((stmts, st2)) => Some((mk(pos, NodeKindV::Compound(stmts)), st2)),
            None => None,
        }
    }
}

/// `if ( expression ) statement (else statement)?`.
pub open spec fn sp_if(toks: Seq<Token>, st: PState) -> Option<(NodeV, PState)>
    decreases toks.len() + 2 - st.0, 9int,
{
    if !ok_pos(toks, st.0) || !(kind_at(toks, st.0) is IF) {
        None
    } else {
        let pos = tok_at(toks, st.0).position;
        match sp_expect(toks, adv(st, 1), TokenKind::LPAREN) {
            Some(st2) => match sp_expression(toks, st2) {
                Some((c, st3)) => match sp_expect(toks, st3, TokenKind::RPAREN) {
                    Some(st4) => if st4.0 <= st.0 || !ok_pos(toks, st4.0) {
                        None
                    } else {
                        match sp_statement(toks, st4) {
                            Some((s, st5)) => if st5.0 <= st.0 || !ok_pos(toks, st5.0) {
                                None
                            } else if kind_at(toks, st5.0) is ELSE {
                                match sp_statement(toks, adv(st5, 1)) {
                                    Some((a, st6)) => Some(
                                        (mk(pos, NodeKindV::IfElse(Box::new(c), Box::new(s), Box::new(a))), st6),
                                    ),
                                    None => None,
                                }
                            } else {
                                Some((mk(pos, NodeKindV::If(Box::new(c), Box::new(s))), st5))
                            },
                            None => None,
                        }
                    },
                    None => None,
                },
                None => None,
            },
            None => None,
        }
    }
}

/// `for ( clause clause expression ) statement`.
pub open spec fn sp_for(toks: Seq<Token>, st: PState) -> Option<(NodeV, PState)>
    decreases toks.len() + 2 - st.0, 9int,
{
    if !ok_pos(toks, st.0) || !(kind_at(toks, st.0) is FOR) {
        None
    } else {
        let pos = tok_at(toks, st.0).position;
        match sp_expect(toks, adv(st, 1), TokenKind::LPAREN) {
            Some(st2) => match sp_for_clause(toks, st2) {
                Some((clause, st3)) => if st3.0 <= st.0 || !ok_pos(toks, st3.0) {
                    None
                } else {
                    match sp_for_clause(toks, st3) {
                        Some((cond, st4)) => if st4.0 <= st.0 || !ok_pos(toks, st4.0) {
                            None
                        } else {
                            match sp_expression(toks, st4) {
                                Some((step, st5)) => match sp_expect(toks, st5, TokenKind::RPAREN) {
                                    Some(st6) => if st6.0 <= st.0 || !ok_pos(toks, st6.0) {
                                        None
                                    } else {
                                        match sp_statement(toks, st6) {
                                            Some((s, st7)) => Some(
                                                (
                                                    mk(
                                                        pos,
                                                        NodeKindV::For(Box::new(clause), Box::new(cond), Box::new(step), Box::new(s)),
                                                    ),
                                                    st7,
                                                ),
                                            ),
                                            None => None,
                                        }
                                    },
                                    None => None,
                                },
                                None => None,
                            }
                        },
                        None => None,
                    }
                },
                None => None,
            },
            None => None,
        }
    }
}

/// `do statement while ( expression ) ;`.
pub open spec fn sp_do_while(toks: Seq<Token>, st: PState) -> Option<(NodeV, PState)>
    decreases toks.len() + 2 - st.0, 9int,
{
    if !ok_pos(toks, st.0) || !(kind_at(toks, st.0) is DO) {
        None
    } else {
        let pos = tok_at(toks, st.0).position;
        match sp_statement(toks, adv(st, 1)) {
            Some((s, st2)) => match sp_expect(toks, st2, TokenKind::WHILE) {
                Some(st3) => match sp_expect(toks, st3, TokenKind::LPAREN) {
                    Some(st4) => if st4.0 <= st.0 || !ok_pos(toks, st4.0) {
                        None
                    } else {
                        match sp_expression(toks, st4) {
                            Some((c, st5)) => match sp_expect(toks, st5, TokenKind::RPAREN) {
                                Some(st6) => match sp_expect(toks, st6, TokenKind::SEMICOLON) {
                                    Some(st7) => Some((mk(pos, NodeKindV::DoWhile(Box::new(s), Box::new(c))), st7)),
                                    None => None,
                                },
                                None => None,
                            },
                            None => None,
                        }
                    },
                    None => None,
                },
                None => None,
            },
            None => None,
        }
    }
}

/// `while ( expression ) statement`.
pub open spec fn sp_while(toks: Seq<Token>, st: PState) -> Option<(NodeV, PState)>
    decreases toks.len() + 2 - st.0, 9int,
{
    if !ok_pos(toks, st.0) || !(kind_at(toks, st.0) is WHILE) {
        None
    } else {
        let pos = tok_at(toks, st.0).position;
        match sp_expect(toks, adv(st, 1), TokenKind::LPAREN) {
            Some(st2) => match sp_expression(toks, st2) {
                Some((c, st3)) => match sp_expect(toks, st3, TokenKind::RPAREN) {
                    Some(st4) => if st4.0 <= st.0 || !ok_pos(toks, st4.0) {
                        None
                    } else {
                        match sp_statement(toks, st4) {
                            Some((s, st5)) => Some((mk(pos, NodeKindV::While(Box::new(c), Box::new(s))), st5)),
                            None => None,
                        }
                    },
                    None => None,
                },
                None => None,
            },
            None => None,
        }
    }
}

/// A clause of a `for` header: empty (just `;`, an empty node) or an
/// expression followed by `;`.
pub open spec fn sp_for_clause(toks: Seq<Token>, st: PState) -> Option<(NodeV, PState)>
    decreases toks.len() + 2 - st.0, 9int,
{
    if !ok_pos(toks, st.0) {
        None
    } else if kind_at(toks, st.0) is SEMICOLON {
        Some((mk((0, 0), NodeKindV::Nop), adv(st, 1)))
    } else {
        match sp_expression(toks, st) {
            Some((e, st1)) => match sp_expect(toks, st1, TokenKind::SEMICOLON) {
                Some(st2) => Some((e, st2)),
                None => None,
            },
            None => None,
        }
    }
}

/// The statements of a compound statement up to the closing brace.
pub open spec fn sp_compound_rest(toks: Seq<Token>, st: PState, acc: Seq<NodeV>) -> Option<(Seq<NodeV>, PState)>
    decreases toks.len() + 2 - st.0, 11int,
{
    if !ok_pos(toks, st.0) {
        None
    } else if kind_at(toks, st.0) is RBRACE {
        Some((acc, adv(st, 1)))
    } else {
        match sp_statement(toks, st) {
            Some((s, st1)) => if st1.0 <= st.0 || !ok_pos(toks, st1.0) {
                None
            } else {
                sp_compound_rest(toks, st1, acc.push(s))
            },
            None => None,
        }
    }
}


/// `params = ")" | type declarator ","? params`; each parameter is entered
/// in the parameter table.
pub open spec fn sp_params(toks: Seq<Token>, st: PState) -> Option<PState>
    decreases toks.len() + 2 - st.0,
{
    if !ok_pos(toks, st.0) {
        None
    } else if kind_at(toks, st.0) is RPAREN {
        Some(adv(st, 1))
    } else if !is_type_kind(kind_at(toks, st.0)) {
        None
    } else {
        match sp_declarator(toks, adv(st, 1), type_of_token(kind_at(toks, st.0))) {
            Some((name, ty, st1)) => {
                let st2 = (st1.0, st1.1, view_insert(st1.2, name, Variable { kind: crate::compiler::frontend::variable::VarKind::LOCAL(0), ctype: ty }), st1.3);
                let st3 = sp_consume(toks, st2, TokenKind::COMMA);
                if st3.0 <= st.0 || !ok_pos(toks, st3.0) {
                    None
                } else {
                    sp_params(toks, st3)
                }
            },
            None => None,
        }
    }
}

/// `function = type declarator "(" "void"? params "{" statement* "}"`: the
/// name, the position, the return type and the statements.
pub open spec fn sp_function(toks: Seq<Token>, st: PState) -> Option<((Seq<char>, Position, Type, Seq<NodeV>), PState)> {
    if !ok_pos(toks, st.0) || !is_type_kind(kind_at(toks, st.0)) {
        None
    } else {
        let pos = tok_at(toks, st.0).position;
        match sp_declarator(toks, adv(st, 1), type_of_token(kind_at(toks, st.0))) {
            Some((name, ty, st1)) => match sp_expect(toks, st1, TokenKind::LPAREN) {
                Some(st2) => match sp_params(toks, sp_consume(toks, st2, TokenKind::VOID)) {
                    Some(st4) => match sp_expect(toks, st4, TokenKind::LBRACE) {
                        Some(st5) => match sp_compound_rest(toks, st5, Seq::empty()) {
                            Some((stmts, st6)) => Some(((name, pos, ty, stmts), st6)),
                            None => None,
                        },
                        None => None,
                    },
                    None => None,
                },
                None => None,
            },
            None => None,
        }
    }
}

/// Whether a function definition starts here: a type, a declarator with a
/// name, then `(`; `None` where the look-ahead itself panics.
pub open spec fn sp_is_function(toks: Seq<Token>, st: PState) -> Option<bool> {
    if !ok_pos(toks, st.0) {
        None
    } else if !is_type_kind(kind_at(toks, st.0)) {
        Some(false)
    } else if kind_at(toks, st.0 + 1) is SEMICOLON {
        Some(false)
    } else {
        match sp_declarator(toks, adv(st, 1), type_of_token(kind_at(toks, st.0))) {
            Some((name, _, st2)) => Some(name.len() != 0 && kind_at(toks, st2.0) is LPAREN),
            None => None,
        }
    }
}

/// The function definitions from here on, each with the locals and
/// parameters it declared.
pub open spec fn sp_toplevel(toks: Seq<Token>, st: PState) -> Option<(Seq<FunctionV>, PState)>
    decreases toks.len() + 2 - st.0,
{
    match sp_is_function(toks, st) {
        None => None,
        Some(false) => Some((Seq::empty(), st)),
        Some(true) => match sp_function(toks, (st.0, Seq::empty(), Seq::empty(), st.3)) {
            Some(((name, pos, ty, stmts), st1)) => if st1.0 <= st.0 || !ok_pos(toks, st1.0) {
                None
            } else {
                let f = FunctionV { name, def_position: pos, stmts, return_type: ty, local_map: st1.1, params: st1.2 };
                match sp_toplevel(toks, st1) {
                    Some((fs, st2)) => Some((seq![f] + fs, st2)),
                    None => None,
                }
            },
            None => None,
        },
    }
}

/// A list of function definitions as values.
pub open spec fn functions_v(s: Seq<Function>) -> Seq<FunctionV> {
    s.map_values(|f: Function| function_v(f))
}

/// The parser state of a manager.
pub open spec fn pstate(m: Manager) -> PState {
    (m.cur_token as int, table_view(m.var_map@), table_view(m.params@), m.errors@)
}

/// The manager can parse: there are tokens, the lookahead is one past the
/// current token, and positions stay within `usize`.
pub open spec fn parser_ok(m: Manager) -> bool {
    &&& m.tokens@.len() > 0
    &&& m.next_token == m.cur_token + 1
    &&& m.tokens@.len() + 4 < usize::MAX
    &&& m.cur_token <= m.tokens@.len() + 2
}

/// Parsing changes only the parser's state.
pub open spec fn parse_frame(a: Manager, b: Manager) -> bool {
    &&& b.src_file == a.src_file
    &&& b.tokens == a.tokens
    &&& b.functions == a.functions
    &&& b.ir_funcs == a.ir_funcs
    &&& b.cur_bb == a.cur_bb
    &&& b.virt == a.virt
    &&& b.label == a.label
}

impl Manager {
    /// The token at the current position; past the last token, the end of
    /// input at the last token's position.
    pub fn looking_token_clone(&mut self) -> (t: Token)
        requires
            parser_ok(*old(self)),
        ensures
            t == tok_at(old(self).tokens@, old(self).cur_token as int),
            *final(self) == *old(self),
    {
        if self.tokens.len() <= self.cur_token {
            let last_token_position = self.tokens[self.tokens.len() - 1].position;
            return Token::new(last_token_position, TokenKind::EOF);
        }
        self.tokens[self.cur_token].duplicate()
    }

    /// The token at the current position; past the last token, the end of
    /// input at (0, 0).
    pub fn looking_token(&mut self) -> (t: Token)
        requires
            parser_ok(*old(self)),
        ensures
            t.kind == kind_at(old(self).tokens@, old(self).cur_token as int),
            *final(self) == *old(self),
    {
        if self.tokens.len() <= self.cur_token {
            return global_eof_token();
        }
        self.tokens[self.cur_token].duplicate()
    }

    /// Whether the token after the current one is of kind `tk`.
    pub fn next_token_is(&mut self, tk: TokenKind) -> (b: bool)
        requires
            parser_ok(*old(self)),
        ensures
            b == (old(self).next_token < old(self).tokens@.len() && kind_eq(old(self).tokens@[old(self).next_token as int].kind, tk)),
            *final(self) == *old(self),
    {
        if self.tokens.len() <= self.next_token {
            return false;
        }
        self.tokens[self.next_token].kind.same_kind(&tk)
    }

    /// Moves to the next token.
    pub fn read_token(&mut self)
        requires
            parser_ok(*old(self)),
            old(self).cur_token <= old(self).tokens@.len() + 1,
        ensures
            final(self).var_map == old(self).var_map,
            final(self).params == old(self).params,
            final(self).errors == old(self).errors,
            parser_ok(*final(self)),
            parse_frame(*old(self), *final(self)),
            pstate(*final(self)) == adv(pstate(*old(self)), 1),
    {
        self.cur_token = self.cur_token + 1;
        self.next_token = self.next_token + 1;
    }

    /// Takes a token of kind `tk` if it comes next.
    pub fn consume(&mut self, tk: TokenKind) -> (b: bool)
        requires
            parser_ok(*old(self)),
            old(self).cur_token <= old(self).tokens@.len() + 1,
        ensures
            final(self).var_map == old(self).var_map,
            final(self).params == old(self).params,
            final(self).errors == old(self).errors,
            b == kind_eq(kind_at(old(self).tokens@, old(self).cur_token as int), tk),
            parser_ok(*final(self)),
            parse_frame(*old(self), *final(self)),
            pstate(*final(self)) == sp_consume(old(self).tokens@, pstate(*old(self)), tk),
    {
        let t = self.looking_token_clone();
        if !t.kind.same_kind(&tk) {
            return false;
        }
        self.read_token();
        true
    }

    /// Takes a token of kind `tk`, which must come next.
    pub fn expect(&mut self, tk: TokenKind)
        requires
            parser_ok(*old(self)),
            old(self).cur_token <= old(self).tokens@.len() + 1,
            sp_expect(old(self).tokens@, pstate(*old(self)), tk) is Some,
        ensures
            final(self).var_map == old(self).var_map,
            final(self).params == old(self).params,
            final(self).errors == old(self).errors,
            parser_ok(*final(self)),
            parse_frame(*old(self), *final(self)),
            pstate(*final(self)) == sp_expect(old(self).tokens@, pstate(*old(self)), tk)->0,
    {
        self.read_token();
    }

    /// Takes an identifier, which must come next, and gives its name.
    pub fn expect_ident(&mut self) -> (name: String)
        requires
            parser_ok(*old(self)),
            old(self).cur_token <= old(self).tokens@.len() + 1,
            kind_at(old(self).tokens@, old(self).cur_token as int) is IDENTIFIER,
        ensures
            final(self).var_map == old(self).var_map,
            final(self).params == old(self).params,
            final(self).errors == old(self).errors,
            name@ == kind_at(old(self).tokens@, old(self).cur_token as int)->IDENTIFIER_0@,
            parser_ok(*final(self)),
            parse_frame(*old(self), *final(self)),
            pstate(*final(self)) == adv(pstate(*old(self)), 1),
    {
        let t = self.looking_token_clone();
        match t.kind {
            TokenKind::IDENTIFIER(name) => {
                self.read_token();
                name
            },
            _ => String::new(),
        }
    }

    /// Whether a type keyword comes next.
    pub fn is_typename(&mut self) -> (b: bool)
        requires
            parser_ok(*old(self)),
        ensures
            b == is_type_kind(kind_at(old(self).tokens@, old(self).cur_token as int)),
            *final(self) == *old(self),
    {
        match self.looking_token().kind {
            TokenKind::INT | TokenKind::VOID => true,
            _ => false,
        }
    }

    /// Whether the next token is of one of the kinds `tks`.
    pub fn current_token_is_in(&mut self, tks: &Vec<TokenKind>) -> (b: bool)
        requires
            parser_ok(*old(self)),
        ensures
            b == exists|i: int| 0 <= i < tks@.len() && kind_eq(kind_at(old(self).tokens@, old(self).cur_token as int), #[trigger] tks@[i]),
            *final(self) == *old(self),
    {
        let cur = self.looking_token();
        let mut i: usize = 0;
        while i < tks.len()
            invariant
                0 <= i <= tks@.len(),
                *self == *old(self),
                cur.kind == kind_at(self.tokens@, self.cur_token as int),
                forall|j: int| 0 <= j < i ==> !kind_eq(cur.kind, #[trigger] tks@[j]),
            decreases tks@.len() - i,
        {
            if cur.kind.same_kind(&tks[i]) {
                assert(kind_eq(cur.kind, tks@[i as int]));
                return true;
            }
            i = i + 1;
        }
        false
    }

    /// The operators of a precedence level.
    pub fn current_prio_operators(&mut self, priority: Priority) -> (v: Vec<TokenKind>)
        ensures
            v@ == (match priority {
                Priority::ADDITIVE => seq![TokenKind::PLUS, TokenKind::MINUS],
                Priority::MULTIPLICATIVE => seq![TokenKind::ASTERISK, TokenKind::SLASH],
            }),
            *final(self) == *old(self),
    {
        match priority {
            Priority::ADDITIVE => vec![TokenKind::PLUS, TokenKind::MINUS],
            Priority::MULTIPLICATIVE => vec![TokenKind::ASTERISK, TokenKind::SLASH],
        }
    }

    /// Takes a type keyword if one comes next, giving the type it names.
    pub fn consume_base_type(&mut self) -> (t: Option<Type>)
        requires
            parser_ok(*old(self)),
            old(self).cur_token <= old(self).tokens@.len() + 1,
        ensures
            final(self).var_map == old(self).var_map,
            final(self).params == old(self).params,
            final(self).errors == old(self).errors,
            parser_ok(*final(self)),
            parse_frame(*old(self), *final(self)),
            if is_type_kind(kind_at(old(self).tokens@, old(self).cur_token as int)) {
                &&& t == Some(type_of_token(kind_at(old(self).tokens@, old(self).cur_token as int)))
                &&& pstate(*final(self)) == adv(pstate(*old(self)), 1)
            } else {
                &&& t is None
                &&& *final(self) == *old(self)
            },
    {
        if !self.is_typename() {
            return None;
        }
        let int_type = self.looking_token_clone();
        self.read_token();
        Some(Type::from_token(int_type))
    }
}

impl Manager {
    /// `primary` (see `sp_primary`).
    pub fn parse_primary(&mut self) -> (n: Node)
        requires
            parser_ok(*old(self)),
            sp_primary(old(self).tokens@, pstate(*old(self))) is Some,
        ensures
            parser_ok(*final(self)),
            parse_frame(*old(self), *final(self)),
            sp_primary(old(self).tokens@, pstate(*old(self))) == Some((node_v(n), pstate(*final(self)))),
        decreases old(self).tokens@.len() + 2 - old(self).cur_token, 1int,
    {
        let cur = self.looking_token_clone();
        self.read_token();
        match cur.kind {
            TokenKind::INTEGER(val) => Node::new(cur.position, NodeKind::INTEGER(val)),
            TokenKind::IDENTIFIER(name) => Node::new(cur.position, NodeKind::IDENTIFIER(name)),
            TokenKind::LPAREN => {
                let paren_expr = self.parse_expression();
                self.expect(TokenKind::RPAREN);
                paren_expr
            },
            _ => {
                let err = Error::new(ErrorKind::Parse, cur.position, ErrorMsg::MustBePrimary);
                self.errors.push(err);
                Node::new((0, 0), NodeKind::INVALID)
            },
        }
    }

    /// `postfix` (see `sp_postfix`).
    pub fn parse_postfix(&mut self) -> (n: Node)
        requires
            parser_ok(*old(self)),
            sp_postfix(old(self).tokens@, pstate(*old(self))) is Some,
        ensures
            parser_ok(*final(self)),
            parse_frame(*old(self), *final(self)),
            sp_postfix(old(self).tokens@, pstate(*old(self))) == Some((node_v(n), pstate(*final(self)))),
        decreases old(self).tokens@.len() + 2 - old(self).cur_token, 2int,
    {
        let ghost toks = self.tokens@;
        let ghost st0 = pstate(*self);
        let primary_expr = self.parse_primary();
        let cur = self.looking_token_clone();
        match cur.kind {
            TokenKind::LPAREN => {
                self.read_token();
                let ghost st_args = pstate(*self);
                let mut params: Vec<Node> = Vec::new();
                loop
                    invariant_except_break
                        sp_args_rest(toks, pstate(*self), nodes_v(params@)) is Some,
                        sp_args_rest(toks, st_args, Seq::empty()) == sp_args_rest(toks, pstate(*self), nodes_v(params@)),
                    invariant
                        parser_ok(*self),
                        parse_frame(*old(self), *self),
                        toks == self.tokens@,
                        st0 == pstate(*old(self)),
                        self.cur_token > st0.0,
                    ensures
                        sp_args_rest(toks, st_args, Seq::empty()) == Some((nodes_v(params@), pstate(*self))),
                    decreases self.tokens@.len() + 2 - self.cur_token,
                {
                    if self.consume(TokenKind::RPAREN) {
                        break;
                    }
                    let ghost st = pstate(*self);
                    let arg = self.parse_assign();
                    let ghost a = node_v(arg);
                    proof {
                        lemma_nodes_v_push(params@, arg);
                    }
                    params.push(arg);
                    self.consume(TokenKind::COMMA);
                    assert(pstate(*self) == sp_consume(toks, (sp_assign(toks, st)->0).1, TokenKind::COMMA));
                }
                Node::new_call(cur.position, primary_expr, params)
            },
            _ => primary_expr,
        }
    }

    /// `unary` (see `sp_unary`).
    pub fn parse_unary(&mut self) -> (n: Node)
        requires
            parser_ok(*old(self)),
            sp_unary(old(self).tokens@, pstate(*old(self))) is Some,
        ensures
            parser_ok(*final(self)),
            parse_frame(*old(self), *final(self)),
            sp_unary(old(self).tokens@, pstate(*old(self))) == Some((node_v(n), pstate(*final(self)))),
        decreases old(self).tokens@.len() + 2 - old(self).cur_token, 3int,
    {
        let cur = self.looking_token_clone();
        match cur.kind {
            TokenKind::MINUS => {
                self.read_token();
                let inner = self.parse_unary();
                Node::new_unary_node(&cur, inner)
            },
            _ => self.parse_postfix(),
        }
    }

    /// `multiplicative` (see `sp_mult`).
    pub fn parse_multiplicative(&mut self) -> (n: Node)
        requires
            parser_ok(*old(self)),
            sp_mult(old(self).tokens@, pstate(*old(self))) is Some,
        ensures
            parser_ok(*final(self)),
            parse_frame(*old(self), *final(self)),
            sp_mult(old(self).tokens@, pstate(*old(self))) == Some((node_v(n), pstate(*final(self)))),
        decreases old(self).tokens@.len() + 2 - old(self).cur_token, 4int,
    {
        let ghost toks = self.tokens@;
        let ghost st0 = pstate(*self);
        let mut left_node = self.parse_unary();
        let operators = self.current_prio_operators(Priority::MULTIPLICATIVE);
        loop
            invariant
                parser_ok(*self),
                parse_frame(*old(self), *self),
                toks == self.tokens@,
                st0 == pstate(*old(self)),
                self.cur_token > st0.0,
                operators@ == seq![TokenKind::ASTERISK, TokenKind::SLASH],
                sp_mult_rest(toks, pstate(*self), node_v(left_node)) is Some,
                sp_mult(toks, st0) == sp_mult_rest(toks, pstate(*self), node_v(left_node)),
            ensures
                parser_ok(*self),
                parse_frame(*old(self), *self),
                sp_mult(toks, st0) == Some((node_v(left_node), pstate(*self))),
            decreases self.tokens@.len() + 2 - self.cur_token,
        {
            let is_op = self.current_token_is_in(&operators);
            proof {
                assert(operators@[0] == TokenKind::ASTERISK);
                assert(operators@[1] == TokenKind::SLASH);
            }
            if !is_op {
                proof {
                    assert(!(tok_at(toks, self.cur_token as int).kind is ASTERISK || tok_at(toks, self.cur_token as int).kind is SLASH));
                }
                break;
            }
            let cur_token = self.looking_token_clone();
            self.read_token();
            let right_node = self.parse_unary();
            left_node = Node::new_binary_node(&cur_token, left_node, right_node);
        }
        left_node
    }

    /// `additive` (see `sp_additive`).
    pub fn parse_additive(&mut self) -> (n: Node)
        requires
            parser_ok(*old(self)),
            sp_additive(old(self).tokens@, pstate(*old(self))) is Some,
        ensures
            parser_ok(*final(self)),
            parse_frame(*old(self), *final(self)),
            sp_additive(old(self).tokens@, pstate(*old(self))) == Some((node_v(n), pstate(*final(self)))),
        decreases old(self).tokens@.len() + 2 - old(self).cur_token, 5int,
    {
        let ghost toks = self.tokens@;
        let ghost st0 = pstate(*self);
        let mut left_node = self.parse_multiplicative();
        let operators = self.current_prio_operators(Priority::ADDITIVE);
        loop
            invariant
                parser_ok(*self),
                parse_frame(*old(self), *self),
                toks == self.tokens@,
                st0 == pstate(*old(self)),
                self.cur_token > st0.0,
                operators@ == seq![TokenKind::PLUS, TokenKind::MINUS],
                sp_additive_rest(toks, pstate(*self), node_v(left_node)) is Some,
                sp_additive(toks, st0) == sp_additive_rest(toks, pstate(*self), node_v(left_node)),
            ensures
                parser_ok(*self),
                parse_frame(*old(self), *self),
                sp_additive(toks, st0) == Some((node_v(left_node), pstate(*self))),
            decreases self.tokens@.len() + 2 - self.cur_token,
        {
            let is_op = self.current_token_is_in(&operators);
            proof {
                assert(operators@[0] == TokenKind::PLUS);
                assert(operators@[1] == TokenKind::MINUS);
            }
            if !is_op {
                proof {
                    assert(!(tok_at(toks, self.cur_token as int).kind is PLUS || tok_at(toks, self.cur_token as int).kind is MINUS));
                }
                break;
            }
            let cur_token = self.looking_token_clone();
            self.read_token();
            let right_node = self.parse_multiplicative();
            left_node = Node::new_binary_node(&cur_token, left_node, right_node);
        }
        left_node
    }

    /// `assign` (see `sp_assign`).
    pub fn parse_assign(&mut self) -> (n: Node)
        requires
            parser_ok(*old(self)),
            sp_assign(old(self).tokens@, pstate(*old(self))) is Some,
        ensures
            parser_ok(*final(self)),
            parse_frame(*old(self), *final(self)),
            sp_assign(old(self).tokens@, pstate(*old(self))) == Some((node_v(n), pstate(*final(self)))),
        decreases old(self).tokens@.len() + 2 - old(self).cur_token, 6int,
    {
        let lvalue_node = self.parse_additive();
        let current_position = self.looking_token_clone().position;
        if self.consume(TokenKind::ASSIGN) {
            let rvalue_node = self.parse_assign();
            return Node::new_assign(current_position, lvalue_node, rvalue_node);
        }
        lvalue_node
    }

    /// `expression` (see `sp_expression`).
    pub fn parse_expression(&mut self) -> (n: Node)
        requires
            parser_ok(*old(self)),
            sp_expression(old(self).tokens@, pstate(*old(self))) is Some,
        ensures
            parser_ok(*final(self)),
            parse_frame(*old(self), *final(self)),
            sp_expression(old(self).tokens@, pstate(*old(self))) == Some((node_v(n), pstate(*final(self)))),
        decreases old(self).tokens@.len() + 2 - old(self).cur_token, 8int,
    {
        self.parse_assign()
    }
}

impl Manager {
    /// A statement (see `sp_statement`).
    pub fn parse_statement(&mut self) -> (n: Node)
        requires
            parser_ok(*old(self)),
            sp_statement(old(self).tokens@, pstate(*old(self))) is Some,
        ensures
            parser_ok(*final(self)),
            parse_frame(*old(self), *final(self)),
            sp_statement(old(self).tokens@, pstate(*old(self))) == Some((node_v(n), pstate(*final(self)))),
        decreases old(self).tokens@.len() + 2 - old(self).cur_token, 10int,
    {
        if self.is_typename() {
            return self.parse_declaration();
        }
        let cur = self.looking_token_clone();
        let labeled = match cur.kind {
            TokenKind::IDENTIFIER(_) => self.next_token_is(TokenKind::COLON),
            _ => false,
        };
        if labeled {
            return self.parse_labeled_stmt();
        }
        match cur.kind {
            TokenKind::RETURN => self.parse_return_stmt(),
            TokenKind::GOTO => self.parse_goto_stmt(),
            TokenKind::LBRACE => self.parse_compound_stmt(),
            TokenKind::IF => self.parse_selection_stmt(),
            TokenKind::FOR => self.parse_for_stmt(),
            TokenKind::DO => self.parse_do_while_stmt(),
            TokenKind::WHILE => self.parse_while_stmt(),
            _ => {
                let current_position = self.looking_token_clone().position;
                let expression = self.parse_expression();
                self.expect(TokenKind::SEMICOLON);
                Node::new_exprstmt(current_position, expression)
            },
        }
    }

    /// A declaration; the local is entered in the table (see `sp_declaration`).
    pub fn parse_declaration(&mut self) -> (n: Node)
        requires
            parser_ok(*old(self)),
            sp_declaration(old(self).tokens@, pstate(*old(self))) is Some,
        ensures
            parser_ok(*final(self)),
            parse_frame(*old(self), *final(self)),
            sp_declaration(old(self).tokens@, pstate(*old(self))) == Some((node_v(n), pstate(*final(self)))),
        decreases old(self).tokens@.len() + 2 - old(self).cur_token, 9int,
    {
        let current_position = self.looking_token_clone().position;
        let base_type = self.consume_base_type().unwrap();
        let (var_name, var_type) = self.parse_declarator(base_type);
        let local_var = Variable::init_local(var_type.duplicate());
        table_insert_exec(&mut self.var_map, var_name.clone(), local_var);
        self.expect(TokenKind::SEMICOLON);
        Node::new_declaration(current_position, var_name, var_type)
    }

    /// `{ statement* }` (see `sp_compound`).
    pub fn parse_compound_stmt(&mut self) -> (n: Node)
        requires
            parser_ok(*old(self)),
            sp_compound(old(self).tokens@, pstate(*old(self))) is Some,
        ensures
            parser_ok(*final(self)),
            parse_frame(*old(self), *final(self)),
            sp_compound(old(self).tokens@, pstate(*old(self))) == Some((node_v(n), pstate(*final(self)))),
        decreases old(self).tokens@.len() + 2 - old(self).cur_token, 9int,
    {
        let ghost toks = self.tokens@;
        let ghost st0 = pstate(*self);
        let current_position = self.looking_token_clone().position;
        self.expect(TokenKind::LBRACE);
        let ghost st1 = pstate(*self);
        let mut stmts: Vec<Node> = Vec::new();
        loop
            invariant_except_break
                sp_compound_rest(toks, pstate(*self), nodes_v(stmts@)) is Some,
                sp_compound_rest(toks, st1, Seq::empty()) == sp_compound_rest(toks, pstate(*self), nodes_v(stmts@)),
            invariant
                parser_ok(*self),
                parse_frame(*old(self), *self),
                toks == self.tokens@,
                st0 == pstate(*old(self)),
                self.cur_token > st0.0,
            ensures
                sp_compound_rest(toks, st1, Seq::empty()) == Some((nodes_v(stmts@), pstate(*self))),
            decreases self.tokens@.len() + 2 - self.cur_token,
        {
            if self.consume(TokenKind::RBRACE) {
                break;
            }
            let stmt = self.parse_statement();
            proof {
                lemma_nodes_v_push(stmts@, stmt);
            }
            stmts.push(stmt);
        }
        Node::new_compound(current_position, stmts)
    }

    /// `do statement while ( expression ) ;` (see `sp_do_while`).
    pub fn parse_do_while_stmt(&mut self) -> (n: Node)
        requires
            parser_ok(*old(self)),
            sp_do_while(old(self).tokens@, pstate(*old(self))) is Some,
        ensures
            parser_ok(*final(self)),
            parse_frame(*old(self), *final(self)),
            sp_do_while(old(self).tokens@, pstate(*old(self))) == Some((node_v(n), pstate(*final(self)))),
        decreases old(self).tokens@.len() + 2 - old(self).cur_token, 9int,
    {
        let current_position = self.looking_token_clone().position;
        self.expect(TokenKind::DO);
        let stmt = self.parse_statement();
        self.expect(TokenKind::WHILE);
        self.expect(TokenKind::LPAREN);
        let cond_expr = self.parse_expression();
        self.expect(TokenKind::RPAREN);
        self.expect(TokenKind::SEMICOLON);
        Node::new_do_while(current_position, stmt, cond_expr)
    }

    /// `while ( expression ) statement` (see `sp_while`).
    pub fn parse_while_stmt(&mut self) -> (n: Node)
        requires
            parser_ok(*old(self)),
            sp_while(old(self).tokens@, pstate(*old(self))) is Some,
        ensures
            parser_ok(*final(self)),
            parse_frame(*old(self), *final(self)),
            sp_while(old(self).tokens@, pstate(*old(self))) == Some((node_v(n), pstate(*final(self)))),
        decreases old(self).tokens@.len() + 2 - old(self).cur_token, 9int,
    {
        let current_position = self.looking_token_clone().position;
        self.expect(TokenKind::WHILE);
        self.expect(TokenKind::LPAREN);
        let cond_expr = self.parse_expression();
        self.expect(TokenKind::RPAREN);
        let stmt = self.parse_statement();
        Node::new_while(current_position, cond_expr, stmt)
    }

    /// `for ( clause clause expression ) statement` (see `sp_for`).
    pub fn parse_for_stmt(&mut self) -> (n: Node)
        requires
            parser_ok(*old(self)),
            sp_for(old(self).tokens@, pstate(*old(self))) is Some,
        ensures
            parser_ok(*final(self)),
            parse_frame(*old(self), *final(self)),
            sp_for(old(self).tokens@, pstate(*old(self))) == Some((node_v(n), pstate(*final(self)))),
        decreases old(self).tokens@.len() + 2 - old(self).cur_token, 9int,
    {
        let current_position = self.looking_token_clone().position;
        let mut clause = Node::new_nop();
        let mut expr_2 = Node::new_nop();
        self.expect(TokenKind::FOR);
        self.expect(TokenKind::LPAREN);
        if !self.consume(TokenKind::SEMICOLON) {
            clause = self.parse_expression();
            self.expect(TokenKind::SEMICOLON);
        }
        if !self.consume(TokenKind::SEMICOLON) {
            expr_2 = self.parse_expression();
            self.expect(TokenKind::SEMICOLON);
        }
        let expr_3 = self.parse_expression();
        self.expect(TokenKind::RPAREN);
        let stmt = self.parse_statement();
        Node::new_for(current_position, clause, expr_2, expr_3, stmt)
    }

    /// `if ( expression ) statement (else statement)?` (see `sp_if`).
    pub fn parse_selection_stmt(&mut self) -> (n: Node)
        requires
            parser_ok(*old(self)),
            sp_if(old(self).tokens@, pstate(*old(self))) is Some,
        ensures
            parser_ok(*final(self)),
            parse_frame(*old(self), *final(self)),
            sp_if(old(self).tokens@, pstate(*old(self))) == Some((node_v(n), pstate(*final(self)))),
        decreases old(self).tokens@.len() + 2 - old(self).cur_token, 9int,
    {
        let current_position = self.looking_token_clone().position;
        self.expect(TokenKind::IF);
        self.expect(TokenKind::LPAREN);
        let cond_expr = self.parse_expression();
        self.expect(TokenKind::RPAREN);
        let any_statement = self.parse_statement();
        if !self.consume(TokenKind::ELSE) {
            return Node::new_if(current_position, cond_expr, any_statement);
        }
        let alter_statement = self.parse_statement();
        Node::new_if_else(current_position, cond_expr, any_statement, alter_statement)
    }

    /// `goto identifier ;` (see `sp_goto`).
    pub fn parse_goto_stmt(&mut self) -> (n: Node)
        requires
            parser_ok(*old(self)),
            sp_goto(old(self).tokens@, pstate(*old(self))) is Some,
        ensures
            parser_ok(*final(self)),
            parse_frame(*old(self), *final(self)),
            sp_goto(old(self).tokens@, pstate(*old(self))) == Some((node_v(n), pstate(*final(self)))),
        decreases old(self).tokens@.len() + 2 - old(self).cur_token, 9int,
    {
        let current_position = self.looking_token_clone().position;
        self.expect(TokenKind::GOTO);
        let label_name = self.expect_ident();
        self.expect(TokenKind::SEMICOLON);
        Node::new_goto(current_position, label_name)
    }

    /// `identifier : statement` (see `sp_labeled`).
    pub fn parse_labeled_stmt(&mut self) -> (n: Node)
        requires
            parser_ok(*old(self)),
            sp_labeled(old(self).tokens@, pstate(*old(self))) is Some,
        ensures
            parser_ok(*final(self)),
            parse_frame(*old(self), *final(self)),
            sp_labeled(old(self).tokens@, pstate(*old(self))) == Some((node_v(n), pstate(*final(self)))),
        decreases old(self).tokens@.len() + 2 - old(self).cur_token, 9int,
    {
        let current_position = self.looking_token_clone().position;
        let label_name = self.expect_ident();
        self.expect(TokenKind::COLON);
        let any_statement = self.parse_statement();
        Node::new_labeled(current_position, label_name, any_statement)
    }

    /// `return expression ;` (see `sp_return`).
    pub fn parse_return_stmt(&mut self) -> (n: Node)
        requires
            parser_ok(*old(self)),
            sp_return(old(self).tokens@, pstate(*old(self))) is Some,
        ensures
            parser_ok(*final(self)),
            parse_frame(*old(self), *final(self)),
            sp_return(old(self).tokens@, pstate(*old(self))) == Some((node_v(n), pstate(*final(self)))),
        decreases old(self).tokens@.len() + 2 - old(self).cur_token, 9int,
    {
        let current_position = self.looking_token_clone().position;
        self.expect(TokenKind::RETURN);
        let return_expr = self.parse_expression();
        self.expect(TokenKind::SEMICOLON);
        Node::new_return(current_position, return_expr)
    }

    /// A declarator (see `sp_declarator`): the declared name and its type.
    pub fn parse_declarator(&mut self, base_type: Type) -> (r: (String, Type))
        requires
            parser_ok(*old(self)),
            sp_declarator(old(self).tokens@, pstate(*old(self)), base_type) is Some,
        ensures
            final(self).var_map == old(self).var_map,
            final(self).params == old(self).params,
            final(self).errors == old(self).errors,
            parser_ok(*final(self)),
            parse_frame(*old(self), *final(self)),
            sp_declarator(old(self).tokens@, pstate(*old(self)), base_type) == Some((r.0@, r.1, pstate(*final(self)))),
        decreases old(self).tokens@.len() + 2 - old(self).cur_token,
    {
        let ghost toks = self.tokens@;
        let ghost st0 = pstate(*self);
        let mut covered_type = base_type;
        loop
            invariant_except_break
                sp_stars(toks, st0, base_type) == sp_stars(toks, pstate(*self), covered_type),
            invariant
                parser_ok(*self),
                parse_frame(*old(self), *self),
                self.var_map == old(self).var_map,
                self.params == old(self).params,
                self.errors == old(self).errors,
                toks == self.tokens@,
                st0 == pstate(*old(self)),
                self.cur_token >= st0.0,
                self.cur_token <= toks.len() + 1,
            ensures
                sp_stars(toks, st0, base_type) == (covered_type, pstate(*self)),
                self.var_map == old(self).var_map,
                self.params == old(self).params,
                self.errors == old(self).errors,
            decreases self.tokens@.len() + 2 - self.cur_token,
        {
            if !self.consume(TokenKind::ASTERISK) {
                break;
            }
            covered_type = Type::pointer_to(covered_type);
        }
        if self.consume(TokenKind::LPAREN) {
            let placeholder = Type::new_unknown();
            let (name, new_type) = self.parse_declarator(placeholder);
            self.expect(TokenKind::RPAREN);
            return (name, new_type);
        }
        let name = self.expect_ident();
        (name, covered_type)
    }
}

impl Manager {
    /// Parses the tokens into function definitions (see `sp_toplevel`).
    pub fn parse(&mut self)
        requires
            old(self).next_token == old(self).cur_token + 1,
            old(self).tokens@.len() + 4 < usize::MAX,
            old(self).tokens@.len() > 0 ==> old(self).cur_token <= old(self).tokens@.len() + 2 && sp_toplevel(
                old(self).tokens@,
                pstate(*old(self)),
            ) is Some,
        ensures
            old(self).tokens@.len() == 0 ==> *final(self) == *old(self),
            old(self).tokens@.len() > 0 ==> sp_toplevel(old(self).tokens@, pstate(*old(self))) == Some(
                (functions_v(final(self).functions@).skip(old(self).functions@.len() as int), pstate(*final(self))),
            ),
            final(self).functions@.take(old(self).functions@.len() as int) == old(self).functions@,
            final(self).tokens == old(self).tokens,
            final(self).ir_funcs == old(self).ir_funcs,
            forall|k: int|
                old(self).functions@.len() <= k < final(self).functions@.len() ==> (#[trigger] final(self).functions@[k]).frame_size
                    == 0,
            final(self).src_file == old(self).src_file,
            final(self).next_token == final(self).cur_token + 1,
            final(self).cur_bb == old(self).cur_bb,
            final(self).virt == old(self).virt,
            final(self).label == old(self).label,
    {
        self.parse_toplevel();
    }

    /// Parses function definitions while one starts (see `sp_toplevel`);
    /// with no tokens there is none.
    pub fn parse_toplevel(&mut self)
        requires
            old(self).next_token == old(self).cur_token + 1,
            old(self).tokens@.len() + 4 < usize::MAX,
            old(self).tokens@.len() > 0 ==> old(self).cur_token <= old(self).tokens@.len() + 2 && sp_toplevel(
                old(self).tokens@,
                pstate(*old(self)),
            ) is Some,
        ensures
            old(self).tokens@.len() == 0 ==> *final(self) == *old(self),
            old(self).tokens@.len() > 0 ==> sp_toplevel(old(self).tokens@, pstate(*old(self))) == Some(
                (functions_v(final(self).functions@).skip(old(self).functions@.len() as int), pstate(*final(self))),
            ),
            final(self).functions@.take(old(self).functions@.len() as int) == old(self).functions@,
            final(self).tokens == old(self).tokens,
            final(self).ir_funcs == old(self).ir_funcs,
            forall|k: int|
                old(self).functions@.len() <= k < final(self).functions@.len() ==> (#[trigger] final(self).functions@[k]).frame_size
                    == 0,
            final(self).src_file == old(self).src_file,
            final(self).next_token == final(self).cur_token + 1,
            final(self).cur_bb == old(self).cur_bb,
            final(self).virt == old(self).virt,
            final(self).label == old(self).label,
    {
        if self.tokens.len() == 0 {
            return;
        }
        let ghost toks = self.tokens@;
        let ghost st0 = pstate(*self);
        let ghost n0 = self.functions@.len();
        loop
            invariant_except_break
                sp_toplevel(toks, pstate(*self)) is Some,
                match sp_toplevel(toks, pstate(*self)) {
                    Some((fs, s)) => sp_toplevel(toks, st0) == Some((functions_v(self.functions@).skip(n0 as int) + fs, s)),
                    None => false,
                },
            invariant
                parser_ok(*self),
                toks == self.tokens@,
                self.tokens == old(self).tokens,
                toks.len() > 0,
                st0 == pstate(*old(self)),
                n0 == old(self).functions@.len(),
                self.functions@.len() >= n0,
                self.functions@.take(n0 as int) == old(self).functions@,
                self.ir_funcs == old(self).ir_funcs,
                self.src_file == old(self).src_file,
                self.cur_bb == old(self).cur_bb,
                self.virt == old(self).virt,
                self.label == old(self).label,
                forall|k: int| n0 <= k < self.functions@.len() ==> #[trigger] self.functions@[k].frame_size == 0,
            ensures
                sp_toplevel(toks, st0) == Some((functions_v(self.functions@).skip(n0 as int), pstate(*self))),
            decreases self.tokens@.len() + 2 - self.cur_token,
        {
            let ghost st = pstate(*self);
            let is_func = self.is_function();
            if !is_func {
                proof {
                    assert(functions_v(self.functions@).skip(n0 as int) + Seq::<FunctionV>::empty() =~= functions_v(self.functions@).skip(n0 as int));
                }
                break;
            }
            self.params.clear();
            self.var_map.clear();
            proof {
                assert(table_view(self.params@) =~= Seq::empty());
                assert(table_view(self.var_map@) =~= Seq::empty());
            }
            let ghost before = self.functions@;
            let mut func = self.parse_function();
            func.local_map = table_duplicate(&self.var_map);
            func.params = table_duplicate(&self.params);
            let ghost fv = function_v(func);
            self.functions.push(func);
            proof {
                assert(functions_v(self.functions@).skip(n0 as int) =~= functions_v(before).skip(n0 as int).push(fv));
                assert(self.functions@.take(n0 as int) =~= before.take(n0 as int));
                let rest = sp_toplevel(toks, pstate(*self));
                assert(rest is Some);
                let (fs, s) = rest->0;
                assert(seq![fv] + fs =~= seq![fv] + fs);
                assert(functions_v(before).skip(n0 as int) + (seq![fv] + fs) =~= functions_v(self.functions@).skip(n0 as int) + fs);
            }
        }
    }

    /// Whether a function definition starts here (see `sp_is_function`);
    /// the position is restored afterwards.
    pub fn is_function(&mut self) -> (b: bool)
        requires
            parser_ok(*old(self)),
            old(self).cur_token <= old(self).tokens@.len() + 1,
            sp_is_function(old(self).tokens@, pstate(*old(self))) is Some,
        ensures
            sp_is_function(old(self).tokens@, pstate(*old(self))) == Some(b),
            *final(self) == *old(self),
    {
        let cur_token = self.cur_token;
        let next_token = self.next_token;
        let mut is_func = false;
        if let Some(base_type) = self.consume_base_type() {
            if !self.consume(TokenKind::SEMICOLON) {
                let (name, _type) = self.parse_declarator(base_type);
                is_func = !name.as_str().is_empty() && self.consume(TokenKind::LPAREN);
            }
        }
        self.cur_token = cur_token;
        self.next_token = next_token;
        is_func
    }

    /// A function definition (see `sp_function`); its parameters go to the
    /// parameter table and its locals to the local table.
    pub fn parse_function(&mut self) -> (f: Function)
        requires
            parser_ok(*old(self)),
            sp_function(old(self).tokens@, pstate(*old(self))) is Some,
        ensures
            parser_ok(*final(self)),
            parse_frame(*old(self), *final(self)),
            sp_function(old(self).tokens@, pstate(*old(self))) == Some(
                ((f.name@, f.def_position, f.return_type, nodes_v(f.stmts@)), pstate(*final(self))),
            ),
            f.frame_size == 0,
    {
        let ghost toks = self.tokens@;
        let current_position = self.looking_token_clone().position;
        let base_type = self.consume_base_type().unwrap();
        let (name, dec_type) = self.parse_declarator(base_type);
        let mut func = Function::init(name, current_position, dec_type);
        let ghost fname = func.name;
        let ghost fty = func.return_type;
        self.expect(TokenKind::LPAREN);
        self.consume(TokenKind::VOID);
        let ghost st_params = pstate(*self);
        loop
            invariant_except_break
                sp_params(toks, pstate(*self)) is Some,
                sp_params(toks, st_params) == sp_params(toks, pstate(*self)),
            invariant
                parser_ok(*self),
                parse_frame(*old(self), *self),
                toks == self.tokens@,
                func.frame_size == 0,
                func.stmts@.len() == 0,
                func.name == fname,
                func.return_type == fty,
                func.def_position == current_position,
            ensures
                sp_params(toks, st_params) == Some(pstate(*self)),
            decreases self.tokens@.len() + 2 - self.cur_token,
        {
            if self.consume(TokenKind::RPAREN) {
                break;
            }
            let base_type = self.consume_base_type().unwrap();
            let (arg_name, dec_type) = self.parse_declarator(base_type);
            let argument = Variable::init_local(dec_type);
            table_insert_exec(&mut self.params, arg_name, argument);
            self.consume(TokenKind::COMMA);
        }
        self.expect(TokenKind::LBRACE);
        let ghost st_body = pstate(*self);
        loop
            invariant_except_break
                sp_compound_rest(toks, pstate(*self), nodes_v(func.stmts@)) is Some,
                sp_compound_rest(toks, st_body, Seq::empty()) == sp_compound_rest(toks, pstate(*self), nodes_v(func.stmts@)),
            invariant
                parser_ok(*self),
                parse_frame(*old(self), *self),
                toks == self.tokens@,
                func.frame_size == 0,
                func.name == fname,
                func.return_type == fty,
                func.def_position == current_position,
            ensures
                sp_compound_rest(toks, st_body, Seq::empty()) == Some((nodes_v(func.stmts@), pstate(*self))),
            decreases self.tokens@.len() + 2 - self.cur_token,
        {
            if self.consume(TokenKind::RBRACE) {
                break;
            }
            let stmt = self.parse_statement();
            proof {
                lemma_nodes_v_push(func.stmts@, stmt);
            }
            func.stmts.push(stmt);
        }
        assert(nodes_v(Seq::<Node>::empty()) =~= Seq::<NodeV>::empty());
        func
    }
}

/// A `for` statement keeps its header in the order it is written: parsed
/// from `for (`, its first child is the first clause, its second child the
/// clause after it, its third child the expression after that, which the
/// closing parenthesis ends, and its fourth child the statement that
/// follows.
pub proof fn lemma_for_children_in_source_order(toks: Seq<Token>, st: PState)
    requires
        sp_for(toks, st) is Some,
    ensures
        kind_at(toks, st.0) is FOR,
        kind_at(toks, st.0 + 1) is LPAREN,
        (sp_for(toks, st)->0).0.kind matches NodeKindV::For(init, cond, step, body) && {
            &&& sp_for_clause(toks, adv(st, 2)) matches Some((i, s1)) && i == *init && {
                &&& sp_for_clause(toks, s1) matches Some((c, s2)) && c == *cond && {
                    &&& sp_expression(toks, s2) matches Some((e, s3)) && e == *step && {
                        &&& kind_at(toks, s3.0) is RPAREN
                        &&& sp_statement(toks, adv(s3, 1)) == Some((*body, (sp_for(toks, st)->0).1))
                    }
                }
            }
        },
{
    assert(adv(adv(st, 1), 1) == adv(st, 2));
}

/// A `while` statement's first child is the condition written between the
/// parentheses after `while`, and its second child the statement after them.
pub proof fn lemma_while_children_in_source_order(toks: Seq<Token>, st: PState)
    requires
        sp_while(toks, st) is Some,
    ensures
        kind_at(toks, st.0) is WHILE,
        kind_at(toks, st.0 + 1) is LPAREN,
        (sp_while(toks, st)->0).0.kind matches NodeKindV::While(cond, body) && {
            &&& sp_expression(toks, adv(st, 2)) matches Some((c, s1)) && c == *cond && {
                &&& kind_at(toks, s1.0) is RPAREN
                &&& sp_statement(toks, adv(s1, 1)) == Some((*body, (sp_while(toks, st)->0).1))
            }
        },
{
    assert(adv(adv(st, 1), 1) == adv(st, 2));
}

/// A `do` statement's first child is the statement written after `do`, and
/// its second child the condition between the parentheses after `while`.
pub proof fn lemma_do_while_children_in_source_order(toks: Seq<Token>, st: PState)
    requires
        sp_do_while(toks, st) is Some,
    ensures
        kind_at(toks, st.0) is DO,
        (sp_do_while(toks, st)->0).0.kind matches NodeKindV::DoWhile(body, cond) && {
            &&& sp_statement(toks, adv(st, 1)) matches Some((b, s1)) && b == *body && {
                &&& kind_at(toks, s1.0) is WHILE
                &&& kind_at(toks, s1.0 + 1) is LPAREN
                &&& sp_expression(toks, adv(s1, 2)) matches Some((c, s2)) && c == *cond && {
                    &&& kind_at(toks, s2.0) is RPAREN
                    &&& kind_at(toks, s2.0 + 1) is SEMICOLON
                    &&& (sp_do_while(toks, st)->0).1 == adv(s2, 2)
                }
            }
        },
{
    assert(adv(adv(st, 1), 1) == adv(st, 2));
}

/// An `if` statement's first child is the condition written between the
/// parentheses after `if`, its second child the statement after them, and,
/// when `else` follows that statement, its third child the statement after
/// `else`; without `else` it has no third child.
pub proof fn lemma_if_children_in_source_order(toks: Seq<Token>, st: PState)
    requires
        sp_if(toks, st) is Some,
    ensures
        kind_at(toks, st.0) is IF,
        kind_at(toks, st.0 + 1) is LPAREN,
        sp_expression(toks, adv(st, 2)) matches Some((c, s1)) && {
            &&& kind_at(toks, s1.0) is RPAREN
            &&& sp_statement(toks, adv(s1, 1)) matches Some((body, s2)) && {
                &&& kind_at(toks, s2.0) is ELSE ==> (sp_statement(toks, adv(s2, 1)) matches Some((alt, s3)) && (sp_if(
                    toks,
                    st,
                )->0).0.kind == NodeKindV::IfElse(Box::new(c), Box::new(body), Box::new(alt)) && (sp_if(toks, st)->0).1 == s3)
                &&& !(kind_at(toks, s2.0) is ELSE) ==> (sp_if(toks, st)->0).0.kind == NodeKindV::If(Box::new(c), Box::new(body))
                    && (sp_if(toks, st)->0).1 == s2
            }
        },
{
    assert(adv(adv(st, 1), 1) == adv(st, 2));
}

} // verus!
