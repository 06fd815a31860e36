pub mod lex;
pub mod manager;
pub mod node;
pub mod parse;
pub mod token;
pub mod types;
pub mod variable;
pub mod sema;
pub mod alloc_frame;

use vstd::prelude::*;

use crate::compiler::backend::translate_ir::{code_fits, code_generated, func_code};
use crate::compiler::file::SrcFile;
use crate::compiler::frontend::alloc_frame::{frame_allocated, frame_fits};
use crate::compiler::frontend::lex::{c_keywords, lex_ok, lexed};
use crate::compiler::frontend::manager::Manager;
use crate::compiler::frontend::node::nodes_v;
use crate::compiler::frontend::parse::{functions_v, pstate, sp_toplevel};
use crate::compiler::frontend::sema::{sem_stmts, sema_errors, sema_frame, sigs_of};
use crate::compiler::frontend::token::TokenKind;
use crate::compiler::frontend::variable::table_view;
use crate::target::Target;

verus! {

/// `m` is a fresh manager over `src` holding the tokens the lexer gives for
/// its text, with the keywords of C--.
pub open spec fn tokenized(src: SrcFile, m: Manager) -> bool {
    &&& m.src_file == src
    &&& exists|kws: Seq<(String, TokenKind)>| #[trigger] c_keywords(kws) && lexed(kws, 1, 1, src.contents@, m.tokens@)
    &&& m.functions@.len() == 0
    &&& m.cur_token == 0
    &&& m.next_token == 1
    &&& m.params@.len() == 0
    &&& m.var_map@.len() == 0
    &&& m.ir_funcs@.len() == 0
    &&& m.cur_bb == 0
    &&& m.virt == 0
    &&& m.label == 0
    &&& m.errors@.len() == 0
}

/// The parser can run on `m`: positions fit and the tokens form function
/// definitions as far as the parser reads.
pub open spec fn parsable(m: Manager) -> bool {
    &&& m.next_token == m.cur_token + 1
    &&& m.tokens@.len() + 4 < usize::MAX
    &&& m.tokens@.len() > 0 ==> m.cur_token <= m.tokens@.len() + 2 && sp_toplevel(m.tokens@, pstate(m)) is Some
}

/// `b` is `a` after parsing (see `sp_toplevel`).
pub open spec fn parsed(a: Manager, b: Manager) -> bool {
    &&& a.tokens@.len() == 0 ==> b == a
    &&& a.tokens@.len() > 0 ==> sp_toplevel(a.tokens@, pstate(a)) == Some(
        (functions_v(b.functions@).skip(a.functions@.len() as int), pstate(b)),
    )
    &&& b.functions@.take(a.functions@.len() as int) == a.functions@
    &&& forall|k: int| a.functions@.len() <= k < b.functions@.len() ==> (#[trigger] b.functions@[k]).frame_size == 0
    &&& b.tokens == a.tokens
    &&& b.ir_funcs == a.ir_funcs
    &&& b.src_file == a.src_file
    &&& b.next_token == b.cur_token + 1
    &&& b.cur_bb == a.cur_bb
    &&& b.virt == a.virt
    &&& b.label == a.label
}

/// `b` is `a` after typing (see `sem_stmts`).
pub open spec fn typed(a: Manager, b: Manager) -> bool {
    &&& b.functions@.len() == a.functions@.len()
    &&& forall|f: int|
        #![trigger b.functions@[f]]
        0 <= f < a.functions@.len() ==> {
            let of = a.functions@[f];
            let nf = b.functions@[f];
            &&& nf.name == of.name
            &&& nf.def_position == of.def_position
            &&& nf.frame_size == of.frame_size
            &&& nf.return_type == of.return_type
            &&& nf.local_map == of.local_map
            &&& nf.params == of.params
            &&& nodes_v(nf.stmts@) == sem_stmts(nodes_v(of.stmts@), table_view(of.local_map@), sigs_of(a.functions@)).0
        }
    &&& b.errors@ == a.errors@ + sema_errors(a.functions@, sigs_of(a.functions@), a.functions@.len() as int)
    &&& a.functions@.len() > 0 ==> b.var_map@.len() == 0
    &&& a.functions@.len() == 0 ==> b.var_map == a.var_map
    &&& sema_frame(a, b)
}

/// Every function's frame can be laid out within `usize`.
pub open spec fn framable(m: Manager) -> bool {
    forall|f: int| 0 <= f < m.functions@.len() ==> #[trigger] frame_fits(m.functions@[f])
}

/// `b` is `a` with frames laid out on x86_64, and `a` itself elsewhere.
pub open spec fn framed(target: Target, a: Manager, b: Manager) -> bool {
    if target.arch is X86_64 {
        &&& b.functions@.len() == a.functions@.len()
        &&& forall|f: int| 0 <= f < a.functions@.len() ==> #[trigger] frame_allocated(a.functions@[f], b.functions@[f])
        &&& b.tokens == a.tokens
        &&& b.ir_funcs == a.ir_funcs
        &&& b.errors == a.errors
        &&& a.functions@.len() > 0 ==> b.var_map@.len() == 0 && b.params@.len() == 0
        &&& a.functions@.len() == 0 ==> b.var_map == a.var_map && b.params == a.params
        &&& b.src_file == a.src_file
        &&& b.cur_token == a.cur_token
        &&& b.next_token == a.next_token
        &&& b.cur_bb == a.cur_bb
        &&& b.virt == a.virt
        &&& b.label == a.label
    } else {
        b == a
    }
}

/// `b` is `a` with three-address code generated for every function.
pub open spec fn generated(a: Manager, b: Manager) -> bool {
    &&& code_generated(b.ir_funcs@, a.functions@, table_view(a.var_map@))
    &&& a.functions@.len() > 0 ==> (b.virt as int, b.label as int) == (
        (func_code(a.functions@.last(), table_view(a.var_map@))->0).1,
        (func_code(a.functions@.last(), table_view(a.var_map@))->0).2,
    )
    &&& a.functions@.len() == 0 ==> b.virt == a.virt && b.label == a.label && b.cur_bb == a.cur_bb
    &&& a.functions@.len() > 0 ==> b.cur_bb == b.ir_funcs@.last().blocks@.len() - 1
    &&& b.functions == a.functions
    &&& b.var_map == a.var_map
    &&& b.errors == a.errors
    &&& b.tokens == a.tokens
    &&& b.src_file == a.src_file
    &&& b.cur_token == a.cur_token
    &&& b.next_token == a.next_token
    &&& b.params == a.params
}

/// The front end can run on `src` for `target`: the lexer's scans fit, the
/// tokens parse, the frames fit (on x86_64) and code generation's counters fit.
pub open spec fn frontend_ok(src: SrcFile, target: Target) -> bool {
    &&& lex_ok(1, 1, src.contents@)
    &&& forall|m1: Manager| #[trigger] tokenized(src, m1) ==> parsable(m1)
    &&& forall|m1: Manager, m2: Manager, m3: Manager|
        tokenized(src, m1) && #[trigger] parsed(m1, m2) && #[trigger] typed(m2, m3) ==> (target.arch is X86_64
            ==> framable(m3))
    &&& forall|m1: Manager, m2: Manager, m3: Manager, m4: Manager|
        tokenized(src, m1) && #[trigger] parsed(m1, m2) && #[trigger] typed(m2, m3) && #[trigger] framed(
            target,
            m3,
            m4,
        ) ==> code_fits(m4.functions@, table_view(m4.var_map@))
}

/// `m` is what the front end leaves for `src` on `target`: the stages run
/// one after another, each on what the one before left.
pub open spec fn frontend_done(src: SrcFile, target: Target, m: Manager) -> bool {
    exists|m1: Manager, m2: Manager, m3: Manager, m4: Manager|
        {
            &&& #[trigger] tokenized(src, m1)
            &&& #[trigger] parsed(m1, m2)
            &&& #[trigger] typed(m2, m3)
            &&& #[trigger] framed(target, m3, m4)
            &&& #[trigger] generated(m4, m)
        }
}

/// The front end: lexes the source, parses it, types it, lays out the
/// frames on x86_64 and generates three-address code, each stage on what
/// the one before left.
pub fn frontend_process(source_file: SrcFile, target: &Target) -> (m: Manager)
    requires
        frontend_ok(source_file, *target),
    ensures
        frontend_done(source_file, *target, m),
{
    let ghost src = source_file;
    let mut manager = Manager::new(source_file);
    lex::tokenize(&mut manager);
    let ghost m1 = manager;
    assert(tokenized(src, m1));
    assert(parsable(m1));
    manager.parse();
    let ghost m2 = manager;
    assert(parsed(m1, m2));
    manager.semantics();
    let ghost m3 = manager;
    assert(typed(m2, m3));
    if target.is_x86_64() {
        assert(framable(m3));
        manager.alloc_frame();
    }
    let ghost m4 = manager;
    assert(framed(*target, m3, m4));
    assert(code_fits(m4.functions@, table_view(m4.var_map@)));
    assert(m4.ir_funcs@.len() == 0);
    manager.generate_three_address_code();
    assert(generated(m4, manager));
    manager
}

} // verus!
