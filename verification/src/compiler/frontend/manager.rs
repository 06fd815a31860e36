use vstd::prelude::*;

use crate::compiler::file::SrcFile;
use crate::compiler::frontend::node::Function;
use crate::compiler::frontend::token::Token;
use crate::compiler::frontend::variable::Variable;
use crate::compiler::ir::three_address_code::function::IRFunction;
use crate::error::Error;

verus! {

/// The compiler's state over one source file: its tokens, its functions,
/// the parser's position and tables, the three-address code generated so
/// far, and the diagnostics reported.
pub struct Manager {
    pub src_file: SrcFile,
    pub tokens: Vec<Token>,
    pub functions: Vec<Function>,
    pub cur_token: usize,
    pub next_token: usize,
    pub params: Vec<(String, Variable)>,
    pub var_map: Vec<(String, Variable)>,
    pub ir_funcs: Vec<IRFunction>,
    pub cur_bb: usize,
    pub virt: usize,
    pub label: usize,
    pub errors: Vec<Error>,
}

impl Manager {
    /// A manager over `src` with nothing done yet.
    pub fn new(src: SrcFile) -> (m: Self)
        ensures
            m.src_file == src,
            m.tokens@.len() == 0,
            m.functions@.len() == 0,
            m.cur_token == 0,
            m.next_token == 1,
            m.params@.len() == 0,
            m.var_map@.len() == 0,
            m.ir_funcs@.len() == 0,
            m.cur_bb == 0,
            m.virt == 0,
            m.label == 0,
            m.errors@.len() == 0,
    {
        Self {
            src_file: src,
            tokens: Vec::new(),
            functions: Vec::new(),
            cur_token: 0,
            next_token: 1,
            params: Vec::new(),
            var_map: Vec::new(),
            ir_funcs: Vec::new(),
            cur_bb: 0,
            virt: 0,
            label: 0,
            errors: Vec::new(),
        }
    }
}

} // verus!
