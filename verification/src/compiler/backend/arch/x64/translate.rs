use vstd::prelude::*;

use crate::compiler::backend::arch::x64::optimizer::X64Optimizer;
use crate::compiler::backend::high_optimizer::HighOptimizer;
use crate::compiler::ir::arch::x64::basicblock::X64BasicBlock;
use crate::compiler::ir::arch::x64::function::X64Function;
use crate::compiler::ir::arch::x64::ir::X64IR;
use crate::compiler::ir::arch::x64::ir_kind::{ir_op, ir_operands, ir_target, X64IRKind, X64Op, X64OpeKind, X64Operand};
use crate::compiler::ir::three_address_code::basicblock::BasicBlock;
use crate::compiler::ir::three_address_code::function::IRFunction;
use crate::compiler::ir::three_address_code::tac::ThreeAddressCode;
use crate::compiler::ir::three_address_code::tac_kind::{OpeKind, Operand, Operator, TacKind};

verus! {

/// An operand kind of three-address code as an x86_64 operand kind.
pub open spec fn x64_kind(k: OpeKind) -> X64OpeKind {
    match k {
        OpeKind::INTLIT(v) => X64OpeKind::INTLIT(v),
        OpeKind::AUTOVARIABLE(name, offset) => X64OpeKind::AUTOVAR(name, offset),
        OpeKind::REG => X64OpeKind::REG,
        OpeKind::INVALID => X64OpeKind::INVALID,
    }
}

/// An operand of three-address code as an x86_64 operand.
pub open spec fn x64_operand(op: Operand) -> X64Operand {
    X64Operand { kind: x64_kind(op.kind), virt: op.virt, phys: op.phys }
}

/// The register that holds intermediate results: rax (allocation number 12).
pub open spec fn rax_operand() -> X64Operand {
    X64Operand { kind: X64OpeKind::REG, virt: 0, phys: 12 }
}

/// An instruction of the given kind.
pub open spec fn ir_of(kind: X64IRKind) -> X64IR {
    X64IR { kind }
}

/// The arithmetic instruction for a binary operator.
pub open spec fn binary_ir(op: Operator, left: X64Operand, right: X64Operand) -> X64IR {
    match op {
        Operator::PLUS => ir_of(X64IRKind::ADD(left, right)),
        Operator::MINUS => ir_of(X64IRKind::SUB(left, right)),
        Operator::ASTERISK => ir_of(X64IRKind::MUL(left, right)),
        Operator::SLASH => ir_of(X64IRKind::DIV(left, right)),
    }
}

/// The instruction can be translated: a unary expression negates, and the
/// left operand of a binary expression is a literal, a register or a variable.
pub open spec fn translatable(t: ThreeAddressCode) -> bool {
    match t.kind {
        TacKind::UNARYEXPR(_, op, _) => op is MINUS,
        TacKind::EXPR(_, _, left, _) => !(left.kind is INVALID),
        _ => true,
    }
}

/// The x86_64 instructions one three-address instruction becomes. Labels
/// vanish (blocks carry them). A binary expression whose left operand is a
/// register computes in place and then copies; one whose left operand is a
/// variable copies first; a literal left operand with a register on the
/// right goes through `rax`.
pub open spec fn translated_tac(t: ThreeAddressCode) -> Seq<X64IR> {
    match t.kind {
        TacKind::LABEL(_) => Seq::empty(),
        TacKind::IFF(op, label) => seq![ir_of(X64IRKind::CMPZERO(x64_operand(op))), ir_of(X64IRKind::JZ(label))],
        TacKind::GOTO(label) => seq![ir_of(X64IRKind::JMP(label))],
        TacKind::ASSIGN(lv, rv) => seq![ir_of(X64IRKind::STORE(x64_operand(lv), x64_operand(rv)))],
        TacKind::RET(op) => seq![ir_of(X64IRKind::RET(x64_operand(op)))],
        TacKind::UNARYEXPR(var, _, inner) => seq![
            ir_of(X64IRKind::MOV(x64_operand(var), x64_operand(inner))),
            ir_of(X64IRKind::NEGATIVE(x64_operand(var))),
        ],
        TacKind::EXPR(var, op, left, right) => {
            let dst = x64_operand(var);
            let l = x64_operand(left);
            let r = x64_operand(right);
            match left.kind {
                OpeKind::REG => seq![binary_ir(op, l, r), ir_of(X64IRKind::MOV(dst, l))],
                OpeKind::AUTOVARIABLE(_, _) => seq![ir_of(X64IRKind::MOV(dst, l)), binary_ir(op, l, r)],
                _ => if right.kind is REG {
                    seq![
                        ir_of(X64IRKind::MOV(rax_operand(), l)),
                        binary_ir(op, rax_operand(), r),
                        ir_of(X64IRKind::MOV(dst, rax_operand())),
                    ]
                } else {
                    seq![ir_of(X64IRKind::MOV(dst, l)), binary_ir(op, dst, r)]
                },
            }
        },
    }
}

/// The x86_64 instructions the first `k` instructions become, in order.
pub open spec fn translated_tacs(tacs: Seq<ThreeAddressCode>, k: int) -> Seq<X64IR>
    decreases k,
{
    if k <= 0 {
        Seq::empty()
    } else {
        translated_tacs(tacs, k - 1) + translated_tac(tacs[k - 1])
    }
}

/// Every instruction of the block can be translated.
pub open spec fn block_translatable(b: BasicBlock) -> bool {
    forall|k: int| 0 <= k < b.tacs@.len() ==> #[trigger] translatable(b.tacs@[k])
}

/// `x` is the x86_64 translation of block `b`.
pub open spec fn block_translated(b: BasicBlock, x: X64BasicBlock) -> bool {
    &&& x.label@ == b.label@
    &&& x.irs@ == translated_tacs(b.tacs@, b.tacs@.len() as int)
}

/// Every block of the function can be translated.
pub open spec fn function_translatable(f: IRFunction) -> bool {
    forall|b: int| 0 <= b < f.blocks@.len() ==> #[trigger] block_translatable(f.blocks@[b])
}

/// `x` is the x86_64 translation of function `f`, block by block.
pub open spec fn function_translated(f: IRFunction, x: X64Function) -> bool {
    &&& x.func_name@ == f.name@
    &&& x.frame_size == f.frame_size
    &&& x.blocks@.len() == f.blocks@.len()
    &&& forall|b: int| 0 <= b < f.blocks@.len() ==> #[trigger] block_translated(f.blocks@[b], x.blocks@[b])
}

impl HighOptimizer {
    /// Translates every function into x86_64 instructions (see
    /// `function_translated`).
    pub fn translate_tacs_to_x64(high_opt: &Self) -> (x: X64Optimizer)
        requires
            forall|f: int| 0 <= f < high_opt.functions@.len() ==> #[trigger] function_translatable(high_opt.functions@[f]),
        ensures
            x.functions@.len() == high_opt.functions@.len(),
            forall|f: int|
                0 <= f < high_opt.functions@.len() ==> #[trigger] function_translated(high_opt.functions@[f], x.functions@[f]),
    {
        let mut x64_funcs: Vec<X64Function> = Vec::new();
        let mut i: usize = 0;
        while i < high_opt.functions.len()
            invariant
                0 <= i <= high_opt.functions@.len(),
                x64_funcs@.len() == i,
                forall|f: int| 0 <= f < high_opt.functions@.len() ==> #[trigger] function_translatable(high_opt.functions@[f]),
                forall|f: int| 0 <= f < i ==> #[trigger] function_translated(high_opt.functions@[f], x64_funcs@[f]),
            decreases high_opt.functions@.len() - i,
        {
            let x64_func = Self::translate_meta_func_to_x64(&high_opt.functions[i]);
            x64_funcs.push(x64_func);
            i = i + 1;
        }
        X64Optimizer::new(x64_funcs)
    }

    /// Translates one function, block by block.
    fn translate_meta_func_to_x64(meta_func: &IRFunction) -> (x: X64Function)
        requires
            function_translatable(*meta_func),
        ensures
            function_translated(*meta_func, x),
    {
        let mut x64_blocks: Vec<X64BasicBlock> = Vec::new();
        let mut i: usize = 0;
        while i < meta_func.blocks.len()
            invariant
                0 <= i <= meta_func.blocks@.len(),
                x64_blocks@.len() == i,
                function_translatable(*meta_func),
                forall|b: int| 0 <= b < i ==> #[trigger] block_translated(meta_func.blocks@[b], x64_blocks@[b]),
            decreases meta_func.blocks@.len() - i,
        {
            assert(block_translatable(meta_func.blocks@[i as int]));
            let x64_block = Self::translate_meta_bb_to_x64(&meta_func.blocks[i]);
            x64_blocks.push(x64_block);
            i = i + 1;
        }
        X64Function::new(meta_func.name.clone(), x64_blocks, meta_func.frame_size)
    }

    /// Translates one block (see `translated_tac`).
    fn translate_meta_bb_to_x64(meta_bb: &BasicBlock) -> (x: X64BasicBlock)
        requires
            block_translatable(*meta_bb),
        ensures
            block_translated(*meta_bb, x),
    {
        let mut low_irs: Vec<X64IR> = Vec::new();
        let n = meta_bb.tacs.len();
        let mut i: usize = 0;
        while i < n
            invariant
                n == meta_bb.tacs@.len(),
                0 <= i <= n,
                block_translatable(*meta_bb),
                low_irs@ == translated_tacs(meta_bb.tacs@, i as int),
            decreases n - i,
        {
            assert(translatable(meta_bb.tacs@[i as int]));
            Self::translate_tac(&mut low_irs, &meta_bb.tacs[i]);
            i = i + 1;
        }
        X64BasicBlock::new(meta_bb.label.clone(), low_irs)
    }

    /// Appends the x86_64 instructions one three-address instruction
    /// becomes (see `translated_tac`).
    pub(crate) fn translate_tac(low_irs: &mut Vec<X64IR>, t: &ThreeAddressCode)
        requires
            translatable(*t),
        ensures
            final(low_irs)@ == old(low_irs)@ + translated_tac(*t),
    {
        let ghost before = low_irs@;
        match &t.kind {
            TacKind::LABEL(_label_name) => {},
            TacKind::IFF(op, label_name) => {
                let tested_op = Self::tac_operand_to_x64(op.duplicate());
                Self::push_zero_test(low_irs, tested_op, label_name.clone());
            },
            TacKind::GOTO(label_name) => {
                low_irs.push(X64IR::new_jump(label_name.clone()));
            },
            TacKind::ASSIGN(lv_bf, rv_bf) => {
                let src_op = Self::tac_operand_to_x64(rv_bf.duplicate());
                let dst_op = Self::tac_operand_to_x64(lv_bf.duplicate());
                low_irs.push(X64IR::new_store(dst_op, src_op));
            },
            TacKind::RET(return_bf) => {
                let return_op = Self::tac_operand_to_x64(return_bf.duplicate());
                low_irs.push(X64IR::new_ret(return_op));
            },
            TacKind::UNARYEXPR(var_bf, operator_bf, inner_bf) => {
                let inner = Self::tac_operand_to_x64(inner_bf.duplicate());
                let opcode = Self::unary_opcode_from_operator(operator_bf.duplicate());
                let dst = Self::tac_operand_to_x64(var_bf.duplicate());
                let load_ir = X64IR::new_mov(dst.duplicate(), inner);
                low_irs.push(load_ir);
                Self::add_unary_ir_matching_opcode(low_irs, opcode, dst);
            },
            TacKind::EXPR(var_bf, operator_bf, left_bf, right_bf) => {
                let left = Self::tac_operand_to_x64(left_bf.duplicate());
                let right = Self::tac_operand_to_x64(right_bf.duplicate());
                let opcode = Self::binary_opcode_from_operator(operator_bf.duplicate());
                let dst = Self::tac_operand_to_x64(var_bf.duplicate());
                match &left.kind {
                    X64OpeKind::REG => {
                        Self::add_binary_ir_matching_opcode(low_irs, opcode, left.duplicate(), right);
                        low_irs.push(X64IR::new_mov(dst, left));
                    },
                    X64OpeKind::AUTOVAR(_name, _offset) => {
                        low_irs.push(X64IR::new_mov(dst, left.duplicate()));
                        Self::add_binary_ir_matching_opcode(low_irs, opcode, left, right);
                    },
                    _ => {
                        match &right.kind {
                            X64OpeKind::REG => {
                                low_irs.push(X64IR::new_mov(X64Operand::new_rax(), left.duplicate()));
                                Self::add_binary_ir_matching_opcode(low_irs, opcode, X64Operand::new_rax(), right);
                                low_irs.push(X64IR::new_mov(dst, X64Operand::new_rax()));
                            },
                            _ => {
                                low_irs.push(X64IR::new_mov(dst.duplicate(), left.duplicate()));
                                Self::add_binary_ir_matching_opcode(low_irs, opcode, dst, right);
                            },
                        }
                    },
                }
            },
        }
        proof {
        assert(low_irs@ =~= before + translated_tac(*t));
        }
    }

    /// Appends a comparison of `tested_op` with zero and a jump to `label`
    /// when it is zero.
    fn push_zero_test(low_irs: &mut Vec<X64IR>, tested_op: X64Operand, label: String)
        ensures
            final(low_irs)@ == old(low_irs)@.push(ir_of(X64IRKind::CMPZERO(tested_op))).push(ir_of(X64IRKind::JZ(label))),
    {
        low_irs.push(X64IR::new_cmpzero(tested_op));
        low_irs.push(X64IR::new_jumpzero(label));
    }

    /// Appends the instruction for a unary opcode applied to `inner`.
    fn add_unary_ir_matching_opcode(low_irs: &mut Vec<X64IR>, opcode: X64IRKind, inner: X64Operand)
        ensures
            final(low_irs)@ == (if opcode is NEGATIVE {
                old(low_irs)@.push(ir_of(X64IRKind::NEGATIVE(inner)))
            } else {
                old(low_irs)@
            }),
    {
        match opcode {
            X64IRKind::NEGATIVE(_) => {
                low_irs.push(X64IR::new_neg(inner));
            },
            _ => {},
        }
    }

    /// Appends the instruction for a binary opcode applied to `left` and `right`.
    fn add_binary_ir_matching_opcode(low_irs: &mut Vec<X64IR>, opcode: X64IRKind, left: X64Operand, right: X64Operand)
        ensures
            final(low_irs)@ == (match opcode {
                X64IRKind::ADD(_, _) => old(low_irs)@.push(ir_of(X64IRKind::ADD(left, right))),
                X64IRKind::SUB(_, _) => old(low_irs)@.push(ir_of(X64IRKind::SUB(left, right))),
                X64IRKind::MUL(_, _) => old(low_irs)@.push(ir_of(X64IRKind::MUL(left, right))),
                X64IRKind::DIV(_, _) => old(low_irs)@.push(ir_of(X64IRKind::DIV(left, right))),
                _ => old(low_irs)@,
            }),
    {
        match opcode {
            X64IRKind::ADD(_, _) => {
                low_irs.push(X64IR::new_add(left, right));
            },
            X64IRKind::SUB(_, _) => {
                low_irs.push(X64IR::new_sub(left, right));
            },
            X64IRKind::MUL(_, _) => {
                low_irs.push(X64IR::new_mul(left, right));
            },
            X64IRKind::DIV(_, _) => {
                low_irs.push(X64IR::new_div(left, right));
            },
            _ => {},
        }
    }

    /// The opcode of a unary operator; only negation has one.
    fn unary_opcode_from_operator(operator: Operator) -> (k: X64IRKind)
        requires
            operator is MINUS,
        ensures
            k is NEGATIVE,
    {
        X64IRKind::NEGATIVE(X64Operand::new_inv())
    }

    /// The opcode of a binary operator.
    fn binary_opcode_from_operator(operator: Operator) -> (k: X64IRKind)
        ensures
            match operator {
                Operator::PLUS => k is ADD,
                Operator::MINUS => k is SUB,
                Operator::ASTERISK => k is MUL,
                Operator::SLASH => k is DIV,
            },
    {
        match operator {
            Operator::PLUS => X64IRKind::ADD(X64Operand::new_inv(), X64Operand::new_inv()),
            Operator::MINUS => X64IRKind::SUB(X64Operand::new_inv(), X64Operand::new_inv()),
            Operator::ASTERISK => X64IRKind::MUL(X64Operand::new_inv(), X64Operand::new_inv()),
            Operator::SLASH => X64IRKind::DIV(X64Operand::new_inv(), X64Operand::new_inv()),
        }
    }

    /// An operand of three-address code as an x86_64 operand.
    fn tac_operand_to_x64(op: Operand) -> (x: X64Operand)
        ensures
            x == x64_operand(op),
    {
        let kind = Self::tac_opekind_to_x64(op.kind);
        X64Operand::new(kind, op.virt, op.phys)
    }

    /// An operand kind of three-address code as an x86_64 operand kind.
    fn tac_opekind_to_x64(kind: OpeKind) -> (x: X64OpeKind)
        ensures
            x == x64_kind(kind),
    {
        match kind {
            OpeKind::INTLIT(val) => X64OpeKind::INTLIT(val),
            OpeKind::AUTOVARIABLE(name, offset) => X64OpeKind::AUTOVAR(name, offset),
            OpeKind::REG => X64OpeKind::REG,
            OpeKind::INVALID => X64OpeKind::INVALID,
        }
    }
}

/// The x86_64 operation of a binary operator.
pub open spec fn operator_op(op: Operator) -> X64Op {
    match op {
        Operator::PLUS => X64Op::Add,
        Operator::MINUS => X64Op::Sub,
        Operator::ASTERISK => X64Op::Mul,
        Operator::SLASH => X64Op::Div,
    }
}

/// An arithmetic operation.
pub open spec fn is_arith(o: X64Op) -> bool {
    o is Add || o is Sub || o is Mul || o is Div
}

/// A jump, taken always or only on zero.
pub open spec fn is_jump(o: X64Op) -> bool {
    o is Jump || o is JumpIfZero
}

/// Translation keeps the control flow: a conditional jump becomes a test of
/// the same operand against zero followed by a jump to the same label taken
/// only on zero; an unconditional jump becomes one jump to the same label;
/// no other instruction becomes a jump.
pub proof fn lemma_translation_keeps_jumps(t: ThreeAddressCode)
    ensures
        t.kind matches TacKind::IFF(op, l) ==> {
            let tr = translated_tac(t);
            &&& tr.len() == 2
            &&& ir_op(tr[0].kind) == X64Op::CompareZero
            &&& ir_operands(tr[0].kind) == seq![x64_operand(op)]
            &&& ir_op(tr[1].kind) == X64Op::JumpIfZero
            &&& ir_target(tr[1].kind) == Some(l@)
        },
        t.kind matches TacKind::GOTO(l) ==> {
            let tr = translated_tac(t);
            &&& tr.len() == 1
            &&& ir_op(tr[0].kind) == X64Op::Jump
            &&& ir_target(tr[0].kind) == Some(l@)
        },
        !(t.kind is IFF) && !(t.kind is GOTO) ==> forall|i: int|
            0 <= i < translated_tac(t).len() ==> !is_jump(ir_op((#[trigger] translated_tac(t)[i]).kind)),
{
}

/// Where the arithmetic instruction at `i` of `tr` works: on the left
/// operand itself, or on what the instruction just before it loaded with
/// the left operand.
pub open spec fn works_on_left(tr: Seq<X64IR>, i: int, left: X64Operand) -> bool {
    ||| ir_operands(tr[i].kind)[0] == left
    ||| i > 0 && ir_op(tr[i - 1].kind) == X64Op::Move && ir_operands(tr[i - 1].kind) == seq![ir_operands(tr[i].kind)[0], left]
}

/// A binary expression becomes exactly one arithmetic instruction, of the
/// operator's operation, whose destination holds the left operand and whose
/// source is the right operand.
#[verifier::spinoff_prover]
pub proof fn lemma_binary_translation(t: ThreeAddressCode)
    requires
        t.kind is EXPR,
    ensures
        t.kind matches TacKind::EXPR(_, op, left, right) ==> exists|i: int|
            0 <= i < translated_tac(t).len() && ir_op((#[trigger] translated_tac(t)[i]).kind) == operator_op(op)
                && ir_operands(translated_tac(t)[i].kind)[1] == x64_operand(right) && works_on_left(
                translated_tac(t),
                i,
                x64_operand(left),
            ) && forall|j: int|
                0 <= j < translated_tac(t).len() && j != i ==> !is_arith(ir_op((#[trigger] translated_tac(t)[j]).kind)),
{
    match t.kind {
        TacKind::EXPR(var, op, left, right) => {
            let tr = translated_tac(t);
            let i: int = match left.kind {
                OpeKind::REG => 0,
                _ => 1,
            };
            assert(ir_op(tr[i].kind) == operator_op(op));
            assert(ir_operands(tr[i].kind)[1] == x64_operand(right));
            assert(works_on_left(tr, i, x64_operand(left)));
            assert forall|j: int| 0 <= j < tr.len() && j != i implies !is_arith(ir_op((#[trigger] tr[j]).kind)) by {
                assert(ir_op(tr[j].kind) == X64Op::Move);
            }
        },
        _ => {},
    }
}

/// Translation keeps the arithmetic: a binary expression becomes exactly one
/// arithmetic instruction, of the operator's operation, whose source is the
/// right operand (see `lemma_binary_translation`); nothing else becomes
/// arithmetic. A negation copies the operand into the destination and
/// negates the destination; a return returns the same operand; an
/// assignment stores the value into the variable.
pub proof fn lemma_translation_keeps_arithmetic(t: ThreeAddressCode)
    ensures
        !(t.kind is EXPR) ==> forall|i: int|
            0 <= i < translated_tac(t).len() ==> !is_arith(ir_op((#[trigger] translated_tac(t)[i]).kind)),
        t.kind matches TacKind::UNARYEXPR(var, _, inner) ==> {
            let tr = translated_tac(t);
            &&& tr.len() == 2
            &&& ir_op(tr[0].kind) == X64Op::Move
            &&& ir_operands(tr[0].kind) == seq![x64_operand(var), x64_operand(inner)]
            &&& ir_op(tr[1].kind) == X64Op::Negate
            &&& ir_operands(tr[1].kind) == seq![x64_operand(var)]
        },
        t.kind matches TacKind::RET(op) ==> {
            let tr = translated_tac(t);
            &&& tr.len() == 1
            &&& ir_op(tr[0].kind) == X64Op::Return
            &&& ir_operands(tr[0].kind) == seq![x64_operand(op)]
        },
        t.kind matches TacKind::ASSIGN(lv, rv) ==> {
            let tr = translated_tac(t);
            &&& tr.len() == 1
            &&& ir_op(tr[0].kind) == X64Op::Store
            &&& ir_operands(tr[0].kind) == seq![x64_operand(lv), x64_operand(rv)]
        },
{
}

} // verus!
