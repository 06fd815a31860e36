pub mod arch;
pub mod cfg;
pub mod high_optimizer;
pub mod liveness;
pub mod regalloc;
pub mod translate_ir;
pub mod code_counts;
pub mod loop_shape;

use vstd::prelude::*;

use crate::compiler::backend::arch::x64::{all_selected, all_translated, functions_lowerable, program_text, x64_process};
use crate::compiler::backend::cfg::{cfg_succ, is_cfg_of, lemma_label_index_upto_range};
use crate::compiler::backend::high_optimizer::HighOptimizer;
use crate::compiler::backend::liveness::{functions_blockwise, graphs_ready, live_ranges_set, succ_in_range};
use crate::compiler::backend::regalloc::{function_allocated, functions_exceed, functions_spill_free};
use crate::compiler::ir::arch::x64::function::X64Function;
use crate::compiler::ir::three_address_code::basicblock::BasicBlock;
use crate::compiler::ir::three_address_code::function::IRFunction;
use crate::compiler::ir::three_address_code::tac::ThreeAddressCode;
use crate::target::{Architecture, Target};

verus! {

/// Why the back end stopped: a register would have to be spilled, or an
/// instruction has no x86_64 form.
pub enum BackendFailure {
    Spill,
    Unlowerable,
}

/// What the back end produced: the assembly text, whether register
/// allocation ever held as many registers as the target has, whether the
/// target's architecture is supported (when it is not, the text is empty),
/// and the functions as register allocation left them (with their live
/// ranges and physical registers).
pub struct BackendOutput {
    pub assembly: String,
    pub registers_exceeded: bool,
    pub arch_supported: bool,
    pub functions: Vec<IRFunction>,
}

/// The number of registers the allocator may use on the target.
pub open spec fn available_registers(target: Target) -> usize {
    match target.arch {
        Architecture::X86_64 => 9,
        _ => 0,
    }
}

/// `after` is `before` with the control-flow graph of every block built.
pub open spec fn cfg_built(before: Seq<IRFunction>, after: Seq<IRFunction>) -> bool {
    &&& after.len() == before.len()
    &&& forall|f: int|
        #![trigger after[f]]
        0 <= f < after.len() ==> {
            &&& after[f].name == before[f].name
            &&& after[f].frame_size == before[f].frame_size
            &&& after[f].blocks@.len() == before[f].blocks@.len()
            &&& forall|b: int|
                #![trigger after[f].blocks@[b]]
                0 <= b < after[f].blocks@.len() ==> {
                    &&& after[f].blocks@[b].label == before[f].blocks@[b].label
                    &&& after[f].blocks@[b].tacs == before[f].blocks@[b].tacs
                    &&& after[f].blocks@[b].living == before[f].blocks@[b].living
                    &&& is_cfg_of(after[f].blocks@[b].cfg_inbb, before[f].blocks@[b].tacs@)
                }
        }
}

/// `after` is `before` analysed: graphs built, then live ranges set.
pub open spec fn analysed(before: Seq<IRFunction>, after: Seq<IRFunction>) -> bool {
    exists|mid: Seq<IRFunction>|
        cfg_built(before, mid) && functions_blockwise(mid, after, |a: BasicBlock, b: BasicBlock| live_ranges_set(a, b))
}

/// `after` is `before` with registers allocated in every function.
pub open spec fn all_allocated(before: Seq<IRFunction>, after: Seq<IRFunction>) -> bool {
    &&& after.len() == before.len()
    &&& forall|f: int| 0 <= f < before.len() ==> #[trigger] function_allocated(before[f], after[f])
}

/// A built graph's successors stay inside the block.
pub proof fn lemma_cfg_succ_in_range(g: crate::compiler::backend::cfg::ControlFlowGraphInBB, tacs: Seq<ThreeAddressCode>)
    requires
        is_cfg_of(g, tacs),
    ensures
        succ_in_range(g, tacs.len()),
{
    assert forall|i: int, s: usize| 0 <= i < tacs.len() && #[trigger] g.succ@[i]@.contains(s) implies s < tacs.len() by {
        assert(g.succ@[i]@ == cfg_succ(tacs, i));
        match tacs[i].kind {
            crate::compiler::ir::three_address_code::tac_kind::TacKind::GOTO(l) => {
                lemma_label_index_upto_range(tacs, l@, tacs.len() as int);
            },
            crate::compiler::ir::three_address_code::tac_kind::TacKind::IFF(_, l) => {
                lemma_label_index_upto_range(tacs, l@, tacs.len() as int);
            },
            _ => {},
        }
    }
}

/// What the back end gives for `functions`: it fails where a register would
/// have to be spilled or an instruction has no x86_64 form; otherwise the
/// assembly of the analysed, allocated, translated and selected code.
pub open spec fn backend_outcome(functions: Seq<IRFunction>, target: Target, atandt: bool, r: Result<BackendOutput, BackendFailure>) -> bool {
    match r {
        Err(BackendFailure::Spill) => exists|fs: Seq<IRFunction>|
            analysed(functions, fs) && !functions_spill_free(fs),
        Err(BackendFailure::Unlowerable) => target.arch is X86_64 && exists|fs: Seq<IRFunction>, gs: Seq<IRFunction>|
            analysed(functions, fs) && functions_spill_free(fs) && all_allocated(fs, gs) && !functions_lowerable(
                gs,
                atandt,
            ),
        Ok(o) => exists|fs: Seq<IRFunction>, gs: Seq<IRFunction>|
            {
                &&& analysed(functions, fs)
                &&& functions_spill_free(fs)
                &&& all_allocated(fs, gs)
                &&& o.registers_exceeded == functions_exceed(fs, available_registers(target) as nat)
                &&& o.arch_supported == (target.arch is X86_64)
                &&& o.functions@ == gs
                &&& if target.arch is X86_64 {
                    exists|xs: Seq<X64Function>, ys: Seq<X64Function>|
                        all_translated(gs, xs) && all_selected(xs, ys) && o.assembly@ == program_text(ys, atandt)
                } else {
                    o.assembly@ == Seq::<char>::empty()
                }
            },
    }
}

/// The number of registers the allocator may use on the target: nine on
/// x86_64, none on an architecture that is not supported.
pub fn find_available_registers_each_archs(target: &Target) -> (n: usize)
    ensures
        n == available_registers(*target),
{
    match target.arch {
        Architecture::X86_64 => 9,
        _ => 0,
    }
}

/// The back end: builds the control-flow graphs, analyses liveness,
/// allocates registers and, on x86_64, compiles to assembly text in the
/// chosen syntax. It fails where a register would have to be spilled or an
/// instruction has no x86_64 form.
pub fn backend_process(functions: Vec<IRFunction>, target: &Target, atandt: bool) -> (r: Result<BackendOutput, BackendFailure>)
    ensures
        backend_outcome(functions@, *target, atandt, r),
{
    let mut high_opt = HighOptimizer::new(functions);
    high_opt.build_cfg();
    let ghost mid = high_opt.functions@;
    proof {
        assert(cfg_built(functions@, mid));
        assert forall|f: int, b: int| 0 <= f < mid.len() && 0 <= b < mid[f].blocks@.len() implies (#[trigger] mid[f].blocks@[b]).cfg_inbb.wf(
            mid[f].blocks@[b].tacs@.len(),
        ) && succ_in_range(mid[f].blocks@[b].cfg_inbb, mid[f].blocks@[b].tacs@.len()) by {
            lemma_cfg_succ_in_range(mid[f].blocks@[b].cfg_inbb, mid[f].blocks@[b].tacs@);
        }
        assert(graphs_ready(mid));
    }
    high_opt.setup_liveness_analyze();
    let ghost fs = high_opt.functions@;
    proof {
        assert(analysed(functions@, fs));
    }
    let available_registers = find_available_registers_each_archs(target);
    if !high_opt.spill_free() {
        return Err(BackendFailure::Spill);
    }
    let registers_exceeded = high_opt.register_allocation_for_virtual_registers(available_registers);
    let ghost gs = high_opt.functions@;
    proof {
        assert(all_allocated(fs, gs));
    }
    match target.arch {
        Architecture::X86_64 => {
            if !high_opt.is_lowerable(atandt) {
                return Err(BackendFailure::Unlowerable);
            }
            let assembly = x64_process(atandt, &high_opt);
            Ok(BackendOutput { assembly, registers_exceeded, arch_supported: true, functions: high_opt.functions })
        },
        _ => {
            let assembly = String::new();
            Ok(BackendOutput { assembly, registers_exceeded, arch_supported: false, functions: high_opt.functions })
        },
    }
}

} // verus!
