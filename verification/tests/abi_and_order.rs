use cminus::compiler::backend::arch::x64::generate::Registers;
use cminus::compiler::backend::cfg::ControlFlowGraphInBB;
use cminus::compiler::backend::high_optimizer::HighOptimizer;
use cminus::compiler::compile;
use cminus::compiler::file::SrcFile;
use cminus::compiler::frontend::alloc_frame::frame_fits_of;
use cminus::compiler::frontend::node::Function;
use cminus::compiler::frontend::types::{Type, TypeKind};
use cminus::compiler::frontend::variable::{name_less, table_sorted_by_name, VarKind, Variable};
use cminus::compiler::frontend::{lex, manager::Manager};
use cminus::compiler::ir::arch::x64::ir_kind::X64Operand;
use cminus::target::{Architecture, Target, OS};

#[test]
fn int_is_eight_bytes() {
    let t = Type::new_integer();
    assert!(matches!(t.kind, TypeKind::INTEGER));
    assert_eq!(t.byte_size, 8);
}

#[test]
fn rax_operand_is_rax() {
    let op = X64Operand::new_rax();
    assert_eq!(op.phys, 12);
    assert_eq!(Registers::from_number_ir(op.phys).to_string(), "rax");
}

#[test]
fn att_return_loads_rax_first() {
    let src = SrcFile { abs_path: "ret.c".to_string(), contents: "int main(){ return 30; }".to_string() };
    let f = match compile(src, Target::new(OS::Linux, Architecture::X86_64), true) {
        Ok(f) => f,
        Err(_) => panic!("compile failed"),
    };
    assert!(f.code.ends_with("  movq $30, %rax\n  movq %rbp, %rsp\n  pop %rbp\n  ret\n"));
}

#[test]
fn names_compare_like_str() {
    assert!(name_less("a", "b"));
    assert!(name_less("ab", "abc"));
    assert!(!name_less("abc", "ab"));
    assert!(!name_less("b", "a"));
    assert!(!name_less("x", "x"));
    assert!(name_less("B", "a"));
}

fn local(off: usize) -> Variable {
    Variable { kind: VarKind::LOCAL(off), ctype: Type::new_integer() }
}

#[test]
fn tables_sort_by_name() {
    let t = vec![("c".to_string(), local(1)), ("a".to_string(), local(2)), ("b".to_string(), local(3))];
    let s = table_sorted_by_name(&t);
    let names: Vec<&str> = s.iter().map(|e| e.0.as_str()).collect();
    assert_eq!(names, vec!["a", "b", "c"]);
    assert_eq!(s[0].1.get_local_offset(), 2);
}

#[test]
fn parameters_get_offsets_in_name_order() {
    let source_file = SrcFile { abs_path: "p.c".to_string(), contents: "int f(int b, int a){ return 0; }".to_string() };
    let mut manager = Manager::new(source_file);
    lex::tokenize(&mut manager);
    manager.parse();
    manager.semantics();
    manager.alloc_frame();
    let f = &manager.functions[0];
    assert_eq!(f.params.len(), 2);
    assert_eq!(f.params[0].0, "a");
    assert_eq!(f.params[0].1.get_local_offset(), 8);
    assert_eq!(f.params[1].0, "b");
    assert_eq!(f.params[1].1.get_local_offset(), 16);
    assert_eq!(f.frame_size, 16);
}

#[test]
fn liveness_accepts_longer_tables() {
    let mut h = HighOptimizer::new(Vec::new());
    let g = ControlFlowGraphInBB::new(5);
    let (live_in, live_out) = h.liveness_analysis(g, 3);
    assert_eq!(live_in.len(), 3);
    assert_eq!(live_out.len(), 3);
    assert!(live_in.iter().all(|s| s.is_empty()));
}

#[test]
fn ordinary_frames_fit() {
    let source_file = SrcFile { abs_path: "p.c".to_string(), contents: "int f(int b, int a){ int c; return 0; }".to_string() };
    let mut manager = Manager::new(source_file);
    lex::tokenize(&mut manager);
    manager.parse();
    manager.semantics();
    assert!(manager.frames_fit());
    assert!(frame_fits_of(&manager.functions[0]));
}

#[test]
fn frame_beyond_usize_does_not_fit() {
    let mut f = Function::init("f".to_string(), (0, 0), Type::new_integer());
    let huge = Type { kind: TypeKind::INTEGER, byte_size: usize::MAX };
    f.params.push(("a".to_string(), Variable { kind: VarKind::LOCAL(0), ctype: Type::new_integer() }));
    assert!(frame_fits_of(&f));
    f.params.push(("b".to_string(), Variable { kind: VarKind::LOCAL(0), ctype: huge }));
    assert!(!frame_fits_of(&f));
}
