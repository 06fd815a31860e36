use cminus::compiler::backend::{backend_process, find_available_registers_each_archs, BackendFailure};
use cminus::compiler::ir::three_address_code::tac_kind::TacKind;
use cminus::compiler::file::SrcFile;
use cminus::compiler::frontend::{lex, manager::Manager};
use cminus::target::{Architecture, Target, OS};

fn front(input: &str) -> Manager {
    let source_file = SrcFile { abs_path: "testcase".to_string(), contents: input.to_string() };
    let mut manager = Manager::new(source_file);
    lex::tokenize(&mut manager);
    manager.parse();
    manager.semantics();
    manager.alloc_frame();
    manager.generate_three_address_code();
    manager
}

#[test]
fn return_constant_in_intel_syntax() {
    let m = front("int main(){ return 30; }");
    let target = Target::new(OS::Linux, Architecture::X86_64);
    let out = match backend_process(m.ir_funcs, &target, false) {
        Ok(o) => o,
        Err(_) => panic!("back end failed"),
    };
    assert!(out.arch_supported);
    assert!(!out.registers_exceeded);
    assert_eq!(
        out.assembly,
        ".intel_syntax noprefix\n.global main\nmain:\n  push rbp\n  mov rbp, rsp\n  mov rax, 30\n  mov rsp, rbp\n  pop rbp\n  ret\n"
    );
}

#[test]
fn unsupported_architecture_gives_no_text() {
    let m = front("int main(){ return 30; }");
    let target = Target::new(OS::Linux, Architecture::INVALID);
    let out = match backend_process(m.ir_funcs, &target, false) {
        Ok(o) => o,
        Err(_) => panic!("back end failed"),
    };
    assert!(!out.arch_supported);
    assert_eq!(out.assembly, "");
}

#[test]
fn unknown_variable_cannot_be_lowered() {
    let m = front("int main(){ return a; }");
    let target = Target::new(OS::Linux, Architecture::X86_64);
    assert!(matches!(backend_process(m.ir_funcs, &target, false), Err(BackendFailure::Unlowerable)));
}

#[test]
fn registers_per_architecture() {
    assert_eq!(find_available_registers_each_archs(&Target::new(OS::Linux, Architecture::X86_64)), 9);
    assert_eq!(find_available_registers_each_archs(&Target::new(OS::Linux, Architecture::INVALID)), 0);
}

#[test]
fn values_live_together_get_different_registers() {
    let m = front("int main(){ return (1+2+3)+(4+5); }");
    let target = Target::new(OS::Linux, Architecture::X86_64);
    let out = match backend_process(m.ir_funcs, &target, false) {
        Ok(o) => o,
        Err(_) => panic!("back end failed"),
    };
    let tacs = &out.functions[0].blocks[0].tacs;
    let mut dests: Vec<usize> = Vec::new();
    for t in tacs.iter() {
        if let TacKind::EXPR(var, _, _, _) = &t.kind {
            dests.push(var.phys);
        }
    }
    assert_eq!(dests, vec![0, 1, 0, 2]);
    assert_ne!(dests[1], dests[2]);
    let mut reads: Vec<usize> = Vec::new();
    for t in tacs.iter() {
        match &t.kind {
            TacKind::EXPR(_, _, l, r) => {
                if l.is_register() {
                    reads.push(l.phys);
                }
                if r.is_register() {
                    reads.push(r.phys);
                }
            },
            TacKind::RET(o) => {
                if o.is_register() {
                    reads.push(o.phys);
                }
            },
            _ => {},
        }
    }
    assert_eq!(reads, vec![0, 1, 0, 2]);
}
