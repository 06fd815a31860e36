use cminus::compiler::backend::BackendFailure;
use cminus::compiler::compile;
use cminus::compiler::file::SrcFile;
use cminus::compiler::frontend::frontend_process;
use cminus::structure::Syntax;
use cminus::target::{Architecture, Target, OS};

fn linux() -> Target {
    Target::new(OS::Linux, Architecture::X86_64)
}

fn source(path: &str, contents: &str) -> SrcFile {
    SrcFile { abs_path: path.to_string(), contents: contents.to_string() }
}

#[test]
fn c_file_compiles_to_intel_assembly() {
    let f = match compile(source("ret.c", "int main(){ return 30; }"), linux(), false) {
        Ok(f) => f,
        Err(_) => panic!("compile failed"),
    };
    assert!(matches!(f.syntax, Syntax::INTEL));
    assert_eq!(
        f.code,
        ".intel_syntax noprefix\n.global main\nmain:\n  push rbp\n  mov rbp, rsp\n  mov rax, 30\n  mov rsp, rbp\n  pop rbp\n  ret\n"
    );
}

#[test]
fn c_file_compiles_to_att_assembly() {
    let f = match compile(source("ret.c", "int main(){ return 30; }"), linux(), true) {
        Ok(f) => f,
        Err(_) => panic!("compile failed"),
    };
    assert!(matches!(f.syntax, Syntax::ATANDT));
    assert!(f.code.starts_with(".global main\nmain:\n"));
}

#[test]
fn assembly_file_passes_through() {
    let text = ".intel_syntax noprefix\nmain:\n  ret\n";
    let f = match compile(source("x.s", text), linux(), true) {
        Ok(f) => f,
        Err(_) => panic!("compile failed"),
    };
    assert_eq!(f.code, text);
    assert!(matches!(f.syntax, Syntax::INTEL));
}

#[test]
fn unknown_variable_fails_in_the_back_end() {
    assert!(matches!(
        compile(source("bad.c", "int main(){ return a; }"), linux(), false),
        Err(BackendFailure::Unlowerable)
    ));
}

#[test]
fn front_end_generates_code_for_every_function() {
    let m = frontend_process(source("two.c", "int f(){ return 1; } int main(){ return f; }"), &linux());
    assert_eq!(m.functions.len(), 2);
    assert_eq!(m.ir_funcs.len(), 2);
    assert_eq!(m.ir_funcs[0].name, "f");
    assert_eq!(m.ir_funcs[1].name, "main");
    assert_eq!(m.ir_funcs[0].blocks[0].tacs[0].to_string(), "return 1");
}
