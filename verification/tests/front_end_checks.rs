use cminus::compiler::backend::code_counts::{expr_regs_of, stmts_needs_of};
use cminus::compiler::file::SrcFile;
use cminus::compiler::frontend::node::{Node, NodeKind};
use cminus::compiler::frontend::{lex, manager::Manager};

fn front(input: &str) -> Manager {
    let source_file = SrcFile { abs_path: "testcase".to_string(), contents: input.to_string() };
    let mut manager = Manager::new(source_file);
    lex::tokenize(&mut manager);
    manager.parse();
    manager.semantics();
    manager.alloc_frame();
    manager
}

#[test]
fn nested_sums_take_one_register_per_operation() {
    let m = front("int main(){ return (1+2+3)+(4+5); }");
    assert!(m.code_fits_check());
    assert_eq!(stmts_needs_of(&m.functions[0].stmts), (Some(4), Some(0)));
}

#[test]
fn a_loop_takes_two_label_numbers() {
    let m = front("int main(){ int a; a = 3; while (a) { a = a - 1; } return a; }");
    assert!(m.code_fits_check());
    assert_eq!(stmts_needs_of(&m.functions[0].stmts), (Some(1), Some(2)));
}

#[test]
fn a_literal_takes_no_register() {
    let n = Node::new((1, 1), NodeKind::INTEGER(7));
    assert_eq!(expr_regs_of(&n), Some(0));
    let neg = Node::new((1, 1), NodeKind::NEGATIVE(Box::new(n)));
    assert_eq!(expr_regs_of(&neg), Some(1));
}
