use cminus::compiler::backend::translate_ir::{make_label, make_user_label};
use cminus::compiler::file::SrcFile;
use cminus::compiler::frontend::{lex, manager::Manager};

fn generate(input: &str) -> Manager {
    let source_file = SrcFile { abs_path: "testcase".to_string(), contents: input.to_string() };
    let mut manager = Manager::new(source_file);
    lex::tokenize(&mut manager);
    manager.parse();
    manager.semantics();
    manager.generate_three_address_code();
    manager
}

fn block_texts(m: &Manager, f: usize, b: usize) -> Vec<String> {
    m.ir_funcs[f].blocks[b].tacs.iter().map(|t| t.to_string()).collect()
}

#[test]
fn addition_becomes_one_expression() {
    let m = generate("int main(){ return 1 + 2; }");
    assert_eq!(m.ir_funcs.len(), 1);
    assert_eq!(m.ir_funcs[0].name, "main");
    assert_eq!(m.ir_funcs[0].blocks.len(), 1);
    assert_eq!(m.ir_funcs[0].blocks[0].label, "entry");
    assert_eq!(block_texts(&m, 0, 0), vec!["t0 <- 1 + 2".to_string(), "return t0".to_string()]);
}

#[test]
fn nested_arithmetic_uses_fresh_registers() {
    let m = generate("int main(){ return 100 + 200 + 300; }");
    assert_eq!(
        block_texts(&m, 0, 0),
        vec!["t0 <- 100 + 200".to_string(), "t1 <- t0 + 300".to_string(), "return t1".to_string()]
    );
    assert_eq!(m.virt, 2);
}

#[test]
fn if_opens_a_block_at_its_label() {
    let m = generate("int main(){ if (1) return 2; return 3; }");
    assert_eq!(m.ir_funcs[0].blocks.len(), 2);
    assert_eq!(block_texts(&m, 0, 0), vec!["if 1 goto .L0".to_string(), "return 2".to_string()]);
    assert_eq!(m.ir_funcs[0].blocks[1].label, ".L0");
    assert_eq!(block_texts(&m, 0, 1), vec![".L0:".to_string(), "return 3".to_string()]);
    assert_eq!(m.label, 1);
}

#[test]
fn functions_get_one_code_function_each() {
    let m = generate("int f(){ return 1; } int main(){ return 2; }");
    assert_eq!(m.ir_funcs.len(), 2);
    assert_eq!(m.ir_funcs[0].name, "f");
    assert_eq!(m.ir_funcs[1].name, "main");
    assert_eq!(block_texts(&m, 1, 0), vec!["return 2".to_string()]);
}

fn texts(v: &[&str]) -> Vec<String> {
    v.iter().map(|s| s.to_string()).collect()
}

#[test]
fn subtraction_multiplication_division() {
    assert_eq!(block_texts(&generate("int main(){ return 5 - 2; }"), 0, 0), texts(&["t0 <- 5 - 2", "return t0"]));
    assert_eq!(block_texts(&generate("int main(){ return 6 * 7; }"), 0, 0), texts(&["t0 <- 6 * 7", "return t0"]));
    assert_eq!(block_texts(&generate("int main(){ return 8 / 2; }"), 0, 0), texts(&["t0 <- 8 / 2", "return t0"]));
}

#[test]
fn negation_is_a_unary_expression() {
    assert_eq!(block_texts(&generate("int main(){ return -5; }"), 0, 0), texts(&["t0 <- -5", "return t0"]));
}

#[test]
fn while_loop_blocks() {
    let m = generate("int main(){ while (1) return 2; return 3; }");
    assert_eq!(m.ir_funcs[0].blocks.len(), 3);
    assert!(block_texts(&m, 0, 0).is_empty());
    assert_eq!(m.ir_funcs[0].blocks[1].label, ".L0");
    assert_eq!(block_texts(&m, 0, 1), texts(&[".L0:", "if 1 goto .L1", "return 2", "goto .L0"]));
    assert_eq!(m.ir_funcs[0].blocks[2].label, ".L1");
    assert_eq!(block_texts(&m, 0, 2), texts(&[".L1:", "return 3"]));
}

#[test]
fn for_loop_blocks() {
    let m = generate("int main(){ for (1; 2; 3) return 4; return 5; }");
    assert_eq!(m.ir_funcs[0].blocks.len(), 3);
    assert_eq!(block_texts(&m, 0, 1), texts(&[".L0:", "if 2 goto .L1", "return 4", "goto .L0"]));
    assert_eq!(block_texts(&m, 0, 2), texts(&[".L1:", "return 5"]));
}

#[test]
fn if_else_blocks() {
    let m = generate("int main(){ if (1) return 2; else return 3; return 4; }");
    assert_eq!(m.ir_funcs[0].blocks.len(), 3);
    assert_eq!(block_texts(&m, 0, 0), texts(&["if 1 goto .L1", "return 2", "goto .L0"]));
    assert_eq!(m.ir_funcs[0].blocks[1].label, ".L1");
    assert_eq!(block_texts(&m, 0, 1), texts(&[".L1:", "return 3"]));
    assert_eq!(m.ir_funcs[0].blocks[2].label, ".L0");
    assert_eq!(block_texts(&m, 0, 2), texts(&[".L0:", "return 4"]));
    assert_eq!(m.label, 2);
}

#[test]
fn goto_opens_the_labelled_block() {
    let m = generate("int main(){ goto end; end: return 1; }");
    assert_eq!(m.ir_funcs[0].blocks.len(), 2);
    assert_eq!(block_texts(&m, 0, 0), texts(&["goto .Lend"]));
    assert_eq!(m.ir_funcs[0].blocks[1].label, ".Lend");
    assert_eq!(block_texts(&m, 0, 1), texts(&[".Lend:", "return 1"]));
}

#[test]
fn variables_are_looked_up_after_their_table_is_cleared() {
    let m = generate("int main(){ int a; a = 3; return a; }");
    assert_eq!(block_texts(&m, 0, 0), texts(&["invalid <- 3", "return invalid"]));
}

#[test]
fn registers_are_written_once_in_order() {
    let m = generate("int main(){ return -(1 + 2) * 3; }");
    assert_eq!(
        block_texts(&m, 0, 0),
        texts(&["t0 <- 1 + 2", "t1 <- -t0", "t2 <- t1 * 3", "return t2"])
    );
    assert_eq!(m.virt, 3);
}

#[test]
fn labels_from_numbers_differ() {
    assert_eq!(make_label(0), ".L0");
    assert_eq!(make_label(12), ".L12");
    assert_ne!(make_label(1), make_label(10));
    assert_eq!(make_user_label(&"end".to_string()), ".Lend");
}

#[test]
fn while_condition_is_tested_on_every_round() {
    let m = generate("int main(){ while (1 + 2) return 3; return 4; }");
    assert_eq!(m.ir_funcs[0].blocks.len(), 3);
    assert!(block_texts(&m, 0, 0).is_empty());
    assert_eq!(
        block_texts(&m, 0, 1),
        texts(&[".L0:", "t0 <- 1 + 2", "if t0 goto .L1", "return 3", "goto .L0"])
    );
    assert_eq!(block_texts(&m, 0, 2), texts(&[".L1:", "return 4"]));
}
