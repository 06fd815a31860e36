use cminus::compiler::backend::high_optimizer::HighOptimizer;
use cminus::compiler::file::SrcFile;
use cminus::compiler::frontend::{lex, manager::Manager};

fn preprocess(input: &str) -> HighOptimizer {
    let source_file = SrcFile {
        abs_path: "testcase".to_string(),
        contents: input.to_string(),
    };
    let mut manager = Manager::new(source_file);
    lex::tokenize(&mut manager);
    manager.parse();
    manager.semantics();
    manager.generate_three_address_code();
    let ir_funcs = manager.ir_funcs;
    HighOptimizer::new(ir_funcs)
}

#[test]
fn test_build_cfg() {
    let mut optimizer = preprocess("int main(){ return 100 + 200 + 300; }");
    optimizer.build_cfg();

    let entry_block = &optimizer.functions[0].blocks[0];

    let expected_succ: Vec<usize> = vec![1, 1, 0];
    for (i, succ_set) in entry_block.cfg_inbb.succ.iter().enumerate() {
        assert_eq!(succ_set.len(), expected_succ[i]);
    }

    let expected_prev: Vec<usize> = vec![0, 1, 1];
    for (i, prev_set) in entry_block.cfg_inbb.prev.iter().enumerate() {
        assert_eq!(prev_set.len(), expected_prev[i]);
    }
}
