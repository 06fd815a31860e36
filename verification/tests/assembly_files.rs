use cminus::compiler::is_c_source;
use cminus::structure::{str_contains, str_ends_with, AssemblyFile, Syntax};
use cminus::target::{Architecture, Target, OS};

fn linux() -> Target {
    Target::new(OS::Linux, Architecture::X86_64)
}

#[test]
fn intel_source_is_taken_as_intel() {
    let f = AssemblyFile::from_assembly_source(".intel_syntax noprefix\nmain:\n  ret\n".to_string(), linux());
    assert!(matches!(f.syntax, Syntax::INTEL));
    assert_eq!(f.code, ".intel_syntax noprefix\nmain:\n  ret\n");
}

#[test]
fn other_source_is_taken_as_att() {
    let f = AssemblyFile::from_assembly_source("main:\n  ret\n".to_string(), linux());
    assert!(matches!(f.syntax, Syntax::ATANDT));
}

#[test]
fn constructors_set_syntax() {
    assert!(matches!(AssemblyFile::new_intel_file(String::new(), linux()).syntax, Syntax::INTEL));
    assert!(matches!(AssemblyFile::new_atandt_file(String::new(), linux()).syntax, Syntax::ATANDT));
}

#[test]
fn c_sources_end_with_dot_c() {
    assert!(is_c_source("sample.c"));
    assert!(is_c_source("dir/x.c"));
    assert!(!is_c_source("sample.s"));
    assert!(!is_c_source("c"));
    assert!(!is_c_source(""));
    assert!(!is_c_source("a.cc"));
}

#[test]
fn substring_search() {
    assert!(str_contains("abcdef", "cde"));
    assert!(str_contains("abc", ""));
    assert!(!str_contains("abc", "abcd"));
    assert!(!str_contains("abcabd", "abe"));
    assert!(str_ends_with("abc", "bc"));
    assert!(!str_ends_with("abc", "ab"));
}

#[test]
fn target_reports_x86_64() {
    assert!(linux().is_x86_64());
    assert!(!Target::new(OS::Linux, Architecture::INVALID).is_x86_64());
}
