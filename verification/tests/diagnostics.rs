use cminus::error::{Error, ErrorKind, ErrorMsg};
use cminus::fmt::i128_to_string;

#[test]
fn error_kinds_have_names() {
    assert_eq!(ErrorKind::Parse.string(), "ParseError");
    assert_eq!(ErrorKind::Type.string(), "TypeError");
    assert_eq!(ErrorKind::GenIR.string(), "GenerateIRError");
    assert_eq!(ErrorKind::RegAlloc.string(), "RegisterAllocationError");
    assert_eq!(ErrorKind::Compile.string(), "CompileError");
    assert_eq!(ErrorKind::AsmParse.string(), "AssemblyParseError");
}

#[test]
fn error_messages_have_text() {
    assert_eq!(ErrorMsg::InvalidNodeCantHaveType.string(), "invalid node can't have any types");
    assert_eq!(ErrorMsg::CantUseNoMoreRegisters.string(), "can't use no more registers");
    assert_eq!(ErrorMsg::InvalidCFileOrDirectory.string(), "invalid c file or directory given");
    assert_eq!(ErrorMsg::MustBeIntegerLiteral.string(), "must be integer-literal");
}

#[test]
fn unsupported_architecture_error() {
    let e = Error::cant_support_architecture();
    assert_eq!(e.kind_string(), "CompileError");
    assert_eq!(e.message_string(), "not supporting such an architecture yet");
    assert_eq!(e.position, (0, 0));
}

#[test]
fn decimal_text() {
    assert_eq!(i128_to_string(0), "0");
    assert_eq!(i128_to_string(-42), "-42");
    assert_eq!(i128_to_string(1234567), "1234567");
}
