pub mod backend;
pub mod file;
pub mod frontend;
pub mod ir;

use vstd::prelude::*;

use crate::compiler::backend::{backend_outcome, backend_process, BackendFailure, BackendOutput};
use crate::compiler::file::SrcFile;
use crate::compiler::frontend::{frontend_done, frontend_ok, frontend_process};
use crate::compiler::frontend::manager::Manager;
use crate::structure::{occurs_in, str_ends_with, AssemblyFile, Syntax};
use crate::target::Target;

verus! {

/// A path that names a C source file: it ends with `.c`.
pub open spec fn c_source(path: Seq<char>) -> bool {
    path.len() >= 2 && path.subrange(path.len() - 2, path.len() as int) == ".c"@
}

/// Whether a path names a C source file, which the compiler translates:
/// it ends with `.c`. Any other file is taken to hold assembly already.
pub fn is_c_source(path: &str) -> (b: bool)
    ensures
        b == c_source(path@),
{
    proof {
        reveal_strlit(".c");
    }
    str_ends_with(path, ".c")
}

/// Compiles a source file for `target`: a C file goes through the front end
/// and the back end and gives assembly in the chosen syntax; any other file
/// is taken to hold assembly already, in Intel syntax where it says
/// `.intel_syntax` and AT&T syntax otherwise. Compiling a C file fails
/// where the back end does.
pub fn compile(source_file: SrcFile, target: Target, atandt: bool) -> (r: Result<AssemblyFile, BackendFailure>)
    requires
        c_source(source_file.abs_path@) ==> frontend_ok(source_file, target),
    ensures
        !c_source(source_file.abs_path@) ==> (r matches Ok(f) && f.code == source_file.contents && f.target == target
            && f.syntax == (if occurs_in(".intel_syntax"@, source_file.contents@) {
            Syntax::INTEL
        } else {
            Syntax::ATANDT
        })),
        c_source(source_file.abs_path@) ==> exists|m: Manager|
            #[trigger] frontend_done(source_file, target, m) && match r {
                Ok(f) => exists|o: BackendOutput|
                    #[trigger] backend_outcome(m.ir_funcs@, target, atandt, Ok(o)) && f.code == o.assembly
                        && f.target == target && f.syntax == (if atandt {
                        Syntax::ATANDT
                    } else {
                        Syntax::INTEL
                    }),
                Err(e) => backend_outcome(m.ir_funcs@, target, atandt, Err(e)),
            },
{
    if !is_c_source(source_file.abs_path.as_str()) {
        return Ok(AssemblyFile::from_assembly_source(source_file.contents, target));
    }
    let ghost src = source_file;
    let manager = frontend_process(source_file, &target);
    let ghost m = manager;
    let result = backend_process(manager.ir_funcs, &target, atandt);
    match result {
        Ok(out) => {
            let ghost o = out;
            let file = if atandt {
                AssemblyFile::new_atandt_file(out.assembly, target)
            } else {
                AssemblyFile::new_intel_file(out.assembly, target)
            };
            assert(backend_outcome(m.ir_funcs@, target, atandt, Ok(o)));
            Ok(file)
        },
        Err(e) => Err(e),
    }
}

} // verus!
