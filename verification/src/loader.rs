//! The module loader's decisions: the fixed script declares no imports, so
//! every import request is refused, and a compilation failure is reported
//! with the engine's diagnostic text in a fixed frame.

use vstd::prelude::*;

verus! {

/// Resolves an import request made while the compiled unit is instantiated.
/// The fixed script declares no imports, so every request — whatever the
/// specifier — is refused; a unit that unexpectedly imports something is a
/// configuration error. The result would be the identifier of the compiled
/// unit the specifier resolves to; here there is never one.
pub fn resolve_module_imports(specifier: &str) -> (r: Option<u64>)
    ensures
        r is None,
{
    let _ = specifier;
    None
}

/// The text reported when compilation of the script fails: the engine's
/// diagnostic, framed.
pub open spec fn compile_error_text(diagnostic: Seq<char>) -> Seq<char> {
    "Exception: "@ + diagnostic + "\n\n"@
}

/// Builds the fatal startup report for a compilation failure from the
/// engine's diagnostic text.
pub fn compile_error_message(diagnostic: &str) -> (r: String)
    ensures
        r@ == compile_error_text(diagnostic@),
{
    let mut r = String::from_str("Exception: ");
    r.append(diagnostic);
    r.append("\n\n");
    proof {
        assert(r@ =~= compile_error_text(diagnostic@));
    }
    r
}

} // verus!
