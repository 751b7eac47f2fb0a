//! The starting source text that project scaffolding writes into a fresh
//! file; the file handling itself lives outside the verified core.
use vstd::prelude::*;

use vstd::string::StringExecFns;

verus! {

/// The text of a fresh source file: a comment naming the tool, then the
/// minimal program.
pub open spec fn init_file_text() -> Seq<char> {
    "% This file is generated by vesti\ndocclass article\n\nstartdoc\n\nHello, World!\n"@
}

/// Builds the starting source text for a new project.
pub fn init_file_template() -> (r: String)
    ensures
        r@ == init_file_text(),
{
    String::from_str("% This file is generated by vesti\ndocclass article\n\nstartdoc\n\nHello, World!\n")
}

} // verus!
