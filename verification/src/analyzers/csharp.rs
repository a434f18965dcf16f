//! C# analysis (heuristic): from each `.cs` file the namespace, the classes
//! and interfaces, with the public methods as members for class diagrams.

use vstd::prelude::*;
use super::SourceFile;
use super::code::{Flavor, code_candidates, collect_code, push_all_unique, with_components};
use crate::model::Project;
use crate::text::flatten;

verus! {

/// Extracts the C# components of every `.cs` file; a component whose id is
/// already present is not added again.
pub fn collect(project: &mut Project, root: &str, files: &Vec<SourceFile>)
    ensures
        final(project)@ == with_components(
            old(project)@,
            push_all_unique(
                old(project)@.components,
                flatten(files@.map_values(|f: SourceFile| code_candidates(Flavor::CSharp, root@, f))),
            ),
        ),
{
    collect_code(project, root, files, Flavor::CSharp);
}

} // verus!
