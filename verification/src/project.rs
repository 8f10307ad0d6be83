//! Where a staged project keeps what the compiler leaves behind.

use vstd::prelude::*;
use vstd::string::StringExecFns;

verus! {

/// The directory under which every project is staged, with its slash.
pub const PROJECTS_ROOT: &'static str = "projects/";

/// The directory of a project, from its own root, that holds its sources.
pub const SOURCE_DIR: &'static str = "/src/";

/// The directory of a project, from its own root, that holds a debug build.
pub const OUTPUT_DIR: &'static str = "/out/debug/";

/// The file that holds the ABI of a built project.
pub const ABI_FILE: &'static str = "swaypad-abi.json";

/// The file that holds the bytecode of a built project.
pub const BYTECODE_FILE: &'static str = "swaypad.bin";

/// The file that holds the storage slots of a built project.
pub const STORAGE_SLOTS_FILE: &'static str = "swaypad-storage_slots.json";

/// The directory of the project named `project`.
pub open spec fn project_path(project: Seq<char>) -> Seq<char> {
    PROJECTS_ROOT@ + project
}

/// The path of the source file `file` of the project named `project`.
pub open spec fn source_path(project: Seq<char>, file: Seq<char>) -> Seq<char> {
    PROJECTS_ROOT@ + project + SOURCE_DIR@ + file
}

/// The path of the artifact `file` of the project named `project`.
pub open spec fn artifact_path(project: Seq<char>, file: Seq<char>) -> Seq<char> {
    PROJECTS_ROOT@ + project + OUTPUT_DIR@ + file
}

/// The directory of the project named `project`.
pub fn project_dir(project: &str) -> (path: String)
    ensures
        path@ == project_path(project@),
{
    let mut path = String::from_str(PROJECTS_ROOT);
    path.append(project);
    path
}

/// The path of the source file `file` of the project named `project`.
pub fn source(project: &str, file: &str) -> (path: String)
    ensures
        path@ == source_path(project@, file@),
{
    let mut path = String::from_str(PROJECTS_ROOT);
    path.append(project);
    path.append(SOURCE_DIR);
    path.append(file);
    path
}

/// The path of the artifact `file` of the project named `project`.
pub fn artifact(project: &str, file: &str) -> (path: String)
    ensures
        path@ == artifact_path(project@, file@),
{
    let mut path = String::from_str(PROJECTS_ROOT);
    path.append(project);
    path.append(OUTPUT_DIR);
    path.append(file);
    path
}

} // verus!
