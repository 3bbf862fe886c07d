//! What the server asks of the build tool.
//!
//! The build tool is a container that is handed the workspace as a mount
//! and leaves the artifact in it.  The tool itself is the caller's to run;
//! this module says how it is to be called and where its output goes.

use vstd::prelude::*;
use vstd::string::StringExecFns;
use crate::archive::names;

verus! {

/// The program that runs the container.
pub const CONTAINER_PROGRAM: &'static str = "docker";

/// The image of the build tool.
pub const CONTAINER_IMAGE: &'static str =
    "docker.pkg.github.com/texnak/sptcloud/sptcloud-pandoc-build:latest";

/// The name of the artifact file that a build leaves in its workspace.
pub const ARTIFACT_NAME: &'static str = "main.pdf";

/// The name of the file that marks a directory as a project.
pub const MANIFEST_NAME: &'static str = ".sptcloud.json";

/// The name under which an archive is kept in a workspace.
pub const ARCHIVE_NAME: &'static str = "archive.zip";

/// The hexadecimal digit that stands for `value`, in lower case.
pub open spec fn hex_digit(value: nat) -> char {
    if value < 10 {
        (48 + value) as char
    } else {
        (87 + value) as char
    }
}

/// 16 to the power of `count`.
pub open spec fn hex_power(count: nat) -> nat
    decreases count,
{
    if count == 0 {
        1
    } else {
        16 * hex_power((count - 1) as nat)
    }
}

/// A correlation identifier in its simple form: its 32 hexadecimal digits
/// in lower case, the highest first.
pub open spec fn simple_text(id: u128) -> Seq<char> {
    Seq::new(32, |i: int| hex_digit(((id as nat) / hex_power((31 - i) as nat)) % 16))
}

/// `Uuid::from_u128` and `Simple`'s `to_string` of the `uuid` crate: the
/// 128 bits of `id`, the highest first, as 32 hexadecimal digits in lower
/// case without hyphens.
#[verifier::external_body]
fn simple_form(id: u128) -> (text: String)
    ensures
        text@ == simple_text(id),
{
    uuid::Uuid::from_u128(id).to_simple().to_string()
}

/// The argument that mounts `workspace` into the container.
pub fn mount_argument(workspace: &str) -> (argument: String)
    ensures
        argument@ == workspace@ + ":/mount"@,
{
    let argument = String::from_str(workspace);
    argument.concat(":/mount")
}

/// The name of the file that takes the output of the build that serves
/// the connection with the correlation identifier `id`.
pub fn log_file_name(id: u128) -> (name: String)
    ensures
        name@ == simple_text(id) + ".log"@,
{
    simple_form(id).concat(".log")
}

/// The arguments that [`CONTAINER_PROGRAM`] is called with to build what
/// `workspace` holds.
pub fn container_arguments(workspace: &str) -> (arguments: Vec<String>)
    ensures
        names(arguments@) == seq![
            "run"@,
            "--rm"@,
            "-it"@,
            "-v"@,
            workspace@ + ":/mount"@,
            CONTAINER_IMAGE@,
        ],
{
    let mut arguments: Vec<String> = Vec::new();
    arguments.push(String::from_str("run"));
    arguments.push(String::from_str("--rm"));
    arguments.push(String::from_str("-it"));
    arguments.push(String::from_str("-v"));
    arguments.push(mount_argument(workspace));
    arguments.push(String::from_str(CONTAINER_IMAGE));
    assert(names(arguments@) =~= seq![
        "run"@,
        "--rm"@,
        "-it"@,
        "-v"@,
        workspace@ + ":/mount"@,
        CONTAINER_IMAGE@,
    ]);
    arguments
}

} // verus!
