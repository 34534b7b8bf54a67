//! The external circuit and proof tools, and where their files are.

use vstd::prelude::*;
use vstd::string::*;
use crate::error::WinterCircomError;

verus! {

/// An external program that the pipeline runs.
#[derive(Clone, Copy, Debug, PartialEq, Eq, Structural)]
pub enum Executable {
    Circom,
    SnarkJS,
}

/// A command to run: the program, its arguments and the directory to run it in.
#[derive(Clone, Debug, PartialEq, Eq)]
pub struct Invocation {
    pub executable: Executable,
    pub arguments: Vec<String>,
    pub directory: String,
}

/// The output directory of the circuit `name`.
pub open spec fn output_dir(name: Seq<char>) -> Seq<char> {
    "target/circom/"@ + name
}

/// The path of `file` in the output directory of the circuit `name`.
pub open spec fn output_file(name: Seq<char>, file: Seq<char>) -> Seq<char> {
    output_dir(name) + "/"@ + file
}

/// Builds the path of `file` in the output directory of the circuit `name`.
pub fn output_path(name: &str, file: &str) -> (path: String)
    ensures
        path@ == output_file(name@, file@),
{
    let mut path = String::from_str("target/circom/");
    path.append(name);
    path.append("/");
    path.append(file);
    path
}

/// Builds the path of the output directory of the circuit `name`.
pub fn output_directory(name: &str) -> (path: String)
    ensures
        path@ == output_dir(name@),
{
    let mut path = String::from_str("target/circom/");
    path.append(name);
    path
}

/// The error for the absent file at `path`, with the hint `comment`.
pub fn missing(path: String, comment: &str) -> (e: WinterCircomError)
    ensures
        e.is_missing(path@, comment@),
{
    WinterCircomError::FileNotFound { file: path, comment: Some(String::from_str(comment)) }
}

} // verus!
