//! The converter adapter's part that computes: the command lines for the
//! document converter, and the reading of what a run of it gave.

use vstd::prelude::*;
use vstd::string::StringExecFns;
use crate::error::{AppError, AppResult, ErrorKind};

verus! {

/// The document converter, run as a module of the Python interpreter.
pub struct MarkItDownService;

impl MarkItDownService {
    /// The interpreter that runs the converter.
    pub fn program() -> (r: &'static str)
        ensures
            r@ == "python3"@,
    {
        "python3"
    }

    /// The arguments that ask the converter for its version.
    pub fn version_args() -> (r: Vec<String>)
        ensures
            r@.len() == 3,
            r@[0]@ == "-m"@,
            r@[1]@ == "markitdown"@,
            r@[2]@ == "--version"@,
    {
        let mut args: Vec<String> = Vec::new();
        args.push(String::from_str("-m"));
        args.push(String::from_str("markitdown"));
        args.push(String::from_str("--version"));
        args
    }

    /// The arguments that install the converter.
    pub fn install_args() -> (r: Vec<String>)
        ensures
            r@.len() == 4,
            r@[0]@ == "-m"@,
            r@[1]@ == "pip"@,
            r@[2]@ == "install"@,
            r@[3]@ == "markitdown"@,
    {
        let mut args: Vec<String> = Vec::new();
        args.push(String::from_str("-m"));
        args.push(String::from_str("pip"));
        args.push(String::from_str("install"));
        args.push(String::from_str("markitdown"));
        args
    }

    /// The arguments that convert the file at `file_path`.
    pub fn convert_args(file_path: &str) -> (r: Vec<String>)
        ensures
            r@.len() == 3,
            r@[0]@ == "-m"@,
            r@[1]@ == "markitdown"@,
            r@[2]@ == file_path@,
    {
        let mut args: Vec<String> = Vec::new();
        args.push(String::from_str("-m"));
        args.push(String::from_str("markitdown"));
        args.push(String::from_str(file_path));
        args
    }

    /// What an attempt to install the converter came to: an error of class
    /// `Conversion` with what it wrote to its error stream, unless it
    /// succeeded.
    pub fn read_install(success: bool, stderr: &str) -> (r: AppResult<()>)
        ensures
            success ==> r is Ok,
            !success ==> r is Err && r->Err_0.spec_kind() == ErrorKind::Conversion
                && r->Err_0.detail() == "Failed to install markitdown: "@ + stderr@,
    {
        if success {
            Ok(())
        } else {
            Err(
                AppError::Conversion(
                    String::from_str("Failed to install markitdown: ").concat(stderr),
                ),
            )
        }
    }

    /// What a run of the converter came to: what it wrote to its output where
    /// it succeeded, else an error of class `Conversion` with what it wrote
    /// to its error stream.
    pub fn read_conversion(success: bool, stdout: String, stderr: &str) -> (r: AppResult<String>)
        ensures
            success ==> r is Ok && r->Ok_0@ == stdout@,
            !success ==> r is Err && r->Err_0.spec_kind() == ErrorKind::Conversion
                && r->Err_0.detail() == "MarkItDown failed: "@ + stderr@,
    {
        if success {
            Ok(stdout)
        } else {
            Err(AppError::Conversion(String::from_str("MarkItDown failed: ").concat(stderr)))
        }
    }
}

} // verus!
