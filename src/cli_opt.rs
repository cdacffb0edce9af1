//! The tool's options: the locale file, and the Rust sources to check.

use crate::locale_file_parser::opt_view;
use vstd::prelude::*;

verus! {

/// The extension of the file name of a path, if it has one.
pub uninterp spec fn path_extension(path: Seq<char>) -> Option<Seq<char>>;

/// Relies on `Path::extension`: the extension of the path's final component,
/// which depends on the path's text alone.
#[verifier::external_body]
fn extension_of(path: &str) -> (r: Option<String>)
    ensures
        opt_view(r) == path_extension(path@),
{
    match std::path::Path::new(path).extension() {
        Some(extension) => Some(extension.to_string_lossy().into_owned()),
        None => None,
    }
}

/// Returns if the given path points to a Rust file by checking its file extension.
pub fn is_rust_file(file_path: &str) -> (r: bool)
    ensures
        r == (path_extension(file_path@) == Some("rs"@)),
{
    let rust_file_extension = String::from_str("rs");
    match extension_of(file_path) {
        Some(extension) => extension.eq(&rust_file_extension),
        None => false,
    }
}

/// The tool's options.
#[derive(Debug, Clone, PartialEq)]
pub struct Cli {
    /// The path to the locale file
    locale_file: String,
    /// Rust files to check.
    ///
    /// If any path points to a directory, then all the Rust files in that directory
    /// will be checked.
    rust_src_to_check: Vec<String>,
}

impl Cli {
    pub closed spec fn spec_locale_file(&self) -> Seq<char> {
        self.locale_file@
    }

    pub closed spec fn spec_rust_src_to_check(&self) -> Seq<String> {
        self.rust_src_to_check@
    }

    /// The options with the given locale file and sources.
    pub fn new(locale_file: String, rust_src_to_check: Vec<String>) -> (r: Self)
        ensures
            r.spec_locale_file() == locale_file@,
            r.spec_rust_src_to_check() == rust_src_to_check@,
    {
        Cli { locale_file, rust_src_to_check }
    }

    /// Accesses the `--locale-file` option.
    pub fn locale_file(&self) -> (r: &str)
        ensures
            r@ == self.spec_locale_file(),
    {
        self.locale_file.as_str()
    }

    /// Accesses the `--rust-src-to-check` option: paths of files or directories.
    pub fn rust_src_paths(&self) -> (r: &[String])
        ensures
            r@ == self.spec_rust_src_to_check(),
    {
        self.rust_src_to_check.as_slice()
    }
}

} // verus!
