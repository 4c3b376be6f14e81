use vstd::prelude::*;

use crate::text::{append_str, chars_to_string, dec_digits, u64_to_dec};

verus! {

/// Failures of the plain file commands.
#[derive(Debug)]
pub enum FileError {
    NotFound(String),
    PermissionDenied(String),
    InvalidPath(String),
    ReadError(String),
    Other(String),
}

/// The message text of a file-command failure.
pub open spec fn spec_file_error_message(e: FileError) -> Seq<char> {
    match e {
        FileError::NotFound(p) => "File not found: "@ + p@,
        FileError::PermissionDenied(p) => "Permission denied: "@ + p@,
        FileError::InvalidPath(p) => "Invalid path: "@ + p@,
        FileError::ReadError(m) => "Error reading file: "@ + m@,
        FileError::Other(m) => "Error: "@ + m@,
    }
}

impl FileError {
    /// The user-facing description of this failure.
    pub fn message(&self) -> (r: String)
        ensures
            r@ == spec_file_error_message(*self),
    {
        let mut out: Vec<char> = Vec::new();
        match self {
            FileError::NotFound(p) => {
                append_str(&mut out, "File not found: ");
                append_str(&mut out, p.as_str());
            },
            FileError::PermissionDenied(p) => {
                append_str(&mut out, "Permission denied: ");
                append_str(&mut out, p.as_str());
            },
            FileError::InvalidPath(p) => {
                append_str(&mut out, "Invalid path: ");
                append_str(&mut out, p.as_str());
            },
            FileError::ReadError(m) => {
                append_str(&mut out, "Error reading file: ");
                append_str(&mut out, m.as_str());
            },
            FileError::Other(m) => {
                append_str(&mut out, "Error: ");
                append_str(&mut out, m.as_str());
            },
        }
        proof {
            assert(out@ =~= spec_file_error_message(*self));
        }
        chars_to_string(&out)
    }
}

/// Relies on `std::path::Path::exists`: the answer depends on the file
/// system at the moment of the call, so nothing is promised of it.
#[verifier::external_body]
fn path_exists(p: &str) -> bool {
    std::path::Path::new(p).exists()
}

/// Relies on `std::path::Path::is_file`: the answer depends on the file
/// system at the moment of the call, so nothing is promised of it.
#[verifier::external_body]
fn path_is_file(p: &str) -> bool {
    std::path::Path::new(p).is_file()
}

/// Turns the two file-system verdicts about a path into the command's
/// result: a missing path is not found, a path that is no regular file is
/// invalid, anything else passes.
pub fn classify_path(path: &String, exists: bool, is_file: bool) -> (r: Result<(), FileError>)
    ensures
        !exists ==> (r matches Result::Err(FileError::NotFound(p)) && p == *path),
        exists && !is_file ==> (r matches Result::Err(FileError::InvalidPath(m)) && m@ == path@
            + " is not a file"@),
        exists && is_file ==> r is Ok,
{
    if !exists {
        Err(FileError::NotFound(path.clone()))
    } else if !is_file {
        let mut msg: Vec<char> = Vec::new();
        append_str(&mut msg, path.as_str());
        append_str(&mut msg, " is not a file");
        Err(FileError::InvalidPath(chars_to_string(&msg)))
    } else {
        Ok(())
    }
}

/// A file named on the command line; its view is the wrapped path.
#[derive(Debug)]
pub struct File {
    file_path: String,
}

impl View for File {
    type V = Seq<char>;

    closed spec fn view(&self) -> Seq<char> {
        self.file_path@
    }
}

impl File {
    /// Wraps a path for the file commands.
    pub fn new(file_path: String) -> (r: Self)
        ensures
            r@ == file_path@,
    {
        Self { file_path }
    }

    /// The wrapped path.
    pub fn path(&self) -> (r: &String)
        ensures
            r@ == self@,
    {
        &self.file_path
    }

    /// Checks that the path names an existing regular file. The checks ask
    /// the file system, so only the shape of the verdict is promised: an
    /// error is either `NotFound` with the path, or `InvalidPath` with its
    /// message.
    pub fn validate_path(&self) -> (r: Result<(), FileError>)
        ensures
            match r {
                Result::Ok(_) => true,
                Result::Err(e) => (e matches FileError::NotFound(p) && p@ == self@) || (
                e matches FileError::InvalidPath(m) && m@ == self@ + " is not a file"@),
            },
    {
        let exists = path_exists(self.file_path.as_str());
        let is_file = path_is_file(self.file_path.as_str());
        classify_path(&self.file_path, exists, is_file)
    }
}

/// The text of the info command, given the file's metadata.
pub fn info_text(path: &str, size: u64, readonly: bool) -> (r: String)
    ensures
        r@ == "Path: "@ + path@ + "\nSize: "@ + dec_digits(size as int) + " bytes\nReadonly: "@
            + (if readonly {
            "true"@
        } else {
            "false"@
        }),
{
    let mut out: Vec<char> = Vec::new();
    append_str(&mut out, "Path: ");
    append_str(&mut out, path);
    append_str(&mut out, "\nSize: ");
    let mut d = u64_to_dec(size);
    out.append(&mut d);
    append_str(&mut out, " bytes\nReadonly: ");
    if readonly {
        append_str(&mut out, "true");
    } else {
        append_str(&mut out, "false");
    }
    proof {
        assert(out@ =~= "Path: "@ + path@ + "\nSize: "@ + dec_digits(size as int)
            + " bytes\nReadonly: "@ + (if readonly {
            "true"@
        } else {
            "false"@
        }));
    }
    chars_to_string(&out)
}

/// The text of the lines command, given the line count.
pub fn lines_text(path: &str, lines: u64) -> (r: String)
    ensures
        r@ == "File "@ + path@ + " has "@ + dec_digits(lines as int) + " lines"@,
{
    let mut out: Vec<char> = Vec::new();
    append_str(&mut out, "File ");
    append_str(&mut out, path);
    append_str(&mut out, " has ");
    let mut d = u64_to_dec(lines);
    out.append(&mut d);
    append_str(&mut out, " lines");
    proof {
        assert(out@ =~= "File "@ + path@ + " has "@ + dec_digits(lines as int) + " lines"@);
    }
    chars_to_string(&out)
}

/// The text of the size command, given the byte count.
pub fn bytes_text(path: &str, bytes: u64) -> (r: String)
    ensures
        r@ == "File "@ + path@ + " has "@ + dec_digits(bytes as int) + " bytes"@,
{
    let mut out: Vec<char> = Vec::new();
    append_str(&mut out, "File ");
    append_str(&mut out, path);
    append_str(&mut out, " has ");
    let mut d = u64_to_dec(bytes);
    out.append(&mut d);
    append_str(&mut out, " bytes");
    proof {
        assert(out@ =~= "File "@ + path@ + " has "@ + dec_digits(bytes as int) + " bytes"@);
    }
    chars_to_string(&out)
}

} // verus!
