//! The outcome of reading one file.
//!
//! Reading is done by the host of this library. It reports what it found at
//! the path as a [`FileProbe`]; [`read_file_content`] turns that into the
//! content of the file or the reason why there is none.

use vstd::prelude::*;
use vstd::string::StringExecFns;

verus! {

/// Why a file's content could not be had.
#[derive(Debug)]
pub enum FileReadError {
    /// Nothing exists at the path.
    NotFound,
    /// The path names a directory.
    IsDirectory,
    /// Reading failed; the text says how.
    Io(String),
}

/// What the host found when it went to read a file.
#[derive(Debug)]
pub enum FileProbe {
    /// Nothing exists at the path.
    Missing,
    /// The path names a directory.
    Directory,
    /// The file was read; this is its content.
    Content(String),
    /// The path names a file, but reading it failed; the text says how.
    Failed(String),
}

/// The text of an error, for people.
pub open spec fn file_error_text(e: FileReadError) -> Seq<char> {
    match e {
        FileReadError::NotFound => "File not found"@,
        FileReadError::IsDirectory => "Path is a directory, not a file"@,
        FileReadError::Io(cause) => "I/O error: "@ + cause@,
    }
}

impl FileReadError {
    /// The text of the error, for people.
    pub fn message(&self) -> (text: String)
        ensures
            text@ == file_error_text(*self),
    {
        match self {
            FileReadError::NotFound => "File not found".to_owned(),
            FileReadError::IsDirectory => "Path is a directory, not a file".to_owned(),
            FileReadError::Io(cause) => {
                let mut text = "I/O error: ".to_owned();
                text.append(cause.as_str());
                text
            },
        }
    }
}

/// The content of the file that was probed, or the error that stands for
/// what the probe found instead: a missing path is `NotFound`, a directory
/// is `IsDirectory`, and a failed read is `Io` with the same cause.
pub fn read_file_content(probe: FileProbe) -> (r: Result<String, FileReadError>)
    ensures
        match probe {
            FileProbe::Missing => r == Err::<String, FileReadError>(FileReadError::NotFound),
            FileProbe::Directory => r == Err::<String, FileReadError>(FileReadError::IsDirectory),
            FileProbe::Content(text) => r == Ok::<String, FileReadError>(text),
            FileProbe::Failed(cause) => r == Err::<String, FileReadError>(
                FileReadError::Io(cause),
            ),
        },
{
    match probe {
        FileProbe::Missing => Err(FileReadError::NotFound),
        FileProbe::Directory => Err(FileReadError::IsDirectory),
        FileProbe::Content(text) => Ok(text),
        FileProbe::Failed(cause) => Err(FileReadError::Io(cause)),
    }
}

} // verus!
