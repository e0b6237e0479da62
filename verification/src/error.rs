use vstd::prelude::*;
use vstd::string::*;

use std::path::PathBuf;

use crate::file_store::FileId;
use crate::text::{dec, push_decimal};

verus! {

/// `std::io::Error`, carried through the library as an opaque value.
#[verifier::external_type_specification]
#[verifier::external_body]
pub struct ExIoError(std::io::Error);

/// Why a path could not be registered.
#[derive(Debug)]
pub enum AddFileError {
    /// The path does not exist.
    NotFound(PathBuf),
    /// The path names a directory; only regular files are shared.
    IsADirectory(PathBuf),
    /// The file's metadata could not be read.
    Metadata(std::io::Error),
}

/// Why a file could not be unregistered.
#[derive(Debug, PartialEq, Eq, Structural)]
pub enum RemoveError {
    /// No file with this id is being shared.
    NotFound(FileId),
}

impl RemoveError {
    pub open spec fn spec_message(&self) -> Seq<char> {
        match self {
            RemoveError::NotFound(id) => "no shared file with id "@ + dec(id.0 as nat),
        }
    }

    pub fn message(&self) -> (r: String)
        ensures
            r@ == self.spec_message(),
    {
        match self {
            RemoveError::NotFound(id) => {
                let mut s = String::from_str("no shared file with id ");
                push_decimal(&mut s, id.0);
                s
            },
        }
    }
}

} // verus!
