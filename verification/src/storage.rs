//! The storage policy: what becomes of an attempt to open or to create the
//! catalog's file. A missing file is an empty store; any other refusal is
//! unrecoverable.
//!
//! The host makes the attempts and reports how they ended; the functions here
//! decide what follows.

use vstd::prelude::*;

verus! {

/// Why the operating system refused to open or to create the file.
#[derive(Debug, Clone, Copy, PartialEq, Eq)]
pub enum Failure {
    /// The file does not exist.
    NotFound,
    /// The process may not touch the file.
    PermissionDenied,
    /// Any other refusal.
    Other,
}

/// An unrecoverable storage failure. The host decides how to handle it: log
/// and abort, or hand it on.
#[derive(Debug, Clone, Copy, PartialEq, Eq)]
pub enum Fatal {
    /// The file exists but may not be opened.
    OpenDenied,
    /// The file could not be opened, for a reason other than its absence.
    OpenFailed,
    /// The file may not be created.
    CreateDenied,
    /// The file could not be created, for any other reason.
    CreateFailed,
}

/// What a load yields when it does not fail.
#[derive(Debug, Clone, PartialEq, Eq)]
pub struct Loaded {
    /// The stored text.
    pub text: String,
    /// Whether the file was missing, so that an empty one is to be created.
    pub create: bool,
}

/// The failure that a refused creation amounts to.
pub open spec fn create_failure(refusal: Failure) -> Fatal {
    match refusal {
        Failure::PermissionDenied => Fatal::CreateDenied,
        _ => Fatal::CreateFailed,
    }
}

/// Decides what becomes of an attempt to create the file, or to empty it for
/// writing: every refusal is fatal.
pub fn create(attempt: Result<(), Failure>) -> (outcome: Result<(), Fatal>)
    ensures
        outcome == match attempt {
            Ok(_) => Ok::<(), Fatal>(()),
            Err(refusal) => Err(create_failure(refusal)),
        },
{
    match attempt {
        Ok(_) => Ok(()),
        Err(Failure::PermissionDenied) => Err(Fatal::CreateDenied),
        Err(_) => Err(Fatal::CreateFailed),
    }
}

/// Decides what a load yields, given what was read from the opened file, or
/// the reason why it could not be opened. The file's contents are taken as
/// they are; contents that are not text (`None`) count as empty text. A missing
/// file yields empty text and asks for an empty file to be created; any other
/// refusal is fatal.
pub fn load(opened: Result<Option<String>, Failure>) -> (outcome: Result<Loaded, Fatal>)
    ensures
        match opened {
            Ok(Some(contents)) => outcome matches Ok(loaded) && loaded.text == contents
                && !loaded.create,
            Ok(None) => outcome matches Ok(loaded) && loaded.text@.len() == 0 && !loaded.create,
            Err(Failure::NotFound) => outcome matches Ok(loaded) && loaded.text@.len() == 0
                && loaded.create,
            Err(Failure::PermissionDenied) => outcome == Err::<Loaded, Fatal>(Fatal::OpenDenied),
            Err(Failure::Other) => outcome == Err::<Loaded, Fatal>(Fatal::OpenFailed),
        },
{
    match opened {
        Ok(Some(contents)) => Ok(Loaded { text: contents, create: false }),
        Ok(None) => Ok(Loaded { text: String::new(), create: false }),
        Err(Failure::NotFound) => Ok(Loaded { text: String::new(), create: true }),
        Err(Failure::PermissionDenied) => Err(Fatal::OpenDenied),
        Err(Failure::Other) => Err(Fatal::OpenFailed),
    }
}

} // verus!
