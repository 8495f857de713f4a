//! The library's error type.
use vstd::prelude::*;

verus! {

/// `std::io::Error`, carried through unchanged.
#[verifier::external_type_specification]
#[verifier::external_body]
pub struct ExIoError(std::io::Error);

/// `toml::de::Error`, carried through unchanged.
#[verifier::external_type_specification]
#[verifier::external_body]
pub struct ExTomlError(toml::de::Error);

/// What can go wrong while reading the data of a rig root or applying it.
#[derive(Debug)]
pub enum RigError {
    /// No rig root was found.
    RootNotFound,
    /// A file system or process error.
    Io(std::io::Error),
    /// A TOML file that does not parse.
    Toml { path: String, source: toml::de::Error },
    /// Any other failure, described in words.
    Msg(String),
}

/// The text of a `Msg` error.
pub open spec fn msg_text(e: RigError) -> Option<Seq<char>> {
    match e {
        RigError::Msg(m) => Some(m@),
        _ => None,
    }
}

} // verus!
