//! The error type shared by every fallible entry point.
use vstd::prelude::*;

verus! {

/// The errors that the library reports to its callers.
#[derive(Debug, Clone, Copy, PartialEq, Eq, Hash, Structural)]
pub enum Error {
    /// Probe metadata was asked for a version that the evolving type does not register.
    TriedToGetProbeMetadataForNonExistentVersion,
    /// A builder produced a byte length that matches no evolution boundary.
    InvalidBuilderFields,
    /// A pylon was asked to hold an evolution newer than its storage evolution.
    CreatePylonWithNewerMinorVersionThanStorage,
}

impl Error {
    /// A human-readable description of the error.
    pub fn message(&self) -> (r: &'static str)
        ensures
            r@ == (match self {
                Error::TriedToGetProbeMetadataForNonExistentVersion => "tried to get probe metadata for a non-existent version of an Evolving type"@,
                Error::InvalidBuilderFields => "tried to build a major version builder with an invalid combination of underlying fields that did not match any minor version"@,
                Error::CreatePylonWithNewerMinorVersionThanStorage => "tried to create a pylon holding a newer minor version than its storage version"@,
            }),
    {
        match self {
            Error::TriedToGetProbeMetadataForNonExistentVersion => {
                proof {
                    reveal_strlit(
                        "tried to get probe metadata for a non-existent version of an Evolving type",
                    );
                }
                "tried to get probe metadata for a non-existent version of an Evolving type"
            },
            Error::InvalidBuilderFields => {
                proof {
                    reveal_strlit(
                        "tried to build a major version builder with an invalid combination of underlying fields that did not match any minor version",
                    );
                }
                "tried to build a major version builder with an invalid combination of underlying fields that did not match any minor version"
            },
            Error::CreatePylonWithNewerMinorVersionThanStorage => {
                proof {
                    reveal_strlit(
                        "tried to create a pylon holding a newer minor version than its storage version",
                    );
                }
                "tried to create a pylon holding a newer minor version than its storage version"
            },
        }
    }
}

} // verus!
