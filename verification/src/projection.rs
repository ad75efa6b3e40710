//! The projection relation between two versions of one logical type.

use vstd::prelude::*;
use vstd::string::StringExecFns;
use crate::version::{ComponentName, ContractVersion};

verus! {

/// Projection between two versions of one logical type.
///
/// Forward and reverse projections use the same trait with the type
/// parameters swapped.
pub trait VersionProjection<Source, Target> {
    type Error;

    fn project(source: Source) -> Result<Target, Self::Error>;
}

/// Marker implemented by every type that participates in version
/// projection.
pub trait Projected: Sized {
    const CONTRACT_VERSION: ContractVersion;

    fn component() -> ComponentName;
}

/// Identity projection for unchanged types.
pub struct Identity;

impl<T: Projected> VersionProjection<T, T> for Identity {
    type Error = core::convert::Infallible;

    /// Hands the value back unchanged; it never fails.
    fn project(value: T) -> (projected: Result<T, core::convert::Infallible>)
        ensures
            projected == Ok::<T, core::convert::Infallible>(value),
    {
        Ok(value)
    }
}

/// Why a value could not be projected.
#[derive(Debug, Clone, PartialEq, Eq)]
pub enum ProjectionError {
    NotRepresentable { source_type: String, target_type: String },
    TransformFailed(String),
    DirectionNotImplemented,
}

impl ProjectionError {
    /// The human-readable description of the error.
    pub fn to_string(&self) -> (text: String)
        ensures
            text@ == match self {
                ProjectionError::NotRepresentable { source_type, target_type } => source_type@
                    + " cannot be represented by "@ + target_type@,
                ProjectionError::TransformFailed(reason) => "projection transform failed: "@
                    + reason@,
                ProjectionError::DirectionNotImplemented => "projection direction is not implemented"@,
            },
    {
        match self {
            ProjectionError::NotRepresentable { source_type, target_type } => {
                let mut text = source_type.clone();
                text.append(" cannot be represented by ");
                text.append(target_type.as_str());
                text
            },
            ProjectionError::TransformFailed(reason) => {
                let mut text = String::from_str("projection transform failed: ");
                text.append(reason.as_str());
                text
            },
            ProjectionError::DirectionNotImplemented => String::from_str(
                "projection direction is not implemented",
            ),
        }
    }
}

} // verus!
