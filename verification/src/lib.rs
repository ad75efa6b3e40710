//! Version projection primitives: contract-version identities, component
//! names, payloadless compatibility policy records and the runtime
//! migration lookup table, together with their verified contracts.

pub mod index;
pub mod policy;
pub mod projection;
pub mod text;
pub mod version;

pub use version::{ComponentName, ContractVersion, ContractVersionError, LiteralDecodeError};
pub use index::{DecodeError, RecordKind, RuntimeMigrationLookup, RuntimeMigrationLookupEntry};
pub use policy::{
    ComponentPolicy, OperationKind, OperationPolicy, PerOperationPolicy, ReadPolicy,
    SubscribePolicy, WritePolicy,
};
pub use projection::{Identity, Projected, ProjectionError, VersionProjection};
