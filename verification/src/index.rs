//! Record kinds and the runtime migration lookup: a table of historical
//! decoders, each registered for one component and one contract version.

use vstd::prelude::*;
use vstd::string::StringExecFns;
use crate::version::{ComponentName, ContractVersion};

verus! {

/// The name of a kind of record, as carried on the wire.
#[derive(Debug, Clone, PartialEq, Eq, Hash)]
pub struct RecordKind(String);

impl View for RecordKind {
    type V = Seq<char>;

    closed spec fn view(&self) -> Seq<char> {
        self.0@
    }
}

impl RecordKind {
    /// A record kind holding the given text.
    pub fn new(value: &str) -> (kind: Self)
        ensures
            kind@ == value@,
    {
        RecordKind(value.to_owned())
    }

    /// The text of the record kind.
    pub fn as_str(&self) -> (text: &str)
        ensures
            text@ == self@,
    {
        self.0.as_str()
    }
}

/// Why a historical decoder could not decode a record.
#[derive(Debug, Clone, PartialEq, Eq)]
pub enum DecodeError {
    UnknownRecordKind(String),
    Failed(String),
}

impl DecodeError {
    /// The human-readable description of the error.
    pub fn to_string(&self) -> (text: String)
        ensures
            text@ == match self {
                DecodeError::UnknownRecordKind(kind) => "no decoder for record kind "@ + kind@,
                DecodeError::Failed(reason) => "decode failed: "@ + reason@,
            },
    {
        match self {
            DecodeError::UnknownRecordKind(kind) => {
                let mut text = String::from_str("no decoder for record kind ");
                text.append(kind.as_str());
                text
            },
            DecodeError::Failed(reason) => {
                let mut text = String::from_str("decode failed: ");
                text.append(reason.as_str());
                text
            },
        }
    }
}

/// One registered decoder: the component and contract version it reads,
/// and the function that decodes a record of that version into text.
#[derive(Clone)]
pub struct RuntimeMigrationLookupEntry<F> {
    component: ComponentName,
    contract_version: ContractVersion,
    decode: F,
}

impl<F> RuntimeMigrationLookupEntry<F> {
    /// The name of the component the entry decodes for.
    pub closed spec fn component_name(&self) -> Seq<char> {
        self.component@
    }

    /// The contract version the entry decodes.
    pub closed spec fn version(&self) -> Seq<u8> {
        self.contract_version@
    }

    /// The decoding function of the entry.
    pub closed spec fn decoder(&self) -> F {
        self.decode
    }

    /// Whether the entry is registered for the given component name and
    /// contract version.
    pub open spec fn registered_for(&self, name: Seq<char>, version: Seq<u8>) -> bool {
        self.component_name() == name && self.version() == version
    }
}

impl<F: Fn(&[u8], &RecordKind) -> Result<String, DecodeError>> RuntimeMigrationLookupEntry<F> {
    /// An entry for `component` at `contract_version`, decoding with `decode`.
    pub fn new(component: ComponentName, contract_version: ContractVersion, decode: F) -> (entry:
        Self)
        ensures
            entry.component_name() == component@,
            entry.version() == contract_version@,
            entry.decoder() == decode,
    {
        Self { component, contract_version, decode }
    }

    /// The component the entry decodes for.
    pub fn component(&self) -> (component: &ComponentName)
        ensures
            component@ == self.component_name(),
    {
        &self.component
    }

    /// The contract version the entry decodes.
    pub fn contract_version(&self) -> (version: ContractVersion)
        ensures
            version@ == self.version(),
    {
        self.contract_version
    }

    /// Decodes `bytes` as a record of kind `kind` with the entry's function.
    pub fn decode(&self, bytes: &[u8], kind: &RecordKind) -> (result: Result<String, DecodeError>)
        requires
            self.decoder().requires((bytes, kind)),
        ensures
            self.decoder().ensures((bytes, kind), result),
    {
        (self.decode)(bytes, kind)
    }
}

/// The table of registered decoders, searched in registration order.
#[derive(Clone)]
pub struct RuntimeMigrationLookup<F> {
    entries: Vec<RuntimeMigrationLookupEntry<F>>,
}

impl<F> RuntimeMigrationLookup<F> {
    /// The registered entries, in order.
    pub closed spec fn entry_seq(&self) -> Seq<RuntimeMigrationLookupEntry<F>> {
        self.entries@
    }
}

impl<F: Fn(&[u8], &RecordKind) -> Result<String, DecodeError>> RuntimeMigrationLookup<F> {
    /// A table holding `entries` in the given order.
    pub fn new(entries: Vec<RuntimeMigrationLookupEntry<F>>) -> (lookup: Self)
        ensures
            lookup.entry_seq() == entries@,
    {
        Self { entries }
    }

    /// The registered entries, in order.
    pub fn entries(&self) -> (entries: &[RuntimeMigrationLookupEntry<F>])
        ensures
            entries@ == self.entry_seq(),
    {
        self.entries.as_slice()
    }

    /// The first entry registered for a component with the same name as
    /// `component` and for `contract_version`, if there is one.
    pub fn find(&self, component: &ComponentName, contract_version: ContractVersion) -> (found:
        Option<&RuntimeMigrationLookupEntry<F>>)
        ensures
            match found {
                Some(entry) => exists|i: int|
                    0 <= i < self.entry_seq().len() && *entry == self.entry_seq()[i]
                        && entry.registered_for(component@, contract_version@) && forall|j: int|
                        0 <= j < i ==> !(#[trigger] self.entry_seq()[j]).registered_for(
                            component@,
                            contract_version@,
                        ),
                None => forall|i: int|
                    0 <= i < self.entry_seq().len() ==> !(#[trigger] self.entry_seq()[i]).registered_for(
                        component@,
                        contract_version@,
                    ),
            },
    {
        let mut i: usize = 0;
        while i < self.entries.len()
            invariant
                i <= self.entries@.len(),
                forall|j: int|
                    0 <= j < i ==> !(#[trigger] self.entries@[j]).registered_for(
                        component@,
                        contract_version@,
                    ),
            decreases self.entries@.len() - i,
        {
            let entry = &self.entries[i];
            if entry.component.same_name(component) && entry.contract_version == contract_version {
                proof {
                    assert(self.entry_seq()[i as int] == *entry);
                    assert(entry.registered_for(component@, contract_version@));
                }
                return Some(entry);
            }
            i = i + 1;
        }
        None
    }
}

impl<F> Default for RuntimeMigrationLookup<F> {
    /// An empty table.
    fn default() -> (lookup: Self)
        ensures
            lookup.entry_seq().len() == 0,
    {
        Self { entries: Vec::new() }
    }
}

} // verus!
