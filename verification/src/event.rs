//! The events by which a world reports how its resources change.
use vstd::prelude::*;

use crate::byte_array::ByteArray;
use crate::felt::Felt;

verus! {

/// The world contract was deployed.
#[derive(Debug, PartialEq, Eq)]
pub struct WorldSpawned {
    pub class_hash: Felt,
    pub creator: Felt,
}

/// The world contract was upgraded to a class.
#[derive(Debug, PartialEq, Eq)]
pub struct WorldUpgraded {
    pub class_hash: Felt,
}

/// A namespace was registered.
#[derive(Debug, PartialEq, Eq)]
pub struct NamespaceRegistered {
    pub namespace: ByteArray,
    pub hash: Felt,
}

/// A model was registered in a namespace.
#[derive(Debug, PartialEq, Eq)]
pub struct ModelRegistered {
    pub class_hash: Felt,
    pub name: ByteArray,
    pub address: Felt,
    pub namespace: ByteArray,
}

/// An event was registered in a namespace.
#[derive(Debug, PartialEq, Eq)]
pub struct EventRegistered {
    pub class_hash: Felt,
    pub name: ByteArray,
    pub address: Felt,
    pub namespace: ByteArray,
}

/// A contract was registered in a namespace.
#[derive(Debug, PartialEq, Eq)]
pub struct ContractRegistered {
    pub class_hash: Felt,
    pub name: ByteArray,
    pub address: Felt,
    pub namespace: ByteArray,
    pub salt: Felt,
}

/// A model was upgraded to a class.
#[derive(Debug, PartialEq, Eq)]
pub struct ModelUpgraded {
    pub selector: Felt,
    pub class_hash: Felt,
    pub address: Felt,
    pub prev_address: Felt,
}

/// An event was upgraded to a class.
#[derive(Debug, PartialEq, Eq)]
pub struct EventUpgraded {
    pub selector: Felt,
    pub class_hash: Felt,
    pub address: Felt,
    pub prev_address: Felt,
}

/// A contract was upgraded to a class.
#[derive(Debug, PartialEq, Eq)]
pub struct ContractUpgraded {
    pub selector: Felt,
    pub class_hash: Felt,
}

/// The initializer of a contract ran.
#[derive(Debug, PartialEq, Eq)]
pub struct ContractInitialized {
    pub selector: Felt,
    pub init_calldata: Vec<Felt>,
}

/// A contract may now write a resource (`value`), or no longer.
#[derive(Debug, PartialEq, Eq)]
pub struct WriterUpdated {
    pub resource: Felt,
    pub contract: Felt,
    pub value: bool,
}

/// A contract now owns a resource (`value`), or no longer.
#[derive(Debug, PartialEq, Eq)]
pub struct OwnerUpdated {
    pub resource: Felt,
    pub contract: Felt,
    pub value: bool,
}

/// The metadata of a resource, or of the world, changed.
#[derive(Debug, PartialEq, Eq)]
pub struct MetadataUpdate {
    pub resource: Felt,
    pub uri: ByteArray,
    pub hash: Felt,
}

/// An event of the world contract.
#[derive(Debug, PartialEq, Eq)]
pub enum WorldEvent {
    WorldSpawned(WorldSpawned),
    WorldUpgraded(WorldUpgraded),
    NamespaceRegistered(NamespaceRegistered),
    ModelRegistered(ModelRegistered),
    EventRegistered(EventRegistered),
    ContractRegistered(ContractRegistered),
    ModelUpgraded(ModelUpgraded),
    EventUpgraded(EventUpgraded),
    ContractUpgraded(ContractUpgraded),
    ContractInitialized(ContractInitialized),
    WriterUpdated(WriterUpdated),
    OwnerUpdated(OwnerUpdated),
    MetadataUpdate(MetadataUpdate),
    /// An event about the data in resources, not about the resources themselves.
    Other,
}

} // verus!
