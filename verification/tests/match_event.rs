//! One event of each kind, applied to a world.
use dojo_world::byte_array::ByteArray;
use dojo_world::event::{
    ContractInitialized, ContractRegistered, ContractUpgraded, EventRegistered, EventUpgraded,
    MetadataUpdate, ModelRegistered, ModelUpgraded, NamespaceRegistered, OwnerUpdated, WorldEvent,
    WorldSpawned, WorldUpgraded, WriterUpdated,
};
use dojo_world::felt::Felt;
use dojo_world::felt_map::FeltSet;
use dojo_world::naming;
use dojo_world::resource::{
    CommonRemoteInfo, ContractRemote, EventRemote, ModelRemote, NamespaceRemote, ResourceRemote,
};
use dojo_world::world::WorldRemote;

const NO_WHITELIST: Option<Vec<String>> = None;

fn one() -> Felt {
    Felt::from_u128(1)
}

fn two() -> Felt {
    Felt::from_u128(2)
}

fn three() -> Felt {
    Felt::from_u128(3)
}

#[test]
fn test_world_spawned_event() {
    let mut world_remote = WorldRemote::default();
    let event = WorldEvent::WorldSpawned(WorldSpawned { class_hash: one(), creator: one() });

    world_remote.match_event(event, &NO_WHITELIST).unwrap();
    assert_eq!(world_remote.class_hashes.len(), 1);
}

#[test]
fn test_world_upgraded_event() {
    let mut world_remote = WorldRemote::default();
    let event = WorldEvent::WorldUpgraded(WorldUpgraded { class_hash: one() });

    world_remote.match_event(event, &NO_WHITELIST).unwrap();
    assert_eq!(world_remote.class_hashes.len(), 1);
}

#[test]
fn test_namespace_registered_event() {
    let mut world_remote = WorldRemote::default();
    let event = WorldEvent::NamespaceRegistered(NamespaceRegistered {
        namespace: ByteArray::from_string("ns"),
        hash: Felt::from_u128(123),
    });

    world_remote.match_event(event, &NO_WHITELIST).unwrap();

    let selector = naming::compute_bytearray_hash("ns");
    assert!(world_remote.resources.contains_key(&selector));

    let resource = world_remote.resources.get(&selector).unwrap();
    assert!(matches!(resource, ResourceRemote::Namespace(_)));
}

#[test]
fn test_namespace_registered_event_not_whitelisted() {
    let mut world_remote = WorldRemote::default();
    let event = WorldEvent::NamespaceRegistered(NamespaceRegistered {
        namespace: ByteArray::from_string("ns"),
        hash: Felt::from_u128(123),
    });

    world_remote.match_event(event, &Some(vec!["ns2".to_string()])).unwrap();

    let selector = naming::compute_bytearray_hash("ns");
    assert!(!world_remote.resources.contains_key(&selector));
}

#[test]
fn test_model_registered_event() {
    let mut world_remote = WorldRemote::default();
    let event = WorldEvent::ModelRegistered(ModelRegistered {
        class_hash: one(),
        name: ByteArray::from_string("m"),
        address: one(),
        namespace: ByteArray::from_string("ns"),
    });

    world_remote.match_event(event, &NO_WHITELIST).unwrap();
    let selector = naming::compute_selector_from_names("ns", "m");
    assert!(world_remote.resources.contains_key(&selector));

    let resource = world_remote.resources.get(&selector).unwrap();
    assert!(matches!(resource, ResourceRemote::Model(_)));
}

#[test]
fn test_event_registered_event() {
    let mut world_remote = WorldRemote::default();
    let event = WorldEvent::EventRegistered(EventRegistered {
        class_hash: one(),
        name: ByteArray::from_string("e"),
        address: one(),
        namespace: ByteArray::from_string("ns"),
    });

    world_remote.match_event(event, &NO_WHITELIST).unwrap();
    let selector = naming::compute_selector_from_names("ns", "e");
    assert!(world_remote.resources.contains_key(&selector));

    let resource = world_remote.resources.get(&selector).unwrap();
    assert!(matches!(resource, ResourceRemote::Event(_)));
}

#[test]
fn test_contract_registered_event() {
    let mut world_remote = WorldRemote::default();
    let event = WorldEvent::ContractRegistered(ContractRegistered {
        class_hash: one(),
        name: ByteArray::from_string("c"),
        address: one(),
        namespace: ByteArray::from_string("ns"),
        salt: one(),
    });

    world_remote.match_event(event, &NO_WHITELIST).unwrap();
    let selector = naming::compute_selector_from_names("ns", "c");
    assert!(world_remote.resources.contains_key(&selector));

    let resource = world_remote.resources.get(&selector).unwrap();
    assert!(matches!(resource, ResourceRemote::Contract(_)));
}

#[test]
fn test_model_upgraded_event() {
    let mut world_remote = WorldRemote::default();
    let selector = naming::compute_selector_from_names("ns", "m");

    let resource = ResourceRemote::Model(ModelRemote {
        common: CommonRemoteInfo::new(one(), "ns", "m", one()),
    });

    world_remote.add_resource(resource);

    let event = WorldEvent::ModelUpgraded(ModelUpgraded {
        selector,
        class_hash: two(),
        address: one(),
        prev_address: one(),
    });

    world_remote.match_event(event, &NO_WHITELIST).unwrap();

    let resource = world_remote.resources.get(&selector).unwrap();
    assert_eq!(resource.as_model_or_panic().common.class_hashes, vec![one(), two()]);
}

#[test]
fn test_event_upgraded_event() {
    let mut world_remote = WorldRemote::default();
    let selector = naming::compute_selector_from_names("ns", "e");

    let resource = ResourceRemote::Event(EventRemote {
        common: CommonRemoteInfo::new(one(), "ns", "e", one()),
    });

    world_remote.add_resource(resource);

    let event = WorldEvent::EventUpgraded(EventUpgraded {
        selector,
        class_hash: two(),
        address: one(),
        prev_address: one(),
    });

    world_remote.match_event(event, &NO_WHITELIST).unwrap();

    let resource = world_remote.resources.get(&selector).unwrap();
    assert_eq!(resource.as_event_or_panic().common.class_hashes, vec![one(), two()]);
}

#[test]
fn test_contract_upgraded_event() {
    let mut world_remote = WorldRemote::default();
    let selector = naming::compute_selector_from_names("ns", "c");

    let resource = ResourceRemote::Contract(ContractRemote {
        common: CommonRemoteInfo::new(one(), "ns", "c", one()),
        is_initialized: false,
    });

    world_remote.add_resource(resource);

    let event =
        WorldEvent::ContractUpgraded(ContractUpgraded { selector, class_hash: two() });

    world_remote.match_event(event, &NO_WHITELIST).unwrap();
    let resource = world_remote.resources.get(&selector).unwrap();
    assert_eq!(resource.as_contract_or_panic().common.class_hashes, vec![one(), two()]);
}

#[test]
fn test_contract_initialized_event() {
    let mut world_remote = WorldRemote::default();
    let selector = naming::compute_selector_from_names("ns", "c");

    let resource = ResourceRemote::Contract(ContractRemote {
        common: CommonRemoteInfo::new(one(), "ns", "c", one()),
        is_initialized: false,
    });

    world_remote.add_resource(resource);

    let event = WorldEvent::ContractInitialized(ContractInitialized {
        selector,
        init_calldata: vec![],
    });

    world_remote.match_event(event, &NO_WHITELIST).unwrap();

    let resource = world_remote.resources.get(&selector).unwrap();
    assert!(resource.as_contract_or_panic().is_initialized);
}

#[test]
fn test_writer_updated_event() {
    let mut world_remote = WorldRemote::default();
    let selector = naming::compute_bytearray_hash("ns");

    let resource = ResourceRemote::Namespace(NamespaceRemote::new("ns".to_string()));
    world_remote.add_resource(resource);

    let event = WorldEvent::WriterUpdated(WriterUpdated {
        resource: selector,
        contract: one(),
        value: true,
    });

    world_remote.match_event(event, &NO_WHITELIST).unwrap();

    let resource = world_remote.resources.get(&selector).unwrap();
    assert_eq!(resource.as_namespace_or_panic().writers, FeltSet::singleton(one()));

    let event = WorldEvent::WriterUpdated(WriterUpdated {
        resource: selector,
        contract: one(),
        value: false,
    });

    world_remote.match_event(event, &NO_WHITELIST).unwrap();

    let resource = world_remote.resources.get(&selector).unwrap();
    assert_eq!(resource.as_namespace_or_panic().writers, FeltSet::new());
}

#[test]
fn test_owner_updated_event() {
    let mut world_remote = WorldRemote::default();
    let selector = naming::compute_bytearray_hash("ns");

    let resource = ResourceRemote::Namespace(NamespaceRemote::new("ns".to_string()));
    world_remote.add_resource(resource);

    let event = WorldEvent::OwnerUpdated(OwnerUpdated {
        resource: selector,
        contract: one(),
        value: true,
    });

    world_remote.match_event(event, &NO_WHITELIST).unwrap();

    let resource = world_remote.resources.get(&selector).unwrap();
    assert_eq!(resource.as_namespace_or_panic().owners, FeltSet::singleton(one()));

    let event = WorldEvent::OwnerUpdated(OwnerUpdated {
        resource: selector,
        contract: one(),
        value: false,
    });

    world_remote.match_event(event, &NO_WHITELIST).unwrap();

    let resource = world_remote.resources.get(&selector).unwrap();
    assert_eq!(resource.as_namespace_or_panic().owners, FeltSet::new());
}

#[test]
fn test_metadata_updated_event() {
    let mut world_remote = WorldRemote::default();
    let selector = naming::compute_selector_from_names("ns", "m1");

    let resource = ResourceRemote::Model(ModelRemote {
        common: CommonRemoteInfo::new(two(), "ns", "m1", one()),
    });
    world_remote.add_resource(resource);

    let event = WorldEvent::MetadataUpdate(MetadataUpdate {
        resource: selector,
        uri: ByteArray::from_string("ipfs://m1"),
        hash: three(),
    });

    world_remote.match_event(event, &NO_WHITELIST).unwrap();

    let resource = world_remote.resources.get(&selector).unwrap();
    assert_eq!(resource.metadata_hash(), three());

    let event = WorldEvent::MetadataUpdate(MetadataUpdate {
        resource: selector,
        uri: ByteArray::from_string("ipfs://m1"),
        hash: one(),
    });

    world_remote.match_event(event, &NO_WHITELIST).unwrap();

    let resource = world_remote.resources.get(&selector).unwrap();
    assert_eq!(resource.metadata_hash(), one());
}
