//! Worlds, event after event.
use dojo_world::byte_array::{ByteArray, Bytes31};
use dojo_world::error::RemoteError;
use dojo_world::event::{
    ContractInitialized, ContractRegistered, ContractUpgraded, MetadataUpdate, ModelRegistered,
    ModelUpgraded, NamespaceRegistered, OwnerUpdated, WorldEvent, WorldSpawned, WorldUpgraded,
    WriterUpdated,
};
use dojo_world::felt::Felt;
use dojo_world::felt_map::{FeltMap, FeltSet};
use dojo_world::naming;
use dojo_world::resource::{CommonRemoteInfo, ModelRemote, NamespaceRemote, ResourceRemote};
use dojo_world::world::{is_whitelisted, WorldRemote};

const NO_WHITELIST: Option<Vec<String>> = None;

fn f(value: u128) -> Felt {
    Felt::from_u128(value)
}

fn model(namespace: &str, name: &str) -> WorldEvent {
    WorldEvent::ModelRegistered(ModelRegistered {
        class_hash: f(1),
        name: ByteArray::from_string(name),
        address: f(2),
        namespace: ByteArray::from_string(namespace),
    })
}

fn contract(namespace: &str, name: &str) -> WorldEvent {
    WorldEvent::ContractRegistered(ContractRegistered {
        class_hash: f(1),
        name: ByteArray::from_string(name),
        address: f(2),
        namespace: ByteArray::from_string(namespace),
        salt: f(3),
    })
}

fn not_utf8() -> ByteArray {
    ByteArray { data: vec![], pending_word: f(0xff), pending_word_len: 1 }
}

fn unreadable() -> ByteArray {
    ByteArray { data: vec![], pending_word: f(0x41), pending_word_len: 33 }
}

fn metadata(resource: Felt, hash: u128) -> WorldEvent {
    WorldEvent::MetadataUpdate(MetadataUpdate {
        resource,
        uri: ByteArray::from_string("ipfs://m"),
        hash: f(hash),
    })
}

fn writer(resource: Felt, contract: u128, value: bool) -> WorldEvent {
    WorldEvent::WriterUpdated(WriterUpdated { resource, contract: f(contract), value })
}

fn owner(resource: Felt, contract: u128, value: bool) -> WorldEvent {
    WorldEvent::OwnerUpdated(OwnerUpdated { resource, contract: f(contract), value })
}

#[test]
fn whitelist_decides() {
    let list = Some(vec!["a".to_string(), "b".to_string()]);
    assert!(is_whitelisted(&list, "a"));
    assert!(is_whitelisted(&list, "b"));
    assert!(!is_whitelisted(&list, "c"));
    assert!(!is_whitelisted(&list, "ab"));
    assert!(!is_whitelisted(&Some(vec![]), "a"));
    assert!(is_whitelisted(&None, "a"));
}

#[test]
fn registered_model_has_its_contents() {
    let mut world = WorldRemote::new(f(9));
    world.match_event(model("ns", "m"), &NO_WHITELIST).unwrap();
    let selector = naming::compute_selector_from_names("ns", "m");
    let common = &world.resources.get(&selector).unwrap().as_model_or_panic().common;
    assert_eq!(common.class_hashes, vec![f(1)]);
    assert_eq!(common.name, "m");
    assert_eq!(common.namespace, "ns");
    assert_eq!(common.address, f(2));
    assert_eq!(common.metadata_hash, f(0));
    assert_eq!(common.owners, FeltSet::new());
    assert_eq!(common.writers, FeltSet::new());
    assert_eq!(world.address, f(9));
}

#[test]
fn other_namespaces_stay_out() {
    let list = Some(vec!["ns".to_string()]);
    let mut world = WorldRemote::default();
    world.match_event(model("other", "m"), &list).unwrap();
    world.match_event(contract("other", "c"), &list).unwrap();
    assert_eq!(world, WorldRemote::default());
    world.match_event(model("ns", "m"), &list).unwrap();
    assert!(world.resources.contains_key(&naming::compute_selector_from_names("ns", "m")));
}

#[test]
fn a_name_is_not_read_outside_the_whitelist() {
    let list = Some(vec!["ns".to_string()]);
    let mut world = WorldRemote::default();
    let event = WorldEvent::ModelRegistered(ModelRegistered {
        class_hash: f(1),
        name: not_utf8(),
        address: f(2),
        namespace: ByteArray::from_string("other"),
    });
    assert_eq!(world.match_event(event, &list), Ok(()));
    assert_eq!(world, WorldRemote::default());
}

#[test]
fn names_that_are_not_utf8_are_refused() {
    let mut world = WorldRemote::default();
    let event = WorldEvent::NamespaceRegistered(NamespaceRegistered {
        namespace: not_utf8(),
        hash: f(1),
    });
    let list = Some(vec![]);
    assert_eq!(world.match_event(event, &list), Err(RemoteError::InvalidUtf8));
    let event = WorldEvent::ModelRegistered(ModelRegistered {
        class_hash: f(1),
        name: not_utf8(),
        address: f(2),
        namespace: ByteArray::from_string("ns"),
    });
    assert_eq!(world.match_event(event, &NO_WHITELIST), Err(RemoteError::InvalidUtf8));
    assert_eq!(world, WorldRemote::default());
}

#[test]
fn unreadable_names_are_not_accepted() {
    let list = Some(vec!["ns".to_string()]);
    let world = WorldRemote::default();
    let event = |namespace: ByteArray, name: ByteArray| {
        WorldEvent::ModelRegistered(ModelRegistered {
            class_hash: f(1),
            name,
            address: f(2),
            namespace,
        })
    };
    assert!(!world.accepts(&event(unreadable(), ByteArray::from_string("m")), &list));
    assert!(!world.accepts(&event(ByteArray::from_string("ns"), unreadable()), &list));
    assert!(world.accepts(&event(ByteArray::from_string("other"), unreadable()), &list));
    assert!(world.accepts(&event(not_utf8(), unreadable()), &list));
}

#[test]
fn the_pending_word_is_not_read_after_a_refused_word() {
    let cut_off = || ByteArray {
        data: vec![Bytes31::new(f(0xff)).unwrap()],
        pending_word: f(0x41),
        pending_word_len: 33,
    };
    assert!(cut_off().is_readable());
    assert_eq!(cut_off().to_string(), Err(RemoteError::InvalidUtf8));
    let event = || {
        WorldEvent::NamespaceRegistered(NamespaceRegistered { namespace: cut_off(), hash: f(1) })
    };
    let mut world = WorldRemote::default();
    assert!(world.accepts(&event(), &NO_WHITELIST));
    assert_eq!(world.match_event(event(), &NO_WHITELIST), Err(RemoteError::InvalidUtf8));
    assert_eq!(world, WorldRemote::default());
    let named = WorldEvent::ModelRegistered(ModelRegistered {
        class_hash: f(1),
        name: cut_off(),
        address: f(2),
        namespace: ByteArray::from_string("ns"),
    });
    assert_eq!(
        WorldRemote::try_from_events(f(9), vec![Some(named)], &NO_WHITELIST),
        Some(Err(RemoteError::InvalidUtf8))
    );
    // Words that are text do not spare the pending word.
    let text = ByteArray {
        data: ByteArray::from_string("ABCDEFGHIJKLMNOPQRSTUVWXYZ12345").data,
        pending_word: f(0x41),
        pending_word_len: 33,
    };
    assert!(!text.is_readable());
}

#[test]
fn upgrades_append_and_unknown_upgrades_do_nothing() {
    let mut world = WorldRemote::default();
    let selector = naming::compute_selector_from_names("ns", "c");
    let upgrade = |class_hash: u128| {
        WorldEvent::ContractUpgraded(ContractUpgraded { selector, class_hash: f(class_hash) })
    };
    world.match_event(upgrade(5), &NO_WHITELIST).unwrap();
    assert_eq!(world, WorldRemote::default());
    world.match_event(contract("ns", "c"), &NO_WHITELIST).unwrap();
    world.match_event(upgrade(6), &NO_WHITELIST).unwrap();
    // The selector decides, not the kind of the event.
    let event = WorldEvent::ModelUpgraded(ModelUpgraded {
        selector,
        class_hash: f(7),
        address: f(1),
        prev_address: f(1),
    });
    world.match_event(event, &NO_WHITELIST).unwrap();
    let common = &world.resources.get(&selector).unwrap().as_contract_or_panic().common;
    assert_eq!(common.class_hashes, vec![f(1), f(6), f(7)]);
    assert_eq!(common.address, f(2));
}

#[test]
fn a_namespace_has_no_class_to_upgrade() {
    let mut world = WorldRemote::default();
    world.add_resource(ResourceRemote::Namespace(NamespaceRemote::new("ns".to_string())));
    let selector = naming::compute_bytearray_hash("ns");
    let event =
        WorldEvent::ContractUpgraded(ContractUpgraded { selector, class_hash: f(7) });
    world.match_event(event, &NO_WHITELIST).unwrap();
    assert_eq!(
        world.resources.get(&selector),
        Some(&ResourceRemote::Namespace(NamespaceRemote::new("ns".to_string())))
    );
}

#[test]
fn only_contracts_are_initialized() {
    let mut world = WorldRemote::default();
    world.match_event(model("ns", "m"), &NO_WHITELIST).unwrap();
    let selector = naming::compute_selector_from_names("ns", "m");
    let initialized = |selector: Felt| {
        WorldEvent::ContractInitialized(ContractInitialized { selector, init_calldata: vec![] })
    };
    assert_eq!(
        world.match_event(initialized(selector), &NO_WHITELIST),
        Err(RemoteError::NotAContract)
    );
    assert_eq!(
        world.resources.get(&selector),
        Some(&ResourceRemote::Model(ModelRemote {
            common: CommonRemoteInfo::new(f(1), "ns", "m", f(2))
        }))
    );
    assert_eq!(world.match_event(initialized(f(99)), &NO_WHITELIST), Ok(()));
}

#[test]
fn a_contract_stays_initialized_until_registered_anew() {
    let mut world = WorldRemote::default();
    let selector = naming::compute_selector_from_names("ns", "c");
    let event =
        WorldEvent::ContractInitialized(ContractInitialized { selector, init_calldata: vec![] });
    world.match_event(contract("ns", "c"), &NO_WHITELIST).unwrap();
    assert!(!world.resources.get(&selector).unwrap().as_contract_or_panic().is_initialized);
    world.match_event(event, &NO_WHITELIST).unwrap();
    world.match_event(writer(selector, 4, true), &NO_WHITELIST).unwrap();
    assert!(world.resources.get(&selector).unwrap().as_contract_or_panic().is_initialized);
    world.match_event(contract("ns", "c"), &NO_WHITELIST).unwrap();
    assert!(!world.resources.get(&selector).unwrap().as_contract_or_panic().is_initialized);
}

#[test]
fn permissions_on_unknown_resources_are_external() {
    let mut world = WorldRemote::default();
    world.match_event(writer(f(50), 1, true), &NO_WHITELIST).unwrap();
    world.match_event(writer(f(50), 2, true), &NO_WHITELIST).unwrap();
    world.match_event(writer(f(50), 1, false), &NO_WHITELIST).unwrap();
    assert_eq!(world.external_writers.get(&f(50)), Some(&FeltSet::singleton(f(2))));
    assert_eq!(world.external_owners, FeltMap::new());
    world.match_event(owner(f(50), 3, true), &NO_WHITELIST).unwrap();
    assert_eq!(world.external_owners.get(&f(50)), Some(&FeltSet::singleton(f(3))));
    // A permission that nobody had leaves an empty set behind.
    world.match_event(owner(f(51), 3, false), &NO_WHITELIST).unwrap();
    assert_eq!(world.external_owners.get(&f(51)), Some(&FeltSet::new()));
}

#[test]
fn writers_and_owners_are_apart() {
    let mut world = WorldRemote::default();
    world.match_event(model("ns", "m"), &NO_WHITELIST).unwrap();
    let selector = naming::compute_selector_from_names("ns", "m");
    world.match_event(writer(selector, 4, true), &NO_WHITELIST).unwrap();
    world.match_event(owner(selector, 5, true), &NO_WHITELIST).unwrap();
    let common = &world.resources.get(&selector).unwrap().as_model_or_panic().common;
    assert!(common.writers.contains(&f(4)));
    assert!(!common.writers.contains(&f(5)));
    assert_eq!(common.owners, FeltSet::singleton(f(5)));
    assert_eq!(world.external_writers, FeltMap::new());
}

#[test]
fn the_creator_owns_the_world() {
    let mut world = WorldRemote::default();
    world.match_event(owner(f(0), 8, true), &NO_WHITELIST).unwrap();
    let event = WorldEvent::WorldSpawned(WorldSpawned { class_hash: f(1), creator: f(6) });
    world.match_event(event, &NO_WHITELIST).unwrap();
    assert_eq!(world.external_owners.get(&f(0)), Some(&FeltSet::singleton(f(6))));
    let event = WorldEvent::WorldUpgraded(WorldUpgraded { class_hash: f(2) });
    world.match_event(event, &NO_WHITELIST).unwrap();
    assert_eq!(world.class_hashes, vec![f(1), f(2)]);
}

#[test]
fn metadata_is_the_last_one() {
    let mut world = WorldRemote::default();
    world.match_event(metadata(f(0), 3), &NO_WHITELIST).unwrap();
    assert_eq!(world.metadata_hash, f(3));
    world.match_event(metadata(f(0), 4), &NO_WHITELIST).unwrap();
    assert_eq!(world.metadata_hash, f(4));
    let selector = naming::compute_bytearray_hash("ns");
    assert!(!world.accepts(&metadata(selector, 5), &NO_WHITELIST));
    world.add_resource(ResourceRemote::Namespace(NamespaceRemote::new("ns".to_string())));
    assert!(world.accepts(&metadata(selector, 5), &NO_WHITELIST));
    world.match_event(metadata(selector, 5), &NO_WHITELIST).unwrap();
    assert_eq!(world.resources.get(&selector).unwrap().metadata_hash(), f(5));
    assert_eq!(world.metadata_hash, f(4));
}

#[test]
fn other_events_are_ignored() {
    let mut world = WorldRemote::default();
    world.match_event(WorldEvent::Other, &NO_WHITELIST).unwrap();
    assert_eq!(world, WorldRemote::default());
}

#[test]
fn a_world_is_built_from_its_events() {
    let selector = naming::compute_selector_from_names("ns", "m");
    let events = vec![
        Some(WorldEvent::WorldSpawned(WorldSpawned { class_hash: f(1), creator: f(6) })),
        None,
        Some(model("ns", "m")),
        Some(model("other", "m")),
        None,
        Some(metadata(selector, 3)),
    ];
    let list = Some(vec!["ns".to_string()]);
    let world = WorldRemote::from_events(f(9), events, &list).unwrap();
    assert_eq!(world.address, f(9));
    assert_eq!(world.class_hashes, vec![f(1)]);
    assert_eq!(world.resources.get(&selector).unwrap().metadata_hash(), f(3));
    let other = naming::compute_selector_from_names("other", "m");
    assert!(!world.resources.contains_key(&other));
}

#[test]
fn no_events_give_the_unknown_world() {
    let world = WorldRemote::from_events(f(9), vec![], &NO_WHITELIST);
    assert_eq!(world, Ok(WorldRemote::new(f(9))));
}

#[test]
fn the_first_refusal_decides() {
    let selector = naming::compute_selector_from_names("ns", "m");
    let refused = || {
        Some(WorldEvent::ContractInitialized(ContractInitialized {
            selector,
            init_calldata: vec![],
        }))
    };
    let events = vec![Some(model("ns", "m")), refused(), Some(metadata(f(77), 3))];
    assert_eq!(
        WorldRemote::try_from_events(f(9), events, &NO_WHITELIST),
        Some(Err(RemoteError::NotAContract))
    );
    let events = vec![Some(model("ns", "m")), Some(metadata(f(77), 3)), refused()];
    assert_eq!(WorldRemote::try_from_events(f(9), events, &NO_WHITELIST), None);
}

#[test]
fn maps_keep_what_was_put_last() {
    let mut map: FeltMap<u8> = FeltMap::new();
    for (key, value) in [(5, 50), (1, 10), (9, 90), (5, 55), (3, 30)] {
        map.insert(f(key), value);
    }
    assert_eq!(map.get(&f(5)), Some(&55));
    assert_eq!(map.get(&f(1)), Some(&10));
    assert_eq!(map.get(&f(4)), None);
    *map.get_mut(&f(9)).unwrap() = 91;
    assert_eq!(map.remove(&f(9)), Some(91));
    assert_eq!(map.remove(&f(9)), None);
    assert!(!map.contains_key(&f(9)));
    assert_eq!(map.get(&f(3)), Some(&30));
    let high = Felt::from_halves(1, 0).unwrap();
    assert!(f(u128::MAX).is_below(&high));
    map.insert(high, 7);
    assert_eq!(map.get(&high), Some(&7));
}
