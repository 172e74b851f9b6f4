//! The laws of worlds and of fetches, on concrete values.
use dojo_world::byte_array::ByteArray;
use dojo_world::event::{
    ContractUpgraded, EventRegistered, EventUpgraded, MetadataUpdate, ModelRegistered,
    ModelUpgraded, NamespaceRegistered, OwnerUpdated, WorldEvent, WorldSpawned, WorldUpgraded,
    WriterUpdated,
};
use dojo_world::felt::Felt;
use dojo_world::felt_map::FeltSet;
use dojo_world::fetch::{EventFetch, FetchReply, FetchRequest};
use dojo_world::naming;
use dojo_world::resource::ResourceRemote;
use dojo_world::world::WorldRemote;

const NO_WHITELIST: Option<Vec<String>> = None;

fn f(value: u128) -> Felt {
    Felt::from_u128(value)
}

fn model(namespace: &str, name: &str, class_hash: u128) -> WorldEvent {
    WorldEvent::ModelRegistered(ModelRegistered {
        class_hash: f(class_hash),
        name: ByteArray::from_string(name),
        address: f(2),
        namespace: ByteArray::from_string(namespace),
    })
}

fn upgrade(selector: Felt, class_hash: u128) -> WorldEvent {
    WorldEvent::ModelUpgraded(ModelUpgraded {
        selector,
        class_hash: f(class_hash),
        address: f(2),
        prev_address: f(2),
    })
}

fn writer(resource: Felt, contract: u128, value: bool) -> WorldEvent {
    WorldEvent::WriterUpdated(WriterUpdated { resource, contract: f(contract), value })
}

fn owner(resource: Felt, contract: u128, value: bool) -> WorldEvent {
    WorldEvent::OwnerUpdated(OwnerUpdated { resource, contract: f(contract), value })
}

fn metadata(resource: Felt, hash: u128) -> WorldEvent {
    WorldEvent::MetadataUpdate(MetadataUpdate {
        resource,
        uri: ByteArray::from_string("ipfs://m"),
        hash: f(hash),
    })
}

fn built(events: Vec<WorldEvent>) -> WorldRemote {
    let events = events.into_iter().map(Some).collect();
    WorldRemote::try_from_events(f(9), events, &NO_WHITELIST).unwrap().unwrap()
}

fn m_selector() -> Felt {
    naming::compute_selector_from_names("ns", "m")
}

fn n_selector() -> Felt {
    naming::compute_selector_from_names("ns", "n")
}

#[test]
fn an_event_concerns_one_resource() {
    let before = built(vec![model("ns", "m", 1), model("ns", "n", 3)]);
    for event in [
        upgrade(m_selector(), 5),
        writer(m_selector(), 4, true),
        owner(m_selector(), 4, true),
        metadata(m_selector(), 6),
        model("ns", "m", 7),
    ] {
        let mut world = built(vec![model("ns", "m", 1), model("ns", "n", 3)]);
        world.match_event(event, &NO_WHITELIST).unwrap();
        assert_ne!(world.resources.get(&m_selector()), before.resources.get(&m_selector()));
        assert_eq!(world.resources.get(&n_selector()), before.resources.get(&n_selector()));
        assert_eq!(world.external_writers, before.external_writers);
        assert_eq!(world.external_owners, before.external_owners);
        assert_eq!(world.class_hashes, before.class_hashes);
        assert_eq!(world.metadata_hash, before.metadata_hash);
    }
}

#[test]
fn a_resource_never_leaves() {
    let mut world = built(vec![model("ns", "m", 1)]);
    for event in [
        model("ns", "n", 1),
        upgrade(n_selector(), 2),
        writer(m_selector(), 4, false),
        WorldEvent::WorldUpgraded(WorldUpgraded { class_hash: f(8) }),
        model("ns", "m", 1),
        WorldEvent::Other,
    ] {
        world.match_event(event, &NO_WHITELIST).unwrap();
        assert!(world.resources.contains_key(&m_selector()));
        assert!(world.accepts(&metadata(m_selector(), 3), &NO_WHITELIST));
    }
}

#[test]
fn resources_stand_under_their_selectors() {
    let world = built(vec![
        WorldEvent::NamespaceRegistered(NamespaceRegistered {
            namespace: ByteArray::from_string("ns"),
            hash: f(1),
        }),
        model("ns", "m", 1),
        WorldEvent::EventRegistered(EventRegistered {
            class_hash: f(1),
            name: ByteArray::from_string("e"),
            address: f(2),
            namespace: ByteArray::from_string("ns"),
        }),
        upgrade(m_selector(), 2),
    ]);
    for selector in [
        naming::compute_bytearray_hash("ns"),
        m_selector(),
        naming::compute_selector_from_names("ns", "e"),
    ] {
        assert_eq!(world.resources.get(&selector).unwrap().dojo_selector(), selector);
    }
}

#[test]
fn a_grant_and_a_revocation_cancel() {
    for resource in [m_selector(), f(50)] {
        let before = vec![
            model("ns", "m", 1),
            writer(resource, 1, true),
            owner(resource, 1, true),
        ];
        let between = vec![
            model("ns", "m", 1),
            writer(resource, 1, true),
            owner(resource, 1, true),
            writer(resource, 2, true),
            owner(resource, 3, true),
            writer(resource, 2, false),
            owner(resource, 3, false),
        ];
        assert_eq!(built(between), built(before));
    }
}

#[test]
fn a_writer_permission_cancels_for_an_owner_too() {
    for resource in [m_selector(), f(50)] {
        let before = vec![model("ns", "m", 1), writer(resource, 1, true), owner(resource, 2, true)];
        let between = vec![
            model("ns", "m", 1),
            writer(resource, 1, true),
            owner(resource, 2, true),
            writer(resource, 2, true),
            writer(resource, 2, false),
            owner(resource, 1, true),
            owner(resource, 1, false),
        ];
        assert_eq!(built(between), built(before));
    }
}

#[test]
fn updates_may_be_repeated() {
    let world = built(vec![writer(f(50), 2, true), writer(f(50), 2, true)]);
    assert_eq!(world.external_writers.get(&f(50)), Some(&FeltSet::singleton(f(2))));
}

#[test]
fn each_upgrade_event_appends_a_class() {
    let mut world = built(vec![model("ns", "m", 1)]);
    world.match_event(upgrade(m_selector(), 2), &NO_WHITELIST).unwrap();
    let event = WorldEvent::EventUpgraded(EventUpgraded {
        selector: m_selector(),
        class_hash: f(3),
        address: f(7),
        prev_address: f(2),
    });
    world.match_event(event, &NO_WHITELIST).unwrap();
    let event = WorldEvent::ContractUpgraded(ContractUpgraded {
        selector: m_selector(),
        class_hash: f(4),
    });
    world.match_event(event, &NO_WHITELIST).unwrap();
    match world.resources.get(&m_selector()) {
        Some(ResourceRemote::Model(m)) => {
            assert_eq!(m.common.class_hashes, vec![f(1), f(2), f(3), f(4)]);
            assert_eq!(m.common.address, f(2));
        }
        _ => panic!("no model"),
    }
}

#[test]
fn the_classes_of_the_world_only_grow() {
    let world = built(vec![
        WorldEvent::WorldSpawned(WorldSpawned { class_hash: f(1), creator: f(6) }),
        WorldEvent::WorldUpgraded(WorldUpgraded { class_hash: f(2) }),
        model("ns", "m", 7),
        WorldEvent::WorldUpgraded(WorldUpgraded { class_hash: f(3) }),
    ]);
    assert_eq!(world.class_hashes, vec![f(1), f(2), f(3)]);
    assert_eq!(world.address, f(9));
}

#[test]
fn a_resource_registered_anew_starts_over() {
    let world = built(vec![
        model("ns", "m", 1),
        upgrade(m_selector(), 2),
        writer(m_selector(), 4, true),
        model("ns", "m", 3),
    ]);
    assert_eq!(world, built(vec![model("ns", "m", 3)]));
}

#[test]
fn unparsed_events_make_no_difference() {
    let events = vec![None, Some(model("ns", "m", 1)), None, Some(upgrade(m_selector(), 2)), None];
    assert_eq!(
        WorldRemote::from_events(f(9), events, &NO_WHITELIST),
        Ok(built(vec![model("ns", "m", 1), upgrade(m_selector(), 2)]))
    );
}

#[test]
fn events_can_be_taken_in_two_lots() {
    let mut world = built(vec![model("ns", "m", 1), writer(m_selector(), 4, true)]);
    world.match_event(upgrade(m_selector(), 2), &NO_WHITELIST).unwrap();
    world.match_event(metadata(m_selector(), 3), &NO_WHITELIST).unwrap();
    assert_eq!(
        world,
        built(vec![
            model("ns", "m", 1),
            writer(m_selector(), 4, true),
            upgrade(m_selector(), 2),
            metadata(m_selector(), 3),
        ])
    );
}

#[test]
fn each_block_is_asked_for_once() {
    let mut fetch = EventFetch::new(f(7), Some(123))
        .step(FetchReply::ChainId(f(1)))
        .step(FetchReply::ClassFound)
        .step(FetchReply::BlockNumber(150_122));
    let mut next_block = 123;
    let mut windows = 0;
    while let Some(request) = fetch.request() {
        match request {
            FetchRequest::Events { from_block, to_block, .. } => {
                assert_eq!(from_block, next_block);
                assert!(from_block <= to_block && to_block - from_block < 50_000);
                next_block = to_block + 1;
            }
            _ => panic!("not a request for events"),
        }
        windows += 1;
        let reply = FetchReply::Events { events: vec![], continuation_token: None };
        assert!(fetch.accepts(&reply));
        fetch = fetch.step(reply);
    }
    assert_eq!(next_block, 150_123);
    assert_eq!(windows, 3);
}

#[test]
fn a_missing_contract_gives_the_unknown_world() {
    let events = EventFetch::new(f(9), None)
        .step(FetchReply::ChainId(f(1)))
        .step(FetchReply::ContractNotFound)
        .into_events()
        .unwrap();
    assert_eq!(
        WorldRemote::from_events(f(9), events, &NO_WHITELIST),
        Ok(WorldRemote::new(f(9)))
    );
}

#[test]
fn metadata_is_that_of_the_last_update() {
    let world = built(vec![
        metadata(f(0), 1),
        model("ns", "m", 1),
        model("ns", "n", 1),
        metadata(m_selector(), 2),
        metadata(f(0), 3),
        metadata(m_selector(), 4),
        writer(m_selector(), 5, true),
    ]);
    assert_eq!(world.metadata_hash, f(3));
    assert_eq!(world.resources.get(&m_selector()).unwrap().metadata_hash(), f(4));
    assert_eq!(world.resources.get(&n_selector()).unwrap().metadata_hash(), f(0));
}

#[test]
fn a_whitelist_restricts_the_world() {
    let excluded = naming::compute_selector_from_names("other", "m");
    let events = || {
        vec![
            Some(WorldEvent::WorldSpawned(WorldSpawned { class_hash: f(1), creator: f(6) })),
            Some(model("ns", "m", 1)),
            Some(model("other", "m", 1)),
            Some(upgrade(m_selector(), 2)),
            Some(upgrade(excluded, 2)),
            Some(writer(m_selector(), 3, true)),
            Some(writer(excluded, 3, true)),
            Some(owner(f(50), 4, true)),
            Some(metadata(f(0), 5)),
        ]
    };
    let list = Some(vec!["ns".to_string()]);
    let whole = WorldRemote::from_events(f(9), events(), &NO_WHITELIST).unwrap();
    let part = WorldRemote::from_events(f(9), events(), &list).unwrap();
    assert_eq!(part.address, whole.address);
    assert_eq!(part.class_hashes, whole.class_hashes);
    assert_eq!(part.metadata_hash, whole.metadata_hash);
    assert_eq!(part.resources.get(&m_selector()), whole.resources.get(&m_selector()));
    assert!(whole.resources.contains_key(&excluded));
    assert!(!part.resources.contains_key(&excluded));
    assert_eq!(part.external_owners, whole.external_owners);
    // What is said of the resource that was left out is kept apart.
    assert_eq!(part.external_writers.get(&excluded), Some(&FeltSet::singleton(f(3))));
    assert_eq!(whole.external_writers.get(&excluded), None);
}
