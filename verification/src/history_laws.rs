//! What a world that is built from its events says, told from the events alone.
use vstd::prelude::*;

use crate::byte_array::ByteArray;
use crate::event::WorldEvent;
use crate::event_laws::{place, upgrade_of};
use crate::felt::{felt, lemma_felt_is_its_number, lemma_felt_of_number, Felt};
use crate::value_laws::{contents, is_initialized, kind, Kind};
use crate::world::{whitelisted, WorldView};

verus! {

/// A resource as its registration names it.
#[verifier::ext_equal]
pub struct Entry {
    pub selector: Felt,
    pub kind: Kind,
    pub class_hashes: Seq<Felt>,
    pub namespace: Seq<char>,
    pub name: Seq<char>,
    /// The address; a namespace has none.
    pub address: Option<Felt>,
}

/// The entry of a model, an event or a contract that is registered in a whitelisted namespace.
pub open spec fn entry_in_namespace(
    kind: Kind,
    class_hash: Felt,
    namespace: ByteArray,
    name: ByteArray,
    address: Felt,
    whitelist: Option<Vec<String>>,
) -> Option<Entry> {
    match (namespace.text(), name.text()) {
        (Some(namespace), Some(name)) if whitelisted(whitelist, namespace) => Some(
            Entry {
                selector: place(kind, namespace, name),
                kind,
                class_hashes: seq![class_hash],
                namespace,
                name,
                address: Some(address),
            },
        ),
        _ => None,
    }
}

/// The resource that an event enters into the world, if it enters one.
pub open spec fn entry(event: WorldEvent, whitelist: Option<Vec<String>>) -> Option<Entry> {
    match event {
        WorldEvent::NamespaceRegistered(e) => match e.namespace.text() {
            Some(name) if whitelisted(whitelist, name) => Some(
                Entry {
                    selector: place(Kind::Namespace, name, name),
                    kind: Kind::Namespace,
                    class_hashes: Seq::empty(),
                    namespace: name,
                    name,
                    address: None,
                },
            ),
            _ => None,
        },
        WorldEvent::ModelRegistered(e) => entry_in_namespace(
            Kind::Model,
            e.class_hash,
            e.namespace,
            e.name,
            e.address,
            whitelist,
        ),
        WorldEvent::EventRegistered(e) => entry_in_namespace(
            Kind::Event,
            e.class_hash,
            e.namespace,
            e.name,
            e.address,
            whitelist,
        ),
        WorldEvent::ContractRegistered(e) => entry_in_namespace(
            Kind::Contract,
            e.class_hash,
            e.namespace,
            e.name,
            e.address,
            whitelist,
        ),
        _ => None,
    }
}

/// Whether an event enters a resource under a selector.
pub open spec fn enters(event: WorldEvent, whitelist: Option<Vec<String>>, selector: Felt) -> bool {
    entry(event, whitelist) is Some && (entry(event, whitelist)->0).selector == selector
}

/// The last registration under a selector, if there is one.
pub open spec fn last_entry(
    events: Seq<Option<WorldEvent>>,
    whitelist: Option<Vec<String>>,
    selector: Felt,
) -> Option<Entry>
    decreases events.len(),
{
    if events.len() == 0 {
        None
    } else {
        match events.last() {
            Some(event) if enters(event, whitelist, selector) => entry(event, whitelist),
            _ => last_entry(events.drop_last(), whitelist, selector),
        }
    }
}

/// The resource is of the kind and has the names and the address of its registration.
pub open spec fn is_of_entry(world: WorldView, selector: Felt, entry: Option<Entry>) -> bool {
    match entry {
        None => !world.resources.contains_key(selector),
        Some(entry) => {
            let resource = world.resources[selector];
            &&& world.resources.contains_key(selector)
            &&& kind(resource) == entry.kind
            &&& contents(resource).namespace == entry.namespace
            &&& contents(resource).name == entry.name
            &&& entry.address matches Some(address) ==> contents(resource).address == address
        },
    }
}

/// What an event does to the identity of the resource under a selector.
proof fn lemma_event_identity(
    world: WorldView,
    event: WorldEvent,
    whitelist: Option<Vec<String>>,
    selector: Felt,
    before: Option<Entry>,
)
    requires
        world.accepts(event, whitelist),
        world.after(event, whitelist) is Ok,
        is_of_entry(world, selector, before),
    ensures
        is_of_entry(
            world.after(event, whitelist)->Ok_0,
            selector,
            if enters(event, whitelist, selector) {
                entry(event, whitelist)
            } else {
                before
            },
        ),
{
    // Each kind of event is a case of its own.
    match event {
        WorldEvent::WorldSpawned(_) => {},
        WorldEvent::WorldUpgraded(_) => {},
        WorldEvent::NamespaceRegistered(_) => {},
        WorldEvent::ModelRegistered(_) => {},
        WorldEvent::EventRegistered(_) => {},
        WorldEvent::ContractRegistered(_) => {},
        WorldEvent::ModelUpgraded(_) => {},
        WorldEvent::EventUpgraded(_) => {},
        WorldEvent::ContractUpgraded(_) => {},
        WorldEvent::ContractInitialized(_) => {},
        WorldEvent::WriterUpdated(_) => {},
        WorldEvent::OwnerUpdated(_) => {},
        WorldEvent::MetadataUpdate(_) => {},
        WorldEvent::Other => {},
    }
}

/// A world that is built from its events has a resource under a selector exactly where one was
/// registered there, and it is of the kind and has the names and the address of its last
/// registration.
pub proof fn law_resources_are_those_registered(
    address: Felt,
    events: Seq<Option<WorldEvent>>,
    whitelist: Option<Vec<String>>,
    selector: Felt,
)
    requires
        WorldView::unknown(address).accepts_all(events, whitelist),
        WorldView::unknown(address).after_all(events, whitelist) is Ok,
    ensures
        is_of_entry(
            WorldView::unknown(address).after_all(events, whitelist)->Ok_0,
            selector,
            last_entry(events, whitelist, selector),
        ),
    decreases events.len(),
{
    if events.len() > 0 {
        let front = events.drop_last();
        let before = WorldView::unknown(address).after_all(front, whitelist)->Ok_0;
        law_resources_are_those_registered(address, front, whitelist, selector);
        if let Some(event) = events.last() {
            lemma_event_identity(before, event, whitelist, selector, last_entry(front, whitelist, selector));
        }
    }
}

/// The classes of a resource as events tell of them: that of its last registration, followed by
/// those of the upgrades since, in order. A namespace has none.
pub open spec fn told_resource_classes(
    events: Seq<Option<WorldEvent>>,
    whitelist: Option<Vec<String>>,
    selector: Felt,
) -> Seq<Felt>
    decreases events.len(),
{
    if events.len() == 0 {
        Seq::empty()
    } else {
        let before = told_resource_classes(events.drop_last(), whitelist, selector);
        match events.last() {
            None => before,
            Some(event) => if enters(event, whitelist, selector) {
                (entry(event, whitelist)->0).class_hashes
            } else {
                match (upgrade_of(event), last_entry(events.drop_last(), whitelist, selector)) {
                    (
                        Some((upgraded, class_hash)),
                        Some(entry),
                    ) if upgraded == selector && !(entry.kind is Namespace) => before.push(
                        class_hash,
                    ),
                    _ => before,
                }
            },
        }
    }
}

/// What an event does to the classes of the resource under a selector.
proof fn lemma_event_classes(
    world: WorldView,
    event: WorldEvent,
    whitelist: Option<Vec<String>>,
    selector: Felt,
)
    requires
        world.accepts(event, whitelist),
        world.after(event, whitelist) is Ok,
        world.resources.contains_key(selector) || enters(event, whitelist, selector),
    ensures
        ({
            let after = world.after(event, whitelist)->Ok_0;
            &&& after.resources.contains_key(selector)
            &&& contents(after.resources[selector]).class_hashes == if enters(
                event,
                whitelist,
                selector,
            ) {
                (entry(event, whitelist)->0).class_hashes
            } else {
                match upgrade_of(event) {
                    Some((upgraded, class_hash)) if upgraded == selector && !(kind(
                        world.resources[selector],
                    ) is Namespace) => contents(world.resources[selector]).class_hashes.push(
                        class_hash,
                    ),
                    _ => contents(world.resources[selector]).class_hashes,
                }
            }
        }),
{
    // Each kind of event is a case of its own.
    match event {
        WorldEvent::WorldSpawned(_) => {},
        WorldEvent::WorldUpgraded(_) => {},
        WorldEvent::NamespaceRegistered(_) => {},
        WorldEvent::ModelRegistered(_) => {},
        WorldEvent::EventRegistered(_) => {},
        WorldEvent::ContractRegistered(_) => {},
        WorldEvent::ModelUpgraded(_) => {},
        WorldEvent::EventUpgraded(_) => {},
        WorldEvent::ContractUpgraded(_) => {},
        WorldEvent::ContractInitialized(_) => {},
        WorldEvent::WriterUpdated(_) => {},
        WorldEvent::OwnerUpdated(_) => {},
        WorldEvent::MetadataUpdate(_) => {},
        WorldEvent::Other => {},
    }
}

/// The class hashes of each resource of a built world are that of its last registration,
/// followed by exactly those of the upgrades about it since, in order. No other event adds one.
pub proof fn law_resource_classes_are_told(
    address: Felt,
    events: Seq<Option<WorldEvent>>,
    whitelist: Option<Vec<String>>,
    selector: Felt,
)
    requires
        WorldView::unknown(address).accepts_all(events, whitelist),
        WorldView::unknown(address).after_all(events, whitelist) is Ok,
        WorldView::unknown(address).after_all(events, whitelist)->Ok_0.resources.contains_key(
            selector,
        ),
    ensures
        contents(
            WorldView::unknown(address).after_all(events, whitelist)->Ok_0.resources[selector],
        ).class_hashes == told_resource_classes(events, whitelist, selector),
    decreases events.len(),
{
    if events.len() > 0 {
        let front = events.drop_last();
        let before = WorldView::unknown(address).after_all(front, whitelist)->Ok_0;
        law_resources_are_those_registered(address, front, whitelist, selector);
        law_resources_are_those_registered(address, events, whitelist, selector);
        if before.resources.contains_key(selector) {
            law_resource_classes_are_told(address, front, whitelist, selector);
        }
        if let Some(event) = events.last() {
            lemma_event_classes(before, event, whitelist, selector);
        }
    }
}

/// Whether the contract under a selector was initialized since its last registration, as events
/// tell of it.
pub open spec fn told_initialized(
    events: Seq<Option<WorldEvent>>,
    whitelist: Option<Vec<String>>,
    selector: Felt,
) -> bool
    decreases events.len(),
{
    if events.len() == 0 {
        false
    } else {
        match events.last() {
            Some(event) if enters(event, whitelist, selector) => false,
            Some(WorldEvent::ContractInitialized(e)) if e.selector == selector => last_entry(
                events.drop_last(),
                whitelist,
                selector,
            ) is Some,
            _ => told_initialized(events.drop_last(), whitelist, selector),
        }
    }
}

/// Whether a world has an initialized contract under a selector.
pub open spec fn has_initialized(world: WorldView, selector: Felt) -> bool {
    world.resources.contains_key(selector) && is_initialized(world.resources[selector])
}

/// What an event does to the initialization of the contract under a selector.
proof fn lemma_event_initialized(
    world: WorldView,
    event: WorldEvent,
    whitelist: Option<Vec<String>>,
    selector: Felt,
)
    requires
        world.accepts(event, whitelist),
        world.after(event, whitelist) is Ok,
    ensures
        has_initialized(world.after(event, whitelist)->Ok_0, selector) == match event {
            _ if enters(event, whitelist, selector) => false,
            WorldEvent::ContractInitialized(e) if e.selector == selector =>
                world.resources.contains_key(selector),
            _ => has_initialized(world, selector),
        },
{
    // Each kind of event is a case of its own.
    match event {
        WorldEvent::WorldSpawned(_) => {},
        WorldEvent::WorldUpgraded(_) => {},
        WorldEvent::NamespaceRegistered(_) => {},
        WorldEvent::ModelRegistered(_) => {},
        WorldEvent::EventRegistered(_) => {},
        WorldEvent::ContractRegistered(_) => {},
        WorldEvent::ModelUpgraded(_) => {},
        WorldEvent::EventUpgraded(_) => {},
        WorldEvent::ContractUpgraded(_) => {},
        WorldEvent::ContractInitialized(_) => {},
        WorldEvent::WriterUpdated(_) => {},
        WorldEvent::OwnerUpdated(_) => {},
        WorldEvent::MetadataUpdate(_) => {},
        WorldEvent::Other => {},
    }
}

/// A contract of a built world is initialized exactly where an initialization of it came after
/// its last registration. No other event initializes it.
pub proof fn law_initialization_is_told(
    address: Felt,
    events: Seq<Option<WorldEvent>>,
    whitelist: Option<Vec<String>>,
    selector: Felt,
)
    requires
        WorldView::unknown(address).accepts_all(events, whitelist),
        WorldView::unknown(address).after_all(events, whitelist) is Ok,
    ensures
        has_initialized(
            WorldView::unknown(address).after_all(events, whitelist)->Ok_0,
            selector,
        ) == told_initialized(events, whitelist, selector),
    decreases events.len(),
{
    if events.len() > 0 {
        let front = events.drop_last();
        let before = WorldView::unknown(address).after_all(front, whitelist)->Ok_0;
        law_initialization_is_told(address, front, whitelist, selector);
        law_resources_are_those_registered(address, front, whitelist, selector);
        if let Some(event) = events.last() {
            lemma_event_initialized(before, event, whitelist, selector);
        }
    }
}

/// Whether a world says that a contract owns a resource, one of the world's or not.
pub open spec fn owns(world: WorldView, selector: Felt, contract: Felt) -> bool {
    if world.resources.contains_key(selector) {
        contents(world.resources[selector]).owners.contains(contract)
    } else {
        world.external_owners.contains_key(selector)
            && world.external_owners[selector].contains(contract)
    }
}

/// Whether a world says that a contract may write a resource, one of the world's or not.
pub open spec fn writes(world: WorldView, selector: Felt, contract: Felt) -> bool {
    if world.resources.contains_key(selector) {
        contents(world.resources[selector]).writers.contains(contract)
    } else {
        world.external_writers.contains_key(selector)
            && world.external_writers[selector].contains(contract)
    }
}

/// Whether a contract owns a resource, as events tell of it: the last owner update about the two
/// decides. A registration of the resource starts over without owners, and a spawn makes the
/// creator the one owner of the world.
pub open spec fn told_owner(
    events: Seq<Option<WorldEvent>>,
    whitelist: Option<Vec<String>>,
    selector: Felt,
    contract: Felt,
) -> bool
    decreases events.len(),
{
    if events.len() == 0 {
        false
    } else {
        match events.last() {
            Some(event) if enters(event, whitelist, selector) => false,
            Some(WorldEvent::OwnerUpdated(e)) if e.resource == selector && e.contract
                == contract => e.value,
            Some(WorldEvent::WorldSpawned(e)) if selector@ == 0 && last_entry(
                events.drop_last(),
                whitelist,
                selector,
            ) is None => contract == e.creator,
            _ => told_owner(events.drop_last(), whitelist, selector, contract),
        }
    }
}

/// Whether a contract may write a resource, as events tell of it: the last writer update about
/// the two decides. A registration of the resource starts over without writers.
pub open spec fn told_writer(
    events: Seq<Option<WorldEvent>>,
    whitelist: Option<Vec<String>>,
    selector: Felt,
    contract: Felt,
) -> bool
    decreases events.len(),
{
    if events.len() == 0 {
        false
    } else {
        match events.last() {
            Some(event) if enters(event, whitelist, selector) => false,
            Some(WorldEvent::WriterUpdated(e)) if e.resource == selector && e.contract
                == contract => e.value,
            _ => told_writer(events.drop_last(), whitelist, selector, contract),
        }
    }
}

/// What an event does to whether a contract owns the resource under a selector.
proof fn lemma_event_owner(
    world: WorldView,
    event: WorldEvent,
    whitelist: Option<Vec<String>>,
    selector: Felt,
    contract: Felt,
)
    requires
        world.accepts(event, whitelist),
        world.after(event, whitelist) is Ok,
    ensures
        owns(world.after(event, whitelist)->Ok_0, selector, contract) == match event {
            _ if enters(event, whitelist, selector) => false,
            WorldEvent::OwnerUpdated(e) if e.resource == selector && e.contract == contract =>
                e.value,
            WorldEvent::WorldSpawned(e) if selector@ == 0 && !world.resources.contains_key(
                selector,
            ) => contract == e.creator,
            _ => owns(world, selector, contract),
        },
{
    lemma_felt_of_number(selector, 0);
    lemma_felt_is_its_number(selector, felt(0));
    // Each kind of event is a case of its own.
    match event {
        WorldEvent::WorldSpawned(_) => {},
        WorldEvent::WorldUpgraded(_) => {},
        WorldEvent::NamespaceRegistered(_) => {},
        WorldEvent::ModelRegistered(_) => {},
        WorldEvent::EventRegistered(_) => {},
        WorldEvent::ContractRegistered(_) => {},
        WorldEvent::ModelUpgraded(_) => {},
        WorldEvent::EventUpgraded(_) => {},
        WorldEvent::ContractUpgraded(_) => {},
        WorldEvent::ContractInitialized(_) => {},
        WorldEvent::WriterUpdated(_) => {},
        WorldEvent::OwnerUpdated(_) => {},
        WorldEvent::MetadataUpdate(_) => {},
        WorldEvent::Other => {},
    }
}

/// What an event does to whether a contract may write the resource under a selector.
proof fn lemma_event_writer(
    world: WorldView,
    event: WorldEvent,
    whitelist: Option<Vec<String>>,
    selector: Felt,
    contract: Felt,
)
    requires
        world.accepts(event, whitelist),
        world.after(event, whitelist) is Ok,
    ensures
        writes(world.after(event, whitelist)->Ok_0, selector, contract) == match event {
            _ if enters(event, whitelist, selector) => false,
            WorldEvent::WriterUpdated(e) if e.resource == selector && e.contract == contract =>
                e.value,
            _ => writes(world, selector, contract),
        },
{
    // Each kind of event is a case of its own.
    match event {
        WorldEvent::WorldSpawned(_) => {},
        WorldEvent::WorldUpgraded(_) => {},
        WorldEvent::NamespaceRegistered(_) => {},
        WorldEvent::ModelRegistered(_) => {},
        WorldEvent::EventRegistered(_) => {},
        WorldEvent::ContractRegistered(_) => {},
        WorldEvent::ModelUpgraded(_) => {},
        WorldEvent::EventUpgraded(_) => {},
        WorldEvent::ContractUpgraded(_) => {},
        WorldEvent::ContractInitialized(_) => {},
        WorldEvent::WriterUpdated(_) => {},
        WorldEvent::OwnerUpdated(_) => {},
        WorldEvent::MetadataUpdate(_) => {},
        WorldEvent::Other => {},
    }
}

/// In a built world a contract owns a resource, one of the world's or not, exactly where the last
/// owner update about the two since the resource was registered says so; the world itself is
/// owned by its creator until an update says otherwise.
pub proof fn law_owners_are_told(
    address: Felt,
    events: Seq<Option<WorldEvent>>,
    whitelist: Option<Vec<String>>,
    selector: Felt,
    contract: Felt,
)
    requires
        WorldView::unknown(address).accepts_all(events, whitelist),
        WorldView::unknown(address).after_all(events, whitelist) is Ok,
    ensures
        owns(
            WorldView::unknown(address).after_all(events, whitelist)->Ok_0,
            selector,
            contract,
        ) == told_owner(events, whitelist, selector, contract),
    decreases events.len(),
{
    if events.len() > 0 {
        let front = events.drop_last();
        let before = WorldView::unknown(address).after_all(front, whitelist)->Ok_0;
        law_owners_are_told(address, front, whitelist, selector, contract);
        law_resources_are_those_registered(address, front, whitelist, selector);
        if let Some(event) = events.last() {
            lemma_event_owner(before, event, whitelist, selector, contract);
        }
    }
}

/// In a built world a contract may write a resource, one of the world's or not, exactly where the
/// last writer update about the two since the resource was registered says so.
pub proof fn law_writers_are_told(
    address: Felt,
    events: Seq<Option<WorldEvent>>,
    whitelist: Option<Vec<String>>,
    selector: Felt,
    contract: Felt,
)
    requires
        WorldView::unknown(address).accepts_all(events, whitelist),
        WorldView::unknown(address).after_all(events, whitelist) is Ok,
    ensures
        writes(
            WorldView::unknown(address).after_all(events, whitelist)->Ok_0,
            selector,
            contract,
        ) == told_writer(events, whitelist, selector, contract),
    decreases events.len(),
{
    if events.len() > 0 {
        let front = events.drop_last();
        let before = WorldView::unknown(address).after_all(front, whitelist)->Ok_0;
        law_writers_are_told(address, front, whitelist, selector, contract);
        if let Some(event) = events.last() {
            lemma_event_writer(before, event, whitelist, selector, contract);
        }
    }
}

} // verus!
