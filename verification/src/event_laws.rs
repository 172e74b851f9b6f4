//! What each event does to a world, and each update to a resource: what it sets, and that
//! everything else stays.
use vstd::prelude::*;

use crate::byte_array::{text_felts, ByteArray};
use crate::error::RemoteError;
use crate::event::{
    ContractInitialized, ContractRegistered, EventRegistered, MetadataUpdate, ModelRegistered,
    NamespaceRegistered, OwnerUpdated, WorldEvent, WorldSpawned, WorldUpgraded, WriterUpdated,
};
use crate::felt::{lemma_felt_is_its_number, lemma_felt_of_number, Felt};
use crate::naming::poseidon_hash;
use crate::resource::{with_permission, CommonView, NamespaceView, ResourceView};
use crate::value_laws::{contents, is_initialized, kind, Kind};
use crate::world::{whitelisted, WorldView};

verus! {

/// A permission is given to the contract that it is given to, taken from the one that it is
/// taken from, and every other contract keeps what it had.
pub proof fn law_permission_concerns_one_contract(
    contracts: Set<Felt>,
    contract: Felt,
    granted: bool,
    other: Felt,
)
    ensures
        with_permission(contracts, contract, granted).contains(contract) == granted,
        other != contract ==> with_permission(contracts, contract, granted).contains(other)
            == contracts.contains(other),
{
}

/// A resource that was just registered has the one class of its registration, and neither
/// metadata nor permissions.
pub proof fn law_registered_resource_is_fresh(
    class_hash: Felt,
    namespace: Seq<char>,
    name: Seq<char>,
    address: Felt,
    contract: Felt,
)
    ensures
        fresh(
            CommonView::registered(class_hash, namespace, name, address),
            seq![class_hash],
            namespace,
            name,
        ),
        CommonView::registered(class_hash, namespace, name, address).address == address,
        NamespaceView::registered(name).name == name,
        NamespaceView::registered(name).metadata_hash@ == 0,
        !NamespaceView::registered(name).owners.contains(contract),
        !NamespaceView::registered(name).writers.contains(contract),
{
    lemma_felt_of_number(address, 0);
}

/// The contents of a resource with these classes and names, and nothing recorded since.
pub open spec fn fresh(
    common: CommonView,
    class_hashes: Seq<Felt>,
    namespace: Seq<char>,
    name: Seq<char>,
) -> bool {
    &&& common.class_hashes == class_hashes
    &&& common.namespace == namespace
    &&& common.name == name
    &&& common.metadata_hash@ == 0
    &&& forall|c: Felt| !(#[trigger] common.owners.contains(c))
    &&& forall|c: Felt| !(#[trigger] common.writers.contains(c))
}

/// The hash that a text is known by on chain.
pub open spec fn text_hash(text: Seq<char>) -> Felt {
    poseidon_hash(text_felts(text))
}

/// The place of a resource: the hash of a namespace's name, and of the hashes of both names
/// for another resource.
pub open spec fn place(kind: Kind, namespace: Seq<char>, name: Seq<char>) -> Felt {
    if kind is Namespace {
        text_hash(name)
    } else {
        poseidon_hash(seq![text_hash(namespace), text_hash(name)])
    }
}

/// A resource is known by its names, whatever else is recorded of it.
pub proof fn law_selector_is_of_the_names(resource: ResourceView)
    ensures
        resource.selector() == place(
            kind(resource),
            contents(resource).namespace,
            contents(resource).name,
        ),
        resource.metadata_hash() == contents(resource).metadata_hash,
{
}

/// The two resources are of one kind, and both initialized or both not.
pub open spec fn same_kind(a: ResourceView, b: ResourceView) -> bool {
    kind(a) == kind(b) && is_initialized(a) == is_initialized(b)
}

/// The second set of contracts is the first but for one contract, which has the permission or
/// has it not.
pub open spec fn differ_at(
    before: Set<Felt>,
    after: Set<Felt>,
    contract: Felt,
    granted: bool,
) -> bool {
    forall|c: Felt| #[trigger]
        after.contains(c) == (if c == contract {
            granted
        } else {
            before.contains(c)
        })
}

/// An owner update changes nothing of a resource but whether the contract owns it.
pub proof fn law_owner_update_changes_owners_only(
    resource: ResourceView,
    contract: Felt,
    granted: bool,
)
    ensures
        ({
            let after = resource.with_owner(contract, granted);
            &&& same_kind(resource, after)
            &&& differ_at(contents(resource).owners, contents(after).owners, contract, granted)
            &&& contents(after) == (CommonView {
                owners: contents(after).owners,
                ..contents(resource)
            })
        }),
{
}

/// A writer update changes nothing of a resource but whether the contract may write it.
pub proof fn law_writer_update_changes_writers_only(
    resource: ResourceView,
    contract: Felt,
    granted: bool,
)
    ensures
        ({
            let after = resource.with_writer(contract, granted);
            &&& same_kind(resource, after)
            &&& differ_at(contents(resource).writers, contents(after).writers, contract, granted)
            &&& contents(after) == (CommonView {
                writers: contents(after).writers,
                ..contents(resource)
            })
        }),
{
}

/// A metadata update changes nothing of a resource but its metadata hash.
pub proof fn law_metadata_update_changes_metadata_only(resource: ResourceView, hash: Felt)
    ensures
        ({
            let after = resource.with_metadata_hash(hash);
            &&& same_kind(resource, after)
            &&& contents(after) == (CommonView { metadata_hash: hash, ..contents(resource) })
        }),
{
}

/// An upgrade changes nothing of a resource but its classes, of which the new one becomes the
/// last; a namespace has none and stays as it is.
pub proof fn law_upgrade_changes_classes_only(resource: ResourceView, class_hash: Felt)
    ensures
        ({
            let after = resource.upgraded(class_hash);
            let before = contents(resource).class_hashes;
            &&& same_kind(resource, after)
            &&& kind(resource) is Namespace ==> after == resource
            &&& !(kind(resource) is Namespace) ==> {
                &&& contents(after) == (CommonView {
                    class_hashes: contents(after).class_hashes,
                    ..contents(resource)
                })
                &&& contents(after).class_hashes.len() == before.len() + 1
                &&& contents(after).class_hashes.last() == class_hash
                &&& contents(after).class_hashes.drop_last() == before
            }
        }),
{
    if let Some(common) = resource.common() {
        assert(common.class_hashes.push(class_hash).drop_last() =~= common.class_hashes);
    }
}

/// The two worlds are the same but for their resources.
pub open spec fn same_but_resources(a: WorldView, b: WorldView) -> bool {
    &&& a.address == b.address
    &&& a.class_hashes == b.class_hashes
    &&& a.metadata_hash == b.metadata_hash
    &&& a.external_writers == b.external_writers
    &&& a.external_owners == b.external_owners
}

/// The two worlds are the same but for the resource under one selector, which the second has.
pub open spec fn same_but_resource(a: WorldView, b: WorldView, selector: Felt) -> bool {
    &&& same_but_resources(a, b)
    &&& b.resources.contains_key(selector)
    &&& forall|k: Felt|
        k != selector ==> (#[trigger] b.resources.contains_key(k) <==> a.resources.contains_key(k))
    &&& forall|k: Felt|
        k != selector && a.resources.contains_key(k) ==> #[trigger] b.resources[k]
            == a.resources[k]
}

/// A resource that is added stands under its own selector, as it is, and nothing else changes.
pub proof fn law_added_resource_is_found(world: WorldView, resource: ResourceView)
    ensures
        same_but_resource(world, world.with_resource(resource), resource.selector()),
        world.with_resource(resource).resources[resource.selector()] == resource,
{
}

/// An upgrade of a resource that the world has appends the class there, and changes nothing
/// else; of one that it has not, it changes nothing.
pub proof fn law_world_upgrades_one_resource(world: WorldView, selector: Felt, class_hash: Felt)
    ensures
        upgrades(world, world.upgraded(selector, class_hash), selector, class_hash),
{
    if world.resources.contains_key(selector) {
        law_upgrade_changes_classes_only(world.resources[selector], class_hash);
    }
}

/// The second world is the first after an upgrade of the resource under a selector.
pub open spec fn upgrades(
    world: WorldView,
    after: WorldView,
    selector: Felt,
    class_hash: Felt,
) -> bool {
    if !world.resources.contains_key(selector) {
        after == world
    } else {
        let old = contents(world.resources[selector]);
        let new = contents(after.resources[selector]);
        &&& same_but_resource(world, after, selector)
        &&& same_kind(world.resources[selector], after.resources[selector])
        &&& new == (CommonView { class_hashes: new.class_hashes, ..old })
        &&& kind(world.resources[selector]) is Namespace ==> new == old
        &&& !(kind(world.resources[selector]) is Namespace) ==> {
            &&& new.class_hashes.len() == old.class_hashes.len() + 1
            &&& new.class_hashes.last() == class_hash
            &&& new.class_hashes.drop_last() == old.class_hashes
        }
    }
}

/// A spawn appends the class of the world and makes its creator the one owner of the world;
/// nothing else changes.
pub proof fn law_spawn_sets_class_and_owner(
    world: WorldView,
    event: WorldSpawned,
    whitelist: Option<Vec<String>>,
)
    ensures
        world.accepts(WorldEvent::WorldSpawned(event), whitelist),
        world.after(WorldEvent::WorldSpawned(event), whitelist) is Ok,
        ({
            let after = world.after(WorldEvent::WorldSpawned(event), whitelist)->Ok_0;
            &&& after.address == world.address
            &&& after.metadata_hash == world.metadata_hash
            &&& after.resources == world.resources
            &&& after.external_writers == world.external_writers
            &&& after.class_hashes.len() == world.class_hashes.len() + 1
            &&& after.class_hashes.last() == event.class_hash
            &&& after.class_hashes.drop_last() == world.class_hashes
            &&& forall|k: Felt| #[trigger]
                after.external_owners.contains_key(k) <==> k@ == 0
                    || world.external_owners.contains_key(k)
            &&& forall|k: Felt, c: Felt|
                k@ == 0 ==> (#[trigger] after.external_owners[k].contains(c) <==> c
                    == event.creator)
            &&& forall|k: Felt|
                k@ != 0 && world.external_owners.contains_key(k)
                    ==> #[trigger] after.external_owners[k] == world.external_owners[k]
        }),
{
    let after = world.after(WorldEvent::WorldSpawned(event), whitelist)->Ok_0;
    assert(after.class_hashes.drop_last() =~= world.class_hashes);
    lemma_zero_is_the_world();
}

/// The selector of the world is the one element that stands for 0.
proof fn lemma_zero_is_the_world()
    ensures
        forall|k: Felt| #[trigger] k@ == 0 <==> k == crate::world::world_selector(),
{
    let world = crate::world::world_selector();
    lemma_felt_of_number(world, 0);
    assert forall|k: Felt| #[trigger] k@ == 0 <==> k == world by {
        lemma_felt_is_its_number(k, world);
    }
}

/// An upgrade of the world appends its class; nothing else changes.
pub proof fn law_world_upgrade_sets_class(
    world: WorldView,
    event: WorldUpgraded,
    whitelist: Option<Vec<String>>,
)
    ensures
        world.accepts(WorldEvent::WorldUpgraded(event), whitelist),
        world.after(WorldEvent::WorldUpgraded(event), whitelist) is Ok,
        ({
            let after = world.after(WorldEvent::WorldUpgraded(event), whitelist)->Ok_0;
            &&& after == (WorldView { class_hashes: after.class_hashes, ..world })
            &&& after.class_hashes.len() == world.class_hashes.len() + 1
            &&& after.class_hashes.last() == event.class_hash
            &&& after.class_hashes.drop_last() == world.class_hashes
        }),
{
    let after = world.after(WorldEvent::WorldUpgraded(event), whitelist)->Ok_0;
    assert(after.class_hashes.drop_last() =~= world.class_hashes);
}

/// A namespace that is registered is read first: it has to be text. Where it is whitelisted it
/// enters the world fresh, under the hash of its name; else nothing changes.
pub proof fn law_namespace_registration(
    world: WorldView,
    event: NamespaceRegistered,
    whitelist: Option<Vec<String>>,
)
    ensures
        world.accepts(WorldEvent::NamespaceRegistered(event), whitelist)
            <==> event.namespace.readable(),
        ({
            let result = world.after(WorldEvent::NamespaceRegistered(event), whitelist);
            match event.namespace.text() {
                None => result == Err::<WorldView, _>(RemoteError::InvalidUtf8),
                Some(name) if !whitelisted(whitelist, name) => result == Ok::<_, RemoteError>(
                    world,
                ),
                Some(name) => {
                    let selector = place(Kind::Namespace, name, name);
                    let entered = result->Ok_0.resources[selector];
                    &&& result is Ok
                    &&& same_but_resource(world, result->Ok_0, selector)
                    &&& kind(entered) is Namespace
                    &&& fresh(contents(entered), Seq::empty(), name, name)
                },
            }
        }),
{
    if let Some(name) = event.namespace.text() {
        lemma_felt_of_number(place(Kind::Namespace, name, name), 0);
    }
}

/// What a registration of a model, an event or a contract does. The namespace is read first,
/// and the name only where the namespace is whitelisted; both have to be text. Where it is
/// whitelisted, the resource enters the world fresh and not initialized, with the class and
/// the address of the registration, under the hash of its names; else nothing changes.
pub open spec fn registration(
    world: WorldView,
    result: Result<WorldView, RemoteError>,
    kind_of: Kind,
    class_hash: Felt,
    namespace: ByteArray,
    name: ByteArray,
    address: Felt,
    whitelist: Option<Vec<String>>,
) -> bool {
    match (namespace.text(), name.text()) {
        (None, _) => result == Err::<WorldView, _>(RemoteError::InvalidUtf8),
        (Some(namespace), _) if !whitelisted(whitelist, namespace) => result == Ok::<
            _,
            RemoteError,
        >(world),
        (Some(_), None) => result == Err::<WorldView, _>(RemoteError::InvalidUtf8),
        (Some(namespace), Some(name)) => {
            let selector = place(kind_of, namespace, name);
            let entered = result->Ok_0.resources[selector];
            &&& result is Ok
            &&& same_but_resource(world, result->Ok_0, selector)
            &&& kind(entered) == kind_of
            &&& !is_initialized(entered)
            &&& fresh(contents(entered), seq![class_hash], namespace, name)
            &&& contents(entered).address == address
        },
    }
}

/// A registration can be taken where the texts that it comes to can be read.
pub open spec fn registration_accepted(
    namespace: ByteArray,
    name: ByteArray,
    whitelist: Option<Vec<String>>,
) -> bool {
    match namespace.text() {
        Some(text) if whitelisted(whitelist, text) => namespace.readable() && name.readable(),
        _ => namespace.readable(),
    }
}

/// A model that is registered enters the world as a model.
pub proof fn law_model_registration(
    world: WorldView,
    event: ModelRegistered,
    whitelist: Option<Vec<String>>,
)
    ensures
        world.accepts(WorldEvent::ModelRegistered(event), whitelist) <==> registration_accepted(
            event.namespace,
            event.name,
            whitelist,
        ),
        registration(
            world,
            world.after(WorldEvent::ModelRegistered(event), whitelist),
            Kind::Model,
            event.class_hash,
            event.namespace,
            event.name,
            event.address,
            whitelist,
        ),
{
    lemma_felt_of_number(event.address, 0);
}

/// An event that is registered enters the world as an event.
pub proof fn law_event_registration(
    world: WorldView,
    event: EventRegistered,
    whitelist: Option<Vec<String>>,
)
    ensures
        world.accepts(WorldEvent::EventRegistered(event), whitelist) <==> registration_accepted(
            event.namespace,
            event.name,
            whitelist,
        ),
        registration(
            world,
            world.after(WorldEvent::EventRegistered(event), whitelist),
            Kind::Event,
            event.class_hash,
            event.namespace,
            event.name,
            event.address,
            whitelist,
        ),
{
    lemma_felt_of_number(event.address, 0);
}

/// A contract that is registered enters the world as a contract.
pub proof fn law_contract_registration(
    world: WorldView,
    event: ContractRegistered,
    whitelist: Option<Vec<String>>,
)
    ensures
        world.accepts(WorldEvent::ContractRegistered(event), whitelist)
            <==> registration_accepted(event.namespace, event.name, whitelist),
        registration(
            world,
            world.after(WorldEvent::ContractRegistered(event), whitelist),
            Kind::Contract,
            event.class_hash,
            event.namespace,
            event.name,
            event.address,
            whitelist,
        ),
{
    lemma_felt_of_number(event.address, 0);
}

/// The selector and the class of an upgrade of a resource, whichever kind of event tells of it.
pub open spec fn upgrade_of(event: WorldEvent) -> Option<(Felt, Felt)> {
    match event {
        WorldEvent::ModelUpgraded(e) => Some((e.selector, e.class_hash)),
        WorldEvent::EventUpgraded(e) => Some((e.selector, e.class_hash)),
        WorldEvent::ContractUpgraded(e) => Some((e.selector, e.class_hash)),
        _ => None,
    }
}

/// An upgrade event appends a class to the resource under its selector, if the world has it,
/// and changes nothing else.
pub proof fn law_upgrade_event_upgrades_one_resource(
    world: WorldView,
    event: WorldEvent,
    whitelist: Option<Vec<String>>,
)
    requires
        upgrade_of(event) is Some,
    ensures
        world.accepts(event, whitelist),
        world.after(event, whitelist) is Ok,
        upgrades(
            world,
            world.after(event, whitelist)->Ok_0,
            (upgrade_of(event)->0).0,
            (upgrade_of(event)->0).1,
        ),
{
    law_world_upgrades_one_resource(world, (upgrade_of(event)->0).0, (upgrade_of(event)->0).1);
}

/// An initialization marks the contract under its selector and changes nothing else. Of a
/// resource that the world has not it changes nothing, and of one that is no contract it is
/// refused.
pub proof fn law_initialization_marks_one_contract(
    world: WorldView,
    event: ContractInitialized,
    whitelist: Option<Vec<String>>,
)
    ensures
        world.accepts(WorldEvent::ContractInitialized(event), whitelist),
        ({
            let result = world.after(WorldEvent::ContractInitialized(event), whitelist);
            let old = world.resources[event.selector];
            if !world.resources.contains_key(event.selector) {
                result == Ok::<_, RemoteError>(world)
            } else if !(kind(old) is Contract) {
                result == Err::<WorldView, _>(RemoteError::NotAContract)
            } else {
                let new = result->Ok_0.resources[event.selector];
                &&& result is Ok
                &&& same_but_resource(world, result->Ok_0, event.selector)
                &&& kind(new) is Contract
                &&& is_initialized(new)
                &&& contents(new) == contents(old)
            }
        }),
{
}

/// The second map of permissions is the first but for what one contract may do with one
/// resource.
pub open spec fn permissions_differ_at(
    before: Map<Felt, Set<Felt>>,
    after: Map<Felt, Set<Felt>>,
    resource: Felt,
    contract: Felt,
    granted: bool,
) -> bool {
    &&& forall|k: Felt| #[trigger]
        after.contains_key(k) <==> k == resource || before.contains_key(k)
    &&& forall|k: Felt|
        k != resource && before.contains_key(k) ==> #[trigger] after[k] == before[k]
    &&& forall|c: Felt| #[trigger]
        after[resource].contains(c) == (if c == contract {
            granted
        } else {
            before.contains_key(resource) && before[resource].contains(c)
        })
}

/// A writer update changes the writers of the resource that it names: in the world's resource,
/// or apart where the world does not have it. It changes them by the one contract that it
/// names, and changes nothing else.
pub proof fn law_writer_event_concerns_one_writer(
    world: WorldView,
    event: WriterUpdated,
    whitelist: Option<Vec<String>>,
)
    ensures
        world.accepts(WorldEvent::WriterUpdated(event), whitelist),
        world.after(WorldEvent::WriterUpdated(event), whitelist) is Ok,
        ({
            let after = world.after(WorldEvent::WriterUpdated(event), whitelist)->Ok_0;
            let old = world.resources[event.resource];
            let new = after.resources[event.resource];
            if world.resources.contains_key(event.resource) {
                &&& same_but_resource(world, after, event.resource)
                &&& same_kind(old, new)
                &&& contents(new) == (CommonView {
                    writers: contents(new).writers,
                    ..contents(old)
                })
                &&& differ_at(
                    contents(old).writers,
                    contents(new).writers,
                    event.contract,
                    event.value,
                )
            } else {
                &&& after == (WorldView { external_writers: after.external_writers, ..world })
                &&& permissions_differ_at(
                    world.external_writers,
                    after.external_writers,
                    event.resource,
                    event.contract,
                    event.value,
                )
            }
        }),
{
    law_writer_update_changes_writers_only(
        world.resources[event.resource],
        event.contract,
        event.value,
    );
}

/// An owner update changes the owners of the resource that it names: in the world's resource,
/// or apart where the world does not have it. It changes them by the one contract that it
/// names, and changes nothing else.
pub proof fn law_owner_event_concerns_one_owner(
    world: WorldView,
    event: OwnerUpdated,
    whitelist: Option<Vec<String>>,
)
    ensures
        world.accepts(WorldEvent::OwnerUpdated(event), whitelist),
        world.after(WorldEvent::OwnerUpdated(event), whitelist) is Ok,
        ({
            let after = world.after(WorldEvent::OwnerUpdated(event), whitelist)->Ok_0;
            let old = world.resources[event.resource];
            let new = after.resources[event.resource];
            if world.resources.contains_key(event.resource) {
                &&& same_but_resource(world, after, event.resource)
                &&& same_kind(old, new)
                &&& contents(new) == (CommonView { owners: contents(new).owners, ..contents(old) })
                &&& differ_at(
                    contents(old).owners,
                    contents(new).owners,
                    event.contract,
                    event.value,
                )
            } else {
                &&& after == (WorldView { external_owners: after.external_owners, ..world })
                &&& permissions_differ_at(
                    world.external_owners,
                    after.external_owners,
                    event.resource,
                    event.contract,
                    event.value,
                )
            }
        }),
{
    law_owner_update_changes_owners_only(
        world.resources[event.resource],
        event.contract,
        event.value,
    );
}

/// A metadata update sets the metadata hash of the world, where it names the world, or else of
/// the resource that it names, and changes nothing else. It can be taken where what it names
/// is there.
pub proof fn law_metadata_event_sets_one_hash(
    world: WorldView,
    event: MetadataUpdate,
    whitelist: Option<Vec<String>>,
)
    ensures
        world.accepts(WorldEvent::MetadataUpdate(event), whitelist) <==> event.resource@ == 0
            || world.resources.contains_key(event.resource),
        world.accepts(WorldEvent::MetadataUpdate(event), whitelist) ==> {
            let result = world.after(WorldEvent::MetadataUpdate(event), whitelist);
            let after = result->Ok_0;
            let old = world.resources[event.resource];
            let new = after.resources[event.resource];
            &&& result is Ok
            &&& event.resource@ == 0 ==> after == (WorldView { metadata_hash: event.hash, ..world })
            &&& event.resource@ != 0 ==> {
                &&& same_but_resource(world, after, event.resource)
                &&& same_kind(old, new)
                &&& contents(new) == (CommonView { metadata_hash: event.hash, ..contents(old) })
            }
        },
{
    lemma_zero_is_the_world();
    law_metadata_update_changes_metadata_only(world.resources[event.resource], event.hash);
}

/// A world that takes no event stays as it is; one that takes a single event is what that event
/// makes of it, or is refused as that event is; an event that could not be parsed changes
/// nothing.
pub proof fn law_single_event(
    world: WorldView,
    event: WorldEvent,
    whitelist: Option<Vec<String>>,
)
    ensures
        world.after_all(Seq::empty(), whitelist) == Ok::<_, RemoteError>(world),
        world.accepts_all(Seq::empty(), whitelist),
        world.after_all(seq![Some(event)], whitelist) == world.after(event, whitelist),
        world.accepts_all(seq![Some(event)], whitelist) == world.accepts(event, whitelist),
        world.after_all(seq![None], whitelist) == Ok::<_, RemoteError>(world),
        world.accepts_all(seq![None], whitelist),
{
    let none: Seq<Option<WorldEvent>> = Seq::empty();
    let one: Seq<Option<WorldEvent>> = seq![Some(event)];
    let unparsed: Seq<Option<WorldEvent>> = seq![None];
    assert(one.drop_last() =~= none);
    assert(unparsed.drop_last() =~= none);
    assert(world.after_all(none, whitelist) == Ok::<_, RemoteError>(world));
    assert(world.accepts_all(none, whitelist));
}

/// Where each event in turn is taken, the next goes on from the world that it leaves; the first
/// that is refused decides, and the first that cannot be taken stops.
pub proof fn law_one_more_event(
    world: WorldView,
    events: Seq<Option<WorldEvent>>,
    event: WorldEvent,
    whitelist: Option<Vec<String>>,
)
    ensures
        match world.after_all(events, whitelist) {
            Ok(between) => {
                &&& world.after_all(events.push(Some(event)), whitelist) == between.after(
                    event,
                    whitelist,
                )
                &&& world.accepts_all(events.push(Some(event)), whitelist) == (world.accepts_all(
                    events,
                    whitelist,
                ) && between.accepts(event, whitelist))
            },
            Err(error) => {
                &&& world.after_all(events.push(Some(event)), whitelist) == Err::<WorldView, _>(
                    error,
                )
                &&& world.accepts_all(events.push(Some(event)), whitelist) == world.accepts_all(
                    events,
                    whitelist,
                )
            },
        },
        world.after_all(events.push(None), whitelist) == world.after_all(events, whitelist),
        world.accepts_all(events.push(None), whitelist) == world.accepts_all(events, whitelist),
{
    assert(events.push(Some(event)).drop_last() =~= events);
    assert(events.push(None).drop_last() =~= events);
}

} // verus!
