//! What holds of every world and of every fetch, whatever events and replies come.
use vstd::prelude::*;

use crate::error::RemoteError;
use crate::event::{
    ContractInitialized, MetadataUpdate, OwnerUpdated, WorldEvent, WorldSpawned, WriterUpdated,
};
use crate::felt::{felt, Felt};
use crate::fetch::{last_page, window_end, FetchView, ReplyView, StateView, MAX_BLOCK_RANGE};
use crate::naming::{bytearray_hash, selector_from_names};
use crate::resource::with_permission;
use crate::world::{
    law_events_in_two_lots, permitted, registration_names, whitelisted, world_selector, WorldView,
};

verus! {

/// Every resource stands under its own selector.
pub open spec fn keyed_by_selector(world: WorldView) -> bool {
    forall|k: Felt| #[trigger]
        world.resources.contains_key(k) ==> world.resources[k].selector() == k
}

/// Every resource lies in a namespace of the whitelist.
pub open spec fn only_whitelisted(world: WorldView, whitelist: Option<Vec<String>>) -> bool {
    forall|k: Felt| #[trigger]
        world.resources.contains_key(k) ==> whitelisted(
            whitelist,
            world.resources[k].namespace_name(),
        )
}

/// The selector of the resource that an event enters into the world, if it enters one.
pub open spec fn registered_selector(event: WorldEvent, whitelist: Option<Vec<String>>) -> Option<
    Felt,
> {
    let names = match event {
        WorldEvent::ModelRegistered(e) => registration_names(e.namespace, e.name, whitelist),
        WorldEvent::EventRegistered(e) => registration_names(e.namespace, e.name, whitelist),
        WorldEvent::ContractRegistered(e) => registration_names(e.namespace, e.name, whitelist),
        _ => Ok(None),
    };
    match event {
        WorldEvent::NamespaceRegistered(e) => match e.namespace.text() {
            Some(name) if whitelisted(whitelist, name) => Some(bytearray_hash(name)),
            _ => None,
        },
        _ => match names {
            Ok(Some((namespace, name))) => Some(selector_from_names(namespace, name)),
            _ => None,
        },
    }
}

/// The selector of the resource that an event changes, if it is one of the world's.
pub open spec fn changed_selector(event: WorldEvent) -> Option<Felt> {
    match event {
        WorldEvent::ModelUpgraded(e) => Some(e.selector),
        WorldEvent::EventUpgraded(e) => Some(e.selector),
        WorldEvent::ContractUpgraded(e) => Some(e.selector),
        WorldEvent::ContractInitialized(e) => Some(e.selector),
        WorldEvent::WriterUpdated(e) => Some(e.resource),
        WorldEvent::OwnerUpdated(e) => Some(e.resource),
        WorldEvent::MetadataUpdate(e) => Some(e.resource),
        _ => None,
    }
}

/// An event enters at most the one resource that it registers and changes at most the one
/// that it names; every other resource stays as it is, and no resource ever leaves.
pub proof fn law_event_concerns_one_resource(
    world: WorldView,
    event: WorldEvent,
    whitelist: Option<Vec<String>>,
)
    requires
        world.accepts(event, whitelist),
        world.after(event, whitelist) is Ok,
    ensures
        ({
            let after = world.after(event, whitelist)->Ok_0;
            &&& world.resources.dom().subset_of(after.resources.dom())
            &&& forall|k: Felt| #[trigger]
                after.resources.contains_key(k) ==> world.resources.contains_key(k)
                    || registered_selector(event, whitelist) == Some(k)
            &&& forall|k: Felt| #[trigger]
                world.resources.contains_key(k) && registered_selector(event, whitelist) != Some(k)
                    && changed_selector(event) != Some(k) ==> after.resources[k]
                    == world.resources[k]
        }),
{
}

/// A resource, once there, stays through any events; so a metadata update about it is
/// accepted ever after.
pub proof fn law_resources_never_leave(
    world: WorldView,
    events: Seq<Option<WorldEvent>>,
    whitelist: Option<Vec<String>>,
    update: MetadataUpdate,
)
    requires
        world.accepts_all(events, whitelist),
        world.after_all(events, whitelist) is Ok,
        world.resources.contains_key(update.resource),
    ensures
        ({
            let after = world.after_all(events, whitelist)->Ok_0;
            &&& after.resources.contains_key(update.resource)
            &&& after.accepts(WorldEvent::MetadataUpdate(update), whitelist)
        }),
    decreases events.len(),
{
    if events.len() > 0 {
        law_resources_never_leave(world, events.drop_last(), whitelist, update);
        let before = world.after_all(events.drop_last(), whitelist)->Ok_0;
        if let Some(event) = events.last() {
            law_event_concerns_one_resource(before, event, whitelist);
        }
    }
}

/// Every event keeps each resource under its own selector.
pub proof fn law_event_keeps_selectors(
    world: WorldView,
    event: WorldEvent,
    whitelist: Option<Vec<String>>,
)
    requires
        world.accepts(event, whitelist),
        keyed_by_selector(world),
        world.after(event, whitelist) is Ok,
    ensures
        keyed_by_selector(world.after(event, whitelist)->Ok_0),
{
}

/// Every event keeps the resources inside the whitelist.
pub proof fn law_event_keeps_whitelist(
    world: WorldView,
    event: WorldEvent,
    whitelist: Option<Vec<String>>,
)
    requires
        world.accepts(event, whitelist),
        only_whitelisted(world, whitelist),
        world.after(event, whitelist) is Ok,
    ensures
        only_whitelisted(world.after(event, whitelist)->Ok_0, whitelist),
{
}

/// A world that is built from its events has each resource under its own selector, has only
/// resources of whitelisted namespaces, and stands at the address that was asked for.
pub proof fn law_built_world_is_in_order(
    address: Felt,
    events: Seq<Option<WorldEvent>>,
    whitelist: Option<Vec<String>>,
)
    requires
        WorldView::unknown(address).accepts_all(events, whitelist),
        WorldView::unknown(address).after_all(events, whitelist) is Ok,
    ensures
        ({
            let world = WorldView::unknown(address).after_all(events, whitelist)->Ok_0;
            &&& keyed_by_selector(world)
            &&& only_whitelisted(world, whitelist)
            &&& world.address == address
        }),
    decreases events.len(),
{
    if events.len() > 0 {
        law_built_world_is_in_order(address, events.drop_last(), whitelist);
        let before = WorldView::unknown(address).after_all(events.drop_last(), whitelist)->Ok_0;
        if let Some(event) = events.last() {
            law_event_keeps_selectors(before, event, whitelist);
            law_event_keeps_whitelist(before, event, whitelist);
        }
    }
}

/// A registration in a namespace that is not whitelisted changes nothing.
pub proof fn law_other_namespaces_stay_out(
    world: WorldView,
    event: WorldEvent,
    whitelist: Option<Vec<String>>,
)
    requires
        match event {
            WorldEvent::NamespaceRegistered(e) => e.namespace.text() is Some && !whitelisted(
                whitelist,
                e.namespace.text()->0,
            ),
            WorldEvent::ModelRegistered(e) => e.namespace.text() is Some && !whitelisted(
                whitelist,
                e.namespace.text()->0,
            ),
            WorldEvent::EventRegistered(e) => e.namespace.text() is Some && !whitelisted(
                whitelist,
                e.namespace.text()->0,
            ),
            WorldEvent::ContractRegistered(e) => e.namespace.text() is Some && !whitelisted(
                whitelist,
                e.namespace.text()->0,
            ),
            _ => false,
        },
    ensures
        world.after(event, whitelist) == Ok::<WorldView, RemoteError>(world),
{
}

/// A writer update, once applied, is what the world says of that writer: of a resource that
/// it has as of one that it does not have. The owners, the writers of other resources and the
/// other writers of this one stay as they are.
pub proof fn law_writer_update_is_read_back(
    world: WorldView,
    update: WriterUpdated,
    whitelist: Option<Vec<String>>,
)
    ensures
        ({
            let after = world.after(WorldEvent::WriterUpdated(update), whitelist);
            &&& after is Ok
            &&& after->Ok_0.writers(update.resource).contains(update.contract) == update.value
            &&& forall|c: Felt| #![auto]
                c != update.contract ==> after->Ok_0.writers(update.resource).contains(c)
                    == world.writers(update.resource).contains(c)
            &&& forall|k: Felt| #![auto]
                k != update.resource ==> after->Ok_0.writers(k) == world.writers(k)
            &&& forall|k: Felt| #![auto] after->Ok_0.owners(k) == world.owners(k)
        }),
{
}

/// An owner update, once applied, is what the world says of that owner: of a resource that
/// it has as of one that it does not have. The writers, the owners of other resources and the
/// other owners of this one stay as they are.
pub proof fn law_owner_update_is_read_back(
    world: WorldView,
    update: OwnerUpdated,
    whitelist: Option<Vec<String>>,
)
    ensures
        ({
            let after = world.after(WorldEvent::OwnerUpdated(update), whitelist);
            &&& after is Ok
            &&& after->Ok_0.owners(update.resource).contains(update.contract) == update.value
            &&& forall|c: Felt| #![auto]
                c != update.contract ==> after->Ok_0.owners(update.resource).contains(c)
                    == world.owners(update.resource).contains(c)
            &&& forall|k: Felt| #![auto]
                k != update.resource ==> after->Ok_0.owners(k) == world.owners(k)
            &&& forall|k: Felt| #![auto] after->Ok_0.writers(k) == world.writers(k)
        }),
{
}

/// Permissions change only by the events that are about them: a spawn, which is about the
/// owners of the world, and writer and owner updates. A resource that is registered anew is
/// another matter: it starts without permissions.
pub proof fn law_other_events_keep_permissions(
    world: WorldView,
    event: WorldEvent,
    whitelist: Option<Vec<String>>,
)
    requires
        world.accepts(event, whitelist),
        world.after(event, whitelist) is Ok,
        !(event is WorldSpawned),
        !(event is WriterUpdated),
        !(event is OwnerUpdated),
    ensures
        ({
            let after = world.after(event, whitelist)->Ok_0;
            &&& after.external_writers == world.external_writers
            &&& after.external_owners == world.external_owners
            &&& forall|k: Felt| #![auto]
                registered_selector(event, whitelist) != Some(k) ==> after.writers(k)
                    == world.writers(k) && after.owners(k) == world.owners(k)
            &&& registered_selector(event, whitelist) matches Some(k) ==> after.writers(k)
                == Set::<Felt>::empty() && after.owners(k) == Set::<Felt>::empty()
        }),
{
    // Each kind of event is a case of its own.
    match event {
        WorldEvent::NamespaceRegistered(_) => {},
        WorldEvent::ModelRegistered(_) => {},
        WorldEvent::EventRegistered(_) => {},
        WorldEvent::ContractRegistered(_) => {},
        WorldEvent::ModelUpgraded(_) => {},
        WorldEvent::EventUpgraded(_) => {},
        WorldEvent::ContractUpgraded(_) => {},
        WorldEvent::ContractInitialized(_) => {},
        WorldEvent::MetadataUpdate(_) => {},
        _ => {},
    }
}

/// An event about the data in resources, which no request asks for, is ignored.
pub proof fn law_data_events_are_ignored(world: WorldView, whitelist: Option<Vec<String>>)
    ensures
        world.accepts(WorldEvent::Other, whitelist),
        world.after(WorldEvent::Other, whitelist) == Ok::<WorldView, RemoteError>(world),
{
}

/// A writer or owner permission that is given to a contract without it, and then taken away,
/// leaves the writers and the owners of every resource as they were.
pub proof fn law_grant_and_revoke_cancel(
    world: WorldView,
    resource: Felt,
    contract: Felt,
    whitelist: Option<Vec<String>>,
)
    ensures
        !world.writers(resource).contains(contract) ==> {
            let granted = world.after(
                WorldEvent::WriterUpdated(WriterUpdated { resource, contract, value: true }),
                whitelist,
            )->Ok_0;
            let revoked = granted.after(
                WorldEvent::WriterUpdated(WriterUpdated { resource, contract, value: false }),
                whitelist,
            )->Ok_0;
            forall|k: Felt|
                #![auto]
                revoked.writers(k) == world.writers(k) && revoked.owners(k) == world.owners(k)
        },
        !world.owners(resource).contains(contract) ==> {
            let granted = world.after(
                WorldEvent::OwnerUpdated(OwnerUpdated { resource, contract, value: true }),
                whitelist,
            )->Ok_0;
            let revoked = granted.after(
                WorldEvent::OwnerUpdated(OwnerUpdated { resource, contract, value: false }),
                whitelist,
            )->Ok_0;
            forall|k: Felt|
                #![auto]
                revoked.writers(k) == world.writers(k) && revoked.owners(k) == world.owners(k)
        },
{
    if !world.writers(resource).contains(contract) {
        assert(with_permission(
            with_permission(world.writers(resource), contract, true),
            contract,
            false,
        ) =~= world.writers(resource));
    }
    if !world.owners(resource).contains(contract) {
        assert(with_permission(
            with_permission(world.owners(resource), contract, true),
            contract,
            false,
        ) =~= world.owners(resource));
    }
}

/// The metadata hash that the world has for a selector, its own or that of a resource.
pub open spec fn metadata_of(world: WorldView, selector: Felt) -> Felt {
    if selector == world_selector() {
        world.metadata_hash
    } else {
        world.resources[selector].metadata_hash()
    }
}

/// A metadata update that the world accepts is read back from what it is about, whatever was
/// recorded there before, and no other metadata changes.
pub proof fn law_metadata_update_is_read_back(
    world: WorldView,
    update: MetadataUpdate,
    whitelist: Option<Vec<String>>,
)
    requires
        world.accepts(WorldEvent::MetadataUpdate(update), whitelist),
    ensures
        ({
            let after = world.after(WorldEvent::MetadataUpdate(update), whitelist);
            &&& after is Ok
            &&& metadata_of(after->Ok_0, update.resource) == update.hash
            &&& forall|k: Felt| #![auto]
                k != update.resource ==> metadata_of(after->Ok_0, k) == metadata_of(world, k)
        }),
{
}

/// An upgrade, whichever kind of event tells of it, adds the new class at the end of the
/// classes of the resource and changes nothing else of it; a namespace has no classes and
/// stays as it is, and so does a world that does not have the resource.
pub proof fn law_upgrade_appends_class(
    world: WorldView,
    event: WorldEvent,
    whitelist: Option<Vec<String>>,
    selector: Felt,
    class_hash: Felt,
)
    requires
        match event {
            WorldEvent::ModelUpgraded(e) => e.selector == selector && e.class_hash == class_hash,
            WorldEvent::EventUpgraded(e) => e.selector == selector && e.class_hash == class_hash,
            WorldEvent::ContractUpgraded(e) => e.selector == selector && e.class_hash
                == class_hash,
            _ => false,
        },
    ensures
        ({
            let after = world.after(event, whitelist);
            &&& after is Ok
            &&& !world.resources.contains_key(selector) ==> after->Ok_0 == world
            &&& world.resources.contains_key(selector) ==> {
                let old_resource = world.resources[selector];
                let new_resource = after->Ok_0.resources[selector];
                match old_resource.common() {
                    Some(common) => {
                        &&& new_resource.class_hashes() == old_resource.class_hashes().push(
                            class_hash,
                        )
                        &&& new_resource.with_common(common) == old_resource
                    },
                    None => new_resource == old_resource,
                }
            }
        }),
{
}

/// The creator of a world is its one owner after it was spawned, whoever owned it before.
pub proof fn law_creator_owns_world(
    world: WorldView,
    spawned: WorldSpawned,
    whitelist: Option<Vec<String>>,
)
    ensures
        ({
            let after = world.after(WorldEvent::WorldSpawned(spawned), whitelist);
            &&& after is Ok
            &&& permitted(after->Ok_0.external_owners, world_selector()) == set![spawned.creator]
            &&& after->Ok_0.class_hashes == world.class_hashes.push(spawned.class_hash)
        }),
{
}

/// The classes of the world are only ever added to, and its address stays.
pub proof fn law_world_classes_only_grow(
    world: WorldView,
    event: WorldEvent,
    whitelist: Option<Vec<String>>,
)
    requires
        world.accepts(event, whitelist),
        world.after(event, whitelist) is Ok,
    ensures
        world.class_hashes.is_prefix_of(world.after(event, whitelist)->Ok_0.class_hashes),
        world.after(event, whitelist)->Ok_0.address == world.address,
{
}

/// The classes of a resource are only ever added to, until it is registered anew.
pub proof fn law_resource_classes_only_grow(
    world: WorldView,
    event: WorldEvent,
    whitelist: Option<Vec<String>>,
    selector: Felt,
)
    requires
        world.accepts(event, whitelist),
        world.after(event, whitelist) is Ok,
        world.resources.contains_key(selector),
        registered_selector(event, whitelist) != Some(selector),
    ensures
        world.resources[selector].class_hashes().is_prefix_of(
            world.after(event, whitelist)->Ok_0.resources[selector].class_hashes(),
        ),
{
}

/// A contract is not initialized when it is registered, is initialized once its
/// initialization is reported, and stays so until it is registered anew.
pub proof fn law_contract_stays_initialized(
    world: WorldView,
    event: WorldEvent,
    whitelist: Option<Vec<String>>,
    selector: Felt,
)
    requires
        world.accepts(event, whitelist),
        world.after(event, whitelist) is Ok,
    ensures
        ({
            let after = world.after(event, whitelist)->Ok_0;
            &&& event is ContractRegistered && registered_selector(event, whitelist) == Some(
                selector,
            ) ==> after.resources[selector] is Contract
                && !after.resources[selector]->is_initialized
            &&& event is ContractInitialized && event->ContractInitialized_0.selector == selector
                && world.resources.contains_key(selector) ==> after.resources[selector] is Contract
                && after.resources[selector]->is_initialized
            &&& world.resources.contains_key(selector) && world.resources[selector] is Contract
                && world.resources[selector]->is_initialized && registered_selector(
                event,
                whitelist,
            ) != Some(selector) ==> after.resources[selector] is Contract
                && after.resources[selector]->is_initialized
        }),
{
}

/// An initialization is refused exactly where the resource under its selector is no contract.
pub proof fn law_only_contracts_are_initialized(
    world: WorldView,
    initialized: ContractInitialized,
    whitelist: Option<Vec<String>>,
)
    ensures
        world.after(WorldEvent::ContractInitialized(initialized), whitelist) is Err
            <==> world.resources.contains_key(initialized.selector)
            && !(world.resources[initialized.selector] is Contract),
{
}

/// The class hashes that events tell of for the world itself, in order.
pub open spec fn told_classes(events: Seq<Option<WorldEvent>>) -> Seq<Felt>
    decreases events.len(),
{
    if events.len() == 0 {
        Seq::empty()
    } else {
        let before = told_classes(events.drop_last());
        match events.last() {
            Some(WorldEvent::WorldSpawned(e)) => before.push(e.class_hash),
            Some(WorldEvent::WorldUpgraded(e)) => before.push(e.class_hash),
            _ => before,
        }
    }
}

/// The class hashes of a world that is built from its events are those of its spawn and of its
/// upgrades, in order.
pub proof fn law_world_classes_are_told(
    address: Felt,
    events: Seq<Option<WorldEvent>>,
    whitelist: Option<Vec<String>>,
)
    requires
        WorldView::unknown(address).accepts_all(events, whitelist),
        WorldView::unknown(address).after_all(events, whitelist) is Ok,
    ensures
        WorldView::unknown(address).after_all(events, whitelist)->Ok_0.class_hashes
            == told_classes(events),
    decreases events.len(),
{
    if events.len() > 0 {
        law_world_classes_are_told(address, events.drop_last(), whitelist);
    }
}

/// The metadata hash in the last update about a selector, if there is an update.
pub open spec fn told_metadata(events: Seq<Option<WorldEvent>>, selector: Felt) -> Option<Felt>
    decreases events.len(),
{
    if events.len() == 0 {
        None
    } else {
        match events.last() {
            Some(WorldEvent::MetadataUpdate(e)) if e.resource == selector => Some(e.hash),
            _ => told_metadata(events.drop_last(), selector),
        }
    }
}

/// How many events enter a resource under a selector.
pub open spec fn registrations(
    events: Seq<Option<WorldEvent>>,
    whitelist: Option<Vec<String>>,
    selector: Felt,
) -> nat
    decreases events.len(),
{
    if events.len() == 0 {
        0
    } else {
        let before = registrations(events.drop_last(), whitelist, selector);
        match events.last() {
            Some(event) if registered_selector(event, whitelist) == Some(selector) => before + 1,
            _ => before,
        }
    }
}

/// A world that is built from its events has exactly the resources that they registered.
pub proof fn law_built_world_has_what_was_registered(
    address: Felt,
    events: Seq<Option<WorldEvent>>,
    whitelist: Option<Vec<String>>,
    selector: Felt,
)
    requires
        WorldView::unknown(address).accepts_all(events, whitelist),
        WorldView::unknown(address).after_all(events, whitelist) is Ok,
    ensures
        WorldView::unknown(address).after_all(events, whitelist)->Ok_0.resources.contains_key(
            selector,
        ) <==> registrations(events, whitelist, selector) > 0,
    decreases events.len(),
{
    if events.len() > 0 {
        law_built_world_has_what_was_registered(address, events.drop_last(), whitelist, selector);
        let before = WorldView::unknown(address).after_all(events.drop_last(), whitelist)->Ok_0;
        if let Some(event) = events.last() {
            law_event_concerns_one_resource(before, event, whitelist);
        }
    }
}

/// The metadata hash of a world that is built from its events, and that of each resource which
/// they registered once, is the one in the last update about it; where there is no update, it
/// is 0. Updates under the selector of the world are about the world.
pub proof fn law_metadata_is_last_update(
    address: Felt,
    events: Seq<Option<WorldEvent>>,
    whitelist: Option<Vec<String>>,
    selector: Felt,
)
    requires
        WorldView::unknown(address).accepts_all(events, whitelist),
        WorldView::unknown(address).after_all(events, whitelist) is Ok,
        selector == world_selector() || registrations(events, whitelist, selector) == 1,
    ensures
        metadata_of(WorldView::unknown(address).after_all(events, whitelist)->Ok_0, selector)
            == match told_metadata(events, selector) {
            Some(hash) => hash,
            None => felt(0),
        },
    decreases events.len(),
{
    if events.len() > 0 {
        let front = events.drop_last();
        law_built_world_has_what_was_registered(address, front, whitelist, selector);
        if selector == world_selector() || registrations(front, whitelist, selector) == 1 {
            law_metadata_is_last_update(address, front, whitelist, selector);
        } else {
            lemma_no_update_before_registration(address, front, whitelist, selector);
        }
        let before = WorldView::unknown(address).after_all(front, whitelist)->Ok_0;
        if let Some(event) = events.last() {
            lemma_event_metadata(before, event, whitelist, selector);
        }
    }
}

/// What an event does to the metadata hash under a selector: an update sets it, a registration
/// sets it to 0, and nothing else changes it.
proof fn lemma_event_metadata(
    world: WorldView,
    event: WorldEvent,
    whitelist: Option<Vec<String>>,
    selector: Felt,
)
    requires
        world.accepts(event, whitelist),
        world.after(event, whitelist) is Ok,
    ensures
        ({
            let after = world.after(event, whitelist)->Ok_0;
            metadata_of(after, selector) == match event {
                WorldEvent::MetadataUpdate(e) if e.resource == selector => e.hash,
                _ => if selector != world_selector() && registered_selector(event, whitelist)
                    == Some(selector) {
                    felt(0)
                } else {
                    metadata_of(world, selector)
                },
            }
        }),
{
}

/// A resource that was not registered was not updated: the update would not be accepted.
proof fn lemma_no_update_before_registration(
    address: Felt,
    events: Seq<Option<WorldEvent>>,
    whitelist: Option<Vec<String>>,
    selector: Felt,
)
    requires
        WorldView::unknown(address).accepts_all(events, whitelist),
        WorldView::unknown(address).after_all(events, whitelist) is Ok,
        selector != world_selector(),
        registrations(events, whitelist, selector) == 0,
    ensures
        told_metadata(events, selector) is None,
    decreases events.len(),
{
    if events.len() > 0 {
        let front = events.drop_last();
        lemma_no_update_before_registration(address, front, whitelist, selector);
        law_built_world_has_what_was_registered(address, front, whitelist, selector);
    }
}

/// The namespace that a registration is about, if the event is one and it can be read.
pub open spec fn registered_namespace(event: WorldEvent) -> Option<Seq<char>> {
    match event {
        WorldEvent::NamespaceRegistered(e) => e.namespace.text(),
        WorldEvent::ModelRegistered(e) => e.namespace.text(),
        WorldEvent::EventRegistered(e) => e.namespace.text(),
        WorldEvent::ContractRegistered(e) => e.namespace.text(),
        _ => None,
    }
}

/// The event registers a resource of a namespace under a selector.
pub open spec fn registers(
    event: Option<WorldEvent>,
    selector: Felt,
    namespace: Seq<char>,
) -> bool {
    &&& event is Some
    &&& registered_selector(event->0, None) == Some(selector)
    &&& registered_namespace(event->0) == Some(namespace)
}

/// No registration in a whitelisted namespace has the selector of one in another namespace
/// that is not whitelisted.
pub open spec fn selectors_keep_apart(
    events: Seq<Option<WorldEvent>>,
    whitelist: Option<Vec<String>>,
) -> bool {
    forall|i: int, j: int, selector: Felt, a: Seq<char>, b: Seq<char>|
        0 <= i < events.len() && 0 <= j < events.len() && #[trigger] registers(
            events[i],
            selector,
            a,
        ) && #[trigger] registers(events[j], selector, b) ==> whitelisted(whitelist, a) == whitelisted(
            whitelist,
            b,
        )
}

/// The resources of one world are those of another without the ones in namespaces that are
/// not whitelisted.
pub open spec fn resources_restricted(
    part: WorldView,
    whole: WorldView,
    whitelist: Option<Vec<String>>,
) -> bool {
    &&& forall|k: Felt| #[trigger]
        part.resources.contains_key(k) <==> whole.resources.contains_key(k) && whitelisted(
            whitelist,
            whole.resources[k].namespace_name(),
        )
    &&& forall|k: Felt| #[trigger]
        part.resources.contains_key(k) ==> part.resources[k] == whole.resources[k]
}

/// Two worlds say the same of writers and owners, but for the resources that only one has.
pub open spec fn permissions_agree(part: WorldView, whole: WorldView) -> bool {
    forall|k: Felt|
        #![trigger part.writers(k)]
        #![trigger part.owners(k)]
        part.resources.contains_key(k) == whole.resources.contains_key(k) ==> part.writers(k)
            == whole.writers(k) && part.owners(k) == whole.owners(k)
}

/// One world is another without the resources of namespaces that are not whitelisted. What it
/// says of writers and owners is the same but for the resources that were left out.
pub open spec fn restricted(
    part: WorldView,
    whole: WorldView,
    whitelist: Option<Vec<String>>,
) -> bool {
    &&& part.address == whole.address
    &&& part.class_hashes == whole.class_hashes
    &&& part.metadata_hash == whole.metadata_hash
    &&& resources_restricted(part, whole, whitelist)
    &&& permissions_agree(part, whole)
}

/// A world that is built with a whitelist is the one built without, restricted to the
/// whitelisted namespaces, as long as no selector belongs to registrations on both sides of the
/// whitelist.
pub proof fn law_whitelist_restricts_the_world(
    address: Felt,
    events: Seq<Option<WorldEvent>>,
    whitelist: Option<Vec<String>>,
)
    requires
        WorldView::unknown(address).accepts_all(events, None),
        WorldView::unknown(address).after_all(events, None) is Ok,
        WorldView::unknown(address).accepts_all(events, whitelist),
        selectors_keep_apart(events, whitelist),
    ensures
        WorldView::unknown(address).after_all(events, whitelist) is Ok,
        restricted(
            WorldView::unknown(address).after_all(events, whitelist)->Ok_0,
            WorldView::unknown(address).after_all(events, None)->Ok_0,
            whitelist,
        ),
    decreases events.len(),
{
    if events.len() > 0 {
        let front = events.drop_last();
        assert(selectors_keep_apart(front, whitelist)) by {
            assert forall|i: int, j: int, selector: Felt, a: Seq<char>, b: Seq<char>|
                0 <= i < front.len() && 0 <= j < front.len() && #[trigger] registers(
                    front[i],
                    selector,
                    a,
                ) && #[trigger] registers(front[j], selector, b) implies whitelisted(whitelist, a)
                == whitelisted(whitelist, b) by {
                assert(registers(events[i], selector, a));
                assert(registers(events[j], selector, b));
            }
        }
        law_whitelist_restricts_the_world(address, front, whitelist);
        let part = WorldView::unknown(address).after_all(front, whitelist)->Ok_0;
        let whole = WorldView::unknown(address).after_all(front, None)->Ok_0;
        if let Some(event) = events.last() {
            if let Some(k) = registered_selector(event, None) {
                let namespace = registered_namespace(event)->0;
                assert(registers(events[events.len() - 1], k, namespace));
                if whole.resources.contains_key(k) {
                    let i = lemma_resource_was_registered(address, front, k);
                    assert(registers(events[i], k, whole.resources[k].namespace_name()));
                }
            }
            lemma_event_keeps_restriction(part, whole, event, whitelist);
            lemma_event_keeps_agreement(part, whole, event, whitelist);
        }
    }
}

/// An event keeps the resources of one world the restriction of those of another, unless it
/// registers a resource in the place of one that is on the other side of the whitelist.
proof fn lemma_event_keeps_restriction(
    part: WorldView,
    whole: WorldView,
    event: WorldEvent,
    whitelist: Option<Vec<String>>,
)
    requires
        resources_restricted(part, whole, whitelist),
        whole.accepts(event, None),
        whole.after(event, None) is Ok,
        part.accepts(event, whitelist),
        registered_selector(event, None) matches Some(k) ==> whole.resources.contains_key(k)
            ==> whitelisted(whitelist, whole.resources[k].namespace_name()) == whitelisted(
            whitelist,
            registered_namespace(event)->0,
        ),
    ensures
        part.after(event, whitelist) is Ok,
        resources_restricted(
            part.after(event, whitelist)->Ok_0,
            whole.after(event, None)->Ok_0,
            whitelist,
        ),
{
    // Each kind of event is a case of its own.
    match event {
        WorldEvent::WorldSpawned(_) => {},
        WorldEvent::WorldUpgraded(_) => {},
        WorldEvent::NamespaceRegistered(_) => {},
        WorldEvent::ModelRegistered(_) => {},
        WorldEvent::EventRegistered(_) => {},
        WorldEvent::ContractRegistered(_) => {},
        WorldEvent::ModelUpgraded(_) => {},
        WorldEvent::EventUpgraded(_) => {},
        WorldEvent::ContractUpgraded(_) => {},
        WorldEvent::ContractInitialized(_) => {},
        WorldEvent::WriterUpdated(_) => {},
        WorldEvent::OwnerUpdated(_) => {},
        WorldEvent::MetadataUpdate(_) => {},
        WorldEvent::Other => {},
    }
}

/// An event keeps the permissions in one world in agreement with those in another.
proof fn lemma_event_keeps_agreement(
    part: WorldView,
    whole: WorldView,
    event: WorldEvent,
    whitelist: Option<Vec<String>>,
)
    requires
        resources_restricted(part, whole, whitelist),
        permissions_agree(part, whole),
        whole.accepts(event, None),
        whole.after(event, None) is Ok,
        part.accepts(event, whitelist),
        part.after(event, whitelist) is Ok,
        resources_restricted(
            part.after(event, whitelist)->Ok_0,
            whole.after(event, None)->Ok_0,
            whitelist,
        ),
    ensures
        permissions_agree(part.after(event, whitelist)->Ok_0, whole.after(event, None)->Ok_0),
{
    let new_part = part.after(event, whitelist)->Ok_0;
    let new_whole = whole.after(event, None)->Ok_0;
    law_event_concerns_one_resource(part, event, whitelist);
    law_event_concerns_one_resource(whole, event, None);
    assert forall|k: Felt|
        new_part.resources.contains_key(k) == new_whole.resources.contains_key(
            k,
        ) implies #[trigger] new_part.writers(k) == new_whole.writers(k) && new_part.owners(k)
        == new_whole.owners(k) by {
        if !new_part.resources.contains_key(k) {
            assert(part.writers(k) == whole.writers(k));
            match event {
                WorldEvent::WorldSpawned(_) => {},
                WorldEvent::WriterUpdated(_) => {},
                WorldEvent::OwnerUpdated(_) => {},
                _ => {
                    law_other_events_keep_permissions(part, event, whitelist);
                    law_other_events_keep_permissions(whole, event, None);
                },
            }
        }
    }
}

/// A resource lies in the namespace that it was registered in, as it did before where the
/// event does not register it.
proof fn lemma_event_keeps_namespace(world: WorldView, event: WorldEvent, selector: Felt)
    requires
        world.accepts(event, None),
        world.after(event, None) is Ok,
        world.after(event, None)->Ok_0.resources.contains_key(selector),
    ensures
        ({
            let namespace = world.after(event, None)->Ok_0.resources[selector].namespace_name();
            if registered_selector(event, None) == Some(selector) {
                registered_namespace(event) == Some(namespace)
            } else {
                world.resources.contains_key(selector)
                    && world.resources[selector].namespace_name() == namespace
            }
        }),
{
}

/// Each resource of a world that is built without a whitelist was registered, in its namespace.
proof fn lemma_resource_was_registered(
    address: Felt,
    events: Seq<Option<WorldEvent>>,
    selector: Felt,
) -> (i: int)
    requires
        WorldView::unknown(address).accepts_all(events, None),
        WorldView::unknown(address).after_all(events, None) is Ok,
        WorldView::unknown(address).after_all(events, None)->Ok_0.resources.contains_key(selector),
    ensures
        0 <= i < events.len(),
        registers(
            events[i],
            selector,
            WorldView::unknown(address).after_all(
                events,
                None,
            )->Ok_0.resources[selector].namespace_name(),
        ),
    decreases events.len(),
{
    let front = events.drop_last();
    let before = WorldView::unknown(address).after_all(front, None)->Ok_0;
    if let Some(event) = events.last() {
        lemma_event_keeps_namespace(before, event, selector);
    }
    match events.last() {
        Some(event) if registered_selector(event, None) == Some(selector) => events.len() - 1,
        _ => lemma_resource_was_registered(address, front, selector),
    }
}

/// The events that could be parsed, in order.
pub open spec fn parsed(events: Seq<Option<WorldEvent>>) -> Seq<Option<WorldEvent>>
    decreases events.len(),
{
    if events.len() == 0 {
        Seq::empty()
    } else if events.last() is Some {
        parsed(events.drop_last()).push(events.last())
    } else {
        parsed(events.drop_last())
    }
}

/// Events that could not be parsed make no difference.
pub proof fn law_unparsed_events_do_not_count(
    world: WorldView,
    events: Seq<Option<WorldEvent>>,
    whitelist: Option<Vec<String>>,
)
    ensures
        world.after_all(events, whitelist) == world.after_all(parsed(events), whitelist),
        world.accepts_all(events, whitelist) == world.accepts_all(parsed(events), whitelist),
    decreases events.len(),
{
    if events.len() > 0 {
        law_unparsed_events_do_not_count(world, events.drop_last(), whitelist);
        if events.last() is Some {
            assert(parsed(events).drop_last() =~= parsed(events.drop_last()));
        }
    }
}

/// The first refused event decides: whatever comes after it, the world is refused with its
/// error.
pub proof fn law_first_refusal_decides(
    world: WorldView,
    first: Seq<Option<WorldEvent>>,
    second: Seq<Option<WorldEvent>>,
    whitelist: Option<Vec<String>>,
)
    requires
        world.after_all(first, whitelist) is Err,
    ensures
        world.after_all(first + second, whitelist) == world.after_all(first, whitelist),
        world.accepts_all(first + second, whitelist) == world.accepts_all(first, whitelist),
{
    law_events_in_two_lots(world, first, second, whitelist);
}

/// The window that is asked for starts a whole number of windows after the first block, and
/// ends where its size or the last block ends it.
pub open spec fn in_step(fetch: FetchView) -> bool {
    match fetch.state {
        StateView::AskEvents { to_block, window_from, window_to, .. } => {
            &&& fetch.from_block <= window_from <= to_block
            &&& (window_from - fetch.from_block) % (MAX_BLOCK_RANGE as int) == 0
            &&& window_to == window_end(window_from, to_block)
        },
        _ => true,
    }
}

/// Each block from the first to the last lies in exactly one window, no window holds more
/// blocks than it may, and each window starts where the one before it ended.
pub proof fn law_windows_part_the_blocks(
    from_block: int,
    to_block: int,
    window_from: int,
    block: int,
)
    requires
        from_block <= window_from <= to_block,
        (window_from - from_block) % (MAX_BLOCK_RANGE as int) == 0,
        from_block <= block <= to_block,
    ensures
        window_from <= block <= window_end(window_from, to_block) <==> window_from == from_block
            + MAX_BLOCK_RANGE * ((block - from_block) / (MAX_BLOCK_RANGE as int)),
        window_from <= window_end(window_from, to_block) <= to_block,
        window_end(window_from, to_block) - window_from < MAX_BLOCK_RANGE,
        window_end(window_from, to_block) < to_block ==> window_end(window_from, to_block) + 1
            == window_from + MAX_BLOCK_RANGE,
{
}

/// Every reply keeps the windows in step.
pub proof fn law_reply_keeps_step(fetch: FetchView, reply: ReplyView)
    requires
        in_step(fetch),
        fetch.accepts(reply),
    ensures
        in_step(fetch.next(reply)),
{
}

/// The fetch after replies in order.
pub open spec fn run(fetch: FetchView, replies: Seq<ReplyView>) -> FetchView
    decreases replies.len(),
{
    if replies.len() == 0 {
        fetch
    } else {
        run(fetch, replies.drop_last()).next(replies.last())
    }
}

/// Whether each reply is accepted when it comes.
pub open spec fn run_accepts(fetch: FetchView, replies: Seq<ReplyView>) -> bool
    decreases replies.len(),
{
    replies.len() == 0 || {
        &&& run_accepts(fetch, replies.drop_last())
        &&& run(fetch, replies.drop_last()).accepts(replies.last())
    }
}

/// The events on the pages that were replied, in order.
pub open spec fn paged_events(replies: Seq<ReplyView>) -> Seq<Option<WorldEvent>>
    decreases replies.len(),
{
    if replies.len() == 0 {
        Seq::empty()
    } else {
        match replies.last() {
            ReplyView::Events { events, .. } => paged_events(replies.drop_last()) + events,
            _ => paged_events(replies.drop_last()),
        }
    }
}

/// The block number that was replied, if one was.
pub open spec fn replied_block(replies: Seq<ReplyView>) -> Option<int>
    decreases replies.len(),
{
    if replies.len() == 0 {
        None
    } else {
        match replies.last() {
            ReplyView::BlockNumber { number } => Some(number),
            _ => replied_block(replies.drop_last()),
        }
    }
}

/// The windows whose last page was replied, in order, as their first and last blocks.
pub open spec fn read_windows(fetch: FetchView, replies: Seq<ReplyView>) -> Seq<(int, int)>
    decreases replies.len(),
{
    if replies.len() == 0 {
        Seq::empty()
    } else {
        let before = read_windows(fetch, replies.drop_last());
        match (run(fetch, replies.drop_last()).state, replies.last()) {
            (
                StateView::AskEvents { is_katana, window_from, window_to, .. },
                ReplyView::Events { events, continuation_token },
            ) if last_page(is_katana, events, continuation_token) => before.push(
                (window_from, window_to),
            ),
            _ => before,
        }
    }
}

/// A fetch holds exactly the events on the pages that were replied, in the order in which
/// they came: while it runs and when it is done.
pub proof fn law_fetch_gathers_pages_in_order(
    world_address: Felt,
    from_block: Option<u64>,
    replies: Seq<ReplyView>,
)
    requires
        run_accepts(FetchView::start(world_address, from_block), replies),
    ensures
        match run(FetchView::start(world_address, from_block), replies).state {
            StateView::AskEvents { events, .. } => events == paged_events(replies),
            StateView::Done { events } => events == paged_events(replies),
            StateView::Failed => true,
            _ => paged_events(replies) == Seq::<Option<WorldEvent>>::empty(),
        },
    decreases replies.len(),
{
    if replies.len() > 0 {
        law_fetch_gathers_pages_in_order(world_address, from_block, replies.drop_last());
    }
}

/// A fetch reads the windows one after the other from the first block on, each once, and is
/// done, once it knows the last block, only when no block up to it is left.
pub proof fn law_fetch_reads_every_window(
    world_address: Felt,
    from_block: Option<u64>,
    replies: Seq<ReplyView>,
)
    requires
        run_accepts(FetchView::start(world_address, from_block), replies),
    ensures
        ({
            let start = FetchView::start(world_address, from_block);
            let windows = read_windows(start, replies);
            let first = start.from_block;
            &&& run(start, replies).world_address == world_address
            &&& run(start, replies).from_block == first
            &&& replied_block(replies) is None ==> windows.len() == 0
            &&& replied_block(replies) matches Some(last) ==> forall|i: int|
                0 <= i < windows.len() ==> {
                    &&& (#[trigger] windows[i]).0 == first + MAX_BLOCK_RANGE * i
                    &&& windows[i].0 <= last
                    &&& windows[i].1 == window_end(windows[i].0, last)
                }
            &&& match run(start, replies).state {
                StateView::AskEvents { to_block, window_from, window_to, .. } => {
                    &&& replied_block(replies) == Some(to_block)
                    &&& window_from == first + MAX_BLOCK_RANGE * windows.len()
                    &&& window_from <= to_block
                    &&& window_to == window_end(window_from, to_block)
                },
                StateView::Done { .. } => replied_block(replies) matches Some(last) ==> first
                    + MAX_BLOCK_RANGE * windows.len() > last,
                StateView::Failed => true,
                _ => replied_block(replies) is None,
            }
        }),
    decreases replies.len(),
{
    if replies.len() > 0 {
        law_fetch_reads_every_window(world_address, from_block, replies.drop_last());
    }
}

/// Where no contract stands at the address, the fetch is done at once, without events, and
/// the world built from them is the unknown one at that address.
pub proof fn law_missing_contract_gives_unknown_world(
    fetch: FetchView,
    whitelist: Option<Vec<String>>,
)
    requires
        fetch.state is AskClassHash,
    ensures
        fetch.accepts(ReplyView::ContractNotFound),
        fetch.next(ReplyView::ContractNotFound).state == (StateView::Done {
            events: Seq::empty(),
        }),
        WorldView::unknown(fetch.world_address).accepts_all(Seq::empty(), whitelist),
        WorldView::unknown(fetch.world_address).after_all(Seq::empty(), whitelist) == Ok::<
            WorldView,
            RemoteError,
        >(WorldView::unknown(fetch.world_address)),
{
}

/// An empty page ends a window on a Katana, even where it carries a token; elsewhere only a
/// page without a token does, and a page with one is followed by a request with that token.
pub proof fn law_token_is_followed(
    fetch: FetchView,
    page: Seq<Option<WorldEvent>>,
    token: Option<Seq<char>>,
)
    requires
        in_step(fetch),
        fetch.state is AskEvents,
        fetch.accepts(ReplyView::Events { events: page, continuation_token: token }),
    ensures
        ({
            let next = fetch.next(ReplyView::Events { events: page, continuation_token: token });
            let ends = token is None || (fetch.state->AskEvents_is_katana && page.len() == 0);
            &&& ends ==> match next.state {
                StateView::AskEvents { window_from, continuation_token, .. } => window_from
                    == fetch.state->AskEvents_window_to + 1 && continuation_token is None,
                StateView::Done { .. } => fetch.state->AskEvents_window_to
                    == fetch.state->AskEvents_to_block,
                _ => false,
            }
            &&& !ends ==> match next.state {
                StateView::AskEvents { window_from, window_to, continuation_token, .. } => {
                    &&& window_from == fetch.state->AskEvents_window_from
                    &&& window_to == fetch.state->AskEvents_window_to
                    &&& continuation_token == token
                },
                _ => false,
            }
        }),
{
}

} // verus!
