//! The remote world: what is known of it on chain, built up event by event.
use vstd::prelude::*;

use crate::byte_array::ByteArray;
use crate::error::RemoteError;
use crate::event::WorldEvent;
use crate::felt::{felt, Felt};
use crate::felt_map::{FeltMap, FeltSet};
use crate::resource::{
    update_permission, with_permission, CommonRemoteInfo, CommonView, ContractRemote, EventRemote,
    ModelRemote, NamespaceRemote, NamespaceView, ResourceRemote, ResourceView,
};

verus! {

/// A world as its events describe it.
#[derive(Debug, PartialEq, Eq)]
pub struct WorldRemote {
    pub address: Felt,
    /// The class hashes of the world contract, the current one last.
    pub class_hashes: Vec<Felt>,
    pub metadata_hash: Felt,
    /// The resources of the world, each under its selector.
    pub resources: FeltMap<ResourceRemote>,
    /// The writers of resources that are not among the resources of the world.
    pub external_writers: FeltMap<FeltSet>,
    /// The owners of resources that are not among the resources of the world, and of the
    /// world itself.
    pub external_owners: FeltMap<FeltSet>,
}

/// The contents of a [`WorldRemote`].
#[verifier::ext_equal]
pub struct WorldView {
    pub address: Felt,
    pub class_hashes: Seq<Felt>,
    pub metadata_hash: Felt,
    pub resources: Map<Felt, ResourceView>,
    pub external_writers: Map<Felt, Set<Felt>>,
    pub external_owners: Map<Felt, Set<Felt>>,
}

/// The contents of each resource.
pub open spec fn resource_views(resources: Map<Felt, ResourceRemote>) -> Map<Felt, ResourceView> {
    resources.map_values(|r: ResourceRemote| r@)
}

/// The members of each set.
pub open spec fn set_views(sets: Map<Felt, FeltSet>) -> Map<Felt, Set<Felt>> {
    sets.map_values(|s: FeltSet| s@)
}

impl View for WorldRemote {
    type V = WorldView;

    open spec fn view(&self) -> WorldView {
        WorldView {
            address: self.address,
            class_hashes: self.class_hashes@,
            metadata_hash: self.metadata_hash,
            resources: resource_views(self.resources@),
            external_writers: set_views(self.external_writers@),
            external_owners: set_views(self.external_owners@),
        }
    }
}

/// The selector that stands for the world itself.
pub open spec fn world_selector() -> Felt {
    felt(0)
}

/// Whether a name is among others.
pub open spec fn listed(names: Seq<String>, name: Seq<char>) -> bool {
    exists|i: int| 0 <= i < names.len() && (#[trigger] names[i])@ == name
}

/// Whether a namespace is on the whitelist. Without a whitelist every namespace is.
pub open spec fn whitelisted(whitelist: Option<Vec<String>>, namespace: Seq<char>) -> bool {
    match whitelist {
        Some(names) => listed(names@, namespace),
        None => true,
    }
}

/// The names under which a registration enters the world: none where the namespace is not
/// whitelisted, an error where a name that is looked at is not UTF-8.
pub open spec fn registration_names(
    namespace: ByteArray,
    name: ByteArray,
    whitelist: Option<Vec<String>>,
) -> Result<Option<(Seq<char>, Seq<char>)>, RemoteError> {
    match namespace.text() {
        None => Err(RemoteError::InvalidUtf8),
        Some(namespace) => if !whitelisted(whitelist, namespace) {
            Ok(None)
        } else {
            match name.text() {
                None => Err(RemoteError::InvalidUtf8),
                Some(name) => Ok(Some((namespace, name))),
            }
        },
    }
}

/// Whether the names that [`registration_names`] looks at can be read.
pub open spec fn registration_readable(
    namespace: ByteArray,
    name: ByteArray,
    whitelist: Option<Vec<String>>,
) -> bool {
    &&& namespace.readable()
    &&& namespace.text() is Some && whitelisted(whitelist, namespace.text()->0) ==> name.readable()
}

/// The contracts with a permission on a resource, where nothing recorded means none.
pub open spec fn permitted(sets: Map<Felt, Set<Felt>>, resource: Felt) -> Set<Felt> {
    if sets.contains_key(resource) {
        sets[resource]
    } else {
        Set::empty()
    }
}

impl WorldView {
    /// A world at an address, of which no event is known.
    pub open spec fn unknown(address: Felt) -> WorldView {
        WorldView {
            address,
            class_hashes: Seq::empty(),
            metadata_hash: felt(0),
            resources: Map::empty(),
            external_writers: Map::empty(),
            external_owners: Map::empty(),
        }
    }

    /// The world with a resource under its selector.
    pub open spec fn with_resource(self, resource: ResourceView) -> WorldView {
        WorldView { resources: self.resources.insert(resource.selector(), resource), ..self }
    }

    /// The world after the resource under a selector was upgraded. An upgrade of a resource
    /// that the world does not have changes nothing.
    pub open spec fn upgraded(self, selector: Felt, class_hash: Felt) -> WorldView {
        if self.resources.contains_key(selector) {
            WorldView {
                resources: self.resources.insert(
                    selector,
                    self.resources[selector].upgraded(class_hash),
                ),
                ..self
            }
        } else {
            self
        }
    }

    /// The writers of a resource, of the world's or not.
    pub open spec fn writers(self, resource: Felt) -> Set<Felt> {
        if self.resources.contains_key(resource) {
            self.resources[resource].writers()
        } else {
            permitted(self.external_writers, resource)
        }
    }

    /// The owners of a resource, of the world's or not.
    pub open spec fn owners(self, resource: Felt) -> Set<Felt> {
        if self.resources.contains_key(resource) {
            self.resources[resource].owners()
        } else {
            permitted(self.external_owners, resource)
        }
    }

    /// Whether the world can take an event: the names in it that are looked at can be read,
    /// and a metadata update is about the world or about a resource that it has.
    pub open spec fn accepts(self, event: WorldEvent, whitelist: Option<Vec<String>>) -> bool {
        match event {
            WorldEvent::NamespaceRegistered(e) => e.namespace.readable(),
            WorldEvent::ModelRegistered(e) => registration_readable(
                e.namespace,
                e.name,
                whitelist,
            ),
            WorldEvent::EventRegistered(e) => registration_readable(
                e.namespace,
                e.name,
                whitelist,
            ),
            WorldEvent::ContractRegistered(e) => registration_readable(
                e.namespace,
                e.name,
                whitelist,
            ),
            WorldEvent::MetadataUpdate(e) => e.resource == world_selector()
                || self.resources.contains_key(e.resource),
            _ => true,
        }
    }

    /// The world after an event that it accepts, or why the event is refused.
    pub open spec fn after(
        self,
        event: WorldEvent,
        whitelist: Option<Vec<String>>,
    ) -> Result<WorldView, RemoteError> {
        match event {
            WorldEvent::WorldSpawned(e) => Ok(
                WorldView {
                    class_hashes: self.class_hashes.push(e.class_hash),
                    external_owners: self.external_owners.insert(
                        world_selector(),
                        set![e.creator],
                    ),
                    ..self
                },
            ),
            WorldEvent::WorldUpgraded(e) => Ok(
                WorldView { class_hashes: self.class_hashes.push(e.class_hash), ..self },
            ),
            WorldEvent::NamespaceRegistered(e) => match e.namespace.text() {
                None => Err(RemoteError::InvalidUtf8),
                Some(name) => Ok(
                    if whitelisted(whitelist, name) {
                        self.with_resource(
                            ResourceView::Namespace { namespace: NamespaceView::registered(name) },
                        )
                    } else {
                        self
                    },
                ),
            },
            WorldEvent::ModelRegistered(e) => match registration_names(
                e.namespace,
                e.name,
                whitelist,
            ) {
                Err(error) => Err(error),
                Ok(None) => Ok(self),
                Ok(Some((namespace, name))) => Ok(
                    self.with_resource(
                        ResourceView::Model {
                            common: CommonView::registered(
                                e.class_hash,
                                namespace,
                                name,
                                e.address,
                            ),
                        },
                    ),
                ),
            },
            WorldEvent::EventRegistered(e) => match registration_names(
                e.namespace,
                e.name,
                whitelist,
            ) {
                Err(error) => Err(error),
                Ok(None) => Ok(self),
                Ok(Some((namespace, name))) => Ok(
                    self.with_resource(
                        ResourceView::Event {
                            common: CommonView::registered(
                                e.class_hash,
                                namespace,
                                name,
                                e.address,
                            ),
                        },
                    ),
                ),
            },
            WorldEvent::ContractRegistered(e) => match registration_names(
                e.namespace,
                e.name,
                whitelist,
            ) {
                Err(error) => Err(error),
                Ok(None) => Ok(self),
                Ok(Some((namespace, name))) => Ok(
                    self.with_resource(
                        ResourceView::Contract {
                            common: CommonView::registered(
                                e.class_hash,
                                namespace,
                                name,
                                e.address,
                            ),
                            is_initialized: false,
                        },
                    ),
                ),
            },
            WorldEvent::ModelUpgraded(e) => Ok(self.upgraded(e.selector, e.class_hash)),
            WorldEvent::EventUpgraded(e) => Ok(self.upgraded(e.selector, e.class_hash)),
            WorldEvent::ContractUpgraded(e) => Ok(self.upgraded(e.selector, e.class_hash)),
            WorldEvent::ContractInitialized(e) => if !self.resources.contains_key(e.selector) {
                Ok(self)
            } else if self.resources[e.selector] is Contract {
                Ok(
                    WorldView {
                        resources: self.resources.insert(
                            e.selector,
                            self.resources[e.selector].initialized(),
                        ),
                        ..self
                    },
                )
            } else {
                Err(RemoteError::NotAContract)
            },
            WorldEvent::WriterUpdated(e) => Ok(
                if self.resources.contains_key(e.resource) {
                    WorldView {
                        resources: self.resources.insert(
                            e.resource,
                            self.resources[e.resource].with_writer(e.contract, e.value),
                        ),
                        ..self
                    }
                } else {
                    WorldView {
                        external_writers: self.external_writers.insert(
                            e.resource,
                            with_permission(
                                permitted(self.external_writers, e.resource),
                                e.contract,
                                e.value,
                            ),
                        ),
                        ..self
                    }
                },
            ),
            WorldEvent::OwnerUpdated(e) => Ok(
                if self.resources.contains_key(e.resource) {
                    WorldView {
                        resources: self.resources.insert(
                            e.resource,
                            self.resources[e.resource].with_owner(e.contract, e.value),
                        ),
                        ..self
                    }
                } else {
                    WorldView {
                        external_owners: self.external_owners.insert(
                            e.resource,
                            with_permission(
                                permitted(self.external_owners, e.resource),
                                e.contract,
                                e.value,
                            ),
                        ),
                        ..self
                    }
                },
            ),
            WorldEvent::MetadataUpdate(e) => Ok(
                if e.resource == world_selector() {
                    WorldView { metadata_hash: e.hash, ..self }
                } else {
                    WorldView {
                        resources: self.resources.insert(
                            e.resource,
                            self.resources[e.resource].with_metadata_hash(e.hash),
                        ),
                        ..self
                    }
                },
            ),
            WorldEvent::Other => Ok(self),
        }
    }
}

/// Returns true if the namespace is whitelisted, false otherwise.
/// If no whitelist is provided, all namespaces are considered whitelisted.
pub fn is_whitelisted(whitelisted_namespaces: &Option<Vec<String>>, namespace: &str) -> (r: bool)
    ensures
        r == whitelisted(*whitelisted_namespaces, namespace@),
{
    if let Some(namespaces) = whitelisted_namespaces {
        let wanted: String = namespace.to_owned();
        let mut i: usize = 0;
        while i < namespaces.len()
            invariant
                i <= namespaces@.len(),
                wanted@ == namespace@,
                *whitelisted_namespaces == Some(*namespaces),
                forall|j: int| 0 <= j < i ==> (#[trigger] namespaces@[j])@ != namespace@,
            decreases namespaces@.len() - i,
        {
            if namespaces[i] == wanted {
                return true;
            }
            i += 1;
        }
        return false;
    }
    true
}

/// The names under which a registration enters the world, if it does.
fn read_registration(
    namespace: &ByteArray,
    name: &ByteArray,
    whitelisted_namespaces: &Option<Vec<String>>,
) -> (r: Result<Option<(String, String)>, RemoteError>)
    requires
        registration_readable(*namespace, *name, *whitelisted_namespaces),
    ensures
        match r {
            Ok(Some((namespace_text, name_text))) => registration_names(
                *namespace,
                *name,
                *whitelisted_namespaces,
            ) == Ok::<_, RemoteError>(Some((namespace_text@, name_text@))),
            Ok(None) => registration_names(*namespace, *name, *whitelisted_namespaces) == Ok::<
                Option<(Seq<char>, Seq<char>)>,
                RemoteError,
            >(None),
            Err(error) => registration_names(*namespace, *name, *whitelisted_namespaces) == Err::<
                Option<(Seq<char>, Seq<char>)>,
                RemoteError,
            >(error),
        },
{
    let namespace_text: String = match namespace.to_string() {
        Ok(text) => text,
        Err(error) => return Err(error),
    };
    if !is_whitelisted(whitelisted_namespaces, namespace_text.as_str()) {
        return Ok(None);
    }
    match name.to_string() {
        Ok(name_text) => Ok(Some((namespace_text, name_text))),
        Err(error) => Err(error),
    }
}

/// Whether the names that [`read_registration`] looks at can be read.
fn can_read_registration(
    namespace: &ByteArray,
    name: &ByteArray,
    whitelisted_namespaces: &Option<Vec<String>>,
) -> (r: bool)
    ensures
        r == registration_readable(*namespace, *name, *whitelisted_namespaces),
{
    if !namespace.is_readable() {
        return false;
    }
    match namespace.to_string() {
        Ok(text) => name.is_readable() || !is_whitelisted(whitelisted_namespaces, text.as_str()),
        Err(_) => true,
    }
}

/// Gives a contract a permission on a resource that the world does not have, or takes it away.
fn update_external(sets: &mut FeltMap<FeltSet>, resource: Felt, contract: Felt, granted: bool)
    ensures
        set_views(final(sets)@) == set_views(old(sets)@).insert(
            resource,
            with_permission(permitted(set_views(old(sets)@), resource), contract, granted),
        ),
{
    match sets.get_mut(&resource) {
        Some(contracts) => {
            update_permission(contracts, contract, granted);
        },
        None => {
            let mut contracts: FeltSet = FeltSet::new();
            update_permission(&mut contracts, contract, granted);
            sets.insert(resource, contracts);
        },
    }
    assert(set_views(sets@) =~= set_views(old(sets)@).insert(
        resource,
        with_permission(permitted(set_views(old(sets)@), resource), contract, granted),
    ));
}

impl Default for WorldRemote {
    /// A world of which nothing is known, not even the address.
    fn default() -> (r: WorldRemote)
        ensures
            r@ == WorldView::unknown(felt(0)),
    {
        WorldRemote::new(Felt::zero())
    }
}

impl WorldRemote {
    /// A world at an address, of which no event is known.
    pub fn new(address: Felt) -> (r: WorldRemote)
        ensures
            r@ == WorldView::unknown(address),
    {
        let r = WorldRemote {
            address,
            class_hashes: Vec::new(),
            metadata_hash: Felt::zero(),
            resources: FeltMap::new(),
            external_writers: FeltMap::new(),
            external_owners: FeltMap::new(),
        };
        assert(r@ =~= WorldView::unknown(address));
        r
    }

    /// Puts a resource under a selector.
    pub fn insert_resource(&mut self, selector: Felt, resource: ResourceRemote)
        ensures
            final(self)@ == (WorldView {
                resources: old(self)@.resources.insert(selector, resource@),
                ..old(self)@
            }),
    {
        self.resources.insert(selector, resource);
        assert(self@.resources =~= old(self)@.resources.insert(selector, resource@));
    }

    /// Puts a resource under its own selector.
    pub fn add_resource(&mut self, resource: ResourceRemote)
        ensures
            final(self)@ == old(self)@.with_resource(resource@),
    {
        let selector: Felt = resource.dojo_selector();
        self.insert_resource(selector, resource);
    }

    /// Records that the resource under a selector was upgraded, if the world has it.
    pub fn upgrade_resource(&mut self, selector: &Felt, class_hash: Felt)
        ensures
            final(self)@ == old(self)@.upgraded(*selector, class_hash),
    {
        if let Some(resource) = self.resources.get_mut(selector) {
            resource.push_class_hash(class_hash);
        }
        assert(self@ =~= old(self)@.upgraded(*selector, class_hash));
    }

    /// Whether the world can take the event.
    pub fn accepts(&self, event: &WorldEvent, whitelisted_namespaces: &Option<Vec<String>>) -> (r:
        bool)
        ensures
            r == self@.accepts(*event, *whitelisted_namespaces),
    {
        match event {
            WorldEvent::NamespaceRegistered(e) => e.namespace.is_readable(),
            WorldEvent::ModelRegistered(e) => can_read_registration(
                &e.namespace,
                &e.name,
                whitelisted_namespaces,
            ),
            WorldEvent::EventRegistered(e) => can_read_registration(
                &e.namespace,
                &e.name,
                whitelisted_namespaces,
            ),
            WorldEvent::ContractRegistered(e) => can_read_registration(
                &e.namespace,
                &e.name,
                whitelisted_namespaces,
            ),
            WorldEvent::MetadataUpdate(e) => e.resource == Felt::zero()
                || self.resources.contains_key(&e.resource),
            _ => true,
        }
    }

    /// Matches the given event to the corresponding remote resource and inserts it into the
    /// world. An event that is refused leaves the world as it is.
    pub fn match_event(
        &mut self,
        event: WorldEvent,
        whitelisted_namespaces: &Option<Vec<String>>,
    ) -> (r: Result<(), RemoteError>)
        requires
            old(self)@.accepts(event, *whitelisted_namespaces),
        ensures
            match old(self)@.after(event, *whitelisted_namespaces) {
                Ok(world) => r is Ok && final(self)@ == world,
                Err(error) => r == Err::<(), RemoteError>(error) && final(self)@ == old(self)@,
            },
    {
        match event {
            WorldEvent::WorldSpawned(e) => {
                self.class_hashes.push(e.class_hash);
                // The creator owns the world, though no event says so.
                self.external_owners.insert(Felt::zero(), FeltSet::singleton(e.creator));
                assert(self@.external_owners =~= old(self)@.external_owners.insert(
                    world_selector(),
                    set![e.creator],
                ));
            },
            WorldEvent::WorldUpgraded(e) => {
                self.class_hashes.push(e.class_hash);
            },
            WorldEvent::NamespaceRegistered(e) => {
                let name: String = match e.namespace.to_string() {
                    Ok(name) => name,
                    Err(error) => return Err(error),
                };
                if is_whitelisted(whitelisted_namespaces, name.as_str()) {
                    self.add_resource(ResourceRemote::Namespace(NamespaceRemote::new(name)));
                }
            },
            WorldEvent::ModelRegistered(e) => {
                match read_registration(&e.namespace, &e.name, whitelisted_namespaces) {
                    Err(error) => return Err(error),
                    Ok(None) => {},
                    Ok(Some((namespace, name))) => {
                        let common = CommonRemoteInfo::new(
                            e.class_hash,
                            namespace.as_str(),
                            name.as_str(),
                            e.address,
                        );
                        self.add_resource(ResourceRemote::Model(ModelRemote { common }));
                    },
                }
            },
            WorldEvent::EventRegistered(e) => {
                match read_registration(&e.namespace, &e.name, whitelisted_namespaces) {
                    Err(error) => return Err(error),
                    Ok(None) => {},
                    Ok(Some((namespace, name))) => {
                        let common = CommonRemoteInfo::new(
                            e.class_hash,
                            namespace.as_str(),
                            name.as_str(),
                            e.address,
                        );
                        self.add_resource(ResourceRemote::Event(EventRemote { common }));
                    },
                }
            },
            WorldEvent::ContractRegistered(e) => {
                match read_registration(&e.namespace, &e.name, whitelisted_namespaces) {
                    Err(error) => return Err(error),
                    Ok(None) => {},
                    Ok(Some((namespace, name))) => {
                        let common = CommonRemoteInfo::new(
                            e.class_hash,
                            namespace.as_str(),
                            name.as_str(),
                            e.address,
                        );
                        self.add_resource(
                            ResourceRemote::Contract(
                                ContractRemote { common, is_initialized: false },
                            ),
                        );
                    },
                }
            },
            WorldEvent::ModelUpgraded(e) => self.upgrade_resource(&e.selector, e.class_hash),
            WorldEvent::EventUpgraded(e) => self.upgrade_resource(&e.selector, e.class_hash),
            WorldEvent::ContractUpgraded(e) => self.upgrade_resource(&e.selector, e.class_hash),
            WorldEvent::ContractInitialized(e) => {
                if let Some(resource) = self.resources.get_mut(&e.selector) {
                    match resource.as_contract_mut() {
                        Ok(contract) => {
                            contract.is_initialized = true;
                        },
                        Err(error) => {
                            return Err(error);
                        },
                    }
                }
            },
            WorldEvent::WriterUpdated(e) => {
                // The resource may not be one of the world's.
                if let Some(resource) = self.resources.get_mut(&e.resource) {
                    resource.update_writer(e.contract, e.value);
                } else {
                    update_external(
                        &mut self.external_writers,
                        e.resource,
                        e.contract,
                        e.value,
                    );
                }
            },
            WorldEvent::OwnerUpdated(e) => {
                // The resource may not be one of the world's.
                if let Some(resource) = self.resources.get_mut(&e.resource) {
                    resource.update_owner(e.contract, e.value);
                } else {
                    update_external(
                        &mut self.external_owners,
                        e.resource,
                        e.contract,
                        e.value,
                    );
                }
            },
            WorldEvent::MetadataUpdate(e) => {
                if e.resource == Felt::zero() {
                    self.metadata_hash = e.hash;
                } else if let Some(resource) = self.resources.get_mut(&e.resource) {
                    resource.set_metadata_hash(e.hash);
                }
            },
            WorldEvent::Other => {},
        }
        proof {
            let expected = old(self)@.after(event, *whitelisted_namespaces)->Ok_0;
            assert(self@.resources =~= expected.resources);
            assert(self@ =~= expected);
        }
        Ok(())
    }
}

impl WorldView {
    /// The world after events in order, or why one of them is refused; nothing after a
    /// refused event counts. `None` stands for an event that could not be parsed: it is
    /// passed over.
    pub open spec fn after_all(
        self,
        events: Seq<Option<WorldEvent>>,
        whitelist: Option<Vec<String>>,
    ) -> Result<WorldView, RemoteError>
        decreases events.len(),
    {
        if events.len() == 0 {
            Ok(self)
        } else {
            match (self.after_all(events.drop_last(), whitelist), events.last()) {
                (Ok(world), Some(event)) => world.after(event, whitelist),
                (Ok(world), None) => Ok(world),
                (Err(error), _) => Err(error),
            }
        }
    }

    /// Whether the world accepts each event that it comes to.
    pub open spec fn accepts_all(
        self,
        events: Seq<Option<WorldEvent>>,
        whitelist: Option<Vec<String>>,
    ) -> bool
        decreases events.len(),
    {
        events.len() == 0 || {
            &&& self.accepts_all(events.drop_last(), whitelist)
            &&& match (self.after_all(events.drop_last(), whitelist), events.last()) {
                (Ok(world), Some(event)) => world.accepts(event, whitelist),
                _ => true,
            }
        }
    }
}

/// Events can be taken in two lots: the second goes on from the world that the first leaves.
pub proof fn law_events_in_two_lots(
    world: WorldView,
    first: Seq<Option<WorldEvent>>,
    second: Seq<Option<WorldEvent>>,
    whitelist: Option<Vec<String>>,
)
    ensures
        world.after_all(first + second, whitelist) == match world.after_all(first, whitelist) {
            Ok(between) => between.after_all(second, whitelist),
            Err(error) => Err(error),
        },
        world.accepts_all(first + second, whitelist) == (world.accepts_all(first, whitelist)
            && match world.after_all(first, whitelist) {
            Ok(between) => between.accepts_all(second, whitelist),
            Err(_) => true,
        }),
    decreases second.len(),
{
    if second.len() == 0 {
        assert(first + second =~= first);
    } else {
        assert((first + second).drop_last() =~= first + second.drop_last());
        law_events_in_two_lots(world, first, second.drop_last(), whitelist);
    }
}

impl WorldRemote {
    /// Builds the world at an address from the events that it emitted, in order. `None`
    /// stands for an event that could not be parsed, and is passed over. The result is
    /// `None` where an event comes that the world cannot take.
    pub fn try_from_events(
        world_address: Felt,
        events: Vec<Option<WorldEvent>>,
        whitelisted_namespaces: &Option<Vec<String>>,
    ) -> (r: Option<Result<WorldRemote, RemoteError>>)
        ensures
            r is Some == WorldView::unknown(world_address).accepts_all(
                events@,
                *whitelisted_namespaces,
            ),
            r matches Some(result) ==> match WorldView::unknown(world_address).after_all(
                events@,
                *whitelisted_namespaces,
            ) {
                Ok(world) => result is Ok && result->Ok_0@ == world,
                Err(error) => result == Err::<WorldRemote, RemoteError>(error),
            },
    {
        let ghost start = WorldView::unknown(world_address);
        let ghost all = events@;
        let mut world = WorldRemote::new(world_address);
        for event in it: events
            invariant
                start == WorldView::unknown(world_address),
                it.seq() == all,
                start.accepts_all(all.take(it.index() as int), *whitelisted_namespaces),
                start.after_all(all.take(it.index() as int), *whitelisted_namespaces) == Ok::<
                    _,
                    RemoteError,
                >(world@),
        {
            let ghost done = all.take(it.index() as int);
            let ghost next = all.take(it.index() + 1);
            let ghost rest = all.skip(it.index() + 1);
            proof {
                assert(next.drop_last() =~= done);
                assert(next + rest =~= all);
                law_events_in_two_lots(start, next, rest, *whitelisted_namespaces);
            }
            if let Some(event) = event {
                if !world.accepts(&event, whitelisted_namespaces) {
                    return None;
                }
                if let Err(error) = world.match_event(event, whitelisted_namespaces) {
                    return Some(Err(error));
                }
            }
        }
        proof {
            assert(all.take(all.len() as int) =~= all);
        }
        Some(Ok(world))
    }

    /// Builds the world at an address from the events that it emitted, in order. `None`
    /// stands for an event that could not be parsed, and is passed over.
    pub fn from_events(
        world_address: Felt,
        events: Vec<Option<WorldEvent>>,
        whitelisted_namespaces: &Option<Vec<String>>,
    ) -> (r: Result<WorldRemote, RemoteError>)
        requires
            WorldView::unknown(world_address).accepts_all(events@, *whitelisted_namespaces),
        ensures
            match WorldView::unknown(world_address).after_all(events@, *whitelisted_namespaces) {
                Ok(world) => r is Ok && r->Ok_0@ == world,
                Err(error) => r == Err::<WorldRemote, RemoteError>(error),
            },
    {
        WorldRemote::try_from_events(world_address, events, whitelisted_namespaces).unwrap()
    }
}

} // verus!
