//! The resources that a world manages: namespaces, contracts, models and events.
use vstd::pervasive::unreached;
use vstd::prelude::*;

use crate::error::RemoteError;
use crate::felt::{felt, Felt};
use crate::felt_map::FeltSet;
use crate::naming::{
    bytearray_hash, compute_bytearray_hash, compute_selector_from_names, selector_from_names,
};

verus! {

/// What contracts, models and events have in common.
#[derive(Debug, PartialEq, Eq)]
pub struct CommonRemoteInfo {
    /// The class hashes of the resource since it was registered, the current one last.
    pub class_hashes: Vec<Felt>,
    pub name: String,
    pub namespace: String,
    pub address: Felt,
    pub metadata_hash: Felt,
    /// The contracts that own the resource.
    pub owners: FeltSet,
    /// The contracts that may write the resource.
    pub writers: FeltSet,
}

/// A contract of the world.
#[derive(Debug, PartialEq, Eq)]
pub struct ContractRemote {
    pub common: CommonRemoteInfo,
    pub is_initialized: bool,
}

/// A model of the world.
#[derive(Debug, PartialEq, Eq)]
pub struct ModelRemote {
    pub common: CommonRemoteInfo,
}

/// An event of the world.
#[derive(Debug, PartialEq, Eq)]
pub struct EventRemote {
    pub common: CommonRemoteInfo,
}

/// A namespace of the world.
#[derive(Debug, PartialEq, Eq)]
pub struct NamespaceRemote {
    pub name: String,
    pub metadata_hash: Felt,
    /// The contracts that own the namespace.
    pub owners: FeltSet,
    /// The contracts that may write the namespace.
    pub writers: FeltSet,
}

/// A resource as the world knows it.
#[derive(Debug, PartialEq, Eq)]
pub enum ResourceRemote {
    Contract(ContractRemote),
    Model(ModelRemote),
    Event(EventRemote),
    Namespace(NamespaceRemote),
}

/// The contents of a [`CommonRemoteInfo`].
#[verifier::ext_equal]
pub struct CommonView {
    pub class_hashes: Seq<Felt>,
    pub name: Seq<char>,
    pub namespace: Seq<char>,
    pub address: Felt,
    pub metadata_hash: Felt,
    pub owners: Set<Felt>,
    pub writers: Set<Felt>,
}

/// The contents of a [`NamespaceRemote`].
#[verifier::ext_equal]
pub struct NamespaceView {
    pub name: Seq<char>,
    pub metadata_hash: Felt,
    pub owners: Set<Felt>,
    pub writers: Set<Felt>,
}

/// The contents of a [`ResourceRemote`].
#[verifier::ext_equal]
pub enum ResourceView {
    Contract { common: CommonView, is_initialized: bool },
    Model { common: CommonView },
    Event { common: CommonView },
    Namespace { namespace: NamespaceView },
}

impl View for CommonRemoteInfo {
    type V = CommonView;

    open spec fn view(&self) -> CommonView {
        CommonView {
            class_hashes: self.class_hashes@,
            name: self.name@,
            namespace: self.namespace@,
            address: self.address,
            metadata_hash: self.metadata_hash,
            owners: self.owners@,
            writers: self.writers@,
        }
    }
}

impl View for NamespaceRemote {
    type V = NamespaceView;

    open spec fn view(&self) -> NamespaceView {
        NamespaceView {
            name: self.name@,
            metadata_hash: self.metadata_hash,
            owners: self.owners@,
            writers: self.writers@,
        }
    }
}

impl View for ResourceRemote {
    type V = ResourceView;

    open spec fn view(&self) -> ResourceView {
        match *self {
            ResourceRemote::Contract(c) => ResourceView::Contract {
                common: c.common@,
                is_initialized: c.is_initialized,
            },
            ResourceRemote::Model(m) => ResourceView::Model { common: m.common@ },
            ResourceRemote::Event(e) => ResourceView::Event { common: e.common@ },
            ResourceRemote::Namespace(n) => ResourceView::Namespace { namespace: n@ },
        }
    }
}

/// A set of contracts after one of them was given a permission (`granted`) or lost it.
pub open spec fn with_permission(contracts: Set<Felt>, contract: Felt, granted: bool) -> Set<Felt> {
    if granted {
        contracts.insert(contract)
    } else {
        contracts.remove(contract)
    }
}

impl CommonView {
    /// A resource that was just registered: one class hash, no permissions, no metadata.
    pub open spec fn registered(
        class_hash: Felt,
        namespace: Seq<char>,
        name: Seq<char>,
        address: Felt,
    ) -> CommonView {
        CommonView {
            class_hashes: seq![class_hash],
            name,
            namespace,
            address,
            metadata_hash: felt(0),
            owners: Set::empty(),
            writers: Set::empty(),
        }
    }
}

impl NamespaceView {
    /// A namespace that was just registered: no permissions, no metadata.
    pub open spec fn registered(name: Seq<char>) -> NamespaceView {
        NamespaceView {
            name,
            metadata_hash: felt(0),
            owners: Set::empty(),
            writers: Set::empty(),
        }
    }
}

impl ResourceView {
    /// What the resource shares with other kinds; a namespace shares nothing.
    pub open spec fn common(self) -> Option<CommonView> {
        match self {
            ResourceView::Contract { common, .. } => Some(common),
            ResourceView::Model { common } => Some(common),
            ResourceView::Event { common } => Some(common),
            ResourceView::Namespace { .. } => None,
        }
    }

    /// The namespace that the resource lies in; a namespace lies in itself.
    pub open spec fn namespace_name(self) -> Seq<char> {
        match self {
            ResourceView::Contract { common, .. } => common.namespace,
            ResourceView::Model { common } => common.namespace,
            ResourceView::Event { common } => common.namespace,
            ResourceView::Namespace { namespace } => namespace.name,
        }
    }

    /// The selector that the resource is known by: the hash of its name for a namespace,
    /// the hash of both names for the others.
    pub open spec fn selector(self) -> Felt {
        match self {
            ResourceView::Contract { common, .. } => selector_from_names(
                common.namespace,
                common.name,
            ),
            ResourceView::Model { common } => selector_from_names(common.namespace, common.name),
            ResourceView::Event { common } => selector_from_names(common.namespace, common.name),
            ResourceView::Namespace { namespace } => bytearray_hash(namespace.name),
        }
    }

    /// The class hashes of the resource, the current one last. A namespace has no class.
    pub open spec fn class_hashes(self) -> Seq<Felt> {
        match self.common() {
            Some(common) => common.class_hashes,
            None => Seq::empty(),
        }
    }

    /// The hash of the metadata of the resource.
    pub open spec fn metadata_hash(self) -> Felt {
        match self {
            ResourceView::Contract { common, .. } => common.metadata_hash,
            ResourceView::Model { common } => common.metadata_hash,
            ResourceView::Event { common } => common.metadata_hash,
            ResourceView::Namespace { namespace } => namespace.metadata_hash,
        }
    }

    /// The contracts that own the resource.
    pub open spec fn owners(self) -> Set<Felt> {
        match self {
            ResourceView::Contract { common, .. } => common.owners,
            ResourceView::Model { common } => common.owners,
            ResourceView::Event { common } => common.owners,
            ResourceView::Namespace { namespace } => namespace.owners,
        }
    }

    /// The contracts that may write the resource.
    pub open spec fn writers(self) -> Set<Felt> {
        match self {
            ResourceView::Contract { common, .. } => common.writers,
            ResourceView::Model { common } => common.writers,
            ResourceView::Event { common } => common.writers,
            ResourceView::Namespace { namespace } => namespace.writers,
        }
    }

    /// The resource with other common contents; a namespace stays as it is.
    pub open spec fn with_common(self, common: CommonView) -> ResourceView {
        match self {
            ResourceView::Contract { is_initialized, .. } => ResourceView::Contract {
                common,
                is_initialized,
            },
            ResourceView::Model { .. } => ResourceView::Model { common },
            ResourceView::Event { .. } => ResourceView::Event { common },
            ResourceView::Namespace { namespace } => ResourceView::Namespace { namespace },
        }
    }

    /// The resource after an upgrade to a class. A namespace has no class and stays as it is.
    pub open spec fn upgraded(self, class_hash: Felt) -> ResourceView {
        match self.common() {
            Some(common) => self.with_common(
                CommonView { class_hashes: common.class_hashes.push(class_hash), ..common },
            ),
            None => self,
        }
    }

    /// The resource with another metadata hash.
    pub open spec fn with_metadata_hash(self, hash: Felt) -> ResourceView {
        match self {
            ResourceView::Namespace { namespace } => ResourceView::Namespace {
                namespace: NamespaceView { metadata_hash: hash, ..namespace },
            },
            _ => self.with_common(CommonView { metadata_hash: hash, ..self.common()->0 }),
        }
    }

    /// The resource after a contract became an owner of it (`granted`) or ceased to be one.
    pub open spec fn with_owner(self, contract: Felt, granted: bool) -> ResourceView {
        let owners = with_permission(self.owners(), contract, granted);
        match self {
            ResourceView::Namespace { namespace } => ResourceView::Namespace {
                namespace: NamespaceView { owners, ..namespace },
            },
            _ => self.with_common(CommonView { owners, ..self.common()->0 }),
        }
    }

    /// The resource after a contract became a writer of it (`granted`) or ceased to be one.
    pub open spec fn with_writer(self, contract: Felt, granted: bool) -> ResourceView {
        let writers = with_permission(self.writers(), contract, granted);
        match self {
            ResourceView::Namespace { namespace } => ResourceView::Namespace {
                namespace: NamespaceView { writers, ..namespace },
            },
            _ => self.with_common(CommonView { writers, ..self.common()->0 }),
        }
    }

    /// The contract after its initializer ran; another resource stays as it is.
    pub open spec fn initialized(self) -> ResourceView {
        match self {
            ResourceView::Contract { common, .. } => ResourceView::Contract {
                common,
                is_initialized: true,
            },
            _ => self,
        }
    }
}

impl CommonRemoteInfo {
    /// A resource that was just registered.
    pub fn new(class_hash: Felt, namespace: &str, name: &str, address: Felt) -> (r: CommonRemoteInfo)
        ensures
            r@ == CommonView::registered(class_hash, namespace@, name@, address),
    {
        let mut class_hashes: Vec<Felt> = Vec::new();
        class_hashes.push(class_hash);
        assert(class_hashes@ =~= seq![class_hash]);
        CommonRemoteInfo {
            class_hashes,
            name: name.to_owned(),
            namespace: namespace.to_owned(),
            address,
            metadata_hash: Felt::zero(),
            owners: FeltSet::new(),
            writers: FeltSet::new(),
        }
    }
}

impl NamespaceRemote {
    /// A namespace that was just registered.
    pub fn new(name: String) -> (r: NamespaceRemote)
        ensures
            r@ == NamespaceView::registered(name@),
    {
        NamespaceRemote {
            name,
            metadata_hash: Felt::zero(),
            owners: FeltSet::new(),
            writers: FeltSet::new(),
        }
    }
}

/// Gives a contract a permission, or takes it away.
pub fn update_permission(contracts: &mut FeltSet, contract: Felt, granted: bool)
    ensures
        final(contracts)@ == with_permission(old(contracts)@, contract, granted),
{
    if granted {
        contracts.insert(contract);
    } else {
        contracts.remove(&contract);
    }
}

impl ResourceRemote {
    /// The selector that the resource is known by.
    pub fn dojo_selector(&self) -> (r: Felt)
        ensures
            r == self@.selector(),
    {
        match self {
            ResourceRemote::Contract(c) => compute_selector_from_names(
                c.common.namespace.as_str(),
                c.common.name.as_str(),
            ),
            ResourceRemote::Model(m) => compute_selector_from_names(
                m.common.namespace.as_str(),
                m.common.name.as_str(),
            ),
            ResourceRemote::Event(e) => compute_selector_from_names(
                e.common.namespace.as_str(),
                e.common.name.as_str(),
            ),
            ResourceRemote::Namespace(n) => compute_bytearray_hash(n.name.as_str()),
        }
    }

    /// The hash of the metadata of the resource.
    pub fn metadata_hash(&self) -> (r: Felt)
        ensures
            r == self@.metadata_hash(),
    {
        match self {
            ResourceRemote::Contract(c) => c.common.metadata_hash,
            ResourceRemote::Model(m) => m.common.metadata_hash,
            ResourceRemote::Event(e) => e.common.metadata_hash,
            ResourceRemote::Namespace(n) => n.metadata_hash,
        }
    }

    /// Records the hash of the metadata of the resource.
    pub fn set_metadata_hash(&mut self, hash: Felt)
        ensures
            final(self)@ == old(self)@.with_metadata_hash(hash),
    {
        match self {
            ResourceRemote::Contract(c) => {
                c.common.metadata_hash = hash;
            },
            ResourceRemote::Model(m) => {
                m.common.metadata_hash = hash;
            },
            ResourceRemote::Event(e) => {
                e.common.metadata_hash = hash;
            },
            ResourceRemote::Namespace(n) => {
                n.metadata_hash = hash;
            },
        }
    }

    /// Records that the resource was upgraded to a class. A namespace has no class.
    pub fn push_class_hash(&mut self, class_hash: Felt)
        ensures
            final(self)@ == old(self)@.upgraded(class_hash),
    {
        match self {
            ResourceRemote::Contract(c) => {
                c.common.class_hashes.push(class_hash);
            },
            ResourceRemote::Model(m) => {
                m.common.class_hashes.push(class_hash);
            },
            ResourceRemote::Event(e) => {
                e.common.class_hashes.push(class_hash);
            },
            ResourceRemote::Namespace(_) => {},
        }
    }

    /// Makes a contract an owner of the resource, or no owner.
    pub fn update_owner(&mut self, contract: Felt, is_owner: bool)
        ensures
            final(self)@ == old(self)@.with_owner(contract, is_owner),
    {
        match self {
            ResourceRemote::Contract(c) => update_permission(
                &mut c.common.owners,
                contract,
                is_owner,
            ),
            ResourceRemote::Model(m) => update_permission(
                &mut m.common.owners,
                contract,
                is_owner,
            ),
            ResourceRemote::Event(e) => update_permission(
                &mut e.common.owners,
                contract,
                is_owner,
            ),
            ResourceRemote::Namespace(n) => update_permission(&mut n.owners, contract, is_owner),
        }
    }

    /// Makes a contract a writer of the resource, or no writer.
    pub fn update_writer(&mut self, contract: Felt, is_writer: bool)
        ensures
            final(self)@ == old(self)@.with_writer(contract, is_writer),
    {
        match self {
            ResourceRemote::Contract(c) => update_permission(
                &mut c.common.writers,
                contract,
                is_writer,
            ),
            ResourceRemote::Model(m) => update_permission(
                &mut m.common.writers,
                contract,
                is_writer,
            ),
            ResourceRemote::Event(e) => update_permission(
                &mut e.common.writers,
                contract,
                is_writer,
            ),
            ResourceRemote::Namespace(n) => update_permission(&mut n.writers, contract, is_writer),
        }
    }

    /// The contract in the resource, to be changed.
    pub fn as_contract_mut(&mut self) -> (r: Result<&mut ContractRemote, RemoteError>)
        ensures
            match r {
                Ok(c) => *old(self) == ResourceRemote::Contract(*c) && *final(self)
                    == ResourceRemote::Contract(*final(c)),
                Err(e) => !(*old(self) is Contract) && e == RemoteError::NotAContract
                    && *final(self) == *old(self),
            },
    {
        match self {
            ResourceRemote::Contract(c) => Ok(c),
            _ => Err(RemoteError::NotAContract),
        }
    }

    /// The contract in a resource that is one.
    pub fn as_contract_or_panic(&self) -> (r: &ContractRemote)
        requires
            *self is Contract,
        ensures
            *self == ResourceRemote::Contract(*r),
    {
        match self {
            ResourceRemote::Contract(c) => c,
            _ => unreached(),
        }
    }

    /// The model in a resource that is one.
    pub fn as_model_or_panic(&self) -> (r: &ModelRemote)
        requires
            *self is Model,
        ensures
            *self == ResourceRemote::Model(*r),
    {
        match self {
            ResourceRemote::Model(m) => m,
            _ => unreached(),
        }
    }

    /// The event in a resource that is one.
    pub fn as_event_or_panic(&self) -> (r: &EventRemote)
        requires
            *self is Event,
        ensures
            *self == ResourceRemote::Event(*r),
    {
        match self {
            ResourceRemote::Event(e) => e,
            _ => unreached(),
        }
    }

    /// The namespace in a resource that is one.
    pub fn as_namespace_or_panic(&self) -> (r: &NamespaceRemote)
        requires
            *self is Namespace,
        ensures
            *self == ResourceRemote::Namespace(*r),
    {
        match self {
            ResourceRemote::Namespace(n) => n,
            _ => unreached(),
        }
    }
}

} // verus!
