//! What the values of the library stand for: field elements, texts, selectors, and the views of
//! resources, worlds and fetches.
use vstd::arithmetic::power2::{lemma2_to64, lemma2_to64_rest, lemma_pow2_adds, pow2};
use vstd::prelude::*;
use vstd::utf8::encode_utf8;

use crate::byte_array::{text_felts, ByteArray, Bytes31};
use crate::felt::{felt, field_order, half_base, lemma_felt_of_number, Felt};
use crate::fetch::{token_view, EventFetch, FetchReply, FetchState, ReplyView, StateView};
use crate::naming::{bytearray_hash, poseidon_hash, selector_from_hashes, selector_from_names};
use crate::resource::{
    CommonRemoteInfo, CommonView, ContractRemote, EventRemote, ModelRemote, NamespaceRemote,
    ResourceRemote, ResourceView,
};
use crate::world::{whitelisted, WorldRemote, WorldView};

verus! {

/// A half of an element holds 128 bits, and the field is the one of order
/// `2^251 + 17 * 2^192 + 1`.
pub proof fn law_field_is_the_stark_field()
    ensures
        half_base() == pow2(128),
        field_order() == pow2(251) + 17 * pow2(192) + 1,
{
    lemma2_to64();
    lemma2_to64_rest();
    lemma_pow2_adds(64, 64);
    lemma_pow2_adds(128, 64);
    lemma_pow2_adds(192, 59);
    assert(pow2(128) == 0x100000000000000000000000000000000int);
    assert(pow2(192) == 0x1000000000000000000000000000000000000000000000000int);
    assert(pow2(251) == 0x800000000000000000000000000000000000000000000000000000000000000int);
}

/// A byte array is written as the number of its full words, each of them in order, the pending
/// word and its length, of which the last 32 bits are written.
pub proof fn law_written_felts(array: ByteArray)
    ensures
        array.felts().len() == array.data@.len() + 3,
        array.data@.len() < half_base() ==> array.felts()[0]@ == array.data@.len(),
        forall|i: int|
            0 <= i < array.data@.len() ==> (#[trigger] array.felts()[i + 1]) == array.data@[i]@,
        array.felts()[array.data@.len() as int + 1] == array.pending_word,
        array.felts()[array.data@.len() as int + 2]@ == array.pending_word_len as int
            % 0x1_0000_0000,
{
    let words = array.data@.map_values(|w: Bytes31| w@);
    assert(words.len() == array.data@.len());
    lemma_felt_of_number(array.pending_word, array.data@.len() as int);
    let len: u64 = array.pending_word_len as u64;
    assert(len as u32 == len % 0x1_0000_0000) by (bit_vector);
    lemma_felt_of_number(array.pending_word, array.pending_word_len as u32 as int);
}

/// The selector of a namespace is the hash of its name as it is written on chain; that of
/// another resource is the hash of the hashes of its two names, the namespace first.
pub proof fn law_selectors_are_hashes(
    namespace: Seq<char>,
    name: Seq<char>,
    a: ByteArray,
    b: ByteArray,
)
    requires
        a.felts() == text_felts(namespace),
        b.felts() == text_felts(name),
    ensures
        bytearray_hash(namespace) == poseidon_hash(a.felts()),
        selector_from_names(namespace, name) == poseidon_hash(
            seq![poseidon_hash(a.felts()), poseidon_hash(b.felts())],
        ),
        selector_from_names(namespace, name) == selector_from_hashes(
            bytearray_hash(namespace),
            bytearray_hash(name),
        ),
        forall|h: Felt, n: Felt| #[trigger]
            selector_from_hashes(h, n) == poseidon_hash(seq![h, n]),
{
}

/// A text on chain takes as many full words as its bytes fill, and says how many are left.
pub proof fn law_text_felts_count_the_bytes(text: Seq<char>)
    ensures
        ({
            let felts = text_felts(text);
            let len = encode_utf8(text).len();
            &&& felts.len() == len / 31 + 3
            &&& felts.last()@ == len % 31
        }),
{
    let len = encode_utf8(text).len();
    lemma_felt_of_number(felt(0), (len % 31) as int);
}

/// Without a whitelist every namespace is whitelisted; with one, exactly those on it are.
pub proof fn law_whitelist_is_exact(names: Vec<String>, namespace: Seq<char>)
    ensures
        whitelisted(None, namespace),
        forall|i: int|
            0 <= i < names@.len() ==> whitelisted(Some(names), (#[trigger] names@[i])@),
        (forall|i: int| 0 <= i < names@.len() ==> (#[trigger] names@[i])@ != namespace)
            ==> !whitelisted(Some(names), namespace),
{
}

/// The kinds of resources.
pub enum Kind {
    Contract,
    Model,
    Event,
    Namespace,
}

/// The kind of a resource.
pub open spec fn kind(resource: ResourceView) -> Kind {
    match resource {
        ResourceView::Contract { .. } => Kind::Contract,
        ResourceView::Model { .. } => Kind::Model,
        ResourceView::Event { .. } => Kind::Event,
        ResourceView::Namespace { .. } => Kind::Namespace,
    }
}

/// Whether a resource is a contract that is initialized.
pub open spec fn is_initialized(resource: ResourceView) -> bool {
    match resource {
        ResourceView::Contract { is_initialized, .. } => is_initialized,
        _ => false,
    }
}

/// What is recorded of a resource besides its kind and its initialization. A namespace has no
/// class and no address, and lies in itself.
pub open spec fn contents(resource: ResourceView) -> CommonView {
    match resource {
        ResourceView::Contract { common, .. } => common,
        ResourceView::Model { common } => common,
        ResourceView::Event { common } => common,
        ResourceView::Namespace { namespace } => CommonView {
            class_hashes: Seq::empty(),
            name: namespace.name,
            namespace: namespace.name,
            address: felt(0),
            metadata_hash: namespace.metadata_hash,
            owners: namespace.owners,
            writers: namespace.writers,
        },
    }
}

/// A resource is its kind, its initialization and its contents.
pub proof fn law_resource_is_its_contents(a: ResourceView, b: ResourceView)
    ensures
        a == b <==> kind(a) == kind(b) && is_initialized(a) == is_initialized(b) && contents(a)
            == contents(b),
{
}

/// The view of what resources have in common holds each field as it is.
pub proof fn law_common_view_shows_the_fields(common: CommonRemoteInfo)
    ensures
        common@.class_hashes == common.class_hashes@,
        common@.name == common.name@,
        common@.namespace == common.namespace@,
        common@.address == common.address,
        common@.metadata_hash == common.metadata_hash,
        common@.owners == common.owners@,
        common@.writers == common.writers@,
{
}

/// The view of a resource holds its kind and each field as it is.
pub proof fn law_resource_view_shows_the_fields(
    contract: ContractRemote,
    model: ModelRemote,
    event: EventRemote,
    namespace: NamespaceRemote,
)
    ensures
        ({
            let r = ResourceRemote::Contract(contract)@;
            &&& kind(r) is Contract
            &&& is_initialized(r) == contract.is_initialized
            &&& contents(r) == contract.common@
        }),
        kind(ResourceRemote::Model(model)@) is Model,
        contents(ResourceRemote::Model(model)@) == model.common@,
        kind(ResourceRemote::Event(event)@) is Event,
        contents(ResourceRemote::Event(event)@) == event.common@,
        ({
            let r = ResourceRemote::Namespace(namespace)@;
            &&& kind(r) is Namespace
            &&& contents(r).name == namespace.name@
            &&& contents(r).metadata_hash == namespace.metadata_hash
            &&& contents(r).owners == namespace.owners@
            &&& contents(r).writers == namespace.writers@
            &&& namespace@.name == namespace.name@
            &&& namespace@.metadata_hash == namespace.metadata_hash
            &&& namespace@.owners == namespace.owners@
            &&& namespace@.writers == namespace.writers@
        }),
{
}

/// The view of a world holds each field as it is, and each resource and each set by its view.
pub proof fn law_world_view_shows_the_fields(world: WorldRemote, k: Felt)
    ensures
        world@.address == world.address,
        world@.class_hashes == world.class_hashes@,
        world@.metadata_hash == world.metadata_hash,
        world@.resources.contains_key(k) <==> world.resources@.contains_key(k),
        world.resources@.contains_key(k) ==> world@.resources[k] == world.resources@[k]@,
        world@.external_writers.contains_key(k) <==> world.external_writers@.contains_key(k),
        world.external_writers@.contains_key(k) ==> world@.external_writers[k]
            == world.external_writers@[k]@,
        world@.external_owners.contains_key(k) <==> world.external_owners@.contains_key(k),
        world.external_owners@.contains_key(k) ==> world@.external_owners[k]
            == world.external_owners@[k]@,
{
}

/// A world of which no event is known has an address and nothing else.
pub proof fn law_unknown_world_is_empty(address: Felt, k: Felt)
    ensures
        ({
            let world = WorldView::unknown(address);
            &&& world.address == address
            &&& world.class_hashes.len() == 0
            &&& world.metadata_hash@ == 0
            &&& !world.resources.contains_key(k)
            &&& !world.external_writers.contains_key(k)
            &&& !world.external_owners.contains_key(k)
        }),
{
    lemma_felt_of_number(address, 0);
}

/// The view of a token is its text, and nothing where there is none.
pub proof fn law_token_view_is_the_text(token: Option<String>)
    ensures
        token is None ==> token_view(token) is None,
        token matches Some(text) ==> token_view(token) == Some(text@),
{
}

/// The view of a reply holds what the node said.
pub proof fn law_reply_view_shows_the_fields(reply: FetchReply)
    ensures
        match reply {
            FetchReply::ChainId(id) => reply@ is ChainId && reply@->id == id@,
            FetchReply::ClassFound => reply@ is ClassFound,
            FetchReply::ContractNotFound => reply@ is ContractNotFound,
            FetchReply::BlockNumber(number) => reply@ is BlockNumber && reply@->number == number,
            FetchReply::Events { events, continuation_token } => {
                &&& reply@ matches ReplyView::Events { events: page, continuation_token: token }
                &&& page == events@
                &&& token is Some == continuation_token is Some
                &&& continuation_token matches Some(text) ==> token == Some(text@)
            },
            FetchReply::Failed => reply@ is Failed,
        },
{
}

/// The view of a fetch holds how far it has come.
pub proof fn law_fetch_view_shows_the_fields(fetch: EventFetch)
    ensures
        fetch@.world_address == fetch.world_address,
        fetch@.from_block == fetch.from_block,
        match fetch.state {
            FetchState::AskChainId => fetch@.state is AskChainId,
            FetchState::AskClassHash { is_katana } => fetch@.state == (StateView::AskClassHash {
                is_katana,
            }),
            FetchState::AskBlockNumber { is_katana } => fetch@.state
                == (StateView::AskBlockNumber { is_katana }),
            FetchState::AskEvents {
                is_katana,
                to_block,
                window_from,
                window_to,
                continuation_token,
                events,
            } => {
                &&& fetch@.state is AskEvents
                &&& fetch@.state->AskEvents_is_katana == is_katana
                &&& fetch@.state->AskEvents_to_block == to_block
                &&& fetch@.state->AskEvents_window_from == window_from
                &&& fetch@.state->AskEvents_window_to == window_to
                &&& fetch@.state->AskEvents_continuation_token is Some
                    == continuation_token is Some
                &&& continuation_token matches Some(text)
                    ==> fetch@.state->AskEvents_continuation_token == Some(text@)
                &&& fetch@.state->AskEvents_events == events@
            },
            FetchState::Done { events } => fetch@.state is Done && fetch@.state->Done_events
                == events@,
            FetchState::Failed => fetch@.state is Failed,
        },
{
}

} // verus!
