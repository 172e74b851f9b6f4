//! How the events of a world are fetched: which request comes next, and what its reply means.
use vstd::prelude::*;
use vstd::utf8::is_ascii_chars;

use crate::event::WorldEvent;
use crate::felt::{lemma_felt_is_its_number, Felt};

verus! {

/// The most blocks that one request for events spans.
pub const MAX_BLOCK_RANGE: u64 = 50_000;

/// The most events that one page holds.
pub const CHUNK_SIZE: u64 = 500;

/// The chain id of Starknet Sepolia: `SN_SEPOLIA` as a number.
pub const SN_SEPOLIA: u128 = 0x534e5f5345504f4c4941;

/// The chain id of Starknet mainnet: `SN_MAIN` as a number.
pub const SN_MAIN: u128 = 0x534e5f4d41494e;

/// The selector of an event, as `starknet::core::utils::get_selector_from_name` computes it.
pub uninterp spec fn event_selector(name: Seq<char>) -> Felt;

/// Calls `starknet::core::utils::get_selector_from_name`, which gives a selector for every
/// ASCII name and refuses the others. The selector depends on the name alone; which element
/// it is for a given name is not stated.
#[verifier::external_body]
fn get_selector_from_name(name: &str) -> (r: Option<Felt>)
    ensures
        r is Some == is_ascii_chars(name@),
        r matches Some(selector) ==> selector == event_selector(name@),
{
    let bytes = starknet::core::utils::get_selector_from_name(name).ok()?.to_bytes_be();
    Some(
        Felt {
            high: u128::from_be_bytes(bytes[..16].try_into().unwrap()),
            low: u128::from_be_bytes(bytes[16..].try_into().unwrap()),
        },
    )
}

/// The events that tell how resources are managed. The others, by which data is set,
/// deleted and emitted, are not asked for.
pub open spec fn management_events() -> Seq<Seq<char>> {
    seq![
        "WorldSpawned"@,
        "WorldUpgraded"@,
        "NamespaceRegistered"@,
        "ModelRegistered"@,
        "EventRegistered"@,
        "ContractRegistered"@,
        "ModelUpgraded"@,
        "EventUpgraded"@,
        "ContractUpgraded"@,
        "ContractInitialized"@,
        "WriterUpdated"@,
        "OwnerUpdated"@,
        "MetadataUpdate"@,
    ]
}

/// The keys by which the management events are asked for.
pub fn event_keys() -> (r: Vec<Felt>)
    ensures
        r@ == management_events().map_values(|name: Seq<char>| event_selector(name)),
{
    proof {
        reveal_strlit("WorldSpawned");
        reveal_strlit("WorldUpgraded");
        reveal_strlit("NamespaceRegistered");
        reveal_strlit("ModelRegistered");
        reveal_strlit("EventRegistered");
        reveal_strlit("ContractRegistered");
        reveal_strlit("ModelUpgraded");
        reveal_strlit("EventUpgraded");
        reveal_strlit("ContractUpgraded");
        reveal_strlit("ContractInitialized");
        reveal_strlit("WriterUpdated");
        reveal_strlit("OwnerUpdated");
        reveal_strlit("MetadataUpdate");
    }
    let mut keys: Vec<Felt> = Vec::new();
    keys.push(get_selector_from_name("WorldSpawned").unwrap());
    keys.push(get_selector_from_name("WorldUpgraded").unwrap());
    keys.push(get_selector_from_name("NamespaceRegistered").unwrap());
    keys.push(get_selector_from_name("ModelRegistered").unwrap());
    keys.push(get_selector_from_name("EventRegistered").unwrap());
    keys.push(get_selector_from_name("ContractRegistered").unwrap());
    keys.push(get_selector_from_name("ModelUpgraded").unwrap());
    keys.push(get_selector_from_name("EventUpgraded").unwrap());
    keys.push(get_selector_from_name("ContractUpgraded").unwrap());
    keys.push(get_selector_from_name("ContractInitialized").unwrap());
    keys.push(get_selector_from_name("WriterUpdated").unwrap());
    keys.push(get_selector_from_name("OwnerUpdated").unwrap());
    keys.push(get_selector_from_name("MetadataUpdate").unwrap());
    assert(keys@ =~= management_events().map_values(|name: Seq<char>| event_selector(name)));
    keys
}

/// Whether a chain is a Katana: any chain but Starknet's two public ones.
pub fn is_katana_chain(chain_id: &Felt) -> (r: bool)
    ensures
        r == (chain_id@ != SN_SEPOLIA && chain_id@ != SN_MAIN),
{
    let sepolia: Felt = Felt::from_u128(SN_SEPOLIA);
    let main: Felt = Felt::from_u128(SN_MAIN);
    proof {
        lemma_felt_is_its_number(*chain_id, sepolia);
        lemma_felt_is_its_number(*chain_id, main);
    }
    *chain_id != sepolia && *chain_id != main
}

/// The last block of the window that starts at a block.
pub open spec fn window_end(from_block: int, to_block: int) -> int {
    if from_block + MAX_BLOCK_RANGE - 1 < to_block {
        from_block + MAX_BLOCK_RANGE - 1
    } else {
        to_block
    }
}

/// A request to the node that the world is read from.
#[derive(Debug, PartialEq, Eq)]
pub enum FetchRequest {
    /// The id of the chain.
    ChainId,
    /// The class hash of the contract at an address, in the pending block.
    ClassHash { address: Felt },
    /// The number of the latest block.
    BlockNumber,
    /// A page of the events of a contract: those whose first key is among `keys`, in the
    /// blocks from `from_block` to `to_block`.
    Events {
        address: Felt,
        from_block: u64,
        to_block: u64,
        keys: Vec<Felt>,
        continuation_token: Option<String>,
        chunk_size: u64,
    },
}

/// What the node replied.
#[derive(Debug, PartialEq, Eq)]
pub enum FetchReply {
    ChainId(Felt),
    /// There is a contract at the address.
    ClassFound,
    /// There is no contract at the address.
    ContractNotFound,
    BlockNumber(u64),
    /// A page of events, `None` for each that could not be parsed, and where to go on.
    Events { events: Vec<Option<WorldEvent>>, continuation_token: Option<String> },
    /// The request failed.
    Failed,
}

/// How far the fetch has come.
#[derive(Debug, PartialEq, Eq)]
pub enum FetchState {
    AskChainId,
    AskClassHash { is_katana: bool },
    AskBlockNumber { is_katana: bool },
    /// Pages of the window from `window_from` to `window_to` are asked for, after those that
    /// brought `events`.
    AskEvents {
        is_katana: bool,
        to_block: u64,
        window_from: u64,
        window_to: u64,
        continuation_token: Option<String>,
        events: Vec<Option<WorldEvent>>,
    },
    /// All events are there.
    Done { events: Vec<Option<WorldEvent>> },
    /// A request failed.
    Failed,
}

/// The fetch of the events of one world.
#[derive(Debug, PartialEq, Eq)]
pub struct EventFetch {
    pub world_address: Felt,
    /// The first block that is looked at.
    pub from_block: u64,
    pub state: FetchState,
}

/// The contents of a [`FetchReply`].
#[verifier::ext_equal]
pub enum ReplyView {
    ChainId { id: int },
    ClassFound,
    ContractNotFound,
    BlockNumber { number: int },
    Events { events: Seq<Option<WorldEvent>>, continuation_token: Option<Seq<char>> },
    Failed,
}

/// The contents of a [`FetchState`].
#[verifier::ext_equal]
pub enum StateView {
    AskChainId,
    AskClassHash { is_katana: bool },
    AskBlockNumber { is_katana: bool },
    AskEvents {
        is_katana: bool,
        to_block: int,
        window_from: int,
        window_to: int,
        continuation_token: Option<Seq<char>>,
        events: Seq<Option<WorldEvent>>,
    },
    Done { events: Seq<Option<WorldEvent>> },
    Failed,
}

/// The contents of an [`EventFetch`].
#[verifier::ext_equal]
pub struct FetchView {
    pub world_address: Felt,
    pub from_block: int,
    pub state: StateView,
}

/// The text of a continuation token.
pub open spec fn token_view(token: Option<String>) -> Option<Seq<char>> {
    match token {
        Some(text) => Some(text@),
        None => None,
    }
}

impl View for FetchReply {
    type V = ReplyView;

    open spec fn view(&self) -> ReplyView {
        match *self {
            FetchReply::ChainId(id) => ReplyView::ChainId { id: id@ },
            FetchReply::ClassFound => ReplyView::ClassFound,
            FetchReply::ContractNotFound => ReplyView::ContractNotFound,
            FetchReply::BlockNumber(number) => ReplyView::BlockNumber { number: number as int },
            FetchReply::Events { events, continuation_token } => ReplyView::Events {
                events: events@,
                continuation_token: token_view(continuation_token),
            },
            FetchReply::Failed => ReplyView::Failed,
        }
    }
}

impl View for FetchState {
    type V = StateView;

    open spec fn view(&self) -> StateView {
        match *self {
            FetchState::AskChainId => StateView::AskChainId,
            FetchState::AskClassHash { is_katana } => StateView::AskClassHash { is_katana },
            FetchState::AskBlockNumber { is_katana } => StateView::AskBlockNumber { is_katana },
            FetchState::AskEvents {
                is_katana,
                to_block,
                window_from,
                window_to,
                continuation_token,
                events,
            } => StateView::AskEvents {
                is_katana,
                to_block: to_block as int,
                window_from: window_from as int,
                window_to: window_to as int,
                continuation_token: token_view(continuation_token),
                events: events@,
            },
            FetchState::Done { events } => StateView::Done { events: events@ },
            FetchState::Failed => StateView::Failed,
        }
    }
}

impl View for EventFetch {
    type V = FetchView;

    open spec fn view(&self) -> FetchView {
        FetchView {
            world_address: self.world_address,
            from_block: self.from_block as int,
            state: self.state@,
        }
    }
}

/// Asking for the window that starts at a block, or the end where no block is left.
pub open spec fn at_window(
    is_katana: bool,
    from_block: int,
    to_block: int,
    events: Seq<Option<WorldEvent>>,
) -> StateView {
    if from_block <= to_block {
        StateView::AskEvents {
            is_katana,
            to_block,
            window_from: from_block,
            window_to: window_end(from_block, to_block),
            continuation_token: None,
            events,
        }
    } else {
        StateView::Done { events }
    }
}

/// Whether a page is the last of its window: nothing comes after it, or it is an empty page
/// of a Katana, whatever token it carries.
pub open spec fn last_page(
    is_katana: bool,
    page: Seq<Option<WorldEvent>>,
    continuation_token: Option<Seq<char>>,
) -> bool {
    continuation_token is None || (is_katana && page.len() == 0)
}

impl FetchView {
    /// The start of a fetch.
    pub open spec fn start(world_address: Felt, from_block: Option<u64>) -> FetchView {
        FetchView {
            world_address,
            from_block: match from_block {
                Some(block) => block as int,
                None => 0,
            },
            state: StateView::AskChainId,
        }
    }

    /// Whether a reply can be taken: it answers what was asked, and the blocks of the next
    /// window can be numbered.
    pub open spec fn accepts(self, reply: ReplyView) -> bool {
        match (self.state, reply) {
            (StateView::Done { .. }, _) => false,
            (StateView::Failed, _) => false,
            (_, ReplyView::Failed) => true,
            (StateView::AskChainId, ReplyView::ChainId { .. }) => true,
            (StateView::AskClassHash { .. }, ReplyView::ClassFound) => true,
            (StateView::AskClassHash { .. }, ReplyView::ContractNotFound) => true,
            (StateView::AskBlockNumber { .. }, ReplyView::BlockNumber { number }) => self.from_block
                <= number ==> self.from_block + MAX_BLOCK_RANGE <= u64::MAX,
            (
                StateView::AskEvents { is_katana, to_block, window_to, .. },
                ReplyView::Events { events, continuation_token },
            ) => last_page(is_katana, events, continuation_token) ==> {
                &&& window_to + 1 <= u64::MAX
                &&& window_to + 1 <= to_block ==> window_to + 1 + MAX_BLOCK_RANGE <= u64::MAX
            },
            _ => false,
        }
    }

    /// The fetch after a reply that it accepts.
    pub open spec fn next(self, reply: ReplyView) -> FetchView {
        let state = match (self.state, reply) {
            (StateView::AskChainId, ReplyView::ChainId { id }) => StateView::AskClassHash {
                is_katana: id != SN_SEPOLIA && id != SN_MAIN,
            },
            (
                StateView::AskClassHash { is_katana },
                ReplyView::ClassFound,
            ) => StateView::AskBlockNumber { is_katana },
            // Where no contract is, there are no events.
            (StateView::AskClassHash { .. }, ReplyView::ContractNotFound) => StateView::Done {
                events: Seq::empty(),
            },
            (
                StateView::AskBlockNumber { is_katana },
                ReplyView::BlockNumber { number },
            ) => at_window(is_katana, self.from_block, number, Seq::empty()),
            (
                StateView::AskEvents { is_katana, to_block, window_from, window_to, events, .. },
                ReplyView::Events { events: page, continuation_token },
            ) => if last_page(is_katana, page, continuation_token) {
                at_window(is_katana, window_to + 1, to_block, events + page)
            } else {
                StateView::AskEvents {
                    is_katana,
                    to_block,
                    window_from,
                    window_to,
                    continuation_token,
                    events: events + page,
                }
            },
            _ => StateView::Failed,
        };
        FetchView { state, ..self }
    }
}

/// Asks for the window that starts at a block, or ends where no block is left.
fn open_window(
    is_katana: bool,
    from_block: u64,
    to_block: u64,
    events: Vec<Option<WorldEvent>>,
) -> (r: FetchState)
    requires
        from_block <= to_block ==> from_block + MAX_BLOCK_RANGE <= u64::MAX,
    ensures
        r@ == at_window(is_katana, from_block as int, to_block as int, events@),
{
    if from_block <= to_block {
        let full: u64 = from_block + MAX_BLOCK_RANGE - 1;
        FetchState::AskEvents {
            is_katana,
            to_block,
            window_from: from_block,
            window_to: if full < to_block {
                full
            } else {
                to_block
            },
            continuation_token: None,
            events,
        }
    } else {
        FetchState::Done { events }
    }
}

impl EventFetch {
    /// Starts the fetch of the events of the world at an address, from a block on or from
    /// the first one.
    pub fn new(world_address: Felt, from_block: Option<u64>) -> (r: EventFetch)
        ensures
            r@ == FetchView::start(world_address, from_block),
    {
        EventFetch {
            world_address,
            from_block: match from_block {
                Some(block) => block,
                None => 0,
            },
            state: FetchState::AskChainId,
        }
    }

    /// The request to make now; none where the fetch is over.
    pub fn request(&self) -> (r: Option<FetchRequest>)
        ensures
            match self.state {
                FetchState::AskChainId => r == Some(FetchRequest::ChainId),
                FetchState::AskClassHash { .. } => r == Some(
                    FetchRequest::ClassHash { address: self.world_address },
                ),
                FetchState::AskBlockNumber { .. } => r == Some(FetchRequest::BlockNumber),
                FetchState::AskEvents { window_from, window_to, continuation_token: token, .. } => {
                    &&& r matches Some(
                        FetchRequest::Events {
                            address,
                            from_block,
                            to_block,
                            keys,
                            continuation_token,
                            chunk_size,
                        },
                    )
                    &&& address == self.world_address
                    &&& from_block == window_from
                    &&& to_block == window_to
                    &&& keys@ == management_events().map_values(
                        |name: Seq<char>| event_selector(name),
                    )
                    &&& token_view(continuation_token) == token_view(token)
                    &&& token is None ==> continuation_token is None
                    &&& token matches Some(text) ==> continuation_token is Some
                        && continuation_token->0@ == text@
                    &&& chunk_size == CHUNK_SIZE
                    &&& chunk_size == 500
                },
                FetchState::Done { .. } => r is None,
                FetchState::Failed => r is None,
            },
    {
        match &self.state {
            FetchState::AskChainId => Some(FetchRequest::ChainId),
            FetchState::AskClassHash { .. } => Some(
                FetchRequest::ClassHash { address: self.world_address },
            ),
            FetchState::AskBlockNumber { .. } => Some(FetchRequest::BlockNumber),
            FetchState::AskEvents { window_from, window_to, continuation_token, .. } => Some(
                FetchRequest::Events {
                    address: self.world_address,
                    from_block: *window_from,
                    to_block: *window_to,
                    keys: event_keys(),
                    continuation_token: match continuation_token {
                        Some(token) => Some(token.clone()),
                        None => None,
                    },
                    chunk_size: CHUNK_SIZE,
                },
            ),
            FetchState::Done { .. } => None,
            FetchState::Failed => None,
        }
    }

    /// Whether the reply can be taken.
    pub fn accepts(&self, reply: &FetchReply) -> (r: bool)
        ensures
            r == self@.accepts(reply@),
    {
        match (&self.state, reply) {
            (FetchState::Done { .. }, _) => false,
            (FetchState::Failed, _) => false,
            (_, FetchReply::Failed) => true,
            (FetchState::AskChainId, FetchReply::ChainId(_)) => true,
            (FetchState::AskClassHash { .. }, FetchReply::ClassFound) => true,
            (FetchState::AskClassHash { .. }, FetchReply::ContractNotFound) => true,
            (FetchState::AskBlockNumber { .. }, FetchReply::BlockNumber(number)) => self.from_block
                > *number || self.from_block <= u64::MAX - MAX_BLOCK_RANGE,
            (
                FetchState::AskEvents { is_katana, to_block, window_to, .. },
                FetchReply::Events { events, continuation_token },
            ) => {
                if continuation_token.is_some() && !(*is_katana && events.len() == 0) {
                    true
                } else {
                    *window_to < u64::MAX && (*window_to >= *to_block || *window_to < u64::MAX
                        - MAX_BLOCK_RANGE)
                }
            },
            _ => false,
        }
    }

    /// Takes the reply to the request that was made.
    pub fn step(self, reply: FetchReply) -> (r: EventFetch)
        requires
            self@.accepts(reply@),
        ensures
            r@ == self@.next(reply@),
    {
        let EventFetch { world_address, from_block, state } = self;
        let state: FetchState = match (state, reply) {
            (FetchState::AskChainId, FetchReply::ChainId(id)) => FetchState::AskClassHash {
                is_katana: is_katana_chain(&id),
            },
            (
                FetchState::AskClassHash { is_katana },
                FetchReply::ClassFound,
            ) => FetchState::AskBlockNumber { is_katana },
            (FetchState::AskClassHash { .. }, FetchReply::ContractNotFound) => FetchState::Done {
                events: Vec::new(),
            },
            (
                FetchState::AskBlockNumber { is_katana },
                FetchReply::BlockNumber(number),
            ) => open_window(is_katana, from_block, number, Vec::new()),
            (
                FetchState::AskEvents { is_katana, to_block, window_from, window_to, events, .. },
                FetchReply::Events { events: mut page, continuation_token },
            ) => {
                let last: bool = continuation_token.is_none() || (is_katana && page.len() == 0);
                let mut events: Vec<Option<WorldEvent>> = events;
                events.append(&mut page);
                if last {
                    open_window(is_katana, window_to + 1, to_block, events)
                } else {
                    FetchState::AskEvents {
                        is_katana,
                        to_block,
                        window_from,
                        window_to,
                        continuation_token,
                        events,
                    }
                }
            },
            _ => FetchState::Failed,
        };
        EventFetch { world_address, from_block, state }
    }

    /// The events that were fetched, in order; none where the fetch is not done.
    pub fn into_events(self) -> (r: Option<Vec<Option<WorldEvent>>>)
        ensures
            match self.state {
                FetchState::Done { events } => r == Some(events),
                _ => r is None,
            },
    {
        match self.state {
            FetchState::Done { events } => Some(events),
            _ => None,
        }
    }
}

} // verus!
