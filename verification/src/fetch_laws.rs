//! What each reply of the node does to a fetch, and what a whole fetch keeps.
use vstd::prelude::*;

use crate::event::WorldEvent;
use crate::felt::Felt;
use crate::fetch::{management_events, FetchView, ReplyView, StateView};
use crate::laws::{run, run_accepts};

verus! {

/// The name under which a world emits an event; none for the events about data.
pub open spec fn event_name(event: WorldEvent) -> Option<Seq<char>> {
    match event {
        WorldEvent::WorldSpawned(_) => Some("WorldSpawned"@),
        WorldEvent::WorldUpgraded(_) => Some("WorldUpgraded"@),
        WorldEvent::NamespaceRegistered(_) => Some("NamespaceRegistered"@),
        WorldEvent::ModelRegistered(_) => Some("ModelRegistered"@),
        WorldEvent::EventRegistered(_) => Some("EventRegistered"@),
        WorldEvent::ContractRegistered(_) => Some("ContractRegistered"@),
        WorldEvent::ModelUpgraded(_) => Some("ModelUpgraded"@),
        WorldEvent::EventUpgraded(_) => Some("EventUpgraded"@),
        WorldEvent::ContractUpgraded(_) => Some("ContractUpgraded"@),
        WorldEvent::ContractInitialized(_) => Some("ContractInitialized"@),
        WorldEvent::WriterUpdated(_) => Some("WriterUpdated"@),
        WorldEvent::OwnerUpdated(_) => Some("OwnerUpdated"@),
        WorldEvent::MetadataUpdate(_) => Some("MetadataUpdate"@),
        WorldEvent::Other => None,
    }
}

/// Every event that can change a world is asked for, each by its own name, and there are 13 of
/// them.
pub proof fn law_every_management_event_is_asked_for(event: WorldEvent)
    ensures
        event is Other || management_events().contains(event_name(event)->0),
        management_events().len() == 13,
{
    let names = management_events();
    assert(names[0] == "WorldSpawned"@ && names[1] == "WorldUpgraded"@);
    assert(names[2] == "NamespaceRegistered"@ && names[3] == "ModelRegistered"@);
    assert(names[4] == "EventRegistered"@ && names[5] == "ContractRegistered"@);
    assert(names[6] == "ModelUpgraded"@ && names[7] == "EventUpgraded"@);
    assert(names[8] == "ContractUpgraded"@ && names[9] == "ContractInitialized"@);
    assert(names[10] == "WriterUpdated"@ && names[11] == "OwnerUpdated"@);
    assert(names[12] == "MetadataUpdate"@);
}

/// A fetch starts at the block that was asked for, or at the first one, and first asks for the
/// chain.
pub proof fn law_fetch_starts_at_the_block(world_address: Felt, from_block: Option<u64>)
    ensures
        FetchView::start(world_address, from_block).world_address == world_address,
        from_block matches Some(block) ==> FetchView::start(world_address, from_block).from_block
            == block,
        from_block is None ==> FetchView::start(world_address, from_block).from_block == 0,
        FetchView::start(world_address, from_block).state is AskChainId,
{
}

/// Whatever is replied, a fetch is of the same world and from the same block on.
pub proof fn law_reply_keeps_what_is_fetched(fetch: FetchView, reply: ReplyView)
    ensures
        fetch.next(reply).world_address == fetch.world_address,
        fetch.next(reply).from_block == fetch.from_block,
{
}

/// A request that fails ends the fetch, whatever was asked for; once it is over, it takes no
/// reply.
pub proof fn law_failure_ends_the_fetch(fetch: FetchView, reply: ReplyView)
    ensures
        fetch.state is Done || fetch.state is Failed ==> !fetch.accepts(reply),
        !(fetch.state is Done || fetch.state is Failed) ==> {
            &&& fetch.accepts(ReplyView::Failed)
            &&& fetch.next(ReplyView::Failed).state is Failed
        },
        fetch.accepts(reply) && !(reply is Failed) ==> !(fetch.next(reply).state is Failed),
{
}

/// A reply is taken where it answers what was asked for.
pub proof fn law_only_answers_are_taken(fetch: FetchView, reply: ReplyView)
    requires
        !(reply is Failed),
    ensures
        fetch.accepts(reply) ==> match fetch.state {
            StateView::AskChainId => reply is ChainId,
            StateView::AskClassHash { .. } => reply is ClassFound || reply is ContractNotFound,
            StateView::AskBlockNumber { .. } => reply is BlockNumber,
            StateView::AskEvents { .. } => reply is Events,
            _ => false,
        },
        fetch.state is AskChainId && reply is ChainId ==> fetch.accepts(reply),
        fetch.state is AskClassHash && (reply is ClassFound || reply is ContractNotFound)
            ==> fetch.accepts(reply),
{
}

/// A chain other than Starknet's two public ones is a Katana: Sepolia and mainnet, by their
/// ids.
pub open spec fn katana(id: int) -> bool {
    id != 0x534e5f5345504f4c4941int && id != 0x534e5f4d41494eint
}

/// The id of the chain decides whether it is a Katana; then the contract is asked for.
pub proof fn law_chain_id_tells_a_katana(fetch: FetchView, id: int)
    requires
        fetch.state is AskChainId,
    ensures
        ({
            let after = fetch.next(ReplyView::ChainId { id });
            &&& after.state is AskClassHash
            &&& after.state->AskClassHash_is_katana == katana(id)
        }),
{
}

/// Where the contract is there, the latest block is asked for; where it is not, the fetch is
/// done without events.
pub proof fn law_contract_is_looked_up(fetch: FetchView)
    requires
        fetch.state is AskClassHash,
    ensures
        ({
            let found = fetch.next(ReplyView::ClassFound).state;
            &&& found is AskBlockNumber
            &&& found->AskBlockNumber_is_katana == fetch.state->AskClassHash_is_katana
        }),
        ({
            let missing = fetch.next(ReplyView::ContractNotFound).state;
            missing is Done && missing->Done_events.len() == 0
        }),
{
}

/// The state asks for the first page of a window: from a block on, up to the last block and
/// 50,000 blocks at most, and no fewer than it may.
pub open spec fn opens_window(
    state: StateView,
    is_katana: bool,
    from_block: int,
    to_block: int,
    events: Seq<Option<WorldEvent>>,
) -> bool {
    &&& state is AskEvents
    &&& state->AskEvents_is_katana == is_katana
    &&& state->AskEvents_to_block == to_block
    &&& state->AskEvents_window_from == from_block
    &&& from_block <= state->AskEvents_window_to <= to_block
    &&& state->AskEvents_window_to - from_block < 50_000
    &&& state->AskEvents_window_to == to_block || state->AskEvents_window_to - from_block
        == 49_999
    &&& state->AskEvents_continuation_token is None
    &&& state->AskEvents_events == events
}

/// The latest block opens the first window, from the first block on; where that block is not
/// there yet, the fetch is done without events. The reply is taken unless the blocks of a
/// whole window cannot be numbered.
pub proof fn law_latest_block_opens_first_window(fetch: FetchView, number: int)
    requires
        fetch.state is AskBlockNumber,
    ensures
        fetch.accepts(ReplyView::BlockNumber { number }) <==> fetch.from_block > number
            || fetch.from_block + 50_000 <= u64::MAX,
        ({
            let after = fetch.next(ReplyView::BlockNumber { number }).state;
            if fetch.from_block <= number {
                opens_window(
                    after,
                    fetch.state->AskBlockNumber_is_katana,
                    fetch.from_block,
                    number,
                    Seq::empty(),
                )
            } else {
                after is Done && after->Done_events.len() == 0
            }
        }),
{
}

/// A page is added to what was gathered. Where it carries a token, the next page of the same
/// window is asked for by it, but for an empty page of a Katana; else the window that follows
/// is asked for, or the fetch is done where no block is left. On no other account does
/// anything of the fetch change. The page is taken unless the blocks after the window cannot
/// be numbered.
pub proof fn law_page_is_added_and_followed(
    fetch: FetchView,
    page: Seq<Option<WorldEvent>>,
    token: Option<Seq<char>>,
)
    requires
        fetch.state is AskEvents,
    ensures
        ({
            let reply = ReplyView::Events { events: page, continuation_token: token };
            let is_katana = fetch.state->AskEvents_is_katana;
            let to_block = fetch.state->AskEvents_to_block;
            let window_to = fetch.state->AskEvents_window_to;
            let gathered = fetch.state->AskEvents_events + page;
            let after = fetch.next(reply).state;
            if token is Some && !(is_katana && page.len() == 0) {
                &&& fetch.accepts(reply)
                &&& after is AskEvents
                &&& after->AskEvents_is_katana == is_katana
                &&& after->AskEvents_to_block == to_block
                &&& after->AskEvents_window_from == fetch.state->AskEvents_window_from
                &&& after->AskEvents_window_to == window_to
                &&& after->AskEvents_continuation_token == token
                &&& after->AskEvents_events == gathered
            } else {
                &&& fetch.accepts(reply) <==> window_to < u64::MAX && (window_to >= to_block
                    || window_to + 1 + 50_000 <= u64::MAX)
                &&& window_to < to_block ==> opens_window(
                    after,
                    is_katana,
                    window_to + 1,
                    to_block,
                    gathered,
                )
                &&& window_to >= to_block ==> after is Done && after->Done_events == gathered
            }
        }),
{
}

/// The id of the chain that was replied, if one was.
pub open spec fn replied_chain(replies: Seq<ReplyView>) -> Option<int>
    decreases replies.len(),
{
    if replies.len() == 0 {
        None
    } else {
        match replies.last() {
            ReplyView::ChainId { id } => Some(id),
            _ => replied_chain(replies.drop_last()),
        }
    }
}

/// From the reply with the id of the chain on, and in every window, a fetch takes the chain
/// for a Katana exactly where that id says so.
pub proof fn law_chain_is_fixed_by_its_id(
    world_address: Felt,
    from_block: Option<u64>,
    replies: Seq<ReplyView>,
)
    requires
        run_accepts(FetchView::start(world_address, from_block), replies),
    ensures
        match run(FetchView::start(world_address, from_block), replies).state {
            StateView::AskChainId => replied_chain(replies) is None,
            StateView::AskClassHash { is_katana } => replied_chain(replies) is Some && is_katana
                == katana(replied_chain(replies)->0),
            StateView::AskBlockNumber { is_katana } => replied_chain(replies) is Some && is_katana
                == katana(replied_chain(replies)->0),
            StateView::AskEvents { is_katana, .. } => replied_chain(replies) is Some && is_katana
                == katana(replied_chain(replies)->0),
            _ => true,
        },
    decreases replies.len(),
{
    if replies.len() > 0 {
        law_chain_is_fixed_by_its_id(world_address, from_block, replies.drop_last());
    }
}

/// On Starknet's public chains a page with a token is always followed by a request with that
/// token for the same window, whether the page is empty or not and whichever window it is of.
pub proof fn law_public_chains_follow_every_token(
    world_address: Felt,
    from_block: Option<u64>,
    replies: Seq<ReplyView>,
    page: Seq<Option<WorldEvent>>,
    token: Seq<char>,
)
    requires
        run_accepts(FetchView::start(world_address, from_block), replies),
        replied_chain(replies) is Some,
        !katana(replied_chain(replies)->0),
        run(FetchView::start(world_address, from_block), replies).state is AskEvents,
    ensures
        ({
            let before = run(FetchView::start(world_address, from_block), replies);
            let reply = ReplyView::Events { events: page, continuation_token: Some(token) };
            let after = before.next(reply).state;
            &&& before.accepts(reply)
            &&& after is AskEvents
            &&& after->AskEvents_continuation_token == Some(token)
            &&& after->AskEvents_window_from == before.state->AskEvents_window_from
            &&& after->AskEvents_window_to == before.state->AskEvents_window_to
            &&& after->AskEvents_events == before.state->AskEvents_events + page
        }),
{
    law_chain_is_fixed_by_its_id(world_address, from_block, replies);
}

} // verus!
