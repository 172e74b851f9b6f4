//! The fetch of events, reply by reply.
use dojo_world::event::{WorldEvent, WorldUpgraded};
use dojo_world::felt::Felt;
use dojo_world::fetch::{
    event_keys, is_katana_chain, EventFetch, FetchReply, FetchRequest, FetchState,
};

fn upgraded(class_hash: u128) -> Option<WorldEvent> {
    Some(WorldEvent::WorldUpgraded(WorldUpgraded { class_hash: Felt::from_u128(class_hash) }))
}

fn page(events: Vec<Option<WorldEvent>>, token: Option<&str>) -> FetchReply {
    FetchReply::Events { events, continuation_token: token.map(|t| t.to_string()) }
}

fn katana() -> Felt {
    Felt::from_u128(0x4b4154414e41)
}

fn mainnet() -> Felt {
    Felt::from_u128(0x534e5f4d41494e)
}

fn sepolia() -> Felt {
    Felt::from_u128(0x534e5f5345504f4c4941)
}

fn at_events(chain_id: Felt, from_block: Option<u64>, block_number: u64) -> EventFetch {
    let fetch = EventFetch::new(Felt::from_u128(7), from_block);
    assert_eq!(fetch.request(), Some(FetchRequest::ChainId));
    let fetch = fetch.step(FetchReply::ChainId(chain_id));
    assert_eq!(fetch.request(), Some(FetchRequest::ClassHash { address: Felt::from_u128(7) }));
    let fetch = fetch.step(FetchReply::ClassFound);
    assert_eq!(fetch.request(), Some(FetchRequest::BlockNumber));
    let reply = FetchReply::BlockNumber(block_number);
    assert!(fetch.accepts(&reply));
    fetch.step(reply)
}

fn expect_window(fetch: &EventFetch, from_block: u64, to_block: u64, token: Option<&str>) {
    assert_eq!(
        fetch.request(),
        Some(FetchRequest::Events {
            address: Felt::from_u128(7),
            from_block,
            to_block,
            keys: event_keys(),
            continuation_token: token.map(|t| t.to_string()),
            chunk_size: 500,
        })
    );
}

#[test]
fn public_chains_are_no_katana() {
    assert!(!is_katana_chain(&mainnet()));
    assert!(!is_katana_chain(&sepolia()));
    assert!(is_katana_chain(&katana()));
    assert!(is_katana_chain(&Felt::zero()));
}

#[test]
fn windows_part_the_blocks() {
    let fetch = at_events(mainnet(), None, 120_000);
    expect_window(&fetch, 0, 49_999, None);
    let fetch = fetch.step(page(vec![], None));
    expect_window(&fetch, 50_000, 99_999, None);
    let fetch = fetch.step(page(vec![], None));
    expect_window(&fetch, 100_000, 120_000, None);
    let fetch = fetch.step(page(vec![], None));
    assert_eq!(fetch.request(), None);
    assert_eq!(fetch.into_events(), Some(vec![]));
}

#[test]
fn a_full_last_window_is_the_last() {
    let fetch = at_events(sepolia(), Some(10), 50_009);
    expect_window(&fetch, 10, 50_009, None);
    let fetch = fetch.step(page(vec![], None));
    assert_eq!(fetch.request(), None);
}

#[test]
fn one_block_is_one_window() {
    let fetch = at_events(sepolia(), Some(10), 10);
    expect_window(&fetch, 10, 10, None);
}

#[test]
fn nothing_is_asked_for_before_the_first_block() {
    let fetch = at_events(sepolia(), Some(11), 10);
    assert_eq!(fetch.request(), None);
    assert_eq!(fetch.into_events(), Some(vec![]));
}

#[test]
fn pages_are_gathered_in_order() {
    let fetch = at_events(mainnet(), Some(5), 60_000);
    expect_window(&fetch, 5, 50_004, None);
    let fetch = fetch.step(page(vec![upgraded(1), None], Some("next")));
    expect_window(&fetch, 5, 50_004, Some("next"));
    let fetch = fetch.step(page(vec![upgraded(2)], None));
    expect_window(&fetch, 50_005, 60_000, None);
    assert_eq!(fetch.into_events(), None);
    let fetch = at_events(mainnet(), Some(5), 60_000)
        .step(page(vec![upgraded(1), None], Some("next")))
        .step(page(vec![upgraded(2)], None))
        .step(page(vec![upgraded(3)], None));
    assert_eq!(
        fetch.into_events(),
        Some(vec![upgraded(1), None, upgraded(2), upgraded(3)])
    );
}

#[test]
fn an_empty_page_ends_a_window_on_a_katana_only() {
    let fetch = at_events(katana(), None, 60_000).step(page(vec![], Some("next")));
    expect_window(&fetch, 50_000, 60_000, None);
    let fetch = at_events(mainnet(), None, 60_000).step(page(vec![], Some("next")));
    expect_window(&fetch, 0, 49_999, Some("next"));
    let fetch = at_events(katana(), None, 60_000).step(page(vec![upgraded(1)], Some("next")));
    expect_window(&fetch, 0, 49_999, Some("next"));
}

#[test]
fn no_contract_means_no_events() {
    let fetch = EventFetch::new(Felt::from_u128(7), None)
        .step(FetchReply::ChainId(katana()))
        .step(FetchReply::ContractNotFound);
    assert_eq!(fetch.request(), None);
    assert_eq!(fetch.into_events(), Some(vec![]));
}

#[test]
fn a_failed_request_ends_the_fetch() {
    let fetch = EventFetch::new(Felt::from_u128(7), None).step(FetchReply::Failed);
    assert_eq!(fetch.state, FetchState::Failed);
    assert_eq!(fetch.request(), None);
    assert_eq!(fetch.into_events(), None);
    let fetch = at_events(mainnet(), None, 3).step(FetchReply::Failed);
    assert_eq!(fetch.into_events(), None);
}

#[test]
fn replies_that_do_not_fit_are_not_accepted() {
    let fetch = EventFetch::new(Felt::from_u128(7), None);
    assert!(!fetch.accepts(&FetchReply::ClassFound));
    assert!(!fetch.accepts(&FetchReply::ContractNotFound));
    assert!(fetch.accepts(&FetchReply::Failed));
    let fetch = fetch.step(FetchReply::Failed);
    assert!(!fetch.accepts(&FetchReply::Failed));
}

#[test]
fn blocks_that_cannot_be_numbered_are_not_accepted() {
    let fetch = EventFetch::new(Felt::from_u128(7), Some(u64::MAX - 50_000))
        .step(FetchReply::ChainId(mainnet()))
        .step(FetchReply::ClassFound);
    assert!(fetch.accepts(&FetchReply::BlockNumber(u64::MAX)));
    let fetch = fetch.step(FetchReply::BlockNumber(u64::MAX));
    expect_window(&fetch, u64::MAX - 50_000, u64::MAX - 1, None);
    assert!(!fetch.accepts(&page(vec![], None)));
    assert!(fetch.accepts(&page(vec![], Some("next"))));
    let fetch = EventFetch::new(Felt::from_u128(7), Some(u64::MAX - 49_999))
        .step(FetchReply::ChainId(mainnet()))
        .step(FetchReply::ClassFound);
    assert!(!fetch.accepts(&FetchReply::BlockNumber(u64::MAX)));
    assert!(fetch.accepts(&FetchReply::BlockNumber(3)));
}
