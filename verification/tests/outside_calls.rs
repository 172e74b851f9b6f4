//! What the library has from other crates, held against those crates.
use cainome::cairo_serde::{self, CairoSerde};
use dojo_world::byte_array::{ByteArray, Bytes31};
use dojo_world::error::RemoteError;
use dojo_world::felt::Felt;
use dojo_world::fetch::event_keys;
use dojo_world::naming;
use starknet_crypto::poseidon_hash_many;
use starknet_types_core::felt::Felt as NodeFelt;

fn plain(felt: &NodeFelt) -> Felt {
    let digits = felt.to_be_digits();
    let high = ((digits[0] as u128) << 64) | digits[1] as u128;
    let low = ((digits[2] as u128) << 64) | digits[3] as u128;
    Felt::from_halves(high, low).unwrap()
}

fn outside_hash(text: &str) -> NodeFelt {
    let array = cairo_serde::ByteArray::from_string(text).unwrap();
    poseidon_hash_many(&cairo_serde::ByteArray::cairo_serialize(&array))
}

fn outside_selector(name: &str) -> NodeFelt {
    starknet::core::utils::get_selector_from_name(name).unwrap()
}

const LONG: &str = "a name that takes more than one word of a byte array, in fact three of them";

#[test]
fn text_is_packed_into_words() {
    let array = ByteArray::from_string("ABCDEFGHIJKLMNOPQRSTUVWXYZ12345ABCD");
    assert_eq!(array.data.len(), 1);
    assert_eq!(
        array.to_felts(),
        vec![
            Felt::from_u128(1),
            Felt::from_halves(
                0x004142434445464748494a4b4c4d4e4f,
                0x505152535455565758595a3132333435
            )
            .unwrap(),
            Felt::from_u128(0x41424344),
            Felt::from_u128(4),
        ]
    );
    assert_eq!(array.to_string(), Ok("ABCDEFGHIJKLMNOPQRSTUVWXYZ12345ABCD".to_string()));
}

#[test]
fn empty_text_has_no_words() {
    let array = ByteArray::from_string("");
    assert_eq!(array.to_felts(), vec![Felt::zero(), Felt::zero(), Felt::zero()]);
    assert_eq!(array.to_string(), Ok(String::new()));
}

#[test]
fn written_felts_are_those_of_the_serializer() {
    for text in ["", "ns", "ABCDEFGHIJKLMNOPQRSTUVWXYZ12345", LONG, "h\u{e9}llo"] {
        let outside = cairo_serde::ByteArray::from_string(text).unwrap();
        let expected: Vec<Felt> =
            cairo_serde::ByteArray::cairo_serialize(&outside).iter().map(plain).collect();
        assert_eq!(ByteArray::from_string(text).to_felts(), expected);
    }
}

#[test]
fn packed_text_is_read_back() {
    for text in ["", "ns", "ABCDEFGHIJKLMNOPQRSTUVWXYZ12345", LONG, "h\u{e9}llo"] {
        assert_eq!(ByteArray::from_string(text).to_string(), Ok(text.to_string()));
    }
}

#[test]
fn a_character_cut_by_a_word_is_not_read_back() {
    // The 31st and 32nd byte are one character.
    let text = "aaaaaaaaaaaaaaaaaaaaaaaaaaaaaa\u{e9}";
    assert_eq!(text.len(), 32);
    assert_eq!(ByteArray::from_string(text).to_string(), Err(RemoteError::InvalidUtf8));
}

#[test]
fn bytes_that_are_not_utf8_are_refused() {
    let array =
        ByteArray { data: vec![], pending_word: Felt::from_u128(0xff), pending_word_len: 1 };
    assert_eq!(array.to_string(), Err(RemoteError::InvalidUtf8));
    let word = Bytes31::new(Felt::from_u128(0xff)).unwrap();
    let array = ByteArray { data: vec![word], pending_word: Felt::zero(), pending_word_len: 0 };
    assert_eq!(array.to_string(), Err(RemoteError::InvalidUtf8));
}

#[test]
fn pending_word_gives_its_last_bytes() {
    let pending_word = Felt::from_u128(0x41424344);
    let array = ByteArray { data: vec![], pending_word, pending_word_len: 2 };
    assert_eq!(array.to_string(), Ok("CD".to_string()));
    let array = ByteArray { data: vec![], pending_word, pending_word_len: 32 };
    assert!(array.is_readable());
    assert_eq!(array.to_string().unwrap().len(), 32);
    let array = ByteArray { data: vec![], pending_word, pending_word_len: 33 };
    assert!(!array.is_readable());
}

#[test]
fn words_are_bounded_as_outside() {
    let most = NodeFelt::TWO.pow(248u32) - NodeFelt::ONE;
    assert!(cairo_serde::Bytes31::new(most).is_ok());
    assert!(Bytes31::new(plain(&most)).is_some());
    let over = NodeFelt::TWO.pow(248u32);
    assert!(cairo_serde::Bytes31::new(over).is_err());
    assert!(Bytes31::new(plain(&over)).is_none());
}

#[test]
fn elements_are_bounded_by_the_field() {
    assert_eq!(plain(&NodeFelt::MAX).halves(), (0x8000000000000110000000000000000, 0));
    assert_eq!(Felt::from_halves(0x8000000000000110000000000000000, 1), None);
    assert_eq!(Felt::from_halves(0x8000000000000110000000000000001, 0), None);
    assert!(Felt::from_halves(0x800000000000010ffffffffffffffff, u128::MAX).is_some());
}

#[test]
fn hashes_are_poseidon_hashes() {
    for text in ["", "ns", LONG] {
        assert_eq!(naming::compute_bytearray_hash(text), plain(&outside_hash(text)));
    }
    let expected = poseidon_hash_many(&[outside_hash("ns"), outside_hash("m")]);
    assert_eq!(naming::compute_selector_from_names("ns", "m"), plain(&expected));
    assert_eq!(
        naming::compute_selector_from_hashes(
            naming::compute_bytearray_hash("ns"),
            naming::compute_bytearray_hash("m")
        ),
        plain(&expected)
    );
    assert_ne!(
        naming::compute_selector_from_names("m", "ns"),
        naming::compute_selector_from_names("ns", "m")
    );
}

#[test]
fn event_keys_are_event_selectors() {
    let names = [
        "WorldSpawned",
        "WorldUpgraded",
        "NamespaceRegistered",
        "ModelRegistered",
        "EventRegistered",
        "ContractRegistered",
        "ModelUpgraded",
        "EventUpgraded",
        "ContractUpgraded",
        "ContractInitialized",
        "WriterUpdated",
        "OwnerUpdated",
        "MetadataUpdate",
    ];
    let expected: Vec<Felt> =
        names.iter().map(|name| plain(&outside_selector(name))).collect();
    assert_eq!(event_keys(), expected);
}
