//! Cairo byte arrays: text packed into field elements, 31 bytes to a word.
use std::string::FromUtf8Error;

use vstd::arithmetic::power::pow;
use vstd::prelude::*;
use vstd::utf8::{
    decode_utf8, decode_utf8_split, encode_utf8, encode_utf8_decode_utf8, encode_utf8_valid_utf8,
    is_ascii_chars, is_ascii_chars_encode_utf8, is_char_boundary,
    is_char_boundary_iff_not_is_continuation_byte, is_char_boundary_start_end_of_seq, valid_utf8,
    valid_utf8_split,
};

use crate::error::RemoteError;
use crate::felt::{felt, half_base, lemma_felt_of_number, Felt};

verus! {

/// `2^248`: the words of 31 bytes are below it.
pub open spec fn word_bound() -> int {
    0x100000000000000000000000000000000000000000000000000000000000000int
}

/// The high half of `2^248`; its low half is 0.
pub const WORD_BOUND_HIGH: u128 = 0x1000000000000000000000000000000;

/// The bytes that a full word of a byte array holds.
pub const WORD_LEN: usize = 31;

/// The most bytes that a field element can be read as.
pub const FELT_LEN: usize = 32;

/// A field element that fits in 31 bytes.
#[derive(Clone, Copy, Debug, PartialEq, Eq, Structural)]
pub struct Bytes31 {
    pub(crate) word: Felt,
}

impl View for Bytes31 {
    type V = Felt;

    closed spec fn view(&self) -> Felt {
        self.word
    }
}

impl Bytes31 {
    #[verifier::type_invariant]
    spec fn fits(self) -> bool {
        self.word@ < word_bound()
    }

    /// The word that holds the element; `None` where it does not fit in 31 bytes.
    pub fn new(word: Felt) -> (r: Option<Bytes31>)
        ensures
            match r {
                Some(w) => w@ == word && word@ < word_bound(),
                None => word@ >= word_bound(),
            },
    {
        let (high, _): (u128, u128) = word.halves();
        if high < WORD_BOUND_HIGH {
            Some(Bytes31 { word })
        } else {
            None
        }
    }
}

/// A Cairo byte array: full words of 31 bytes, then one word with the bytes that are left.
#[derive(Debug, PartialEq, Eq)]
pub struct ByteArray {
    pub data: Vec<Bytes31>,
    pub pending_word: Felt,
    pub pending_word_len: usize,
}

/// The number that bytes spell, the most significant byte first.
pub open spec fn number_of(bytes: Seq<u8>) -> int
    decreases bytes.len(),
{
    if bytes.len() == 0 {
        0
    } else {
        number_of(bytes.drop_last()) * 256 + bytes.last()
    }
}

/// The `len` least significant bytes of a number, the most significant of them first.
pub open spec fn low_bytes(number: int, len: nat) -> Seq<u8>
    decreases len,
{
    if len == 0 {
        Seq::empty()
    } else {
        low_bytes(number / 256, (len - 1) as nat).push((number % 256) as u8)
    }
}

/// The text that bytes encode in UTF-8, if they encode any.
pub open spec fn utf8_text(bytes: Seq<u8>) -> Option<Seq<char>> {
    if valid_utf8(bytes) {
        Some(decode_utf8(bytes))
    } else {
        None
    }
}

/// The text of full words, each of which has to be UTF-8 on its own.
pub open spec fn words_text(words: Seq<Bytes31>) -> Option<Seq<char>>
    decreases words.len(),
{
    if words.len() == 0 {
        Some(Seq::empty())
    } else {
        match (words_text(words.drop_last()), utf8_text(low_bytes(words.last()@@, 31))) {
            (Some(front), Some(back)) => Some(front + back),
            _ => None,
        }
    }
}

/// The full words that bytes are packed into.
pub open spec fn full_words(bytes: Seq<u8>) -> Seq<Felt> {
    Seq::new(
        bytes.len() / 31,
        |i: int| felt(number_of(bytes.subrange(31 * i, 31 * i + 31))),
    )
}

/// The word for the bytes that no full word takes.
pub open spec fn last_word(bytes: Seq<u8>) -> Felt {
    felt(number_of(bytes.skip(31 * (bytes.len() / 31) as int)))
}

/// The field elements that a text is written as on chain: the number of full words,
/// the full words, the pending word and its length.
pub open spec fn text_felts(text: Seq<char>) -> Seq<Felt> {
    let bytes = encode_utf8(text);
    seq![felt((bytes.len() / 31) as int)] + full_words(bytes) + seq![
        last_word(bytes),
        felt((bytes.len() % 31) as int),
    ]
}

impl ByteArray {
    /// Whether the byte array can be read: where the full words are text, so that the pending
    /// word is come to, that word gives no more bytes than an element has.
    pub open spec fn readable(self) -> bool {
        words_text(self.data@) is Some ==> self.pending_word_len <= FELT_LEN
    }

    /// The text of the byte array; `None` where a word is not UTF-8 on its own.
    pub open spec fn text(self) -> Option<Seq<char>> {
        match (
            words_text(self.data@),
            utf8_text(low_bytes(self.pending_word@, self.pending_word_len as nat)),
        ) {
            (Some(front), Some(back)) => Some(front + back),
            _ => None,
        }
    }

    /// The field elements that the byte array is written as on chain. The length of the
    /// pending word is written as a 32-bit number.
    pub open spec fn felts(self) -> Seq<Felt> {
        seq![felt(self.data@.len() as int)] + self.data@.map_values(|w: Bytes31| w@) + seq![
            self.pending_word,
            felt(self.pending_word_len as u32 as int),
        ]
    }

    /// Packs a text into a byte array.
    pub fn from_string(text: &str) -> (r: ByteArray)
        ensures
            r.data@.map_values(|w: Bytes31| w@) == full_words(encode_utf8(text@)),
            r.pending_word == last_word(encode_utf8(text@)),
            r.pending_word_len == encode_utf8(text@).len() % 31,
            r.felts() == text_felts(text@),
            r.readable(),
            words_end_between_chars(text@) ==> r.text() == Some(text@),
    {
        let r: ByteArray = pack_text(text);
        assert(r.data@.len() == r.data@.map_values(|w: Bytes31| w@).len());
        proof {
            if words_end_between_chars(text@) {
                law_packed_text_is_read_back(text@, r);
            }
        }
        r
    }

    /// Writes the byte array as field elements.
    pub fn to_felts(&self) -> (r: Vec<Felt>)
        ensures
            r@ == self.felts(),
    {
        let mut r: Vec<Felt> = Vec::new();
        r.push(Felt::from_u128(self.data.len() as u128));
        let mut i: usize = 0;
        while i < self.data.len()
            invariant
                i <= self.data@.len(),
                r@ == seq![felt(self.data@.len() as int)] + self.data@.take(i as int).map_values(
                    |w: Bytes31| w@,
                ),
            decreases self.data@.len() - i,
        {
            r.push(self.data[i].word);
            assert(self.data@.take(i + 1) == self.data@.take(i as int).push(self.data@[i as int]));
            i += 1;
        }
        assert(self.data@.take(i as int) == self.data@);
        r.push(self.pending_word);
        r.push(Felt::from_u128(self.pending_word_len as u32 as u128));
        r
    }

    /// The text of the byte array.
    pub fn to_string(&self) -> (r: Result<String, RemoteError>)
        requires
            self.readable(),
        ensures
            match r {
                Ok(s) => self.text() == Some(s@),
                Err(e) => self.text() is None && e == RemoteError::InvalidUtf8,
            },
    {
        match unpack_text(self) {
            Ok(text) => Ok(text),
            Err(_) => Err(RemoteError::InvalidUtf8),
        }
    }

    /// Whether [`ByteArray::to_string`] can be called.
    pub fn is_readable(&self) -> (r: bool)
        ensures
            r == self.readable(),
    {
        if self.pending_word_len <= FELT_LEN {
            return true;
        }
        let full = ByteArray {
            data: self.data.clone(),
            pending_word: Felt::zero(),
            pending_word_len: 0,
        };
        proof {
            assert(full.data@ =~= self.data@);
            assert(low_bytes(full.pending_word@, 0) =~= Seq::<u8>::empty());
        }
        full.to_string().is_err()
    }
}

/// Whether no character of a text is cut by the end of a word.
pub open spec fn words_end_between_chars(text: Seq<char>) -> bool {
    let bytes = encode_utf8(text);
    forall|i: int|
        0 <= i <= bytes.len() / 31 ==> #[trigger] is_char_boundary(bytes, 31 * i)
}

/// A text that is packed into a byte array is read back from it, unless the end of a word
/// cuts a character.
pub proof fn law_packed_text_is_read_back(text: Seq<char>, array: ByteArray)
    requires
        array.data@.map_values(|w: Bytes31| w@) == full_words(encode_utf8(text)),
        array.pending_word == last_word(encode_utf8(text)),
        array.pending_word_len == encode_utf8(text).len() % 31,
        words_end_between_chars(text),
    ensures
        array.text() == Some(text),
{
    let bytes = encode_utf8(text);
    let words = array.data@;
    let count = (bytes.len() / 31) as int;
    assert(words.len() == words.map_values(|w: Bytes31| w@).len());
    encode_utf8_valid_utf8(text);
    encode_utf8_decode_utf8(text);
    assert(is_char_boundary(bytes, 31 * count));
    valid_utf8_split(bytes, 31 * count);
    decode_utf8_split(bytes, 31 * count);
    lemma_full_words_read_back(bytes, words, count);
    assert(words.take(count) =~= words);
    let rest = bytes.skip(31 * count);
    assert(rest =~= bytes.subrange(31 * count, bytes.len() as int));
    lemma_word_read_back(rest);
}

/// The end of a word never cuts a character of an ASCII text, nor of any text that is
/// shorter than a word.
pub proof fn law_simple_text_is_not_cut(text: Seq<char>)
    requires
        is_ascii_chars(text) || encode_utf8(text).len() < 31,
    ensures
        words_end_between_chars(text),
{
    let bytes = encode_utf8(text);
    encode_utf8_valid_utf8(text);
    assert forall|i: int| 0 <= i <= bytes.len() / 31 implies #[trigger] is_char_boundary(
        bytes,
        31 * i,
    ) by {
        is_char_boundary_start_end_of_seq(bytes);
        if 0 < 31 * i < bytes.len() {
            is_ascii_chars_encode_utf8(text);
            is_char_boundary_iff_not_is_continuation_byte(bytes, 31 * i);
            assert(text[31 * i] as u8 == bytes[31 * i]);
        }
    }
}

/// The first `count` full words of valid UTF-8 give the text of the bytes they were packed from.
proof fn lemma_full_words_read_back(bytes: Seq<u8>, words: Seq<Bytes31>, count: int)
    requires
        valid_utf8(bytes),
        words.map_values(|w: Bytes31| w@) == full_words(bytes),
        0 <= count <= bytes.len() / 31,
        forall|i: int| 0 <= i <= bytes.len() / 31 ==> #[trigger] is_char_boundary(bytes, 31 * i),
    ensures
        words_text(words.take(count)) == Some(decode_utf8(bytes.subrange(0, 31 * count))),
    decreases count,
{
    assert(words.len() == words.map_values(|w: Bytes31| w@).len());
    let front = bytes.subrange(0, 31 * count);
    if count == 0 {
        assert(front =~= Seq::<u8>::empty());
    } else {
        let cut = 31 * (count - 1);
        lemma_full_words_read_back(bytes, words, count - 1);
        assert(words.take(count).drop_last() =~= words.take(count - 1));
        assert(is_char_boundary(bytes, 31 * count));
        assert(is_char_boundary(bytes, 31 * (count - 1)));
        valid_utf8_split(bytes, 31 * count);
        is_char_boundary_iff_not_is_continuation_byte(bytes, cut);
        is_char_boundary_iff_not_is_continuation_byte(front, cut);
        assert(front[cut] == bytes[cut]);
        valid_utf8_split(front, cut);
        decode_utf8_split(front, cut);
        assert(front.subrange(0, cut) =~= bytes.subrange(0, cut));
        let word = bytes.subrange(cut, cut + 31);
        assert(front.subrange(cut, front.len() as int) =~= word);
        lemma_word_read_back(word);
        assert(words.map_values(|w: Bytes31| w@)[count - 1] == full_words(bytes)[count - 1]);
        assert(words.take(count).last()@ == felt(number_of(word)));
    }
}

/// At most 31 bytes are read back from the word that they were packed into.
pub(crate) proof fn lemma_word_read_back(bytes: Seq<u8>)
    requires
        bytes.len() <= 31,
    ensures
        low_bytes(felt(number_of(bytes))@, bytes.len()) == bytes,
{
    lemma_number_bound(bytes);
    lemma_felt_of_number(felt(0), number_of(bytes));
    lemma_low_bytes_of_number(bytes);
}

/// The word of at most 31 bytes stands for a number that those bytes can spell.
pub(crate) proof fn lemma_word_bound(bytes: Seq<u8>)
    requires
        bytes.len() <= 31,
    ensures
        0 <= felt(number_of(bytes))@ < pow(256, bytes.len()),
{
    lemma_number_bound(bytes);
    lemma_felt_of_number(felt(0), number_of(bytes));
    lemma_byte_bound_is_a_power(bytes.len());
}

/// [`byte_bound`] is a power.
proof fn lemma_byte_bound_is_a_power(len: nat)
    ensures
        byte_bound(len) == pow(256, len),
    decreases len,
{
    reveal(pow);
    if len > 0 {
        lemma_byte_bound_is_a_power((len - 1) as nat);
    }
}

/// The `len` least significant bytes of the number that `len` bytes spell are those bytes.
proof fn lemma_low_bytes_of_number(bytes: Seq<u8>)
    ensures
        low_bytes(number_of(bytes), bytes.len()) == bytes,
    decreases bytes.len(),
{
    if bytes.len() > 0 {
        lemma_low_bytes_of_number(bytes.drop_last());
        assert(number_of(bytes) / 256 == number_of(bytes.drop_last()));
        assert(number_of(bytes) % 256 == bytes.last());
        assert(bytes.drop_last().push(bytes.last()) =~= bytes);
    } else {
        assert(bytes =~= Seq::<u8>::empty());
    }
}

/// `256^len`.
spec fn byte_bound(len: nat) -> int
    decreases len,
{
    if len == 0 {
        1
    } else {
        256 * byte_bound((len - 1) as nat)
    }
}

/// What at most 31 bytes spell is a number below `2^256`.
proof fn lemma_number_bound(bytes: Seq<u8>)
    ensures
        0 <= number_of(bytes) < byte_bound(bytes.len()),
        bytes.len() <= 31 ==> number_of(bytes) < half_base() * half_base(),
    decreases bytes.len(),
{
    if bytes.len() > 0 {
        lemma_number_bound(bytes.drop_last());
    }
    if bytes.len() <= 31 {
        reveal_with_fuel(byte_bound, 33);
        assert(byte_bound(31) < half_base() * half_base());
        lemma_byte_bound_rises(bytes.len(), 31);
    }
}

/// More bytes spell no fewer numbers.
proof fn lemma_byte_bound_rises(len: nat, other: nat)
    requires
        len <= other,
    ensures
        0 < byte_bound(len) <= byte_bound(other),
    decreases other,
{
    if other > 0 {
        if len < other {
            lemma_byte_bound_rises(len, (other - 1) as nat);
        } else {
            lemma_byte_bound_rises((len - 1) as nat, (other - 1) as nat);
        }
    }
}

/// The error of `String::from_utf8`, carried out of [`unpack_text`] and not looked into.
#[verifier::external_type_specification]
#[verifier::external_body]
pub struct ExFromUtf8Error(FromUtf8Error);

/// Calls `cainome::cairo_serde::ByteArray::from_string`, which cuts the UTF-8 bytes of the
/// text into words of 31 bytes and puts what is left into the pending word. It never
/// fails: 31 bytes always fit in a word.
#[verifier::external_body]
fn pack_text(text: &str) -> (r: ByteArray)
    ensures
        r.data@.map_values(|w: Bytes31| w@) == full_words(encode_utf8(text@)),
        r.pending_word == last_word(encode_utf8(text@)),
        r.pending_word_len == encode_utf8(text@).len() % 31,
{
    let packed = cainome::cairo_serde::ByteArray::from_string(text).unwrap();
    let plain = |f: starknet::core::types::Felt| {
        let bytes = f.to_bytes_be();
        Felt {
            high: u128::from_be_bytes(bytes[..16].try_into().unwrap()),
            low: u128::from_be_bytes(bytes[16..].try_into().unwrap()),
        }
    };
    ByteArray {
        data: packed.data.iter().map(|w| Bytes31 { word: plain(w.felt()) }).collect(),
        pending_word: plain(packed.pending_word),
        pending_word_len: packed.pending_word_len,
    }
}

/// Calls `cainome::cairo_serde::ByteArray::to_string`, which reads each full word as 31
/// bytes of UTF-8 and the pending word as its last `pending_word_len` bytes, and fails at
/// the first word that is not UTF-8. It panics where it comes to the pending word and that
/// is to give more bytes than an element has.
#[verifier::external_body]
fn unpack_text(array: &ByteArray) -> (r: Result<String, FromUtf8Error>)
    requires
        array.readable(),
    ensures
        match r {
            Ok(s) => array.text() == Some(s@),
            Err(_) => array.text() is None,
        },
{
    let outside = |f: &Felt| {
        let halves = [f.high.to_be_bytes(), f.low.to_be_bytes()];
        starknet::core::types::Felt::from_bytes_be_slice(&halves.concat())
    };
    let words = array.data.iter().map(|w| outside(&w.word).try_into().unwrap());
    let packed = cainome::cairo_serde::ByteArray {
        data: words.collect(),
        pending_word: outside(&array.pending_word),
        pending_word_len: array.pending_word_len,
    };
    packed.to_string()
}

} // verus!
