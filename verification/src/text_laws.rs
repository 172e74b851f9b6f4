//! How a byte array spells its text, byte for byte.
use vstd::arithmetic::div_mod::lemma_div_denominator;
use vstd::arithmetic::power::{lemma_pow0, lemma_pow_positive, pow};
use vstd::prelude::*;
use vstd::utf8::{decode_utf8, decode_utf8_encode_utf8, encode_utf8, valid_utf8};

use crate::byte_array::{
    full_words, last_word, lemma_word_bound, lemma_word_read_back, low_bytes, utf8_text, words_text,
    ByteArray, Bytes31,
};
use crate::felt::lemma_felt_is_not_negative;

verus! {

/// The byte of a number at a place, counted from the least significant one.
pub open spec fn byte_at(number: int, place: nat) -> u8 {
    ((number / pow(256, place)) % 256) as u8
}

/// The last bytes of a number, the most significant of them first.
pub open spec fn bytes_of(number: int, len: nat) -> Seq<u8> {
    Seq::new(len, |i: int| byte_at(number, (len - 1 - i) as nat))
}

/// A byte array has a text exactly where each of its words is UTF-8 on its own, a full word as
/// 31 bytes and the pending word as the bytes that it holds. The text is then spelled by the
/// bytes of the words, one word after the other.
pub proof fn law_text_is_spelled_by_the_words(array: ByteArray)
    ensures
        array.text() is Some <==> {
            &&& forall|i: int|
                0 <= i < array.data@.len() ==> valid_utf8(
                    bytes_of((#[trigger] array.data@[i])@@, 31),
                )
            &&& valid_utf8(bytes_of(array.pending_word@, array.pending_word_len as nat))
        },
        array.text() matches Some(text) ==> {
            let bytes = encode_utf8(text);
            let full = 31 * array.data@.len();
            &&& bytes.len() == full + array.pending_word_len
            &&& forall|i: int|
                0 <= i < array.data@.len() ==> bytes.subrange(31 * i, 31 * i + 31) == bytes_of(
                    (#[trigger] array.data@[i])@@,
                    31,
                )
            &&& bytes.skip(full as int) == bytes_of(
                array.pending_word@,
                array.pending_word_len as nat,
            )
        },
{
    let len = array.pending_word_len as nat;
    lemma_felt_is_not_negative(array.pending_word);
    lemma_low_bytes(array.pending_word@, len);
    lemma_words_spell(array.data@);
    if let Some(text) = array.text() {
        let front = words_text(array.data@)->0;
        let back = utf8_text(low_bytes(array.pending_word@, len))->0;
        lemma_encode_concat(front, back);
        decode_utf8_encode_utf8(low_bytes(array.pending_word@, len));
        let bytes = encode_utf8(text);
        let full = 31 * array.data@.len();
        assert(bytes.skip(full as int) =~= bytes_of(array.pending_word@, len));
        assert forall|i: int| 0 <= i < array.data@.len() implies bytes.subrange(
            31 * i,
            31 * i + 31,
        ) == bytes_of((#[trigger] array.data@[i])@@, 31) by {
            assert(bytes.subrange(31 * i, 31 * i + 31) =~= encode_utf8(front).subrange(
                31 * i,
                31 * i + 31,
            ));
        }
    }
}

/// A byte array can be read unless reading comes to a pending word of more than 32 bytes: a full
/// word that is not UTF-8 ends the reading before.
pub proof fn law_reading_stops_at_a_long_pending_word(array: ByteArray)
    ensures
        array.readable() <==> array.pending_word_len <= 32 || exists|i: int|
            0 <= i < array.data@.len() && !valid_utf8(bytes_of((#[trigger] array.data@[i])@@, 31)),
{
    lemma_words_spell(array.data@);
}

/// Bytes are packed 31 to a full word, in order, and the last word holds those that are left. A
/// word holds the bytes that were packed into it and nothing above them.
pub proof fn law_words_hold_the_bytes(bytes: Seq<u8>)
    ensures
        full_words(bytes).len() == bytes.len() / 31,
        forall|i: int|
            0 <= i < bytes.len() / 31 ==> {
                &&& bytes_of((#[trigger] full_words(bytes)[i])@, 31) == bytes.subrange(
                    31 * i,
                    31 * i + 31,
                )
                &&& full_words(bytes)[i]@ < pow(256, 31)
            },
        bytes_of(last_word(bytes)@, bytes.len() % 31) == bytes.skip(
            31 * (bytes.len() / 31) as int,
        ),
        last_word(bytes)@ < pow(256, bytes.len() % 31),
{
    assert forall|i: int| 0 <= i < bytes.len() / 31 implies {
        &&& bytes_of((#[trigger] full_words(bytes)[i])@, 31) == bytes.subrange(
            31 * i,
            31 * i + 31,
        )
        &&& full_words(bytes)[i]@ < pow(256, 31)
    } by {
        let word = bytes.subrange(31 * i, 31 * i + 31);
        lemma_word_read_back(word);
        lemma_word_bound(word);
        lemma_low_bytes(full_words(bytes)[i]@, 31);
    }
    let rest = bytes.skip(31 * (bytes.len() / 31) as int);
    assert(rest.len() == bytes.len() % 31);
    lemma_word_read_back(rest);
    lemma_word_bound(rest);
    lemma_low_bytes(last_word(bytes)@, rest.len());
}

/// The full words spell their text.
proof fn lemma_words_spell(words: Seq<Bytes31>)
    ensures
        words_text(words) is Some <==> forall|i: int|
            0 <= i < words.len() ==> valid_utf8(bytes_of((#[trigger] words[i])@@, 31)),
        words_text(words) matches Some(text) ==> {
            &&& encode_utf8(text).len() == 31 * words.len()
            &&& forall|i: int|
                0 <= i < words.len() ==> encode_utf8(text).subrange(31 * i, 31 * i + 31)
                    == bytes_of((#[trigger] words[i])@@, 31)
        },
    decreases words.len(),
{
    if words.len() == 0 {
        assert(encode_utf8(Seq::empty()) =~= Seq::empty());
    } else {
        let front = words.drop_last();
        let last = words.last()@@;
        lemma_words_spell(front);
        lemma_felt_is_not_negative(words.last()@);
        lemma_low_bytes(last, 31);
        assert(forall|i: int| 0 <= i < front.len() ==> front[i] == #[trigger] words[i]);
        assert(words[words.len() - 1] == words.last());
        if words_text(words) is None && words_text(front) is None {
            let i = choose|i: int|
                0 <= i < front.len() && !valid_utf8(bytes_of((#[trigger] front[i])@@, 31));
            assert(!valid_utf8(bytes_of(words[i]@@, 31)));
        }
        if let Some(text) = words_text(words) {
            let head = words_text(front)->0;
            let tail = decode_utf8(low_bytes(last, 31));
            lemma_encode_concat(head, tail);
            decode_utf8_encode_utf8(low_bytes(last, 31));
            assert forall|i: int| 0 <= i < words.len() implies encode_utf8(text).subrange(
                31 * i,
                31 * i + 31,
            ) == bytes_of((#[trigger] words[i])@@, 31) by {
                if i < front.len() {
                    assert(front[i] == words[i]);
                    assert(encode_utf8(text).subrange(31 * i, 31 * i + 31) =~= encode_utf8(
                        head,
                    ).subrange(31 * i, 31 * i + 31));
                } else {
                    assert(encode_utf8(text).subrange(31 * i, 31 * i + 31) =~= low_bytes(last, 31));
                }
            }
        }
    }
}

/// Dropping the last byte of a number moves the others down by one place.
proof fn lemma_low_bytes(number: int, len: nat)
    requires
        number >= 0,
    ensures
        low_bytes(number, len) == bytes_of(number, len),
    decreases len,
{
    if len > 0 {
        lemma_low_bytes(number / 256, (len - 1) as nat);
        let front = bytes_of(number / 256, (len - 1) as nat);
        assert forall|i: int| 0 <= i < len implies #[trigger] bytes_of(number, len)[i]
            == front.push((number % 256) as u8)[i] by {
            if i < len - 1 {
                let place = (len - 2 - i) as nat;
                lemma_pow_positive(256, place);
                lemma_div_denominator(number, 256, pow(256, place));
                reveal_with_fuel(pow, 2);
                assert(pow(256, place + 1) == 256 * pow(256, place));
            } else {
                lemma_pow0(256);
            }
        }
        assert(bytes_of(number, len) =~= front.push((number % 256) as u8));
    } else {
        assert(low_bytes(number, len) =~= bytes_of(number, len));
    }
}

/// Two texts in a row are encoded in a row.
proof fn lemma_encode_concat(a: Seq<char>, b: Seq<char>)
    ensures
        encode_utf8(a + b) == encode_utf8(a) + encode_utf8(b),
    decreases a.len(),
{
    if a.len() == 0 {
        assert(a + b =~= b);
        assert(encode_utf8(a) + encode_utf8(b) =~= encode_utf8(b));
    } else {
        assert((a + b).drop_first() =~= a.drop_first() + b);
        assert((a + b)[0] == a[0]);
        lemma_encode_concat(a.drop_first(), b);
        assert(encode_utf8(a + b) =~= encode_utf8(a) + encode_utf8(b));
    }
}

} // verus!
