//! Base58 transcoding of byte strings.
//!
//! The digits are computed by the `base58` crate. What that crate returns is
//! named here, not defined: [`base58_encoded`] for its encoder and
//! [`base58_decoded`] for its decoder. The functions of this module state
//! their results over those two names, and beside them the few things that
//! hold of every result: which bytes are digits, and how leading zero bytes
//! and leading `1`s stand for each other.

use crate::bytes::{push_all, to_vec};
use crate::error::RuntimeError;
use crate::memory::utf8_text;
use base58::{FromBase58, ToBase58};
use vstd::prelude::*;
use vstd::string::StringSliceAdditionalSpecFns;
use vstd::utf8::{
    decode_utf8, decode_utf8_encode_utf8, encode_utf8, is_char_boundary, length_of_first_scalar,
    pop_first_scalar, valid_utf8, valid_utf8_split,
};

verus! {

/// The base58 digit of value zero, as a byte of text.
pub const ONE: u8 = 0x31;

/// The text that the crate's `to_base58` returns for `bytes`.
pub uninterp spec fn base58_encoded(bytes: Seq<u8>) -> Seq<char>;

/// The bytes that the crate's `from_base58` returns for `text`, or `None`
/// where it returns an error.
pub uninterp spec fn base58_decoded(text: Seq<char>) -> Option<Seq<u8>>;

/// Whether a byte of text is one of the 58 digits: a digit or letter of
/// ASCII other than `0`, `O`, `I` and `l`.
pub open spec fn is_digit(byte: u8) -> bool {
    ||| 0x31 <= byte <= 0x39
    ||| 0x41 <= byte <= 0x48
    ||| 0x4a <= byte <= 0x4e
    ||| 0x50 <= byte <= 0x5a
    ||| 0x61 <= byte <= 0x6b
    ||| 0x6d <= byte <= 0x7a
}

/// Whether a text is made of the 58 digits only.
pub open spec fn is_base58(text: Seq<u8>) -> bool {
    forall|i: int| 0 <= i < text.len() ==> is_digit(#[trigger] text[i])
}

/// Whether a byte string of this length can be handed to the encoder: the
/// encoder sizes its buffer as 138 hundredths of the length, and that product
/// has to fit the machine word.
pub open spec fn encodable(length: nat) -> bool {
    length * 138 <= usize::MAX
}

/// `<[u8] as base58::ToBase58>::to_base58`: the base58 text of a byte
/// string. The contract names the result. The input is kept short enough
/// for the size computation at the head of the encoder not to overflow.
/// Three facts are stated beside the name: the encoder writes nothing but
/// digits of its alphabet; it writes one `1` for each leading zero byte and
/// goes on with a digit that is not `1`; and of zero bytes alone it makes
/// nothing but those `1`s.
#[verifier::external_body]
pub(crate) fn encode_text(bytes: &[u8]) -> (text: String)
    requires
        encodable(bytes@.len()),
    ensures
        ({
            &&& text@ == base58_encoded(bytes@)
            &&& is_base58(encode_utf8(text@))
            &&& leading_ones(encode_utf8(text@)) == leading_zeros(bytes@)
            &&& leading_zeros(bytes@) == bytes@.len() ==> encode_utf8(text@).len()
                == bytes@.len()
        }),
{
    bytes.to_base58()
}

/// `<str as base58::FromBase58>::from_base58`: the bytes that a base58 text
/// stands for, or nothing where the decoder reports an error. The contract
/// only names the result. The text may not begin with the digit `1`: the
/// decoder cuts its result out of a fixed buffer by the number of leading
/// `1`s and panics where there are more of them than the buffer has spare
/// room for. Without a leading `1` it returns for every text. Two facts
/// are stated beside the name: the decoder looks every byte up in its table
/// of digits and reports an error for one that is not there, and it makes no
/// bytes of the empty text.
#[verifier::external_body]
pub(crate) fn decode_digits(text: &str) -> (bytes: Option<Vec<u8>>)
    requires
        text.spec_bytes().len() == 0 || text.spec_bytes()[0] != ONE,
    ensures
        match bytes {
            Some(value) => {
                &&& base58_decoded(text@) == Some(value@)
                &&& is_base58(text.spec_bytes())
                &&& text.spec_bytes().len() == 0 ==> value@.len() == 0
            },
            None => base58_decoded(text@) is None && text.spec_bytes().len() > 0,
        },
{
    text.from_base58().ok()
}

/// How many `1`s a text begins with.
pub open spec fn leading_ones(text: Seq<u8>) -> nat
    decreases text.len(),
{
    if text.len() > 0 && text[0] == ONE {
        1 + leading_ones(text.drop_first())
    } else {
        0
    }
}

/// How many zero bytes a byte string begins with.
pub open spec fn leading_zeros(bytes: Seq<u8>) -> nat
    decreases bytes.len(),
{
    if bytes.len() > 0 && bytes[0] == 0 {
        1 + leading_zeros(bytes.drop_first())
    } else {
        0
    }
}

/// `count` zero bytes.
pub open spec fn zeros(count: nat) -> Seq<u8> {
    Seq::new(count, |i: int| 0u8)
}

/// What decoding a base58 text yields. Each leading `1` stands for one zero
/// byte; the digits after them stand for what the decoder makes of them.
/// This is what the decoder returns for the whole text wherever it returns
/// at all.
pub open spec fn from_base58_spec(text: Seq<u8>) -> Result<Seq<u8>, RuntimeError> {
    if !valid_utf8(text) {
        Err(RuntimeError::Base58Error)
    } else {
        let ones = leading_ones(text);
        match base58_decoded(decode_utf8(text.skip(ones as int))) {
            Some(value) => Ok(zeros(ones) + value),
            None => Err(RuntimeError::Base58Error),
        }
    }
}

/// The base58 text of a byte string, as bytes.
pub open spec fn to_base58_spec(bytes: Seq<u8>) -> Seq<u8> {
    encode_utf8(base58_encoded(bytes))
}

/// A text that begins with `count` `1`s, and not with more, has exactly
/// `count` leading ones.
pub proof fn lemma_leading_ones(text: Seq<u8>, count: nat)
    requires
        count <= text.len(),
        forall|k: int| 0 <= k < count ==> text[k] == ONE,
        count == text.len() || text[count as int] != ONE,
    ensures
        leading_ones(text) == count,
    decreases count,
{
    if count > 0 {
        let rest = text.drop_first();
        assert forall|k: int| 0 <= k < count - 1 implies rest[k] == ONE by {
            assert(rest[k] == text[k + 1]);
        }
        lemma_leading_ones(rest, (count - 1) as nat);
    }
}

/// A text with as many leading `1`s as it has bytes is made of `1`s.
pub proof fn lemma_all_ones(text: Seq<u8>)
    requires
        leading_ones(text) == text.len(),
    ensures
        forall|k: int| 0 <= k < text.len() ==> text[k] == ONE,
    decreases text.len(),
{
    if text.len() > 0 {
        let rest = text.drop_first();
        lemma_leading_ones_bound(rest);
        lemma_all_ones(rest);
        assert forall|k: int| 0 <= k < text.len() implies text[k] == ONE by {
            if k > 0 {
                assert(text[k] == rest[k - 1]);
            }
        }
    }
}

/// A text has no more leading `1`s than bytes.
pub proof fn lemma_leading_ones_bound(text: Seq<u8>)
    ensures
        leading_ones(text) <= text.len(),
    decreases text.len(),
{
    if text.len() > 0 && text[0] == ONE {
        lemma_leading_ones_bound(text.drop_first());
    }
}

/// A run of `1`s is well-formed text.
pub proof fn lemma_ones_are_text(text: Seq<u8>)
    requires
        forall|k: int| 0 <= k < text.len() ==> text[k] == ONE,
    ensures
        valid_utf8(text),
    decreases text.len(),
{
    if text.len() > 0 {
        assert(0x31u8 & 0x7F == 0x31u8) by (bit_vector);
        let rest = pop_first_scalar(text);
        assert(length_of_first_scalar(text) == 1);
        assert forall|k: int| 0 <= k < rest.len() implies rest[k] == ONE by {
            assert(rest[k] == text[k + 1]);
        }
        lemma_ones_are_text(rest);
    }
}

/// In well-formed text a run of leading `1`s ends where a character begins.
pub proof fn lemma_ones_end_on_boundary(text: Seq<u8>, count: nat)
    requires
        valid_utf8(text),
        count <= text.len(),
        forall|k: int| 0 <= k < count ==> text[k] == ONE,
    ensures
        is_char_boundary(text, count as int),
    decreases count,
{
    if count > 0 {
        let rest = pop_first_scalar(text);
        assert(length_of_first_scalar(text) == 1);
        assert forall|k: int| 0 <= k < count - 1 implies rest[k] == ONE by {
            assert(rest[k] == text[k + 1]);
        }
        lemma_ones_end_on_boundary(rest, (count - 1) as nat);
    }
}

/// Decodes base58 text.
///
/// The only failure is `Base58Error`. It is owed to every text that is not
/// made of the 58 digits, bytes that are not well-formed UTF-8 among them;
/// beyond that, the decoder decides. A text of nothing but `1`s always
/// decodes, to as many zero bytes.
pub fn from_base58(text: &[u8]) -> (result: Result<Vec<u8>, RuntimeError>)
    ensures
        match result {
            Ok(value) => from_base58_spec(text@) == Ok::<Seq<u8>, RuntimeError>(value@),
            Err(error) => from_base58_spec(text@) == Err::<Seq<u8>, RuntimeError>(error),
        },
        result is Err ==> result == Err::<Vec<u8>, RuntimeError>(RuntimeError::Base58Error),
        !is_base58(text@) ==> result is Err,
        leading_ones(text@) == text@.len() ==> result is Ok && result->Ok_0@ == zeros(
            text@.len(),
        ),
{
    if utf8_text(text).is_none() {
        proof {
            if leading_ones(text@) == text@.len() {
                lemma_all_ones(text@);
                lemma_ones_are_text(text@);
            }
        }
        return Err(RuntimeError::Base58Error);
    }
    let mut ones: usize = 0;
    while ones < text.len() && text[ones] == ONE
        invariant
            ones <= text@.len(),
            forall|k: int| 0 <= k < ones ==> text@[k] == ONE,
        decreases text@.len() - ones,
    {
        ones += 1;
    }
    let digits = vstd::slice::slice_subrange(text, ones, text.len());
    proof {
        lemma_leading_ones(text@, ones as nat);
        lemma_ones_end_on_boundary(text@, ones as nat);
        valid_utf8_split(text@, ones as int);
        assert(digits@ =~= text@.skip(ones as int));
        decode_utf8_encode_utf8(digits@);
        if !is_base58(text@) {
            let at = choose|i: int| 0 <= i < text@.len() && !is_digit(#[trigger] text@[i]);
            assert(digits@[at - ones] == text@[at]);
            assert(!is_base58(digits@));
        }
    }
    match utf8_text(digits) {
        Some(tail) => {
            match decode_digits(tail) {
                Some(value) => {
                    let mut bytes: Vec<u8> = Vec::new();
                    let mut i: usize = 0;
                    while i < ones
                        invariant
                            i <= ones,
                            bytes@ == zeros(i as nat),
                        decreases ones - i,
                    {
                        bytes.push(0);
                        i += 1;
                        assert(bytes@ =~= zeros(i as nat));
                    }
                    push_all(&mut bytes, value.as_slice());
                    proof {
                        if leading_ones(text@) == text@.len() {
                            assert(bytes@ =~= zeros(text@.len()));
                        }
                    }
                    Ok(bytes)
                },
                None => Err(RuntimeError::Base58Error),
            }
        },
        None => Err(RuntimeError::Base58Error),
    }
}

/// Encodes a byte string as base58 text.
///
/// The text is made of the 58 digits only. It begins with one `1` for each
/// leading zero byte, and zero bytes alone become nothing but those `1`s.
/// The digits after the `1`s are what the encoder makes of the rest.
pub fn to_base58(bytes: &[u8]) -> (text: Vec<u8>)
    requires
        encodable(bytes@.len()),
    ensures
        text@ == to_base58_spec(bytes@),
        is_base58(text@),
        leading_ones(text@) == leading_zeros(bytes@),
        leading_zeros(bytes@) == bytes@.len() ==> text@.len() == bytes@.len(),
{
    let text = encode_text(bytes);
    to_vec(text.as_str().as_bytes())
}

} // verus!
