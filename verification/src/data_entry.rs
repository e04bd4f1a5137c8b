//! One argument that crosses the boundary between two contracts, and the
//! byte layout in which a list of arguments is handed to a callee.
//!
//! Layout. A list begins with the number of its arguments in two bytes,
//! most significant first. Each argument follows as a key, a tag and a
//! value: the key is its length in two bytes, most significant first, and
//! then that many bytes; the tag is one byte; the value depends on the tag.
//!
//! | tag | kind    | value                                             |
//! |-----|---------|---------------------------------------------------|
//! | 0   | integer | 8 bytes, big-endian two's complement              |
//! | 1   | boolean | 4 bytes, big-endian two's complement              |
//! | 2   | binary  | 4-byte big-endian length, then that many bytes    |
//! | 3   | string  | 4-byte big-endian length, then that many bytes    |
//!
//! What a contract stages for a call has no keys: it goes on the wire with
//! empty keys. No bytes at all stand for the empty list, as the two bytes of
//! a zero count do.

use crate::bytes::{push_all, to_vec};
use crate::memory::utf8_text;
use crate::number::{
    be_bytes, bits32, bits64, from_bits32, from_bits64, lemma_pow256_values,
    lemma_signed_round_trip, lemma_u16_bytes_round_trip, lemma_u16_round_trip,
    lemma_u32_bytes_round_trip, lemma_u32_round_trip, lemma_u64_bytes_round_trip,
    lemma_u64_round_trip, lemma_unsigned_round_trip, push_u16, push_u32, push_u64, read_u16,
    read_u32, read_u64, signed, u16_of, u32_of, u64_of, unsigned,
};
use vstd::prelude::*;
use vstd::utf8::valid_utf8;

verus! {

/// Tag of an integer argument.
pub const TAG_INTEGER: u8 = 0;

/// Tag of a boolean argument.
pub const TAG_BOOLEAN: u8 = 1;

/// Tag of a binary argument.
pub const TAG_BINARY: u8 = 2;

/// Tag of a string argument.
pub const TAG_STRING: u8 = 3;

/// The greatest number of arguments, and the greatest length of a key, that
/// two bytes can tell.
pub const MAX_COUNT: usize = 0xFFFF;

/// One argument or return value.
#[derive(Debug)]
pub enum DataEntry {
    /// A 64-bit signed integer.
    Integer(i64),
    /// A boolean, carried as the 32-bit integer the guest passed.
    Boolean(i32),
    /// Raw bytes.
    Binary(Vec<u8>),
    /// Text, held as its UTF-8 bytes.
    String(Vec<u8>),
}

/// The mathematical value of a [`DataEntry`].
pub ghost enum EntryValue {
    Integer(i64),
    Boolean(i32),
    Binary(Seq<u8>),
    String(Seq<u8>),
}

impl View for DataEntry {
    type V = EntryValue;

    open spec fn view(&self) -> EntryValue {
        match self {
            DataEntry::Integer(value) => EntryValue::Integer(*value),
            DataEntry::Boolean(value) => EntryValue::Boolean(*value),
            DataEntry::Binary(bytes) => EntryValue::Binary(bytes@),
            DataEntry::String(bytes) => EntryValue::String(bytes@),
        }
    }
}

impl EntryValue {
    /// Whether the entry can be put on the wire: a payload is short enough
    /// for its length prefix, and a string is well-formed UTF-8.
    pub open spec fn wf(self) -> bool {
        match self {
            EntryValue::Integer(_) => true,
            EntryValue::Boolean(_) => true,
            EntryValue::Binary(bytes) => bytes.len() <= u32::MAX,
            EntryValue::String(bytes) => bytes.len() <= u32::MAX && valid_utf8(bytes),
        }
    }

    /// The tag that announces the entry on the wire.
    pub open spec fn tag(self) -> u8 {
        match self {
            EntryValue::Integer(_) => TAG_INTEGER,
            EntryValue::Boolean(_) => TAG_BOOLEAN,
            EntryValue::Binary(_) => TAG_BINARY,
            EntryValue::String(_) => TAG_STRING,
        }
    }

    /// The bytes that follow the tag.
    pub open spec fn payload(self) -> Seq<u8> {
        match self {
            EntryValue::Integer(value) => be_bytes(unsigned(value as int, 8), 8),
            EntryValue::Boolean(value) => be_bytes(unsigned(value as int, 4), 4),
            EntryValue::Binary(bytes) => be_bytes(bytes.len() as int, 4) + bytes,
            EntryValue::String(bytes) => be_bytes(bytes.len() as int, 4) + bytes,
        }
    }

    /// The entry on the wire.
    pub open spec fn encoding(self) -> Seq<u8> {
        seq![self.tag()] + self.payload()
    }
}

/// One argument as it stands on the wire: an entry under a key.
#[derive(Debug)]
pub struct Argument {
    /// The key. What a contract stages has the empty key.
    pub key: Vec<u8>,
    /// The entry.
    pub entry: DataEntry,
}

/// The mathematical value of an [`Argument`].
pub ghost struct ArgumentValue {
    pub key: Seq<u8>,
    pub entry: EntryValue,
}

impl View for Argument {
    type V = ArgumentValue;

    open spec fn view(&self) -> ArgumentValue {
        ArgumentValue { key: self.key@, entry: self.entry@ }
    }
}

impl ArgumentValue {
    /// Whether the argument can be put on the wire: its key is short enough
    /// for its length prefix and its entry is well-formed.
    pub open spec fn wf(self) -> bool {
        self.key.len() <= MAX_COUNT && self.entry.wf()
    }

    /// The argument on the wire.
    pub open spec fn encoding(self) -> Seq<u8> {
        be_bytes(self.key.len() as int, 2) + self.key + self.entry.encoding()
    }
}

/// The encodings of a list of arguments, one after the other.
pub open spec fn body_of(arguments: Seq<ArgumentValue>) -> Seq<u8>
    decreases arguments.len(),
{
    if arguments.len() == 0 {
        Seq::empty()
    } else {
        body_of(arguments.drop_last()) + arguments.last().encoding()
    }
}

/// The count that announces a list of `length` arguments. A list longer
/// than two bytes can tell is announced with the greatest count; no reader
/// accepts such a wire form, so a call with that many arguments fails in
/// its callee.
pub open spec fn counted(length: nat) -> int {
    if length > MAX_COUNT {
        MAX_COUNT as int
    } else {
        length as int
    }
}

/// The wire form of a list of arguments.
pub open spec fn wire_of(arguments: Seq<ArgumentValue>) -> Seq<u8> {
    be_bytes(counted(arguments.len()), 2) + body_of(arguments)
}

/// A list of entries as arguments with empty keys.
pub open spec fn unkeyed(entries: Seq<EntryValue>) -> Seq<ArgumentValue> {
    entries.map_values(|entry: EntryValue| ArgumentValue { key: Seq::empty(), entry })
}

/// The entries of a list of arguments, without their keys.
pub open spec fn entries_of(arguments: Seq<ArgumentValue>) -> Seq<EntryValue> {
    arguments.map_values(|argument: ArgumentValue| argument.entry)
}

/// The wire form of a list of staged entries: that of the same list under
/// empty keys.
pub open spec fn encoding_of(entries: Seq<EntryValue>) -> Seq<u8> {
    wire_of(unkeyed(entries))
}

/// The values of a list of entries.
pub open spec fn values_of(entries: Seq<DataEntry>) -> Seq<EntryValue> {
    entries.map_values(|entry: DataEntry| entry@)
}

/// The values of a list of arguments.
pub open spec fn arguments_of(arguments: Seq<Argument>) -> Seq<ArgumentValue> {
    arguments.map_values(|argument: Argument| argument@)
}

/// Whether every entry of a list can be put on the wire.
pub open spec fn all_wf(entries: Seq<EntryValue>) -> bool {
    forall|i: int| 0 <= i < entries.len() ==> (#[trigger] entries[i]).wf()
}

/// Whether a list of arguments can be put on the wire and read back: the
/// count fits its two bytes and every argument is well-formed.
pub open spec fn arguments_wf(arguments: Seq<ArgumentValue>) -> bool {
    &&& arguments.len() <= MAX_COUNT
    &&& forall|i: int| 0 <= i < arguments.len() ==> (#[trigger] arguments[i]).wf()
}

impl DataEntry {
    /// Tells whether the entry can be put on the wire. An entry that was
    /// read from guest memory always can.
    pub fn is_wf(&self) -> (fits: bool)
        ensures
            fits == self@.wf(),
    {
        match self {
            DataEntry::Integer(_) => true,
            DataEntry::Boolean(_) => true,
            DataEntry::Binary(bytes) => bytes.len() as u64 <= u32::MAX as u64,
            DataEntry::String(bytes) => bytes.len() as u64 <= u32::MAX as u64 && utf8_text(
                bytes.as_slice(),
            ).is_some(),
        }
    }

    /// Appends the wire form of the entry.
    pub fn write_to(&self, out: &mut Vec<u8>)
        requires
            self@.wf(),
        ensures
            final(out)@ == old(out)@ + self@.encoding(),
    {
        match self {
            DataEntry::Integer(value) => {
                out.push(TAG_INTEGER);
                push_u64(out, bits64(*value));
            },
            DataEntry::Boolean(value) => {
                out.push(TAG_BOOLEAN);
                push_u32(out, bits32(*value));
            },
            DataEntry::Binary(bytes) => {
                out.push(TAG_BINARY);
                push_u32(out, bytes.len() as u32);
                push_all(out, bytes.as_slice());
            },
            DataEntry::String(bytes) => {
                out.push(TAG_STRING);
                push_u32(out, bytes.len() as u32);
                push_all(out, bytes.as_slice());
            },
        }
        assert(out@ =~= old(out)@ + self@.encoding());
    }
}

/// Puts a list of staged entries on the wire, in order, under empty keys.
pub fn serialize(entries: &Vec<DataEntry>) -> (bytes: Vec<u8>)
    requires
        all_wf(values_of(entries@)),
    ensures
        bytes@ == encoding_of(values_of(entries@)),
{
    let mut bytes: Vec<u8> = Vec::new();
    let count: u16 = if entries.len() > MAX_COUNT {
        0xFFFF
    } else {
        entries.len() as u16
    };
    push_u16(&mut bytes, count);
    let ghost arguments = unkeyed(values_of(entries@));
    let ghost prefix = bytes@;
    let mut i: usize = 0;
    while i < entries.len()
        invariant
            i <= entries@.len(),
            all_wf(values_of(entries@)),
            arguments == unkeyed(values_of(entries@)),
            prefix == be_bytes(counted(entries@.len()), 2),
            bytes@ == prefix + body_of(arguments.subrange(0, i as int)),
        decreases entries@.len() - i,
    {
        let ghost before = arguments.subrange(0, i as int);
        assert(values_of(entries@)[i as int].wf());
        push_u16(&mut bytes, 0);
        entries[i].write_to(&mut bytes);
        i += 1;
        proof {
            let now = arguments.subrange(0, i as int);
            assert(now.drop_last() =~= before);
            assert(now.last() == ArgumentValue { key: Seq::empty(), entry: entries@[i - 1]@ });
            assert(now.last().encoding() =~= be_bytes(0, 2) + entries@[i - 1]@.encoding());
            assert(bytes@ =~= prefix + body_of(now));
        }
    }
    assert(arguments.subrange(0, entries@.len() as int) =~= arguments);
    bytes
}

/// The encodings of a list are those of its front followed by those of its
/// back: the n-th argument pushed is the n-th argument on the wire.
pub proof fn lemma_body_of_concat(front: Seq<ArgumentValue>, back: Seq<ArgumentValue>)
    ensures
        body_of(front + back) == body_of(front) + body_of(back),
    decreases back.len(),
{
    if back.len() == 0 {
        assert(front + back =~= front);
        assert(body_of(front) + body_of(back) =~= body_of(front));
    } else {
        lemma_body_of_concat(front, back.drop_last());
        assert((front + back).drop_last() =~= front + back.drop_last());
        assert((front + back).last() == back.last());
        assert(body_of(front + back) =~= body_of(front) + body_of(back));
    }
}

/// The encodings of a list of one argument are its encoding.
pub proof fn lemma_body_of_one(argument: ArgumentValue)
    ensures
        body_of(seq![argument]) == argument.encoding(),
{
    reveal_with_fuel(body_of, 2);
    assert(seq![argument].drop_last() =~= Seq::<ArgumentValue>::empty());
    assert(body_of(seq![argument]) =~= argument.encoding());
}

/// The entry at the head of a wire form and the number of bytes it takes,
/// or nothing where the bytes do not begin with a whole, well-formed entry.
pub open spec fn first_entry(bytes: Seq<u8>) -> Option<(EntryValue, int)> {
    if bytes.len() == 0 {
        None
    } else if bytes[0] == TAG_INTEGER {
        if bytes.len() >= 9 {
            Some((EntryValue::Integer(signed(u64_of(bytes.subrange(1, 9)), 8) as i64), 9))
        } else {
            None
        }
    } else if bytes[0] == TAG_BOOLEAN {
        if bytes.len() >= 5 {
            Some((EntryValue::Boolean(signed(u32_of(bytes.subrange(1, 5)), 4) as i32), 5))
        } else {
            None
        }
    } else if bytes[0] == TAG_BINARY || bytes[0] == TAG_STRING {
        if bytes.len() >= 5 && bytes.len() >= 5 + u32_of(bytes.subrange(1, 5)) {
            let end = 5 + u32_of(bytes.subrange(1, 5));
            let payload = bytes.subrange(5, end);
            if bytes[0] == TAG_BINARY {
                Some((EntryValue::Binary(payload), end))
            } else if valid_utf8(payload) {
                Some((EntryValue::String(payload), end))
            } else {
                None
            }
        } else {
            None
        }
    } else {
        None
    }
}

/// The argument at the head of a run of encodings and the number of bytes
/// it takes, or nothing where the bytes do not begin with a whole,
/// well-formed argument.
pub open spec fn first_argument(bytes: Seq<u8>) -> Option<(ArgumentValue, int)> {
    if bytes.len() < 2 {
        None
    } else if bytes.len() < 2 + u16_of(bytes.take(2)) {
        None
    } else {
        let start = 2 + u16_of(bytes.take(2));
        match first_entry(bytes.skip(start)) {
            Some((entry, used)) => Some(
                (ArgumentValue { key: bytes.subrange(2, start), entry }, start + used),
            ),
            None => None,
        }
    }
}

/// The `count` arguments that a run of encodings is made of, or nothing
/// where the bytes are not exactly that many whole, well-formed arguments.
pub open spec fn body_decoding(bytes: Seq<u8>, count: nat) -> Option<Seq<ArgumentValue>>
    decreases count,
{
    if count == 0 {
        if bytes.len() == 0 {
            Some(Seq::empty())
        } else {
            None
        }
    } else {
        match first_argument(bytes) {
            Some((argument, used)) => if 0 < used <= bytes.len() {
                match body_decoding(bytes.skip(used), (count - 1) as nat) {
                    Some(rest) => Some(seq![argument] + rest),
                    None => None,
                }
            } else {
                None
            },
            None => None,
        }
    }
}

/// The arguments that a wire form stands for, or nothing where the bytes
/// are not the wire form of any list. No bytes at all stand for the empty
/// list.
pub open spec fn decoding_of(bytes: Seq<u8>) -> Option<Seq<ArgumentValue>> {
    if bytes.len() == 0 {
        Some(Seq::empty())
    } else if bytes.len() < 2 {
        None
    } else {
        body_decoding(bytes.skip(2), u16_of(bytes.take(2)) as nat)
    }
}

/// A wire form that begins with the encoding of an entry has that entry at
/// its head.
#[verifier::rlimit(40)]
pub proof fn lemma_first_entry_of_encoding(entry: EntryValue, tail: Seq<u8>)
    requires
        entry.wf(),
    ensures
        first_entry(entry.encoding() + tail) == Some((entry, entry.encoding().len() as int)),
        entry.encoding().len() > 0,
{
    let bytes = entry.encoding() + tail;
    lemma_pow256_values();
    match entry {
        EntryValue::Integer(value) => {
            lemma_signed_round_trip(value as int, 8);
            lemma_u64_round_trip(unsigned(value as int, 8));
            assert(bytes.subrange(1, 9) =~= be_bytes(unsigned(value as int, 8), 8));
        },
        EntryValue::Boolean(value) => {
            lemma_signed_round_trip(value as int, 4);
            lemma_u32_round_trip(unsigned(value as int, 4));
            assert(bytes.subrange(1, 5) =~= be_bytes(unsigned(value as int, 4), 4));
        },
        EntryValue::Binary(payload) => {
            lemma_u32_round_trip(payload.len() as int);
            assert(bytes.subrange(1, 5) =~= be_bytes(payload.len() as int, 4));
            assert(bytes.subrange(5, 5 + payload.len() as int) =~= payload);
        },
        EntryValue::String(payload) => {
            lemma_u32_round_trip(payload.len() as int);
            assert(bytes.subrange(1, 5) =~= be_bytes(payload.len() as int, 4));
            assert(bytes.subrange(5, 5 + payload.len() as int) =~= payload);
        },
    }
}

/// The entry at the head of a wire form is well-formed, and its encoding is
/// the bytes it takes.
#[verifier::rlimit(40)]
pub proof fn lemma_encoding_of_first_entry(bytes: Seq<u8>)
    requires
        first_entry(bytes) is Some,
    ensures
        ({
            let (entry, used) = first_entry(bytes)->0;
            &&& entry.wf()
            &&& 0 < used <= bytes.len()
            &&& entry.encoding() == bytes.take(used)
        }),
{
    let (entry, used) = first_entry(bytes)->0;
    lemma_pow256_values();
    match entry {
        EntryValue::Integer(value) => {
            let field = bytes.subrange(1, 9);
            lemma_u64_bytes_round_trip(field);
            lemma_unsigned_round_trip(u64_of(field), 8);
            assert(entry.encoding() =~= bytes.take(used));
        },
        EntryValue::Boolean(value) => {
            let field = bytes.subrange(1, 5);
            lemma_u32_bytes_round_trip(field);
            lemma_unsigned_round_trip(u32_of(field), 4);
            assert(entry.encoding() =~= bytes.take(used));
        },
        EntryValue::Binary(payload) => {
            let field = bytes.subrange(1, 5);
            lemma_u32_bytes_round_trip(field);
            assert(entry.encoding() =~= bytes.take(used));
        },
        EntryValue::String(payload) => {
            let field = bytes.subrange(1, 5);
            lemma_u32_bytes_round_trip(field);
            assert(entry.encoding() =~= bytes.take(used));
        },
    }
}

/// A run of bytes that begins with the encoding of an argument has that
/// argument at its head.
pub proof fn lemma_first_argument_of_encoding(argument: ArgumentValue, tail: Seq<u8>)
    requires
        argument.wf(),
    ensures
        first_argument(argument.encoding() + tail) == Some(
            (argument, argument.encoding().len() as int),
        ),
        argument.encoding().len() > 0,
{
    let bytes = argument.encoding() + tail;
    let length = argument.key.len() as int;
    lemma_u16_round_trip(length);
    assert(bytes.take(2) =~= be_bytes(length, 2));
    assert(bytes.subrange(2, 2 + length) =~= argument.key);
    assert(bytes.skip(2 + length) =~= argument.entry.encoding() + tail);
    lemma_first_entry_of_encoding(argument.entry, tail);
}

/// The argument at the head of a run of bytes is well-formed, and its
/// encoding is the bytes it takes.
pub proof fn lemma_encoding_of_first_argument(bytes: Seq<u8>)
    requires
        first_argument(bytes) is Some,
    ensures
        ({
            let (argument, used) = first_argument(bytes)->0;
            &&& argument.wf()
            &&& 0 < used <= bytes.len()
            &&& argument.encoding() == bytes.take(used)
        }),
{
    let (argument, used) = first_argument(bytes)->0;
    let start = 2 + u16_of(bytes.take(2));
    lemma_u16_bytes_round_trip(bytes.take(2));
    lemma_encoding_of_first_entry(bytes.skip(start));
    let inner = first_entry(bytes.skip(start))->0;
    let taken = inner.1;
    assert(bytes.skip(start).take(taken) =~= bytes.subrange(start, start + taken));
    assert(argument.encoding() =~= bytes.take(used));
}

/// Reading undoes writing, argument by argument.
pub proof fn lemma_body_decoding_of_body(arguments: Seq<ArgumentValue>)
    requires
        forall|i: int| 0 <= i < arguments.len() ==> (#[trigger] arguments[i]).wf(),
    ensures
        body_decoding(body_of(arguments), arguments.len()) == Some(arguments),
    decreases arguments.len(),
{
    if arguments.len() == 0 {
    } else {
        let head = arguments[0];
        let rest = arguments.drop_first();
        assert(head.wf());
        assert forall|i: int| 0 <= i < rest.len() implies (#[trigger] rest[i]).wf() by {
            assert(rest[i] == arguments[i + 1]);
        }
        assert(arguments =~= seq![head] + rest);
        lemma_body_of_concat(seq![head], rest);
        lemma_body_of_one(head);
        let bytes = body_of(arguments);
        assert(bytes == head.encoding() + body_of(rest));
        lemma_first_argument_of_encoding(head, body_of(rest));
        assert(bytes.skip(head.encoding().len() as int) =~= body_of(rest));
        lemma_body_decoding_of_body(rest);
    }
}

/// Writing undoes reading, argument by argument.
pub proof fn lemma_body_of_body_decoding(bytes: Seq<u8>, count: nat)
    requires
        body_decoding(bytes, count) is Some,
    ensures
        ({
            let arguments = body_decoding(bytes, count)->0;
            &&& arguments.len() == count
            &&& forall|i: int| 0 <= i < arguments.len() ==> (#[trigger] arguments[i]).wf()
            &&& body_of(arguments) == bytes
        }),
    decreases count,
{
    if count == 0 {
        assert(bytes =~= Seq::<u8>::empty());
    } else {
        let (head, used) = first_argument(bytes)->0;
        let tail = bytes.skip(used);
        let rest = body_decoding(tail, (count - 1) as nat)->0;
        lemma_encoding_of_first_argument(bytes);
        lemma_body_of_body_decoding(tail, (count - 1) as nat);
        let arguments = seq![head] + rest;
        assert(body_decoding(bytes, count)->0 == arguments);
        lemma_body_of_concat(seq![head], rest);
        lemma_body_of_one(head);
        assert(bytes =~= bytes.take(used) + tail);
        assert forall|i: int| 0 <= i < arguments.len() implies (#[trigger] arguments[i]).wf() by {
            if i > 0 {
                assert(arguments[i] == rest[i - 1]);
            }
        }
    }
}

/// Decoding undoes encoding: the wire form of a list of well-formed
/// arguments stands for exactly that list.
pub proof fn lemma_decoding_of_wire(arguments: Seq<ArgumentValue>)
    requires
        arguments_wf(arguments),
    ensures
        decoding_of(wire_of(arguments)) == Some(arguments),
{
    let bytes = wire_of(arguments);
    lemma_u16_round_trip(arguments.len() as int);
    assert(bytes.take(2) =~= be_bytes(arguments.len() as int, 2));
    assert(bytes.skip(2) =~= body_of(arguments));
    lemma_body_decoding_of_body(arguments);
}

/// Encoding undoes decoding: whatever a wire form of at least one byte
/// stands for is a list of well-formed arguments with that wire form. With
/// the law before, every list has one wire form, and every wire form but
/// the empty one stands for one list.
pub proof fn lemma_wire_of_decoding(bytes: Seq<u8>)
    requires
        bytes.len() > 0,
        decoding_of(bytes) is Some,
    ensures
        arguments_wf(decoding_of(bytes)->0),
        wire_of(decoding_of(bytes)->0) == bytes,
{
    let count = u16_of(bytes.take(2));
    lemma_u16_bytes_round_trip(bytes.take(2));
    lemma_body_of_body_decoding(bytes.skip(2), count as nat);
    assert(bytes =~= bytes.take(2) + bytes.skip(2));
}

/// What a callee reads is what its caller staged, in the order in which it
/// was staged: the wire form of a list of well-formed entries stands for
/// those entries under empty keys.
pub proof fn lemma_decoding_of_encoding(entries: Seq<EntryValue>)
    requires
        all_wf(entries),
        entries.len() <= MAX_COUNT,
    ensures
        decoding_of(encoding_of(entries)) == Some(unkeyed(entries)),
        entries_of(unkeyed(entries)) == entries,
{
    let arguments = unkeyed(entries);
    assert forall|i: int| 0 <= i < arguments.len() implies (#[trigger] arguments[i]).wf() by {
        assert(entries[i].wf());
    }
    lemma_decoding_of_wire(arguments);
    assert(entries_of(arguments) =~= entries);
}

/// A list of arguments followed by what the rest of a wire form stands for.
pub open spec fn followed_by(front: Seq<ArgumentValue>, rest: Option<Seq<ArgumentValue>>)
    -> Option<Seq<ArgumentValue>> {
    match rest {
        Some(back) => Some(front + back),
        None => None,
    }
}

/// Reads the entry at the head of `bytes[at..]`: the entry and the place
/// just past it.
#[verifier::rlimit(40)]
fn read_entry(bytes: &[u8], at: usize) -> (result: Option<(DataEntry, usize)>)
    requires
        at < bytes@.len(),
    ensures
        match result {
            Some((entry, next)) => {
                &&& at < next <= bytes@.len()
                &&& first_entry(bytes@.skip(at as int)) == Some((entry@, next - at))
            },
            None => first_entry(bytes@.skip(at as int)) is None,
        },
{
    let ghost rest = bytes@.skip(at as int);
    let left: usize = bytes.len() - at;
    let tag: u8 = bytes[at];
    if tag == TAG_INTEGER {
        if left < 9 {
            return None;
        }
        proof {
            assert(rest.subrange(1, 9) =~= bytes@.subrange(at + 1, at + 9));
        }
        Some((DataEntry::Integer(from_bits64(read_u64(bytes, at + 1))), at + 9))
    } else if tag == TAG_BOOLEAN {
        if left < 5 {
            return None;
        }
        proof {
            assert(rest.subrange(1, 5) =~= bytes@.subrange(at + 1, at + 5));
        }
        Some((DataEntry::Boolean(from_bits32(read_u32(bytes, at + 1))), at + 5))
    } else if tag == TAG_BINARY || tag == TAG_STRING {
        if left < 5 {
            return None;
        }
        proof {
            assert(rest.subrange(1, 5) =~= bytes@.subrange(at + 1, at + 5));
        }
        let length: u32 = read_u32(bytes, at + 1);
        let room: u64 = (left - 5) as u64;
        let wanted: u64 = length as u64;
        if room < wanted {
            return None;
        }
        let start: usize = at + 5;
        let end: usize = start + length as usize;
        let payload = vstd::slice::slice_subrange(bytes, start, end);
        proof {
            assert(rest.subrange(5, 5 + length) =~= payload@);
        }
        if tag == TAG_BINARY {
            Some((DataEntry::Binary(to_vec(payload)), end))
        } else if utf8_text(payload).is_some() {
            Some((DataEntry::String(to_vec(payload)), end))
        } else {
            None
        }
    } else {
        None
    }
}

/// Reads the argument at the head of `bytes[at..]`: the argument and the
/// place just past it.
fn read_argument(bytes: &[u8], at: usize) -> (result: Option<(Argument, usize)>)
    requires
        at <= bytes@.len(),
    ensures
        match result {
            Some((argument, next)) => {
                &&& at < next <= bytes@.len()
                &&& first_argument(bytes@.skip(at as int)) == Some((argument@, next - at))
            },
            None => first_argument(bytes@.skip(at as int)) is None,
        },
{
    let ghost rest = bytes@.skip(at as int);
    let left: usize = bytes.len() - at;
    if left < 2 {
        return None;
    }
    proof {
        assert(rest.take(2) =~= bytes@.subrange(at as int, at + 2));
    }
    let length: usize = read_u16(bytes, at) as usize;
    if left - 2 < length {
        return None;
    }
    let start: usize = at + 2 + length;
    let key = vstd::slice::slice_subrange(bytes, at + 2, start);
    proof {
        assert(rest.subrange(2, 2 + length) =~= key@);
        assert(rest.skip(2 + length) =~= bytes@.skip(start as int));
    }
    if start >= bytes.len() {
        return None;
    }
    match read_entry(bytes, start) {
        Some((entry, next)) => Some((Argument { key: to_vec(key), entry }, next)),
        None => None,
    }
}

/// Reads a list of arguments off the wire.
///
/// The answer is the one list whose wire form `bytes` is, or nothing where
/// `bytes` is the wire form of no list: a count that the arguments do not
/// match, an unknown tag, an argument cut short, or a string that is not
/// well-formed UTF-8. No bytes at all are read as the empty list.
pub fn deserialize(bytes: &[u8]) -> (result: Option<Vec<Argument>>)
    ensures
        match result {
            Some(arguments) => decoding_of(bytes@) == Some(arguments_of(arguments@)),
            None => decoding_of(bytes@) is None,
        },
{
    let mut arguments: Vec<Argument> = Vec::new();
    if bytes.len() == 0 {
        assert(arguments_of(arguments@) =~= Seq::<ArgumentValue>::empty());
        return Some(arguments);
    }
    if bytes.len() < 2 {
        return None;
    }
    proof {
        assert(bytes@.take(2) =~= bytes@.subrange(0, 2));
    }
    let count: u16 = read_u16(bytes, 0);
    let mut at: usize = 2;
    let mut i: u16 = 0;
    proof {
        assert(arguments_of(arguments@) =~= Seq::<ArgumentValue>::empty());
        lemma_followed_by_nothing(body_decoding(bytes@.skip(2), count as nat));
    }
    while i < count
        invariant
            i <= count,
            2 <= at <= bytes@.len(),
            decoding_of(bytes@) == followed_by(
                arguments_of(arguments@),
                body_decoding(bytes@.skip(at as int), (count - i) as nat),
            ),
        decreases count - i,
    {
        let ghost front = arguments_of(arguments@);
        let ghost rest = bytes@.skip(at as int);
        match read_argument(bytes, at) {
            Some((argument, next)) => {
                proof {
                    assert(rest.skip(next - at) =~= bytes@.skip(next as int));
                    let back = body_decoding(bytes@.skip(next as int), (count - i - 1) as nat);
                    assert(arguments_of(arguments@.push(argument)) =~= front.push(argument@));
                    if back is Some {
                        assert(front + (seq![argument@] + back->0) =~= front.push(argument@)
                            + back->0);
                    }
                }
                arguments.push(argument);
                at = next;
                i += 1;
            },
            None => {
                return None;
            },
        }
    }
    if at != bytes.len() {
        return None;
    }
    proof {
        assert(bytes@.skip(at as int) =~= Seq::<u8>::empty());
        assert(arguments_of(arguments@) + Seq::<ArgumentValue>::empty() =~= arguments_of(
            arguments@,
        ));
    }
    Some(arguments)
}

/// Nothing followed by a list is that list.
proof fn lemma_followed_by_nothing(rest: Option<Seq<ArgumentValue>>)
    ensures
        followed_by(Seq::empty(), rest) == rest,
{
    if rest is Some {
        assert(Seq::<ArgumentValue>::empty() + rest->0 =~= rest->0);
    }
}

} // verus!
