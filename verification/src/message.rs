//! The messages that nodes exchange, and their form on the wire.
//!
//! One frame of the transport carries one message. A message starts with a
//! four-byte tag that says which of the four kinds it is; integers are
//! written least significant byte first, the octets of an IP address in
//! network order, a list or a text after its eight-byte length.

use crate::address::Address;
use crate::wire::{
    be_bytes, be_value, le_bytes, le_value, lemma_bytes_len, lemma_pow256_values,
    lemma_value_bound, lemma_value_of_bytes, push_be, push_le, read_be, read_le,
};
use vstd::prelude::*;
use vstd::slice::{slice_subrange, slice_to_vec};
use vstd::utf8::{decode_utf8, encode_utf8, encode_utf8_decode_utf8, encode_utf8_valid_utf8, valid_utf8};

verus! {

/// What one node tells another.
#[derive(Debug, PartialEq, Eq)]
pub enum Message {
    /// The sender's public address.
    RetrievePubAddr(Address),
    /// A request for the addresses that the receiver knows.
    RetrievePeerList,
    /// The answer to such a request: the answering node's own address, then
    /// those of its peers.
    RespondToListQuery(Vec<Address>),
    /// A text to pass on.
    RequestRandomInfo(String),
}

/// A message as a mathematical value.
pub enum MessageView {
    RetrievePubAddr(Address),
    RetrievePeerList,
    RespondToListQuery(Seq<Address>),
    RequestRandomInfo(Seq<char>),
}

impl View for Message {
    type V = MessageView;

    open spec fn view(&self) -> MessageView {
        match self {
            Message::RetrievePubAddr(address) => MessageView::RetrievePubAddr(*address),
            Message::RetrievePeerList => MessageView::RetrievePeerList,
            Message::RespondToListQuery(list) => MessageView::RespondToListQuery(list@),
            Message::RequestRandomInfo(text) => MessageView::RequestRandomInfo(text@),
        }
    }
}

impl Clone for Message {
    fn clone(&self) -> (copy: Message)
        ensures
            copy@ == self@,
    {
        match self {
            Message::RetrievePubAddr(address) => Message::RetrievePubAddr(*address),
            Message::RetrievePeerList => Message::RetrievePeerList,
            Message::RespondToListQuery(list) => Message::RespondToListQuery(
                slice_to_vec(list.as_slice()),
            ),
            Message::RequestRandomInfo(text) => Message::RequestRandomInfo(text.clone()),
        }
    }
}

/// Why bytes are not a message.
#[derive(Clone, Copy, Debug, PartialEq, Eq, Structural)]
pub enum DecodeError {
    /// The bytes end before the message does.
    Truncated,
    /// The message tag is none of the four.
    UnknownMessage(u32),
    /// The tag of an address is neither that of IPv4 nor that of IPv6.
    UnknownAddressFamily(u32),
    /// The bytes of a text are not UTF-8.
    InvalidText,
}

/// The tag of [`Message::RetrievePubAddr`].
pub const TAG_PUB_ADDR: u32 = 0;

/// The tag of [`Message::RetrievePeerList`].
pub const TAG_PEER_LIST: u32 = 1;

/// The tag of [`Message::RespondToListQuery`].
pub const TAG_LIST_RESPONSE: u32 = 2;

/// The tag of [`Message::RequestRandomInfo`].
pub const TAG_RANDOM_INFO: u32 = 3;

/// The tag of an IPv4 address.
pub const FAMILY_V4: u32 = 0;

/// The tag of an IPv6 address.
pub const FAMILY_V6: u32 = 1;

/// An address on the wire: its tag, its octets, its port.
pub open spec fn encode_address(address: Address) -> Seq<u8> {
    match address {
        Address::V4 { ip, port } => le_bytes(FAMILY_V4 as nat, 4) + be_bytes(ip as nat, 4)
            + le_bytes(port as nat, 2),
        Address::V6 { ip, port } => le_bytes(FAMILY_V6 as nat, 4) + be_bytes(ip as nat, 16)
            + le_bytes(port as nat, 2),
    }
}

/// Addresses on the wire, one after the other.
pub open spec fn encode_addresses(list: Seq<Address>) -> Seq<u8>
    decreases list.len(),
{
    if list.len() == 0 {
        Seq::empty()
    } else {
        encode_address(list[0]) + encode_addresses(list.drop_first())
    }
}

/// A message on the wire.
pub open spec fn encode(message: MessageView) -> Seq<u8> {
    match message {
        MessageView::RetrievePubAddr(address) => le_bytes(TAG_PUB_ADDR as nat, 4) + encode_address(
            address,
        ),
        MessageView::RetrievePeerList => le_bytes(TAG_PEER_LIST as nat, 4),
        MessageView::RespondToListQuery(list) => le_bytes(TAG_LIST_RESPONSE as nat, 4) + le_bytes(
            list.len(),
            8,
        ) + encode_addresses(list),
        MessageView::RequestRandomInfo(text) => le_bytes(TAG_RANDOM_INFO as nat, 4) + le_bytes(
            encode_utf8(text).len(),
            8,
        ) + encode_utf8(text),
    }
}

/// The address at the start of `bytes` and the bytes that follow it.
pub open spec fn parse_address(bytes: Seq<u8>) -> Result<(Address, Seq<u8>), DecodeError> {
    if bytes.len() < 4 {
        Err(DecodeError::Truncated)
    } else {
        let family = le_value(bytes.subrange(0, 4));
        if family == FAMILY_V4 {
            if bytes.len() < 10 {
                Err(DecodeError::Truncated)
            } else {
                Ok(
                    (
                        Address::V4 {
                            ip: be_value(bytes.subrange(4, 8)) as u32,
                            port: le_value(bytes.subrange(8, 10)) as u16,
                        },
                        bytes.skip(10),
                    ),
                )
            }
        } else if family == FAMILY_V6 {
            if bytes.len() < 22 {
                Err(DecodeError::Truncated)
            } else {
                Ok(
                    (
                        Address::V6 {
                            ip: be_value(bytes.subrange(4, 20)) as u128,
                            port: le_value(bytes.subrange(20, 22)) as u16,
                        },
                        bytes.skip(22),
                    ),
                )
            }
        } else {
            Err(DecodeError::UnknownAddressFamily(family as u32))
        }
    }
}

/// The `count` addresses at the start of `bytes` and the bytes that follow
/// them. The first address that cannot be read decides the error.
pub open spec fn parse_addresses(bytes: Seq<u8>, count: nat) -> Result<
    (Seq<Address>, Seq<u8>),
    DecodeError,
>
    decreases count,
{
    if count == 0 {
        Ok((Seq::empty(), bytes))
    } else {
        match parse_address(bytes) {
            Err(error) => Err(error),
            Ok((first, rest)) => match parse_addresses(rest, (count - 1) as nat) {
                Err(error) => Err(error),
                Ok((others, tail)) => Ok((seq![first] + others, tail)),
            },
        }
    }
}

/// The message that `bytes` start with. Bytes after the message are not
/// looked at.
pub open spec fn decode(bytes: Seq<u8>) -> Result<MessageView, DecodeError> {
    if bytes.len() < 4 {
        Err(DecodeError::Truncated)
    } else {
        let tag = le_value(bytes.subrange(0, 4));
        let body = bytes.skip(4);
        if tag == TAG_PUB_ADDR {
            match parse_address(body) {
                Err(error) => Err(error),
                Ok((address, _)) => Ok(MessageView::RetrievePubAddr(address)),
            }
        } else if tag == TAG_PEER_LIST {
            Ok(MessageView::RetrievePeerList)
        } else if tag == TAG_LIST_RESPONSE {
            if body.len() < 8 {
                Err(DecodeError::Truncated)
            } else {
                list_response(parse_addresses(body.skip(8), le_value(body.subrange(0, 8))))
            }
        } else if tag == TAG_RANDOM_INFO {
            if body.len() < 8 {
                Err(DecodeError::Truncated)
            } else {
                let length = le_value(body.subrange(0, 8));
                if body.len() - 8 < length {
                    Err(DecodeError::Truncated)
                } else {
                    let text = body.subrange(8, 8 + length as int);
                    if valid_utf8(text) {
                        Ok(MessageView::RequestRandomInfo(decode_utf8(text)))
                    } else {
                        Err(DecodeError::InvalidText)
                    }
                }
            }
        } else {
            Err(DecodeError::UnknownMessage(tag as u32))
        }
    }
}

/// Whether the lengths in `message` fit the eight bytes that the wire has
/// for them. Every message that a machine holds does.
pub open spec fn fits_wire(message: MessageView) -> bool {
    match message {
        MessageView::RespondToListQuery(list) => list.len() <= u64::MAX,
        MessageView::RequestRandomInfo(text) => encode_utf8(text).len() <= u64::MAX,
        _ => true,
    }
}

/// An address that was written is read back, and what followed it is left
/// over.
pub proof fn lemma_parse_encoded_address(address: Address, tail: Seq<u8>)
    ensures
        parse_address(encode_address(address) + tail) == Ok::<_, DecodeError>((address, tail)),
{
    let bytes = encode_address(address) + tail;
    lemma_pow256_values();
    match address {
        Address::V4 { ip, port } => {
            lemma_bytes_len(FAMILY_V4 as nat, 4);
            lemma_bytes_len(ip as nat, 4);
            lemma_bytes_len(port as nat, 2);
            lemma_value_of_bytes(FAMILY_V4 as nat, 4);
            lemma_value_of_bytes(ip as nat, 4);
            lemma_value_of_bytes(port as nat, 2);
            assert(bytes.subrange(0, 4) =~= le_bytes(FAMILY_V4 as nat, 4));
            assert(bytes.subrange(4, 8) =~= be_bytes(ip as nat, 4));
            assert(bytes.subrange(8, 10) =~= le_bytes(port as nat, 2));
            assert(bytes.skip(10) =~= tail);
        },
        Address::V6 { ip, port } => {
            lemma_bytes_len(FAMILY_V6 as nat, 4);
            lemma_bytes_len(ip as nat, 16);
            lemma_bytes_len(port as nat, 2);
            lemma_value_of_bytes(FAMILY_V6 as nat, 4);
            lemma_value_of_bytes(ip as nat, 16);
            lemma_value_of_bytes(port as nat, 2);
            assert(bytes.subrange(0, 4) =~= le_bytes(FAMILY_V6 as nat, 4));
            assert(bytes.subrange(4, 20) =~= be_bytes(ip as nat, 16));
            assert(bytes.subrange(20, 22) =~= le_bytes(port as nat, 2));
            assert(bytes.skip(22) =~= tail);
        },
    }
}

/// A list of addresses that was written is read back, and what followed it
/// is left over.
pub proof fn lemma_parse_encoded_addresses(list: Seq<Address>, tail: Seq<u8>)
    ensures
        parse_addresses(encode_addresses(list) + tail, list.len()) == Ok::<_, DecodeError>(
            (list, tail),
        ),
    decreases list.len(),
{
    if list.len() == 0 {
        assert(encode_addresses(list) + tail =~= tail);
        assert(list =~= Seq::<Address>::empty());
    } else {
        let others = list.drop_first();
        let rest = encode_addresses(others) + tail;
        assert(encode_addresses(list) + tail =~= encode_address(list[0]) + rest);
        lemma_parse_encoded_address(list[0], rest);
        lemma_parse_encoded_addresses(others, tail);
        assert(seq![list[0]] + others =~= list);
    }
}

/// What a node writes, a node reads: the bytes of a message, with or without
/// more bytes after them, decode to that message.
pub proof fn lemma_decode_encoded(message: MessageView, tail: Seq<u8>)
    requires
        fits_wire(message),
    ensures
        decode(encode(message) + tail) == Ok::<_, DecodeError>(message),
        decode(encode(message)) == Ok::<_, DecodeError>(message),
{
    lemma_decode_encoded_with_tail(message, tail);
    lemma_decode_encoded_with_tail(message, Seq::empty());
    assert(encode(message) + Seq::<u8>::empty() =~= encode(message));
}

proof fn lemma_decode_encoded_with_tail(message: MessageView, tail: Seq<u8>)
    requires
        fits_wire(message),
    ensures
        decode(encode(message) + tail) == Ok::<_, DecodeError>(message),
{
    let bytes = encode(message) + tail;
    let body = bytes.skip(4);
    lemma_pow256_values();
    match message {
        MessageView::RetrievePubAddr(address) => {
            lemma_bytes_len(TAG_PUB_ADDR as nat, 4);
            lemma_value_of_bytes(TAG_PUB_ADDR as nat, 4);
            assert(bytes.subrange(0, 4) =~= le_bytes(TAG_PUB_ADDR as nat, 4));
            assert(body =~= encode_address(address) + tail);
            lemma_parse_encoded_address(address, tail);
        },
        MessageView::RetrievePeerList => {
            lemma_bytes_len(TAG_PEER_LIST as nat, 4);
            lemma_value_of_bytes(TAG_PEER_LIST as nat, 4);
            assert(bytes.subrange(0, 4) =~= le_bytes(TAG_PEER_LIST as nat, 4));
        },
        MessageView::RespondToListQuery(list) => {
            lemma_bytes_len(TAG_LIST_RESPONSE as nat, 4);
            lemma_value_of_bytes(TAG_LIST_RESPONSE as nat, 4);
            lemma_bytes_len(list.len(), 8);
            lemma_value_of_bytes(list.len(), 8);
            assert(bytes.subrange(0, 4) =~= le_bytes(TAG_LIST_RESPONSE as nat, 4));
            assert(body.subrange(0, 8) =~= le_bytes(list.len(), 8));
            assert(body.skip(8) =~= encode_addresses(list) + tail);
            lemma_parse_encoded_addresses(list, tail);
        },
        MessageView::RequestRandomInfo(text) => {
            let raw = encode_utf8(text);
            lemma_bytes_len(TAG_RANDOM_INFO as nat, 4);
            lemma_value_of_bytes(TAG_RANDOM_INFO as nat, 4);
            lemma_bytes_len(raw.len(), 8);
            lemma_value_of_bytes(raw.len(), 8);
            assert(bytes.subrange(0, 4) =~= le_bytes(TAG_RANDOM_INFO as nat, 4));
            assert(body.subrange(0, 8) =~= le_bytes(raw.len(), 8));
            assert(body.subrange(8, 8 + raw.len() as int) =~= raw);
            encode_utf8_valid_utf8(text);
            encode_utf8_decode_utf8(text);
        },
    }
}

/// The message that a list makes, once it is read.
pub open spec fn list_response(
    read: Result<(Seq<Address>, Seq<u8>), DecodeError>,
) -> Result<MessageView, DecodeError> {
    match read {
        Err(error) => Err(error),
        Ok((list, _)) => Ok(MessageView::RespondToListQuery(list)),
    }
}

/// The result of reading a list, with the addresses read before it put in
/// front.
spec fn after(
    read: Seq<Address>,
    rest: Result<(Seq<Address>, Seq<u8>), DecodeError>,
) -> Result<(Seq<Address>, Seq<u8>), DecodeError> {
    match rest {
        Err(error) => Err(error),
        Ok((others, tail)) => Ok((read + others, tail)),
    }
}

/// Reading a list is reading its first address and then the rest.
proof fn lemma_parse_next_address(
    read: Seq<Address>,
    bytes: Seq<u8>,
    count: nat,
    first: Address,
    rest: Seq<u8>,
)
    requires
        count > 0,
        parse_address(bytes) == Ok::<_, DecodeError>((first, rest)),
    ensures
        after(read, parse_addresses(bytes, count)) == after(
            read.push(first),
            parse_addresses(rest, (count - 1) as nat),
        ),
{
    match parse_addresses(rest, (count - 1) as nat) {
        Err(_) => {},
        Ok((others, _)) => {
            assert(read + (seq![first] + others) =~= read.push(first) + others);
        },
    }
}

/// Writing one more address appends its bytes.
proof fn lemma_encode_one_more(list: Seq<Address>, last: Address)
    ensures
        encode_addresses(list.push(last)) == encode_addresses(list) + encode_address(last),
    decreases list.len(),
{
    let longer = list.push(last);
    if list.len() == 0 {
        assert(longer.drop_first() =~= Seq::<Address>::empty());
        assert(encode_addresses(longer.drop_first()) =~= Seq::<u8>::empty());
        assert(encode_addresses(list) =~= Seq::<u8>::empty());
        assert(encode_addresses(longer) =~= encode_addresses(list) + encode_address(last));
    } else {
        assert(longer.drop_first() =~= list.drop_first().push(last));
        lemma_encode_one_more(list.drop_first(), last);
        assert(encode_addresses(longer) =~= encode_addresses(list) + encode_address(last));
    }
}

/// Makes a text of UTF-8 bytes with `String::from_utf8` of the standard
/// library, which accepts exactly the byte sequences that are well-formed
/// UTF-8 and gives the text that they spell.
#[verifier::external_body]
fn text_from_utf8(bytes: Vec<u8>) -> (text: Option<String>)
    ensures
        text is Some <==> valid_utf8(bytes@),
        text matches Some(made) ==> made@ == decode_utf8(bytes@),
{
    match String::from_utf8(bytes) {
        Ok(text) => Some(text),
        Err(_) => None,
    }
}

fn push_address(out: &mut Vec<u8>, address: Address)
    ensures
        final(out)@ == old(out)@ + encode_address(address),
{
    match address {
        Address::V4 { ip, port } => {
            push_le(out, FAMILY_V4 as u64, 4);
            push_be(out, ip as u128, 4);
            push_le(out, port as u64, 2);
        },
        Address::V6 { ip, port } => {
            push_le(out, FAMILY_V6 as u64, 4);
            push_be(out, ip, 16);
            push_le(out, port as u64, 2);
        },
    }
    assert(final(out)@ =~= old(out)@ + encode_address(address));
}

fn read_address(data: &[u8], at: usize) -> (read: Result<(Address, usize), DecodeError>)
    requires
        at <= data@.len(),
    ensures
        match read {
            Ok((address, next)) => at <= next <= data@.len() && parse_address(data@.skip(at as int))
                == Ok::<_, DecodeError>((address, data@.skip(next as int))),
            Err(error) => parse_address(data@.skip(at as int)) == Err::<(Address, Seq<u8>), _>(
                error,
            ),
        },
{
    let ghost bytes = data@.skip(at as int);
    let left: usize = data.len() - at;
    if left < 4 {
        return Err(DecodeError::Truncated);
    }
    let family: u64 = read_le(data, at, 4);
    proof {
        assert(bytes.subrange(0, 4) =~= data@.subrange(at as int, at + 4));
        lemma_value_bound(bytes.subrange(0, 4));
        lemma_pow256_values();
    }
    if family == FAMILY_V4 as u64 {
        if left < 10 {
            return Err(DecodeError::Truncated);
        }
        let ip: u128 = read_be(data, at + 4, 4);
        let port: u64 = read_le(data, at + 8, 2);
        proof {
            assert(bytes.subrange(4, 8) =~= data@.subrange(at + 4, at + 8));
            assert(bytes.subrange(8, 10) =~= data@.subrange(at + 8, at + 10));
            assert(bytes.skip(10) =~= data@.skip(at + 10));
            lemma_value_bound(bytes.subrange(4, 8));
            lemma_value_bound(bytes.subrange(8, 10));
        }
        Ok((Address::V4 { ip: ip as u32, port: port as u16 }, at + 10))
    } else if family == FAMILY_V6 as u64 {
        if left < 22 {
            return Err(DecodeError::Truncated);
        }
        let ip: u128 = read_be(data, at + 4, 16);
        let port: u64 = read_le(data, at + 20, 2);
        proof {
            assert(bytes.subrange(4, 20) =~= data@.subrange(at + 4, at + 20));
            assert(bytes.subrange(20, 22) =~= data@.subrange(at + 20, at + 22));
            assert(bytes.skip(22) =~= data@.skip(at + 22));
            lemma_value_bound(bytes.subrange(4, 20));
            lemma_value_bound(bytes.subrange(20, 22));
        }
        Ok((Address::V6 { ip, port: port as u16 }, at + 22))
    } else {
        Err(DecodeError::UnknownAddressFamily(family as u32))
    }
}

impl Message {
    /// The bytes of the message on the wire.
    pub fn serialize(&self) -> (bytes: Vec<u8>)
        ensures
            bytes@ == encode(self@),
    {
        let mut bytes: Vec<u8> = Vec::new();
        match self {
            Message::RetrievePubAddr(address) => {
                push_le(&mut bytes, TAG_PUB_ADDR as u64, 4);
                push_address(&mut bytes, *address);
            },
            Message::RetrievePeerList => {
                push_le(&mut bytes, TAG_PEER_LIST as u64, 4);
            },
            Message::RespondToListQuery(list) => {
                push_le(&mut bytes, TAG_LIST_RESPONSE as u64, 4);
                push_le(&mut bytes, list.len() as u64, 8);
                let ghost head = bytes@;
                let mut at: usize = 0;
                proof {
                    assert(bytes@ =~= head + encode_addresses(list@.take(0)));
                }
                while at < list.len()
                    invariant
                        at <= list.len(),
                        bytes@ == head + encode_addresses(list@.take(at as int)),
                    decreases list.len() - at,
                {
                    push_address(&mut bytes, list[at]);
                    proof {
                        lemma_encode_one_more(list@.take(at as int), list@[at as int]);
                        assert(list@.take(at + 1) =~= list@.take(at as int).push(list@[at as int]));
                        assert(bytes@ =~= head + encode_addresses(list@.take(at + 1)));
                    }
                    at += 1;
                }
                proof {
                    assert(list@.take(at as int) =~= list@);
                }
            },
            Message::RequestRandomInfo(text) => {
                let raw = text.as_str().as_bytes();
                push_le(&mut bytes, TAG_RANDOM_INFO as u64, 4);
                push_le(&mut bytes, raw.len() as u64, 8);
                let mut copy: Vec<u8> = slice_to_vec(raw);
                bytes.append(&mut copy);
            },
        }
        assert(bytes@ =~= encode(self@));
        bytes
    }

    /// The message that `data` starts with, or why there is none. Bytes
    /// after the message are not looked at.
    pub fn deserialize(data: &[u8]) -> (message: Result<Message, DecodeError>)
        ensures
            match message {
                Ok(read) => decode(data@) == Ok::<_, DecodeError>(read@),
                Err(error) => decode(data@) == Err::<MessageView, _>(error),
            },
    {
        if data.len() < 4 {
            return Err(DecodeError::Truncated);
        }
        let tag: u64 = read_le(data, 0, 4);
        let ghost body = data@.skip(4);
        proof {
            lemma_value_bound(data@.subrange(0, 4));
            lemma_pow256_values();
        }
        if tag == TAG_PUB_ADDR as u64 {
            match read_address(data, 4) {
                Ok((address, _)) => Ok(Message::RetrievePubAddr(address)),
                Err(error) => Err(error),
            }
        } else if tag == TAG_PEER_LIST as u64 {
            Ok(Message::RetrievePeerList)
        } else if tag == TAG_LIST_RESPONSE as u64 {
            if data.len() - 4 < 8 {
                return Err(DecodeError::Truncated);
            }
            let count: u64 = read_le(data, 4, 8);
            proof {
                assert(body.subrange(0, 8) =~= data@.subrange(4, 12));
                assert(body.skip(8) =~= data@.skip(12));
            }
            let mut list: Vec<Address> = Vec::new();
            let mut at: usize = 12;
            let mut done: u64 = 0;
            proof {
                let whole = parse_addresses(data@.skip(12), count as nat);
                match whole {
                    Err(_) => {},
                    Ok((others, _)) => {
                        assert(list@ + others =~= others);
                    },
                }
            }
            while done < count
                invariant
                    12 <= at <= data@.len(),
                    done <= count,
                    decode(data@) == list_response(parse_addresses(data@.skip(12), count as nat)),
                    parse_addresses(data@.skip(12), count as nat) == after(
                        list@,
                        parse_addresses(data@.skip(at as int), (count - done) as nat),
                    ),
                decreases count - done,
            {
                match read_address(data, at) {
                    Err(error) => {
                        return Err(error);
                    },
                    Ok((address, next)) => {
                        proof {
                            lemma_parse_next_address(
                                list@,
                                data@.skip(at as int),
                                (count - done) as nat,
                                address,
                                data@.skip(next as int),
                            );
                        }
                        list.push(address);
                        at = next;
                        done += 1;
                    },
                }
            }
            proof {
                assert(list@ + Seq::<Address>::empty() =~= list@);
            }
            Ok(Message::RespondToListQuery(list))
        } else if tag == TAG_RANDOM_INFO as u64 {
            if data.len() - 4 < 8 {
                return Err(DecodeError::Truncated);
            }
            let length: u64 = read_le(data, 4, 8);
            proof {
                assert(body.subrange(0, 8) =~= data@.subrange(4, 12));
            }
            if ((data.len() - 12) as u64) < length {
                return Err(DecodeError::Truncated);
            }
            let end: usize = 12 + length as usize;
            let raw: Vec<u8> = slice_to_vec(slice_subrange(data, 12, end));
            proof {
                assert(body.subrange(8, 8 + length as int) =~= data@.subrange(12, end as int));
            }
            match text_from_utf8(raw) {
                Some(text) => Ok(Message::RequestRandomInfo(text)),
                None => Err(DecodeError::InvalidText),
            }
        } else {
            Err(DecodeError::UnknownMessage(tag as u32))
        }
    }
}

} // verus!
