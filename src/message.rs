use vstd::prelude::*;

use crate::account::{BlockNumber, Timestamp};

verus! {

/// A username: a non-empty text identifier, unique across the registry.
pub type Username = String;

/// The bytes a message carries.
pub type Content = Vec<u8>;

/// What kind of message is carried.
#[derive(Debug, PartialEq, Eq)]
pub enum MessageType {
    Text,
    Email { subject: String },
    ReplyTo { hash: [u8; 32] },
    Json,
    Custom(String),
}

/// The mathematical value of a [`MessageType`].
pub enum MessageTypeView {
    Text,
    Email { subject: Seq<char> },
    ReplyTo { hash: Seq<u8> },
    Json,
    Custom(Seq<char>),
}

impl View for MessageType {
    type V = MessageTypeView;

    open spec fn view(&self) -> MessageTypeView {
        match self {
            MessageType::Text => MessageTypeView::Text,
            MessageType::Email { subject } => MessageTypeView::Email { subject: subject@ },
            MessageType::ReplyTo { hash } => MessageTypeView::ReplyTo { hash: hash@ },
            MessageType::Json => MessageTypeView::Json,
            MessageType::Custom(tag) => MessageTypeView::Custom(tag@),
        }
    }
}

impl Clone for MessageType {
    fn clone(&self) -> (r: MessageType)
        ensures
            r@ == self@,
    {
        match self {
            MessageType::Text => MessageType::Text,
            MessageType::Email { subject } => MessageType::Email { subject: subject.clone() },
            MessageType::ReplyTo { hash } => MessageType::ReplyTo { hash: *hash },
            MessageType::Json => MessageType::Json,
            MessageType::Custom(tag) => MessageType::Custom(tag.clone()),
        }
    }
}

/// A message in a mailbox.
#[derive(Debug, PartialEq, Eq)]
pub struct Message {
    /// The username it was sent from.
    pub from: Username,
    pub mtype: MessageType,
    pub content: Content,
    /// Fingerprint of the block height and the content; not unique.
    pub hash: [u8; 32],
    pub timestamp: Timestamp,
}

/// The mathematical value of a [`Message`].
pub struct MessageView {
    pub from: Seq<char>,
    pub mtype: MessageTypeView,
    pub content: Seq<u8>,
    pub hash: Seq<u8>,
    pub timestamp: Timestamp,
}

impl View for Message {
    type V = MessageView;

    open spec fn view(&self) -> MessageView {
        MessageView {
            from: self.from@,
            mtype: self.mtype@,
            content: self.content@,
            hash: self.hash@,
            timestamp: self.timestamp,
        }
    }
}

/// Copies a byte vector.
fn copy_bytes(v: &Vec<u8>) -> (r: Vec<u8>)
    ensures
        r@ == v@,
{
    let mut r: Vec<u8> = Vec::new();
    let mut i: usize = 0;
    while i < v.len()
        invariant
            0 <= i <= v@.len(),
            r@ == v@.subrange(0, i as int),
        decreases v@.len() - i,
    {
        r.push(v[i]);
        i = i + 1;
        assert(r@ =~= v@.subrange(0, i as int));
    }
    assert(r@ =~= v@);
    r
}

impl Clone for Message {
    fn clone(&self) -> (r: Message)
        ensures
            r@ == self@,
    {
        Message {
            from: self.from.clone(),
            mtype: self.mtype.clone(),
            content: copy_bytes(&self.content),
            hash: self.hash,
            timestamp: self.timestamp,
        }
    }
}

/// The views of a sequence of messages.
pub open spec fn messages_view(s: Seq<Message>) -> Seq<MessageView> {
    s.map_values(|m: Message| m@)
}

/// The big-endian bytes of a block height.
pub open spec fn be_bytes(n: BlockNumber) -> Seq<u8> {
    seq![
        (n / 0x100_0000) as u8,
        ((n / 0x1_0000) % 0x100) as u8,
        ((n / 0x100) % 0x100) as u8,
        (n % 0x100) as u8,
    ]
}

/// What a message's fingerprint is computed from: the block height in
/// big-endian bytes, then the content.
pub open spec fn fingerprint_input(block: BlockNumber, content: Seq<u8>) -> Seq<u8> {
    be_bytes(block) + content
}

/// The SHA-256 digest of a byte sequence.
pub uninterp spec fn sha2_256_of(input: Seq<u8>) -> Seq<u8>;

/// Relies on ink::env::hash_bytes with ink::env::hash::Sha2x256: it writes the
/// 32-byte SHA-256 digest of the input, which depends on the input alone.
#[verifier::external_body]
fn sha2_256(input: &Vec<u8>) -> (r: [u8; 32])
    ensures
        r@ == sha2_256_of(input@),
{
    let mut output = [0u8; 32];
    ink::env::hash_bytes::<ink::env::hash::Sha2x256>(input.as_slice(), &mut output);
    output
}

/// Builds the bytes a message fingerprint is computed from.
pub fn fingerprint_bytes(block: BlockNumber, content: &Vec<u8>) -> (r: Vec<u8>)
    ensures
        r@ == fingerprint_input(block, content@),
{
    let mut r: Vec<u8> = Vec::new();
    r.push((block / 0x100_0000) as u8);
    r.push(((block / 0x1_0000) % 0x100) as u8);
    r.push(((block / 0x100) % 0x100) as u8);
    r.push((block % 0x100) as u8);
    let mut i: usize = 0;
    while i < content.len()
        invariant
            0 <= i <= content@.len(),
            r@ == be_bytes(block) + content@.subrange(0, i as int),
        decreases content@.len() - i,
    {
        r.push(content[i]);
        i = i + 1;
        assert(r@ =~= be_bytes(block) + content@.subrange(0, i as int));
    }
    assert(content@.subrange(0, content@.len() as int) =~= content@);
    r
}

/// The fingerprint of a message sent at the given block height: the SHA-256
/// digest of the height's big-endian bytes followed by the content.
pub fn message_hash(block: BlockNumber, content: &Vec<u8>) -> (r: [u8; 32])
    ensures
        r@ == sha2_256_of(fingerprint_input(block, content@)),
{
    let input = fingerprint_bytes(block, content);
    sha2_256(&input)
}

} // verus!
