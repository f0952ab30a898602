//! How a chat is addressed.

use vstd::prelude::*;

verus! {

/// What sort of chat is addressed.
#[derive(Clone, Copy, Debug, PartialEq, Eq)]
pub enum PackedType {
    User,
    Bot,
    Chat,
    Megagroup,
    Broadcast,
    Gigagroup,
}

/// All that is needed to find a chat again: what it is, its id and the key of
/// the account to it.
#[derive(Clone, Copy, Debug, PartialEq, Eq)]
pub struct PackedChat {
    pub ty: PackedType,
    pub id: i64,
    pub access_hash: Option<i64>,
}

/// The address of a chat as a request carries it.
#[derive(Clone, Copy, Debug, PartialEq, Eq)]
pub enum InputPeer {
    User { user_id: i64, access_hash: i64 },
    Chat { chat_id: i64 },
    Channel { channel_id: i64, access_hash: i64 },
}

/// The packed chat that a hexadecimal text stands for, or `None` if it stands
/// for none.
pub uninterp spec fn packed_in_hex(hex: Seq<char>) -> Option<PackedChat>;

/// `grammers_session::PackedChat::from_hex`.
///
/// Whether a text is accepted, and the chat read from it, depend on the text
/// alone. Two digits stand for each of seventeen bytes, so a text of any other
/// length is not accepted. How the bytes are laid out is not stated.
#[verifier::external_body]
fn packed_chat_from_hex(hex: &str) -> (r: Option<PackedChat>)
    ensures
        r == packed_in_hex(hex@),
        r is Some ==> hex@.len() == 34,
{
    let packed = grammers_session::PackedChat::from_hex(hex).ok()?;
    let ty = match packed.ty {
        grammers_session::PackedType::User => PackedType::User,
        grammers_session::PackedType::Bot => PackedType::Bot,
        grammers_session::PackedType::Chat => PackedType::Chat,
        grammers_session::PackedType::Megagroup => PackedType::Megagroup,
        grammers_session::PackedType::Broadcast => PackedType::Broadcast,
        grammers_session::PackedType::Gigagroup => PackedType::Gigagroup,
    };
    Some(PackedChat { ty, id: packed.id, access_hash: packed.access_hash })
}

impl PackedChat {
    /// The key to the chat, zero where the account has none.
    pub open spec fn key(self) -> i64 {
        match self.access_hash {
            Some(hash) => hash,
            None => 0,
        }
    }

    /// The address of the chat in a request.
    pub open spec fn input_peer(self) -> InputPeer {
        match self.ty {
            PackedType::User | PackedType::Bot => InputPeer::User {
                user_id: self.id,
                access_hash: self.key(),
            },
            PackedType::Chat => InputPeer::Chat { chat_id: self.id },
            PackedType::Megagroup | PackedType::Broadcast | PackedType::Gigagroup =>
                InputPeer::Channel { channel_id: self.id, access_hash: self.key() },
        }
    }

    /// Reads a packed chat from its hexadecimal form.
    pub fn from_hex(hex: &str) -> (r: Option<PackedChat>)
        ensures
            r == packed_in_hex(hex@),
            r is Some ==> hex@.len() == 34,
    {
        packed_chat_from_hex(hex)
    }

    /// The address of the chat in a request.
    pub fn to_input_peer(&self) -> (r: InputPeer)
        ensures
            r == self.input_peer(),
    {
        let access_hash = match self.access_hash {
            Some(hash) => hash,
            None => 0,
        };
        match self.ty {
            PackedType::User | PackedType::Bot => InputPeer::User {
                user_id: self.id,
                access_hash,
            },
            PackedType::Chat => InputPeer::Chat { chat_id: self.id },
            PackedType::Megagroup | PackedType::Broadcast | PackedType::Gigagroup =>
                InputPeer::Channel { channel_id: self.id, access_hash },
        }
    }
}

/// An address names the chat by its id and carries the key to it, or zero where
/// the account has none. Users and bots are addressed as users, groups of the old
/// sort as chats, without a key, and everything else as a channel.
pub proof fn law_address_names_the_chat(chat: PackedChat, hash: i64)
    ensures
        chat.input_peer() is User <==> chat.ty is User || chat.ty is Bot,
        chat.input_peer() is Chat <==> chat.ty is Chat,
        chat.input_peer() is Channel <==> chat.ty is Megagroup || chat.ty is Broadcast || chat.ty
            is Gigagroup,
        chat.input_peer() matches InputPeer::User { user_id, access_hash } ==> user_id == chat.id && (
        chat.access_hash == Some(hash) ==> access_hash == hash) && (chat.access_hash is None
            ==> access_hash == 0),
        chat.input_peer() matches InputPeer::Chat { chat_id } ==> chat_id == chat.id,
        chat.input_peer() matches InputPeer::Channel { channel_id, access_hash } ==> channel_id
            == chat.id && (chat.access_hash == Some(hash) ==> access_hash == hash) && (
        chat.access_hash is None ==> access_hash == 0),
{
}

} // verus!
