//! The channel that is copied and the one it is copied to.

use crate::cursor::Cursor;
use crate::peer::{InputPeer, PackedChat};
use std::collections::hash_map::RandomState;
use vstd::prelude::*;

verus! {

/// A request for a page of the posts of a channel.
#[derive(Clone, Copy, Debug, PartialEq, Eq)]
pub struct GetHistory {
    pub peer: InputPeer,
    pub offset_id: i32,
    pub offset_date: i32,
    pub add_offset: i32,
    pub limit: i32,
    pub max_id: i32,
    pub min_id: i32,
    pub hash: i64,
}

impl GetHistory {
    /// The request for the thirty posts after an offset.
    pub open spec fn page_at(peer: InputPeer, offset_id: i32, min_id: i32, hash: i64) -> GetHistory {
        GetHistory {
            peer,
            offset_id,
            offset_date: 0,
            add_offset: -30i32,
            limit: 30,
            max_id: 0,
            min_id,
            hash,
        }
    }

    /// The request for the page after a cursor.
    pub open spec fn moved(self, cursor: Cursor) -> GetHistory {
        GetHistory {
            offset_id: cursor.offset_id,
            min_id: cursor.offset_id,
            hash: cursor.hash,
            ..self
        }
    }
}

/// A channel, and the request for the next page of its posts.
#[derive(Clone, Copy, Debug, PartialEq, Eq)]
pub struct Chat {
    pub chat: PackedChat,
    pub request: GetHistory,
}

/// What is stored of a channel.
#[derive(Debug, PartialEq, Eq)]
pub struct ChatRecord {
    pub id: i64,
    pub channel: String,
    pub offset_id: i64,
    pub min_id: i64,
    pub hash: i64,
}

impl ChatRecord {
    /// The id that the channel is stored under.
    pub fn id(&self) -> (r: i64)
        ensures
            r == self.id,
    {
        self.id
    }

    /// The channel that is stored, or `None` if what is stored is no channel.
    pub fn packed_chat(&self) -> (r: Option<PackedChat>)
        ensures
            r == crate::peer::packed_in_hex(self.channel@),
            r is Some ==> self.channel@.len() == 34,
    {
        PackedChat::from_hex(self.channel.as_str())
    }
}

/// What a stored cursor is overwritten with.
#[derive(Clone, Copy, Debug, PartialEq, Eq)]
pub struct CursorRow {
    pub id: i64,
    pub offset_id: i32,
    pub min_id: i32,
    pub hash: i64,
}

impl Chat {
    /// A channel read from its first post on.
    pub open spec fn fresh(chat: PackedChat) -> Chat {
        Chat { chat, request: GetHistory::page_at(chat.input_peer(), 1, 0, 0) }
    }

    /// A channel read on from where its record says. It is addressed as the
    /// record says, too.
    pub open spec fn resumed(record: ChatRecord, stored: PackedChat, chat: PackedChat) -> Chat {
        Chat {
            chat,
            request: GetHistory::page_at(
                stored.input_peer(),
                record.offset_id as i32,
                record.min_id as i32,
                record.hash,
            ),
        }
    }

    /// The channel of a record, by what its stored form is read as and by what the
    /// server answers for it.
    pub open spec fn loaded(
        record: ChatRecord,
        packed: Option<PackedChat>,
        answer: PackedChat,
    ) -> Option<Chat> {
        match packed {
            Some(stored) => Some(Chat::resumed(record, stored, answer)),
            None => None,
        }
    }

    /// A channel that is read from its first post on.
    pub fn new(chat: PackedChat) -> (r: Chat)
        ensures
            r == Chat::fresh(chat),
    {
        Chat {
            chat,
            request: GetHistory {
                peer: chat.to_input_peer(),
                offset_id: 1,
                offset_date: 0,
                add_offset: -30,
                limit: 30,
                max_id: 0,
                min_id: 0,
                hash: 0,
            },
        }
    }

    /// The channel of a record, read on from where the record says. `chat` is
    /// what the server answers for the stored channel; `None` if what is stored
    /// is no channel.
    pub fn from_db_record(record: &ChatRecord, chat: PackedChat) -> (r: Option<Chat>)
        ensures
            r == (match crate::peer::packed_in_hex(record.channel@) {
                Some(stored) => Some(Chat::resumed(*record, stored, chat)),
                None => None,
            }),
            r is Some ==> record.channel@.len() == 34,
            r == Chat::loaded(*record, crate::peer::packed_in_hex(record.channel@), chat),
    {
        match record.packed_chat() {
            Some(stored) => Some(Chat::with_stored(record, stored, chat)),
            None => None,
        }
    }

    /// The channel of a record whose stored form has been read.
    pub fn with_stored(record: &ChatRecord, stored: PackedChat, chat: PackedChat) -> (r: Chat)
        ensures
            r == Chat::resumed(*record, stored, chat),
    {
        Chat {
            chat,
            request: GetHistory {
                peer: stored.to_input_peer(),
                offset_id: record.offset_id as i32,
                offset_date: 0,
                add_offset: -30,
                limit: 30,
                max_id: 0,
                min_id: record.min_id as i32,
                hash: record.hash,
            },
        }
    }

    /// The channel that the user chose, read from its first post on if nothing is
    /// stored of it. Otherwise it is the channel of its record, which comes with
    /// what the server answers for the stored channel; `None` if what is stored
    /// is no channel.
    pub fn from_chat(chat: PackedChat, stored: Option<(&ChatRecord, PackedChat)>) -> (r: Option<
        Chat,
    >)
        ensures
            r == (match stored {
                Some((record, answer)) => match crate::peer::packed_in_hex(record.channel@) {
                    Some(packed) => Some(Chat::resumed(*record, packed, answer)),
                    None => None,
                },
                None => Some(Chat::fresh(chat)),
            }),
            stored matches Some((record, _)) ==> r is Some ==> record.channel@.len() == 34,
            stored matches Some((record, answer)) ==> r == Chat::loaded(
                *record,
                crate::peer::packed_in_hex(record.channel@),
                answer,
            ),
            stored is None ==> r == Some(Chat::fresh(chat)),
    {
        match stored {
            Some((record, answer)) => Chat::from_db_record(record, answer),
            None => Some(Chat::new(chat)),
        }
    }

    /// Moves on to the page after a cursor, and says what to store.
    pub fn advance(&mut self, cursor: Cursor) -> (r: CursorRow)
        ensures
            final(self).chat == old(self).chat,
            final(self).request == old(self).request.moved(cursor),
            r == (CursorRow {
                id: old(self).chat.id,
                offset_id: cursor.offset_id,
                min_id: cursor.offset_id,
                hash: cursor.hash,
            }),
    {
        self.request.offset_id = cursor.offset_id;
        self.request.min_id = cursor.offset_id;
        self.request.hash = cursor.hash;
        CursorRow {
            id: self.chat.id,
            offset_id: cursor.offset_id,
            min_id: cursor.offset_id,
            hash: cursor.hash,
        }
    }

    /// Whether the request is one for a page of thirty posts of the channel that
    /// is addressed.
    pub open spec fn paged(self, stored: PackedChat) -> bool {
        self.request == GetHistory::page_at(
            stored.input_peer(),
            self.request.offset_id,
            self.request.min_id,
            self.request.hash,
        )
    }
}

/// Every request for posts is one for a page of thirty, from the first on.
pub proof fn law_requests_are_paged(
    chat: PackedChat,
    record: ChatRecord,
    stored: PackedChat,
    reading: Chat,
    cursor: Cursor,
)
    requires
        reading.paged(stored),
    ensures
        Chat::fresh(chat).paged(chat),
        Chat::resumed(record, stored, chat).paged(stored),
        (Chat { request: reading.request.moved(cursor), ..reading }).paged(stored),
{
}

/// A channel that was read up to a place, and whose record says so, is read on
/// from that place: what is stored is what is found again.
pub proof fn law_chat_resumes(
    reading: Chat,
    cursor: Cursor,
    record: ChatRecord,
    stored: PackedChat,
)
    requires
        reading.paged(stored),
        record.offset_id == cursor.offset_id,
        record.min_id == cursor.offset_id,
        record.hash == cursor.hash,
    ensures
        Chat::resumed(record, stored, reading.chat) == (Chat {
            request: reading.request.moved(cursor),
            ..reading
        }),
{
}

/// The two channels of a copy.
#[derive(Clone, Copy, Debug, PartialEq, Eq)]
pub struct ChatPair {
    pub src_id: i64,
    pub dst_id: i64,
}

/// A hash map of the `scc` crate.
#[verifier::external_type_specification]
#[verifier::external_body]
#[verifier::reject_recursive_types(K)]
#[verifier::reject_recursive_types(V)]
#[verifier::reject_recursive_types(H)]
pub struct ExSccHashMap<K, V, H: std::hash::BuildHasher>(scc::HashMap<K, V, H>);

/// The channels that a map holds.
pub uninterp spec fn chats_in(map: scc::HashMap<i64, Chat, RandomState>) -> Map<i64, Chat>;

/// `scc::HashMap::new`: a map without entries.
#[verifier::external_body]
fn scc_new() -> (r: scc::HashMap<i64, Chat, RandomState>)
    ensures
        forall|id: i64| !chats_in(r).contains_key(id),
{
    scc::HashMap::new()
}

/// `scc::HashMap::insert`: adds the entry if there is none with its key, and
/// else leaves the map as it is and gives the entry back as an error. The
/// answer says which.
#[verifier::external_body]
fn scc_insert(map: &mut scc::HashMap<i64, Chat, RandomState>, id: i64, chat: Chat) -> (r: bool)
    ensures
        r == !chats_in(*old(map)).contains_key(id),
        r ==> chats_in(*final(map)) == chats_in(*old(map)).insert(id, chat),
        !r ==> chats_in(*final(map)) == chats_in(*old(map)),
{
    map.insert(id, chat).is_ok()
}

/// `scc::HashMap::get`: the value under a key, if there is one.
#[verifier::external_body]
fn scc_get(map: &scc::HashMap<i64, Chat, RandomState>, id: i64) -> (r: Option<Chat>)
    ensures
        r is Some <==> chats_in(*map).contains_key(id),
        r is Some ==> r->0 == chats_in(*map)[id],
{
    map.get(&id).map(|entry| *entry.get())
}

/// The stored channels, by the id that they are stored under.
pub struct ChatTable {
    chats: scc::HashMap<i64, Chat, RandomState>,
}

impl View for ChatTable {
    type V = Map<i64, Chat>;

    closed spec fn view(&self) -> Map<i64, Chat> {
        chats_in(self.chats)
    }
}

/// The channels of a table, and one more under an id.
pub open spec fn with_chat(chats: Map<i64, Chat>, id: i64, chat: Chat) -> Map<i64, Chat> {
    if chats.contains_key(id) {
        chats
    } else {
        chats.insert(id, chat)
    }
}

/// The two channels of a pair.
pub open spec fn pair_in(chats: Map<i64, Chat>, pair: ChatPair) -> Option<(Chat, Chat)> {
    if chats.contains_key(pair.src_id) && chats.contains_key(pair.dst_id) {
        Some((chats[pair.src_id], chats[pair.dst_id]))
    } else {
        None
    }
}

impl ChatTable {
    /// A table without channels.
    pub fn new() -> (r: ChatTable)
        ensures
            r@ == Map::<i64, Chat>::empty(),
    {
        let r = ChatTable { chats: scc_new() };
        assert(r@ =~= Map::<i64, Chat>::empty());
        r
    }

    /// Adds a channel, unless there is one under the id already.
    pub fn insert(&mut self, id: i64, chat: Chat)
        ensures
            final(self)@ == (if old(self)@.contains_key(id) {
                old(self)@
            } else {
                old(self)@.insert(id, chat)
            }),
            final(self)@ == with_chat(old(self)@, id, chat),
    {
        scc_insert(&mut self.chats, id, chat);
    }

    /// The channel under an id.
    pub fn get(&self, id: i64) -> (r: Option<Chat>)
        ensures
            r == (if self@.contains_key(id) {
                Some(self@[id])
            } else {
                None
            }),
    {
        scc_get(&self.chats, id)
    }

    /// The two channels of a pair, the one to copy from first. `None` if one of
    /// them is not stored.
    pub fn pair(&self, pair: &ChatPair) -> (r: Option<(Chat, Chat)>)
        ensures
            r == (if self@.contains_key(pair.src_id) && self@.contains_key(pair.dst_id) {
                Some((self@[pair.src_id], self@[pair.dst_id]))
            } else {
                None
            }),
            r == pair_in(self@, *pair),
    {
        match (self.get(pair.src_id), self.get(pair.dst_id)) {
            (Some(src), Some(dst)) => Some((src, dst)),
            _ => None,
        }
    }
}

/// A channel that nothing is stored of is read from its first post on, thirty posts
/// at a time: the first request is for the thirty after id zero.
pub proof fn law_new_chat_starts_at_the_first_post(chat: PackedChat)
    ensures
        Chat::fresh(chat).chat == chat,
        Chat::fresh(chat).request.peer == chat.input_peer(),
        Chat::fresh(chat).request.offset_id == 1,
        Chat::fresh(chat).request.add_offset == -30,
        Chat::fresh(chat).request.limit == 30,
        Chat::fresh(chat).request.min_id == 0,
        Chat::fresh(chat).request.max_id == 0,
        Chat::fresh(chat).request.offset_date == 0,
        Chat::fresh(chat).request.hash == 0,
{
}

/// A stored channel is addressed as it is stored, and read from the stored place on,
/// thirty posts at a time. It is the channel that the server answered with.
pub proof fn law_stored_chat_starts_at_its_place(
    record: ChatRecord,
    stored: PackedChat,
    chat: PackedChat,
)
    requires
        i32::MIN <= record.offset_id <= i32::MAX,
        i32::MIN <= record.min_id <= i32::MAX,
    ensures
        Chat::resumed(record, stored, chat).chat == chat,
        Chat::resumed(record, stored, chat).request.peer == stored.input_peer(),
        Chat::resumed(record, stored, chat).request.offset_id == record.offset_id,
        Chat::resumed(record, stored, chat).request.min_id == record.min_id,
        Chat::resumed(record, stored, chat).request.hash == record.hash,
        Chat::resumed(record, stored, chat).request.add_offset == -30,
        Chat::resumed(record, stored, chat).request.limit == 30,
        Chat::resumed(record, stored, chat).request.max_id == 0,
        Chat::resumed(record, stored, chat).request.offset_date == 0,
{
}

/// A place in the record that does not fit is cut to its low bits.
pub proof fn law_stored_places_are_cut(record: ChatRecord, stored: PackedChat, chat: PackedChat)
    ensures
        Chat::resumed(record, stored, chat).request.offset_id == record.offset_id as i32,
        Chat::resumed(record, stored, chat).request.min_id == record.min_id as i32,
{
}

/// Moving on takes the place and the hash, and nothing else of the request; moving
/// on twice is moving on to the second place.
pub proof fn law_moving_takes_the_place(request: GetHistory, cursor: Cursor, later: Cursor)
    ensures
        request.moved(cursor).offset_id == cursor.offset_id,
        request.moved(cursor).min_id == cursor.offset_id,
        request.moved(cursor).hash == cursor.hash,
        request.moved(cursor).peer == request.peer,
        request.moved(cursor).offset_date == request.offset_date,
        request.moved(cursor).add_offset == request.add_offset,
        request.moved(cursor).limit == request.limit,
        request.moved(cursor).max_id == request.max_id,
        request.moved(cursor).moved(later) == request.moved(later),
{
}

/// A record gives a channel just where its stored form can be read, and then one
/// that is the server's answer, addressed as it is stored.
pub proof fn law_record_gives_its_channel(record: ChatRecord, stored: PackedChat, answer: PackedChat)
    ensures
        Chat::loaded(record, None, answer) is None,
        Chat::loaded(record, Some(stored), answer) is Some,
        Chat::loaded(record, Some(stored), answer)->0.chat == answer,
        Chat::loaded(record, Some(stored), answer)->0.request.peer == stored.input_peer(),
        Chat::loaded(record, Some(stored), answer)->0.request.hash == record.hash,
        Chat::loaded(record, Some(stored), answer)->0.request.offset_id == record.offset_id as i32,
        Chat::loaded(record, Some(stored), answer)->0.request.min_id == record.min_id as i32,
{
}

/// A channel is found under the id that it was added with, unless there was one
/// already, which stays; and adding one changes nothing under any other id.
pub proof fn law_first_chat_under_an_id_stays(
    chats: Map<i64, Chat>,
    id: i64,
    chat: Chat,
    other: i64,
    second: Chat,
)
    ensures
        with_chat(chats, id, chat).contains_key(id),
        !chats.contains_key(id) ==> with_chat(chats, id, chat)[id] == chat,
        chats.contains_key(id) ==> with_chat(chats, id, chat)[id] == chats[id],
        with_chat(with_chat(chats, id, chat), id, second) == with_chat(chats, id, chat),
        other != id ==> (with_chat(chats, id, chat).contains_key(other) <==> chats.contains_key(
            other,
        )) && with_chat(chats, id, chat)[other] == chats[other],
{
}

/// A pair gives the channel to copy from and then the one to copy to, and nothing
/// where either is missing.
pub proof fn law_pair_needs_both(chats: Map<i64, Chat>, src_id: i64, dst_id: i64)
    ensures
        pair_in(chats, ChatPair { src_id, dst_id }) is Some <==> chats.contains_key(src_id)
            && chats.contains_key(dst_id),
        pair_in(chats, ChatPair { src_id, dst_id }) matches Some((src, dst)) ==> src
            == chats[src_id] && dst == chats[dst_id],
{
}

} // verus!
