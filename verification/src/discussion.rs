//! The group where the comments under a post are written.

use crate::chat::CursorRow;
use crate::cursor::Cursor;
use crate::peer::{InputPeer, PackedChat};
use crate::text::{between, framed, law_decimal_reads_back, number_read, push_decimal};
use vstd::prelude::*;

verus! {

/// A request for a page of the comments under a post.
#[derive(Clone, Copy, Debug, PartialEq, Eq)]
pub struct GetReplies {
    pub peer: InputPeer,
    pub msg_id: i32,
    pub offset_id: i32,
    pub offset_date: i32,
    pub add_offset: i32,
    pub limit: i32,
    pub max_id: i32,
    pub min_id: i32,
    pub hash: i64,
}

impl GetReplies {
    /// The request for the page after a cursor.
    pub open spec fn moved(self, cursor: Cursor) -> GetReplies {
        GetReplies {
            offset_id: cursor.offset_id,
            min_id: cursor.offset_id,
            hash: cursor.hash,
            ..self
        }
    }
}

/// A request for the start of the comments under a post.
#[derive(Clone, Copy, Debug, PartialEq, Eq)]
pub struct GetDiscussionMessage {
    pub peer: InputPeer,
    pub msg_id: i32,
}

/// What is stored of a discussion.
#[derive(Clone, Copy, Debug, PartialEq, Eq)]
pub struct DiscussionRecord {
    pub id: i64,
    pub chat_id: i64,
    pub post_id: i64,
    pub msg_id: i64,
    pub offset_id: i64,
    pub min_id: i64,
    pub hash: i64,
}

/// What is stored of a discussion when it is found.
#[derive(Clone, Copy, Debug, PartialEq, Eq)]
pub struct NewDiscussion {
    pub chat_id: i64,
    pub post_id: i32,
    pub msg_id: i32,
}

/// A discussion, and the request for the next page of its comments.
#[derive(Clone, Copy, Debug, PartialEq, Eq)]
pub struct Discussion {
    pub id: i64,
    pub chat: PackedChat,
    pub request: GetReplies,
}

impl Discussion {
    /// A discussion in a group, read on from where its record says.
    pub open spec fn resumed(record: DiscussionRecord, chat: PackedChat) -> Discussion {
        Discussion {
            id: record.id,
            chat,
            request: GetReplies {
                peer: chat.input_peer(),
                msg_id: record.msg_id as i32,
                offset_id: record.offset_id as i32,
                offset_date: 0,
                add_offset: -30i32,
                limit: 30,
                max_id: 0,
                min_id: record.min_id as i32,
                hash: record.hash,
            },
        }
    }

    /// A discussion in a group, read on from where its record says.
    pub fn from_record(record: &DiscussionRecord, chat: PackedChat) -> (r: Discussion)
        ensures
            r == Discussion::resumed(*record, chat),
    {
        Discussion {
            id: record.id,
            chat,
            request: GetReplies {
                peer: chat.to_input_peer(),
                msg_id: record.msg_id as i32,
                offset_id: record.offset_id as i32,
                offset_date: 0,
                add_offset: -30,
                limit: 30,
                max_id: 0,
                min_id: record.min_id as i32,
                hash: record.hash,
            },
        }
    }

    /// Moves on to the page after a cursor, and says what to store.
    pub fn advance(&mut self, cursor: Cursor) -> (r: CursorRow)
        ensures
            final(self).id == old(self).id,
            final(self).chat == old(self).chat,
            final(self).request == old(self).request.moved(cursor),
            r == (CursorRow {
                id: old(self).id,
                offset_id: cursor.offset_id,
                min_id: cursor.offset_id,
                hash: cursor.hash,
            }),
    {
        self.request.offset_id = cursor.offset_id;
        self.request.min_id = cursor.offset_id;
        self.request.hash = cursor.hash;
        CursorRow {
            id: self.id,
            offset_id: cursor.offset_id,
            min_id: cursor.offset_id,
            hash: cursor.hash,
        }
    }

    /// Whether the request is one for a page of thirty comments in the group.
    pub open spec fn paged(self) -> bool {
        self.request == (GetReplies {
            peer: self.chat.input_peer(),
            msg_id: self.request.msg_id,
            offset_id: self.request.offset_id,
            offset_date: 0,
            add_offset: -30i32,
            limit: 30,
            max_id: 0,
            min_id: self.request.min_id,
            hash: self.request.hash,
        })
    }
}

/// Every request for comments is one for a page of thirty, from the first on.
pub proof fn law_reply_requests_are_paged(
    record: DiscussionRecord,
    chat: PackedChat,
    reading: Discussion,
    cursor: Cursor,
)
    requires
        reading.paged(),
    ensures
        Discussion::resumed(record, chat).paged(),
        (Discussion { request: reading.request.moved(cursor), ..reading }).paged(),
{
}

/// A discussion that was read up to a place, and whose record says so, is read
/// on from that place.
pub proof fn law_discussion_resumes(
    reading: Discussion,
    cursor: Cursor,
    record: DiscussionRecord,
)
    requires
        reading.paged(),
        record.id == reading.id,
        record.msg_id == reading.request.msg_id,
        record.offset_id == cursor.offset_id,
        record.min_id == cursor.offset_id,
        record.hash == cursor.hash,
    ensures
        Discussion::resumed(record, reading.chat) == (Discussion {
            request: reading.request.moved(cursor),
            ..reading
        }),
{
}

/// Where a message stands.
#[derive(Clone, Copy, Debug, PartialEq, Eq)]
pub enum Peer {
    User,
    Chat,
    Channel { channel_id: i64 },
}

/// A message that starts a discussion.
#[derive(Clone, Copy, Debug, PartialEq, Eq)]
pub enum ThreadMessage {
    Message { id: i32, peer: Peer },
    /// A message that is gone, or a notice of the server.
    Other,
}

/// What the server answers when it is asked for the start of a discussion.
#[derive(Debug)]
pub struct Thread {
    pub messages: Vec<ThreadMessage>,
    pub chats: Vec<PackedChat>,
}

/// The first of the chats with an id.
pub open spec fn chat_with_id(chats: Seq<PackedChat>, id: i64) -> Option<PackedChat>
    decreases chats.len(),
{
    if chats.len() == 0 {
        None
    } else if chats[0].id == id {
        Some(chats[0])
    } else {
        chat_with_id(chats.skip(1), id)
    }
}

impl Thread {
    /// Whether a message that starts the discussion stands in a channel, and the
    /// channel is listed with it.
    pub open spec fn sound(self) -> bool {
        self.messages@.len() > 0 ==> match self.messages@[0] {
            ThreadMessage::Message { peer, .. } => match peer {
                Peer::Channel { channel_id } => chat_with_id(self.chats@, channel_id) is Some,
                _ => false,
            },
            ThreadMessage::Other => true,
        }
    }

    /// The message that starts the discussion and the group that it stands in.
    pub open spec fn start(self) -> Option<(i32, PackedChat)> {
        if self.messages@.len() == 0 {
            None
        } else {
            match self.messages@[0] {
                ThreadMessage::Message { id, peer: Peer::Channel { channel_id } } => Some(
                    (id, chat_with_id(self.chats@, channel_id)->0),
                ),
                _ => None,
            }
        }
    }

    fn find_chat(&self, id: i64) -> (r: Option<PackedChat>)
        ensures
            r == chat_with_id(self.chats@, id),
    {
        let mut i: usize = 0;
        assert(self.chats@.skip(0) =~= self.chats@);
        while i < self.chats.len()
            invariant
                i <= self.chats.len(),
                chat_with_id(self.chats@, id) == chat_with_id(self.chats@.skip(i as int), id),
            decreases self.chats.len() - i,
        {
            assert(self.chats@.skip(i as int).skip(1) =~= self.chats@.skip(i + 1));
            if self.chats[i].id == id {
                return Some(self.chats[i]);
            }
            i = i + 1;
        }
        None
    }

    /// Whether the answer is one that a discussion can be found in: see `sound`.
    pub fn is_sound(&self) -> (r: bool)
        ensures
            r == self.sound(),
    {
        if self.messages.len() == 0 {
            return true;
        }
        match self.messages[0] {
            ThreadMessage::Message { peer, .. } => match peer {
                Peer::Channel { channel_id } => self.find_chat(channel_id).is_some(),
                _ => false,
            },
            ThreadMessage::Other => true,
        }
    }

    fn find_start(&self) -> (r: Option<(i32, PackedChat)>)
        requires
            self.sound(),
        ensures
            r == self.start(),
    {
        if self.messages.len() == 0 {
            return None;
        }
        match self.messages[0] {
            ThreadMessage::Message { id, peer: Peer::Channel { channel_id } } => match self.find_chat(
                channel_id,
            ) {
                Some(chat) => Some((id, chat)),
                None => None,
            },
            _ => None,
        }
    }
}

/// Why a post has no discussion.
#[derive(Clone, Copy, Debug, PartialEq, Eq)]
pub enum LookupError {
    /// There is no post with the id.
    PostNotFound { post_id: i32 },
    /// There is no message that starts the comments.
    NoThread,
}

/// The text of an error.
pub open spec fn lookup_error_text(error: LookupError) -> Seq<char> {
    match error {
        LookupError::PostNotFound { post_id } => "Specified message with id "@ + crate::text::decimal(
            post_id as int,
        ) + " cannot be found"@,
        LookupError::NoThread => "Cannot find start message thread"@,
    }
}

impl LookupError {
    /// The error in words.
    pub fn message(&self) -> (r: String)
        ensures
            r@ == lookup_error_text(*self),
    {
        match self {
            LookupError::PostNotFound { post_id } => {
                let mut out = "Specified message with id ".to_owned();
                push_decimal(&mut out, *post_id as i64);
                out.append(" cannot be found");
                out
            },
            LookupError::NoThread => "Cannot find start message thread".to_owned(),
        }
    }
}

/// How far the search for the discussion of a post has come.
#[derive(Clone, Copy, Debug, PartialEq, Eq)]
pub enum LookupStage {
    /// The post is asked for.
    Post,
    /// The start of the comments is asked for.
    Thread,
    /// The discussion in this group is stored.
    Store { group: PackedChat },
    /// The search is over.
    Over,
}

/// The search for the discussion of a post of a channel.
#[derive(Clone, Copy, Debug, PartialEq, Eq)]
pub struct PostLookup {
    pub chat: PackedChat,
    pub post_id: i32,
    pub stage: LookupStage,
}

/// What comes in during the search.
#[derive(Debug)]
pub enum LookupEvent {
    /// The posts that the server gives for the id, each by its id, with `None`
    /// for one that is gone.
    Posts(Vec<Option<i32>>),
    /// The start of the comments.
    Thread(Thread),
    /// The record of the discussion that was stored.
    Stored(DiscussionRecord),
}

/// What the search does next.
#[derive(Clone, Copy, Debug, PartialEq, Eq)]
pub enum LookupAction {
    /// Ask for the post of a channel.
    AskPost { chat: PackedChat, post_id: i32 },
    /// Ask for the start of the comments.
    AskThread(GetDiscussionMessage),
    Store(NewDiscussion),
    Found(Discussion),
    Fail(LookupError),
}

impl PostLookup {
    /// Whether this can come in at this stage, in a form that the search can go
    /// on with.
    pub open spec fn accepts(self, event: LookupEvent) -> bool {
        match (self.stage, event) {
            (LookupStage::Post, LookupEvent::Posts(_)) => true,
            (LookupStage::Thread, LookupEvent::Thread(thread)) => thread.sound(),
            (LookupStage::Store { .. }, LookupEvent::Stored(_)) => true,
            _ => false,
        }
    }

    /// The search at another stage.
    pub open spec fn at(self, stage: LookupStage) -> PostLookup {
        PostLookup { stage, ..self }
    }

    /// How the search goes on: it asks for the start of the comments under the
    /// post, stores the discussion, and is over with the stored record.
    pub open spec fn next(self, event: LookupEvent) -> (PostLookup, LookupAction) {
        match (self.stage, event) {
            (LookupStage::Post, LookupEvent::Posts(posts)) => if posts@.len() > 0
                && posts@[0] is Some {
                (
                    self.at(LookupStage::Thread),
                    LookupAction::AskThread(
                        GetDiscussionMessage {
                            peer: self.chat.input_peer(),
                            msg_id: posts@[0]->0,
                        },
                    ),
                )
            } else {
                (
                    self.at(LookupStage::Over),
                    LookupAction::Fail(LookupError::PostNotFound { post_id: self.post_id }),
                )
            },
            (LookupStage::Thread, LookupEvent::Thread(thread)) => match thread.start() {
                Some((msg_id, group)) => (
                    self.at(LookupStage::Store { group }),
                    LookupAction::Store(
                        NewDiscussion { chat_id: self.chat.id, post_id: self.post_id, msg_id },
                    ),
                ),
                None => (
                    self.at(LookupStage::Over),
                    LookupAction::Fail(LookupError::NoThread),
                ),
            },
            (LookupStage::Store { group }, LookupEvent::Stored(record)) => (
                self.at(LookupStage::Over),
                LookupAction::Found(Discussion::resumed(record, group)),
            ),
            _ => (self, LookupAction::Fail(LookupError::NoThread)),
        }
    }

    /// How the search starts, and what is done first.
    pub open spec fn opened(chat: PackedChat, post_id: i32) -> (PostLookup, LookupAction) {
        (
            PostLookup { chat, post_id, stage: LookupStage::Post },
            LookupAction::AskPost { chat, post_id },
        )
    }

    /// Starts the search for the discussion of a post, and says what to do first:
    /// ask for the post.
    pub fn new(chat: PackedChat, post_id: i32) -> (r: (PostLookup, LookupAction))
        ensures
            r.0 == (PostLookup { chat, post_id, stage: LookupStage::Post }),
            r.1 == (LookupAction::AskPost { chat, post_id }),
            r == PostLookup::opened(chat, post_id),
    {
        let lookup = PostLookup { chat, post_id, stage: LookupStage::Post };
        (lookup, LookupAction::AskPost { chat, post_id })
    }
}

impl Discussion {
    /// Goes on with the search for the discussion of a post.
    pub fn get_post_discussion(lookup: &mut PostLookup, event: LookupEvent) -> (r: LookupAction)
        requires
            old(lookup).accepts(event),
        ensures
            (*final(lookup), r) == old(lookup).next(event),
    {
        match (lookup.stage, event) {
            (LookupStage::Post, LookupEvent::Posts(posts)) => {
                if posts.len() > 0 {
                    if let Some(msg_id) = posts[0] {
                        lookup.stage = LookupStage::Thread;
                        return LookupAction::AskThread(
                            GetDiscussionMessage { peer: lookup.chat.to_input_peer(), msg_id },
                        );
                    }
                }
                lookup.stage = LookupStage::Over;
                LookupAction::Fail(LookupError::PostNotFound { post_id: lookup.post_id })
            },
            (LookupStage::Thread, LookupEvent::Thread(thread)) => match thread.find_start() {
                Some((msg_id, group)) => {
                    lookup.stage = LookupStage::Store { group };
                    LookupAction::Store(
                        NewDiscussion { chat_id: lookup.chat.id, post_id: lookup.post_id, msg_id },
                    )
                },
                None => {
                    lookup.stage = LookupStage::Over;
                    LookupAction::Fail(LookupError::NoThread)
                },
            },
            (LookupStage::Store { group }, LookupEvent::Stored(record)) => {
                lookup.stage = LookupStage::Over;
                LookupAction::Found(Discussion::from_record(&record, group))
            },
            _ => LookupAction::Fail(LookupError::NoThread),
        }
    }
}

/// A discussion is read in its group under the message that starts it, from the
/// stored place on, thirty comments at a time.
pub proof fn law_discussion_starts_at_its_place(record: DiscussionRecord, chat: PackedChat)
    requires
        i32::MIN <= record.msg_id <= i32::MAX,
        i32::MIN <= record.offset_id <= i32::MAX,
        i32::MIN <= record.min_id <= i32::MAX,
    ensures
        Discussion::resumed(record, chat).id == record.id,
        Discussion::resumed(record, chat).chat == chat,
        Discussion::resumed(record, chat).request.peer == chat.input_peer(),
        Discussion::resumed(record, chat).request.msg_id == record.msg_id,
        Discussion::resumed(record, chat).request.offset_id == record.offset_id,
        Discussion::resumed(record, chat).request.min_id == record.min_id,
        Discussion::resumed(record, chat).request.hash == record.hash,
        Discussion::resumed(record, chat).request.add_offset == -30,
        Discussion::resumed(record, chat).request.limit == 30,
        Discussion::resumed(record, chat).request.max_id == 0,
        Discussion::resumed(record, chat).request.offset_date == 0,
{
}

/// A number in the record that does not fit is cut to its low bits.
pub proof fn law_stored_numbers_are_cut(record: DiscussionRecord, chat: PackedChat)
    ensures
        Discussion::resumed(record, chat).request.msg_id == record.msg_id as i32,
        Discussion::resumed(record, chat).request.offset_id == record.offset_id as i32,
        Discussion::resumed(record, chat).request.min_id == record.min_id as i32,
{
}

/// Moving on takes the place and the hash, and nothing else of the request.
pub proof fn law_moving_a_discussion_takes_the_place(
    request: GetReplies,
    cursor: Cursor,
    later: Cursor,
)
    ensures
        request.moved(cursor).offset_id == cursor.offset_id,
        request.moved(cursor).min_id == cursor.offset_id,
        request.moved(cursor).hash == cursor.hash,
        request.moved(cursor).peer == request.peer,
        request.moved(cursor).msg_id == request.msg_id,
        request.moved(cursor).offset_date == request.offset_date,
        request.moved(cursor).add_offset == request.add_offset,
        request.moved(cursor).limit == request.limit,
        request.moved(cursor).max_id == request.max_id,
        request.moved(cursor).moved(later) == request.moved(later),
{
}

/// The chat with an id is the first that has it, and there is one just where any
/// chat has it.
pub proof fn law_first_chat_with_an_id(chats: Seq<PackedChat>, id: i64, k: int)
    requires
        0 <= k <= chats.len(),
        forall|i: int| 0 <= i < k ==> (#[trigger] chats[i]).id != id,
    ensures
        k < chats.len() && chats[k].id == id ==> chat_with_id(chats, id) == Some(chats[k]),
        k == chats.len() ==> chat_with_id(chats, id) is None,
    decreases chats.len(),
{
    if k > 0 {
        let rest = chats.skip(1);
        assert forall|i: int| 0 <= i < k - 1 implies (#[trigger] rest[i]).id != id by {
            assert(rest[i] == chats[i + 1]);
        }
        assert(chats[0].id != id);
        law_first_chat_with_an_id(rest, id, k - 1);
        if k < chats.len() {
            assert(rest[k - 1] == chats[k]);
        }
    }
}

/// An answer starts a discussion just where its first entry is a message. It makes
/// sense unless that message stands elsewhere than in a channel, or in one that no
/// chat of the answer is. The discussion is in that chat.
pub proof fn law_thread_starts_with_its_first_message(thread: Thread, k: int)
    ensures
        thread.messages@.len() == 0 ==> thread.sound() && thread.start() is None,
        thread.messages@.len() > 0 && thread.messages@[0] is Other ==> thread.sound()
            && thread.start() is None,
        thread.messages@.len() > 0 ==> (thread.messages@[0] matches ThreadMessage::Message {
            id,
            peer,
        } ==> !(peer is Channel) ==> !thread.sound()),
        thread.messages@.len() > 0 ==> (thread.messages@[0] matches ThreadMessage::Message {
            id,
            peer: Peer::Channel { channel_id },
        } ==> (thread.sound() <==> exists|i: int|
            0 <= i < thread.chats@.len() && (#[trigger] thread.chats@[i]).id == channel_id)),
        thread.messages@.len() > 0 ==> (thread.messages@[0] matches ThreadMessage::Message {
            id,
            peer: Peer::Channel { channel_id },
        } ==> 0 <= k < thread.chats@.len() && thread.chats@[k].id == channel_id && (forall|i: int|
            0 <= i < k ==> (#[trigger] thread.chats@[i]).id != channel_id) ==> thread.start()
            == Some((id, thread.chats@[k]))),
{
    if thread.messages@.len() > 0 {
        if let ThreadMessage::Message { id, peer: Peer::Channel { channel_id } } = thread.messages@[0] {
            let chats = thread.chats@;
            if exists|i: int| 0 <= i < chats.len() && (#[trigger] chats[i]).id == channel_id {
                lemma_chat_is_found(chats, channel_id);
            } else {
                law_first_chat_with_an_id(chats, channel_id, chats.len() as int);
            }
            if 0 <= k < chats.len() && chats[k].id == channel_id && (forall|i: int|
                0 <= i < k ==> (#[trigger] chats[i]).id != channel_id) {
                law_first_chat_with_an_id(chats, channel_id, k);
            }
        }
    }
}

proof fn lemma_chat_is_found(chats: Seq<PackedChat>, id: i64)
    requires
        exists|i: int| 0 <= i < chats.len() && (#[trigger] chats[i]).id == id,
    ensures
        chat_with_id(chats, id) is Some,
    decreases chats.len(),
{
    let i = choose|i: int| 0 <= i < chats.len() && (#[trigger] chats[i]).id == id;
    if chats[0].id != id {
        assert(chats.skip(1)[i - 1] == chats[i]);
        lemma_chat_is_found(chats.skip(1), id);
    }
}

/// The text of an error names the post that was not found.
pub proof fn law_error_names_the_post(post_id: i32)
    ensures
        lookup_error_text(LookupError::NoThread) == "Cannot find start message thread"@,
        framed(
            lookup_error_text(LookupError::PostNotFound { post_id }),
            "Specified message with id "@,
            " cannot be found"@,
        ),
        number_read(
            between(
                lookup_error_text(LookupError::PostNotFound { post_id }),
                "Specified message with id "@,
                " cannot be found"@,
            ),
        ) == post_id,
{
    law_decimal_reads_back(post_id as int);
    let start = "Specified message with id "@;
    let middle = crate::text::decimal(post_id as int);
    let end = " cannot be found"@;
    let text = start + middle + end;
    assert(middle.len() > 0) by {
        if post_id >= 0 {
            assert(crate::text::plain_digits(middle));
        } else {
            assert(crate::text::plain_digits(middle.skip(1)));
            if middle.len() == 0 {
                assert(number_read(middle) == 0);
            }
        }
    }
    assert(text.take(start.len() as int) =~= start);
    assert(text.skip(text.len() - end.len()) =~= end);
    assert(between(text, start, end) =~= middle);
}

/// What can come in during a search depends on what was asked for last: posts,
/// then an answer that makes sense, then the stored record.
pub proof fn law_search_takes_what_it_asked_for(lookup: PostLookup, event: LookupEvent)
    ensures
        event is Posts ==> (lookup.accepts(event) <==> lookup.stage is Post),
        event matches LookupEvent::Thread(thread) ==> (lookup.accepts(event) <==> lookup.stage
            is Thread && thread.sound()),
        event is Stored ==> (lookup.accepts(event) <==> lookup.stage is Store),
{
}

/// How a search goes. A post that is there is asked for its discussion in the
/// channel that it stands in; one that is not ends the search, named. The message
/// that starts the discussion is stored under the channel and the post that were
/// searched for; without one the search ends. The stored record gives the
/// discussion, in the group where that message stands.
pub proof fn law_search_goes_from_post_to_record(lookup: PostLookup, event: LookupEvent)
    requires
        lookup.accepts(event),
    ensures
        lookup.next(event).0.chat == lookup.chat,
        lookup.next(event).0.post_id == lookup.post_id,
        event matches LookupEvent::Posts(posts) ==> posts@.len() > 0 && posts@[0] is Some ==> (
        lookup.next(event).1 matches LookupAction::AskThread(request) && request.peer
            == lookup.chat.input_peer() && Some(request.msg_id) == posts@[0] && lookup.next(
            event,
        ).0.stage is Thread),
        event matches LookupEvent::Posts(posts) ==> posts@.len() == 0 || posts@[0] is None ==> (
        lookup.next(event).1 matches LookupAction::Fail(LookupError::PostNotFound { post_id })
            && post_id == lookup.post_id && lookup.next(event).0.stage is Over),
        event matches LookupEvent::Thread(thread) ==> (thread.start() matches Some((id, group))
            ==> lookup.next(event).1 matches LookupAction::Store(new) && new.chat_id
            == lookup.chat.id && new.post_id == lookup.post_id && new.msg_id == id && lookup.next(
            event,
        ).0.stage == (LookupStage::Store { group })),
        event matches LookupEvent::Thread(thread) ==> thread.start() is None ==> lookup.next(
            event,
        ).1 == LookupAction::Fail(LookupError::NoThread) && lookup.next(event).0.stage is Over,
        event matches LookupEvent::Stored(record) ==> (lookup.stage matches LookupStage::Store {
            group,
        } ==> (lookup.next(event).1 matches LookupAction::Found(found) && found.id == record.id
            && found.chat == group && found.request.peer == group.input_peer()
            && found == Discussion::resumed(record, group) && lookup.next(event).0.stage is Over)),
{
}

/// A search asks first for the post that it is about, in the channel that it is
/// about, and takes the answer.
pub proof fn law_search_starts_with_the_post(chat: PackedChat, post_id: i32, posts: Vec<Option<i32>>)
    ensures
        PostLookup::opened(chat, post_id).1 matches LookupAction::AskPost {
            chat: asked,
            post_id: post,
        } && asked == chat && post == post_id,
        PostLookup::opened(chat, post_id).0.chat == chat,
        PostLookup::opened(chat, post_id).0.post_id == post_id,
        PostLookup::opened(chat, post_id).0.accepts(LookupEvent::Posts(posts)),
{
}

} // verus!
