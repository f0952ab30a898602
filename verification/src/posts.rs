//! Copying the posts of a channel, page by page, each with its comments.

use crate::chat::{Chat, CursorRow, GetHistory};
use crate::cursor::{page_cursor, Cursor};
use crate::discussion::Discussion;
use crate::message::{Incoming, MessageRow, Outgoing, OutgoingView, RawMedia, RawMessage};
use crate::page::page_ids;
use crate::peer::PackedChat;
use crate::retry::Failure;
use vstd::prelude::*;

verus! {

impl<M, E> Incoming<M, E> {
    /// Whether this is a post to copy: one that no bot sent and that has
    /// comments.
    pub open spec fn commented(self) -> bool {
        self matches Incoming::Message(message) && message.via_bot_id is None && (
        message.replies matches Some(replies) && replies > 0)
    }

    fn is_commented(&self) -> (r: bool)
        ensures
            r == self.commented(),
    {
        match self {
            Incoming::Message(message) => match (message.via_bot_id, message.replies) {
                (None, Some(replies)) => replies > 0,
                _ => false,
            },
            Incoming::Other { .. } => false,
        }
    }
}

/// The posts of a page that are copied, in page order.
pub open spec fn commented_posts<M, E>(page: Seq<Incoming<M, E>>) -> Seq<Incoming<M, E>> {
    page.filter(|entry: Incoming<M, E>| entry.commented())
}

/// The posts of a page that are copied: those that no bot sent and that have
/// comments, in page order.
pub fn keep_commented<M, E>(page: Vec<Incoming<M, E>>) -> (r: Vec<Incoming<M, E>>)
    ensures
        r@ == commented_posts(page@),
{
    let ghost keep = |entry: Incoming<M, E>| entry.commented();
    let mut kept: Vec<Incoming<M, E>> = Vec::new();
    proof {
        reveal(Seq::filter);
    }
    assert(page@.take(0).filter(keep) =~= Seq::empty());
    for entry in iter: page
        invariant
            iter.seq() == page@,
            keep == (|entry: Incoming<M, E>| entry.commented()),
            kept@ == page@.take(iter.index() as int).filter(keep),
    {
        proof {
            reveal(Seq::filter);
            let n = iter.index() as int;
            assert(page@.take(n + 1).drop_last() =~= page@.take(n));
            assert(page@.take(n + 1).last() == entry);
        }
        if entry.is_commented() {
            kept.push(entry);
        }
    }
    assert(page@.take(page@.len() as int) =~= page@);
    kept
}

/// What is waited for while the posts of a channel are copied.
#[derive(Clone, Copy, Debug, PartialEq, Eq)]
pub enum HistoryStage {
    /// A page of posts.
    Fetch,
    /// The end of a flood wait, before the page is asked for again.
    Wait,
    /// The posts of the page being copied.
    Copy,
    /// Nothing any more.
    Over,
}

/// The state of copying the posts of a channel.
#[derive(Clone, Copy, Debug, PartialEq, Eq)]
pub struct HistoryCopy {
    pub chat: Chat,
    /// How many posts were copied.
    pub count: i32,
    pub stage: HistoryStage,
}

/// What comes in while posts are copied.
#[derive(Debug)]
pub enum HistoryEvent<M, E> {
    /// A whole list of messages, or a page of the messages of a channel.
    Messages(Vec<Incoming<M, E>>),
    /// Any other answer.
    Other,
    FetchFailed(Failure),
    /// The time to sleep is over.
    Slept,
    /// So many posts of the page were copied, and the channel moved on.
    Copied { chat: Chat, count: i32 },
    /// The posts of the page could not be copied.
    CopyFailed,
}

/// What to do next.
#[derive(Debug)]
pub enum HistoryAction<M, E> {
    /// Ask for a page.
    Fetch(GetHistory),
    /// Sleep so many seconds.
    Sleep(u64),
    /// Copy these posts.
    Copy(Vec<Incoming<M, E>>),
    /// All posts were copied, so many in all.
    Finish(i32),
    /// Give up, since no page can be had.
    Stop,
    /// Give up with the failure to copy a page.
    Fail,
}

/// The value of a `HistoryAction`.
pub enum HistoryActionView<M, E> {
    Fetch(GetHistory),
    Sleep(u64),
    Copy(Seq<Incoming<M, E>>),
    Finish(i32),
    Stop,
    Fail,
}

impl<M, E> View for HistoryAction<M, E> {
    type V = HistoryActionView<M, E>;

    open spec fn view(&self) -> HistoryActionView<M, E> {
        match self {
            HistoryAction::Fetch(request) => HistoryActionView::Fetch(*request),
            HistoryAction::Sleep(seconds) => HistoryActionView::Sleep(*seconds),
            HistoryAction::Copy(posts) => HistoryActionView::Copy(posts@),
            HistoryAction::Finish(count) => HistoryActionView::Finish(*count),
            HistoryAction::Stop => HistoryActionView::Stop,
            HistoryAction::Fail => HistoryActionView::Fail,
        }
    }
}

impl HistoryCopy {
    /// The same, waiting for something else.
    pub open spec fn at(self, stage: HistoryStage) -> HistoryCopy {
        HistoryCopy { stage, ..self }
    }

    /// Whether this can come in now. The count must not overflow.
    pub open spec fn accepts<M, E>(self, event: HistoryEvent<M, E>) -> bool {
        match (self.stage, event) {
            (HistoryStage::Fetch, HistoryEvent::Messages(_)) => true,
            (HistoryStage::Fetch, HistoryEvent::Other) => true,
            (HistoryStage::Fetch, HistoryEvent::FetchFailed(_)) => true,
            (HistoryStage::Wait, HistoryEvent::Slept) => true,
            (HistoryStage::Copy, HistoryEvent::Copied { count, .. }) => i32::MIN <= self.count
                + count <= i32::MAX,
            (HistoryStage::Copy, HistoryEvent::CopyFailed) => true,
            _ => false,
        }
    }

    /// How copying goes on: the posts of a page that have comments are copied,
    /// then the next page is asked for, until one is empty or is no page. A page
    /// that could not be copied ends it with that failure.
    pub open spec fn next<M, E>(self, event: HistoryEvent<M, E>) -> (
        HistoryCopy,
        HistoryActionView<M, E>,
    ) {
        match (self.stage, event) {
            (HistoryStage::Fetch, HistoryEvent::Messages(page)) => if page@.len() > 0 {
                (
                    self.at(HistoryStage::Copy),
                    HistoryActionView::Copy(commented_posts(page@)),
                )
            } else {
                (self.at(HistoryStage::Over), HistoryActionView::Finish(self.count))
            },
            (HistoryStage::Fetch, HistoryEvent::Other) => (
                self.at(HistoryStage::Over),
                HistoryActionView::Finish(self.count),
            ),
            (HistoryStage::Fetch, HistoryEvent::FetchFailed(failure)) => match crate::retry::flood_wait(
                failure,
            ) {
                Some(seconds) => (
                    self.at(HistoryStage::Wait),
                    HistoryActionView::Sleep(seconds),
                ),
                None => (self.at(HistoryStage::Over), HistoryActionView::Stop),
            },
            (HistoryStage::Wait, HistoryEvent::Slept) => (
                self.at(HistoryStage::Fetch),
                HistoryActionView::Fetch(self.chat.request),
            ),
            (HistoryStage::Copy, HistoryEvent::Copied { chat, count }) => (
                HistoryCopy {
                    chat,
                    count: (self.count + count) as i32,
                    stage: HistoryStage::Fetch,
                },
                HistoryActionView::Fetch(chat.request),
            ),
            (HistoryStage::Copy, HistoryEvent::CopyFailed) => (
                self.at(HistoryStage::Over),
                HistoryActionView::Fail,
            ),
            _ => (self, HistoryActionView::Stop),
        }
    }

    /// How copying the posts of a channel starts, and what is done first.
    pub open spec fn opened<M, E>(chat: Chat) -> (HistoryCopy, HistoryActionView<M, E>) {
        (
            HistoryCopy { chat, count: 0, stage: HistoryStage::Fetch },
            HistoryActionView::Fetch(chat.request),
        )
    }

    /// Starts to copy the posts of a channel, and says what to do first: ask for
    /// the page that the channel is read on from.
    pub fn new<M, E>(chat: Chat) -> (r: (HistoryCopy, HistoryAction<M, E>))
        ensures
            r.0 == (HistoryCopy { chat, count: 0, stage: HistoryStage::Fetch }),
            r.1@ == HistoryActionView::<M, E>::Fetch(chat.request),
            (r.0, r.1@) == HistoryCopy::opened::<M, E>(chat),
    {
        let copy = HistoryCopy { chat, count: 0, stage: HistoryStage::Fetch };
        (copy, HistoryAction::Fetch(chat.request))
    }
}

/// Goes on copying the posts of a channel with what came in, and says what to do
/// next.
pub fn parse_chat<M, E>(copy: &mut HistoryCopy, event: HistoryEvent<M, E>) -> (r: HistoryAction<
    M,
    E,
>)
    requires
        old(copy).accepts(event),
    ensures
        (*final(copy), r@) == old(copy).next(event),
{
    match (copy.stage, event) {
        (HistoryStage::Fetch, HistoryEvent::Messages(page)) => {
            if page.len() > 0 {
                copy.stage = HistoryStage::Copy;
                HistoryAction::Copy(keep_commented(page))
            } else {
                copy.stage = HistoryStage::Over;
                HistoryAction::Finish(copy.count)
            }
        },
        (HistoryStage::Fetch, HistoryEvent::Other) => {
            copy.stage = HistoryStage::Over;
            HistoryAction::Finish(copy.count)
        },
        (HistoryStage::Fetch, HistoryEvent::FetchFailed(failure)) => match failure.flood_wait() {
            Some(seconds) => {
                copy.stage = HistoryStage::Wait;
                HistoryAction::Sleep(seconds)
            },
            None => {
                copy.stage = HistoryStage::Over;
                HistoryAction::Stop
            },
        },
        (HistoryStage::Wait, HistoryEvent::Slept) => {
            copy.stage = HistoryStage::Fetch;
            HistoryAction::Fetch(copy.chat.request)
        },
        (HistoryStage::Copy, HistoryEvent::Copied { chat, count }) => {
            copy.chat = chat;
            copy.count = copy.count + count;
            copy.stage = HistoryStage::Fetch;
            HistoryAction::Fetch(chat.request)
        },
        (HistoryStage::Copy, HistoryEvent::CopyFailed) => {
            copy.stage = HistoryStage::Over;
            HistoryAction::Fail
        },
        _ => HistoryAction::Stop,
    }
}

/// How copying stands after events.
pub open spec fn history_after<M, E>(start: HistoryCopy, events: Seq<HistoryEvent<M, E>>) -> HistoryCopy
    decreases events.len(),
{
    if events.len() == 0 {
        start
    } else {
        history_after(start, events.drop_last()).next(events.last()).0
    }
}

/// Whether every event can come in when it does.
pub open spec fn history_accepted<M, E>(
    start: HistoryCopy,
    events: Seq<HistoryEvent<M, E>>,
) -> bool
    decreases events.len(),
{
    events.len() > 0 ==> {
        &&& history_accepted(start, events.drop_last())
        &&& history_after(start, events.drop_last()).accepts(events.last())
    }
}

/// How many posts were copied in all pages together.
pub open spec fn copied_in_all<M, E>(events: Seq<HistoryEvent<M, E>>) -> int
    decreases events.len(),
{
    if events.len() == 0 {
        0
    } else {
        copied_in_all(events.drop_last()) + (match events.last() {
            HistoryEvent::Copied { count, .. } => count as int,
            _ => 0,
        })
    }
}

/// The count is that of all pages together, whatever waits there were between
/// them.
pub proof fn law_count_adds_up<M, E>(start: HistoryCopy, events: Seq<HistoryEvent<M, E>>)
    requires
        history_accepted(start, events),
    ensures
        history_after(start, events).count == start.count + copied_in_all(events),
    decreases events.len(),
{
    if events.len() > 0 {
        law_count_adds_up(start, events.drop_last());
    }
}

/// Copying a channel fails just when one of its pages could not be copied:
/// requests that fail never make it fail. Nothing can come in after any end.
pub proof fn law_only_a_page_fails<M, E>(
    before: HistoryCopy,
    event: HistoryEvent<M, E>,
    later: HistoryEvent<M, E>,
)
    requires
        before.accepts(event),
    ensures
        before.next(event).1 is Fail <==> event is CopyFailed,
        before.next(event).1 is Fail || before.next(event).1 is Finish || before.next(
            event,
        ).1 is Stop <==> before.next(event).0.stage is Over,
        before.next(event).0.stage is Over ==> !before.next(event).0.accepts(later),
{
}

/// A page that could not be copied is the last: no page is asked for after it.
pub proof fn law_nothing_after_a_failed_page<M, E>(
    start: HistoryCopy,
    events: Seq<HistoryEvent<M, E>>,
)
    requires
        history_accepted(start, events),
    ensures
        forall|i: int|
            0 <= i < events.len() - 1 ==> !((#[trigger] events[i]) is CopyFailed),
    decreases events.len(),
{
    if events.len() > 1 {
        let earlier = events.drop_last();
        law_nothing_after_a_failed_page(start, earlier);
        reveal_with_fuel(history_accepted, 3);
        reveal_with_fuel(history_after, 2);
        let before = history_after(start, earlier.drop_last());
        law_only_a_page_fails(before, earlier.last(), events.last());
        assert forall|i: int| 0 <= i < events.len() - 1 implies !(
        (#[trigger] events[i]) is CopyFailed) by {
            assert(events[i] == earlier[i]);
        }
    }
}

/// What is attached to a post.
#[derive(Debug, PartialEq, Eq)]
pub enum Attachment<M> {
    Nothing,
    /// Something that the client can send again.
    Media(M),
    /// Something that it cannot send again.
    Unsupported,
}

/// A post to copy.
#[derive(Debug, PartialEq, Eq)]
pub struct Post<M, E> {
    pub id: i32,
    pub message: String,
    pub media: Attachment<M>,
    pub entities: Vec<E>,
}

/// The value of a `Post`.
pub struct PostView<M, E> {
    pub id: i32,
    pub message: Seq<char>,
    pub media: Attachment<M>,
    pub entities: Seq<E>,
}

impl<M, E> View for Post<M, E> {
    type V = PostView<M, E>;

    open spec fn view(&self) -> PostView<M, E> {
        PostView {
            id: self.id,
            message: self.message@,
            media: self.media,
            entities: self.entities@,
        }
    }
}

impl<M, E> RawMessage<M, E> {
    /// What is attached to the message.
    pub open spec fn attached(self) -> Attachment<M> {
        match self.media {
            None => Attachment::Nothing,
            Some(RawMedia::Document { media, .. }) => Attachment::Media(media),
            Some(RawMedia::Photo { media, .. }) => Attachment::Media(media),
            Some(RawMedia::Other(Some(media))) => Attachment::Media(media),
            Some(RawMedia::Other(None)) => Attachment::Unsupported,
        }
    }

    /// The message as a post.
    pub open spec fn post(self) -> PostView<M, E> {
        PostView {
            id: self.id,
            message: self.message@,
            media: self.attached(),
            entities: self.formatting(),
        }
    }

    /// The message as a post.
    pub fn into_post(self) -> (r: Post<M, E>)
        ensures
            r@ == self.post(),
    {
        let media = match self.media {
            None => Attachment::Nothing,
            Some(RawMedia::Document { media, .. }) => Attachment::Media(media),
            Some(RawMedia::Photo { media, .. }) => Attachment::Media(media),
            Some(RawMedia::Other(Some(media))) => Attachment::Media(media),
            Some(RawMedia::Other(None)) => Attachment::Unsupported,
        };
        let entities = match self.entities {
            Some(entities) => entities,
            None => Vec::new(),
        };
        Post { id: self.id, message: self.message, media, entities }
    }
}

/// The posts among the entries of a page, in page order.
pub open spec fn posts_of<M, E>(page: Seq<Incoming<M, E>>) -> Seq<PostView<M, E>>
    decreases page.len(),
{
    if page.len() == 0 {
        Seq::empty()
    } else {
        let earlier = posts_of(page.drop_last());
        match page.last() {
            Incoming::Message(message) => earlier.push(message.post()),
            Incoming::Other { .. } => earlier,
        }
    }
}

/// The values of posts.
pub open spec fn post_values<M, E>(posts: Seq<Post<M, E>>) -> Seq<PostView<M, E>> {
    posts.map_values(|post: Post<M, E>| post@)
}

fn read_posts<M, E>(page: Vec<Incoming<M, E>>) -> (r: Vec<Post<M, E>>)
    ensures
        post_values(r@) == posts_of(page@),
{
    let mut posts: Vec<Post<M, E>> = Vec::new();
    assert(page@.take(0) =~= Seq::empty());
    assert(post_values(posts@) =~= Seq::empty());
    for entry in iter: page
        invariant
            iter.seq() == page@,
            post_values(posts@) == posts_of(page@.take(iter.index() as int)),
    {
        let ghost before = posts@;
        proof {
            let n = iter.index() as int;
            assert(page@.take(n + 1).drop_last() =~= page@.take(n));
            assert(page@.take(n + 1).last() == entry);
        }
        if let Incoming::Message(message) = entry {
            let post = message.into_post();
            posts.push(post);
            assert(post_values(posts@) =~= post_values(before).push(post@));
        }
    }
    assert(page@.take(page@.len() as int) =~= page@);
    posts
}

impl<M, E> PostView<M, E> {
    /// What is sent for the post.
    pub open spec fn outgoing(self) -> OutgoingView<M, E> {
        OutgoingView::Message {
            text: self.message,
            media: match self.media {
                Attachment::Media(media) => Some(media),
                _ => None,
            },
            reply_to: None,
            entities: self.entities,
        }
    }

    /// What is stored when the post was sent.
    pub open spec fn row(self, chat_id: i64) -> MessageRow {
        MessageRow {
            id: self.id,
            chat_id,
            downloaded: !(self.media is Nothing),
            forwarded: true,
        }
    }
}

impl<M, E> Post<M, E> {
    /// What is handed to the client to send the post.
    pub fn outgoing(&self) -> (r: Outgoing<'_, M, E>)
        requires
            !(self@.media is Unsupported),
        ensures
            r@ == self@.outgoing(),
    {
        let media = match &self.media {
            Attachment::Media(media) => Some(media),
            _ => None,
        };
        Outgoing::Message {
            text: self.message.as_str(),
            media,
            reply_to: None,
            entities: &self.entities,
        }
    }

    fn sent_row(&self, chat_id: i64) -> (r: MessageRow)
        ensures
            r == self@.row(chat_id),
    {
        let downloaded: bool = match self.media {
            Attachment::Nothing => false,
            _ => true,
        };
        MessageRow { id: self.id, chat_id, downloaded, forwarded: true }
    }
}

/// What is waited for while the posts of a page are copied.
#[derive(Clone, Copy, Debug, PartialEq, Eq)]
pub enum PostStage {
    /// The discussion of the oldest post left.
    Find,
    /// The outcome of sending that post.
    Send { discussion: Discussion },
    /// The post being stored as sent.
    Record { discussion: Discussion, sent_id: i32 },
    /// Its comments being copied.
    Comments,
    /// The place after the page being stored.
    Save,
    /// Nothing any more.
    Over,
}

/// The state of copying the posts of a page.
#[derive(Debug)]
pub struct PostCopy<M, E> {
    /// The channel that is copied.
    chat: Chat,
    /// The channel that the posts go to.
    dst_chat: PackedChat,
    /// The posts left, newest first.
    posts: Vec<Post<M, E>>,
    /// The place after the page.
    next: Cursor,
    /// How many posts were copied.
    count: i32,
    stage: PostStage,
}

/// The value of a `PostCopy`.
pub struct PostCopyView<M, E> {
    pub chat: Chat,
    pub dst_chat: PackedChat,
    pub posts: Seq<PostView<M, E>>,
    pub next: Cursor,
    pub count: int,
    pub stage: PostStage,
}

impl<M, E> View for PostCopy<M, E> {
    type V = PostCopyView<M, E>;

    closed spec fn view(&self) -> PostCopyView<M, E> {
        PostCopyView {
            chat: self.chat,
            dst_chat: self.dst_chat,
            posts: post_values(self.posts@),
            next: self.next,
            count: self.count as int,
            stage: self.stage,
        }
    }
}

/// What comes in while the posts of a page are copied.
#[derive(Clone, Copy, Debug, PartialEq, Eq)]
pub enum PostEvent {
    /// The discussion of the post.
    Found(Discussion),
    /// The post has none.
    NotFound,
    /// The post was sent, and has this id where it went.
    Sent(i32),
    SendFailed,
    /// The post is stored as sent.
    Recorded,
    CommentsCopied,
    CommentsFailed,
    /// The place is stored.
    Saved,
}

/// What to do next.
#[derive(Clone, Copy, Debug, PartialEq, Eq)]
pub enum PostAction {
    /// Find the discussion of the post with this id.
    Find(i32),
    /// Send the oldest post left to this channel.
    Send { dst_chat: PackedChat },
    /// Store a post as sent.
    Record(MessageRow),
    /// Copy the comments of a discussion under the message with this id in this
    /// channel.
    CopyComments { discussion: Discussion, dst_chat: PackedChat, sent_id: i32 },
    /// Store where to read on.
    Save(CursorRow),
    /// The page was copied, so many posts of it.
    Finish(i32),
    /// Give up.
    Fail,
}

impl<M, E> PostCopyView<M, E> {
    /// The same, waiting for something else.
    pub open spec fn at(self, stage: PostStage) -> PostCopyView<M, E> {
        PostCopyView { stage, ..self }
    }

    /// The same without the oldest post left.
    pub open spec fn without_oldest(self) -> PostCopyView<M, E> {
        PostCopyView { posts: self.posts.drop_last(), ..self }
    }

    /// What is to be sent now.
    pub open spec fn to_send(self) -> OutgoingView<M, E> {
        self.posts.last().outgoing()
    }

    /// There is a post to work on just while one is worked on, and a post that is
    /// being sent is one that can be.
    pub open spec fn well_formed(self) -> bool {
        match self.stage {
            PostStage::Find | PostStage::Record { .. } => self.posts.len() > 0,
            PostStage::Send { .. } => self.posts.len() > 0 && !(
            self.posts.last().media is Unsupported),
            PostStage::Save => self.posts.len() == 0,
            PostStage::Comments | PostStage::Over => true,
        }
    }

    /// Whether this can come in now. A post that has a discussion has to be one
    /// that can be sent again, and the count must not overflow.
    pub open spec fn accepts(self, event: PostEvent) -> bool {
        match (self.stage, event) {
            (PostStage::Find, PostEvent::Found(_)) => !(self.posts.last().media is Unsupported),
            (PostStage::Find, PostEvent::NotFound) => true,
            (PostStage::Send { .. }, PostEvent::Sent(_)) => true,
            (PostStage::Send { .. }, PostEvent::SendFailed) => true,
            (PostStage::Record { .. }, PostEvent::Recorded) => self.count < i32::MAX,
            (PostStage::Comments, PostEvent::CommentsCopied) => true,
            (PostStage::Comments, PostEvent::CommentsFailed) => true,
            (PostStage::Save, PostEvent::Saved) => true,
            _ => false,
        }
    }

    /// How copying the posts of a page starts, and what is done first. The place
    /// after the page is computed from its ids.
    pub open spec fn opened(chat: Chat, dst_chat: PackedChat, page: Seq<Incoming<M, E>>) -> (
        PostCopyView<M, E>,
        PostAction,
    ) {
        (PostCopyView {
            chat,
            dst_chat,
            posts: posts_of(page),
            next: crate::cursor::cursor_after(crate::page::ids_of(page))->0,
            count: 0,
            stage: PostStage::Over,
        }).proceeded()
    }

    /// The discussion of the oldest post left is looked for; when no post is
    /// left, the place after the page is taken and stored.
    pub open spec fn proceeded(self) -> (PostCopyView<M, E>, PostAction) {
        if self.posts.len() > 0 {
            (self.at(PostStage::Find), PostAction::Find(self.posts.last().id))
        } else {
            (
                PostCopyView {
                    chat: Chat { request: self.chat.request.moved(self.next), ..self.chat },
                    stage: PostStage::Save,
                    ..self
                },
                PostAction::Save(
                    CursorRow {
                        id: self.chat.chat.id,
                        offset_id: self.next.offset_id,
                        min_id: self.next.offset_id,
                        hash: self.next.hash,
                    },
                ),
            )
        }
    }

    /// How copying goes on: a post without a discussion is passed over; any
    /// other is sent, stored as sent, and followed by its comments. A failure
    /// ends it.
    pub open spec fn step(self, event: PostEvent) -> (PostCopyView<M, E>, PostAction) {
        match (self.stage, event) {
            (PostStage::Find, PostEvent::Found(discussion)) => (
                self.at(PostStage::Send { discussion }),
                PostAction::Send { dst_chat: self.dst_chat },
            ),
            (PostStage::Find, PostEvent::NotFound) => self.without_oldest().proceeded(),
            (PostStage::Send { discussion }, PostEvent::Sent(sent_id)) => (
                self.at(PostStage::Record { discussion, sent_id }),
                PostAction::Record(self.posts.last().row(self.chat.chat.id)),
            ),
            (PostStage::Record { discussion, sent_id }, PostEvent::Recorded) => (
                PostCopyView {
                    count: self.count + 1,
                    stage: PostStage::Comments,
                    ..self.without_oldest()
                },
                PostAction::CopyComments { discussion, dst_chat: self.dst_chat, sent_id },
            ),
            (PostStage::Comments, PostEvent::CommentsCopied) => self.proceeded(),
            (PostStage::Save, PostEvent::Saved) => (
                self.at(PostStage::Over),
                PostAction::Finish(self.count as i32),
            ),
            _ => (self.at(PostStage::Over), PostAction::Fail),
        }
    }
}

impl<M, E> PostCopy<M, E> {
    fn proceed(&mut self) -> (r: PostAction)
        ensures
            (final(self)@, r) == old(self)@.proceeded(),
            final(self)@.well_formed(),
    {
        if self.posts.len() > 0 {
            self.stage = PostStage::Find;
            PostAction::Find(self.posts[self.posts.len() - 1].id)
        } else {
            let next: Cursor = self.next;
            let row = self.chat.advance(next);
            self.stage = PostStage::Save;
            PostAction::Save(row)
        }
    }

    fn drop_oldest(&mut self)
        requires
            old(self)@.posts.len() > 0,
        ensures
            final(self)@ == old(self)@.without_oldest(),
    {
        let ghost before = self@.posts;
        self.posts.pop();
        assert(self@.posts =~= before.drop_last());
    }

    /// Starts to copy the posts of a page of a channel to another, the oldest
    /// first, and says what to do first.
    pub fn new(chat: Chat, dst_chat: PackedChat, page: Vec<Incoming<M, E>>) -> (r: (
        PostCopy<M, E>,
        PostAction,
    ))
        requires
            crate::cursor::cursor_after(crate::page::ids_of(page@)) is Some,
        ensures
            (r.0@, r.1) == PostCopyView::opened(chat, dst_chat, page@),
            r.0@.well_formed(),
    {
        let next: Cursor = page_cursor(&page_ids(&page)).unwrap();
        let mut copy = PostCopy {
            chat,
            dst_chat,
            posts: read_posts(page),
            next,
            count: 0,
            stage: PostStage::Over,
        };
        let action = copy.proceed();
        (copy, action)
    }

    /// The channel that is copied, and where it is read on.
    pub fn chat(&self) -> (r: Chat)
        ensures
            r == self@.chat,
    {
        self.chat
    }

    /// Whether this can come in now: see `PostCopyView::accepts`.
    pub fn can_accept(&self, event: PostEvent) -> (r: bool)
        requires
            self@.well_formed(),
        ensures
            r == self@.accepts(event),
    {
        match (self.stage, event) {
            (PostStage::Find, PostEvent::Found(_)) => match self.posts[self.posts.len() - 1].media {
                Attachment::Unsupported => false,
                _ => true,
            },
            (PostStage::Find, PostEvent::NotFound) => true,
            (PostStage::Send { .. }, PostEvent::Sent(_)) => true,
            (PostStage::Send { .. }, PostEvent::SendFailed) => true,
            (PostStage::Record { .. }, PostEvent::Recorded) => self.count < i32::MAX,
            (PostStage::Comments, PostEvent::CommentsCopied) => true,
            (PostStage::Comments, PostEvent::CommentsFailed) => true,
            (PostStage::Save, PostEvent::Saved) => true,
            _ => false,
        }
    }

    /// What is to be sent now: the oldest post left.
    pub fn outgoing(&self) -> (r: Outgoing<'_, M, E>)
        requires
            self@.well_formed(),
            self@.stage is Send,
        ensures
            r@ == self@.posts.last().outgoing(),
            r@ == self@.to_send(),
    {
        self.posts[self.posts.len() - 1].outgoing()
    }
}

/// Goes on copying the posts of a page with what came in, and says what to do
/// next.
pub fn copy_messages<M, E>(copy: &mut PostCopy<M, E>, event: PostEvent) -> (r: PostAction)
    requires
        old(copy)@.well_formed(),
        old(copy)@.accepts(event),
    ensures
        (final(copy)@, r) == old(copy)@.step(event),
        final(copy)@.well_formed(),
{
    match (copy.stage, event) {
        (PostStage::Find, PostEvent::Found(discussion)) => {
            copy.stage = PostStage::Send { discussion };
            PostAction::Send { dst_chat: copy.dst_chat }
        },
        (PostStage::Find, PostEvent::NotFound) => {
            copy.drop_oldest();
            copy.proceed()
        },
        (PostStage::Send { discussion }, PostEvent::Sent(sent_id)) => {
            copy.stage = PostStage::Record { discussion, sent_id };
            let chat_id: i64 = copy.chat.chat.id;
            PostAction::Record(copy.posts[copy.posts.len() - 1].sent_row(chat_id))
        },
        (PostStage::Record { discussion, sent_id }, PostEvent::Recorded) => {
            copy.drop_oldest();
            copy.count = copy.count + 1;
            copy.stage = PostStage::Comments;
            PostAction::CopyComments { discussion, dst_chat: copy.dst_chat, sent_id }
        },
        (PostStage::Comments, PostEvent::CommentsCopied) => copy.proceed(),
        (PostStage::Save, PostEvent::Saved) => {
            copy.stage = PostStage::Over;
            PostAction::Finish(copy.count)
        },
        _ => {
            copy.stage = PostStage::Over;
            PostAction::Fail
        },
    }
}

/// Just the posts of a page that no bot sent and that have comments are copied.
pub proof fn law_just_commented_posts<M, E>(page: Seq<Incoming<M, E>>)
    ensures
        forall|i: int|
            0 <= i < commented_posts(page).len() ==> (#[trigger] commented_posts(
                page,
            )[i]).commented(),
        forall|i: int|
            0 <= i < page.len() && (#[trigger] page[i]).commented() ==> commented_posts(
                page,
            ).contains(page[i]),
{
    broadcast use {Seq::lemma_filter_pred, Seq::lemma_filter_contains};

    let keep = |entry: Incoming<M, E>| entry.commented();
    assert forall|i: int| 0 <= i < commented_posts(page).len() implies (#[trigger] commented_posts(
        page,
    )[i]).commented() by {
        assert(keep(page.filter(keep)[i]));
    }
    assert forall|i: int| 0 <= i < page.len() && (#[trigger] page[i]).commented() implies
    commented_posts(page).contains(page[i]) by {
        assert(keep(page[i]));
        assert(page.filter(keep).contains(page[i]));
    }
}

/// Copying the posts of a page stays well formed, whatever comes in.
pub proof fn law_posts_stay_well_formed<M, E>(before: PostCopyView<M, E>, event: PostEvent)
    requires
        before.well_formed(),
        before.accepts(event),
    ensures
        before.step(event).0.well_formed(),
{
}

/// The place to read on from moves only when no post of the page is left, and
/// then to the place after the page.
pub proof fn law_channel_moves_after_the_page<M, E>(before: PostCopyView<M, E>, event: PostEvent)
    requires
        before.well_formed(),
        before.accepts(event),
        before.step(event).0.chat != before.chat,
    ensures
        before.step(event).0.posts.len() == 0,
        before.step(event).0.chat.request == before.chat.request.moved(before.next),
        before.step(event).1 == PostAction::Save(
            CursorRow {
                id: before.chat.chat.id,
                offset_id: before.next.offset_id,
                min_id: before.next.offset_id,
                hash: before.next.hash,
            },
        ),
{
}

/// Where the posts go does not change; every post is sent there, and its comments
/// are copied there, under the message that it was sent as.
pub proof fn law_posts_go_to_one_channel<M, E>(before: PostCopyView<M, E>, event: PostEvent)
    requires
        before.well_formed(),
        before.accepts(event),
    ensures
        before.step(event).0.dst_chat == before.dst_chat,
        before.step(event).1 is Send ==> before.step(event).1 == (PostAction::Send {
            dst_chat: before.dst_chat,
        }),
        before.step(event).1 matches PostAction::CopyComments { discussion, dst_chat, sent_id }
            ==> dst_chat == before.dst_chat && before.stage == (PostStage::Record {
            discussion,
            sent_id,
        }),
        before.stage is Send && event is Sent ==> (before.step(event).0.stage matches
            PostStage::Record { discussion, sent_id } && discussion
            == before.stage->Send_discussion && sent_id == event->Sent_0),
{
}

/// A failure ends copying: nothing can come in after it, and the channel is read
/// on from where it was.
pub proof fn law_failure_ends_the_page<M, E>(
    before: PostCopyView<M, E>,
    event: PostEvent,
    later: PostEvent,
)
    requires
        before.well_formed(),
        before.accepts(event),
    ensures
        before.step(event).1 is Fail <==> event is SendFailed || event is CommentsFailed,
        before.step(event).1 is Fail ==> before.step(event).0.chat == before.chat
            && before.step(event).0.stage is Over && !before.step(event).0.accepts(later),
{
}

/// How copying the posts of a page stands after events.
pub open spec fn after_events<M, E>(
    start: PostCopyView<M, E>,
    events: Seq<PostEvent>,
) -> PostCopyView<M, E>
    decreases events.len(),
{
    if events.len() == 0 {
        start
    } else {
        after_events(start, events.drop_last()).step(events.last()).0
    }
}

/// Whether every event can come in when it does.
pub open spec fn all_accepted<M, E>(start: PostCopyView<M, E>, events: Seq<PostEvent>) -> bool
    decreases events.len(),
{
    events.len() > 0 ==> {
        &&& all_accepted(start, events.drop_last())
        &&& after_events(start, events.drop_last()).accepts(events.last())
    }
}

/// How many posts are done with after events: passed over, or stored as sent.
pub open spec fn posts_finished(events: Seq<PostEvent>) -> nat
    decreases events.len(),
{
    if events.len() == 0 {
        0
    } else {
        posts_finished(events.drop_last()) + (match events.last() {
            PostEvent::NotFound | PostEvent::Recorded => 1nat,
            _ => 0,
        })
    }
}

/// How many posts are stored as sent.
pub open spec fn posts_sent(events: Seq<PostEvent>) -> nat
    decreases events.len(),
{
    if events.len() == 0 {
        0
    } else {
        posts_sent(events.drop_last()) + (match events.last() {
            PostEvent::Recorded => 1nat,
            _ => 0,
        })
    }
}

/// How many discussions of posts were found.
pub open spec fn discussions_found(events: Seq<PostEvent>) -> nat
    decreases events.len(),
{
    if events.len() == 0 {
        0
    } else {
        discussions_found(events.drop_last()) + (match events.last() {
            PostEvent::Found(_) => 1nat,
            _ => 0,
        })
    }
}

/// The posts of a page are dealt with one after the other from the oldest on,
/// each once, and the count grows by one for each that was sent. When the place
/// after the page is stored, all of them have been dealt with.
pub proof fn law_each_post_once<M, E>(start: PostCopyView<M, E>, events: Seq<PostEvent>)
    requires
        start.well_formed(),
        all_accepted(start, events),
    ensures
        after_events(start, events).well_formed(),
        posts_finished(events) <= start.posts.len(),
        after_events(start, events).posts == start.posts.take(
            start.posts.len() - posts_finished(events),
        ),
        after_events(start, events).count == start.count + posts_sent(events),
        after_events(start, events).stage is Save ==> posts_finished(events) == start.posts.len(),
    decreases events.len(),
{
    if events.len() == 0 {
        assert(start.posts.take(start.posts.len() as int) =~= start.posts);
    } else {
        let earlier = events.drop_last();
        law_each_post_once(start, earlier);
        let before = after_events(start, earlier);
        let event = events.last();
        law_posts_stay_well_formed(before, event);
        let n = start.posts.len() - posts_finished(earlier);
        match event {
            PostEvent::NotFound | PostEvent::Recorded => {
                assert(before.posts.len() > 0);
                assert(start.posts.take(n).drop_last() =~= start.posts.take(n - 1));
            },
            _ => {},
        }
    }
}

/// Whether a post is worked on whose discussion was found and that is not stored
/// as sent yet.
pub open spec fn sending(stage: PostStage) -> bool {
    stage is Send || stage is Record
}

/// From the start of a page to its end: the place after the page stays what its
/// ids give, and the channel stays where it was until every post has been dealt
/// with. Then it moves to that place, and the count is the number of posts whose
/// discussion was found.
pub proof fn law_page_of_posts<M, E>(
    chat: Chat,
    dst_chat: PackedChat,
    page: Seq<Incoming<M, E>>,
    events: Seq<PostEvent>,
)
    requires
        crate::cursor::cursor_after(crate::page::ids_of(page)) is Some,
        all_accepted(PostCopyView::opened(chat, dst_chat, page).0, events),
    ensures
        ({
            let start = PostCopyView::opened(chat, dst_chat, page).0;
            let end = after_events(start, events);
            let next = crate::cursor::cursor_after(crate::page::ids_of(page))->0;
            let moved = end.stage is Save || (events.len() > 0 && events.last() is Saved);
            &&& end.next == next
            &&& end.chat == (if moved {
                Chat { request: chat.request.moved(next), ..chat }
            } else {
                chat
            })
            &&& moved ==> posts_finished(events) == posts_of(page).len() && end.count
                == discussions_found(events)
            &&& !(end.stage is Over) ==> discussions_found(events) == posts_sent(events) + (
            if sending(end.stage) {
                1int
            } else {
                0
            })
        }),
    decreases events.len(),
{
    let start = PostCopyView::opened(chat, dst_chat, page).0;
    law_each_post_once(start, events);
    if events.len() > 0 {
        let earlier = events.drop_last();
        law_page_of_posts(chat, dst_chat, page, earlier);
        law_each_post_once(start, earlier);
        if earlier.len() > 0 && earlier.last() is Saved {
            assert(after_events(start, earlier).stage is Over) by {
                reveal_with_fuel(all_accepted, 3);
                reveal_with_fuel(after_events, 2);
            }
        }
    }
}

/// A post is copied just where no bot sent it and it has at least one comment; so
/// one that is copied still is when it gets more comments.
pub proof fn law_commented_by_fields<M, E>(message: RawMessage<M, E>, more: RawMessage<M, E>)
    ensures
        Incoming::Message(message).commented() <==> message.via_bot_id is None && message.replies
            is Some && message.replies->0 > 0,
        Incoming::Message(message).commented() && more.via_bot_id is None && (
        more.replies matches Some(n) && n >= message.replies->0) ==> Incoming::Message(
            more,
        ).commented(),
{
}

/// Nothing but a message is copied as a post.
pub proof fn law_notices_are_not_copied<M, E>(id: i32)
    ensures
        !(Incoming::<M, E>::Other { id }).commented(),
{
}

/// The posts of a page are picked one by one, and keep their order.
pub proof fn law_posts_are_picked_in_order<M, E>(
    before: Seq<Incoming<M, E>>,
    entry: Incoming<M, E>,
    after: Seq<Incoming<M, E>>,
)
    ensures
        commented_posts(Seq::<Incoming<M, E>>::empty()).len() == 0,
        entry.commented() ==> commented_posts(before + seq![entry] + after) == commented_posts(
            before,
        ) + seq![entry] + commented_posts(after),
        !entry.commented() ==> commented_posts(before + seq![entry] + after) == commented_posts(
            before + after,
        ),
{
    reveal(Seq::filter);
    let keep = |e: Incoming<M, E>| e.commented();
    let one = seq![entry];
    Seq::filter_distributes_over_add(before + one, after, keep);
    Seq::filter_distributes_over_add(before, one, keep);
    Seq::filter_distributes_over_add(before, after, keep);
    assert(one.drop_last() =~= Seq::empty());
    assert(one.drop_last().filter(keep) =~= Seq::empty());
    assert(one.last() == entry);
    if entry.commented() {
        assert(one.filter(keep) =~= one);
    } else {
        assert(one.filter(keep) =~= Seq::empty());
        assert(commented_posts(before + one + after) =~= commented_posts(before + after));
    }
}

/// What can come in while a channel is copied depends on what is waited for; beyond
/// that, the count must not overflow.
pub proof fn law_what_the_channel_waits_for<M, E>(copy: HistoryCopy, event: HistoryEvent<M, E>)
    ensures
        event is Messages || event is Other || event is FetchFailed ==> (copy.accepts(event)
            <==> copy.stage is Fetch),
        event is Slept ==> (copy.accepts(event) <==> copy.stage is Wait),
        event is CopyFailed ==> (copy.accepts(event) <==> copy.stage is Copy),
        event matches HistoryEvent::Copied { chat, count } ==> (copy.accepts(event) <==> copy.stage
            is Copy && i32::MIN <= copy.count + count <= i32::MAX),
{
}

/// How a channel is copied: of a page that holds anything, the posts with comments
/// are copied, also where there are none; an empty page or none ends it with the
/// count so far. A flood wait is slept through, any other failure of a request ends
/// it quietly. After a page the channel is read on from where that left it, and the
/// posts of the page are counted.
pub proof fn law_channel_goes_page_by_page<M, E>(copy: HistoryCopy, event: HistoryEvent<M, E>)
    requires
        copy.accepts(event),
    ensures
        event matches HistoryEvent::Messages(page) ==> page@.len() > 0 ==> copy.next(event).1
            == HistoryActionView::Copy(commented_posts(page@)) && copy.next(event).0.stage is Copy,
        event matches HistoryEvent::Messages(page) ==> page@.len() == 0 ==> copy.next(event).1
            == HistoryActionView::<M, E>::Finish(copy.count),
        event is Other ==> copy.next(event).1 == HistoryActionView::<M, E>::Finish(copy.count),
        event matches HistoryEvent::FetchFailed(failure) ==> (crate::retry::flood_wait(
            failure,
        ) matches Some(seconds) ==> copy.next(event).1 == HistoryActionView::<M, E>::Sleep(seconds)
            && copy.next(event).0.stage is Wait),
        event matches HistoryEvent::FetchFailed(failure) ==> crate::retry::flood_wait(failure)
            is None ==> copy.next(event).1 == HistoryActionView::<M, E>::Stop,
        event is Slept ==> copy.next(event).1 == HistoryActionView::<M, E>::Fetch(copy.chat.request)
            && copy.next(event).0.stage is Fetch,
        event matches HistoryEvent::Copied { chat, count } ==> copy.next(event).0.chat == chat
            && copy.next(event).0.count == copy.count + count && copy.next(event).0.stage is Fetch
            && copy.next(event).1 == HistoryActionView::<M, E>::Fetch(chat.request),
        !(event is Copied) ==> copy.next(event).0.chat == copy.chat && copy.next(event).0.count
            == copy.count,
{
}

/// The value of an action is what it carries, as it is.
pub proof fn law_value_of_history_action<M, E>(action: HistoryAction<M, E>, post: Post<M, E>)
    ensures
        action matches HistoryAction::Fetch(request) ==> action@ == HistoryActionView::<
            M,
            E,
        >::Fetch(request),
        action matches HistoryAction::Sleep(seconds) ==> action@ == HistoryActionView::<
            M,
            E,
        >::Sleep(seconds),
        action matches HistoryAction::Copy(posts) ==> action@ == HistoryActionView::<M, E>::Copy(
            posts@,
        ),
        action matches HistoryAction::Finish(count) ==> action@ == HistoryActionView::<
            M,
            E,
        >::Finish(count),
        action is Stop ==> action@ == HistoryActionView::<M, E>::Stop,
        action is Fail ==> action@ == HistoryActionView::<M, E>::Fail,
        post@.id == post.id,
        post@.message == post.message@,
        post@.media == post.media,
        post@.entities == post.entities@,
{
}

/// A post has the id, the text and the formatting of its message, and what is
/// attached to it: a document, a photo, or what else the client can send again.
pub proof fn law_post_holds_the_message<M, E>(message: RawMessage<M, E>)
    ensures
        message.post().id == message.id,
        message.post().message == message.message@,
        message.entities is None ==> message.post().entities.len() == 0,
        message.entities matches Some(entities) ==> message.post().entities == entities@,
        message.post().media is Nothing <==> message.media is None,
        message.media matches Some(RawMedia::Document { attributes, media }) ==> message.post().media
            == Attachment::Media(media),
        message.media matches Some(RawMedia::Photo { photo_id, media }) ==> message.post().media
            == Attachment::Media(media),
        message.media matches Some(RawMedia::Other(Some(media))) ==> message.post().media
            == Attachment::Media(media),
        message.media matches Some(RawMedia::Other(handle)) ==> handle is None
            ==> message.post().media is Unsupported,
{
}

/// Every message of a page is a post, in the order of the page.
pub proof fn law_posts_of_a_page<M, E>(page: Seq<Incoming<M, E>>, entry: Incoming<M, E>)
    ensures
        posts_of(Seq::<Incoming<M, E>>::empty()).len() == 0,
        entry is Other ==> posts_of(page.push(entry)) == posts_of(page),
        entry matches Incoming::Message(message) ==> posts_of(page.push(entry)).len()
            == posts_of(page).len() + 1 && posts_of(page.push(entry)).drop_last() == posts_of(page)
            && posts_of(page.push(entry)).last() == message.post(),
{
    assert(page.push(entry).drop_last() =~= page);
    if let Incoming::Message(message) = entry {
        assert(posts_of(page).push(message.post()).drop_last() =~= posts_of(page));
    }
}

/// A post is sent as one message of its own, with its text, its formatting and its
/// attachment, and is stored under its own id as forwarded; it counts as downloaded
/// just where something is attached.
pub proof fn law_post_is_sent_whole<M, E>(post: PostView<M, E>, chat_id: i64)
    ensures
        post.outgoing() matches OutgoingView::Message { text, media, reply_to, entities } && text
            == post.message && entities == post.entities && reply_to is None && (media is Some
            <==> post.media is Media) && (post.media is Media ==> media->0 == post.media->Media_0),
        post.row(chat_id).id == post.id,
        post.row(chat_id).chat_id == chat_id,
        post.row(chat_id).downloaded <==> !(post.media is Nothing),
        post.row(chat_id).forwarded == true,
{
}

/// What can come in while posts are copied depends on what is waited for. Beyond
/// that, a post with a discussion has to be one that can be sent again, and the
/// count must not overflow.
pub proof fn law_what_the_page_waits_for<M, E>(copy: PostCopyView<M, E>, event: PostEvent)
    ensures
        event is Found ==> (copy.accepts(event) <==> copy.stage is Find && !(
        copy.posts.last().media is Unsupported)),
        event is NotFound ==> (copy.accepts(event) <==> copy.stage is Find),
        event is Sent || event is SendFailed ==> (copy.accepts(event) <==> copy.stage is Send),
        event is Recorded ==> (copy.accepts(event) <==> copy.stage is Record && copy.count
            < i32::MAX),
        event is CommentsCopied || event is CommentsFailed ==> (copy.accepts(event) <==> copy.stage
            is Comments),
        event is Saved ==> (copy.accepts(event) <==> copy.stage is Save),
{
}

/// How the posts of a page are copied: one whose discussion is found is sent, then
/// stored as sent, and then its comments are copied; one without is passed over. The
/// next is the oldest left; when none is, the place after the page is stored, and
/// that ends it with the count. The count grows by one for each that is stored.
pub proof fn law_posts_go_one_by_one<M, E>(copy: PostCopyView<M, E>, event: PostEvent)
    requires
        copy.well_formed(),
        copy.accepts(event),
    ensures
        copy.step(event).0.next == copy.next,
        copy.step(event).0.count == copy.count + (if event is Recorded {
            1int
        } else {
            0
        }),
        event is Recorded || event is NotFound ==> copy.step(event).0.posts
            == copy.posts.drop_last(),
        !(event is Recorded || event is NotFound) ==> copy.step(event).0.posts == copy.posts,
        event matches PostEvent::Found(discussion) ==> copy.step(event).1 is Send && copy.step(
            event,
        ).0.stage == (PostStage::Send { discussion }),
        event matches PostEvent::Sent(sent_id) ==> copy.step(event).1 is Record && copy.step(
            event,
        ).0.stage == (PostStage::Record { discussion: copy.stage->Send_discussion, sent_id }),
        copy.step(event).1 matches PostAction::Record(row) ==> event is Sent && row.id
            == copy.posts.last().id && row.chat_id == copy.chat.chat.id && row.forwarded && (
        row.downloaded <==> !(copy.posts.last().media is Nothing)),
        event is Recorded ==> copy.step(event).1 is CopyComments && copy.step(event).0.stage
            is Comments,
        event is NotFound || event is CommentsCopied ==> copy.step(event).0.posts.len() > 0
            ==> copy.step(event).1 == PostAction::Find(copy.step(event).0.posts.last().id)
            && copy.step(event).0.stage is Find && copy.step(event).0.chat == copy.chat,
        event is NotFound || event is CommentsCopied ==> copy.step(event).0.posts.len() == 0 ==> (
        copy.step(event).1 matches PostAction::Save(row) && row.id == copy.chat.chat.id
            && row.offset_id == copy.next.offset_id && row.min_id == copy.next.offset_id && row.hash
            == copy.next.hash) && copy.step(event).0.stage is Save && copy.step(
            event,
        ).0.chat.request.offset_id == copy.next.offset_id && copy.step(
            event,
        ).0.chat.request.min_id == copy.next.offset_id && copy.step(event).0.chat.request.hash
            == copy.next.hash && copy.step(event).0.chat.request.peer == copy.chat.request.peer
            && copy.step(event).0.chat.chat == copy.chat.chat,
        !(event is NotFound || event is CommentsCopied) ==> copy.step(event).0.chat == copy.chat,
        event is Saved ==> copy.step(event).1 is Finish && copy.step(event).0.stage is Over,
        event is Saved && i32::MIN <= copy.count <= i32::MAX ==> copy.step(event).1->Finish_0
            == copy.count,
        event is SendFailed || event is CommentsFailed ==> copy.step(event).1 is Fail,
{
}

/// A page starts with its oldest post, none counted, and the place after it; one
/// without posts is over at once.
pub proof fn law_page_starts_with_the_oldest<M, E>(
    chat: Chat,
    dst_chat: PackedChat,
    page: Seq<Incoming<M, E>>,
)
    ensures
        ({
            let (copy, action) = PostCopyView::<M, E>::opened(chat, dst_chat, page);
            &&& copy.posts == posts_of(page)
            &&& copy.dst_chat == dst_chat
            &&& copy.count == 0
            &&& crate::cursor::cursor_after(crate::page::ids_of(page)) is Some
                ==> crate::cursor::cursor_after(crate::page::ids_of(page)) == Some(copy.next)
            &&& posts_of(page).len() > 0 ==> action == PostAction::Find(posts_of(page).last().id)
                && copy.chat == chat && copy.stage is Find
            &&& posts_of(page).len() == 0 ==> action is Save && copy.stage is Save
        }),
{
}

/// Copying a channel starts with the request for the page that it is read on from,
/// with nothing counted.
pub proof fn law_channel_starts_where_it_was_left<M, E>(chat: Chat)
    ensures
        HistoryCopy::opened::<M, E>(chat).1 == HistoryActionView::<M, E>::Fetch(chat.request),
        HistoryCopy::opened::<M, E>(chat).0.chat == chat,
        HistoryCopy::opened::<M, E>(chat).0.count == 0,
        HistoryCopy::opened::<M, E>(chat).0.stage is Fetch,
{
}

/// What is sent is the oldest post left, all of it, and as a reply to nothing.
pub proof fn law_oldest_post_is_sent_whole<M, E>(copy: PostCopyView<M, E>)
    ensures
        copy.to_send() matches OutgoingView::Message { text, media, reply_to, entities } && text
            == copy.posts.last().message && entities == copy.posts.last().entities && reply_to
            is None && (copy.posts.last().media matches Attachment::Media(m) ==> media == Some(m))
            && (!(copy.posts.last().media is Media) ==> media is None),
{
}

} // verus!
