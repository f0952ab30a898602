//! Copying the comments under a post, page by page.

use crate::chat::CursorRow;
use crate::cursor::{page_cursor, Cursor};
use crate::discussion::{Discussion, GetReplies};
use crate::message::{
    Incoming, Message, MessageParsed, MessageParsedView, MessageRow, MessageType, MessageTypeView,
    Outgoing, OutgoingView, Target,
};
use crate::page::{group_messages, is_readable, law_page_well_formed, page_ids, read_comments};
use crate::peer::PackedChat;
use crate::retry::{rest_seconds, Failure};
use vstd::prelude::*;

verus! {

/// What is waited for while comments are copied.
#[derive(Clone, Copy, Debug, PartialEq, Eq)]
pub enum Stage {
    /// The discussion that the comments go to.
    Find,
    /// A page of comments.
    Fetch,
    /// The end of a flood wait, before the page is asked for again.
    Wait,
    /// Whether the first message of the queue is stored as forwarded.
    Check,
    /// The outcome of sending the first message of the queue.
    Send,
    /// The end of a flood wait, before the message is sent again.
    Hold,
    /// The first message of the queue being stored as sent.
    Record,
    /// A message being handed over for download.
    Queue,
    /// The end of the rest after a page.
    Rest,
    /// The place after the page being stored.
    Save,
    /// The place of a message that could not be sent being stored.
    Abort,
    /// Nothing any more.
    Over,
}

/// The state of copying the comments under a post.
#[derive(Debug)]
pub struct CommentCopy<M, E> {
    /// Where the comments are read.
    discussion: Discussion,
    /// Where they go, once that is found.
    target: Option<Target>,
    /// How many sendings there were.
    count: i32,
    /// How many pages were asked for.
    spins: i32,
    /// The place after the page that is worked on.
    next: Cursor,
    /// What is still to be sent of the page.
    queue: Vec<MessageParsed<M, E>>,
    stage: Stage,
}

/// The value of a `CommentCopy`.
pub struct CommentCopyView<M, E> {
    pub discussion: Discussion,
    pub target: Option<Target>,
    pub count: int,
    pub spins: int,
    pub next: Cursor,
    pub queue: Seq<MessageParsedView<M, E>>,
    pub stage: Stage,
}

/// What comes in while comments are copied.
#[derive(Debug)]
pub enum CommentEvent<M, E> {
    /// The discussion that the comments go to.
    Found(Discussion),
    /// There is none, or it could not be found out.
    NotFound,
    /// A page of comments, newest first.
    Replies(Vec<Incoming<M, E>>),
    /// There is nothing new.
    NotModified,
    FetchFailed(Failure),
    /// The time to sleep is over.
    Slept,
    /// Whether the message is stored as forwarded.
    Known(bool),
    Sent,
    SendFailed(Failure),
    /// The message is stored as sent.
    Recorded,
    /// The message is handed over for download.
    Queued,
    /// The place is stored.
    Saved,
}

/// What to do next.
#[derive(Debug)]
pub enum CommentAction<M, E> {
    /// Find the discussion of this post of a channel.
    Find { chat: PackedChat, post_id: i32 },
    /// Ask for a page.
    Fetch(GetReplies),
    /// Sleep so many seconds.
    Sleep(u64),
    /// Look up whether the message with this id is stored as forwarded.
    LookUp(i32),
    /// Send the first message of the queue to this group.
    Send(PackedChat),
    /// Store messages as sent.
    Record(Vec<MessageRow>),
    /// Hand the message over for download.
    Queue(MessageParsed<M, E>),
    /// Store where to read on.
    Save(CursorRow),
    /// All comments were copied, with so many sendings.
    Finish(i32),
    /// Give up.
    Fail,
}

/// The value of a `CommentAction`.
pub enum CommentActionView<M, E> {
    Find { chat: PackedChat, post_id: i32 },
    Fetch(GetReplies),
    Sleep(u64),
    LookUp(i32),
    Send(PackedChat),
    Record(Seq<MessageRow>),
    Queue(MessageParsedView<M, E>),
    Save(CursorRow),
    Finish(int),
    Fail,
}

impl<M, E> View for CommentCopy<M, E> {
    type V = CommentCopyView<M, E>;

    closed spec fn view(&self) -> CommentCopyView<M, E> {
        CommentCopyView {
            discussion: self.discussion,
            target: self.target,
            count: self.count as int,
            spins: self.spins as int,
            next: self.next,
            queue: crate::page::parsed_values(self.queue@),
            stage: self.stage,
        }
    }
}

impl<M, E> View for CommentAction<M, E> {
    type V = CommentActionView<M, E>;

    open spec fn view(&self) -> CommentActionView<M, E> {
        match self {
            CommentAction::Find { chat, post_id } => CommentActionView::Find {
                chat: *chat,
                post_id: *post_id,
            },
            CommentAction::Fetch(request) => CommentActionView::Fetch(*request),
            CommentAction::Sleep(seconds) => CommentActionView::Sleep(*seconds),
            CommentAction::LookUp(id) => CommentActionView::LookUp(*id),
            CommentAction::Send(chat) => CommentActionView::Send(*chat),
            CommentAction::Record(rows) => CommentActionView::Record(rows@),
            CommentAction::Queue(message) => CommentActionView::Queue(message@),
            CommentAction::Save(row) => CommentActionView::Save(*row),
            CommentAction::Finish(count) => CommentActionView::Finish(*count as int),
            CommentAction::Fail => CommentActionView::Fail,
        }
    }
}

impl<M, E> MessageParsedView<M, E> {
    /// What is stored when the message was sent: a row for every id. Anything
    /// but a text counts as downloaded.
    pub open spec fn rows(self, chat_id: i64) -> Seq<MessageRow> {
        self.id.map_values(
            |id: i32|
                MessageRow {
                    id,
                    chat_id,
                    downloaded: !(self.data is Text),
                    forwarded: self.forwarded,
                },
        )
    }
}

impl<M, E> MessageParsed<M, E> {
    /// What is stored when the message was sent.
    pub fn sent_rows(&self, chat_id: i64) -> (r: Vec<MessageRow>)
        ensures
            r@ == self@.rows(chat_id),
    {
        let downloaded: bool = match self.data {
            MessageType::Text(_) => false,
            _ => true,
        };
        let mut rows: Vec<MessageRow> = Vec::new();
        let mut i: usize = 0;
        while i < self.id.len()
            invariant
                i <= self.id.len(),
                downloaded == !(self@.data is Text),
                rows@ == self@.rows(chat_id).take(i as int),
            decreases self.id.len() - i,
        {
            rows.push(
                MessageRow { id: self.id[i], chat_id, downloaded, forwarded: self.forwarded },
            );
            i = i + 1;
            assert(rows@ =~= self@.rows(chat_id).take(i as int));
        }
        assert(self@.rows(chat_id).take(i as int) =~= self@.rows(chat_id));
        rows
    }
}

impl<M, E> CommentCopyView<M, E> {
    /// How copying starts, and what is done first.
    pub open spec fn opened(src: Discussion, dst_chat: PackedChat, post_id: i32) -> (
        CommentCopyView<M, E>,
        CommentActionView<M, E>,
    ) {
        (
            CommentCopyView {
                discussion: src,
                target: None,
                count: 0,
                spins: 0,
                next: Cursor { offset_id: src.request.offset_id, hash: src.request.hash },
                queue: Seq::empty(),
                stage: Stage::Find,
            },
            CommentActionView::Find { chat: dst_chat, post_id },
        )
    }

    /// The same, waiting for something else.
    pub open spec fn at(self, stage: Stage) -> CommentCopyView<M, E> {
        CommentCopyView { stage, ..self }
    }

    /// The same without the first message of the queue.
    pub open spec fn without_first(self) -> CommentCopyView<M, E> {
        CommentCopyView { queue: self.queue.skip(1), ..self }
    }

    /// What is to be sent now.
    pub open spec fn to_send(self) -> OutgoingView<M, E> {
        self.queue[0].data.outgoing(Some(self.target->0.post_id))
    }

    /// There is a message to work on just while one is worked on, a page that is
    /// done with has none left, and every message is ready to be sent. Nothing
    /// is done before it is known where the comments go.
    pub open spec fn well_formed(self) -> bool {
        &&& match self.stage {
            Stage::Find => self.queue.len() == 0 && self.spins == 0 && self.count == 0
                && self.target is None,
            Stage::Check | Stage::Send | Stage::Hold | Stage::Record | Stage::Abort =>
                self.queue.len() > 0,
            Stage::Fetch | Stage::Wait | Stage::Rest | Stage::Save => self.queue.len() == 0,
            Stage::Queue | Stage::Over => true,
        }
        &&& self.stage is Find || self.stage is Over || self.target is Some
        &&& forall|i: int| 0 <= i < self.queue.len() ==> (#[trigger] self.queue[i]).ready()
    }

    /// Whether this can come in now, in a form that copying can go on with. A
    /// page has to be readable, and the two counters must not overflow.
    pub open spec fn accepts(self, event: CommentEvent<M, E>) -> bool {
        match (self.stage, event) {
            (Stage::Find, CommentEvent::Found(_)) => true,
            (Stage::Find, CommentEvent::NotFound) => true,
            (Stage::Fetch, CommentEvent::Replies(page)) => page@.len() > 0
                ==> crate::page::readable(page@, self.target->0),
            (Stage::Fetch, CommentEvent::NotModified) => true,
            (Stage::Fetch, CommentEvent::FetchFailed(failure)) => crate::retry::flood_wait(
                failure,
            ) is Some || self.spins < i32::MAX,
            (Stage::Wait, CommentEvent::Slept) => self.spins < i32::MAX,
            (Stage::Check, CommentEvent::Known(_)) => true,
            (Stage::Send, CommentEvent::Sent) => true,
            (Stage::Send, CommentEvent::SendFailed(_)) => true,
            (Stage::Hold, CommentEvent::Slept) => true,
            (Stage::Record, CommentEvent::Recorded) => self.count < i32::MAX,
            (Stage::Queue, CommentEvent::Queued) => true,
            (Stage::Rest, CommentEvent::Slept) => true,
            (Stage::Save, CommentEvent::Saved) => self.spins < i32::MAX,
            (Stage::Abort, CommentEvent::Saved) => true,
            _ => false,
        }
    }

    /// The next message of the queue is looked up; after the last there is a
    /// rest.
    pub open spec fn proceeds(
        self,
        after: CommentCopyView<M, E>,
        action: CommentActionView<M, E>,
    ) -> bool {
        if self.queue.len() == 0 {
            &&& after == self.at(Stage::Rest)
            &&& action matches CommentActionView::Sleep(seconds) && crate::retry::is_rest(
                seconds,
                self.spins as i32,
            )
        } else {
            &&& after == self.at(Stage::Check)
            &&& action == CommentActionView::<M, E>::LookUp(self.queue[0].id[0])
        }
    }

    /// The next page is asked for.
    pub open spec fn fetches(
        self,
        after: CommentCopyView<M, E>,
        action: CommentActionView<M, E>,
    ) -> bool {
        &&& after == CommentCopyView { spins: self.spins + 1, stage: Stage::Fetch, ..self }
        &&& action == CommentActionView::<M, E>::Fetch(self.discussion.request)
    }

    /// The first message of the queue is sent to the group that the comments go
    /// to.
    pub open spec fn sends(
        self,
        after: CommentCopyView<M, E>,
        action: CommentActionView<M, E>,
    ) -> bool {
        &&& after == self.at(Stage::Send)
        &&& action == CommentActionView::<M, E>::Send(self.target->0.dst_chat)
    }

    /// What follows a failure to send the first message of the queue: after a
    /// flood wait it is sent again, what may not be copied is downloaded
    /// instead, and on anything else copying ends, to be taken up again at this
    /// message.
    pub open spec fn recovers(
        self,
        failure: Failure,
        after: CommentCopyView<M, E>,
        action: CommentActionView<M, E>,
    ) -> bool {
        match crate::retry::flood_wait(failure) {
            Some(seconds) => {
                &&& after == self.at(Stage::Hold)
                &&& action == CommentActionView::<M, E>::Sleep(seconds)
            },
            None => if crate::retry::forwards_restricted(failure) {
                &&& after == self.without_first().at(Stage::Queue)
                &&& action == CommentActionView::Queue(self.queue[0])
            } else {
                &&& after == self.at(Stage::Abort)
                &&& action == CommentActionView::<M, E>::Save(
                    CursorRow {
                        id: self.discussion.id,
                        offset_id: self.queue[0].id[0],
                        min_id: self.queue[0].id[0],
                        hash: 0,
                    },
                )
            },
        }
    }

    /// The place after the page is taken and stored.
    pub open spec fn moves_on(
        self,
        after: CommentCopyView<M, E>,
        action: CommentActionView<M, E>,
    ) -> bool {
        &&& after == CommentCopyView {
            discussion: Discussion {
                request: self.discussion.request.moved(self.next),
                ..self.discussion
            },
            stage: Stage::Save,
            ..self
        }
        &&& action == CommentActionView::<M, E>::Save(
            CursorRow {
                id: self.discussion.id,
                offset_id: self.next.offset_id,
                min_id: self.next.offset_id,
                hash: self.next.hash,
            },
        )
    }

    /// How copying goes on with what came in.
    pub open spec fn steps(
        self,
        event: CommentEvent<M, E>,
        after: CommentCopyView<M, E>,
        action: CommentActionView<M, E>,
    ) -> bool {
        match (self.stage, event) {
            (Stage::Find, CommentEvent::Found(dst)) => (CommentCopyView {
                target: Some(
                    Target {
                        src_chat_id: self.discussion.id,
                        post_id: dst.request.msg_id,
                        dst_chat: dst.chat,
                    },
                ),
                ..self
            }).fetches(after, action),
            (Stage::Find, CommentEvent::NotFound) => {
                &&& after == self.at(Stage::Over)
                &&& action == CommentActionView::<M, E>::Fail
            },
            (Stage::Fetch, CommentEvent::Replies(page)) => if page@.len() == 0 {
                &&& after == self.at(Stage::Over)
                &&& action == CommentActionView::<M, E>::Finish(self.count)
            } else {
                (CommentCopyView {
                    queue: crate::page::page_messages(page@, self.target->0),
                    next: crate::cursor::cursor_after(crate::page::ids_of(page@))->0,
                    ..self
                }).proceeds(after, action)
            },
            (Stage::Fetch, CommentEvent::NotModified) => {
                &&& after == self.at(Stage::Over)
                &&& action == CommentActionView::<M, E>::Finish(self.count)
            },
            (Stage::Fetch, CommentEvent::FetchFailed(failure)) => match crate::retry::flood_wait(
                failure,
            ) {
                Some(seconds) => {
                    &&& after == self.at(Stage::Wait)
                    &&& action == CommentActionView::<M, E>::Sleep(seconds)
                },
                None => self.fetches(after, action),
            },
            (Stage::Wait, CommentEvent::Slept) => self.fetches(after, action),
            (Stage::Check, CommentEvent::Known(known)) => if known {
                self.without_first().proceeds(after, action)
            } else {
                self.sends(after, action)
            },
            (Stage::Send, CommentEvent::Sent) => {
                &&& after == self.at(Stage::Record)
                &&& action == CommentActionView::<M, E>::Record(
                    self.queue[0].rows(self.discussion.chat.id),
                )
            },
            (Stage::Send, CommentEvent::SendFailed(failure)) => self.recovers(
                failure,
                after,
                action,
            ),
            (Stage::Hold, CommentEvent::Slept) => self.sends(after, action),
            (Stage::Record, CommentEvent::Recorded) => (CommentCopyView {
                count: self.count + 1,
                ..self.without_first()
            }).proceeds(after, action),
            (Stage::Queue, CommentEvent::Queued) => self.proceeds(after, action),
            (Stage::Rest, CommentEvent::Slept) => self.moves_on(after, action),
            (Stage::Save, CommentEvent::Saved) => self.fetches(after, action),
            (Stage::Abort, CommentEvent::Saved) => {
                &&& after == self.at(Stage::Over)
                &&& action == CommentActionView::<M, E>::Fail
            },
            _ => false,
        }
    }
}

impl<M, E> CommentCopy<M, E> {
    /// Starts to copy the comments of a discussion under a post of another
    /// channel, and says what to do first: find the discussion of that post.
    pub fn new(src: Discussion, dst_chat: PackedChat, post_id: i32) -> (r: (
        CommentCopy<M, E>,
        CommentAction<M, E>,
    ))
        ensures
            r.0@ == (CommentCopyView::<M, E> {
                discussion: src,
                target: None,
                count: 0,
                spins: 0,
                next: Cursor { offset_id: src.request.offset_id, hash: src.request.hash },
                queue: Seq::empty(),
                stage: Stage::Find,
            }),
            r.1@ == (CommentActionView::<M, E>::Find { chat: dst_chat, post_id }),
            r.0@.well_formed(),
            (r.0@, r.1@) == CommentCopyView::<M, E>::opened(src, dst_chat, post_id),
    {
        let queue: Vec<MessageParsed<M, E>> = Vec::new();
        assert(crate::page::parsed_values(queue@) =~= Seq::empty());
        let copy = CommentCopy {
            discussion: src,
            target: None,
            count: 0,
            spins: 0,
            next: Cursor { offset_id: src.request.offset_id, hash: src.request.hash },
            queue,
            stage: Stage::Find,
        };
        (copy, CommentAction::Find { chat: dst_chat, post_id })
    }

    /// What is waited for.
    pub fn stage(&self) -> (r: Stage)
        ensures
            r == self@.stage,
    {
        self.stage
    }

    /// Whether this can come in now: see `CommentCopyView::accepts`.
    pub fn can_accept(&self, event: &CommentEvent<M, E>) -> (r: bool)
        ensures
            r == self@.accepts(*event),
    {
        match (self.stage, event) {
            (Stage::Find, CommentEvent::Found(_)) => true,
            (Stage::Find, CommentEvent::NotFound) => true,
            (Stage::Fetch, CommentEvent::Replies(page)) => page.len() == 0 || is_readable(page),
            (Stage::Fetch, CommentEvent::NotModified) => true,
            (Stage::Fetch, CommentEvent::FetchFailed(failure)) => failure.flood_wait().is_some()
                || self.spins < i32::MAX,
            (Stage::Wait, CommentEvent::Slept) => self.spins < i32::MAX,
            (Stage::Check, CommentEvent::Known(_)) => true,
            (Stage::Send, CommentEvent::Sent) => true,
            (Stage::Send, CommentEvent::SendFailed(_)) => true,
            (Stage::Hold, CommentEvent::Slept) => true,
            (Stage::Record, CommentEvent::Recorded) => self.count < i32::MAX,
            (Stage::Queue, CommentEvent::Queued) => true,
            (Stage::Rest, CommentEvent::Slept) => true,
            (Stage::Save, CommentEvent::Saved) => self.spins < i32::MAX,
            (Stage::Abort, CommentEvent::Saved) => true,
            _ => false,
        }
    }

    /// What is to be sent now: the first message of the queue, as a comment
    /// under the post.
    pub fn outgoing(&self) -> (r: Outgoing<'_, M, E>)
        requires
            self@.well_formed(),
            self@.stage is Send,
        ensures
            r@ == self@.queue[0].data.outgoing(Some(self@.target->0.post_id)),
            r@ == self@.to_send(),
    {
        let target: Target = self.target.unwrap();
        self.queue[0].data.send_message(Some(target.post_id))
    }

    fn send(&mut self) -> (r: CommentAction<M, E>)
        requires
            old(self)@.well_formed(),
            old(self)@.stage is Check || old(self)@.stage is Hold,
        ensures
            old(self)@.sends(final(self)@, r@),
            final(self)@.well_formed(),
    {
        let target: Target = self.target.unwrap();
        self.stage = Stage::Send;
        CommentAction::Send(target.dst_chat)
    }

    fn proceed(&mut self) -> (r: CommentAction<M, E>)
        requires
            old(self)@.target is Some,
            forall|i: int|
                0 <= i < old(self)@.queue.len() ==> (#[trigger] old(self)@.queue[i]).ready(),
        ensures
            old(self)@.proceeds(final(self)@, r@),
            final(self)@.well_formed(),
    {
        if self.queue.len() == 0 {
            self.stage = Stage::Rest;
            CommentAction::Sleep(rest_seconds(self.spins))
        } else {
            assert(old(self)@.queue[0].ready());
            self.stage = Stage::Check;
            CommentAction::LookUp(self.queue[0].id[0])
        }
    }

    fn fetch(&mut self) -> (r: CommentAction<M, E>)
        requires
            old(self)@.target is Some,
            old(self)@.queue.len() == 0,
            old(self)@.spins < i32::MAX,
        ensures
            old(self)@.fetches(final(self)@, r@),
            final(self)@.well_formed(),
    {
        self.spins = self.spins + 1;
        self.stage = Stage::Fetch;
        CommentAction::Fetch(self.discussion.request)
    }

    fn take_first(&mut self) -> (r: MessageParsed<M, E>)
        requires
            old(self)@.queue.len() > 0,
            forall|i: int|
                0 <= i < old(self)@.queue.len() ==> (#[trigger] old(self)@.queue[i]).ready(),
        ensures
            r@ == old(self)@.queue[0],
            final(self)@ == old(self)@.without_first(),
            forall|i: int|
                0 <= i < final(self)@.queue.len() ==> (
                #[trigger] final(self)@.queue[i]).ready(),
    {
        let ghost before = self@.queue;
        let first = self.queue.remove(0);
        assert(self@.queue =~= before.skip(1));
        first
    }

    fn read_page(&mut self, page: Vec<Incoming<M, E>>)
        requires
            old(self)@.target is Some,
            crate::page::readable(page@, old(self)@.target->0),
        ensures
            final(self)@ == (CommentCopyView {
                queue: crate::page::page_messages(page@, old(self)@.target->0),
                next: crate::cursor::cursor_after(crate::page::ids_of(page@))->0,
                ..old(self)@
            }),
            forall|i: int|
                0 <= i < final(self)@.queue.len() ==> (
                #[trigger] final(self)@.queue[i]).ready(),
    {
        let target: Target = self.target.unwrap();
        proof {
            law_page_well_formed(page@, target);
        }
        if let Some(cursor) = page_cursor(&page_ids(&page)) {
            self.next = cursor;
        }
        self.queue = group_messages(read_comments(page, &target));
    }

    fn recover(&mut self, failure: &Failure) -> (r: CommentAction<M, E>)
        requires
            old(self)@.stage is Send,
            old(self)@.well_formed(),
        ensures
            old(self)@.recovers(*failure, final(self)@, r@),
            final(self)@.well_formed(),
    {
        if let Some(seconds) = failure.flood_wait() {
            self.stage = Stage::Hold;
            return CommentAction::Sleep(seconds);
        }
        if failure.forwards_restricted() {
            let first = self.take_first();
            self.stage = Stage::Queue;
            CommentAction::Queue(first)
        } else {
            self.stage = Stage::Abort;
            assert(self@.queue[0].ready());
            let first_id: i32 = self.queue[0].id[0];
            CommentAction::Save(
                CursorRow {
                    id: self.discussion.id,
                    offset_id: first_id,
                    min_id: first_id,
                    hash: 0,
                },
            )
        }
    }
}

impl<M, E> Message<M, E> {
    /// Goes on copying comments with what came in, and says what to do next.
    pub fn process_new_messages(copy: &mut CommentCopy<M, E>, event: CommentEvent<M, E>) -> (r:
        CommentAction<M, E>)
        requires
            old(copy)@.well_formed(),
            old(copy)@.accepts(event),
        ensures
            old(copy)@.steps(event, final(copy)@, r@),
            final(copy)@.well_formed(),
    {
        match (copy.stage, event) {
            (Stage::Find, CommentEvent::Found(dst)) => {
                copy.target = Some(
                    Target {
                        src_chat_id: copy.discussion.id,
                        post_id: dst.request.msg_id,
                        dst_chat: dst.chat,
                    },
                );
                copy.fetch()
            },
            (Stage::Find, CommentEvent::NotFound) => {
                copy.stage = Stage::Over;
                CommentAction::Fail
            },
            (Stage::Fetch, CommentEvent::Replies(page)) => {
                if page.len() == 0 {
                    copy.stage = Stage::Over;
                    CommentAction::Finish(copy.count)
                } else {
                    copy.read_page(page);
                    copy.proceed()
                }
            },
            (Stage::Fetch, CommentEvent::NotModified) => {
                copy.stage = Stage::Over;
                CommentAction::Finish(copy.count)
            },
            (Stage::Fetch, CommentEvent::FetchFailed(failure)) => match failure.flood_wait() {
                Some(seconds) => {
                    copy.stage = Stage::Wait;
                    CommentAction::Sleep(seconds)
                },
                None => copy.fetch(),
            },
            (Stage::Wait, CommentEvent::Slept) => copy.fetch(),
            (Stage::Check, CommentEvent::Known(known)) => {
                if known {
                    copy.take_first();
                    copy.proceed()
                } else {
                    copy.send()
                }
            },
            (Stage::Send, CommentEvent::Sent) => {
                copy.stage = Stage::Record;
                CommentAction::Record(copy.queue[0].sent_rows(copy.discussion.chat.id))
            },
            (Stage::Send, CommentEvent::SendFailed(failure)) => copy.recover(&failure),
            (Stage::Hold, CommentEvent::Slept) => copy.send(),
            (Stage::Record, CommentEvent::Recorded) => {
                copy.take_first();
                copy.count = copy.count + 1;
                copy.proceed()
            },
            (Stage::Queue, CommentEvent::Queued) => copy.proceed(),
            (Stage::Rest, CommentEvent::Slept) => {
                let next: Cursor = copy.next;
                let row = copy.discussion.advance(next);
                copy.stage = Stage::Save;
                CommentAction::Save(row)
            },
            (Stage::Save, CommentEvent::Saved) => copy.fetch(),
            (Stage::Abort, CommentEvent::Saved) => {
                copy.stage = Stage::Over;
                CommentAction::Fail
            },
            _ => CommentAction::Fail,
        }
    }
}

/// Copying stays well formed, whatever comes in.
pub proof fn law_copying_stays_well_formed<M, E>(
    before: CommentCopyView<M, E>,
    event: CommentEvent<M, E>,
    after: CommentCopyView<M, E>,
    action: CommentActionView<M, E>,
)
    requires
        before.well_formed(),
        before.accepts(event),
        before.steps(event, after, action),
    ensures
        after.well_formed(),
{
    if let CommentEvent::Replies(page) = event {
        if page@.len() > 0 {
            law_page_well_formed(page@, before.target->0);
        }
    }
}

/// What is stored as forwarded is not sent: it leaves the queue unsent. Something
/// is sent only when it was found not to be stored so, or again after a flood
/// wait.
pub proof fn law_forwarded_is_not_sent<M, E>(
    before: CommentCopyView<M, E>,
    event: CommentEvent<M, E>,
    after: CommentCopyView<M, E>,
    action: CommentActionView<M, E>,
)
    requires
        before.well_formed(),
        before.accepts(event),
        before.steps(event, after, action),
    ensures
        event == CommentEvent::<M, E>::Known(true) ==> !(action is Send) && after.queue
            == before.queue.skip(1) && after.count == before.count,
        action is Send ==> after.queue == before.queue && (event == CommentEvent::<M, E>::Known(
            false,
        ) || before.stage is Hold),
{
}

/// Where the comments go does not change once it is found, every message is sent
/// there, and what is handed over for download comes without files.
pub proof fn law_comments_go_to_one_group<M, E>(
    before: CommentCopyView<M, E>,
    event: CommentEvent<M, E>,
    after: CommentCopyView<M, E>,
    action: CommentActionView<M, E>,
)
    requires
        before.well_formed(),
        before.accepts(event),
        before.steps(event, after, action),
    ensures
        before.target is Some ==> after.target == before.target,
        action is Send ==> before.target is Some && action->Send_0 == before.target->0.dst_chat,
        action is Queue ==> action->Queue_0.ready(),
{
}

/// The place to read on from moves only when nothing of the page is left, and
/// then to the place after the page.
pub proof fn law_place_moves_after_the_page<M, E>(
    before: CommentCopyView<M, E>,
    event: CommentEvent<M, E>,
    after: CommentCopyView<M, E>,
    action: CommentActionView<M, E>,
)
    requires
        before.well_formed(),
        before.accepts(event),
        before.steps(event, after, action),
        after.discussion != before.discussion,
    ensures
        before.stage is Rest,
        before.queue.len() == 0,
        after.discussion.request == before.discussion.request.moved(before.next),
        action == CommentActionView::<M, E>::Save(
            CursorRow {
                id: before.discussion.id,
                offset_id: after.discussion.request.offset_id,
                min_id: after.discussion.request.min_id,
                hash: after.discussion.request.hash,
            },
        ),
{
}

/// One step of copying.
pub struct CommentStep<M, E> {
    pub before: CommentCopyView<M, E>,
    pub event: CommentEvent<M, E>,
    pub after: CommentCopyView<M, E>,
    pub action: CommentActionView<M, E>,
}

impl<M, E> CommentStep<M, E> {
    /// Whether copying takes this step.
    pub open spec fn valid(self) -> bool {
        &&& self.before.well_formed()
        &&& self.before.accepts(self.event)
        &&& self.before.steps(self.event, self.after, self.action)
    }

    /// Whether the first message of the queue is done with in this step: it is
    /// stored as forwarded, it was sent, or it is handed over for download.
    pub open spec fn finishes_message(self) -> bool {
        match self.event {
            CommentEvent::Known(known) => known,
            CommentEvent::Recorded => true,
            CommentEvent::SendFailed(_) => self.action is Queue,
            _ => false,
        }
    }
}

/// Steps that follow one another.
pub open spec fn is_run<M, E>(run: Seq<CommentStep<M, E>>) -> bool {
    &&& forall|i: int| 0 <= i < run.len() ==> (#[trigger] run[i]).valid()
    &&& forall|i: int, j: int|
        0 <= i && j == i + 1 && j < run.len() ==> (#[trigger] run[i]).after == (
        #[trigger] run[j]).before
}

proof fn lemma_run_prefix<M, E>(run: Seq<CommentStep<M, E>>)
    requires
        is_run(run),
        run.len() > 1,
    ensures
        is_run(run.drop_last()),
        run.drop_last()[0] == run[0],
        run.drop_last().last().after == run.last().before,
        run.last().valid(),
        forall|i: int| 0 <= i < run.len() - 1 ==> #[trigger] run.drop_last()[i] == run[i],
{
    let earlier = run.drop_last();
    assert forall|i: int| 0 <= i < earlier.len() implies (#[trigger] earlier[i]).valid() by {
        assert(earlier[i] == run[i]);
    }
    assert forall|i: int, j: int|
        0 <= i && j == i + 1 && j < earlier.len() implies (#[trigger] earlier[i]).after == (
    #[trigger] earlier[j]).before by {
        assert(earlier[i] == run[i] && earlier[j] == run[j]);
    }
    assert(run[run.len() - 2].after == run[run.len() - 1].before);
}

/// Copying starts with the search for the discussion that the comments go to. A
/// search that fails ends it with that failure: nothing was fetched, sent, stored
/// or handed over before, and nothing is afterwards.
pub proof fn law_nothing_without_a_target<M, E>(run: Seq<CommentStep<M, E>>)
    requires
        is_run(run),
        run.len() > 0,
        run[0].before.stage is Find,
    ensures
        run[0].event is Found || run[0].event is NotFound,
        run[0].event is Found <==> run[0].action is Fetch,
        run[0].event is NotFound <==> run[0].action is Fail,
        run[0].event is NotFound ==> run.len() == 1,
{
    assert(run[0].valid());
    if run[0].event is NotFound && run.len() > 1 {
        assert(run[1].valid());
        assert(run[0].after == run[1].before);
    }
}

/// A failure ends copying: nothing can come in after it.
pub proof fn law_failure_ends_copying<M, E>(step: CommentStep<M, E>, later: CommentEvent<M, E>)
    requires
        step.valid(),
        step.action is Fail || step.action is Finish,
    ensures
        step.after.stage is Over,
        !step.after.accepts(later),
{
}

/// How many messages are done with in a run.
pub open spec fn messages_finished<M, E>(run: Seq<CommentStep<M, E>>) -> nat
    decreases run.len(),
{
    if run.len() == 0 {
        0
    } else {
        messages_finished(run.drop_last()) + (if run.last().finishes_message() {
            1nat
        } else {
            0
        })
    }
}

/// How many messages are stored as sent in a run.
pub open spec fn messages_sent<M, E>(run: Seq<CommentStep<M, E>>) -> nat
    decreases run.len(),
{
    if run.len() == 0 {
        0
    } else {
        messages_sent(run.drop_last()) + (if run.last().event is Recorded {
            1nat
        } else {
            0
        })
    }
}

proof fn lemma_step_queue<M, E>(step: CommentStep<M, E>)
    requires
        step.valid(),
        !(step.event is Replies),
    ensures
        step.finishes_message() ==> step.before.queue.len() > 0 && step.after.queue
            == step.before.queue.skip(1),
        !step.finishes_message() ==> step.after.queue == step.before.queue,
        step.after.count == step.before.count + (if step.event is Recorded {
            1int
        } else {
            0
        }),
{
}

/// Between two pages the messages of the queue are dealt with one after the
/// other, each once, and the count grows by one for each that was sent. When it
/// comes to the rest, all of them have been dealt with.
pub proof fn law_each_message_once<M, E>(run: Seq<CommentStep<M, E>>)
    requires
        is_run(run),
        run.len() > 0,
        forall|i: int| 0 <= i < run.len() ==> !((#[trigger] run[i]).event is Replies),
    ensures
        messages_finished(run) <= run[0].before.queue.len(),
        run.last().after.queue == run[0].before.queue.skip(messages_finished(run) as int),
        run.last().after.count == run[0].before.count + messages_sent(run),
        run.last().after.stage is Rest ==> messages_finished(run) == run[0].before.queue.len(),
    decreases run.len(),
{
    let n = run.len() - 1;
    let last = run[n];
    assert(last.valid());
    law_copying_stays_well_formed(last.before, last.event, last.after, last.action);
    lemma_step_queue(last);
    let start = run[0].before.queue;
    if n == 0 {
        assert(messages_finished(run.drop_last()) == 0);
        assert(messages_sent(run.drop_last()) == 0);
        assert(start.skip(0) =~= start);
    } else {
        let earlier = run.drop_last();
        lemma_run_prefix(run);
        law_each_message_once(earlier);
        let done = messages_finished(earlier) as int;
        assert(last.before.queue == start.skip(done));
        if last.finishes_message() {
            assert(last.before.queue.len() > 0);
            assert(start.skip(done).skip(1) =~= start.skip(done + 1));
        }
    }
}

/// Over any number of pages, from the search for the target on, the count is the
/// number of messages that were stored as sent, and copying ends with it.
pub proof fn law_count_is_messages_sent<M, E>(run: Seq<CommentStep<M, E>>)
    requires
        is_run(run),
        run.len() > 0,
        run[0].before.stage is Find,
    ensures
        run.last().after.count == messages_sent(run),
        run.last().action is Finish ==> run.last().action == CommentActionView::<M, E>::Finish(
            messages_sent(run) as int,
        ),
    decreases run.len(),
{
    assert(run[0].valid());
    if run.len() == 1 {
        assert(messages_sent(run.drop_last()) == 0);
    } else {
        lemma_run_prefix(run);
        law_count_is_messages_sent(run.drop_last());
    }
}

/// A page from the moment it comes in: its messages are dealt with in order, each
/// once. Until all of them have been, the discussion is read on from where it
/// was; then it moves to the place that the ids of the page give, and that place
/// is stored.
pub proof fn law_page_of_comments<M, E>(run: Seq<CommentStep<M, E>>, page: Vec<Incoming<M, E>>)
    requires
        is_run(run),
        run.len() > 0,
        run[0].event == CommentEvent::<M, E>::Replies(page),
        page@.len() > 0,
        forall|i: int| 0 < i < run.len() ==> !((#[trigger] run[i]).event is Replies),
    ensures
        ({
            let start = run[0].before;
            let end = run.last().after;
            let messages = crate::page::page_messages(page@, start.target->0);
            let next = crate::cursor::cursor_after(crate::page::ids_of(page@))->0;
            let moved = Discussion {
                request: start.discussion.request.moved(next),
                ..start.discussion
            };
            &&& end.next == next
            &&& messages_finished(run) <= messages.len()
            &&& end.queue == messages.skip(messages_finished(run) as int)
            &&& end.queue.len() > 0 || end.stage is Rest || end.stage is Queue ==> end.discussion
                == start.discussion
            &&& end.stage is Rest || end.stage is Save ==> messages_finished(run) == messages.len()
            &&& end.stage is Save || end.stage is Fetch || end.stage is Wait ==> end.discussion
                == moved
            &&& end.stage is Save ==> run.last().action == CommentActionView::<M, E>::Save(
                CursorRow {
                    id: start.discussion.id,
                    offset_id: next.offset_id,
                    min_id: next.offset_id,
                    hash: next.hash,
                },
            )
        }),
    decreases run.len(),
{
    let last = run.last();
    assert(run[0].valid());
    let messages = crate::page::page_messages(page@, run[0].before.target->0);
    if run.len() == 1 {
        assert(messages_finished(run.drop_last()) == 0);
        assert(messages.skip(0) =~= messages);
        law_copying_stays_well_formed(last.before, last.event, last.after, last.action);
    } else {
        let earlier = run.drop_last();
        lemma_run_prefix(run);
        law_page_of_comments(earlier, page);
        assert(run[run.len() - 1] == last);
        lemma_step_queue(last);
        law_copying_stays_well_formed(last.before, last.event, last.after, last.action);
        let done = messages_finished(earlier) as int;
        if last.finishes_message() {
            assert(messages.skip(done).skip(1) =~= messages.skip(done + 1));
        }
    }
}

/// Whether no message is being dealt with but one that is looked up.
pub open spec fn quiet(stage: Stage) -> bool {
    match stage {
        Stage::Find | Stage::Fetch | Stage::Wait | Stage::Check | Stage::Rest | Stage::Save
        | Stage::Over => true,
        Stage::Send | Stage::Hold | Stage::Record | Stage::Queue | Stage::Abort => false,
    }
}

/// Going over comments that are all stored as forwarded sends nothing, however
/// many pages they fill, and stores none of them as sent.
pub proof fn law_forwarded_comments_send_nothing<M, E>(run: Seq<CommentStep<M, E>>)
    requires
        is_run(run),
        run.len() > 0,
        quiet(run[0].before.stage),
        forall|i: int|
            0 <= i < run.len() ==> (#[trigger] run[i]).event != CommentEvent::<M, E>::Known(false),
    ensures
        forall|i: int|
            0 <= i < run.len() ==> !((#[trigger] run[i]).action is Send || run[i].action is Record),
        quiet(run.last().after.stage),
        run.last().after.count == run[0].before.count,
    decreases run.len(),
{
    let n = run.len() - 1;
    let last = run[n];
    assert(last.valid());
    if n > 0 {
        let earlier = run.drop_last();
        lemma_run_prefix(run);
        law_forwarded_comments_send_nothing(earlier);
        assert forall|i: int| 0 <= i < run.len() implies !((#[trigger] run[i]).action is Send
            || run[i].action is Record) by {
            if i < n {
                assert(earlier[i] == run[i]);
            }
        }
    }
}

/// A message is stored as sent only once it was sent, by a row for each of its ids;
/// and what is not stored as forwarded is sent, whatever it holds.
pub proof fn law_storing_follows_sending<M, E>(step: CommentStep<M, E>)
    requires
        step.valid(),
    ensures
        step.action is Record <==> step.before.stage is Send && step.event is Sent,
        step.event == CommentEvent::<M, E>::Known(false) ==> step.action == CommentActionView::<
            M,
            E,
        >::Send(step.before.target->0.dst_chat) && step.after.queue == step.before.queue
            && step.after.stage is Send,
        step.action matches CommentActionView::Record(rows) ==> rows.len()
            == step.before.queue[0].id.len() && step.after.queue == step.before.queue
            && step.after.stage is Record && forall|i: int|
            0 <= i < rows.len() ==> (#[trigger] rows[i]).id == step.before.queue[0].id[i]
                && rows[i].chat_id == step.before.discussion.chat.id && (rows[i].downloaded <==> !(
            step.before.queue[0].data is Text)) && rows[i].forwarded
                == step.before.queue[0].forwarded,
        step.event is Recorded ==> step.before.stage is Record && step.after.queue
            == step.before.queue.skip(1),
{
}

/// How often sending succeeded in a run.
pub open spec fn sendings<M, E>(run: Seq<CommentStep<M, E>>) -> nat
    decreases run.len(),
{
    if run.len() == 0 {
        0
    } else {
        sendings(run.drop_last()) + (if run.last().event is Sent {
            1nat
        } else {
            0
        })
    }
}

/// Over a whole run, every message that was stored as sent was sent before, and
/// every message that was sent is stored, but for one that is being stored.
pub proof fn law_stored_as_often_as_sent<M, E>(run: Seq<CommentStep<M, E>>)
    requires
        is_run(run),
        run.len() > 0,
        run[0].before.stage is Find,
    ensures
        messages_sent(run) <= sendings(run),
        sendings(run) == messages_sent(run) + (if run.last().after.stage is Record {
            1int
        } else {
            0
        }),
    decreases run.len(),
{
    assert(run[0].valid());
    if run.len() == 1 {
        assert(messages_sent(run.drop_last()) == 0);
        assert(sendings(run.drop_last()) == 0);
    } else {
        lemma_run_prefix(run);
        law_stored_as_often_as_sent(run.drop_last());
    }
}

/// What each event can change: the target is set when it is found, the count grows
/// by one for each message that is stored as sent, the pages are counted as they
/// are asked for, the place after a page is taken from the page, and the place to
/// read on from moves at the end of a rest. Nothing else changes any of these.
pub proof fn law_what_changes<M, E>(step: CommentStep<M, E>)
    requires
        step.valid(),
    ensures
        !(step.event is Found) ==> step.after.target == step.before.target,
        step.event matches CommentEvent::Found(dst) ==> (step.after.target matches Some(target)
            && target.src_chat_id == step.before.discussion.id && target.post_id
            == dst.request.msg_id && target.dst_chat == dst.chat),
        step.after.count == step.before.count + (if step.event is Recorded {
            1int
        } else {
            0
        }),
        step.after.spins == step.before.spins + (if step.action is Fetch {
            1int
        } else {
            0
        }),
        !(step.event is Replies) ==> step.after.next == step.before.next,
        step.event matches CommentEvent::Replies(page) ==> page@.len() > 0
            ==> crate::cursor::cursor_after(crate::page::ids_of(page@)) == Some(step.after.next),
        !(step.before.stage is Rest) ==> step.after.discussion == step.before.discussion,
        step.after.discussion.id == step.before.discussion.id,
        step.after.discussion.chat == step.before.discussion.chat,
        step.before.stage is Rest ==> step.after.discussion.request.offset_id
            == step.before.next.offset_id && step.after.discussion.request.min_id
            == step.before.next.offset_id && step.after.discussion.request.hash
            == step.before.next.hash && step.after.discussion.request.msg_id
            == step.before.discussion.request.msg_id && step.after.discussion.request.peer
            == step.before.discussion.request.peer,
{
    if step.before.stage is Rest {
        crate::discussion::law_moving_a_discussion_takes_the_place(
            step.before.discussion.request,
            step.before.next,
            step.before.next,
        );
    }
}

/// How the queue changes: a page fills it with what is sent for the page, and a
/// message leaves it, from the front, when it is found to be stored as forwarded, is
/// stored as sent, or is handed over because it may not be forwarded. Nothing else
/// changes it.
pub proof fn law_how_the_queue_changes<M, E>(step: CommentStep<M, E>)
    requires
        step.valid(),
    ensures
        step.event matches CommentEvent::Replies(page) ==> page@.len() > 0 ==> step.after.queue
            == crate::page::page_messages(page@, step.before.target->0),
        step.event matches CommentEvent::Replies(page) ==> page@.len() == 0 ==> step.after.queue
            == step.before.queue && step.after.next == step.before.next,
        step.event == CommentEvent::<M, E>::Known(true) || step.event is Recorded ==> step.after.queue
            == step.before.queue.skip(1),
        step.event matches CommentEvent::SendFailed(failure) ==> crate::retry::flood_wait(failure)
            is None && crate::retry::forwards_restricted(failure) ==> step.after.queue
            == step.before.queue.skip(1) && step.action == CommentActionView::Queue(
            step.before.queue[0],
        ),
        step.event matches CommentEvent::SendFailed(failure) ==> crate::retry::flood_wait(failure)
            is Some || !crate::retry::forwards_restricted(failure) ==> step.after.queue
            == step.before.queue && !(step.action is Queue),
        !(step.event is SendFailed) ==> !(step.action is Queue),
        !(step.event is Replies || step.event is Known || step.event is Recorded || step.event
            is SendFailed) ==> step.after.queue == step.before.queue,
{
}

/// What is done fits what is waited for next, and carries what it is about.
pub proof fn law_actions_fit_stages<M, E>(step: CommentStep<M, E>)
    requires
        step.valid(),
    ensures
        !(step.action is Find),
        step.action is Fetch <==> step.after.stage is Fetch,
        step.action is LookUp <==> step.after.stage is Check,
        step.action is Send <==> step.after.stage is Send,
        step.action is Record <==> step.after.stage is Record,
        step.action is Queue <==> step.after.stage is Queue,
        step.action is Sleep <==> step.after.stage is Wait || step.after.stage is Hold
            || step.after.stage is Rest,
        step.action is Save <==> step.after.stage is Save || step.after.stage is Abort,
        step.action is Finish || step.action is Fail <==> step.after.stage is Over,
        step.action matches CommentActionView::Fetch(request) ==> request
            == step.after.discussion.request,
        step.action matches CommentActionView::LookUp(id) ==> step.after.queue.len() > 0 && id
            == step.after.queue[0].id[0],
        step.action matches CommentActionView::Send(chat) ==> step.after.queue.len() > 0 && chat
            == step.before.target->0.dst_chat,
        step.action matches CommentActionView::Finish(count) ==> count == step.before.count,
{
    law_copying_stays_well_formed(step.before, step.event, step.after, step.action);
}

/// After a message is done with, or a page came in, the next message is looked up;
/// where none is left there is a rest: one to three minutes, and sixteen to twenty
/// after every tenth request.
pub proof fn law_next_message_or_rest<M, E>(step: CommentStep<M, E>)
    requires
        step.valid(),
        step.event is Recorded || step.event is Queued || step.event == CommentEvent::<
            M,
            E,
        >::Known(true) || (step.event is Replies && step.event->Replies_0@.len() > 0),
    ensures
        step.after.queue.len() > 0 ==> step.after.stage is Check && step.action
            == CommentActionView::<M, E>::LookUp(step.after.queue[0].id[0]),
        step.after.queue.len() == 0 ==> step.after.stage is Rest && step.action is Sleep,
        step.after.queue.len() == 0 && 0 < step.before.spins <= i32::MAX && step.before.spins % 10
            == 0 ==> 1000 <= step.action->Sleep_0 <= 1200,
        step.after.queue.len() == 0 && 0 < step.before.spins <= i32::MAX && step.before.spins % 10
            != 0 ==> 60 <= step.action->Sleep_0 <= 180,
{
}

/// How a search, an answer and a sleep are followed: a target is followed by the
/// first page, an empty page or the news that nothing is new by the end, a failed
/// request by the same request, after a flood wait where the server asks for one.
/// After a flood wait the page is asked for or the message is sent again, and after
/// a rest the place after the page is stored.
pub proof fn law_reading_goes_on<M, E>(step: CommentStep<M, E>)
    requires
        step.valid(),
    ensures
        step.event is Found ==> step.after.stage is Fetch,
        step.event is NotFound ==> step.action is Fail,
        step.event is NotModified ==> step.action is Finish,
        step.event matches CommentEvent::Replies(page) ==> page@.len() == 0 ==> step.action
            is Finish,
        step.event matches CommentEvent::FetchFailed(failure) ==> (crate::retry::flood_wait(
            failure,
        ) matches Some(seconds) ==> step.after.stage is Wait && step.action
            == CommentActionView::<M, E>::Sleep(seconds)),
        step.event matches CommentEvent::FetchFailed(failure) ==> crate::retry::flood_wait(failure)
            is None ==> step.after.stage is Fetch,
        step.event is Slept && step.before.stage is Wait ==> step.after.stage is Fetch,
        step.event is Slept && step.before.stage is Hold ==> step.after.stage is Send,
        step.event is Slept && step.before.stage is Rest ==> step.after.stage is Save && (
        step.action matches CommentActionView::Save(row) && row.id == step.before.discussion.id
            && row.offset_id == step.before.next.offset_id && row.min_id
            == step.before.next.offset_id && row.hash == step.before.next.hash),
        step.event is Saved && step.before.stage is Save ==> step.after.stage is Fetch,
        step.event is Saved && step.before.stage is Abort ==> step.action is Fail,
{
}

/// What follows a failure to send: a flood wait is slept through, what may not be
/// forwarded is handed over, and on anything else the place of the message is stored
/// without a hash, so that copying can be taken up again at it.
pub proof fn law_failed_sending<M, E>(step: CommentStep<M, E>, failure: Failure)
    requires
        step.valid(),
        step.event == CommentEvent::<M, E>::SendFailed(failure),
    ensures
        crate::retry::flood_wait(failure) matches Some(seconds) ==> step.after.stage is Hold
            && step.action == CommentActionView::<M, E>::Sleep(seconds),
        crate::retry::forwards_restricted(failure) ==> step.after.stage is Queue && step.action
            == CommentActionView::Queue(step.before.queue[0]),
        crate::retry::flood_wait(failure) is None && !crate::retry::forwards_restricted(failure)
            ==> step.after.stage is Abort && (step.action matches CommentActionView::Save(row)
            && row.id == step.before.discussion.id && row.offset_id == step.before.queue[0].id[0]
            && row.min_id == step.before.queue[0].id[0] && row.hash == 0),
{
    crate::retry::law_refusals_differ(failure);
}

/// What can come in depends on what is waited for. Beyond that, a page has to be one
/// that can be read, and the two counters must not overflow.
pub proof fn law_what_copying_waits_for<M, E>(
    copy: CommentCopyView<M, E>,
    event: CommentEvent<M, E>,
)
    ensures
        event is Found || event is NotFound ==> (copy.accepts(event) <==> copy.stage is Find),
        event matches CommentEvent::Replies(page) ==> (copy.accepts(event) <==> copy.stage is Fetch
            && (page@.len() == 0 || crate::page::readable(page@, copy.target->0))),
        event is NotModified ==> (copy.accepts(event) <==> copy.stage is Fetch),
        event matches CommentEvent::FetchFailed(failure) ==> (copy.accepts(event) <==> copy.stage
            is Fetch && (crate::retry::flood_wait(failure) is Some || copy.spins < i32::MAX)),
        event is Slept ==> (copy.accepts(event) <==> copy.stage is Hold || copy.stage is Rest || (
        copy.stage is Wait && copy.spins < i32::MAX)),
        event is Known ==> (copy.accepts(event) <==> copy.stage is Check),
        event is Sent || event is SendFailed ==> (copy.accepts(event) <==> copy.stage is Send),
        event is Recorded ==> (copy.accepts(event) <==> copy.stage is Record && copy.count
            < i32::MAX),
        event is Queued ==> (copy.accepts(event) <==> copy.stage is Queue),
        event is Saved ==> (copy.accepts(event) <==> copy.stage is Abort || (copy.stage is Save
            && copy.spins < i32::MAX)),
{
}

/// The value of an action is what it carries, as it is.
pub proof fn law_value_of_comment_action<M, E>(action: CommentAction<M, E>)
    ensures
        action matches CommentAction::Find { chat, post_id } ==> action@ == (CommentActionView::<
            M,
            E,
        >::Find { chat, post_id }),
        action matches CommentAction::Fetch(request) ==> action@ == CommentActionView::<
            M,
            E,
        >::Fetch(request),
        action matches CommentAction::Sleep(seconds) ==> action@ == CommentActionView::<
            M,
            E,
        >::Sleep(seconds),
        action matches CommentAction::LookUp(id) ==> action@ == CommentActionView::<M, E>::LookUp(
            id,
        ),
        action matches CommentAction::Send(chat) ==> action@ == CommentActionView::<M, E>::Send(
            chat,
        ),
        action matches CommentAction::Record(rows) ==> action@ == CommentActionView::<
            M,
            E,
        >::Record(rows@),
        action matches CommentAction::Queue(message) ==> action@ == CommentActionView::<
            M,
            E,
        >::Queue(message@),
        action matches CommentAction::Save(row) ==> action@ == CommentActionView::<M, E>::Save(row),
        action matches CommentAction::Finish(count) ==> action@ == CommentActionView::<
            M,
            E,
        >::Finish(count as int),
        action is Fail ==> action@ == CommentActionView::<M, E>::Fail,
{
}

/// Copying starts with the search for the discussion of the post that the comments
/// go under, and with nothing counted, asked for or queued. The first page is asked
/// for from where the discussion was left.
pub proof fn law_copying_starts_with_the_search<M, E>(
    src: Discussion,
    dst_chat: PackedChat,
    post_id: i32,
    dst: Discussion,
    after: CommentCopyView<M, E>,
    action: CommentActionView<M, E>,
)
    requires
        CommentCopyView::<M, E>::opened(src, dst_chat, post_id).0.steps(
            CommentEvent::Found(dst),
            after,
            action,
        ),
    ensures
        CommentCopyView::<M, E>::opened(src, dst_chat, post_id).1 matches CommentActionView::Find {
            chat,
            post_id: post,
        } && chat == dst_chat && post == post_id,
        CommentCopyView::<M, E>::opened(src, dst_chat, post_id).0.stage is Find,
        CommentCopyView::<M, E>::opened(src, dst_chat, post_id).0.well_formed(),
        action == CommentActionView::<M, E>::Fetch(src.request),
        after.discussion == src,
        after.count == 0,
        after.spins == 1,
        after.queue.len() == 0,
        after.target->0.src_chat_id == src.id,
        after.target->0.dst_chat == dst.chat,
        after.target->0.post_id == dst.request.msg_id,
{
}

/// What is sent is the first message of the queue, all of it: a text or a single
/// attachment as a reply under the post, an album with every attachment in order.
pub proof fn law_first_message_is_sent_whole<M, E>(copy: CommentCopyView<M, E>)
    ensures
        copy.queue[0].data matches MessageTypeView::Text(t) ==> (
        copy.to_send() matches OutgoingView::Message { text, media, reply_to, entities } && text
            == t.message && entities == t.entities && media is None && reply_to == Some(
            copy.target->0.post_id,
        )),
        copy.queue[0].data matches MessageTypeView::SingleMedia(m) ==> (
        copy.to_send() matches OutgoingView::Message { text, media, reply_to, entities } && text
            == m.caption && entities == m.entities && media == Some(m.media) && reply_to == Some(
            copy.target->0.post_id,
        )),
        copy.queue[0].data matches MessageTypeView::MultiMedia(medias) ==> (
        copy.to_send() matches OutgoingView::Album(items) && items.len() == medias.len()
            && forall|i: int|
            0 <= i < medias.len() ==> (#[trigger] items[i]).caption == medias[i].caption
                && items[i].media == medias[i].media && items[i].entities == medias[i].entities),
{
}

} // verus!
