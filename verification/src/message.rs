//! Messages: as the server lists them, as they are read from a page of
//! comments, and as they are put together for sending.

use crate::peer::PackedChat;
use vstd::prelude::*;

verus! {

/// What is known of a document besides its content.
#[derive(Debug)]
pub enum DocumentAttribute {
    Filename(String),
    Other,
}

/// What is attached to a listed message. `M` is the handle by which the client
/// can send the attachment again.
#[derive(Debug)]
pub enum RawMedia<M> {
    /// A document, with its attributes unless it is gone.
    Document { attributes: Option<Vec<DocumentAttribute>>, media: M },
    /// A photo, with its id unless it is gone.
    Photo { photo_id: Option<i64>, media: M },
    /// Anything else, with a handle if the client can send it again.
    Other(Option<M>),
}

/// A message as the server lists it. `E` is a piece of formatting of its text.
#[derive(Debug)]
pub struct RawMessage<M, E> {
    pub id: i32,
    pub via_bot_id: Option<i64>,
    /// How many comments there are, where comments are possible.
    pub replies: Option<i32>,
    pub grouped_id: Option<i64>,
    pub message: String,
    pub media: Option<RawMedia<M>>,
    pub entities: Option<Vec<E>>,
}

/// An entry of a page of messages.
#[derive(Debug)]
pub enum Incoming<M, E> {
    Message(RawMessage<M, E>),
    /// A message that is gone, or a notice of the server.
    Other { id: i32 },
}

/// What sort of file an attachment is sent as.
#[derive(Clone, Copy, Debug, PartialEq, Eq)]
pub enum MimeType {
    Photo,
    Doc,
}

/// An attachment to send again.
#[derive(Clone, Debug, PartialEq, Eq)]
pub struct Media<M, E> {
    pub file_name: String,
    pub grouped_id: Option<i64>,
    pub media: M,
    pub caption: String,
    pub mime: MimeType,
    pub entities: Vec<E>,
}

/// A text to send again.
#[derive(Debug, PartialEq, Eq)]
pub struct Text<E> {
    pub message: String,
    pub entities: Vec<E>,
}

/// What one message holds.
#[derive(Debug, PartialEq, Eq)]
pub enum MessageData<M, E> {
    Media(Media<M, E>),
    Text(Text<E>),
}

/// What is sent at a time: an album is sent as one.
#[derive(Debug, PartialEq, Eq)]
pub enum MessageType<M, E> {
    MultiMedia(Vec<Media<M, E>>),
    SingleMedia(Media<M, E>),
    Text(Text<E>),
}

/// Where comments come from and where they go.
#[derive(Clone, Copy, Debug, PartialEq, Eq)]
pub struct Target {
    pub src_chat_id: i64,
    pub post_id: i32,
    pub dst_chat: PackedChat,
}

/// A comment.
#[derive(Debug, PartialEq, Eq)]
pub struct Message<M, E> {
    pub id: i32,
    pub forwarded: bool,
    pub src_chat_id: i64,
    pub post_id: i32,
    pub dst_chat: PackedChat,
    pub data: MessageData<M, E>,
}

/// One or more comments that are sent at a time.
#[derive(Debug, PartialEq, Eq)]
pub struct MessageParsed<M, E> {
    pub id: Vec<i32>,
    pub forwarded: bool,
    pub src_chat_id: i64,
    pub post_id: i32,
    pub dst_chat: PackedChat,
    pub data: MessageType<M, E>,
    pub file_paths: Vec<String>,
}

/// The value of a `Media`.
pub struct MediaView<M, E> {
    pub file_name: Seq<char>,
    pub grouped_id: Option<i64>,
    pub media: M,
    pub caption: Seq<char>,
    pub mime: MimeType,
    pub entities: Seq<E>,
}

/// The value of a `Text`.
pub struct TextView<E> {
    pub message: Seq<char>,
    pub entities: Seq<E>,
}

/// The value of a `MessageData`.
pub enum MessageDataView<M, E> {
    Media(MediaView<M, E>),
    Text(TextView<E>),
}

/// The value of a `MessageType`.
pub enum MessageTypeView<M, E> {
    MultiMedia(Seq<MediaView<M, E>>),
    SingleMedia(MediaView<M, E>),
    Text(TextView<E>),
}

/// The value of a `Message`.
pub struct MessageView<M, E> {
    pub id: i32,
    pub forwarded: bool,
    pub src_chat_id: i64,
    pub post_id: i32,
    pub dst_chat: PackedChat,
    pub data: MessageDataView<M, E>,
}

/// The value of a `MessageParsed`.
pub struct MessageParsedView<M, E> {
    pub id: Seq<i32>,
    pub forwarded: bool,
    pub src_chat_id: i64,
    pub post_id: i32,
    pub dst_chat: PackedChat,
    pub data: MessageTypeView<M, E>,
    pub file_paths: Seq<Seq<char>>,
}

impl<M, E> View for Media<M, E> {
    type V = MediaView<M, E>;

    open spec fn view(&self) -> MediaView<M, E> {
        MediaView {
            file_name: self.file_name@,
            grouped_id: self.grouped_id,
            media: self.media,
            caption: self.caption@,
            mime: self.mime,
            entities: self.entities@,
        }
    }
}

impl<E> View for Text<E> {
    type V = TextView<E>;

    open spec fn view(&self) -> TextView<E> {
        TextView { message: self.message@, entities: self.entities@ }
    }
}

impl<M, E> View for MessageData<M, E> {
    type V = MessageDataView<M, E>;

    open spec fn view(&self) -> MessageDataView<M, E> {
        match self {
            MessageData::Media(media) => MessageDataView::Media(media@),
            MessageData::Text(text) => MessageDataView::Text(text@),
        }
    }
}

impl<M, E> View for MessageType<M, E> {
    type V = MessageTypeView<M, E>;

    open spec fn view(&self) -> MessageTypeView<M, E> {
        match self {
            MessageType::MultiMedia(medias) => MessageTypeView::MultiMedia(
                medias@.map_values(|m: Media<M, E>| m@),
            ),
            MessageType::SingleMedia(media) => MessageTypeView::SingleMedia(media@),
            MessageType::Text(text) => MessageTypeView::Text(text@),
        }
    }
}

impl<M, E> View for Message<M, E> {
    type V = MessageView<M, E>;

    open spec fn view(&self) -> MessageView<M, E> {
        MessageView {
            id: self.id,
            forwarded: self.forwarded,
            src_chat_id: self.src_chat_id,
            post_id: self.post_id,
            dst_chat: self.dst_chat,
            data: self.data@,
        }
    }
}

impl<M, E> View for MessageParsed<M, E> {
    type V = MessageParsedView<M, E>;

    open spec fn view(&self) -> MessageParsedView<M, E> {
        MessageParsedView {
            id: self.id@,
            forwarded: self.forwarded,
            src_chat_id: self.src_chat_id,
            post_id: self.post_id,
            dst_chat: self.dst_chat,
            data: self.data@,
            file_paths: self.file_paths@.map_values(|p: String| p@),
        }
    }
}

impl<M, E> RawMessage<M, E> {
    /// The formatting of the text; none where none is listed.
    pub open spec fn formatting(self) -> Seq<E> {
        match self.entities {
            Some(entities) => entities@,
            None => Seq::empty(),
        }
    }
}

impl<M, E> Incoming<M, E> {
    /// The id of the message.
    pub open spec fn spec_id(&self) -> i32 {
        match self {
            Incoming::Message(message) => message.id,
            Incoming::Other { id } => *id,
        }
    }

    /// The id of the message.
    #[verifier::when_used_as_spec(spec_id)]
    pub fn id(&self) -> (r: i32)
        ensures
            r == self.id(),
    {
        match self {
            Incoming::Message(message) => message.id,
            Incoming::Other { id } => *id,
        }
    }
}

/// What is stored of a message that was copied.
#[derive(Clone, Copy, Debug, PartialEq, Eq)]
pub struct MessageRow {
    pub id: i32,
    pub chat_id: i64,
    pub downloaded: bool,
    pub forwarded: bool,
}

/// Whether the search for a row of a forwarded message found one.
pub open spec fn row_was_found(found: Result<Option<i64>, ()>) -> bool {
    found is Ok && found->Ok_0 is Some
}

/// Whether a message counts as stored as forwarded, by what the search for its row
/// gave: a search that failed counts as one that found nothing.
pub fn counts_as_forwarded(found: &Result<Option<i64>, ()>) -> (r: bool)
    ensures
        r == (*found is Ok && found->Ok_0 is Some),
        r == row_was_found(*found),
{
    match found {
        Ok(Some(_)) => true,
        _ => false,
    }
}

/// What is handed to the client to be sent.
#[derive(Debug)]
pub enum Outgoing<'a, M, E> {
    Message {
        text: &'a str,
        media: Option<&'a M>,
        reply_to: Option<i32>,
        entities: &'a Vec<E>,
    },
    Album(Vec<AlbumItem<'a, M, E>>),
}

/// One attachment of an album.
#[derive(Debug)]
pub struct AlbumItem<'a, M, E> {
    pub caption: &'a str,
    pub media: &'a M,
    pub entities: &'a Vec<E>,
}

/// The value of an `Outgoing`.
pub enum OutgoingView<M, E> {
    Message { text: Seq<char>, media: Option<M>, reply_to: Option<i32>, entities: Seq<E> },
    Album(Seq<AlbumItemView<M, E>>),
}

/// The value of an `AlbumItem`.
pub struct AlbumItemView<M, E> {
    pub caption: Seq<char>,
    pub media: M,
    pub entities: Seq<E>,
}

impl<'a, M, E> View for AlbumItem<'a, M, E> {
    type V = AlbumItemView<M, E>;

    open spec fn view(&self) -> AlbumItemView<M, E> {
        AlbumItemView { caption: self.caption@, media: *self.media, entities: self.entities@ }
    }
}

impl<'a, M, E> View for Outgoing<'a, M, E> {
    type V = OutgoingView<M, E>;

    open spec fn view(&self) -> OutgoingView<M, E> {
        match self {
            Outgoing::Message { text, media, reply_to, entities } => OutgoingView::Message {
                text: text@,
                media: match media {
                    Some(m) => Some(**m),
                    None => None,
                },
                reply_to: *reply_to,
                entities: entities@,
            },
            Outgoing::Album(items) => OutgoingView::Album(
                items@.map_values(|item: AlbumItem<'a, M, E>| item@),
            ),
        }
    }
}

impl<M, E> MediaView<M, E> {
    /// The attachment as a part of an album.
    pub open spec fn album_item(self) -> AlbumItemView<M, E> {
        AlbumItemView { caption: self.caption, media: self.media, entities: self.entities }
    }
}

impl<M, E> MessageTypeView<M, E> {
    /// What is sent: a text or a single attachment as a reply, and an album on
    /// its own.
    pub open spec fn outgoing(self, reply_to: Option<i32>) -> OutgoingView<M, E> {
        match self {
            MessageTypeView::Text(text) => OutgoingView::Message {
                text: text.message,
                media: None,
                reply_to,
                entities: text.entities,
            },
            MessageTypeView::SingleMedia(media) => OutgoingView::Message {
                text: media.caption,
                media: Some(media.media),
                reply_to,
                entities: media.entities,
            },
            MessageTypeView::MultiMedia(medias) => OutgoingView::Album(
                medias.map_values(|m: MediaView<M, E>| m.album_item()),
            ),
        }
    }

    /// The attachments, in order.
    pub open spec fn medias(self) -> Seq<MediaView<M, E>> {
        match self {
            MessageTypeView::Text(_) => Seq::empty(),
            MessageTypeView::SingleMedia(media) => seq![media],
            MessageTypeView::MultiMedia(medias) => medias,
        }
    }
}

impl<M, E> MessageType<M, E> {
    /// What is handed to the client to send this.
    pub fn send_message(&self, reply_to: Option<i32>) -> (r: Outgoing<'_, M, E>)
        ensures
            r@ == self@.outgoing(reply_to),
    {
        match self {
            MessageType::Text(text) => Outgoing::Message {
                text: text.message.as_str(),
                media: None,
                reply_to,
                entities: &text.entities,
            },
            MessageType::SingleMedia(media) => Outgoing::Message {
                text: media.caption.as_str(),
                media: Some(&media.media),
                reply_to,
                entities: &media.entities,
            },
            MessageType::MultiMedia(medias) => {
                let mut items: Vec<AlbumItem<'_, M, E>> = Vec::new();
                let mut i: usize = 0;
                while i < medias.len()
                    invariant
                        i <= medias.len(),
                        items.len() == i,
                        forall|k: int|
                            0 <= k < i ==> (#[trigger] items@[k])@ == medias@[k]@.album_item(),
                    decreases medias.len() - i,
                {
                    let m = &medias[i];
                    items.push(
                        AlbumItem {
                            caption: m.caption.as_str(),
                            media: &m.media,
                            entities: &m.entities,
                        },
                    );
                    i = i + 1;
                }
                let r = Outgoing::Album(items);
                assert(r@->Album_0 =~= self@.outgoing(reply_to)->Album_0);
                r
            },
        }
    }

    /// Adds an attachment to an album.
    pub fn push_to_multi(&mut self, value: Media<M, E>)
        requires
            *old(self) is MultiMedia,
        ensures
            final(self)@ == MessageTypeView::MultiMedia(
                old(self)@->MultiMedia_0.push(value@),
            ),
    {
        let ghost before = self@->MultiMedia_0;
        let ghost added = value@;
        if let MessageType::MultiMedia(medias) = self {
            medias.push(value);
        }
        assert(self@->MultiMedia_0 =~= before.push(added));
    }
}

/// The value of an attachment is its parts, each as it is.
pub proof fn law_value_of_media<M, E>(media: Media<M, E>, text: Text<E>)
    ensures
        media@.file_name == media.file_name@,
        media@.grouped_id == media.grouped_id,
        media@.media == media.media,
        media@.caption == media.caption@,
        media@.mime == media.mime,
        media@.entities == media.entities@,
        text@.message == text.message@,
        text@.entities == text.entities@,
{
}

/// The value of what a message holds is that of its attachments, in order, or of
/// its text.
pub proof fn law_value_of_content<M, E>(data: MessageData<M, E>, sent: MessageType<M, E>)
    ensures
        data matches MessageData::Media(media) ==> data@ == MessageDataView::<M, E>::Media(media@),
        data matches MessageData::Text(text) ==> data@ == MessageDataView::<M, E>::Text(text@),
        sent matches MessageType::Text(text) ==> sent@ == MessageTypeView::<M, E>::Text(text@),
        sent matches MessageType::SingleMedia(media) ==> sent@ == MessageTypeView::<
            M,
            E,
        >::SingleMedia(media@),
        sent matches MessageType::MultiMedia(medias) ==> sent@ is MultiMedia
            && sent@->MultiMedia_0.len() == medias@.len() && forall|i: int|
            0 <= i < medias@.len() ==> (#[trigger] sent@->MultiMedia_0[i]) == medias@[i]@,
{
}

/// The value of a comment, and that of comments that are sent at a time, is their
/// parts, each as it is.
pub proof fn law_value_of_message<M, E>(message: Message<M, E>, parsed: MessageParsed<M, E>)
    ensures
        message@.id == message.id,
        message@.forwarded == message.forwarded,
        message@.src_chat_id == message.src_chat_id,
        message@.post_id == message.post_id,
        message@.dst_chat == message.dst_chat,
        message@.data == message.data@,
        parsed@.id == parsed.id@,
        parsed@.forwarded == parsed.forwarded,
        parsed@.src_chat_id == parsed.src_chat_id,
        parsed@.post_id == parsed.post_id,
        parsed@.dst_chat == parsed.dst_chat,
        parsed@.data == parsed.data@,
        parsed@.file_paths.len() == parsed.file_paths@.len(),
        forall|i: int|
            0 <= i < parsed.file_paths@.len() ==> (#[trigger] parsed@.file_paths[i])
                == parsed.file_paths@[i]@,
{
}

/// The value of what is handed to the client is its parts, each as it is.
pub proof fn law_value_of_outgoing<'a, M, E>(outgoing: Outgoing<'a, M, E>, item: AlbumItem<'a, M, E>)
    ensures
        item@.caption == item.caption@,
        item@.media == *item.media,
        item@.entities == item.entities@,
        outgoing matches Outgoing::Message { text, media, reply_to, entities } ==> (
        outgoing@ matches OutgoingView::Message { text: t, media: m, reply_to: r, entities: e } && t
            == text@ && r == reply_to && e == entities@ && (m is Some <==> media is Some) && (
        media is Some ==> m->0 == *media->0)),
        outgoing matches Outgoing::Album(items) ==> outgoing@ is Album && outgoing@->Album_0.len()
            == items@.len() && forall|i: int|
            0 <= i < items@.len() ==> (#[trigger] outgoing@->Album_0[i]) == items@[i]@,
{
}

/// The formatting of a message is what is listed, and none where none is.
pub proof fn law_formatting_is_listed<M, E>(message: RawMessage<M, E>)
    ensures
        message.entities is None ==> message.formatting().len() == 0,
        message.entities matches Some(entities) ==> message.formatting() == entities@,
{
}

/// The id of an entry is that of the message, or of what stands in its place.
pub proof fn law_id_of_an_entry<M, E>(entry: Incoming<M, E>)
    ensures
        entry matches Incoming::Message(message) ==> entry.id() == message.id,
        entry matches Incoming::Other { id } ==> entry.id() == id,
{
}

/// The attachments of what is sent are all that there are, in order.
pub proof fn law_attachments_in_order<M, E>(data: MessageTypeView<M, E>)
    ensures
        data is Text ==> data.medias().len() == 0,
        data matches MessageTypeView::SingleMedia(media) ==> data.medias().len() == 1
            && data.medias()[0] == media,
        data matches MessageTypeView::MultiMedia(medias) ==> data.medias() == medias,
{
}

/// What is sent holds all of the message: a text or a single attachment is one
/// message with its formatting, as a reply where there is something to reply to; an
/// album holds every attachment in its place, each with its caption and formatting.
pub proof fn law_everything_is_sent<M, E>(data: MessageTypeView<M, E>, reply_to: Option<i32>)
    ensures
        data is MultiMedia <==> data.outgoing(reply_to) is Album,
        data matches MessageTypeView::Text(t) ==> (
        data.outgoing(reply_to) matches OutgoingView::Message {
            text,
            media,
            reply_to: replied,
            entities,
        } && text == t.message && media is None && replied == reply_to && entities == t.entities),
        data matches MessageTypeView::SingleMedia(m) ==> (
        data.outgoing(reply_to) matches OutgoingView::Message {
            text,
            media,
            reply_to: replied,
            entities,
        } && text == m.caption && media == Some(m.media) && replied == reply_to && entities
            == m.entities),
        data matches MessageTypeView::MultiMedia(medias) ==> data.outgoing(
            reply_to,
        )->Album_0.len() == medias.len() && forall|i: int|
            0 <= i < medias.len() ==> (#[trigger] data.outgoing(reply_to)->Album_0[i]).caption
                == medias[i].caption && data.outgoing(reply_to)->Album_0[i].media == medias[i].media
                && data.outgoing(reply_to)->Album_0[i].entities == medias[i].entities,
{
}

/// Whichever row was found counts, and neither a search without a result nor one
/// that failed does.
pub proof fn law_any_row_counts(id: i64)
    ensures
        row_was_found(Ok(Some(id))),
        !row_was_found(Ok(None)),
        !row_was_found(Err(())),
{
}

} // verus!
