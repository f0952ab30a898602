//! Moving the files of comments that may not be copied: each is downloaded and
//! uploaded again.

use crate::message::{
    Incoming, Media, MessageParsed, MessageParsedView, MessageType, MimeType, RawMessage, Target,
};
use crate::peer::PackedChat;
use crate::text::download_path;
use vstd::prelude::*;

verus! {

impl<M, E> MessageParsedView<M, E> {
    /// Where the file of an attachment is kept.
    pub open spec fn path_of(self, idx: int) -> Seq<char> {
        crate::text::file_path(
            self.src_chat_id,
            self.post_id,
            self.data.medias()[idx].file_name,
        )
    }

    /// The same with one more file, in this place.
    pub open spec fn with_path(self, idx: int, path: Seq<char>) -> MessageParsedView<M, E> {
        MessageParsedView { file_paths: self.file_paths.insert(idx, path), ..self }
    }

    /// What is sent with the file in a place: it goes under the post, with the
    /// caption and the id of the attachment in the same place.
    pub open spec fn upload(self, idx: int) -> UploadView<E> {
        let media = self.data.medias()[idx];
        UploadView {
            chat: self.dst_chat,
            text: media.caption,
            entities: media.entities,
            mime: media.mime,
            reply_to: self.post_id,
            msg_id: self.id[idx],
            chat_id: self.src_chat_id,
        }
    }
}

/// What is sent with an uploaded file.
#[derive(Debug)]
pub struct Upload<'a, E> {
    /// Where it goes.
    pub chat: PackedChat,
    pub text: &'a str,
    pub entities: &'a Vec<E>,
    /// Whether the file is sent as a photo or as a document.
    pub mime: MimeType,
    pub reply_to: i32,
    /// The id of the comment, and where it stands.
    pub msg_id: i32,
    pub chat_id: i64,
}

/// The value of an `Upload`.
pub struct UploadView<E> {
    pub chat: PackedChat,
    pub text: Seq<char>,
    pub entities: Seq<E>,
    pub mime: MimeType,
    pub reply_to: i32,
    pub msg_id: i32,
    pub chat_id: i64,
}

impl<'a, E> View for Upload<'a, E> {
    type V = UploadView<E>;

    open spec fn view(&self) -> UploadView<E> {
        UploadView {
            chat: self.chat,
            text: self.text@,
            entities: self.entities@,
            mime: self.mime,
            reply_to: self.reply_to,
            msg_id: self.msg_id,
            chat_id: self.chat_id,
        }
    }
}

impl<M, E> MessageParsed<M, E> {
    /// How many attachments there are.
    pub fn media_count(&self) -> (r: usize)
        ensures
            r == self@.data.medias().len(),
    {
        match &self.data {
            MessageType::MultiMedia(medias) => medias.len(),
            MessageType::SingleMedia(_) => 1,
            MessageType::Text(_) => 0,
        }
    }

    /// The attachment in a place, if there is one.
    pub fn media_at(&self, idx: usize) -> (r: Option<&Media<M, E>>)
        ensures
            match r {
                Some(media) => idx < self@.data.medias().len() && media@
                    == self@.data.medias()[idx as int],
                None => idx >= self@.data.medias().len(),
            },
    {
        match &self.data {
            MessageType::MultiMedia(medias) => if idx < medias.len() {
                Some(&medias[idx])
            } else {
                None
            },
            MessageType::SingleMedia(media) => if idx == 0 {
                Some(media)
            } else {
                None
            },
            MessageType::Text(_) => None,
        }
    }

    /// Where the file of an attachment is kept.
    pub fn path_of(&self, idx: usize) -> (r: String)
        requires
            idx < self@.data.medias().len(),
        ensures
            r@ == self@.path_of(idx as int),
    {
        let media = self.media_at(idx).unwrap();
        download_path(self.src_chat_id, self.post_id, media.file_name.as_str())
    }

    /// What is sent with the file in a place, once it is uploaded.
    pub fn upload(&self, idx: usize) -> (r: Upload<'_, E>)
        requires
            self@.well_formed(),
            idx < self@.file_paths.len(),
        ensures
            r@ == self@.upload(idx as int),
    {
        let media = self.media_at(idx).unwrap();
        Upload {
            chat: self.dst_chat,
            text: media.caption.as_str(),
            entities: &media.entities,
            mime: media.mime,
            reply_to: self.post_id,
            msg_id: self.id[idx],
            chat_id: self.src_chat_id,
        }
    }

    fn store_path(&mut self, idx: usize, path: String)
        requires
            idx <= old(self)@.file_paths.len(),
        ensures
            final(self)@ == old(self)@.with_path(idx as int, path@),
    {
        let ghost before = self@.file_paths;
        let ghost added = path@;
        self.file_paths.insert(idx, path);
        assert(self@.file_paths =~= before.insert(idx as int, added));
    }
}

/// What is waited for while the files of a comment are downloaded.
#[derive(Clone, Copy, Debug, PartialEq, Eq)]
pub enum DownloadStage {
    /// Whether the comment is stored as forwarded.
    Check,
    /// A file being downloaded.
    File,
    /// Nothing any more.
    Over,
}

/// The state of downloading the files of a comment.
#[derive(Debug)]
pub struct Download<M, E> {
    message: MessageParsed<M, E>,
    /// The attachment whose file is downloaded.
    idx: usize,
    stage: DownloadStage,
}

/// The value of a `Download`.
pub struct DownloadView<M, E> {
    pub message: MessageParsedView<M, E>,
    pub idx: int,
    pub stage: DownloadStage,
}

impl<M, E> View for Download<M, E> {
    type V = DownloadView<M, E>;

    closed spec fn view(&self) -> DownloadView<M, E> {
        DownloadView { message: self.message@, idx: self.idx as int, stage: self.stage }
    }
}

/// What comes in while files are downloaded.
#[derive(Clone, Copy, Debug, PartialEq, Eq)]
pub enum DownloadEvent {
    /// Whether the comment is stored as forwarded.
    Known(bool),
    /// The file is downloaded.
    Downloaded,
    /// The file could not be downloaded.
    Failed,
}

/// What to do next.
#[derive(Debug, PartialEq, Eq)]
pub enum DownloadAction {
    /// Look up whether the comment with this id is stored as forwarded.
    LookUp(i32),
    /// Download the file of the attachment to this path.
    Fetch(String),
    /// Leave the comment: it is stored as forwarded.
    Skip,
    /// Upload what was downloaded.
    Finish,
}

/// The value of a `DownloadAction`.
pub enum DownloadActionView {
    LookUp(i32),
    Fetch(Seq<char>),
    Skip,
    Finish,
}

impl View for DownloadAction {
    type V = DownloadActionView;

    open spec fn view(&self) -> DownloadActionView {
        match self {
            DownloadAction::LookUp(id) => DownloadActionView::LookUp(*id),
            DownloadAction::Fetch(path) => DownloadActionView::Fetch(path@),
            DownloadAction::Skip => DownloadActionView::Skip,
            DownloadAction::Finish => DownloadActionView::Finish,
        }
    }
}

impl<M, E> DownloadView<M, E> {
    /// How downloading starts, and what is done first.
    pub open spec fn opened(message: MessageParsedView<M, E>) -> (
        DownloadView<M, E>,
        DownloadActionView,
    ) {
        (
            DownloadView { message, idx: 0, stage: DownloadStage::Check },
            DownloadActionView::LookUp(message.id[0]),
        )
    }

    /// The same, waiting for something else.
    pub open spec fn at(self, stage: DownloadStage) -> DownloadView<M, E> {
        DownloadView { stage, ..self }
    }

    /// There is an attachment whose file is downloaded, and it is not behind the
    /// last.
    pub open spec fn well_formed(self) -> bool {
        &&& self.idx >= 0
        &&& self.stage is Check ==> self.idx == 0
        &&& self.stage is File ==> self.idx < self.message.data.medias().len()
    }

    /// Whether this can come in now. A text has no files to download, and a file
    /// is put behind those that are there at most.
    pub open spec fn accepts(self, event: DownloadEvent) -> bool {
        match (self.stage, event) {
            (DownloadStage::Check, DownloadEvent::Known(known)) => known || !(
            self.message.data is Text),
            (DownloadStage::File, DownloadEvent::Downloaded) => self.idx
                <= self.message.file_paths.len(),
            (DownloadStage::File, DownloadEvent::Failed) => true,
            _ => false,
        }
    }

    /// The file of the next attachment is downloaded; after the last, what was
    /// downloaded is uploaded.
    pub open spec fn proceeded(self) -> (DownloadView<M, E>, DownloadActionView) {
        if self.idx + 1 < self.message.data.medias().len() {
            (
                DownloadView { idx: self.idx + 1, ..self },
                DownloadActionView::Fetch(self.message.path_of(self.idx + 1)),
            )
        } else {
            (self.at(DownloadStage::Over), DownloadActionView::Finish)
        }
    }

    /// How downloading goes on: a comment that is stored as forwarded is left, and
    /// otherwise the files are downloaded one after the other. A file that could
    /// not be downloaded is passed over.
    pub open spec fn step(self, event: DownloadEvent) -> (DownloadView<M, E>, DownloadActionView) {
        match (self.stage, event) {
            (DownloadStage::Check, DownloadEvent::Known(known)) => if known {
                (self.at(DownloadStage::Over), DownloadActionView::Skip)
            } else if self.message.data.medias().len() == 0 {
                (self.at(DownloadStage::Over), DownloadActionView::Finish)
            } else {
                (
                    self.at(DownloadStage::File),
                    DownloadActionView::Fetch(self.message.path_of(0)),
                )
            },
            (DownloadStage::File, DownloadEvent::Downloaded) => (DownloadView {
                message: self.message.with_path(self.idx, self.message.path_of(self.idx)),
                ..self
            }).proceeded(),
            (DownloadStage::File, DownloadEvent::Failed) => self.proceeded(),
            _ => (self.at(DownloadStage::Over), DownloadActionView::Skip),
        }
    }

    /// Whether the message is well formed, with at most one file for every
    /// attachment that was come to so far.
    pub open spec fn files_fit(self) -> bool {
        &&& self.message.well_formed()
        &&& !(self.stage is Over) ==> self.message.file_paths.len() <= self.idx
    }

    /// Whether the files stand in the places of their attachments, one for every
    /// attachment that was come to so far.
    pub open spec fn complete_so_far(self) -> bool {
        &&& self.message.file_paths.len() == (if self.stage is Over {
            self.message.data.medias().len() as int
        } else {
            self.idx
        })
        &&& forall|i: int|
            0 <= i < self.message.file_paths.len() ==> #[trigger] self.message.file_paths[i]
                == self.message.path_of(i)
    }
}

impl<M, E> Download<M, E> {
    /// Starts to download the files of a comment, and says what to do first.
    pub fn new(message: MessageParsed<M, E>) -> (r: (Download<M, E>, DownloadAction))
        requires
            message@.id.len() > 0,
        ensures
            r.0@ == (DownloadView { message: message@, idx: 0, stage: DownloadStage::Check }),
            r.1@ == DownloadActionView::LookUp(message@.id[0]),
            r.0@.well_formed(),
            message@.ready() ==> r.0@.files_fit(),
            (r.0@, r.1@) == DownloadView::opened(message@),
    {
        let action = DownloadAction::LookUp(message.id[0]);
        (Download { message, idx: 0, stage: DownloadStage::Check }, action)
    }

    /// The attachment whose file is downloaded.
    pub fn media(&self) -> (r: &Media<M, E>)
        requires
            self@.well_formed(),
            self@.stage is File,
        ensures
            r@ == self@.message.data.medias()[self@.idx],
    {
        self.message.media_at(self.idx).unwrap()
    }

    /// The comment, with the files that were downloaded.
    pub fn into_message(self) -> (r: MessageParsed<M, E>)
        ensures
            r@ == self@.message,
    {
        self.message
    }

    /// Whether this can come in now: see `DownloadView::accepts`.
    pub fn can_accept(&self, event: DownloadEvent) -> (r: bool)
        ensures
            r == self@.accepts(event),
    {
        match (self.stage, event) {
            (DownloadStage::Check, DownloadEvent::Known(known)) => known
                || match self.message.data {
                MessageType::Text(_) => false,
                _ => true,
            },
            (DownloadStage::File, DownloadEvent::Downloaded) => self.idx
                <= self.message.file_paths.len(),
            (DownloadStage::File, DownloadEvent::Failed) => true,
            _ => false,
        }
    }

    fn proceed(&mut self) -> (r: DownloadAction)
        requires
            old(self)@.well_formed(),
            old(self)@.stage is File,
        ensures
            (final(self)@, r@) == old(self)@.proceeded(),
            final(self)@.well_formed(),
    {
        let count: usize = self.message.media_count();
        if self.idx < count - 1 {
            self.idx = self.idx + 1;
            DownloadAction::Fetch(self.message.path_of(self.idx))
        } else {
            self.stage = DownloadStage::Over;
            DownloadAction::Finish
        }
    }

    /// Goes on downloading with what came in, and says what to do next.
    pub fn go_on(&mut self, event: DownloadEvent) -> (r: DownloadAction)
        requires
            old(self)@.well_formed(),
            old(self)@.accepts(event),
        ensures
            (final(self)@, r@) == old(self)@.step(event),
            final(self)@.well_formed(),
            old(self)@.files_fit() ==> final(self)@.files_fit(),
    {
        match (self.stage, event) {
            (DownloadStage::Check, DownloadEvent::Known(known)) => {
                if known {
                    self.stage = DownloadStage::Over;
                    DownloadAction::Skip
                } else if self.message.media_count() == 0 {
                    self.stage = DownloadStage::Over;
                    DownloadAction::Finish
                } else {
                    self.stage = DownloadStage::File;
                    DownloadAction::Fetch(self.message.path_of(0))
                }
            },
            (DownloadStage::File, DownloadEvent::Downloaded) => {
                let idx: usize = self.idx;
                let path = self.message.path_of(idx);
                self.message.store_path(idx, path);
                self.proceed()
            },
            (DownloadStage::File, DownloadEvent::Failed) => self.proceed(),
            _ => {
                self.stage = DownloadStage::Over;
                DownloadAction::Skip
            },
        }
    }
}

/// A comment that is well formed stays so while its files come in, whatever
/// downloads fail: what was downloaded can be uploaded.
pub proof fn law_files_fit<M, E>(before: DownloadView<M, E>, event: DownloadEvent)
    requires
        before.well_formed(),
        before.accepts(event),
        before.files_fit(),
    ensures
        before.step(event).0.files_fit(),
        before.step(event).0.message.well_formed(),
{
}

/// As long as no download fails, the file of every attachment stands in the
/// place of its attachment; when the files are uploaded, there is one for each.
pub proof fn law_files_stay_with_attachments<M, E>(before: DownloadView<M, E>, event: DownloadEvent)
    requires
        before.well_formed(),
        before.accepts(event),
        before.complete_so_far(),
        event == DownloadEvent::Known(false) || event == DownloadEvent::Downloaded,
    ensures
        before.step(event).0.complete_so_far(),
        before.step(event).1 is Finish <==> before.step(event).0.stage is Over,
{
    let after = before.step(event).0;
    assert forall|i: int| 0 <= i < after.message.file_paths.len() implies
    #[trigger] after.message.file_paths[i] == after.message.path_of(i) by {
        if i < before.message.file_paths.len() {
            assert(after.message.file_paths[i] == before.message.file_paths[i]);
        }
    }
}

/// Downloading does not touch what is sent with the files: the ids, the captions
/// and where they go.
pub proof fn law_downloads_change_files_alone<M, E>(
    before: DownloadView<M, E>,
    event: DownloadEvent,
    idx: int,
)
    requires
        before.well_formed(),
        before.accepts(event),
    ensures
        before.step(event).0.message.upload(idx) == before.message.upload(idx),
        before.step(event).0.message.id == before.message.id,
        before.step(event).0.message.data == before.message.data,
{
}

/// What is sent with a file has the sort, the caption and the formatting of the
/// attachment in its place, and the id of the comment in its place, whatever the
/// kind of the message. It goes to the group of the message, under its post.
pub proof fn law_upload_matches_the_attachment<M, E>(message: MessageParsedView<M, E>, idx: int)
    ensures
        message.upload(idx).mime == message.data.medias()[idx].mime,
        message.upload(idx).text == message.data.medias()[idx].caption,
        message.upload(idx).entities == message.data.medias()[idx].entities,
        message.upload(idx).msg_id == message.id[idx],
        message.upload(idx).chat == message.dst_chat,
        message.upload(idx).reply_to == message.post_id,
        message.upload(idx).chat_id == message.src_chat_id,
{
}

/// A comment with a photo is uploaded as a photo, and one with a document as a
/// document, each with the text of the comment, alone or as the first of an album.
pub proof fn law_comment_is_uploaded_as_it_was<M, E>(message: RawMessage<M, E>, target: Target)
    requires
        Incoming::Message(message).comment(target) is Some,
        message.media is Some,
        !(message.media->0 is Other),
    ensures
        ({
            let upload = Incoming::Message(message).comment(target)->0.alone().upload(0);
            &&& message.media->0 is Photo ==> upload.mime is Photo
            &&& message.media->0 is Document ==> upload.mime is Doc
            &&& upload.text == message.message@
            &&& upload.entities == message.formatting()
            &&& upload.msg_id == message.id
            &&& upload.reply_to == target.post_id
            &&& upload.chat == target.dst_chat
            &&& upload.chat_id == target.src_chat_id
        }),
{
}

/// A file is kept under the name of its attachment, in the place of the chat and the
/// post of the message.
pub proof fn law_file_is_kept_under_its_name<M, E>(
    message: MessageParsedView<M, E>,
    idx: int,
    place: int,
    path: Seq<char>,
)
    requires
        0 <= place <= message.file_paths.len(),
    ensures
        message.path_of(idx) == crate::text::file_path(
            message.src_chat_id,
            message.post_id,
            message.data.medias()[idx].file_name,
        ),
        message.with_path(place, path).file_paths[place] == path,
        message.with_path(place, path).file_paths.remove(place) == message.file_paths,
        message.with_path(place, path).id == message.id,
        message.with_path(place, path).data == message.data,
        message.with_path(place, path).dst_chat == message.dst_chat,
        message.with_path(place, path).post_id == message.post_id,
        message.with_path(place, path).src_chat_id == message.src_chat_id,
        message.with_path(place, path).forwarded == message.forwarded,
{
    assert(message.with_path(place, path).file_paths.remove(place) =~= message.file_paths);
}

/// What can come in while files are downloaded: the result of the search for a
/// comment, unless it is a text that is not stored as forwarded, and the outcome of
/// each download, unless a file before it is missing.
pub proof fn law_what_a_download_waits_for<M, E>(download: DownloadView<M, E>, event: DownloadEvent)
    ensures
        event == DownloadEvent::Known(true) ==> (download.accepts(event) <==> download.stage
            is Check),
        event == DownloadEvent::Known(false) ==> (download.accepts(event) <==> download.stage
            is Check && !(download.message.data is Text)),
        event is Downloaded ==> (download.accepts(event) <==> download.stage is File && download.idx
            <= download.message.file_paths.len()),
        event is Failed ==> (download.accepts(event) <==> download.stage is File),
{
}

/// How files are downloaded: a comment that is stored as forwarded is skipped;
/// otherwise the files of its attachments are fetched in order, each to its own
/// path. A file that was downloaded is put in the place of its attachment, one that
/// was not is passed over. After the last, or where there is none, the files are
/// uploaded.
pub proof fn law_files_go_one_by_one<M, E>(download: DownloadView<M, E>, event: DownloadEvent)
    requires
        download.well_formed(),
        download.accepts(event),
    ensures
        event == DownloadEvent::Known(true) ==> download.step(event).1 is Skip && download.step(
            event,
        ).0.stage is Over,
        event == DownloadEvent::Known(false) ==> download.message.data.medias().len() > 0
            ==> download.step(event).1 == DownloadActionView::Fetch(download.message.path_of(0))
            && download.step(event).0.stage is File && download.step(event).0.idx == 0,
        event == DownloadEvent::Known(false) ==> download.message.data.medias().len() == 0
            ==> download.step(event).1 is Finish,
        !(event is Downloaded) ==> download.step(event).0.message == download.message,
        event is Downloaded ==> download.step(event).0.message.file_paths
            == download.message.file_paths.insert(
            download.idx,
            download.message.path_of(download.idx),
        ),
        event is Downloaded || event is Failed ==> download.idx + 1
            < download.message.data.medias().len() ==> download.step(event).1
            == DownloadActionView::Fetch(download.message.path_of(download.idx + 1))
            && download.step(event).0.stage is File && download.step(event).0.idx == download.idx
            + 1,
        event is Downloaded || event is Failed ==> download.idx + 1
            >= download.message.data.medias().len() ==> download.step(event).1 is Finish
            && download.step(event).0.stage is Over,
{
}

/// The value of an upload and that of an action is what they carry, as it is.
pub proof fn law_value_of_transfer<'a, E>(upload: Upload<'a, E>, action: DownloadAction)
    ensures
        upload@.chat == upload.chat,
        upload@.text == upload.text@,
        upload@.entities == upload.entities@,
        upload@.mime == upload.mime,
        upload@.reply_to == upload.reply_to,
        upload@.msg_id == upload.msg_id,
        upload@.chat_id == upload.chat_id,
        action matches DownloadAction::LookUp(id) ==> action@ == DownloadActionView::LookUp(id),
        action matches DownloadAction::Fetch(path) ==> action@ == DownloadActionView::Fetch(path@),
        action is Skip ==> action@ is Skip,
        action is Finish ==> action@ is Finish,
{
}

/// Downloading starts with the search for the first id of the comment, and with the
/// comment as it is. The result of the search can come in, unless a text is to be
/// downloaded.
pub proof fn law_download_starts_with_the_search<M, E>(message: MessageParsedView<M, E>)
    ensures
        DownloadView::opened(message).1 == DownloadActionView::LookUp(message.id[0]),
        DownloadView::opened(message).0.message == message,
        DownloadView::opened(message).0.accepts(DownloadEvent::Known(true)),
        !(message.data is Text) ==> DownloadView::opened(message).0.accepts(
            DownloadEvent::Known(false),
        ),
        message.file_paths.len() == 0 ==> DownloadView::opened(message).0.complete_so_far(),
{
}

} // verus!
