use channel_copier::message::{Media, MessageParsed, MessageRow, MessageType, MimeType, Text};
use channel_copier::outbox::{sort_jobs, SendJob};
use channel_copier::peer::{PackedChat, PackedType};
use channel_copier::sign_in::{sign_in, SignInOutcome, SignInStep, CODE_PROMPT};
use channel_copier::transfer::{Download, DownloadAction, DownloadEvent};

fn group() -> PackedChat {
    PackedChat { ty: PackedType::Megagroup, id: 6, access_hash: None }
}

fn media(name: &str, mime: MimeType) -> Media<(), u8> {
    Media {
        file_name: name.to_string(),
        grouped_id: Some(1),
        media: (),
        caption: format!("about {name}"),
        mime,
        entities: vec![name.len() as u8],
    }
}

fn message(id: Vec<i32>, data: MessageType<(), u8>) -> MessageParsed<(), u8> {
    MessageParsed {
        id,
        forwarded: false,
        src_chat_id: 500,
        post_id: 12,
        dst_chat: group(),
        data,
        file_paths: vec![],
    }
}

fn album() -> MessageParsed<(), u8> {
    let medias = vec![media("a.pdf", MimeType::Doc), media("7.jpeg", MimeType::Photo)];
    message(vec![21, 22], MessageType::MultiMedia(medias))
}

fn fetch(path: &str) -> DownloadAction {
    DownloadAction::Fetch(path.to_string())
}

#[test]
fn files_of_an_album_are_downloaded_in_order() {
    let (mut download, action) = Download::new(album());
    assert_eq!(action, DownloadAction::LookUp(21));
    assert_eq!(download.go_on(DownloadEvent::Known(false)), fetch(".tmp/500/12/a.pdf"));
    assert_eq!(download.go_on(DownloadEvent::Downloaded), fetch(".tmp/500/12/7.jpeg"));
    assert_eq!(download.go_on(DownloadEvent::Downloaded), DownloadAction::Finish);
    assert!(!download.can_accept(DownloadEvent::Downloaded));
    assert_eq!(
        download.into_message().file_paths,
        vec![".tmp/500/12/a.pdf", ".tmp/500/12/7.jpeg"]
    );
}

#[test]
fn a_file_is_sent_with_its_own_caption() {
    let (mut download, _) = Download::new(album());
    download.go_on(DownloadEvent::Known(false));
    download.go_on(DownloadEvent::Downloaded);
    download.go_on(DownloadEvent::Downloaded);
    let message = download.into_message();
    let upload = message.upload(1);
    assert_eq!(upload.chat, group());
    assert_eq!(upload.text, "about 7.jpeg");
    assert_eq!(upload.entities, &vec![6]);
    assert_eq!(upload.mime, MimeType::Photo);
    assert_eq!((upload.reply_to, upload.msg_id, upload.chat_id), (12, 22, 500));
    assert_eq!(message.upload(0).mime, MimeType::Doc);
    assert_eq!(message.upload(0).msg_id, 21);
}

#[test]
fn a_single_file_is_downloaded() {
    let single = message(vec![9], MessageType::SingleMedia(media("x", MimeType::Doc)));
    let (mut download, action) = Download::new(single);
    assert_eq!(action, DownloadAction::LookUp(9));
    assert_eq!(download.go_on(DownloadEvent::Known(false)), fetch(".tmp/500/12/x"));
    assert_eq!(download.go_on(DownloadEvent::Downloaded), DownloadAction::Finish);
    assert_eq!(download.into_message().upload(0).msg_id, 9);
}

#[test]
fn a_comment_that_was_forwarded_is_skipped() {
    let (mut download, _) = Download::new(album());
    assert_eq!(download.go_on(DownloadEvent::Known(true)), DownloadAction::Skip);
    assert!(download.into_message().file_paths.is_empty());
}

#[test]
fn a_failed_download_is_passed_over() {
    let (mut download, _) = Download::new(album());
    download.go_on(DownloadEvent::Known(false));
    download.go_on(DownloadEvent::Downloaded);
    assert_eq!(download.go_on(DownloadEvent::Failed), DownloadAction::Finish);
    let message = download.into_message();
    assert_eq!(message.file_paths, vec![".tmp/500/12/a.pdf"]);
    assert_eq!(message.upload(0).msg_id, 21);
}

#[test]
fn no_file_goes_past_a_gap() {
    let (mut download, _) = Download::new(album());
    download.go_on(DownloadEvent::Known(false));
    assert!(download.can_accept(DownloadEvent::Downloaded));
    download.go_on(DownloadEvent::Failed);
    assert!(!download.can_accept(DownloadEvent::Downloaded));
    assert!(download.can_accept(DownloadEvent::Failed));
}

#[test]
fn a_text_has_no_files() {
    let text = Text { message: "hi".to_string(), entities: vec![] };
    let text = message(vec![9], MessageType::Text(text));
    assert_eq!(text.media_count(), 0);
    assert!(text.media_at(0).is_none());
    let (download, _) = Download::new(text);
    assert!(!download.can_accept(DownloadEvent::Known(false)));
    assert!(download.can_accept(DownloadEvent::Known(true)));
    assert!(!download.can_accept(DownloadEvent::Downloaded));
}

#[test]
fn the_attachment_that_is_downloaded() {
    let (mut download, _) = Download::new(album());
    download.go_on(DownloadEvent::Known(false));
    assert_eq!(download.media().file_name, "a.pdf");
    download.go_on(DownloadEvent::Downloaded);
    assert_eq!(download.media().file_name, "7.jpeg");
}

#[test]
fn an_empty_album_has_nothing_to_upload() {
    let (mut download, action) = Download::new(message(vec![9], MessageType::MultiMedia(vec![])));
    assert_eq!(action, DownloadAction::LookUp(9));
    assert!(download.can_accept(DownloadEvent::Known(false)));
    assert_eq!(download.go_on(DownloadEvent::Known(false)), DownloadAction::Finish);
    assert!(download.into_message().file_paths.is_empty());
}

#[test]
fn attachments_by_place() {
    let album = album();
    assert_eq!(album.media_count(), 2);
    assert_eq!(album.media_at(1).unwrap().file_name, "7.jpeg");
    assert!(album.media_at(2).is_none());
    assert_eq!(album.path_of(0), ".tmp/500/12/a.pdf");
}

fn job(msg_id: i32, message: &'static str) -> SendJob<&'static str> {
    SendJob { chat: group(), message, msg_id, chat_id: 500 }
}

#[test]
fn messages_are_sent_by_id() {
    let sorted = sort_jobs(vec![job(3, "a"), job(-1, "b"), job(2, "c"), job(3, "d"), job(-1, "e")]);
    let order: Vec<(i32, &str)> = sorted.iter().map(|j| (j.msg_id, j.message)).collect();
    assert_eq!(order, vec![(-1, "b"), (-1, "e"), (2, "c"), (3, "a"), (3, "d")]);
}

#[test]
fn nothing_to_sort() {
    assert_eq!(sort_jobs::<&str>(vec![]), vec![]);
    assert_eq!(sort_jobs(vec![job(1, "a")]), vec![job(1, "a")]);
}

#[test]
fn row_of_a_sent_file() {
    assert_eq!(
        job(3, "a").row(),
        MessageRow { id: 3, chat_id: 500, downloaded: true, forwarded: true }
    );
}

#[test]
fn signing_in() {
    assert_eq!(CODE_PROMPT, "Enter code you received:");
    assert_eq!(sign_in(&SignInOutcome::SignedIn), SignInStep::Done);
    assert_eq!(
        sign_in(&SignInOutcome::InvalidCode),
        SignInStep::AskCode("Invalid code, please try again:".to_string())
    );
    assert_eq!(
        sign_in(&SignInOutcome::PasswordRequired { hint: Some("cat".to_string()) }),
        SignInStep::AskPassword("Enter the password (hint cat): ".to_string())
    );
    assert_eq!(
        sign_in(&SignInOutcome::PasswordRequired { hint: None }),
        SignInStep::AskPassword("Enter the password (hint -): ".to_string())
    );
}
