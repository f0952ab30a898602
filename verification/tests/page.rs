use channel_copier::message::{
    counts_as_forwarded, AlbumItem, DocumentAttribute, Incoming, Media, Message, MessageData, MessageParsed,
    MessageType, MimeType, Outgoing, RawMedia, RawMessage, Target, Text,
};
use channel_copier::page::{
    can_merge, group_messages, is_readable, page_ids, read_comment, read_comments,
};
use channel_copier::peer::{PackedChat, PackedType};

type Entry = Incoming<&'static str, u8>;

fn target() -> Target {
    Target {
        src_chat_id: 500,
        post_id: 12,
        dst_chat: PackedChat { ty: PackedType::Megagroup, id: 6, access_hash: None },
    }
}

fn entry(id: i32, text: &str, grouped_id: Option<i64>, media: Option<RawMedia<&'static str>>) -> Entry {
    Incoming::Message(RawMessage {
        id,
        via_bot_id: None,
        replies: None,
        grouped_id,
        message: text.to_string(),
        media,
        entities: Some(vec![id as u8]),
    })
}

fn photo(photo_id: i64) -> Option<RawMedia<&'static str>> {
    Some(RawMedia::Photo { photo_id: Some(photo_id), media: "photo" })
}

fn document(names: &[&str]) -> Option<RawMedia<&'static str>> {
    let mut attributes = vec![DocumentAttribute::Other];
    attributes.extend(names.iter().map(|n| DocumentAttribute::Filename(n.to_string())));
    Some(RawMedia::Document { attributes: Some(attributes), media: "document" })
}

fn read(entry: Entry) -> Option<MessageData<&'static str, u8>> {
    read_comment(entry, &target()).map(|m| m.data)
}

fn grouped(page: Vec<Entry>) -> Vec<MessageParsed<&'static str, u8>> {
    assert!(is_readable(&page));
    let messages = read_comments(page, &target());
    assert!(can_merge(&messages));
    group_messages(messages)
}

fn ids(groups: &Vec<MessageParsed<&'static str, u8>>) -> Vec<Vec<i32>> {
    groups.iter().map(|g| g.id.clone()).collect()
}

#[test]
fn a_text_is_read() {
    assert_eq!(
        read_comment(entry(4, "hello", Some(9), None), &target()),
        Some(Message {
            id: 4,
            forwarded: false,
            src_chat_id: 500,
            post_id: 12,
            dst_chat: target().dst_chat,
            data: MessageData::Text(Text { message: "hello".to_string(), entities: vec![4] }),
        })
    );
}

#[test]
fn a_photo_is_read() {
    assert_eq!(
        read(entry(4, "look", Some(9), photo(77))),
        Some(MessageData::Media(Media {
            file_name: "77.jpeg".to_string(),
            grouped_id: Some(9),
            media: "photo",
            caption: "look".to_string(),
            mime: MimeType::Photo,
            entities: vec![4],
        }))
    );
}

#[test]
fn a_document_is_read_under_its_first_name() {
    assert_eq!(
        read(entry(4, "", None, document(&["a/b?.pdf", "c.pdf"]))),
        Some(MessageData::Media(Media {
            file_name: "ab.pdf".to_string(),
            grouped_id: None,
            media: "document",
            caption: "".to_string(),
            mime: MimeType::Doc,
            entities: vec![4],
        }))
    );
}

#[test]
fn what_is_left_out() {
    assert_eq!(read(entry(4, "", None, None)), None);
    assert_eq!(read(entry(4, "text", None, document(&[]))), None);
    let gone = Some(RawMedia::Document { attributes: None, media: "gone" });
    assert_eq!(read(entry(4, "text", None, gone)), None);
    let gone = Some(RawMedia::Photo { photo_id: None, media: "gone" });
    assert_eq!(read(entry(4, "text", None, gone)), None);
    assert_eq!(read(entry(4, "", None, Some(RawMedia::Other(Some("poll"))))), None);
    assert_eq!(read(Incoming::Other { id: 4 }), None);
}

#[test]
fn the_text_of_another_attachment_is_kept() {
    for handle in [None, Some("poll")] {
        assert_eq!(
            read(entry(4, "vote", None, Some(RawMedia::Other(handle)))),
            Some(MessageData::Text(Text { message: "vote".to_string(), entities: vec![4] }))
        );
    }
}

#[test]
fn no_formatting_is_listed() {
    let plain: Incoming<u8, u8> = Incoming::Message(RawMessage {
        id: 1,
        via_bot_id: None,
        replies: None,
        grouped_id: None,
        message: "x".to_string(),
        media: None,
        entities: None,
    });
    let data = read_comment(plain, &target()).unwrap().data;
    assert_eq!(data, MessageData::Text(Text { message: "x".to_string(), entities: vec![] }));
}

#[test]
fn comments_come_oldest_first() {
    let page = vec![
        entry(9, "c", None, None),
        Incoming::Other { id: 8 },
        entry(7, "", None, None),
        entry(6, "b", None, None),
        entry(5, "a", None, None),
    ];
    assert_eq!(page_ids(&page), vec![9, 8, 7, 6, 5]);
    let read: Vec<i32> = read_comments(page, &target()).iter().map(|m| m.id).collect();
    assert_eq!(read, vec![5, 6, 9]);
}

#[test]
fn parts_of_an_album_are_put_together() {
    let groups = grouped(vec![
        entry(9, "later", None, None),
        entry(8, "two", Some(1000), document(&["2.pdf"])),
        entry(7, "one", Some(1000), photo(1)),
        entry(6, "earlier", None, None),
    ]);
    assert_eq!(ids(&groups), vec![vec![6], vec![9], vec![7, 8]]);
    assert!(groups.iter().all(|g| g.file_paths.is_empty() && !g.forwarded));
    assert!(groups.iter().all(|g| (g.src_chat_id, g.post_id) == (500, 12)));
    match &groups[2].data {
        MessageType::MultiMedia(medias) => {
            let names: Vec<&str> = medias.iter().map(|m| m.file_name.as_str()).collect();
            assert_eq!(names, vec!["1.jpeg", "2.pdf"]);
        }
        other => panic!("{other:?}"),
    }
}

#[test]
fn messages_go_by_their_keys() {
    let groups = grouped(vec![
        entry(30, "", Some(-4), photo(3)),
        entry(20, "text", None, None),
        entry(10, "", Some(25), photo(1)),
    ]);
    assert_eq!(ids(&groups), vec![vec![30], vec![20], vec![10]]);
}

#[test]
fn an_album_of_one_stays_an_album() {
    let groups = grouped(vec![entry(3, "", Some(8), photo(1))]);
    assert!(matches!(&groups[0].data, MessageType::MultiMedia(m) if m.len() == 1));
    let groups = grouped(vec![entry(3, "", None, photo(1))]);
    assert!(matches!(&groups[0].data, MessageType::SingleMedia(_)));
}

#[test]
fn every_comment_is_sent_once() {
    let page: Vec<Entry> = (0..20)
        .rev()
        .map(|i| match i % 3 {
            0 => entry(i, "t", None, None),
            1 => entry(i, "", Some(1000 + (i as i64 / 6)), photo(i as i64)),
            _ => entry(i, "", None, document(&["d"])),
        })
        .collect();
    let mut all: Vec<i32> = ids(&grouped(page)).into_iter().flatten().collect();
    all.sort();
    assert_eq!(all, (0..20).collect::<Vec<i32>>());
}

#[test]
fn a_later_message_takes_the_place_under_its_id() {
    let groups = grouped(vec![entry(5, "text", None, None), entry(4, "", Some(5), photo(1))]);
    assert_eq!(ids(&groups), vec![vec![5]]);
    assert!(matches!(&groups[0].data, MessageType::Text(_)));
}

#[test]
fn an_album_cannot_join_a_text() {
    let page = || vec![entry(6, "", Some(5), photo(1)), entry(5, "text", None, None)];
    assert!(!is_readable(&page()));
    assert!(!can_merge(&read_comments(page(), &target())));
}

#[test]
fn a_page_whose_cursor_overflows_is_not_readable() {
    assert!(!is_readable(&vec![entry(i32::MAX, "x", None, None)]));
    assert!(is_readable(&vec![entry(i32::MAX - 1, "x", None, None)]));
}

#[test]
fn an_empty_page() {
    assert!(is_readable::<u8, u8>(&vec![]));
    assert_eq!(grouped(vec![]), vec![]);
}

#[test]
fn a_text_is_sent_as_a_reply() {
    let groups = grouped(vec![entry(3, "hi", None, None)]);
    match groups[0].data.send_message(Some(12)) {
        Outgoing::Message { text, media, reply_to, entities } => {
            assert_eq!((text, media, reply_to), ("hi", None, Some(12)));
            assert_eq!(entities, &vec![3]);
        }
        other => panic!("{other:?}"),
    }
}

#[test]
fn an_attachment_is_sent_as_a_reply() {
    let groups = grouped(vec![entry(3, "cap", None, photo(1))]);
    match groups[0].data.send_message(Some(12)) {
        Outgoing::Message { text, media, reply_to, entities } => {
            assert_eq!((text, media, reply_to), ("cap", Some(&"photo"), Some(12)));
            assert_eq!(entities, &vec![3]);
        }
        other => panic!("{other:?}"),
    }
}

#[test]
fn an_album_is_sent_as_one() {
    let groups = grouped(vec![
        entry(4, "two", Some(9), document(&["d"])),
        entry(3, "one", Some(9), photo(1)),
    ]);
    match groups[0].data.send_message(Some(12)) {
        Outgoing::Album(items) => {
            let sent: Vec<(&str, &str, &Vec<u8>)> = items
                .iter()
                .map(|AlbumItem { caption, media, entities }| (*caption, **media, *entities))
                .collect();
            assert_eq!(sent, vec![("one", "photo", &vec![3]), ("two", "document", &vec![4])]);
        }
        other => panic!("{other:?}"),
    }
}

#[test]
fn an_album_grows() {
    let media = |n: &str| Media {
        file_name: n.to_string(),
        grouped_id: Some(1),
        media: (),
        caption: String::new(),
        mime: MimeType::Doc,
        entities: Vec::<u8>::new(),
    };
    let mut album = MessageType::MultiMedia(vec![media("a")]);
    album.push_to_multi(media("b"));
    assert_eq!(album, MessageType::MultiMedia(vec![media("a"), media("b")]));
}

#[test]
fn a_failed_search_finds_no_forwarded_message() {
    assert!(counts_as_forwarded(&Ok(Some(3))));
    assert!(!counts_as_forwarded(&Ok(None)));
    assert!(!counts_as_forwarded(&Err(())));
}
