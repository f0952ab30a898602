use channel_copier::chat::{Chat, CursorRow};
use channel_copier::discussion::{Discussion, DiscussionRecord};
use channel_copier::message::{Incoming, MessageRow, Outgoing, RawMedia, RawMessage};
use channel_copier::peer::{PackedChat, PackedType};
use channel_copier::posts::{
    copy_messages, keep_commented, parse_chat, Attachment, HistoryAction, HistoryCopy,
    HistoryEvent, HistoryStage, Post, PostAction, PostCopy, PostEvent,
};
use channel_copier::retry::Failure;

type Entry = Incoming<&'static str, u8>;

fn channel() -> Chat {
    Chat::new(PackedChat { ty: PackedType::Broadcast, id: 40, access_hash: None })
}

fn destination() -> PackedChat {
    PackedChat { ty: PackedType::Broadcast, id: 90, access_hash: Some(1) }
}

fn sent_there() -> PostAction {
    PostAction::Send { dst_chat: destination() }
}

fn discussion(id: i64) -> Discussion {
    let record =
        DiscussionRecord { id, chat_id: 1, post_id: 2, msg_id: 3, offset_id: 0, min_id: 0, hash: 0 };
    Discussion::from_record(&record, channel().chat)
}

fn raw(
    id: i32,
    via_bot_id: Option<i64>,
    replies: Option<i32>,
    media: Option<RawMedia<&'static str>>,
) -> RawMessage<&'static str, u8> {
    RawMessage {
        id,
        via_bot_id,
        replies,
        grouped_id: None,
        message: format!("post {id}"),
        media,
        entities: Some(vec![1]),
    }
}

fn post(id: i32) -> Entry {
    Incoming::Message(raw(id, None, Some(1), None))
}

fn ids(page: &[Entry]) -> Vec<i32> {
    page.iter().map(|entry| entry.id()).collect()
}

#[test]
fn posts_with_comments_are_kept() {
    let page = vec![
        post(9),
        Incoming::Message(raw(8, Some(1), Some(5), None)),
        Incoming::Message(raw(7, None, Some(0), None)),
        Incoming::Message(raw(6, None, None, None)),
        Incoming::Other { id: 5 },
        post(4),
        Incoming::Message(raw(3, None, Some(-1), None)),
    ];
    assert_eq!(ids(&keep_commented(page)), vec![9, 4]);
}

#[test]
fn pages_are_copied_until_one_is_empty() {
    let (mut copy, first) = HistoryCopy::new::<&str, u8>(channel());
    match first {
        HistoryAction::Fetch(request) => assert_eq!(request, channel().request),
        other => panic!("{other:?}"),
    }
    let page = vec![post(9), Incoming::Other { id: 8 }];
    match parse_chat(&mut copy, HistoryEvent::Messages(page)) {
        HistoryAction::Copy(posts) => assert_eq!(ids(&posts), vec![9]),
        other => panic!("{other:?}"),
    }
    assert_eq!(copy.stage, HistoryStage::Copy);
    let mut moved = channel();
    moved.request.offset_id = 10;
    let copied: HistoryEvent<&str, u8> = HistoryEvent::Copied { chat: moved, count: 3 };
    match parse_chat(&mut copy, copied) {
        HistoryAction::Fetch(request) => assert_eq!(request, moved.request),
        other => panic!("{other:?}"),
    }
    let none: HistoryEvent<&str, u8> = HistoryEvent::Messages(vec![]);
    assert!(matches!(parse_chat(&mut copy, none), HistoryAction::Finish(3)));
    assert_eq!(copy.stage, HistoryStage::Over);
}

#[test]
fn the_counts_of_pages_add_up() {
    let (mut copy, _) = HistoryCopy::new::<&str, u8>(channel());
    for count in [2, 0, 5] {
        parse_chat(&mut copy, HistoryEvent::Messages(vec![post(1)]));
        parse_chat::<&str, u8>(&mut copy, HistoryEvent::Copied { chat: channel(), count });
    }
    assert!(matches!(
        parse_chat::<&str, u8>(&mut copy, HistoryEvent::Other),
        HistoryAction::Finish(7)
    ));
}

#[test]
fn a_flood_wait_delays_a_page() {
    let (mut copy, _) = HistoryCopy::new::<&str, u8>(channel());
    let failure = Failure::Rpc { name: "FLOOD_WAIT".to_string(), value: Some(4) };
    let failed: HistoryEvent<u8, u8> = HistoryEvent::FetchFailed(failure);
    assert!(matches!(parse_chat(&mut copy, failed), HistoryAction::Sleep(4)));
    assert_eq!(copy.stage, HistoryStage::Wait);
    match parse_chat::<u8, u8>(&mut copy, HistoryEvent::Slept) {
        HistoryAction::Fetch(request) => assert_eq!(request, channel().request),
        other => panic!("{other:?}"),
    }
    assert_eq!(copy.stage, HistoryStage::Fetch);
}

#[test]
fn another_failure_ends_the_history() {
    let (mut copy, _) = HistoryCopy::new::<&str, u8>(channel());
    let failed: HistoryEvent<u8, u8> = HistoryEvent::FetchFailed(Failure::Other);
    assert!(matches!(parse_chat(&mut copy, failed), HistoryAction::Stop));
    assert_eq!(copy.stage, HistoryStage::Over);
}

#[test]
fn a_page_that_could_not_be_copied_ends_the_history() {
    let (mut copy, _) = HistoryCopy::new::<&str, u8>(channel());
    parse_chat(&mut copy, HistoryEvent::Messages(vec![post(1)]));
    parse_chat::<&str, u8>(&mut copy, HistoryEvent::Copied { chat: channel(), count: 2 });
    parse_chat(&mut copy, HistoryEvent::Messages(vec![post(2)]));
    let failed: HistoryEvent<&str, u8> = HistoryEvent::CopyFailed;
    assert!(matches!(parse_chat(&mut copy, failed), HistoryAction::Fail));
    assert_eq!((copy.stage, copy.count), (HistoryStage::Over, 2));
    assert_eq!(copy.chat, channel());
}

#[test]
fn what_can_come_in_while_posts_are_copied() {
    let unsupported = Incoming::Message(raw(11, None, Some(1), Some(RawMedia::Other(None))));
    let (mut copy, _) = PostCopy::new(channel(), destination(), vec![post(12), unsupported]);
    assert!(!copy.can_accept(PostEvent::Found(discussion(7))));
    assert!(!copy.can_accept(PostEvent::Sent(1)));
    assert!(copy.can_accept(PostEvent::NotFound));
    copy_messages(&mut copy, PostEvent::NotFound);
    assert!(copy.can_accept(PostEvent::Found(discussion(7))));
    copy_messages(&mut copy, PostEvent::Found(discussion(7)));
    assert!(copy.can_accept(PostEvent::Sent(1)));
    copy_messages(&mut copy, PostEvent::SendFailed);
    for later in [PostEvent::Sent(1), PostEvent::NotFound, PostEvent::Saved] {
        assert!(!copy.can_accept(later));
    }
}

#[test]
fn posts_are_copied_oldest_first() {
    let page = vec![
        post(12),
        Incoming::Message(raw(11, None, Some(1), Some(RawMedia::Other(Some("poll"))))),
    ];
    let (mut copy, action) = PostCopy::new(channel(), destination(), page);
    assert_eq!(action, PostAction::Find(11));
    assert_eq!(copy_messages(&mut copy, PostEvent::Found(discussion(7))), sent_there());
    match copy.outgoing() {
        Outgoing::Message { text, media, reply_to, entities } => {
            assert_eq!((text, media, reply_to), ("post 11", Some(&"poll"), None));
            assert_eq!(entities, &vec![1]);
        }
        other => panic!("{other:?}"),
    }
    assert_eq!(
        copy_messages(&mut copy, PostEvent::Sent(900)),
        PostAction::Record(MessageRow { id: 11, chat_id: 40, downloaded: true, forwarded: true })
    );
    assert_eq!(
        copy_messages(&mut copy, PostEvent::Recorded),
        PostAction::CopyComments {
            discussion: discussion(7),
            dst_chat: destination(),
            sent_id: 900,
        }
    );
    assert_eq!(copy_messages(&mut copy, PostEvent::CommentsCopied), PostAction::Find(12));
    assert_eq!(copy_messages(&mut copy, PostEvent::Found(discussion(8))), sent_there());
    assert_eq!(
        copy_messages(&mut copy, PostEvent::Sent(901)),
        PostAction::Record(MessageRow { id: 12, chat_id: 40, downloaded: false, forwarded: true })
    );
    copy_messages(&mut copy, PostEvent::Recorded);
    assert_eq!(copy.chat(), channel());
    assert_eq!(
        copy_messages(&mut copy, PostEvent::CommentsCopied),
        PostAction::Save(CursorRow { id: 40, offset_id: 13, min_id: 13, hash: 438086664215 })
    );
    assert_eq!(copy.chat().request.offset_id, 13);
    assert_eq!(copy_messages(&mut copy, PostEvent::Saved), PostAction::Finish(2));
}

#[test]
fn a_post_without_a_discussion_is_passed_over() {
    let (mut copy, action) = PostCopy::new(channel(), destination(), vec![post(12), post(11)]);
    assert_eq!(action, PostAction::Find(11));
    assert_eq!(copy_messages(&mut copy, PostEvent::NotFound), PostAction::Find(12));
    assert!(matches!(copy_messages(&mut copy, PostEvent::NotFound), PostAction::Save(_)));
    assert_eq!(copy_messages(&mut copy, PostEvent::Saved), PostAction::Finish(0));
}

#[test]
fn no_posts_are_left_to_copy() {
    let (copy, action) = PostCopy::<u8, u8>::new(channel(), destination(), vec![]);
    assert_eq!(
        action,
        PostAction::Save(CursorRow { id: 40, offset_id: 1, min_id: 1, hash: 0 })
    );
    assert_eq!((copy.chat().request.offset_id, copy.chat().request.min_id), (1, 1));
}

#[test]
fn a_failure_ends_a_page() {
    let (mut copy, _) = PostCopy::new(channel(), destination(), vec![post(12)]);
    copy_messages(&mut copy, PostEvent::Found(discussion(7)));
    assert_eq!(copy_messages(&mut copy, PostEvent::SendFailed), PostAction::Fail);
    let (mut copy, _) = PostCopy::new(channel(), destination(), vec![post(12)]);
    copy_messages(&mut copy, PostEvent::Found(discussion(7)));
    copy_messages(&mut copy, PostEvent::Sent(1));
    copy_messages(&mut copy, PostEvent::Recorded);
    assert_eq!(copy_messages(&mut copy, PostEvent::CommentsFailed), PostAction::Fail);
    assert_eq!(copy.chat(), channel());
}

#[test]
fn attachments_of_posts() {
    let media = |media| raw(1, None, None, media).into_post().media;
    assert_eq!(media(None), Attachment::Nothing);
    let document = RawMedia::Document { attributes: None, media: "d" };
    assert_eq!(media(Some(document)), Attachment::Media("d"));
    let photo = RawMedia::Photo { photo_id: None, media: "p" };
    assert_eq!(media(Some(photo)), Attachment::Media("p"));
    assert_eq!(media(Some(RawMedia::Other(Some("o")))), Attachment::Media("o"));
    assert_eq!(media(Some(RawMedia::Other(None))), Attachment::Unsupported);
}

#[test]
fn a_post_without_an_attachment_is_sent_as_text() {
    let post: Post<&str, u8> = raw(3, None, Some(1), None).into_post();
    match post.outgoing() {
        Outgoing::Message { text, media, reply_to, .. } => {
            assert_eq!((text, media, reply_to), ("post 3", None, None))
        }
        other => panic!("{other:?}"),
    }
}
