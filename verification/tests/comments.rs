use channel_copier::chat::CursorRow;
use channel_copier::comments::{CommentAction, CommentCopy, CommentEvent, Stage};
use channel_copier::discussion::{Discussion, DiscussionRecord};
use channel_copier::message::{
    Incoming, Message, MessageRow, Outgoing, RawMedia, RawMessage,
};
use channel_copier::peer::{PackedChat, PackedType};
use channel_copier::retry::Failure;

type Copy = CommentCopy<u8, u8>;
type Event = CommentEvent<u8, u8>;
type Action = CommentAction<u8, u8>;

fn discussion(id: i64, msg_id: i64) -> Discussion {
    let record =
        DiscussionRecord { id, chat_id: 1, post_id: 2, msg_id, offset_id: 0, min_id: 0, hash: 0 };
    let chat = PackedChat { ty: PackedType::Megagroup, id: id * 100, access_hash: None };
    Discussion::from_record(&record, chat)
}

fn channel() -> PackedChat {
    PackedChat { ty: PackedType::Broadcast, id: 40, access_hash: None }
}

fn group() -> PackedChat {
    discussion(6, 60).chat
}

fn start() -> Copy {
    let (mut copy, _) = CommentCopy::new(discussion(5, 50), channel(), 33);
    step(&mut copy, CommentEvent::Found(discussion(6, 60)));
    copy
}

fn text(id: i32) -> Incoming<u8, u8> {
    Incoming::Message(RawMessage {
        id,
        via_bot_id: None,
        replies: None,
        grouped_id: None,
        message: format!("text {id}"),
        media: None,
        entities: None,
    })
}

fn part(id: i32, album: i64) -> Incoming<u8, u8> {
    Incoming::Message(RawMessage {
        id,
        via_bot_id: None,
        replies: None,
        grouped_id: Some(album),
        message: String::new(),
        media: Some(RawMedia::Photo { photo_id: Some(id as i64), media: 1 }),
        entities: None,
    })
}

fn rpc(name: &str, value: Option<u32>) -> Failure {
    Failure::Rpc { name: name.to_string(), value }
}

fn step(copy: &mut Copy, event: Event) -> Action {
    assert!(copy.can_accept(&event));
    Message::process_new_messages(copy, event)
}

fn is_send(action: Action) -> bool {
    matches!(action, CommentAction::Send(chat) if chat == group())
}

fn looked_up(action: Action) -> i32 {
    match action {
        CommentAction::LookUp(id) => id,
        other => panic!("{other:?}"),
    }
}

fn slept(action: Action) -> u64 {
    match action {
        CommentAction::Sleep(seconds) => seconds,
        other => panic!("{other:?}"),
    }
}

fn saved(action: Action) -> CursorRow {
    match action {
        CommentAction::Save(row) => row,
        other => panic!("{other:?}"),
    }
}

fn recorded(action: Action) -> Vec<MessageRow> {
    match action {
        CommentAction::Record(rows) => rows,
        other => panic!("{other:?}"),
    }
}

#[test]
fn copying_starts_with_the_search_for_the_target() {
    let (mut copy, action): (Copy, Action) = CommentCopy::new(discussion(5, 50), channel(), 33);
    assert_eq!(copy.stage(), Stage::Find);
    match action {
        CommentAction::Find { chat, post_id } => assert_eq!((chat, post_id), (channel(), 33)),
        other => panic!("{other:?}"),
    }
    match step(&mut copy, CommentEvent::Found(discussion(6, 60))) {
        CommentAction::Fetch(request) => assert_eq!(request, discussion(5, 50).request),
        other => panic!("{other:?}"),
    }
    assert_eq!(copy.stage(), Stage::Fetch);
}

#[test]
fn without_a_target_nothing_is_fetched() {
    let (mut copy, _): (Copy, Action) = CommentCopy::new(discussion(5, 50), channel(), 33);
    assert!(!copy.can_accept(&CommentEvent::Replies(vec![text(1)])));
    assert!(!copy.can_accept(&CommentEvent::Known(false)));
    assert!(matches!(step(&mut copy, CommentEvent::NotFound), CommentAction::Fail));
    assert_eq!(copy.stage(), Stage::Over);
    for later in [
        CommentEvent::Found(discussion(6, 60)),
        CommentEvent::NotFound,
        CommentEvent::Replies(vec![]),
        CommentEvent::Slept,
        CommentEvent::Saved,
    ] {
        assert!(!copy.can_accept(&later));
    }
}

#[test]
fn a_page_that_cannot_be_read_is_not_accepted() {
    let copy = start();
    assert!(!copy.can_accept(&CommentEvent::Replies(vec![part(6, 5), text(5)])));
    assert!(!copy.can_accept(&CommentEvent::Replies(vec![text(i32::MAX)])));
    assert!(copy.can_accept(&CommentEvent::Replies(vec![text(7), part(6, 5)])));
}

#[test]
fn a_page_is_copied_and_its_place_is_saved() {
    let mut copy = start();
    let action = step(&mut copy, CommentEvent::Replies(vec![text(12), text(11)]));
    assert_eq!(looked_up(action), 11);
    assert!(is_send(step(&mut copy, CommentEvent::Known(false))));
    match copy.outgoing() {
        Outgoing::Message { text, reply_to, .. } => {
            assert_eq!((text, reply_to), ("text 11", Some(60)))
        }
        other => panic!("{other:?}"),
    }
    let row = |id| MessageRow { id, chat_id: 500, downloaded: false, forwarded: false };
    assert_eq!(recorded(step(&mut copy, CommentEvent::Sent)), vec![row(11)]);
    assert_eq!(looked_up(step(&mut copy, CommentEvent::Recorded)), 12);
    step(&mut copy, CommentEvent::Known(false));
    assert_eq!(recorded(step(&mut copy, CommentEvent::Sent)), vec![row(12)]);
    let rest = slept(step(&mut copy, CommentEvent::Recorded));
    assert!((60..=180).contains(&rest));
    assert_eq!(copy.stage(), Stage::Rest);
    assert_eq!(
        saved(step(&mut copy, CommentEvent::Slept)),
        CursorRow { id: 5, offset_id: 13, min_id: 13, hash: 438086664215 }
    );
    match step(&mut copy, CommentEvent::Saved) {
        CommentAction::Fetch(request) => {
            assert_eq!((request.offset_id, request.min_id), (13, 13));
            assert_eq!(request.hash, 438086664215);
            assert_eq!(request.msg_id, 50);
        }
        other => panic!("{other:?}"),
    }
    assert!(matches!(step(&mut copy, CommentEvent::NotModified), CommentAction::Finish(2)));
    assert_eq!(copy.stage(), Stage::Over);
}

#[test]
fn an_empty_page_ends_copying() {
    let mut copy = start();
    assert!(matches!(step(&mut copy, CommentEvent::Replies(vec![])), CommentAction::Finish(0)));
    assert_eq!(copy.stage(), Stage::Over);
}

#[test]
fn what_is_stored_as_forwarded_is_not_sent() {
    let mut copy = start();
    step(&mut copy, CommentEvent::Replies(vec![text(12), text(11)]));
    assert_eq!(looked_up(step(&mut copy, CommentEvent::Known(true))), 12);
    slept(step(&mut copy, CommentEvent::Known(true)));
}

#[test]
fn a_page_without_comments_is_followed_by_a_rest() {
    let mut copy = start();
    let action = step(&mut copy, CommentEvent::Replies(vec![Incoming::Other { id: 4 }]));
    slept(action);
    assert_eq!(saved(step(&mut copy, CommentEvent::Slept)).offset_id, 5);
}

#[test]
fn an_album_is_stored_by_all_its_ids() {
    let mut copy = start();
    step(&mut copy, CommentEvent::Replies(vec![part(12, 7), part(11, 7)]));
    step(&mut copy, CommentEvent::Known(false));
    let row = |id| MessageRow { id, chat_id: 500, downloaded: true, forwarded: false };
    assert_eq!(recorded(step(&mut copy, CommentEvent::Sent)), vec![row(11), row(12)]);
    slept(step(&mut copy, CommentEvent::Recorded));
    step(&mut copy, CommentEvent::Slept);
    step(&mut copy, CommentEvent::Saved);
    assert!(matches!(step(&mut copy, CommentEvent::NotModified), CommentAction::Finish(1)));
}

#[test]
fn sending_is_repeated_after_a_flood_wait() {
    let mut copy = start();
    step(&mut copy, CommentEvent::Replies(vec![text(11)]));
    step(&mut copy, CommentEvent::Known(false));
    let failure = rpc("FLOOD_WAIT", Some(17));
    assert_eq!(slept(step(&mut copy, CommentEvent::SendFailed(failure))), 17);
    assert_eq!(copy.stage(), Stage::Hold);
    assert!(is_send(step(&mut copy, CommentEvent::Slept)));
    assert_eq!(recorded(step(&mut copy, CommentEvent::Sent))[0].id, 11);
}

#[test]
fn what_may_not_be_copied_is_downloaded() {
    let mut copy = start();
    step(&mut copy, CommentEvent::Replies(vec![text(13), part(12, 7), part(11, 7)]));
    step(&mut copy, CommentEvent::Known(false));
    let failure = rpc("CHAT_FORWARDS_RESTRICTED", None);
    match step(&mut copy, CommentEvent::SendFailed(failure)) {
        CommentAction::Queue(message) => {
            assert_eq!(message.id, vec![11, 12]);
            assert_eq!((message.src_chat_id, message.post_id), (5, 60));
            assert_eq!(message.dst_chat, group());
            assert!(message.file_paths.is_empty());
        }
        other => panic!("{other:?}"),
    }
    assert_eq!(looked_up(step(&mut copy, CommentEvent::Queued)), 13);
}

#[test]
fn another_failure_ends_copying_at_the_message() {
    let mut copy = start();
    step(&mut copy, CommentEvent::Replies(vec![text(12), text(11)]));
    step(&mut copy, CommentEvent::Known(true));
    step(&mut copy, CommentEvent::Known(false));
    assert_eq!(
        saved(step(&mut copy, CommentEvent::SendFailed(Failure::Other))),
        CursorRow { id: 5, offset_id: 12, min_id: 12, hash: 0 }
    );
    assert!(matches!(step(&mut copy, CommentEvent::Saved), CommentAction::Fail));
    assert_eq!(copy.stage(), Stage::Over);
}

#[test]
fn fetching_is_repeated_after_any_failure() {
    let mut copy = start();
    let failure = rpc("FLOOD_WAIT", None);
    assert_eq!(slept(step(&mut copy, CommentEvent::FetchFailed(failure))), 60);
    assert_eq!(copy.stage(), Stage::Wait);
    assert!(matches!(step(&mut copy, CommentEvent::Slept), CommentAction::Fetch(_)));
    assert_eq!(copy.stage(), Stage::Fetch);
    assert!(matches!(
        step(&mut copy, CommentEvent::FetchFailed(rpc("TIMEOUT", None))),
        CommentAction::Fetch(_)
    ));
    assert_eq!(copy.stage(), Stage::Fetch);
}

#[test]
fn every_tenth_page_is_followed_by_a_long_rest() {
    let mut copy = start();
    for _ in 1..10 {
        step(&mut copy, CommentEvent::FetchFailed(Failure::Other));
    }
    let rest = slept(step(&mut copy, CommentEvent::Replies(vec![Incoming::Other { id: 4 }])));
    assert!((1000..=1200).contains(&rest));
}

#[test]
fn forwarded_comments_send_nothing() {
    let mut copy = start();
    for page in [vec![text(12), text(11)], vec![part(15, 7), part(14, 7), text(13)]] {
        let mut action = step(&mut copy, CommentEvent::Replies(page));
        while copy.stage() == Stage::Check {
            looked_up(action);
            action = step(&mut copy, CommentEvent::Known(true));
        }
        slept(action);
        saved(step(&mut copy, CommentEvent::Slept));
        step(&mut copy, CommentEvent::Saved);
    }
    assert!(matches!(step(&mut copy, CommentEvent::NotModified), CommentAction::Finish(0)));
}

#[test]
fn the_messages_of_all_pages_are_counted() {
    let mut copy = start();
    for page in [vec![text(12), text(11)], vec![text(14), part(13, 7)]] {
        step(&mut copy, CommentEvent::Replies(page));
        step(&mut copy, CommentEvent::Known(false));
        step(&mut copy, CommentEvent::Sent);
        step(&mut copy, CommentEvent::Recorded);
        slept(step(&mut copy, CommentEvent::Known(true)));
        step(&mut copy, CommentEvent::Slept);
        step(&mut copy, CommentEvent::Saved);
    }
    assert!(matches!(step(&mut copy, CommentEvent::NotModified), CommentAction::Finish(2)));
}
