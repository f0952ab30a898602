use channel_copier::chat::CursorRow;
use channel_copier::cursor::Cursor;
use channel_copier::discussion::{
    Discussion, DiscussionRecord, GetDiscussionMessage, GetReplies, LookupAction, LookupError,
    LookupEvent, LookupStage, NewDiscussion, Peer, PostLookup, Thread, ThreadMessage,
};
use channel_copier::peer::{InputPeer, PackedChat, PackedType};

fn chat(ty: PackedType, id: i64) -> PackedChat {
    PackedChat { ty, id, access_hash: Some(id + 1) }
}

fn channel() -> PackedChat {
    chat(PackedType::Broadcast, 20)
}

fn group() -> PackedChat {
    chat(PackedType::Megagroup, 30)
}

fn record() -> DiscussionRecord {
    DiscussionRecord { id: 5, chat_id: 20, post_id: 7, msg_id: 88, offset_id: 3, min_id: 2, hash: 1 }
}

fn thread(messages: Vec<ThreadMessage>) -> Thread {
    Thread { messages, chats: vec![channel(), group(), chat(PackedType::Chat, 30)] }
}

fn start(id: i32, channel_id: i64) -> ThreadMessage {
    ThreadMessage::Message { id, peer: Peer::Channel { channel_id } }
}

#[test]
fn a_discussion_is_found() {
    let (mut lookup, first) = PostLookup::new(channel(), 7);
    assert_eq!(first, LookupAction::AskPost { chat: channel(), post_id: 7 });
    assert_eq!(
        Discussion::get_post_discussion(&mut lookup, LookupEvent::Posts(vec![Some(7)])),
        LookupAction::AskThread(GetDiscussionMessage {
            peer: InputPeer::Channel { channel_id: 20, access_hash: 21 },
            msg_id: 7,
        })
    );
    assert_eq!(lookup.stage, LookupStage::Thread);
    let answer = thread(vec![start(88, 30)]);
    assert!(answer.is_sound());
    assert_eq!(
        Discussion::get_post_discussion(&mut lookup, LookupEvent::Thread(answer)),
        LookupAction::Store(NewDiscussion { chat_id: 20, post_id: 7, msg_id: 88 })
    );
    assert_eq!(lookup.stage, LookupStage::Store { group: group() });
    assert_eq!(
        Discussion::get_post_discussion(&mut lookup, LookupEvent::Stored(record())),
        LookupAction::Found(Discussion {
            id: 5,
            chat: group(),
            request: GetReplies {
                peer: InputPeer::Channel { channel_id: 30, access_hash: 31 },
                msg_id: 88,
                offset_id: 3,
                offset_date: 0,
                add_offset: -30,
                limit: 30,
                max_id: 0,
                min_id: 2,
                hash: 1,
            },
        })
    );
    assert_eq!(lookup.stage, LookupStage::Over);
}

#[test]
fn a_post_that_is_gone_has_no_discussion() {
    for posts in [vec![], vec![None], vec![None, Some(3)]] {
        let (mut lookup, _) = PostLookup::new(channel(), -7);
        let error = LookupError::PostNotFound { post_id: -7 };
        assert_eq!(
            Discussion::get_post_discussion(&mut lookup, LookupEvent::Posts(posts)),
            LookupAction::Fail(error)
        );
        assert_eq!(lookup.stage, LookupStage::Over);
        assert_eq!(error.message(), "Specified message with id -7 cannot be found");
    }
}

#[test]
fn a_post_without_comments_has_no_discussion() {
    for messages in [vec![], vec![ThreadMessage::Other], vec![ThreadMessage::Other, start(1, 30)]] {
        let (mut lookup, _) = PostLookup::new(channel(), 7);
        Discussion::get_post_discussion(&mut lookup, LookupEvent::Posts(vec![Some(7)]));
        let answer = thread(messages);
        assert!(answer.is_sound());
        assert_eq!(
            Discussion::get_post_discussion(&mut lookup, LookupEvent::Thread(answer)),
            LookupAction::Fail(LookupError::NoThread)
        );
    }
    assert_eq!(LookupError::NoThread.message(), "Cannot find start message thread");
}

#[test]
fn answers_that_make_no_sense() {
    assert!(!thread(vec![start(1, 31)]).is_sound());
    for peer in [Peer::User, Peer::Chat] {
        assert!(!thread(vec![ThreadMessage::Message { id: 1, peer }]).is_sound());
    }
}

#[test]
fn the_first_of_two_chats_with_an_id_counts() {
    let (mut lookup, _) = PostLookup::new(channel(), 7);
    Discussion::get_post_discussion(&mut lookup, LookupEvent::Posts(vec![Some(7)]));
    let answer = thread(vec![start(88, 30)]);
    Discussion::get_post_discussion(&mut lookup, LookupEvent::Thread(answer));
    assert_eq!(lookup.stage, LookupStage::Store { group: group() });
}

#[test]
fn a_discussion_resumes_where_it_was_saved() {
    let mut discussion = Discussion::from_record(&record(), group());
    let row = discussion.advance(Cursor { offset_id: 60, hash: 12 });
    assert_eq!(row, CursorRow { id: 5, offset_id: 60, min_id: 60, hash: 12 });
    let saved = DiscussionRecord {
        offset_id: row.offset_id as i64,
        min_id: row.min_id as i64,
        hash: row.hash,
        ..record()
    };
    assert_eq!(Discussion::from_record(&saved, group()), discussion);
}
