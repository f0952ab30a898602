use channel_copier::chat::{Chat, ChatPair, ChatRecord, ChatTable, CursorRow, GetHistory};
use channel_copier::cursor::Cursor;
use channel_copier::peer::{InputPeer, PackedChat, PackedType};

const TYPES: [(PackedType, grammers_session::PackedType); 6] = [
    (PackedType::User, grammers_session::PackedType::User),
    (PackedType::Bot, grammers_session::PackedType::Bot),
    (PackedType::Chat, grammers_session::PackedType::Chat),
    (PackedType::Megagroup, grammers_session::PackedType::Megagroup),
    (PackedType::Broadcast, grammers_session::PackedType::Broadcast),
    (PackedType::Gigagroup, grammers_session::PackedType::Gigagroup),
];

fn broadcast(id: i64) -> PackedChat {
    PackedChat { ty: PackedType::Broadcast, id, access_hash: Some(id * 10) }
}

fn hex(chat: &PackedChat) -> String {
    let ty = TYPES.iter().find(|(ty, _)| *ty == chat.ty).unwrap().1;
    grammers_session::PackedChat { ty, id: chat.id, access_hash: chat.access_hash }.to_hex()
}

fn record(chat: &PackedChat) -> ChatRecord {
    ChatRecord { id: 70, channel: hex(chat), offset_id: 41, min_id: 40, hash: 99 }
}

#[test]
fn hex_of_every_type_is_read() {
    for (ty, outside) in TYPES {
        for access_hash in [None, Some(0), Some(-77), Some(i64::MAX)] {
            let text =
                grammers_session::PackedChat { ty: outside, id: 123456789, access_hash }.to_hex();
            assert_eq!(
                PackedChat::from_hex(&text),
                Some(PackedChat { ty, id: 123456789, access_hash })
            );
        }
    }
}

#[test]
fn what_is_no_hex_is_not_read() {
    let good = hex(&broadcast(5));
    assert_eq!(good.len(), 34);
    assert_eq!(PackedChat::from_hex(""), None);
    assert_eq!(PackedChat::from_hex(&good[..33]), None);
    assert_eq!(PackedChat::from_hex(&good[..32]), None);
    assert_eq!(PackedChat::from_hex(&format!("{good}00")), None);
    assert_eq!(PackedChat::from_hex(&"z".repeat(34)), None);
    assert_eq!(PackedChat::from_hex(&"ä".repeat(17)), None);
    assert_eq!(PackedChat::from_hex(&"0".repeat(34)), None);
}

#[test]
fn addresses_agree_with_the_client() {
    for (ty, outside) in TYPES {
        for access_hash in [None, Some(8)] {
            let ours = PackedChat { ty, id: 4, access_hash }.to_input_peer();
            let theirs =
                grammers_session::PackedChat { ty: outside, id: 4, access_hash }.to_input_peer();
            let theirs = match theirs {
                grammers_tl_types::enums::InputPeer::User(p) => {
                    InputPeer::User { user_id: p.user_id, access_hash: p.access_hash }
                }
                grammers_tl_types::enums::InputPeer::Chat(p) => {
                    InputPeer::Chat { chat_id: p.chat_id }
                }
                grammers_tl_types::enums::InputPeer::Channel(p) => {
                    InputPeer::Channel { channel_id: p.channel_id, access_hash: p.access_hash }
                }
                _ => unreachable!(),
            };
            assert_eq!(ours, theirs);
        }
    }
}

#[test]
fn a_new_chat_is_read_from_the_start() {
    let chat = Chat::new(broadcast(3));
    assert_eq!(chat.chat, broadcast(3));
    assert_eq!(
        chat.request,
        GetHistory {
            peer: InputPeer::Channel { channel_id: 3, access_hash: 30 },
            offset_id: 1,
            offset_date: 0,
            add_offset: -30,
            limit: 30,
            max_id: 0,
            min_id: 0,
            hash: 0,
        }
    );
}

#[test]
fn a_stored_chat_is_read_on() {
    let stored = broadcast(3);
    let answered = PackedChat { access_hash: Some(1), ..stored };
    let chat = Chat::from_db_record(&record(&stored), answered).unwrap();
    assert_eq!(chat.chat, answered);
    assert_eq!(
        chat.request,
        GetHistory {
            peer: InputPeer::Channel { channel_id: 3, access_hash: 30 },
            offset_id: 41,
            offset_date: 0,
            add_offset: -30,
            limit: 30,
            max_id: 0,
            min_id: 40,
            hash: 99,
        }
    );
}

#[test]
fn a_record_of_no_chat_is_refused() {
    let broken = ChatRecord { channel: "00".to_string(), ..record(&broadcast(3)) };
    assert_eq!(broken.packed_chat(), None);
    assert_eq!(Chat::from_db_record(&broken, broadcast(3)), None);
    assert_eq!(Chat::from_chat(broadcast(3), Some((&broken, broadcast(3)))), None);
}

#[test]
fn a_chosen_chat_is_looked_up() {
    let chosen = broadcast(3);
    let answered = PackedChat { access_hash: None, ..chosen };
    assert_eq!(Chat::from_chat(chosen, None), Some(Chat::new(chosen)));
    let stored = record(&chosen);
    assert_eq!(
        Chat::from_chat(chosen, Some((&stored, answered))),
        Chat::from_db_record(&stored, answered)
    );
}

#[test]
fn record_ids() {
    assert_eq!(record(&broadcast(3)).id(), 70);
    assert_eq!(record(&broadcast(3)).packed_chat(), Some(broadcast(3)));
}

#[test]
fn a_chat_resumes_where_it_was_saved() {
    let mut chat = Chat::new(broadcast(3));
    let row = chat.advance(Cursor { offset_id: 55, hash: -7 });
    assert_eq!(row, CursorRow { id: 3, offset_id: 55, min_id: 55, hash: -7 });
    assert_eq!((chat.request.offset_id, chat.request.min_id, chat.request.hash), (55, 55, -7));
    let saved = ChatRecord {
        id: row.id,
        channel: hex(&broadcast(3)),
        offset_id: row.offset_id as i64,
        min_id: row.min_id as i64,
        hash: row.hash,
    };
    assert_eq!(Chat::from_db_record(&saved, broadcast(3)), Some(chat));
}

#[test]
fn the_first_chat_under_an_id_stays() {
    let mut table = ChatTable::new();
    let (a, b) = (Chat::new(broadcast(1)), Chat::new(broadcast(2)));
    assert_eq!(table.get(9), None);
    table.insert(9, a);
    table.insert(9, b);
    assert_eq!(table.get(9), Some(a));
    table.insert(8, b);
    assert_eq!(table.get(8), Some(b));
    assert_eq!(table.get(9), Some(a));
}

#[test]
fn a_pair_needs_both_chats() {
    let mut table = ChatTable::new();
    let (a, b) = (Chat::new(broadcast(1)), Chat::new(broadcast(2)));
    table.insert(1, a);
    assert_eq!(table.pair(&ChatPair { src_id: 1, dst_id: 2 }), None);
    assert_eq!(table.pair(&ChatPair { src_id: 2, dst_id: 1 }), None);
    table.insert(2, b);
    assert_eq!(table.pair(&ChatPair { src_id: 1, dst_id: 2 }), Some((a, b)));
    assert_eq!(table.pair(&ChatPair { src_id: 2, dst_id: 1 }), Some((b, a)));
}
