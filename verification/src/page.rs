//! Reading a page of comments: which messages are copied, and which of them
//! are sent together.

use crate::cursor::{cursor_after, page_cursor};
use crate::message::{
    DocumentAttribute, Incoming, Media, MediaView, Message, MessageData, MessageDataView,
    MessageParsed, MessageParsedView, MessageType, MessageTypeView, MessageView, MimeType, RawMedia,
    RawMessage, Target, Text, TextView,
};
use crate::text::{photo_file_name, photo_name, sanitize, sanitized};
use std::collections::BTreeMap;
use vstd::prelude::*;
use vstd::std_specs::cmp::OrdSpec;
use vstd::std_specs::iter::IteratorSpec;

verus! {

/// The first file name among the attributes of a document.
pub open spec fn file_name_in(attributes: Seq<DocumentAttribute>) -> Option<Seq<char>>
    decreases attributes.len(),
{
    if attributes.len() == 0 {
        None
    } else {
        match attributes[0] {
            DocumentAttribute::Filename(name) => Some(name@),
            DocumentAttribute::Other => file_name_in(attributes.skip(1)),
        }
    }
}

impl<M, E> RawMessage<M, E> {
    /// The attachment of the message under this file name.
    pub open spec fn attachment(self, file_name: Seq<char>, media: M, mime: MimeType) -> MediaView<
        M,
        E,
    > {
        MediaView {
            file_name,
            grouped_id: self.grouped_id,
            media,
            caption: self.message@,
            mime,
            entities: self.formatting(),
        }
    }

    /// What there is to copy: a document that has a file name, a photo, or a
    /// text. A document without a file name and a photo that is gone are left
    /// out, with their texts.
    pub open spec fn content(self) -> Option<MessageDataView<M, E>> {
        match self.media {
            Some(RawMedia::Document { attributes: Some(attributes), media }) => match file_name_in(
                attributes@,
            ) {
                Some(name) => Some(
                    MessageDataView::Media(
                        self.attachment(sanitized(name), media, MimeType::Doc),
                    ),
                ),
                None => None,
            },
            Some(RawMedia::Document { attributes: None, .. }) => None,
            Some(RawMedia::Photo { photo_id: Some(photo_id), media }) => Some(
                MessageDataView::Media(
                    self.attachment(photo_file_name(photo_id), media, MimeType::Photo),
                ),
            ),
            Some(RawMedia::Photo { photo_id: None, .. }) => None,
            _ => if self.message@.len() > 0 {
                Some(
                    MessageDataView::Text(
                        TextView { message: self.message@, entities: self.formatting() },
                    ),
                )
            } else {
                None
            },
        }
    }
}

impl<M, E> Incoming<M, E> {
    /// The comment that an entry of a page is copied as, if it is copied.
    pub open spec fn comment(self, target: Target) -> Option<MessageView<M, E>> {
        match self {
            Incoming::Message(message) => match message.content() {
                Some(data) => Some(
                    MessageView {
                        id: message.id,
                        forwarded: false,
                        src_chat_id: target.src_chat_id,
                        post_id: target.post_id,
                        dst_chat: target.dst_chat,
                        data,
                    },
                ),
                None => None,
            },
            Incoming::Other { .. } => None,
        }
    }
}

fn document_name(attributes: &Vec<DocumentAttribute>) -> (r: Option<String>)
    ensures
        match r {
            Some(name) => file_name_in(attributes@) is Some && name@ == sanitized(
                file_name_in(attributes@)->0,
            ),
            None => file_name_in(attributes@) is None,
        },
{
    let mut i: usize = 0;
    assert(attributes@.skip(0) =~= attributes@);
    while i < attributes.len()
        invariant
            i <= attributes.len(),
            file_name_in(attributes@) == file_name_in(attributes@.skip(i as int)),
        decreases attributes.len() - i,
    {
        assert(attributes@.skip(i as int).skip(1) =~= attributes@.skip(i + 1));
        match &attributes[i] {
            DocumentAttribute::Filename(name) => {
                return Some(sanitize(name.as_str()));
            },
            DocumentAttribute::Other => {},
        }
        i = i + 1;
    }
    None
}

fn formatting<E>(entities: Option<Vec<E>>) -> (r: Vec<E>)
    ensures
        r@ == (match entities {
            Some(e) => e@,
            None => Seq::empty(),
        }),
{
    match entities {
        Some(e) => e,
        None => Vec::new(),
    }
}

fn content<M, E>(message: RawMessage<M, E>) -> (r: Option<MessageData<M, E>>)
    ensures
        match r {
            Some(data) => message.content() == Some(data@),
            None => message.content() is None,
        },
{
    match message.media {
        Some(RawMedia::Document { attributes, media }) => match attributes {
            Some(attributes) => match document_name(&attributes) {
                Some(file_name) => Some(
                    MessageData::Media(
                        Media {
                            file_name,
                            grouped_id: message.grouped_id,
                            media,
                            caption: message.message,
                            mime: MimeType::Doc,
                            entities: formatting(message.entities),
                        },
                    ),
                ),
                None => None,
            },
            None => None,
        },
        Some(RawMedia::Photo { photo_id, media }) => match photo_id {
            Some(photo_id) => Some(
                MessageData::Media(
                    Media {
                        file_name: photo_name(photo_id),
                        grouped_id: message.grouped_id,
                        media,
                        caption: message.message,
                        mime: MimeType::Photo,
                        entities: formatting(message.entities),
                    },
                ),
            ),
            None => None,
        },
        _ => if message.message.as_str().is_empty() {
            None
        } else {
            Some(
                MessageData::Text(
                    Text { message: message.message, entities: formatting(message.entities) },
                ),
            )
        },
    }
}

/// The comment that an entry of a page is copied as, if it is copied.
pub fn read_comment<M, E>(entry: Incoming<M, E>, target: &Target) -> (r: Option<Message<M, E>>)
    ensures
        match r {
            Some(message) => entry.comment(*target) == Some(message@),
            None => entry.comment(*target) is None,
        },
{
    match entry {
        Incoming::Message(message) => {
            let id: i32 = message.id;
            match content(message) {
                Some(data) => Some(
                    Message {
                        id,
                        forwarded: false,
                        src_chat_id: target.src_chat_id,
                        post_id: target.post_id,
                        dst_chat: target.dst_chat,
                        data,
                    },
                ),
                None => None,
            }
        },
        Incoming::Other { .. } => None,
    }
}

/// The comments of a page, oldest first. The page lists the newest first.
pub open spec fn oldest_first<M, E>(page: Seq<Incoming<M, E>>, target: Target) -> Seq<
    MessageView<M, E>,
>
    decreases page.len(),
{
    if page.len() == 0 {
        Seq::empty()
    } else {
        let older = oldest_first(page.skip(1), target);
        match page[0].comment(target) {
            Some(message) => older.push(message),
            None => older,
        }
    }
}

/// The values of messages.
pub open spec fn message_values<M, E>(messages: Seq<Message<M, E>>) -> Seq<MessageView<M, E>> {
    messages.map_values(|m: Message<M, E>| m@)
}

/// The comments of a page, oldest first.
pub fn read_comments<M, E>(page: Vec<Incoming<M, E>>, target: &Target) -> (r: Vec<Message<M, E>>)
    ensures
        message_values(r@) == oldest_first(page@, *target),
{
    let mut unread = page;
    let mut messages: Vec<Message<M, E>> = Vec::new();
    assert(page@.skip(page@.len() as int) =~= Seq::empty());
    assert(message_values(messages@) =~= Seq::empty());
    while unread.len() > 0
        invariant
            unread.len() <= page.len(),
            unread@ == page@.take(unread.len() as int),
            message_values(messages@) == oldest_first(page@.skip(unread.len() as int), *target),
        decreases unread.len(),
    {
        let ghost n = unread.len() as int;
        let ghost before = messages@;
        if let Some(entry) = unread.pop() {
            assert(entry == page@[n - 1]);
            assert(page@.skip(n - 1)[0] == page@[n - 1]);
            assert(page@.skip(n - 1).skip(1) =~= page@.skip(n));
            assert(unread@ =~= page@.take(n - 1));
            if let Some(message) = read_comment(entry, target) {
                messages.push(message);
                assert(message_values(messages@) =~= message_values(before).push(message@));
            }
        }
    }
    assert(page@.skip(0) =~= page@);
    messages
}

impl<M, E> MessageView<M, E> {
    /// The album that the message is a part of, if it is a part of one.
    pub open spec fn album(self) -> Option<i64> {
        match self.data {
            MessageDataView::Media(media) => media.grouped_id,
            MessageDataView::Text(_) => None,
        }
    }

    /// What the message is filed under: its album, or else its own id.
    pub open spec fn key(self) -> i64 {
        match self.album() {
            Some(album) => album,
            None => self.id as i64,
        }
    }

    /// The message on its own; the first of its album if it is a part of one.
    pub open spec fn alone(self) -> MessageParsedView<M, E> {
        MessageParsedView {
            id: seq![self.id],
            forwarded: self.forwarded,
            src_chat_id: self.src_chat_id,
            post_id: self.post_id,
            dst_chat: self.dst_chat,
            data: match self.data {
                MessageDataView::Text(text) => MessageTypeView::Text(text),
                MessageDataView::Media(media) => if media.grouped_id is Some {
                    MessageTypeView::MultiMedia(seq![media])
                } else {
                    MessageTypeView::SingleMedia(media)
                },
            },
            file_paths: Seq::empty(),
        }
    }
}

impl<M, E> MessageParsedView<M, E> {
    /// An album with one more message in it.
    pub open spec fn joined(self, message: MessageView<M, E>) -> MessageParsedView<M, E> {
        match (self.data, message.data) {
            (
                MessageTypeView::MultiMedia(medias),
                MessageDataView::Media(media),
            ) => MessageParsedView {
                id: self.id.push(message.id),
                data: MessageTypeView::MultiMedia(medias.push(media)),
                ..self
            },
            _ => self,
        }
    }

    /// What is sent at a time is one text, one attachment, or an album of as
    /// many attachments as it has ids; and there is at most one file for every
    /// attachment.
    pub open spec fn well_formed(self) -> bool {
        &&& self.id.len() > 0
        &&& self.id.len() == (match self.data {
            MessageTypeView::MultiMedia(medias) => medias.len(),
            _ => 1,
        })
        &&& self.file_paths.len() <= self.data.medias().len()
    }

    /// Well formed, and no file was downloaded yet.
    pub open spec fn ready(self) -> bool {
        self.well_formed() && self.file_paths.len() == 0
    }
}

/// The messages filed so far, and one more: it joins its album if that is
/// there, and else takes the place under its key.
pub open spec fn filed<M, E>(
    groups: Map<i64, MessageParsedView<M, E>>,
    message: MessageView<M, E>,
) -> Map<i64, MessageParsedView<M, E>> {
    let key = message.key();
    if message.album() is Some && groups.contains_key(key) {
        groups.insert(key, groups[key].joined(message))
    } else {
        groups.insert(key, message.alone())
    }
}

/// Messages, filed one after the other.
pub open spec fn grouped<M, E>(messages: Seq<MessageView<M, E>>) -> Map<
    i64,
    MessageParsedView<M, E>,
>
    decreases messages.len(),
{
    if messages.len() == 0 {
        Map::empty()
    } else {
        filed(grouped(messages.drop_last()), messages.last())
    }
}

/// Whether no album has the key of a message that is filed before a part of the
/// album and belongs to none: the part would have nothing to join.
pub open spec fn mergeable<M, E>(messages: Seq<MessageView<M, E>>) -> bool {
    forall|i: int, j: int|
        0 <= i < j < messages.len() && (#[trigger] messages[j]).album() is Some && (
        #[trigger] messages[i]).key() == messages[j].key() ==> messages[i].album() is Some
}

/// Whether these are the keys of a map, each once, from the lowest to the
/// highest.
pub open spec fn lists_keys<V>(keys: Seq<i64>, map: Map<i64, V>) -> bool {
    &&& forall|i: int, j: int| 0 <= i < j < keys.len() ==> keys[i] < keys[j]
    &&& forall|key: i64| #[trigger] keys.contains(key) <==> map.contains_key(key)
}

/// The keys of a map from the lowest to the highest.
pub open spec fn sorted_keys<V>(map: Map<i64, V>) -> Seq<i64> {
    choose|keys: Seq<i64>| lists_keys(keys, map)
}

/// The values of a map in the order of their keys.
pub open spec fn in_key_order<V>(map: Map<i64, V>) -> Seq<V> {
    sorted_keys(map).map_values(|key: i64| map[key])
}

/// The values of what is sent.
pub open spec fn parsed_values<M, E>(messages: Seq<MessageParsed<M, E>>) -> Seq<
    MessageParsedView<M, E>,
> {
    messages.map_values(|m: MessageParsed<M, E>| m@)
}

proof fn lemma_key_lists_agree<V>(a: Seq<i64>, b: Seq<i64>, map: Map<i64, V>)
    requires
        lists_keys(a, map),
        lists_keys(b, map),
    ensures
        a == b,
    decreases a.len(),
{
    if a.len() == 0 {
        if b.len() > 0 {
            assert(b.contains(b[0]));
            assert(a.contains(b[0]));
        }
        assert(a =~= b);
    } else {
        assert(a.contains(a.last()));
        assert(b.contains(a.last()));
        let at = choose|i: int| 0 <= i < b.len() && b[i] == a.last();
        assert(b.contains(b.last()));
        assert(a.contains(b.last()));
        let bt = choose|i: int| 0 <= i < a.len() && a[i] == b.last();
        assert(a.last() == b.last()) by {
            if at < b.len() - 1 {
                assert(b[at] < b[b.len() - 1]);
                if bt < a.len() - 1 {
                    assert(a[bt] < a[a.len() - 1]);
                }
            }
        }
        let smaller = map.remove(a.last());
        assert(lists_keys(a.drop_last(), smaller)) by {
            lemma_drop_last_key(a, map);
        }
        assert(lists_keys(b.drop_last(), smaller)) by {
            lemma_drop_last_key(b, map);
        }
        lemma_key_lists_agree(a.drop_last(), b.drop_last(), smaller);
        assert(a =~= a.drop_last().push(a.last()));
        assert(b =~= b.drop_last().push(b.last()));
    }
}

proof fn lemma_drop_last_key<V>(keys: Seq<i64>, map: Map<i64, V>)
    requires
        keys.len() > 0,
        lists_keys(keys, map),
    ensures
        lists_keys(keys.drop_last(), map.remove(keys.last())),
{
    let fewer = keys.drop_last();
    let smaller = map.remove(keys.last());
    assert forall|key: i64| #[trigger] fewer.contains(key) <==> smaller.contains_key(key) by {
        if fewer.contains(key) {
            let i = choose|i: int| 0 <= i < fewer.len() && fewer[i] == key;
            assert(keys[i] == key);
            assert(keys[i] < keys[keys.len() - 1]);
            assert(keys.contains(key));
        }
        if smaller.contains_key(key) {
            assert(keys.contains(key));
            let i = choose|i: int| 0 <= i < keys.len() && keys[i] == key;
            assert(fewer[i] == key);
        }
    }
}

/// The keys of a map, listed, are its sorted keys.
proof fn lemma_sorted_keys<V>(keys: Seq<i64>, map: Map<i64, V>)
    requires
        lists_keys(keys, map),
    ensures
        sorted_keys(map) == keys,
{
    lemma_key_lists_agree(keys, sorted_keys(map), map);
}

proof fn lemma_album_keeps_place<M, E>(messages: Seq<MessageView<M, E>>, key: i64)
    requires
        forall|i: int|
            0 <= i < messages.len() && (#[trigger] messages[i]).key() == key
                ==> messages[i].album() is Some,
    ensures
        grouped(messages).contains_key(key) ==> grouped(messages)[key].data is MultiMedia,
    decreases messages.len(),
{
    if messages.len() > 0 {
        let earlier = messages.drop_last();
        assert forall|i: int|
            0 <= i < earlier.len() && (#[trigger] earlier[i]).key() == key implies earlier[i].album()
            is Some by {
            assert(earlier[i] == messages[i]);
        }
        lemma_album_keeps_place(earlier, key);
        assert(messages.last() == messages[messages.len() - 1]);
    }
}

proof fn lemma_mergeable_prefix<M, E>(messages: Seq<MessageView<M, E>>, n: int)
    requires
        mergeable(messages),
        0 <= n < messages.len(),
    ensures
        mergeable(messages.take(n)),
        messages[n].album() is Some && grouped(messages.take(n)).contains_key(messages[n].key())
            ==> grouped(messages.take(n))[messages[n].key()].data is MultiMedia,
{
    let earlier = messages.take(n);
    assert forall|i: int, j: int|
        0 <= i < j < earlier.len() && (#[trigger] earlier[j]).album() is Some && (
        #[trigger] earlier[i]).key() == earlier[j].key() implies earlier[i].album() is Some by {
        assert(earlier[i] == messages[i] && earlier[j] == messages[j]);
    }
    if messages[n].album() is Some {
        let key = messages[n].key();
        assert forall|i: int| 0 <= i < earlier.len() && (#[trigger] earlier[i]).key() == key implies
        earlier[i].album() is Some by {
            assert(earlier[i] == messages[i]);
        }
        lemma_album_keeps_place(earlier, key);
    }
}

impl<M, E> Message<M, E> {
    fn album(&self) -> (r: Option<i64>)
        ensures
            r == self@.album(),
    {
        match &self.data {
            MessageData::Media(media) => media.grouped_id,
            MessageData::Text(_) => None,
        }
    }

    fn key(&self) -> (r: i64)
        ensures
            r == self@.key(),
    {
        match self.album() {
            Some(album) => album,
            None => self.id as i64,
        }
    }

    fn alone(self) -> (r: MessageParsed<M, E>)
        ensures
            r@ == self@.alone(),
    {
        let mut id: Vec<i32> = Vec::new();
        id.push(self.id);
        let data = match self.data {
            MessageData::Text(text) => MessageType::Text(text),
            MessageData::Media(media) => {
                if media.grouped_id.is_some() {
                    let mut medias: Vec<Media<M, E>> = Vec::new();
                    medias.push(media);
                    assert(medias@.map_values(|m: Media<M, E>| m@) =~= seq![media@]);
                    MessageType::MultiMedia(medias)
                } else {
                    MessageType::SingleMedia(media)
                }
            },
        };
        let r = MessageParsed {
            id,
            forwarded: self.forwarded,
            src_chat_id: self.src_chat_id,
            post_id: self.post_id,
            dst_chat: self.dst_chat,
            data,
            file_paths: Vec::new(),
        };
        assert(r@.id =~= self@.alone().id);
        assert(r@.file_paths =~= self@.alone().file_paths);
        r
    }
}

impl<M, E> MessageParsed<M, E> {
    fn join(&mut self, message: Message<M, E>)
        requires
            old(self)@.data is MultiMedia,
            message@.album() is Some,
        ensures
            final(self)@ == old(self)@.joined(message@),
    {
        let id: i32 = message.id;
        if let MessageData::Media(media) = message.data {
            self.data.push_to_multi(media);
            self.id.push(id);
        }
    }
}

/// What filing a message depends on: its key, and whether it is a part of an
/// album.
pub open spec fn shape<M, E>(message: MessageView<M, E>) -> (i64, bool) {
    (message.key(), message.album() is Some)
}

/// The shapes of messages.
pub open spec fn shapes<M, E>(messages: Seq<MessageView<M, E>>) -> Seq<(i64, bool)> {
    messages.map_values(|m: MessageView<M, E>| shape(m))
}

spec fn shapes_merge(list: Seq<(i64, bool)>) -> bool {
    forall|i: int, j: int|
        0 <= i < j < list.len() && (#[trigger] list[j]).1 && (#[trigger] list[i]).0 == list[j].0
            ==> list[i].1
}

proof fn lemma_shapes_merge<M, E>(messages: Seq<MessageView<M, E>>)
    ensures
        mergeable(messages) == shapes_merge(shapes(messages)),
{
    let list = shapes(messages);
    if mergeable(messages) {
        assert forall|i: int, j: int|
            0 <= i < j < list.len() && (#[trigger] list[j]).1 && (#[trigger] list[i]).0
                == list[j].0 implies list[i].1 by {
            assert(messages[j].album() is Some && messages[i].key() == messages[j].key());
        }
    }
    if shapes_merge(list) {
        assert forall|i: int, j: int|
            0 <= i < j < messages.len() && (#[trigger] messages[j]).album() is Some && (
            #[trigger] messages[i]).key() == messages[j].key() implies messages[i].album()
            is Some by {
            assert(list[j].1 && list[i].0 == list[j].0);
        }
    }
}

fn can_merge_shapes(list: &Vec<(i64, bool)>) -> (r: bool)
    ensures
        r == shapes_merge(list@),
{
    let mut j: usize = 0;
    while j < list.len()
        invariant
            j <= list.len(),
            forall|a: int, b: int|
                0 <= a < b < j && (#[trigger] list@[b]).1 && (#[trigger] list@[a]).0 == list@[b].0
                    ==> list@[a].1,
        decreases list.len() - j,
    {
        let (key, part): (i64, bool) = list[j];
        if part {
            let mut i: usize = 0;
            while i < j
                invariant
                    i <= j < list.len(),
                    list@[j as int] == (key, true),
                    forall|a: int| 0 <= a < i && (#[trigger] list@[a]).0 == key ==> list@[a].1,
                decreases j - i,
            {
                let (other, other_part): (i64, bool) = list[i];
                if other == key && !other_part {
                    assert(list@[j as int].1 && list@[i as int].0 == list@[j as int].0);
                    return false;
                }
                i = i + 1;
            }
        }
        j = j + 1;
    }
    true
}

/// Whether every message can be filed: see `mergeable`.
pub fn can_merge<M, E>(messages: &Vec<Message<M, E>>) -> (r: bool)
    ensures
        r == mergeable(message_values(messages@)),
{
    let ghost values = message_values(messages@);
    let mut list: Vec<(i64, bool)> = Vec::new();
    let mut i: usize = 0;
    while i < messages.len()
        invariant
            i <= messages.len(),
            values == message_values(messages@),
            list.len() == i,
            forall|k: int| 0 <= k < i ==> #[trigger] list@[k] == shape(values[k]),
        decreases messages.len() - i,
    {
        list.push((messages[i].key(), messages[i].album().is_some()));
        i = i + 1;
    }
    assert(list@ =~= shapes(values));
    proof {
        lemma_shapes_merge(values);
    }
    can_merge_shapes(&list)
}

/// The values of the groups of a map.
pub open spec fn group_values<M, E>(groups: Map<i64, MessageParsed<M, E>>) -> Map<
    i64,
    MessageParsedView<M, E>,
> {
    groups.map_values(|m: MessageParsed<M, E>| m@)
}

fn keys_in_order<V>(map: &BTreeMap<i64, V>) -> (r: Vec<i64>)
    ensures
        lists_keys(r@, map@),
{
    let mut keys: Vec<i64> = Vec::new();
    let entries = map.iter();
    let ghost list = entries.remaining();
    for entry in iter: entries
        invariant
            iter.seq() == list,
            keys.len() == iter.index(),
            forall|i: int| 0 <= i < keys.len() ==> keys@[i] == *(#[trigger] list[i]).0,
    {
        keys.push(*entry.0);
    }
    proof {
        assert(keys@ =~= list.map_values(|entry: (&i64, &V)| *entry.0));
        assert(vstd::std_specs::btree::increasing_seq(keys@));
        assert forall|i: int, j: int| 0 <= i < j < keys.len() implies keys@[i] < keys@[j] by {
            assert(keys@[i].cmp_spec(&keys@[j]) is Less);
        }
        assert forall|key: i64| #[trigger] keys@.contains(key) <==> map@.contains_key(key) by {
            if keys@.contains(key) {
                let i = choose|i: int| 0 <= i < keys.len() && keys@[i] == key;
                assert(map@.contains_key(*list[i].0));
            }
            if map@.contains_key(key) {
                assert(list.contains((&key, &map@[key])));
                let i = choose|i: int| 0 <= i < list.len() && list[i] == (&key, &map@[key]);
                assert(keys@[i] == key);
            }
        }
    }
    keys
}

/// Puts messages, oldest first, together for sending: the parts of an album as
/// one, everything else on its own, in the order of the keys that they are filed
/// under.
pub fn group_messages<M, E>(messages: Vec<Message<M, E>>) -> (r: Vec<MessageParsed<M, E>>)
    requires
        mergeable(message_values(messages@)),
    ensures
        parsed_values(r@) == in_key_order(grouped(message_values(messages@))),
{
    let ghost values = message_values(messages@);
    let mut groups: BTreeMap<i64, MessageParsed<M, E>> = BTreeMap::new();
    assert(values.take(0) =~= Seq::empty());
    assert(group_values(groups@) =~= grouped(values.take(0)));
    for message in iter: messages
        invariant
            values == message_values(messages@),
            iter.seq() == messages@,
            mergeable(values),
            group_values(groups@) == grouped(values.take(iter.index() as int)),
    {
        let ghost n = iter.index() as int;
        let ghost before = groups@;
        let ghost value = message@;
        proof {
            assert(message@ == values[n]);
            assert(values.take(n + 1).drop_last() =~= values.take(n));
            assert(values.take(n + 1).last() == values[n]);
            lemma_mergeable_prefix(values, n);
            assert(group_values(before).contains_key(value.key()) == before.contains_key(
                value.key(),
            ));
        }
        let key: i64 = message.key();
        let group = match (message.album(), groups.remove(&key)) {
            (Some(_), Some(mut group)) => {
                group.join(message);
                group
            },
            _ => message.alone(),
        };
        groups.insert(key, group);
        assert(group_values(groups@) =~= filed(group_values(before), value));
    }
    assert(values.take(values.len() as int) =~= values);
    let keys = keys_in_order(&groups);
    let ghost all = groups@;
    proof {
        assert forall|k: int| 0 <= k < keys.len() implies all.contains_key(#[trigger] keys@[k]) by {
            assert(keys@.contains(keys@[k]));
        }
        assert(lists_keys(keys@, group_values(all)));
        lemma_sorted_keys(keys@, grouped(values));
    }
    let mut sent: Vec<MessageParsed<M, E>> = Vec::new();
    let mut i: usize = 0;
    while i < keys.len()
        invariant
            i <= keys.len(),
            lists_keys(keys@, all),
            sent.len() == i,
            forall|k: int|
                i <= k < keys.len() ==> groups@.contains_key(#[trigger] keys@[k]) && groups@[keys@[k]]
                    == all[keys@[k]],
            forall|k: int| 0 <= k < i ==> (#[trigger] sent@[k])@ == all[keys@[k]]@,
        decreases keys.len() - i,
    {
        if let Some(group) = groups.remove(&keys[i]) {
            sent.push(group);
        }
        i = i + 1;
    }
    assert forall|k: int| 0 <= k < sent.len() implies (#[trigger] sent@[k])@ == grouped(
        values,
    )[keys@[k]] by {
        assert(all.contains_key(keys@[k]));
    }
    assert(parsed_values(sent@) =~= in_key_order(grouped(values)));
    sent
}

/// The ids of a page, in page order.
pub open spec fn ids_of<M, E>(page: Seq<Incoming<M, E>>) -> Seq<i32> {
    page.map_values(|entry: Incoming<M, E>| entry.id())
}

/// Whether a page can be read: the place after it can be computed without
/// overflow, and its messages can be filed.
pub open spec fn readable<M, E>(page: Seq<Incoming<M, E>>, target: Target) -> bool {
    &&& cursor_after(ids_of(page)) is Some
    &&& mergeable(oldest_first(page, target))
}

/// What is sent for a page, in order.
pub open spec fn page_messages<M, E>(page: Seq<Incoming<M, E>>, target: Target) -> Seq<
    MessageParsedView<M, E>,
> {
    in_key_order(grouped(oldest_first(page, target)))
}

/// The ids of a page, in page order.
pub fn page_ids<M, E>(page: &Vec<Incoming<M, E>>) -> (r: Vec<i32>)
    ensures
        r@ == ids_of(page@),
{
    let mut ids: Vec<i32> = Vec::new();
    let mut i: usize = 0;
    while i < page.len()
        invariant
            i <= page.len(),
            ids@ == ids_of(page@).take(i as int),
        decreases page.len() - i,
    {
        ids.push(page[i].id());
        i = i + 1;
        assert(ids@ =~= ids_of(page@).take(i as int));
    }
    assert(ids_of(page@).take(i as int) =~= ids_of(page@));
    ids
}

impl<M, E> Incoming<M, E> {
    fn shape(&self) -> (r: Option<(i64, bool)>)
        ensures
            forall|target: Target|
                r == (match #[trigger] self.comment(target) {
                    Some(message) => Some(shape(message)),
                    None => None,
                }),
    {
        match self {
            Incoming::Message(message) => {
                let album: Option<i64> = message.grouped_id;
                let kept: Option<bool> = match &message.media {
                    Some(RawMedia::Document { attributes, .. }) => match attributes {
                        Some(attributes) => match document_name(attributes) {
                            Some(_) => Some(true),
                            None => None,
                        },
                        None => None,
                    },
                    Some(RawMedia::Photo { photo_id, .. }) => match photo_id {
                        Some(_) => Some(true),
                        None => None,
                    },
                    _ => if message.message.as_str().is_empty() {
                        None
                    } else {
                        Some(false)
                    },
                };
                match (kept, album) {
                    (Some(true), Some(album)) => Some((album, true)),
                    (Some(_), _) => Some((message.id as i64, false)),
                    (None, _) => None,
                }
            },
            Incoming::Other { .. } => None,
        }
    }
}

/// Whether a page can be read, wherever its comments go: see `readable`.
pub fn is_readable<M, E>(page: &Vec<Incoming<M, E>>) -> (r: bool)
    ensures
        forall|target: Target| r == #[trigger] readable(page@, target),
{
    if page_cursor(&page_ids(page)).is_none() {
        return false;
    }
    let mut list: Vec<(i64, bool)> = Vec::new();
    let mut left: usize = page.len();
    assert(page@.skip(left as int) =~= Seq::empty());
    assert forall|target: Target| list@ == shapes(
        #[trigger] oldest_first(page@.skip(left as int), target),
    ) by {
        assert(list@ =~= shapes(oldest_first(page@.skip(left as int), target)));
    }
    while left > 0
        invariant
            left <= page.len(),
            forall|target: Target| list@ == shapes(
                #[trigger] oldest_first(page@.skip(left as int), target),
            ),
        decreases left,
    {
        let ghost before = list@;
        let ghost rest = page@.skip(left as int);
        left = left - 1;
        let found = page[left].shape();
        if let Some(pair) = found {
            list.push(pair);
        }
        assert forall|target: Target| list@ == shapes(
            #[trigger] oldest_first(page@.skip(left as int), target),
        ) by {
            assert(page@.skip(left as int)[0] == page@[left as int]);
            assert(page@.skip(left as int).skip(1) =~= rest);
            assert(before == shapes(oldest_first(rest, target)));
            let comment = page@[left as int].comment(target);
            assert(list@ =~= shapes(oldest_first(page@.skip(left as int), target)));
        }
    }
    assert(page@.skip(0) =~= page@);
    let r = can_merge_shapes(&list);
    assert forall|target: Target| r == #[trigger] readable(page@, target) by {
        lemma_shapes_merge(oldest_first(page@, target));
        assert(list@ == shapes(oldest_first(page@, target)));
    }
    r
}

/// Whatever is put together from messages is well formed: an album has as many
/// attachments as ids, anything else has one id. It comes without files.
pub proof fn law_groups_well_formed<M, E>(messages: Seq<MessageView<M, E>>)
    requires
        mergeable(messages),
    ensures
        forall|key: i64| #[trigger]
            grouped(messages).contains_key(key) ==> grouped(messages)[key].ready(),
    decreases messages.len(),
{
    if messages.len() > 0 {
        let n = messages.len() - 1;
        assert(messages.drop_last() =~= messages.take(n));
        lemma_mergeable_prefix(messages, n);
        law_groups_well_formed(messages.drop_last());
        let earlier = grouped(messages.drop_last());
        let message = messages.last();
        assert forall|key: i64| #[trigger] grouped(messages).contains_key(key) implies grouped(
            messages,
        )[key].ready() by {
            if key == message.key() {
                if message.album() is Some && earlier.contains_key(key) {
                    assert(earlier[key].ready());
                }
            } else {
                assert(earlier.contains_key(key));
            }
        }
    }
}

proof fn lemma_key_can_be_added<V>(keys: Seq<i64>, map: Map<i64, V>, key: i64, value: V)
    requires
        lists_keys(keys, map),
    ensures
        exists|more: Seq<i64>| lists_keys(more, map.insert(key, value)),
    decreases keys.len(),
{
    let grown = map.insert(key, value);
    if map.contains_key(key) {
        assert(lists_keys(keys, grown));
    } else if keys.len() == 0 || keys.last() < key {
        let more = keys.push(key);
        assert forall|k: i64| #[trigger] more.contains(k) <==> grown.contains_key(k) by {
            if keys.contains(k) {
                let i = choose|i: int| 0 <= i < keys.len() && keys[i] == k;
                assert(more[i] == k);
            }
            assert(more[keys.len() as int] == key);
            if more.contains(k) && k != key {
                let i = choose|i: int| 0 <= i < more.len() && more[i] == k;
                assert(keys[i] == k);
            }
        }
        assert forall|i: int, j: int| 0 <= i < j < more.len() implies more[i] < more[j] by {
            if j == keys.len() && i < keys.len() - 1 {
                assert(keys[i] < keys[keys.len() - 1]);
            }
        }
        assert(lists_keys(more, grown));
    } else {
        assert(keys.contains(keys.last()));
        let last = keys.last();
        lemma_drop_last_key(keys, map);
        lemma_key_can_be_added(keys.drop_last(), map.remove(last), key, value);
        let smaller = map.remove(last).insert(key, value);
        let fewer = choose|f: Seq<i64>| lists_keys(f, smaller);
        let more = fewer.push(last);
        assert forall|i: int, j: int| 0 <= i < j < more.len() implies more[i] < more[j] by {
            if j == fewer.len() {
                assert(fewer.contains(fewer[i]));
                let k = fewer[i];
                if k != key {
                    assert(keys.contains(k));
                    let p = choose|p: int| 0 <= p < keys.len() && keys[p] == k;
                    assert(keys[p] < keys[keys.len() - 1]);
                }
            }
        }
        assert forall|k: i64| #[trigger] more.contains(k) <==> grown.contains_key(k) by {
            if fewer.contains(k) {
                let i = choose|i: int| 0 <= i < fewer.len() && fewer[i] == k;
                assert(more[i] == k);
            }
            assert(more[fewer.len() as int] == last);
            if more.contains(k) && k != last {
                let i = choose|i: int| 0 <= i < more.len() && more[i] == k;
                assert(fewer[i] == k);
                assert(fewer.contains(k));
            }
            if grown.contains_key(k) && k != last {
                assert(smaller.contains_key(k));
                assert(fewer.contains(k));
            }
        }
        assert(lists_keys(more, grown));
    }
}

/// What is put together from messages has a first and a next: its keys can be
/// listed in ascending order, and it is sent in that order.
pub proof fn law_groups_have_an_order<M, E>(messages: Seq<MessageView<M, E>>)
    ensures
        lists_keys(sorted_keys(grouped(messages)), grouped(messages)),
        in_key_order(grouped(messages)).len() == sorted_keys(grouped(messages)).len(),
    decreases messages.len(),
{
    if messages.len() == 0 {
        let none = Seq::<i64>::empty();
        assert(lists_keys(none, grouped(messages)));
    } else {
        let earlier = grouped(messages.drop_last());
        law_groups_have_an_order(messages.drop_last());
        let message = messages.last();
        lemma_key_can_be_added(
            sorted_keys(earlier),
            earlier,
            message.key(),
            grouped(messages)[message.key()],
        );
    }
}

/// What is sent for a page is well formed and without files, whatever the page.
pub proof fn law_page_well_formed<M, E>(page: Seq<Incoming<M, E>>, target: Target)
    requires
        mergeable(oldest_first(page, target)),
    ensures
        forall|i: int|
            0 <= i < page_messages(page, target).len() ==> (#[trigger] page_messages(
                page,
                target,
            )[i]).ready(),
{
    let messages = oldest_first(page, target);
    law_groups_well_formed(messages);
    law_groups_have_an_order(messages);
    let keys = sorted_keys(grouped(messages));
    assert forall|i: int| 0 <= i < in_key_order(grouped(messages)).len() implies (
    #[trigger] in_key_order(grouped(messages))[i]).ready() by {
        assert(keys.contains(keys[i]));
    }
}

/// Whether two messages share a key only as parts of one album.
pub open spec fn unmixed<M, E>(messages: Seq<MessageView<M, E>>) -> bool {
    forall|i: int, j: int|
        0 <= i < j < messages.len() && (#[trigger] messages[i]).key() == (
        #[trigger] messages[j]).key() ==> messages[i].album() is Some && messages[j].album() is Some
}

/// The messages with a key, oldest first.
pub open spec fn with_key<M, E>(messages: Seq<MessageView<M, E>>, key: i64) -> Seq<
    MessageView<M, E>,
> {
    messages.filter(|m: MessageView<M, E>| m.key() == key)
}

proof fn lemma_with_key_absent<M, E>(messages: Seq<MessageView<M, E>>, key: i64)
    requires
        forall|i: int| 0 <= i < messages.len() ==> (#[trigger] messages[i]).key() != key,
    ensures
        with_key(messages, key).len() == 0,
    decreases messages.len(),
{
    reveal(Seq::filter);
    if messages.len() > 0 {
        assert(messages.last() == messages[messages.len() - 1]);
        let earlier = messages.drop_last();
        assert forall|i: int| 0 <= i < earlier.len() implies (#[trigger] earlier[i]).key() != key by {
            assert(earlier[i] == messages[i]);
        }
        lemma_with_key_absent(earlier, key);
    }
}

proof fn lemma_kind_of_group<M, E>(messages: Seq<MessageView<M, E>>, key: i64)
    requires
        unmixed(messages),
        grouped(messages).contains_key(key),
    ensures
        grouped(messages)[key].data is MultiMedia <==> exists|i: int|
            0 <= i < messages.len() && (#[trigger] messages[i]).key() == key
                && messages[i].album() is Some,
    decreases messages.len(),
{
    let n = messages.len() - 1;
    let earlier = messages.drop_last();
    let message = messages[n];
    assert forall|i: int, j: int|
        0 <= i < j < earlier.len() && (#[trigger] earlier[i]).key() == (
        #[trigger] earlier[j]).key() implies earlier[i].album() is Some && earlier[j].album()
        is Some by {
        assert(earlier[i] == messages[i] && earlier[j] == messages[j]);
    }
    if grouped(earlier).contains_key(key) {
        lemma_kind_of_group(earlier, key);
        assert forall|i: int| 0 <= i < earlier.len() implies earlier[i] == #[trigger] messages[i] by {}
    }
    if message.key() == key {
        assert forall|i: int| 0 <= i < n && (#[trigger] messages[i]).key() == key implies
        messages[i].album() is Some && message.album() is Some by {
            assert(messages[i].key() == messages[n].key());
        }
        if message.album() is Some {
            assert forall|i: int| 0 <= i < earlier.len() && (#[trigger] earlier[i]).key() == key implies
            earlier[i].album() is Some by {
                assert(messages[i].key() == key);
            }
            lemma_album_keeps_place(earlier, key);
        }
    } else {
        assert(grouped(earlier).contains_key(key));
        if exists|i: int|
            0 <= i < earlier.len() && (#[trigger] earlier[i]).key() == key && earlier[i].album()
                is Some {
            let i = choose|i: int|
                0 <= i < earlier.len() && (#[trigger] earlier[i]).key() == key && earlier[i].album()
                    is Some;
            assert(messages[i].key() == key && messages[i].album() is Some);
        }
        if exists|i: int|
            0 <= i < messages.len() && (#[trigger] messages[i]).key() == key
                && messages[i].album() is Some {
            let i = choose|i: int|
                0 <= i < messages.len() && (#[trigger] messages[i]).key() == key
                    && messages[i].album() is Some;
            assert(earlier[i].key() == key && earlier[i].album() is Some);
        }
    }
}

/// No comment is lost and none is sent twice: what is filed under a key stands
/// for the messages with that key, all of them, oldest first. A key is used just
/// where a message has it, and it is that of an album just where a message with
/// it is a part of one.
pub proof fn law_every_comment_once<M, E>(messages: Seq<MessageView<M, E>>, key: i64)
    requires
        unmixed(messages),
    ensures
        grouped(messages).contains_key(key) <==> exists|i: int|
            0 <= i < messages.len() && (#[trigger] messages[i]).key() == key,
        grouped(messages).contains_key(key) ==> grouped(messages)[key].id == with_key(
            messages,
            key,
        ).map_values(|m: MessageView<M, E>| m.id),
        grouped(messages).contains_key(key) ==> grouped(messages)[key].data.medias() == (
        with_key(messages, key).filter(|m: MessageView<M, E>| m.data is Media)).map_values(
            |m: MessageView<M, E>| m.data->Media_0,
        ),
        grouped(messages).contains_key(key) ==> (grouped(messages)[key].data is MultiMedia
            <==> exists|i: int|
            0 <= i < messages.len() && (#[trigger] messages[i]).key() == key
                && messages[i].album() is Some),
    decreases messages.len(),
{
    reveal(Seq::filter);
    if grouped(messages).contains_key(key) {
        lemma_kind_of_group(messages, key);
    }
    if messages.len() > 0 {
        let earlier = messages.drop_last();
        let message = messages.last();
        let n = messages.len() - 1;
        assert(message == messages[n]);
        assert forall|i: int, j: int|
            0 <= i < j < earlier.len() && (#[trigger] earlier[i]).key() == (
            #[trigger] earlier[j]).key() implies earlier[i].album() is Some && earlier[j].album()
            is Some by {
            assert(earlier[i] == messages[i] && earlier[j] == messages[j]);
        }
        law_every_comment_once(earlier, key);
        let id = |m: MessageView<M, E>| m.id;
        let is_media = |m: MessageView<M, E>| m.data is Media;
        let media = |m: MessageView<M, E>| m.data->Media_0;
        assert(grouped(messages).contains_key(key) <==> exists|i: int|
            0 <= i < messages.len() && (#[trigger] messages[i]).key() == key) by {
            if grouped(earlier).contains_key(key) {
                let i = choose|i: int| 0 <= i < earlier.len() && (#[trigger] earlier[i]).key() == key;
                assert(messages[i].key() == key);
            }
            if exists|i: int| 0 <= i < messages.len() && (#[trigger] messages[i]).key() == key {
                let i = choose|i: int|
                    0 <= i < messages.len() && (#[trigger] messages[i]).key() == key;
                if i < n {
                    assert(earlier[i].key() == key);
                }
            }
        }
        if message.key() == key {
            assert(with_key(messages, key) =~= with_key(earlier, key).push(message));
            if grouped(earlier).contains_key(key) {
                let i = choose|i: int| 0 <= i < earlier.len() && (#[trigger] earlier[i]).key() == key;
                assert(messages[i].key() == messages[n].key());
                assert forall|k: int|
                    0 <= k < earlier.len() && (#[trigger] earlier[k]).key() == key implies
                earlier[k].album() is Some by {
                    assert(messages[k].key() == messages[n].key());
                }
                lemma_album_keeps_place(earlier, key);
            } else {
                assert forall|k: int| 0 <= k < earlier.len() implies (
                #[trigger] earlier[k]).key() != key by {}
                lemma_with_key_absent(earlier, key);
            }
            let e = with_key(earlier, key);
            assert(e.push(message).drop_last() =~= e);
            assert(e.push(message).map_values(id) =~= e.map_values(id).push(message.id));
            assert(e.push(message).filter(is_media) == if message.data is Media {
                e.filter(is_media).push(message)
            } else {
                e.filter(is_media)
            });
            if message.data is Media {
                assert(e.filter(is_media).push(message).map_values(media) =~= e.filter(
                    is_media,
                ).map_values(media).push(media(message)));
            }
            assert(grouped(messages)[key].id =~= with_key(messages, key).map_values(id));
            assert(grouped(messages)[key].data.medias() =~= with_key(messages, key).filter(
                is_media,
            ).map_values(media));
        } else {
            assert(with_key(messages, key) =~= with_key(earlier, key));
        }
    }
}

/// The name of a document is the first file name among its attributes, wherever it
/// stands; a document has none just where no attribute is a file name.
pub proof fn law_first_file_name_counts(attributes: Seq<DocumentAttribute>, k: int)
    requires
        0 <= k <= attributes.len(),
        forall|i: int| 0 <= i < k ==> (#[trigger] attributes[i]) is Other,
    ensures
        k < attributes.len() ==> (attributes[k] matches DocumentAttribute::Filename(name)
            ==> file_name_in(attributes) == Some(name@)),
        k == attributes.len() ==> file_name_in(attributes) is None,
    decreases attributes.len(),
{
    if k > 0 {
        let rest = attributes.skip(1);
        assert forall|i: int| 0 <= i < k - 1 implies (#[trigger] rest[i]) is Other by {
            assert(rest[i] == attributes[i + 1]);
        }
        assert(attributes[0] is Other);
        law_first_file_name_counts(rest, k - 1);
        if k < attributes.len() {
            assert(rest[k - 1] == attributes[k]);
        }
    }
}

/// A document whose first file name is this is copied as a document under the
/// sanitized name, with its text as the caption, and as a part of its album.
pub proof fn law_document_is_copied<M, E>(
    message: RawMessage<M, E>,
    attributes: Vec<DocumentAttribute>,
    media: M,
    k: int,
    name: String,
    target: Target,
)
    requires
        message.media == Some(RawMedia::Document { attributes: Some(attributes), media }),
        0 <= k < attributes@.len(),
        attributes@[k] == DocumentAttribute::Filename(name),
        forall|i: int| 0 <= i < k ==> (#[trigger] attributes@[i]) is Other,
    ensures
        Incoming::Message(message).comment(target) matches Some(comment) && (
        comment.data matches MessageDataView::Media(m) && m.file_name == sanitized(name@) && m.mime
            is Doc && m.media == media && m.caption == message.message@ && m.grouped_id
            == message.grouped_id && m.entities == message.formatting()),
{
    law_first_file_name_counts(attributes@, k);
}

/// A photo that is there is copied as a photo under its id, with its text as the
/// caption, and as a part of its album.
pub proof fn law_photo_is_copied<M, E>(
    message: RawMessage<M, E>,
    photo_id: i64,
    media: M,
    target: Target,
)
    requires
        message.media == Some(RawMedia::Photo { photo_id: Some(photo_id), media }),
    ensures
        Incoming::Message(message).comment(target) matches Some(comment) && (
        comment.data matches MessageDataView::Media(m) && m.file_name == photo_file_name(photo_id)
            && m.mime is Photo && m.media == media && m.caption == message.message@ && m.grouped_id
            == message.grouped_id && m.entities == message.formatting()),
{
}

/// A message with neither a document nor a photo is copied as its text, and left
/// out just where it has none.
pub proof fn law_text_is_copied<M, E>(message: RawMessage<M, E>, target: Target)
    requires
        message.media is None || message.media->0 is Other,
    ensures
        Incoming::Message(message).comment(target) is None <==> message.message@.len() == 0,
        message.message@.len() > 0 ==> (Incoming::Message(message).comment(target) matches Some(
            comment,
        ) && (comment.data matches MessageDataView::Text(text) && text.message == message.message@
            && text.entities == message.formatting())),
{
}

/// What is gone, a notice, a photo that is gone and a document without a file name
/// are left out.
pub proof fn law_left_out<M, E>(entry: Incoming<M, E>, target: Target)
    ensures
        entry is Other ==> entry.comment(target) is None,
        entry matches Incoming::Message(message) ==> (message.media matches Some(
            RawMedia::Photo { photo_id, media },
        ) ==> photo_id is None ==> entry.comment(target) is None),
        entry matches Incoming::Message(message) ==> (message.media matches Some(
            RawMedia::Document { attributes, media },
        ) ==> attributes is None ==> entry.comment(target) is None),
        entry matches Incoming::Message(message) ==> (message.media matches Some(
            RawMedia::Document { attributes: Some(attributes), media },
        ) ==> (forall|i: int| 0 <= i < attributes@.len() ==> (#[trigger] attributes@[i]) is Other)
            ==> entry.comment(target) is None),
{
    if let Incoming::Message(message) = entry {
        if let Some(RawMedia::Document { attributes: Some(attributes), media }) = message.media {
            if forall|i: int| 0 <= i < attributes@.len() ==> (#[trigger] attributes@[i]) is Other {
                law_first_file_name_counts(attributes@, attributes@.len() as int);
            }
        }
    }
}

/// A comment has the id of its message, goes where comments go, and is new.
pub proof fn law_comment_goes_to_the_target<M, E>(message: RawMessage<M, E>, target: Target)
    requires
        Incoming::Message(message).comment(target) is Some,
    ensures
        Incoming::Message(message).comment(target)->0.id == message.id,
        Incoming::Message(message).comment(target)->0.forwarded == false,
        Incoming::Message(message).comment(target)->0.src_chat_id == target.src_chat_id,
        Incoming::Message(message).comment(target)->0.post_id == target.post_id,
        Incoming::Message(message).comment(target)->0.dst_chat == target.dst_chat,
{
}

/// A page is read from its end: what stands on a later part comes first, and each
/// entry gives its comment or nothing.
pub proof fn law_page_is_read_from_its_end<M, E>(
    newer: Seq<Incoming<M, E>>,
    older: Seq<Incoming<M, E>>,
    entry: Incoming<M, E>,
    target: Target,
)
    ensures
        oldest_first(newer + older, target) == oldest_first(older, target) + oldest_first(
            newer,
            target,
        ),
        entry.comment(target) is None ==> oldest_first(seq![entry], target).len() == 0,
        entry.comment(target) matches Some(comment) ==> oldest_first(seq![entry], target) == seq![
            comment,
        ],
    decreases newer.len(),
{
    let one = seq![entry];
    assert(one.skip(1) =~= Seq::empty());
    assert(oldest_first(one.skip(1), target) =~= Seq::<MessageView<M, E>>::empty());
    if let Some(comment) = entry.comment(target) {
        assert(oldest_first(one, target) =~= seq![comment]);
    }
    if newer.len() == 0 {
        assert(newer + older =~= older);
        assert(oldest_first(older, target) + oldest_first(newer, target) =~= oldest_first(
            older,
            target,
        ));
    } else {
        law_page_is_read_from_its_end(newer.skip(1), older, entry, target);
        assert((newer + older).skip(1) =~= newer.skip(1) + older);
        assert((newer + older)[0] == newer[0]);
        assert(oldest_first(newer + older, target) =~= oldest_first(older, target) + oldest_first(
            newer,
            target,
        ));
    }
}

/// One more message changes what is filed under its key alone: the album that it is
/// a part of, or its own id. A part of an album that is there joins it at the end,
/// with its id and its attachment; anything else stands there as it is, on its own.
pub proof fn law_one_more_message<M, E>(messages: Seq<MessageView<M, E>>, message: MessageView<M, E>)
    ensures
        grouped(Seq::<MessageView<M, E>>::empty()).dom() == Set::<i64>::empty(),
        message.data matches MessageDataView::Media(media) && media.grouped_id is Some
            ==> message.key() == message.data->Media_0.grouped_id->0,
        message.data matches MessageDataView::Media(media) ==> media.grouped_id is None
            ==> message.key() == message.id,
        message.data is Text ==> message.key() == message.id,
        grouped(messages.push(message)).contains_key(message.key()),
        forall|key: i64|
            key != message.key() ==> (#[trigger] grouped(messages.push(message)).contains_key(key)
                <==> grouped(messages).contains_key(key)),
        forall|key: i64|
            key != message.key() ==> #[trigger] grouped(messages.push(message))[key] == grouped(
                messages,
            )[key],
        message.data matches MessageDataView::Media(media) ==> media.grouped_id is Some
            && grouped(messages).contains_key(message.key()) && grouped(
            messages,
        )[message.key()].data is MultiMedia ==> ({
            let before = grouped(messages)[message.key()];
            let after = grouped(messages.push(message))[message.key()];
            &&& after.id == before.id.push(message.id)
            &&& after.data == MessageTypeView::<M, E>::MultiMedia(
                before.data->MultiMedia_0.push(media),
            )
            &&& after.forwarded == before.forwarded
            &&& after.src_chat_id == before.src_chat_id
            &&& after.post_id == before.post_id
            &&& after.dst_chat == before.dst_chat
            &&& after.file_paths == before.file_paths
        }),
        message.data is Text || message.data->Media_0.grouped_id is None || !grouped(
            messages,
        ).contains_key(message.key()) ==> ({
            let after = grouped(messages.push(message))[message.key()];
            &&& after.id == seq![message.id]
            &&& after.forwarded == message.forwarded
            &&& after.src_chat_id == message.src_chat_id
            &&& after.post_id == message.post_id
            &&& after.dst_chat == message.dst_chat
            &&& after.file_paths.len() == 0
            &&& message.data matches MessageDataView::Text(text) ==> after.data
                == MessageTypeView::<M, E>::Text(text)
            &&& message.data matches MessageDataView::Media(media) ==> media.grouped_id is None
                ==> after.data == MessageTypeView::<M, E>::SingleMedia(media)
            &&& message.data matches MessageDataView::Media(media) ==> media.grouped_id is Some
                ==> after.data == MessageTypeView::<M, E>::MultiMedia(seq![media])
        }),
{
    assert(messages.push(message).drop_last() =~= messages);
    assert(grouped(Seq::<MessageView<M, E>>::empty()).dom() =~= Set::<i64>::empty());
}

/// What is sent for a page goes by ascending keys, and everything that was filed is
/// sent, once.
pub proof fn law_page_goes_by_keys<M, E>(page: Seq<Incoming<M, E>>, target: Target) -> (keys: Seq<
    i64,
>)
    ensures
        keys.len() == page_messages(page, target).len(),
        forall|i: int, j: int| 0 <= i < j < keys.len() ==> keys[i] < keys[j],
        forall|key: i64| #[trigger]
            grouped(oldest_first(page, target)).contains_key(key) <==> exists|i: int|
                0 <= i < keys.len() && #[trigger] keys[i] == key,
        forall|i: int|
            0 <= i < keys.len() ==> page_messages(page, target)[i] == grouped(
                oldest_first(page, target),
            )[#[trigger] keys[i]],
{
    let groups = grouped(oldest_first(page, target));
    let keys = sorted_keys(groups);
    law_groups_have_an_order(oldest_first(page, target));
    assert forall|key: i64| #[trigger] groups.contains_key(key) <==> exists|i: int|
        0 <= i < keys.len() && #[trigger] keys[i] == key by {
        assert(keys.contains(key) <==> groups.contains_key(key));
    }
    keys
}

/// The ids of a page are those of its entries, in order.
pub proof fn law_ids_of_a_page<M, E>(page: Seq<Incoming<M, E>>)
    ensures
        ids_of(page).len() == page.len(),
        forall|i: int| 0 <= i < page.len() ==> (#[trigger] ids_of(page)[i]) == page[i].id(),
{
}

/// A page can be read just where the place after it can be told, and no part of an
/// album has the album's number in common with the id of an earlier message that is
/// a part of none.
pub proof fn law_readable_pages<M, E>(page: Seq<Incoming<M, E>>, target: Target)
    ensures
        readable(page, target) <==> cursor_after(ids_of(page)) is Some && !(exists|i: int, j: int|
            0 <= i < j < oldest_first(page, target).len() && part_of_album(
                #[trigger] oldest_first(page, target)[j],
            ) && !part_of_album(#[trigger] oldest_first(page, target)[i]) && oldest_first(
                page,
                target,
            )[i].id == oldest_first(page, target)[j].data->Media_0.grouped_id->0),
{
    let messages = oldest_first(page, target);
    if exists|i: int, j: int|
        0 <= i < j < messages.len() && part_of_album(#[trigger] messages[j]) && !part_of_album(
            #[trigger] messages[i],
        ) && messages[i].id == messages[j].data->Media_0.grouped_id->0 {
        let (i, j) = choose|i: int, j: int|
            0 <= i < j < messages.len() && part_of_album(#[trigger] messages[j]) && !part_of_album(
                #[trigger] messages[i],
            ) && messages[i].id == messages[j].data->Media_0.grouped_id->0;
        assert(messages[j].album() is Some && messages[i].key() == messages[j].key());
        assert(!mergeable(messages));
    } else {
        assert forall|i: int, j: int|
            0 <= i < j < messages.len() && (#[trigger] messages[j]).album() is Some && (
            #[trigger] messages[i]).key() == messages[j].key() implies messages[i].album()
            is Some by {
            if messages[i].album() is None {
                assert(part_of_album(messages[j]) && !part_of_album(messages[i]));
            }
        }
    }
}

/// Whether a message is a part of an album: an attachment with the album's number.
pub open spec fn part_of_album<M, E>(message: MessageView<M, E>) -> bool {
    message.data is Media && message.data->Media_0.grouped_id is Some
}

/// The values of messages are those of each, in order.
pub proof fn law_values_of_messages<M, E>(
    messages: Seq<Message<M, E>>,
    parsed: Seq<MessageParsed<M, E>>,
)
    ensures
        message_values(messages).len() == messages.len(),
        forall|i: int|
            0 <= i < messages.len() ==> (#[trigger] message_values(messages)[i]) == messages[i]@,
        parsed_values(parsed).len() == parsed.len(),
        forall|i: int|
            0 <= i < parsed.len() ==> (#[trigger] parsed_values(parsed)[i]) == parsed[i]@,
{
}

} // verus!
