//! Messages that wait to be sent.

use crate::message::MessageRow;
use crate::peer::PackedChat;
use vstd::prelude::*;

verus! {

/// A message that waits to be sent. `T` is the message as the client takes it.
#[derive(Debug, PartialEq, Eq)]
pub struct SendJob<T> {
    /// Where it goes.
    pub chat: PackedChat,
    pub message: T,
    /// The id of the comment that it copies, and where that comment stands.
    pub msg_id: i32,
    pub chat_id: i64,
}

impl<T> SendJob<T> {
    /// What is stored when the message was sent.
    pub open spec fn sent_row(self) -> MessageRow {
        MessageRow { id: self.msg_id, chat_id: self.chat_id, downloaded: true, forwarded: true }
    }

    /// What is stored when the message was sent.
    pub fn row(&self) -> (r: MessageRow)
        ensures
            r == (MessageRow {
                id: self.msg_id,
                chat_id: self.chat_id,
                downloaded: true,
                forwarded: true,
            }),
            r == self.sent_row(),
    {
        MessageRow { id: self.msg_id, chat_id: self.chat_id, downloaded: true, forwarded: true }
    }
}

/// Whether older comments come first.
pub open spec fn in_id_order<T>(jobs: Seq<SendJob<T>>) -> bool {
    forall|i: int, j: int|
        0 <= i < j < jobs.len() ==> (#[trigger] jobs[i]).msg_id <= (#[trigger] jobs[j]).msg_id
}

/// The messages for a comment, in order.
pub open spec fn for_comment<T>(jobs: Seq<SendJob<T>>, id: i32) -> Seq<SendJob<T>> {
    jobs.filter(|job: SendJob<T>| job.msg_id == id)
}

proof fn lemma_for_comment_none<T>(jobs: Seq<SendJob<T>>, id: i32)
    requires
        forall|i: int| 0 <= i < jobs.len() ==> (#[trigger] jobs[i]).msg_id != id,
    ensures
        for_comment(jobs, id) == Seq::<SendJob<T>>::empty(),
    decreases jobs.len(),
{
    reveal(Seq::filter);
    if jobs.len() > 0 {
        assert(jobs.last() == jobs[jobs.len() - 1]);
        let earlier = jobs.drop_last();
        assert forall|i: int| 0 <= i < earlier.len() implies (#[trigger] earlier[i]).msg_id != id by {
            assert(earlier[i] == jobs[i]);
        }
        lemma_for_comment_none(earlier, id);
    }
}

proof fn lemma_for_comment_split<T>(first: Seq<SendJob<T>>, second: Seq<SendJob<T>>, id: i32)
    ensures
        for_comment(first + second, id) == for_comment(first, id) + for_comment(second, id),
    decreases second.len(),
{
    reveal(Seq::filter);
    if second.len() == 0 {
        assert(first + second =~= first);
        assert(for_comment(first, id) + for_comment(second, id) =~= for_comment(first, id));
    } else {
        lemma_for_comment_split(first, second.drop_last(), id);
        assert((first + second).drop_last() =~= first + second.drop_last());
        assert((first + second).last() == second.last());
        assert(for_comment(first + second, id) =~= for_comment(first, id) + for_comment(
            second,
            id,
        ));
    }
}

proof fn lemma_inserted_in_place<T>(jobs: Seq<SendJob<T>>, place: int, job: SendJob<T>, id: i32)
    requires
        0 <= place <= jobs.len(),
        forall|i: int| place <= i < jobs.len() ==> job.msg_id < (#[trigger] jobs[i]).msg_id,
    ensures
        for_comment(jobs.insert(place, job), id) == for_comment(jobs.push(job), id),
{
    reveal(Seq::filter);
    let before = jobs.take(place);
    let after = jobs.skip(place);
    let one = seq![job];
    assert(jobs.insert(place, job) =~= before + one + after);
    assert(jobs.push(job) =~= before + after + one);
    lemma_for_comment_split(before + one, after, id);
    lemma_for_comment_split(before, one, id);
    lemma_for_comment_split(before + after, one, id);
    lemma_for_comment_split(before, after, id);
    if job.msg_id == id {
        assert forall|i: int| 0 <= i < after.len() implies (#[trigger] after[i]).msg_id != id by {
            assert(after[i] == jobs[place + i]);
        }
        lemma_for_comment_none(after, id);
    } else {
        assert(one[0].msg_id != id);
        lemma_for_comment_none(one, id);
    }
    let b = for_comment(before, id);
    let a = for_comment(after, id);
    let o = for_comment(one, id);
    assert(b + o + a =~= b + a + o);
}

/// Sorts messages by the ids of the comments that they copy. Those for one
/// comment keep their order.
pub fn sort_jobs<T>(jobs: Vec<SendJob<T>>) -> (r: Vec<SendJob<T>>)
    ensures
        in_id_order(r@),
        forall|id: i32| #[trigger] for_comment(r@, id) == for_comment(jobs@, id),
{
    let mut sorted: Vec<SendJob<T>> = Vec::new();
    assert(jobs@.take(0) =~= Seq::empty());
    for job in iter: jobs
        invariant
            iter.seq() == jobs@,
            in_id_order(sorted@),
            forall|id: i32| #[trigger]
                for_comment(sorted@, id) == for_comment(jobs@.take(iter.index() as int), id),
    {
        let ghost before = sorted@;
        let ghost seen = jobs@.take(iter.index() as int);
        let ghost added = job;
        let mut place: usize = sorted.len();
        while place > 0 && job.msg_id < sorted[place - 1].msg_id
            invariant
                place <= sorted.len(),
                forall|i: int| place <= i < sorted.len() ==> job.msg_id < (#[trigger] sorted@[i]).msg_id,
            decreases place,
        {
            place = place - 1;
        }
        sorted.insert(place, job);
        proof {
            assert(jobs@.take(iter.index() as int + 1) =~= seen.push(added));
            assert forall|id: i32| #[trigger]
                for_comment(sorted@, id) == for_comment(seen.push(added), id) by {
                lemma_inserted_in_place(before, place as int, added, id);
                reveal(Seq::filter);
                assert(before.push(added).drop_last() =~= before);
                assert(seen.push(added).drop_last() =~= seen);
                assert(for_comment(before, id) == for_comment(seen, id));
            }
        }
    }
    assert(jobs@.take(jobs@.len() as int) =~= jobs@);
    sorted
}

/// Messages are in order just where none stands before one for an older comment.
pub proof fn law_order_of_messages<T>(jobs: Seq<SendJob<T>>)
    ensures
        in_id_order(jobs) <==> !(exists|i: int, j: int|
            0 <= i < j < jobs.len() && (#[trigger] jobs[i]).msg_id > (#[trigger] jobs[j]).msg_id),
{
    if in_id_order(jobs) {
        assert forall|i: int, j: int| 0 <= i < j < jobs.len() implies (#[trigger] jobs[i]).msg_id
            <= (#[trigger] jobs[j]).msg_id by {}
    } else {
        let (i, j) = choose|i: int, j: int|
            0 <= i < j < jobs.len() && !((#[trigger] jobs[i]).msg_id <= (
            #[trigger] jobs[j]).msg_id);
        assert(jobs[i].msg_id > jobs[j].msg_id);
    }
}

/// The messages for a comment are picked one by one, and keep their order.
pub proof fn law_messages_for_a_comment<T>(jobs: Seq<SendJob<T>>, job: SendJob<T>, id: i32)
    ensures
        for_comment(Seq::<SendJob<T>>::empty(), id).len() == 0,
        job.msg_id == id ==> for_comment(jobs.push(job), id) == for_comment(jobs, id).push(job),
        job.msg_id != id ==> for_comment(jobs.push(job), id) == for_comment(jobs, id),
{
    reveal(Seq::filter);
    assert(jobs.push(job).drop_last() =~= jobs);
}

/// Two lists that are in order and hold the same messages for every comment, in the
/// same order, are the same list: there is one way to sort.
pub proof fn law_one_way_to_sort<T>(a: Seq<SendJob<T>>, b: Seq<SendJob<T>>)
    requires
        in_id_order(a),
        in_id_order(b),
        forall|id: i32| #[trigger] for_comment(a, id) == for_comment(b, id),
    ensures
        a == b,
    decreases a.len(),
{
    if a.len() == 0 {
        if b.len() > 0 {
            law_messages_for_a_comment(b.drop_last(), b.last(), b.last().msg_id);
            assert(b.drop_last().push(b.last()) =~= b);
            assert(for_comment(a, b.last().msg_id) == for_comment(b, b.last().msg_id));
            law_messages_for_a_comment(a, b.last(), b.last().msg_id);
            assert(a =~= Seq::empty());
        }
        assert(a =~= b);
    } else {
        let x = a.last();
        assert(a.drop_last().push(x) =~= a);
        law_messages_for_a_comment(a.drop_last(), x, x.msg_id);
        assert(for_comment(a, x.msg_id) == for_comment(b, x.msg_id));
        if b.len() == 0 {
            assert(b =~= Seq::empty());
            law_messages_for_a_comment(b, x, x.msg_id);
        } else {
            let y = b.last();
            assert(b.drop_last().push(y) =~= b);
            law_messages_for_a_comment(b.drop_last(), y, y.msg_id);
            assert(for_comment(a, y.msg_id) == for_comment(b, y.msg_id));
            lemma_last_is_newest(a, y.msg_id);
            lemma_last_is_newest(b, x.msg_id);
            assert(x.msg_id == y.msg_id);
            assert(for_comment(a, x.msg_id).last() == x);
            assert(for_comment(b, x.msg_id).last() == y);
            assert forall|id: i32| #[trigger]
                for_comment(a.drop_last(), id) == for_comment(b.drop_last(), id) by {
                law_messages_for_a_comment(a.drop_last(), x, id);
                law_messages_for_a_comment(b.drop_last(), y, id);
                assert(for_comment(a, id) == for_comment(b, id));
                if id == x.msg_id {
                    assert(for_comment(a, id).drop_last() =~= for_comment(a.drop_last(), id));
                    assert(for_comment(b, id).drop_last() =~= for_comment(b.drop_last(), id));
                }
            }
            law_one_way_to_sort(a.drop_last(), b.drop_last());
        }
    }
}

proof fn lemma_last_is_newest<T>(jobs: Seq<SendJob<T>>, id: i32)
    requires
        jobs.len() > 0,
        in_id_order(jobs),
        for_comment(jobs, id).len() > 0,
    ensures
        id <= jobs.last().msg_id,
{
    if id > jobs.last().msg_id {
        assert forall|i: int| 0 <= i < jobs.len() implies (#[trigger] jobs[i]).msg_id != id by {
            if i < jobs.len() - 1 {
                assert(jobs[i].msg_id <= jobs[jobs.len() - 1].msg_id);
            }
        }
        lemma_for_comment_none(jobs, id);
    }
}

/// A comment whose file was sent is stored under its own id and where it stands, as
/// downloaded and as forwarded: it is found to be so when it is looked up again.
pub proof fn law_sent_file_is_stored_as_forwarded<T>(job: SendJob<T>)
    ensures
        job.sent_row().id == job.msg_id,
        job.sent_row().chat_id == job.chat_id,
        job.sent_row().downloaded && job.sent_row().forwarded,
{
}

} // verus!
