//! Where reading a history resumes: the id after the newest message of a page,
//! and the hash of the ids on the page.

use vstd::prelude::*;

verus! {

/// One round of mixing of a hash, before the next id is added to it.
pub open spec fn mixed(acc: i64) -> i64 {
    let a = acc ^ (acc >> 21);
    let b = a ^ (a << 35);
    b ^ (b >> 4)
}

/// The hash after the next id, or `None` if adding the id overflows.
pub open spec fn hash_step(acc: i64, id: i32) -> Option<i64> {
    let sum = mixed(acc) + id;
    if i64::MIN <= sum <= i64::MAX {
        Some(sum as i64)
    } else {
        None
    }
}

/// The hash of a list of ids that continues from `acc`, or `None` if one of
/// the additions overflows.
pub open spec fn hash_from(acc: i64, ids: Seq<i32>) -> Option<i64>
    decreases ids.len(),
{
    if ids.len() == 0 {
        Some(acc)
    } else {
        match hash_from(acc, ids.drop_last()) {
            Some(h) => hash_step(h, ids.last()),
            None => None,
        }
    }
}

/// The hash of a list of ids.
pub open spec fn hash_of(ids: Seq<i32>) -> Option<i64> {
    hash_from(0, ids)
}

fn mix(acc: i64) -> (r: i64)
    ensures
        r == mixed(acc),
{
    let a: i64 = acc ^ (acc >> 21);
    let b: i64 = a ^ (a << 35);
    b ^ (b >> 4)
}

/// The hash of the ids of a page, in page order. `None` if adding an id
/// overflows.
pub fn page_hash(ids: &Vec<i32>) -> (r: Option<i64>)
    ensures
        r == hash_of(ids@),
{
    let mut acc: i64 = 0;
    let mut i: usize = 0;
    assert(ids@.take(0) =~= Seq::<i32>::empty());
    while i < ids.len()
        invariant
            i <= ids.len(),
            hash_of(ids@.take(i as int)) == Some(acc),
        decreases ids.len() - i,
    {
        assert(ids@.take(i + 1).drop_last() =~= ids@.take(i as int));
        match mix(acc).checked_add(ids[i] as i64) {
            Some(sum) => {
                acc = sum;
            },
            None => {
                proof {
                    lemma_overflow_stays(0, ids@, i + 1);
                }
                return None;
            },
        }
        i = i + 1;
    }
    assert(ids@.take(i as int) =~= ids@);
    Some(acc)
}

/// Where reading resumes after a page.
#[derive(Clone, Copy, Debug, PartialEq, Eq)]
pub struct Cursor {
    pub offset_id: i32,
    pub hash: i64,
}

/// The id after the first of a page, which is its newest; 1 after a page that
/// holds none.
pub open spec fn id_after(ids: Seq<i32>) -> int {
    if ids.len() == 0 {
        1
    } else {
        ids[0] + 1
    }
}

/// The place after a page with these ids, or `None` if computing it overflows.
pub open spec fn cursor_after(ids: Seq<i32>) -> Option<Cursor> {
    match hash_of(ids) {
        Some(hash) if id_after(ids) <= i32::MAX => Some(
            Cursor { offset_id: id_after(ids) as i32, hash },
        ),
        _ => None,
    }
}

/// The place where reading resumes after a page with these ids. `None` if the
/// id after the newest, or the hash, overflows.
pub fn page_cursor(ids: &Vec<i32>) -> (r: Option<Cursor>)
    ensures
        r == cursor_after(ids@),
{
    let newest: i32 = if ids.len() == 0 {
        0
    } else {
        ids[0]
    };
    match (newest.checked_add(1), page_hash(ids)) {
        (Some(offset_id), Some(hash)) => Some(Cursor { offset_id, hash }),
        _ => None,
    }
}

proof fn lemma_overflow_stays(acc: i64, ids: Seq<i32>, n: int)
    requires
        0 <= n <= ids.len(),
        hash_from(acc, ids.take(n)) is None,
    ensures
        hash_from(acc, ids) is None,
    decreases ids.len(),
{
    if n == ids.len() {
        assert(ids.take(n) =~= ids);
    } else {
        assert(ids.drop_last().take(n) =~= ids.take(n));
        lemma_overflow_stays(acc, ids.drop_last(), n);
    }
}

/// The hash of two lists in a row is that of the second, continued from that of
/// the first: a page can be hashed as its ids arrive.
pub proof fn law_hash_continues(first: Seq<i32>, second: Seq<i32>)
    ensures
        hash_of(first + second) == (match hash_of(first) {
            Some(h) => hash_from(h, second),
            None => None,
        }),
    decreases second.len(),
{
    if second.len() == 0 {
        assert(first + second =~= first);
    } else {
        law_hash_continues(first, second.drop_last());
        assert((first + second).drop_last() =~= first + second.drop_last());
        assert((first + second).last() == second.last());
    }
}

/// The place after a page is the id after its first message, which is the newest;
/// on a page in descending order it lies behind every message, and no id between
/// the newest and it is skipped.
pub proof fn law_place_lies_behind_the_page(ids: Seq<i32>)
    requires
        cursor_after(ids) is Some,
    ensures
        ids.len() > 0 ==> cursor_after(ids)->0.offset_id == ids[0] + 1,
        ids.len() == 0 ==> cursor_after(ids)->0.offset_id == 1 && cursor_after(ids)->0.hash == 0,
        (forall|i: int, j: int| 0 <= i < j < ids.len() ==> ids[i] > ids[j]) ==> forall|i: int|
            0 <= i < ids.len() ==> cursor_after(ids)->0.offset_id > #[trigger] ids[i],
{
}

/// There is a place after a page unless its newest id is the last there is, or the
/// hash overflows; and it carries the hash of the ids.
pub proof fn law_place_exists(ids: Seq<i32>)
    ensures
        cursor_after(ids) is Some <==> (ids.len() > 0 ==> ids[0] < i32::MAX) && hash_of(ids)
            is Some,
        cursor_after(ids) is Some ==> hash_of(ids) == Some(cursor_after(ids)->0.hash),
{
}

/// Mixing spreads a hash by shifts alone: each bit goes to fixed places, whatever
/// the others are.
pub proof fn law_mixing_spreads_bits(a: i64, b: i64)
    ensures
        mixed(a ^ b) == mixed(a) ^ mixed(b),
        mixed(a) == a ^ (a >> 21) ^ (a << 35) ^ ((a >> 21) << 35) ^ (a >> 4) ^ (a >> 25) ^ ((a << 35)
            >> 4) ^ (((a >> 21) << 35) >> 4),
{
    assert(({
        let c = a ^ b;
        let c1 = c ^ (c >> 21);
        let c2 = c1 ^ (c1 << 35);
        let a1 = a ^ (a >> 21);
        let a2 = a1 ^ (a1 << 35);
        let b1 = b ^ (b >> 21);
        let b2 = b1 ^ (b1 << 35);
        (c2 ^ (c2 >> 4)) == (a2 ^ (a2 >> 4)) ^ (b2 ^ (b2 >> 4))
    })) by (bit_vector);
    assert(({
        let a1 = a ^ (a >> 21);
        let a2 = a1 ^ (a1 << 35);
        (a2 ^ (a2 >> 4)) == a ^ (a >> 21) ^ (a << 35) ^ ((a >> 21) << 35) ^ (a >> 4) ^ (a >> 25) ^ (
        (a << 35) >> 4) ^ (((a >> 21) << 35) >> 4)
    })) by (bit_vector);
}

/// The hash of a list with one more id is the mixed hash of the list, plus the id;
/// there is none if that does not fit. The hash of one id is that id.
pub proof fn law_hash_of_one_more(ids: Seq<i32>, id: i32)
    ensures
        hash_of(Seq::<i32>::empty()) == Some(0i64),
        hash_of(seq![id]) == Some(id as i64),
        hash_of(ids) is None ==> hash_of(ids.push(id)) is None,
        hash_of(ids) matches Some(h) ==> (hash_of(ids.push(id)) is Some <==> i64::MIN <= mixed(h)
            + id <= i64::MAX),
        hash_of(ids) matches Some(h) ==> hash_of(ids.push(id)) is Some ==> hash_of(ids.push(id))->0
            == mixed(h) + id,
{
    assert(ids.push(id).drop_last() =~= ids);
    assert(seq![id].drop_last() =~= Seq::<i32>::empty());
    assert(hash_of(Seq::<i32>::empty()) == Some(0i64));
    assert(mixed(0) == 0) by {
        assert(({
            let a = 0i64 ^ (0i64 >> 21);
            let b = a ^ (a << 35);
            b ^ (b >> 4)
        }) == 0) by (bit_vector);
    }
    assert(seq![id].last() == id);
    assert(hash_from(0, seq![id].drop_last()) == Some(0i64));
}

} // verus!
