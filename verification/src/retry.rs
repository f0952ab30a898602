//! What to do after a request failed, and how long to wait between requests.

use crate::text::same_text;
use rand::Rng;
use vstd::prelude::*;

verus! {

/// Why a request was not answered.
#[derive(Debug)]
pub enum Failure {
    /// The server refused the request.
    Rpc { name: String, value: Option<u32> },
    /// The request or its answer was lost.
    Other,
}

/// Why a file was not transferred.
#[derive(Debug)]
pub enum TransferFailure {
    /// A request of the transfer failed.
    Invocation(Failure),
    /// The file could not be read or written.
    Io,
}

/// What follows an attempt.
#[derive(Clone, Copy, Debug, PartialEq, Eq)]
pub enum Retry {
    /// It succeeded.
    Return,
    /// Sleep this many seconds, then try again.
    Sleep(u64),
    /// Try again at once.
    Again,
    /// Give up.
    Fail,
}

/// How many seconds the server asks to wait, if it refused a request for being
/// one of too many. It asks for a minute where it gives no number.
pub open spec fn flood_wait(failure: Failure) -> Option<u64> {
    match failure {
        Failure::Rpc { name, value } if name@ == "FLOOD_WAIT"@ => Some(
            match value {
                Some(seconds) => seconds as u64,
                None => 60,
            },
        ),
        _ => None,
    }
}

/// Whether the server refused to copy what may not be forwarded.
pub open spec fn forwards_restricted(failure: Failure) -> bool {
    failure matches Failure::Rpc { name, .. } && name@ == "CHAT_FORWARDS_RESTRICTED"@
}

impl Failure {
    /// How many seconds the server asks to wait, if it does.
    pub fn flood_wait(&self) -> (r: Option<u64>)
        ensures
            r == flood_wait(*self),
    {
        match self {
            Failure::Rpc { name, value } => if same_text(name, "FLOOD_WAIT") {
                Some(
                    match value {
                        Some(seconds) => *seconds as u64,
                        None => 60,
                    },
                )
            } else {
                None
            },
            Failure::Other => None,
        }
    }

    /// Whether the server refused to copy what may not be forwarded.
    pub fn forwards_restricted(&self) -> (r: bool)
        ensures
            r == forwards_restricted(*self),
    {
        match self {
            Failure::Rpc { name, .. } => same_text(name, "CHAT_FORWARDS_RESTRICTED"),
            Failure::Other => false,
        }
    }
}

/// A request is tried again only after a flood wait.
pub open spec fn after_request(outcome: Result<(), Failure>) -> Retry {
    match outcome {
        Ok(_) => Retry::Return,
        Err(failure) => match flood_wait(failure) {
            Some(seconds) => Retry::Sleep(seconds),
            None => Retry::Fail,
        },
    }
}

/// A transfer that the server refuses is tried again until it is accepted,
/// after a flood wait where it asks for one. A lost request ends it.
pub open spec fn after_refused_transfer(failure: Failure) -> Retry {
    match flood_wait(failure) {
        Some(seconds) => Retry::Sleep(seconds),
        None => if failure is Rpc {
            Retry::Again
        } else {
            Retry::Fail
        },
    }
}

/// What follows an attempt to download. A file that cannot be written ends it.
pub open spec fn after_download(outcome: Result<(), TransferFailure>) -> Retry {
    match outcome {
        Ok(_) => Retry::Return,
        Err(TransferFailure::Invocation(failure)) => after_refused_transfer(failure),
        Err(TransferFailure::Io) => Retry::Fail,
    }
}

/// What follows an attempt to upload. A file that cannot be read is tried
/// again.
pub open spec fn after_upload(outcome: Result<(), TransferFailure>) -> Retry {
    match outcome {
        Ok(_) => Retry::Return,
        Err(TransferFailure::Invocation(failure)) => after_refused_transfer(failure),
        Err(TransferFailure::Io) => Retry::Again,
    }
}

/// What follows an attempt to invoke a request.
pub fn invoke_with_retry(outcome: &Result<(), Failure>) -> (r: Retry)
    ensures
        r == after_request(*outcome),
{
    match outcome {
        Ok(_) => Retry::Return,
        Err(failure) => match failure.flood_wait() {
            Some(seconds) => Retry::Sleep(seconds),
            None => Retry::Fail,
        },
    }
}

/// What follows an attempt to send a message.
pub fn send_with_retry(outcome: &Result<(), Failure>) -> (r: Retry)
    ensures
        r == after_request(*outcome),
{
    invoke_with_retry(outcome)
}

fn refused_transfer(failure: &Failure) -> (r: Retry)
    ensures
        r == after_refused_transfer(*failure),
{
    match failure.flood_wait() {
        Some(seconds) => Retry::Sleep(seconds),
        None => match failure {
            Failure::Rpc { .. } => Retry::Again,
            Failure::Other => Retry::Fail,
        },
    }
}

/// What follows an attempt to download a file.
pub fn download_with_retry(outcome: &Result<(), TransferFailure>) -> (r: Retry)
    ensures
        r == after_download(*outcome),
{
    match outcome {
        Ok(_) => Retry::Return,
        Err(TransferFailure::Invocation(failure)) => refused_transfer(failure),
        Err(TransferFailure::Io) => Retry::Fail,
    }
}

/// What follows an attempt to upload a file.
pub fn upload_with_retry(outcome: &Result<(), TransferFailure>) -> (r: Retry)
    ensures
        r == after_upload(*outcome),
{
    match outcome {
        Ok(_) => Retry::Return,
        Err(TransferFailure::Invocation(failure)) => refused_transfer(failure),
        Err(TransferFailure::Io) => Retry::Again,
    }
}

/// How many attempts a request takes: those before the first that is not
/// followed by a sleep, and that one.
pub open spec fn attempts_made(outcomes: Seq<Result<(), Failure>>) -> nat
    decreases outcomes.len(),
{
    if outcomes.len() == 0 {
        0
    } else if after_request(outcomes[0]) is Sleep {
        1 + attempts_made(outcomes.skip(1))
    } else {
        1
    }
}

/// A request ends with the first outcome that is not a flood wait: every
/// attempt before the last was one, and the last was none unless the outcomes
/// ran out.
pub proof fn law_only_flood_waits_delay(outcomes: Seq<Result<(), Failure>>)
    ensures
        attempts_made(outcomes) <= outcomes.len(),
        forall|i: int|
            0 <= i < attempts_made(outcomes) - 1 ==> #[trigger] after_request(outcomes[i]) is Sleep,
        attempts_made(outcomes) < outcomes.len() ==> !(after_request(
            outcomes[attempts_made(outcomes) - 1],
        ) is Sleep),
    decreases outcomes.len(),
{
    if outcomes.len() > 0 && after_request(outcomes[0]) is Sleep {
        let rest = outcomes.skip(1);
        law_only_flood_waits_delay(rest);
        let n = attempts_made(outcomes) as int;
        assert forall|i: int| 0 <= i < n - 1 implies #[trigger] after_request(
            outcomes[i],
        ) is Sleep by {
            if i > 0 {
                assert(rest[i - 1] == outcomes[i]);
                assert(after_request(rest[i - 1]) is Sleep);
            }
        }
        if n < outcomes.len() {
            assert(rest.len() > 0);
            assert(attempts_made(rest) > 0);
            assert(rest[n - 2] == outcomes[n - 1]);
        }
    }
}

/// A download and an upload take the same course, except where the file itself
/// cannot be reached.
pub proof fn law_transfers_agree(outcome: Result<(), TransferFailure>)
    ensures
        after_download(outcome) == after_upload(outcome) <==> outcome != Err::<
            (),
            TransferFailure,
        >(TransferFailure::Io),
{
}

/// Two to the power `n`.
pub open spec fn power_of_two(n: nat) -> nat
    decreases n,
{
    if n == 0 {
        1
    } else {
        2 * power_of_two((n - 1) as nat)
    }
}

/// How long to wait before the next attempt to connect, in milliseconds: twice
/// as long after every attempt, up to ten seconds.
pub open spec fn backoff(attempts: nat) -> nat {
    if power_of_two(attempts) <= 10_000 {
        power_of_two(attempts)
    } else {
        10_000
    }
}

/// How connecting is tried again: without end, with growing pauses.
#[derive(Clone, Copy, Debug, PartialEq, Eq)]
pub struct MyPolicy;

impl MyPolicy {
    /// The milliseconds to wait after this many attempts. The number of attempts
    /// is taken as a 32-bit number, and the pause is a power of two that has to
    /// fit in 64 bits.
    pub fn should_retry(&self, attempts: usize) -> (r: u64)
        requires
            (attempts as u32) < 64,
        ensures
            r == backoff((attempts as u32) as nat),
    {
        let exponent: u32 = attempts as u32;
        let mut pause: u64 = 1;
        let mut i: u32 = 0;
        while i < exponent
            invariant
                i <= exponent,
                pause == backoff(i as nat),
                pause <= 10_000,
            decreases exponent - i,
        {
            proof {
                reveal_with_fuel(power_of_two, 2);
            }
            pause = if pause < 5_000 {
                2 * pause
            } else {
                10_000
            };
            i = i + 1;
        }
        pause
    }
}

proof fn lemma_powers_grow(a: nat, b: nat)
    requires
        a <= b,
    ensures
        1 <= power_of_two(a) <= power_of_two(b),
    decreases b,
{
    if b > 0 {
        if a < b {
            lemma_powers_grow(a, (b - 1) as nat);
        } else {
            lemma_powers_grow((b - 1) as nat, (b - 1) as nat);
        }
    }
}

/// The pauses between attempts to connect never shrink, and none is longer than
/// ten seconds.
pub proof fn law_backoff_grows(a: nat, b: nat)
    requires
        a <= b,
    ensures
        1 <= backoff(a) <= backoff(b) <= 10_000,
{
    lemma_powers_grow(a, b);
}

/// The bounds, in seconds, of the rest after a page of comments: longer after
/// every tenth request.
pub open spec fn rest_bounds(spins: i32) -> (int, int) {
    if spins > 0 && spins % 10 == 0 {
        (1000, 1200)
    } else {
        (60, 180)
    }
}

/// Whether this is a rest that may be taken after so many requests.
pub open spec fn is_rest(seconds: u64, spins: i32) -> bool {
    rest_bounds(spins).0 <= seconds <= rest_bounds(spins).1
}

/// `rand::Rng::random_range` on the generator of `rand::rng`, over a closed
/// range.
///
/// The result is random; it lies in the range.
#[verifier::external_body]
fn random_in_range(low: i32, high: i32) -> (r: i32)
    requires
        low <= high,
    ensures
        low <= r <= high,
{
    rand::rng().random_range(low..=high)
}

/// The bounds of the rest after so many requests.
pub fn rest_range(spins: i32) -> (r: (i32, i32))
    ensures
        r.0 == rest_bounds(spins).0,
        r.1 == rest_bounds(spins).1,
{
    if spins > 0 && spins % 10 == 0 {
        (1000, 1200)
    } else {
        (60, 180)
    }
}

/// A random rest after so many requests.
pub fn rest_seconds(spins: i32) -> (r: u64)
    ensures
        is_rest(r, spins),
{
    let (low, high): (i32, i32) = rest_range(spins);
    random_in_range(low, high) as u64
}

/// A flood wait is read from a refusal of that name alone. It is as long as the
/// refusal says, or a minute where that does not say.
pub proof fn law_flood_wait_is_read_off(name: String, value: Option<u32>, seconds: u32)
    ensures
        flood_wait(Failure::Rpc { name, value }) is Some <==> name@ == "FLOOD_WAIT"@,
        name@ == "FLOOD_WAIT"@ ==> flood_wait(Failure::Rpc { name, value: Some(seconds) }) == Some(
            seconds as u64,
        ),
        name@ == "FLOOD_WAIT"@ ==> flood_wait(Failure::Rpc { name, value: None }) == Some(60u64),
        flood_wait(Failure::Other) is None,
        forwards_restricted(Failure::Rpc { name, value }) <==> name@ == "CHAT_FORWARDS_RESTRICTED"@,
        !forwards_restricted(Failure::Other),
{
}

/// A refusal cannot be both a flood wait and a ban on forwarding.
pub proof fn law_refusals_differ(failure: Failure)
    ensures
        !(flood_wait(failure) is Some && forwards_restricted(failure)),
{
    reveal_strlit("FLOOD_WAIT");
    reveal_strlit("CHAT_FORWARDS_RESTRICTED");
    assert("FLOOD_WAIT"@.len() != "CHAT_FORWARDS_RESTRICTED"@.len());
}

/// What follows an attempt at a request: its success is handed on, a flood wait is
/// slept through, and any other failure is handed on.
pub proof fn law_requests_end_or_wait(name: String, value: Option<u32>, seconds: u32)
    ensures
        after_request(Ok(())) == Retry::Return,
        name@ == "FLOOD_WAIT"@ ==> after_request(
            Err(Failure::Rpc { name, value: Some(seconds) }),
        ) == Retry::Sleep(seconds as u64),
        name@ == "FLOOD_WAIT"@ ==> after_request(Err(Failure::Rpc { name, value: None }))
            == Retry::Sleep(60),
        name@ != "FLOOD_WAIT"@ ==> after_request(Err(Failure::Rpc { name, value }))
            == Retry::Fail,
        after_request(Err(Failure::Other)) == Retry::Fail,
{
}

/// What follows an attempt at a transfer: its success is handed on, a flood wait is
/// slept through, any other refusal is tried again, and a lost request is handed
/// on. A file that cannot be reached ends a download, and not an upload.
pub proof fn law_transfers_outlast_refusals(name: String, value: Option<u32>, seconds: u32)
    ensures
        after_download(Ok(())) == Retry::Return,
        after_upload(Ok(())) == Retry::Return,
        name@ == "FLOOD_WAIT"@ ==> after_download(
            Err(TransferFailure::Invocation(Failure::Rpc { name, value: Some(seconds) })),
        ) == Retry::Sleep(seconds as u64),
        name@ == "FLOOD_WAIT"@ ==> after_upload(
            Err(TransferFailure::Invocation(Failure::Rpc { name, value: Some(seconds) })),
        ) == Retry::Sleep(seconds as u64),
        name@ == "FLOOD_WAIT"@ ==> after_download(
            Err(TransferFailure::Invocation(Failure::Rpc { name, value: None })),
        ) == Retry::Sleep(60),
        name@ == "FLOOD_WAIT"@ ==> after_upload(
            Err(TransferFailure::Invocation(Failure::Rpc { name, value: None })),
        ) == Retry::Sleep(60),
        name@ != "FLOOD_WAIT"@ ==> after_download(
            Err(TransferFailure::Invocation(Failure::Rpc { name, value })),
        ) == Retry::Again,
        name@ != "FLOOD_WAIT"@ ==> after_upload(
            Err(TransferFailure::Invocation(Failure::Rpc { name, value })),
        ) == Retry::Again,
        after_download(Err(TransferFailure::Invocation(Failure::Other))) == Retry::Fail,
        after_upload(Err(TransferFailure::Invocation(Failure::Other))) == Retry::Fail,
        after_download(Err(TransferFailure::Io)) == Retry::Fail,
        after_upload(Err(TransferFailure::Io)) == Retry::Again,
{
}

/// The first pause is a millisecond. Every other is twice the one before, or ten
/// seconds where that would be longer.
pub proof fn law_pauses_double(attempts: nat)
    ensures
        backoff(0) == 1,
        2 * backoff(attempts) <= 10_000 ==> backoff(attempts + 1) == 2 * backoff(attempts),
        2 * backoff(attempts) > 10_000 ==> backoff(attempts + 1) == 10_000,
{
}

/// A rest lasts one to three minutes, and sixteen to twenty after every tenth
/// request.
pub proof fn law_rests_by_requests(tens: int, spins: i32, seconds: u64)
    ensures
        tens > 0 && spins == 10 * tens ==> (is_rest(seconds, spins) <==> 1000 <= seconds <= 1200),
        spins <= 0 ==> (is_rest(seconds, spins) <==> 60 <= seconds <= 180),
        10 * tens < spins < 10 * (tens + 1) ==> (is_rest(seconds, spins) <==> 60 <= seconds <= 180),
        is_rest(seconds, spins) <==> rest_bounds(spins).0 <= seconds <= rest_bounds(spins).1,
{
}

} // verus!
