//! Requests that are repeated while the website limits their rate.

use crate::text;
use vstd::arithmetic::power2;
use vstd::prelude::*;

verus! {

/// How often a download is repeated at most.
pub const DOWNLOAD_RETRIES: u32 = 5;

/// How a request went.
#[derive(Debug, PartialEq, Eq)]
pub enum Reply {
    /// The website delivered.
    Delivered,
    /// The website answered with an error status, and perhaps with the header
    /// `retry-after`.
    Refused { status: u16, retry_after: Option<String> },
    /// There was no answer.
    Failed,
}

/// What a [`Reply`] says.
pub enum ReplyView {
    Delivered,
    Refused { status: u16, retry_after: Option<Seq<char>> },
    Failed,
}

impl View for Reply {
    type V = ReplyView;

    open spec fn view(&self) -> ReplyView {
        match *self {
            Reply::Delivered => ReplyView::Delivered,
            Reply::Refused { status, retry_after } => ReplyView::Refused {
                status,
                retry_after: match retry_after {
                    Some(value) => Some(value@),
                    None => None,
                },
            },
            Reply::Failed => ReplyView::Failed,
        }
    }
}

/// What to do after a reply.
#[derive(Debug, Clone, Copy, PartialEq, Eq, Structural)]
pub enum RetryAction {
    /// Hand the reply on.
    Deliver,
    /// Hand the error on.
    GiveUp,
    /// Make the request again after so many seconds.
    Wait(u64),
}

/// The seconds to wait after the given number of earlier repetitions, where the website
/// does not say: they double each time, up to a minute.
pub open spec fn backoff_seconds(attempt: nat) -> nat {
    if power2::pow2(attempt) <= 60 {
        power2::pow2(attempt)
    } else {
        60
    }
}

/// The seconds that the header `retry-after` asks to wait, if it gives a number.
pub open spec fn requested_seconds(retry_after: Option<Seq<char>>) -> Option<nat> {
    match retry_after {
        Some(value) => text::unsigned_value(value, u64::MAX as nat),
        None => None,
    }
}

/// The seconds to wait before a repetition.
pub open spec fn delay_seconds(attempt: nat, retry_after: Option<Seq<char>>) -> nat {
    match requested_seconds(retry_after) {
        Some(seconds) => seconds,
        None => backoff_seconds(attempt),
    }
}

/// Whether a reply says that requests come too fast.
pub open spec fn is_rate_limited(reply: ReplyView) -> bool {
    reply matches ReplyView::Refused { status, .. } && (status == 429 || status == 403)
}

/// Whether a reply is followed by a repetition.
pub open spec fn is_repeated(attempt: nat, max_retries: nat, reply: ReplyView) -> bool {
    is_rate_limited(reply) && attempt < max_retries
}

/// Computes the waiting time that doubles with each repetition.
pub fn get_backoff(attempt: u32) -> (seconds: u64)
    requires
        attempt < 64,
    ensures
        seconds == backoff_seconds(attempt as nat),
{
    let doubled: u64 = 1u64 << attempt;
    proof {
        power2::lemma2_to64();
        power2::lemma2_to64_rest();
        if attempt < 63 {
            power2::lemma_pow2_strictly_increases(attempt as nat, 63);
        }
        vstd::bits::lemma_u64_shl_is_mul(1, attempt as u64);
        assert(1u64 << (attempt as u64) == 1u64 << attempt);
    }
    if doubled < 60 {
        doubled
    } else {
        60
    }
}

/// Computes the waiting time before a repetition.
pub fn get_delay(attempt: u32, retry_after: Option<&str>) -> (seconds: u64)
    requires
        requested_seconds(text::optional_text(retry_after)) is None ==> attempt < 64,
    ensures
        seconds == delay_seconds(attempt as nat, text::optional_text(retry_after)),
{
    match retry_after {
        Some(value) => match text::parse_unsigned(value, u64::MAX) {
            Some(seconds) => seconds,
            None => get_backoff(attempt),
        },
        None => get_backoff(attempt),
    }
}

/// A request with the number of its repetitions so far.
pub struct Retry {
    attempt: u32,
    max_retries: u32,
}

/// The numbers of a [`Retry`].
pub struct RetryView {
    pub attempt: nat,
    pub max_retries: nat,
}

impl View for Retry {
    type V = RetryView;

    closed spec fn view(&self) -> RetryView {
        RetryView { attempt: self.attempt as nat, max_retries: self.max_retries as nat }
    }
}

/// What to do after a reply, for a given number of earlier repetitions.
pub open spec fn retry_action(attempt: nat, max_retries: nat, reply: ReplyView) -> RetryAction {
    match reply {
        ReplyView::Delivered => RetryAction::Deliver,
        ReplyView::Failed => RetryAction::GiveUp,
        ReplyView::Refused { status, retry_after } => if is_repeated(attempt, max_retries, reply) {
            RetryAction::Wait(delay_seconds(attempt, retry_after) as u64)
        } else {
            RetryAction::GiveUp
        },
    }
}

impl Retry {
    /// Never more repetitions than allowed.
    pub open spec fn wf(&self) -> bool {
        self@.attempt <= self@.max_retries <= u32::MAX
    }

    /// A request that may be repeated some times.
    pub fn new(max_retries: u32) -> (retry: Retry)
        ensures
            retry.wf(),
            retry@ == (RetryView { attempt: 0, max_retries: max_retries as nat }),
    {
        Retry { attempt: 0, max_retries }
    }

    /// How often the request was repeated.
    pub fn attempt(&self) -> (attempt: u32)
        ensures
            attempt == self@.attempt,
    {
        self.attempt
    }

    /// Decides what to do after a reply.
    pub fn next(&mut self, reply: &Reply) -> (action: RetryAction)
        requires
            old(self).wf(),
            is_repeated(old(self)@.attempt, old(self)@.max_retries, reply@) && (
            reply@ matches ReplyView::Refused { retry_after, .. } && requested_seconds(
                retry_after,
            ) is None) ==> old(self)@.attempt < 64,
        ensures
            final(self).wf(),
            action == retry_action(old(self)@.attempt, old(self)@.max_retries, reply@),
            final(self)@.max_retries == old(self)@.max_retries,
            final(self)@.attempt == if action is Wait {
                old(self)@.attempt + 1
            } else {
                old(self)@.attempt
            },
    {
        match reply {
            Reply::Delivered => RetryAction::Deliver,
            Reply::Failed => RetryAction::GiveUp,
            Reply::Refused { status, retry_after } => {
                if (*status == 429 || *status == 403) && self.attempt < self.max_retries {
                    let header = match retry_after {
                        Some(value) => Some(value.as_str()),
                        None => None,
                    };
                    let seconds: u64 = get_delay(self.attempt, header);
                    self.attempt += 1;
                    RetryAction::Wait(seconds)
                } else {
                    RetryAction::GiveUp
                }
            },
        }
    }
}

/// What is told before a repetition.
pub open spec fn rate_limit_text(seconds: nat, attempt: nat, max_retries: nat) -> Seq<char> {
    "Rate limited, retrying in "@ + text::decimal(seconds) + "s... (attempt "@ + text::decimal(
        attempt,
    ) + "/"@ + text::decimal(max_retries) + ")"@
}

/// Tells that the request is repeated, for the `attempt`-th time of `max_retries`.
pub fn rate_limit_message(seconds: u64, attempt: u32, max_retries: u32) -> (message: String)
    ensures
        message@ == rate_limit_text(seconds as nat, attempt as nat, max_retries as nat),
{
    let mut message = "Rate limited, retrying in ".to_owned();
    message.append(text::write_decimal(seconds).as_str());
    message.append("s... (attempt ");
    message.append(text::write_decimal(attempt as u64).as_str());
    message.append("/");
    message.append(text::write_decimal(max_retries as u64).as_str());
    message.append(")");
    message
}

/// How many requests are made, and whether the last one was delivered, when the website
/// replies in a given way to each.
pub open spec fn run(attempt: nat, max_retries: nat, replies: Seq<ReplyView>) -> (nat, bool)
    decreases replies.len(),
{
    if replies.len() == 0 {
        (0, false)
    } else {
        match retry_action(attempt, max_retries, replies[0]) {
            RetryAction::Deliver => (1, true),
            RetryAction::GiveUp => (1, false),
            RetryAction::Wait(_) => {
                let rest = run(attempt + 1, max_retries, replies.drop_first());
                (1 + rest.0, rest.1)
            },
        }
    }
}

/// Whether the website delivers at the `k`-th reply, counted from zero, after only
/// limiting the rate.
pub open spec fn delivers_at(replies: Seq<ReplyView>, k: int) -> bool {
    &&& 0 <= k < replies.len()
    &&& replies[k] is Delivered
    &&& forall|i: int| 0 <= i < k ==> is_rate_limited(#[trigger] replies[i])
}

/// Whether the `k`-th reply, counted from zero, is the last one that is asked for: those
/// before it only limit the rate, and it does not, or no repetition is left.
pub open spec fn stops_at(attempt: nat, max_retries: nat, replies: Seq<ReplyView>, k: int) -> bool {
    &&& 0 <= k < replies.len()
    &&& attempt + k <= max_retries
    &&& forall|i: int| 0 <= i < k ==> is_rate_limited(#[trigger] replies[i])
    &&& !is_rate_limited(replies[k]) || attempt + k == max_retries
}

/// Requests are made up to the reply that is the last one asked for, and the outcome is
/// that reply.
proof fn lemma_requests_counted(
    attempt: nat,
    max_retries: nat,
    replies: Seq<ReplyView>,
    k: int,
)
    requires
        stops_at(attempt, max_retries, replies, k),
    ensures
        run(attempt, max_retries, replies) == ((k + 1) as nat, replies[k] is Delivered),
    decreases k,
{
    if k > 0 {
        let rest = replies.drop_first();
        assert(is_rate_limited(replies[0]));
        assert forall|i: int| 0 <= i < k - 1 implies is_rate_limited(#[trigger] rest[i]) by {
            assert(rest[i] == replies[i + 1]);
        }
        lemma_requests_counted(attempt + 1, max_retries, rest, k - 1);
    }
}

/// Requests are made exactly up to the first reply that does not limit the rate, or until
/// no repetition is left, and the outcome is the last reply. So a request is made at most
/// once more than it may be repeated, and it is delivered exactly when the website delivers
/// within these requests after only limiting the rate.
pub proof fn lemma_retries_bounded(attempt: nat, max_retries: nat, replies: Seq<ReplyView>)
    requires
        attempt <= max_retries,
    ensures
        forall|k: int| #[trigger]
            stops_at(attempt, max_retries, replies, k) ==> run(attempt, max_retries, replies) == (
                (k + 1) as nat,
                replies[k] is Delivered,
            ),
        run(attempt, max_retries, replies).0 <= max_retries - attempt + 1,
        run(attempt, max_retries, replies).1 <==> exists|k: int|
            #[trigger] delivers_at(replies, k) && k <= max_retries - attempt,
    decreases replies.len(),
{
    assert forall|k: int| #[trigger] stops_at(attempt, max_retries, replies, k) implies run(
        attempt,
        max_retries,
        replies,
    ) == ((k + 1) as nat, replies[k] is Delivered) by {
        lemma_requests_counted(attempt, max_retries, replies, k);
    }
    if replies.len() > 0 {
        let reply = replies[0];
        let rest = replies.drop_first();
        if is_repeated(attempt, max_retries, reply) {
            lemma_retries_bounded(attempt + 1, max_retries, rest);
            if run(attempt + 1, max_retries, rest).1 {
                let k = choose|k: int|
                    #[trigger] delivers_at(rest, k) && k <= max_retries - attempt - 1;
                assert forall|i: int| 0 <= i < k + 1 implies is_rate_limited(
                    #[trigger] replies[i],
                ) by {
                    if i > 0 {
                        assert(replies[i] == rest[i - 1]);
                    }
                }
                assert(delivers_at(replies, k + 1));
            }
            if exists|k: int| #[trigger] delivers_at(replies, k) && k <= max_retries - attempt {
                let k = choose|k: int|
                    #[trigger] delivers_at(replies, k) && k <= max_retries - attempt;
                assert(k > 0);
                assert forall|i: int| 0 <= i < k - 1 implies is_rate_limited(
                    #[trigger] rest[i],
                ) by {
                    assert(rest[i] == replies[i + 1]);
                }
                assert(delivers_at(rest, k - 1));
            }
        } else {
            if reply is Delivered {
                assert(delivers_at(replies, 0));
            }
            if exists|k: int| #[trigger] delivers_at(replies, k) && k <= max_retries - attempt {
                let k = choose|k: int|
                    #[trigger] delivers_at(replies, k) && k <= max_retries - attempt;
                if k > 0 {
                    assert(is_rate_limited(replies[0]));
                }
            }
        }
    } else {
        assert(forall|k: int| !delivers_at(replies, k));
    }
}

/// What is said of a reply is what it holds.
pub proof fn lemma_replies_say_all(reply: Reply)
    ensures
        reply is Delivered <==> reply@ is Delivered,
        reply is Failed <==> reply@ is Failed,
        reply matches Reply::Refused { status, retry_after } ==> {
            &&& reply@ is Refused
            &&& reply@->status == status
            &&& retry_after is None ==> reply@->retry_after is None
            &&& retry_after is Some ==> reply@->retry_after == Some(retry_after->0@)
        },
{
}

/// The waiting time is one second at first and doubles with each repetition, but never
/// exceeds a minute.
pub proof fn lemma_backoff_doubles_up_to_a_minute(attempt: nat)
    ensures
        backoff_seconds(0) == 1,
        backoff_seconds(attempt + 1) == if 2 * backoff_seconds(attempt) <= 60 {
            2 * backoff_seconds(attempt)
        } else {
            60
        },
        1 <= backoff_seconds(attempt) <= 60,
{
    power2::lemma2_to64();
    power2::lemma_pow2_unfold(attempt + 1);
    power2::lemma_pow2_pos(attempt);
}

/// The website's own number is waited for where it gives one, whatever the repetition; else
/// the time that doubles is.
pub proof fn lemma_website_says_how_long(attempt: nat, seconds: nat, value: Seq<char>)
    ensures
        requested_seconds(None) is None,
        seconds <= u64::MAX ==> requested_seconds(Some(text::decimal(seconds))) == Some(seconds),
        seconds > u64::MAX ==> requested_seconds(Some(text::decimal(seconds))) is None,
        requested_seconds(Some(value)) == text::unsigned_value(value, u64::MAX as nat),
        seconds <= u64::MAX ==> delay_seconds(attempt, Some(text::decimal(seconds))) == seconds,
        delay_seconds(attempt, None) == backoff_seconds(attempt),
        text::unsigned_value(value, u64::MAX as nat) is None ==> delay_seconds(
            attempt,
            Some(value),
        ) == backoff_seconds(attempt),
{
    text::lemma_decimal_is_shortest(seconds);
    text::lemma_numbers_are_read(text::decimal(seconds), u64::MAX as nat);
}

/// Only the two statuses that limit the rate are waited out, and only while repetitions are
/// left. Every other error is handed on at once, and every delivery.
pub proof fn lemma_what_is_repeated(
    attempt: nat,
    max_retries: nat,
    status: u16,
    retry_after: Option<Seq<char>>,
)
    ensures
        ({
            let refused = ReplyView::Refused { status, retry_after };
            let action = retry_action(attempt, max_retries, refused);
            &&& is_rate_limited(refused) <==> status == 429 || status == 403
            &&& is_repeated(attempt, max_retries, refused) <==> (status == 429 || status == 403)
                && attempt < max_retries
            &&& (status == 429 || status == 403) && attempt < max_retries ==> action
                == RetryAction::Wait(delay_seconds(attempt, retry_after) as u64)
            &&& !((status == 429 || status == 403) && attempt < max_retries) ==> action
                == RetryAction::GiveUp
        }),
        !is_rate_limited(ReplyView::Delivered),
        !is_rate_limited(ReplyView::Failed),
        retry_action(attempt, max_retries, ReplyView::Delivered) == RetryAction::Deliver,
        retry_action(attempt, max_retries, ReplyView::Failed) == RetryAction::GiveUp,
{
}

/// A request that is only ever limited is made once and then repeated as often as allowed: a
/// download six times in all.
pub proof fn lemma_limited_requests_are_counted(replies: Seq<ReplyView>, max_retries: nat)
    requires
        replies.len() > max_retries,
        forall|i: int|
            0 <= i < replies.len() ==> (#[trigger] replies[i]) is Refused && (replies[i]->status
                == 429 || replies[i]->status == 403),
    ensures
        run(0, max_retries, replies) == (max_retries + 1, false),
        max_retries == DOWNLOAD_RETRIES ==> run(0, max_retries, replies).0 == 6,
{
    assert(stops_at(0, max_retries, replies, max_retries as int));
    lemma_requests_counted(0, max_retries, replies, max_retries as int);
}

/// What is told before a repetition gives the seconds, then which repetition it is, then of
/// how many.
pub proof fn lemma_repetition_is_told(seconds: nat, attempt: nat, max_retries: nat)
    ensures
        rate_limit_text(seconds, attempt, max_retries) == "Rate limited, retrying in "@
            + text::decimal(seconds) + "s... (attempt "@ + text::decimal(attempt) + "/"@
            + text::decimal(max_retries) + ")"@,
{
}

} // verus!
