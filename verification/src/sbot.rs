//! Gateway-facing logic: follow decisions, name resolution, and the stream
//! filter that reduces a raw message stream to root posts.
//!
//! The gateway itself is an external RPC service reached over asynchronous
//! I/O, so the calls live outside this crate; everything here is the pure
//! logic around them. A caller performs one RPC, hands the plain result to
//! these functions, and carries out the decision they return.

use vstd::prelude::*;
use vstd::arithmetic::div_mod::lemma_div_nonincreasing;
use vstd::string::{StrSliceExecFns, StringExecFns};
use crate::db::{Post, PostView};

verus! {

/// A failure while talking to the gateway.
#[derive(Clone, Debug, PartialEq)]
pub enum GatewayError {
    /// A transport, protocol or RPC failure, with the gateway's message.
    Rpc(String),
    /// The gateway answered a boolean query with something other than
    /// `"true"` or `"false"`.
    UnrecognizedResponse(String),
    /// The follow status of a peer could not be determined, so no blind
    /// follow or unfollow is attempted.
    FollowCheckFailed,
}

/// The follow relationship the gateway reported, decoded from its
/// string-typed answer. An answer outside `{"true", "false"}` is kept as
/// `Unknown` rather than being coerced to a boolean.
#[derive(Clone, Debug, PartialEq)]
pub enum FollowStatus {
    Following,
    NotFollowing,
    Unknown(String),
}

/// What the caller should do after a follow-status check.
#[derive(Clone, Copy, Debug, PartialEq, Eq, Structural)]
pub enum FollowAction {
    /// Issue the follow (or unfollow) RPC.
    Send,
    /// The relationship already holds; report success without an RPC.
    NoOp,
}

/// Compare two strings character by character.
#[verifier::loop_isolation(false)]
fn chars_equal(a: &str, b: &str) -> (r: bool)
    ensures
        r == (a@ == b@),
{
    let a_len = a.unicode_len();
    let b_len = b.unicode_len();
    if a_len != b_len {
        return false;
    }
    let mut i: usize = 0;
    while i < a_len
        invariant
            i <= a_len,
            forall|j: int| 0 <= j < i ==> a@[j] == b@[j],
        decreases a_len - i,
    {
        if a.get_char(i) != b.get_char(i) {
            return false;
        }
        i += 1;
    }
    proof {
        assert(a@ =~= b@);
    }
    true
}

/// Decode the gateway's string-typed follow answer into the three-valued
/// [`FollowStatus`].
pub fn parse_follow_response(response: &str) -> (s: FollowStatus)
    ensures
        response@ == "true"@ ==> s == FollowStatus::Following,
        response@ == "false"@ ==> s == FollowStatus::NotFollowing,
        response@ != "true"@ && response@ != "false"@ ==> (s matches FollowStatus::Unknown(raw)
            && raw@ == response@),
{
    proof {
        reveal_strlit("true");
        reveal_strlit("false");
        assert(("true")@.len() == 4);
        assert(("false")@.len() == 5);
    }
    if chars_equal(response, "true") {
        FollowStatus::Following
    } else if chars_equal(response, "false") {
        FollowStatus::NotFollowing
    } else {
        FollowStatus::Unknown(response.to_owned())
    }
}

/// The decision followIfNotFollowing takes once the follow status is known.
pub open spec fn spec_follow_decision(status: FollowStatus) -> Result<FollowAction, GatewayError> {
    match status {
        FollowStatus::NotFollowing => Ok(FollowAction::Send),
        FollowStatus::Following => Ok(FollowAction::NoOp),
        FollowStatus::Unknown(_) => Err(GatewayError::FollowCheckFailed),
    }
}

/// The decision unfollowIfFollowing takes once the follow status is known.
pub open spec fn spec_unfollow_decision(status: FollowStatus) -> Result<
    FollowAction,
    GatewayError,
> {
    match status {
        FollowStatus::Following => Ok(FollowAction::Send),
        FollowStatus::NotFollowing => Ok(FollowAction::NoOp),
        FollowStatus::Unknown(_) => Err(GatewayError::FollowCheckFailed),
    }
}

/// Decide whether followIfNotFollowing must issue a follow RPC: only when
/// the peer is currently not followed. An unknown status is a
/// [`GatewayError::FollowCheckFailed`] error, never a blind follow.
pub fn follow_decision(status: &FollowStatus) -> (r: Result<FollowAction, GatewayError>)
    ensures
        r == spec_follow_decision(*status),
{
    match status {
        FollowStatus::NotFollowing => Ok(FollowAction::Send),
        FollowStatus::Following => Ok(FollowAction::NoOp),
        FollowStatus::Unknown(_) => Err(GatewayError::FollowCheckFailed),
    }
}

/// Decide whether unfollowIfFollowing must issue an unfollow RPC: only when
/// the peer is currently followed.
pub fn unfollow_decision(status: &FollowStatus) -> (r: Result<FollowAction, GatewayError>)
    ensures
        r == spec_unfollow_decision(*status),
{
    match status {
        FollowStatus::Following => Ok(FollowAction::Send),
        FollowStatus::NotFollowing => Ok(FollowAction::NoOp),
        FollowStatus::Unknown(_) => Err(GatewayError::FollowCheckFailed),
    }
}

/// Follow idempotence: the follow decision issues an RPC exactly when the
/// gateway reports the peer as not followed, and the unfollow decision
/// exactly when it reports the peer as followed. After a successful follow
/// the gateway reports `Following`, so a second followIfNotFollowing is a
/// no-op that still reports success; the mirror holds for
/// unfollowIfFollowing. Two calls in a row therefore issue at most one RPC.
pub proof fn lemma_follow_idempotent()
    ensures
        forall|s: FollowStatus|
            #[trigger] spec_follow_decision(s) == Ok::<FollowAction, GatewayError>(
                FollowAction::Send,
            ) <==> s == FollowStatus::NotFollowing,
        forall|s: FollowStatus|
            #[trigger] spec_unfollow_decision(s) == Ok::<FollowAction, GatewayError>(
                FollowAction::Send,
            ) <==> s == FollowStatus::Following,
        spec_follow_decision(FollowStatus::Following) == Ok::<FollowAction, GatewayError>(
            FollowAction::NoOp,
        ),
        spec_unfollow_decision(FollowStatus::NotFollowing) == Ok::<FollowAction, GatewayError>(
            FollowAction::NoOp,
        ),
{
}

/// The display name to store for a peer: the fetched name when the gateway
/// registered one, the peer's own public key otherwise.
pub fn resolve_name(public_key: &str, name: Option<String>) -> (r: String)
    ensures
        match name {
            Some(n) => r@ == n@,
            None => r@ == public_key@,
        },
{
    match name {
        Some(n) => n,
        None => public_key.to_owned(),
    }
}

/// The fields of one raw gateway message that the stream filter reads. The
/// caller projects them out of the gateway's message envelope; timestamps
/// arrive as whole milliseconds.
#[derive(Clone, Debug, PartialEq)]
pub struct RawMessage {
    /// The message reference assigned by the gateway.
    pub key: String,
    /// The message's sequence number in the author's append-only log.
    pub sequence: u64,
    /// The origin-assigned publish time, in milliseconds.
    pub timestamp_millis: i64,
    /// Whether the message's content type is "post".
    pub is_post_type: bool,
    /// Whether the message content carries a "root" reference, marking a
    /// reply rather than a top-level post.
    pub has_root: bool,
    /// The message's text content, if any.
    pub text: Option<String>,
}

/// A root post: a message of type "post" with no "root" reference.
pub open spec fn is_root_post(m: RawMessage) -> bool {
    m.is_post_type && !m.has_root
}

/// The text of a message, an empty string if absent.
pub open spec fn text_of(m: RawMessage) -> Seq<char> {
    match m.text {
        Some(t) => t@,
        None => Seq::empty(),
    }
}

/// What chrono renders for a timestamp in the fixed `%d %b %Y` format, if
/// the timestamp lies in chrono's supported range.
pub uninterp spec fn date_display(seconds: i64) -> Option<Seq<char>>;

/// Relies on chrono (DateTime::from_timestamp, DateTime::format with the
/// fixed format `%d %b %Y`, and rendering the result to a String): the
/// rendered date is a pure function of the timestamp, and an out-of-range
/// timestamp renders nothing.
#[verifier::external_body]
fn render_date(seconds: i64) -> (r: Option<String>)
    ensures
        match r {
            Some(s) => date_display(seconds) == Some(s@),
            None => date_display(seconds) is None,
        },
{
    chrono::DateTime::from_timestamp(seconds, 0).map(|dt| dt.format("%d %b %Y").to_string())
}

/// The date string stored with a post: chrono's rendering, or an empty
/// string for a timestamp outside chrono's range.
pub open spec fn spec_date_string(seconds: i64) -> Seq<char> {
    match date_display(seconds) {
        Some(s) => s,
        None => Seq::empty(),
    }
}

/// Milliseconds truncated to whole seconds (rounding toward zero, as the
/// `/` operator does on signed integers).
pub open spec fn spec_timestamp_seconds(millis: i64) -> int {
    if millis >= 0 {
        millis as int / 1000
    } else {
        -((-(millis as int)) / 1000)
    }
}

/// Convert a millisecond timestamp to whole seconds.
fn timestamp_seconds(millis: i64) -> (s: i64)
    ensures
        s as int == spec_timestamp_seconds(millis),
{
    if millis >= 0 {
        let q: u64 = (millis as u64) / 1000;
        proof {
            lemma_div_nonincreasing(millis as int, 1000);
        }
        q as i64
    } else {
        let t: i64 = -1 - millis;
        let abs: u64 = (t as u64) + 1;
        let q: u64 = abs / 1000;
        proof {
            lemma_div_nonincreasing(abs as int, 1000);
        }
        -(q as i64)
    }
}

/// The subject shown in list views: the first 52 characters of the text, or
/// nothing at all when the text is empty.
pub open spec fn spec_subject(text: Seq<char>) -> Option<Seq<char>> {
    if text.len() == 0 {
        None
    } else if text.len() <= 52 {
        Some(text)
    } else {
        Some(text.take(52))
    }
}

/// Derive the subject of a post from its text.
fn subject_of(text: &str) -> (r: Option<String>)
    ensures
        match r {
            Some(s) => spec_subject(text@) == Some(s@),
            None => spec_subject(text@) is None,
        },
{
    let n = text.unicode_len();
    if n == 0 {
        None
    } else if n <= 52 {
        proof {
            assert(text@.take(text@.len() as int) =~= text@);
        }
        Some(text.to_owned())
    } else {
        let s = text.substring_char(0, 52);
        proof {
            assert(text@.subrange(0, 52) =~= text@.take(52));
        }
        Some(s.to_owned())
    }
}

/// The post record derived from one root-post message.
pub open spec fn spec_post_of(m: RawMessage) -> PostView {
    PostView {
        key: m.key@,
        text: text_of(m),
        date: spec_date_string(spec_timestamp_seconds(m.timestamp_millis) as i64),
        sequence: m.sequence,
        read: false,
        timestamp: spec_timestamp_seconds(m.timestamp_millis) as i64,
        subject: spec_subject(text_of(m)),
    }
}

/// The root posts of a message stream, in arrival order. Errored elements
/// and non-post or reply messages contribute nothing.
pub open spec fn spec_root_posts(items: Seq<Result<RawMessage, GatewayError>>) -> Seq<PostView>
    decreases items.len(),
{
    if items.len() == 0 {
        Seq::empty()
    } else {
        let rest = spec_root_posts(items.drop_last());
        match items.last() {
            Ok(m) => if is_root_post(m) {
                rest.push(spec_post_of(m))
            } else {
                rest
            },
            Err(_) => rest,
        }
    }
}

/// The highest sequence number among the root posts of a message stream;
/// zero when there is none. Errored, non-post and reply elements never
/// advance it.
pub open spec fn spec_max_sequence(items: Seq<Result<RawMessage, GatewayError>>) -> u64
    decreases items.len(),
{
    if items.len() == 0 {
        0
    } else {
        let rest = spec_max_sequence(items.drop_last());
        match items.last() {
            Ok(m) => if is_root_post(m) && m.sequence > rest {
                m.sequence
            } else {
                rest
            },
            Err(_) => rest,
        }
    }
}

/// Filter a message stream and return the root posts it carries.
///
/// Each returned element includes the key of the post, the content text,
/// the date the post was published, the sequence number of the post and
/// whether it is read or unread. The first component is the highest
/// sequence number seen among the included posts: the caller's new
/// watermark. Errored elements are skipped; they never abort the batch.
#[verifier::loop_isolation(false)]
pub fn get_root_posts(items: &Vec<Result<RawMessage, GatewayError>>) -> (r: (u64, Vec<Post>))
    ensures
        r.0 == spec_max_sequence(items@),
        r.1@.map_values(|p: Post| p@) == spec_root_posts(items@),
{
    let ghost f = |p: Post| p@;
    let mut latest_sequence: u64 = 0;
    let mut posts: Vec<Post> = Vec::new();
    let mut i: usize = 0;
    while i < items.len()
        invariant
            i <= items@.len(),
            latest_sequence == spec_max_sequence(items@.take(i as int)),
            posts@.map_values(f) == spec_root_posts(items@.take(i as int)),
        decreases items@.len() - i,
    {
        proof {
            assert(items@.take(i + 1int).drop_last() =~= items@.take(i as int));
            assert(items@.take(i + 1int).last() == items@[i as int]);
        }
        let ghost posts_prev = posts@;
        match &items[i] {
            Ok(msg) => {
                if msg.is_post_type && !msg.has_root {
                    if msg.sequence > latest_sequence {
                        latest_sequence = msg.sequence;
                    }
                    let text = match &msg.text {
                        Some(t) => t.clone(),
                        None => String::new(),
                    };
                    let seconds = timestamp_seconds(msg.timestamp_millis);
                    let date = match render_date(seconds) {
                        Some(d) => d,
                        None => String::new(),
                    };
                    let subject = subject_of(text.as_str());
                    let post = Post::new(
                        msg.key.clone(),
                        text,
                        date,
                        msg.sequence,
                        seconds,
                        subject,
                    );
                    proof {
                        assert(post@ == spec_post_of(items@[i as int]->Ok_0));
                    }
                    posts.push(post);
                    proof {
                        assert(posts@.map_values(f) =~= posts_prev.map_values(f).push(post@));
                    }
                }
            },
            Err(_) => {},
        }
        i += 1;
    }
    proof {
        assert(items@.take(items@.len() as int) =~= items@);
    }
    (latest_sequence, posts)
}

} // verus!
