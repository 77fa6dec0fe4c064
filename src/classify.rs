//! The mention classifier: a total, side-effect-free decision on one event.
use vstd::prelude::*;
use crate::text::{contains_id, contains_substring, escape_identifier, escaped_id, has_substring, listed};

verus! {

/// How far before launch, in milliseconds, an event may originate and still be handled.
pub const GRACE_MS: u64 = 10_000;

/// The bot's own account identifier and its transport-escaped form.
pub struct BotIdentity {
    pub mxid: String,
    pub mxid_escaped: String,
}

impl BotIdentity {
    /// The escaped form is the escaping of the identifier.
    pub open spec fn wf(&self) -> bool {
        self.mxid_escaped@ == escaped_id(self.mxid@)
    }

    /// Builds the identity from the account identifier, escaping it once.
    pub fn new(mxid: String) -> (r: BotIdentity)
        ensures
            r.mxid@ == mxid@,
            r.wf(),
    {
        let mxid_escaped = escape_identifier(mxid.as_str());
        BotIdentity { mxid, mxid_escaped }
    }
}

/// Process-wide, read-only configuration shared by classifier and dispatcher.
pub struct BotContext {
    /// Milliseconds since the Unix epoch at process start.
    pub launched_ts: u64,
    pub identity: BotIdentity,
    pub watched_rooms: Vec<String>,
    pub watched_test_rooms: Vec<String>,
    pub report_rooms: Vec<String>,
}

/// The bot's membership in the room an event arrived in.
#[derive(PartialEq, Eq, Structural, Clone, Copy, Debug)]
pub enum Membership {
    Joined,
    Invited,
    Left,
    Knocked,
    Banned,
}

/// Whether a message carries plain text or some other content type.
#[derive(PartialEq, Eq, Structural, Clone, Copy, Debug)]
pub enum MessageKind {
    Text,
    Other,
}

/// How a source room is monitored.
#[derive(PartialEq, Eq, Structural, Clone, Copy, Debug)]
pub enum RoomClassification {
    Watched,
    WatchedTest,
    Unmonitored,
}

/// The classifier's verdict on one event.
#[derive(PartialEq, Eq, Structural, Clone, Copy, Debug)]
pub enum Decision {
    Accept { is_test: bool },
    Reject,
}

/// An incoming room message, as the classifier and dispatcher read it.
pub struct IncomingEvent {
    pub sender: String,
    pub event_id: String,
    pub room_id: String,
    /// Origin timestamp in milliseconds since the Unix epoch.
    pub origin_ts: u64,
    pub kind: MessageKind,
    pub body: String,
    pub formatted_body: Option<String>,
    pub mentions: Option<Vec<String>>,
}

/// Watched takes precedence over watched-test when a room is in both lists.
pub open spec fn classification_of(
    room: Seq<char>,
    watched: Seq<String>,
    watched_test: Seq<String>,
) -> RoomClassification {
    if listed(watched, room) {
        RoomClassification::Watched
    } else if listed(watched_test, room) {
        RoomClassification::WatchedTest
    } else {
        RoomClassification::Unmonitored
    }
}

/// The event is not older than the grace window before launch.
pub open spec fn is_recent(origin_ts: u64, launched_ts: u64) -> bool {
    origin_ts as int >= launched_ts as int - GRACE_MS as int
}

/// The plain body names the bot, or the formatted body names it raw or escaped,
/// or the explicit mention list holds it. An absent field matches nothing.
pub open spec fn mentions_bot(ev: IncomingEvent, id: BotIdentity) -> bool {
    has_substring(ev.body@, id.mxid@) || (match ev.formatted_body {
        Some(f) => has_substring(f@, id.mxid@) || has_substring(f@, id.mxid_escaped@),
        None => false,
    }) || (match ev.mentions {
        Some(m) => listed(m@, id.mxid@),
        None => false,
    })
}

/// The decision the classifier owes for an event.
pub open spec fn decision_of(ev: IncomingEvent, membership: Membership, ctx: BotContext) -> Decision {
    let class = classification_of(ev.room_id@, ctx.watched_rooms@, ctx.watched_test_rooms@);
    if membership != Membership::Joined {
        Decision::Reject
    } else if ev.sender@ == ctx.identity.mxid@ {
        Decision::Reject
    } else if class == RoomClassification::Unmonitored {
        Decision::Reject
    } else if ev.kind != MessageKind::Text {
        Decision::Reject
    } else if !is_recent(ev.origin_ts, ctx.launched_ts) {
        Decision::Reject
    } else if !mentions_bot(ev, ctx.identity) {
        Decision::Reject
    } else {
        Decision::Accept { is_test: class == RoomClassification::WatchedTest }
    }
}

/// Classifies a source room against the watched and watched-test lists.
pub fn classify_room(room_id: &String, ctx: &BotContext) -> (r: RoomClassification)
    ensures
        r == classification_of(room_id@, ctx.watched_rooms@, ctx.watched_test_rooms@),
{
    if contains_id(&ctx.watched_rooms, room_id) {
        RoomClassification::Watched
    } else if contains_id(&ctx.watched_test_rooms, room_id) {
        RoomClassification::WatchedTest
    } else {
        RoomClassification::Unmonitored
    }
}

/// Whether the event's timestamp lies within the grace window or after launch.
pub fn is_recent_event(origin_ts: u64, launched_ts: u64) -> (r: bool)
    ensures
        r == is_recent(origin_ts, launched_ts),
{
    launched_ts < GRACE_MS || origin_ts >= launched_ts - GRACE_MS
}

/// Whether the event mentions the bot in its body, formatted body or mention list.
pub fn is_mention(ev: &IncomingEvent, id: &BotIdentity) -> (r: bool)
    ensures
        r == mentions_bot(*ev, *id),
{
    if contains_substring(ev.body.as_str(), id.mxid.as_str()) {
        return true;
    }
    let in_formatted = match &ev.formatted_body {
        Some(f) => contains_substring(f.as_str(), id.mxid.as_str()) || contains_substring(
            f.as_str(),
            id.mxid_escaped.as_str(),
        ),
        None => false,
    };
    if in_formatted {
        return true;
    }
    match &ev.mentions {
        Some(m) => contains_id(m, &id.mxid),
        None => false,
    }
}

/// Decides whether an event is a mention of the bot in a monitored room,
/// and whether that room is a test room.
pub fn classify_and_check(ev: &IncomingEvent, membership: Membership, ctx: &BotContext) -> (r:
    Decision)
    ensures
        r == decision_of(*ev, membership, *ctx),
{
    if membership != Membership::Joined {
        return Decision::Reject;
    }
    if ev.sender == ctx.identity.mxid {
        return Decision::Reject;
    }
    let class = classify_room(&ev.room_id, ctx);
    if class == RoomClassification::Unmonitored {
        return Decision::Reject;
    }
    if ev.kind != MessageKind::Text {
        return Decision::Reject;
    }
    if !is_recent_event(ev.origin_ts, ctx.launched_ts) {
        return Decision::Reject;
    }
    if !is_mention(ev, &ctx.identity) {
        return Decision::Reject;
    }
    Decision::Accept { is_test: class == RoomClassification::WatchedTest }
}

/// Two events that carry the same values, field by field.
pub open spec fn same_content(a: IncomingEvent, b: IncomingEvent) -> bool {
    &&& a.sender@ == b.sender@
    &&& a.event_id@ == b.event_id@
    &&& a.room_id@ == b.room_id@
    &&& a.origin_ts == b.origin_ts
    &&& a.kind == b.kind
    &&& a.body@ == b.body@
    &&& match (a.formatted_body, b.formatted_body) {
        (Some(x), Some(y)) => x@ == y@,
        (None, None) => true,
        _ => false,
    }
    &&& match (a.mentions, b.mentions) {
        (Some(x), Some(y)) => x@.len() == y@.len() && forall|i: int|
            0 <= i < x@.len() ==> #[trigger] x@[i]@ == y@[i]@,
        (None, None) => true,
        _ => false,
    }
}

/// An event sent by the bot itself is rejected, whatever it holds.
pub proof fn lemma_own_events_rejected(ev: IncomingEvent, membership: Membership, ctx: BotContext)
    requires
        ev.sender@ == ctx.identity.mxid@,
    ensures
        decision_of(ev, membership, ctx) == Decision::Reject,
{
}

/// A room listed both as watched and as watched-test is classified as watched,
/// so an event there is never accepted as a test mention.
pub proof fn lemma_watched_takes_precedence(
    ev: IncomingEvent,
    membership: Membership,
    ctx: BotContext,
)
    requires
        listed(ctx.watched_rooms@, ev.room_id@),
        listed(ctx.watched_test_rooms@, ev.room_id@),
    ensures
        classification_of(ev.room_id@, ctx.watched_rooms@, ctx.watched_test_rooms@)
            == RoomClassification::Watched,
        decision_of(ev, membership, ctx) != (Decision::Accept { is_test: true }),
{
}

/// An event that originates more than the grace window before launch is
/// rejected, even when it mentions the bot.
pub proof fn lemma_stale_events_rejected(ev: IncomingEvent, membership: Membership, ctx: BotContext)
    requires
        (ev.origin_ts as int) < ctx.launched_ts as int - GRACE_MS as int,
    ensures
        decision_of(ev, membership, ctx) == Decision::Reject,
{
}

/// A recent text event from someone else in a joined, watched room whose plain
/// body holds the bot's identifier is accepted as a non-test mention.
pub proof fn lemma_body_mention_in_watched_room_accepted(ev: IncomingEvent, ctx: BotContext)
    requires
        ev.kind == MessageKind::Text,
        has_substring(ev.body@, ctx.identity.mxid@),
        listed(ctx.watched_rooms@, ev.room_id@),
        ev.sender@ != ctx.identity.mxid@,
        is_recent(ev.origin_ts, ctx.launched_ts),
    ensures
        decision_of(ev, Membership::Joined, ctx) == (Decision::Accept { is_test: false }),
{
}

/// The decision depends on the event's values alone: classifying the same
/// event again, or a copy of it, in the same context gives the same decision.
pub proof fn lemma_classification_repeatable(
    a: IncomingEvent,
    b: IncomingEvent,
    membership: Membership,
    ctx: BotContext,
)
    requires
        same_content(a, b),
    ensures
        decision_of(a, membership, ctx) == decision_of(b, membership, ctx),
{
    let id = ctx.identity.mxid@;
    if a.mentions is Some && b.mentions is Some {
        let x = a.mentions->Some_0;
        let y = b.mentions->Some_0;
        if listed(x@, id) {
            let i = choose|i: int| 0 <= i < x@.len() && #[trigger] x@[i]@ == id;
            assert(y@[i]@ == id);
        }
        if listed(y@, id) {
            let i = choose|i: int| 0 <= i < y@.len() && #[trigger] y@[i]@ == id;
            assert(x@[i]@ == id);
        }
    }
}

} // verus!
