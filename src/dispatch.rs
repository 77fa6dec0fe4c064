//! The report dispatcher: composes the notification for an accepted mention and
//! steps through the report rooms, then decides on the acknowledgement.
//!
//! The driver asks for the next action, performs it, and records whether it
//! succeeded; the dispatcher itself performs no I/O.
use vstd::prelude::*;
use crate::classify::{Decision, IncomingEvent};
use crate::permalink::{event_permalink, matrix_to_event_uri_of, permalink_ids_parse_of};
use crate::text::has_substring;

verus! {

/// The outgoing notification for one accepted mention.
pub struct ReportMessage {
    /// Sent as a low-visibility notice rather than a plain text message.
    pub notice: bool,
    /// Markdown text of the message.
    pub body: String,
    /// Carries the structural whole-room mention flag.
    pub room_mention: bool,
}

/// What the driver is to do next.
pub enum DispatchAction {
    /// Send `message` to the report room `room_id`.
    Report { room_id: String, message: ReportMessage },
    /// React with `key` to the event `event_id` in room `room_id`.
    Acknowledge { room_id: String, event_id: String, key: String },
    /// Nothing is left to do; `reported` tells whether any report got through.
    Finished { reported: bool },
}

/// The text of the notification for a mention by `sender` at permalink `uri`.
pub open spec fn report_body(sender: Seq<char>, uri: Seq<char>, is_test: bool) -> Seq<char> {
    if is_test {
        "I was pinged by "@ + sender + " at "@ + uri
            + ", which is a test room so I won't bother you with a room ping this time"@
    } else {
        "@room: I was pinged by "@ + sender + " at "@ + uri
    }
}

/// `m` is the notification owed for a mention by `sender` at `uri`.
pub open spec fn is_report_for(m: ReportMessage, sender: Seq<char>, uri: Seq<char>, is_test: bool) -> bool {
    &&& m.body@ == report_body(sender, uri, is_test)
    &&& m.notice == is_test
    &&& m.room_mention == !is_test
}

/// The emoji that acknowledges a relayed mention: an incoming envelope.
pub open spec fn ack_reaction_key() -> Seq<char> {
    seq!['\u{1F4E8}']
}

impl ReportMessage {
    /// A field-by-field copy.
    pub fn duplicate(&self) -> (r: ReportMessage)
        ensures
            r == *self,
    {
        ReportMessage { notice: self.notice, body: self.body.clone(), room_mention: self.room_mention }
    }
}

/// Composes the notification: a notice in a test room, otherwise a text message
/// that alerts the whole report room. Both name the sender and the permalink.
pub fn compose_report(sender: &str, uri: &str, is_test: bool) -> (r: ReportMessage)
    ensures
        is_report_for(r, sender@, uri@, is_test),
{
    let mut body = if is_test {
        String::from_str("I was pinged by ")
    } else {
        String::from_str("@room: I was pinged by ")
    };
    body.append(sender);
    body.append(" at ");
    body.append(uri);
    if is_test {
        body.append(", which is a test room so I won't bother you with a room ping this time");
    }
    ReportMessage { notice: is_test, body, room_mention: !is_test }
}

/// Progress of relaying one accepted mention.
pub struct Dispatch {
    pub report_rooms: Vec<String>,
    pub message: ReportMessage,
    /// The room of the original event.
    pub room_id: String,
    /// The original event.
    pub event_id: String,
    /// The original event's permalink.
    pub permalink: String,
    pub ack_key: String,
    /// How many report rooms have been attempted.
    pub next: usize,
    /// Whether any report got through.
    pub reported: bool,
    /// Whether the acknowledgement has been attempted.
    pub acked: bool,
}

impl Dispatch {
    pub open spec fn wf(&self) -> bool {
        &&& self.next <= self.report_rooms@.len() <= usize::MAX
        &&& self.ack_key@ == ack_reaction_key()
    }

    /// Nothing has been attempted yet.
    pub open spec fn fresh(&self) -> bool {
        &&& self.wf()
        &&& self.next == 0
        &&& !self.reported
        &&& !self.acked
    }

    /// Every report room in order, then one acknowledgement if any report got through.
    pub open spec fn action(&self) -> DispatchAction {
        if self.next < self.report_rooms@.len() {
            DispatchAction::Report {
                room_id: self.report_rooms@[self.next as int],
                message: self.message,
            }
        } else if self.reported && !self.acked {
            DispatchAction::Acknowledge {
                room_id: self.room_id,
                event_id: self.event_id,
                key: self.ack_key,
            }
        } else {
            DispatchAction::Finished { reported: self.reported }
        }
    }

    /// The state once the current action has been performed with outcome `succeeded`.
    /// A failed report never stops the fan-out; a reaction is attempted once only.
    pub open spec fn after(self, succeeded: bool) -> Dispatch {
        if self.next < self.report_rooms@.len() {
            Dispatch { next: (self.next + 1) as usize, reported: self.reported || succeeded, ..self }
        } else if self.reported && !self.acked {
            Dispatch { acked: true, ..self }
        } else {
            self
        }
    }

    /// Starts relaying a mention of `ev`, whose permalink is `uri`, to `report_rooms`.
    pub fn new(ev: &IncomingEvent, is_test: bool, uri: &String, report_rooms: Vec<String>) -> (r:
        Dispatch)
        ensures
            r.fresh(),
            r.report_rooms@ == report_rooms@,
            r.room_id@ == ev.room_id@,
            r.event_id@ == ev.event_id@,
            r.permalink@ == uri@,
            is_report_for(r.message, ev.sender@, uri@, is_test),
    {
        let message = compose_report(ev.sender.as_str(), uri.as_str(), is_test);
        let ack_key = String::from_str("\u{1F4E8}");
        proof {
            reveal_strlit("\u{1F4E8}");
        }
        assert(ack_key@ =~= ack_reaction_key());
        // A vector's length fits in `usize`; asking for it puts that on record.
        let _count = report_rooms.len();
        Dispatch {
            report_rooms,
            message,
            room_id: ev.room_id.clone(),
            event_id: ev.event_id.clone(),
            permalink: uri.clone(),
            ack_key,
            next: 0,
            reported: false,
            acked: false,
        }
    }

    /// Starts relaying an event that the classifier accepted. Gives `None` for a
    /// rejected event, and exactly where the event's room or event identifier
    /// does not parse, so that no permalink can be built.
    pub fn start(ev: &IncomingEvent, decision: Decision, report_rooms: Vec<String>) -> (r: Option<
        Dispatch,
    >)
        ensures
            r is Some <==> (decision is Accept && permalink_ids_parse_of(
                ev.room_id@,
                ev.event_id@,
            )),
            r matches Some(d) ==> {
                &&& decision is Accept
                &&& d.fresh()
                &&& d.report_rooms@ == report_rooms@
                &&& d.room_id@ == ev.room_id@
                &&& d.event_id@ == ev.event_id@
                &&& d.permalink@ == matrix_to_event_uri_of(ev.room_id@, ev.event_id@)
                &&& is_report_for(
                    d.message,
                    ev.sender@,
                    matrix_to_event_uri_of(ev.room_id@, ev.event_id@),
                    decision->is_test,
                )
            },
    {
        match decision {
            Decision::Reject => None,
            Decision::Accept { is_test } => match event_permalink(
                ev.room_id.as_str(),
                ev.event_id.as_str(),
            ) {
                Some(uri) => Some(Dispatch::new(ev, is_test, &uri, report_rooms)),
                None => None,
            },
        }
    }

    /// The action the driver is to perform next.
    pub fn next_action(&self) -> (r: DispatchAction)
        requires
            self.wf(),
        ensures
            r == self.action(),
    {
        if self.next < self.report_rooms.len() {
            DispatchAction::Report {
                room_id: self.report_rooms[self.next].clone(),
                message: self.message.duplicate(),
            }
        } else if self.reported && !self.acked {
            DispatchAction::Acknowledge {
                room_id: self.room_id.clone(),
                event_id: self.event_id.clone(),
                key: self.ack_key.clone(),
            }
        } else {
            DispatchAction::Finished { reported: self.reported }
        }
    }

    /// Records the outcome of the action last returned by `next_action`.
    pub fn record(&mut self, succeeded: bool)
        requires
            old(self).wf(),
        ensures
            *final(self) == old(self).after(succeeded),
            final(self).wf(),
    {
        if self.next < self.report_rooms.len() {
            self.next = self.next + 1;
            self.reported = self.reported || succeeded;
        } else if self.reported && !self.acked {
            self.acked = true;
        }
    }
}

/// The state after performing actions with the given outcomes, in order.
pub open spec fn run(d: Dispatch, outcomes: Seq<bool>) -> Dispatch
    decreases outcomes.len(),
{
    if outcomes.len() == 0 {
        d
    } else {
        run(d, outcomes.drop_last()).after(outcomes.last())
    }
}

/// How many acknowledgement reactions are attempted over a run.
pub open spec fn acks_in_run(d: Dispatch, outcomes: Seq<bool>) -> nat
    decreases outcomes.len(),
{
    if outcomes.len() == 0 {
        0
    } else {
        acks_in_run(d, outcomes.drop_last()) + if run(d, outcomes.drop_last()).action() is Acknowledge {
            1nat
        } else {
            0nat
        }
    }
}

/// One of the first `n` outcomes is a success.
pub open spec fn any_success(outcomes: Seq<bool>, n: int) -> bool {
    exists|i: int| 0 <= i < n && i < outcomes.len() && #[trigger] outcomes[i]
}

/// Whatever the classification, the notification names the sender and the
/// permalink verbatim.
pub proof fn lemma_report_names_sender_and_link(sender: Seq<char>, uri: Seq<char>, is_test: bool)
    ensures
        has_substring(report_body(sender, uri, is_test), sender),
        has_substring(report_body(sender, uri, is_test), uri),
{
    let body = report_body(sender, uri, is_test);
    let p = if is_test {
        "I was pinged by "@
    } else {
        "@room: I was pinged by "@
    };
    let q = p + sender + " at "@;
    assert(body.subrange(p.len() as int, (p.len() + sender.len()) as int) =~= sender);
    assert(body.subrange(q.len() as int, (q.len() + uri.len()) as int) =~= uri);
}

/// The state of a fresh dispatch after `k` recorded outcomes, and the
/// acknowledgements attempted so far.
proof fn lemma_run_state(d: Dispatch, outcomes: Seq<bool>)
    requires
        d.fresh(),
    ensures
        ({
            let n = d.report_rooms@.len() as int;
            let k = outcomes.len() as int;
            let any = any_success(outcomes, n);
            let r = run(d, outcomes);
            &&& r.report_rooms == d.report_rooms
            &&& r.message == d.message
            &&& r.room_id == d.room_id
            &&& r.event_id == d.event_id
            &&& r.ack_key == d.ack_key
            &&& r.next as int == if k < n { k } else { n }
            &&& r.reported == any
            &&& r.acked == (k > n && any)
            &&& acks_in_run(d, outcomes) == if k > n && any { 1nat } else { 0nat }
        }),
    decreases outcomes.len(),
{
    let n = d.report_rooms@.len() as int;
    let k = outcomes.len() as int;
    if k > 0 {
        let p = outcomes.drop_last();
        lemma_run_state(d, p);
        if any_success(p, n) {
            let i = choose|i: int| 0 <= i < n && i < p.len() && #[trigger] p[i];
            assert(outcomes[i]);
        }
        if any_success(outcomes, n) && k - 1 >= n {
            let i = choose|i: int| 0 <= i < n && i < outcomes.len() && #[trigger] outcomes[i];
            assert(p[i]);
        }
        if any_success(outcomes, n) && k - 1 < n && !outcomes[k - 1] {
            let i = choose|i: int| 0 <= i < n && i < outcomes.len() && #[trigger] outcomes[i];
            assert(p[i]);
        }
    }
}

/// Over a complete run of a fresh dispatch, every report room is attempted in
/// order; then exactly one acknowledgement of the original event is attempted
/// if any report got through, and none if every report failed.
pub proof fn lemma_acknowledged_once_iff_reported(d: Dispatch, outcomes: Seq<bool>)
    requires
        d.fresh(),
        outcomes.len() > d.report_rooms@.len(),
    ensures
        forall|k: int|
            0 <= k < d.report_rooms@.len() ==> #[trigger] run(d, outcomes.take(k)).action() == (
            DispatchAction::Report { room_id: d.report_rooms@[k], message: d.message }),
        run(d, outcomes.take(d.report_rooms@.len() as int)).action() == if any_success(
            outcomes,
            d.report_rooms@.len() as int,
        ) {
            DispatchAction::Acknowledge { room_id: d.room_id, event_id: d.event_id, key: d.ack_key }
        } else {
            DispatchAction::Finished { reported: false }
        },
        acks_in_run(d, outcomes) == if any_success(outcomes, d.report_rooms@.len() as int) {
            1nat
        } else {
            0nat
        },
{
    let n = d.report_rooms@.len() as int;
    assert forall|k: int| 0 <= k < n implies #[trigger] run(d, outcomes.take(k)).action() == (
    DispatchAction::Report { room_id: d.report_rooms@[k], message: d.message }) by {
        lemma_run_state(d, outcomes.take(k));
    }
    let t = outcomes.take(n);
    lemma_run_state(d, t);
    if any_success(t, n) {
        let i = choose|i: int| 0 <= i < n && i < t.len() && #[trigger] t[i];
        assert(outcomes[i]);
    }
    if any_success(outcomes, n) {
        let i = choose|i: int| 0 <= i < n && i < outcomes.len() && #[trigger] outcomes[i];
        assert(t[i]);
    }
    lemma_run_state(d, outcomes);
}

} // verus!
