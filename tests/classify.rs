use report_mention_bot::classify::{
    classify_and_check, classify_room, is_recent_event, BotContext, BotIdentity, Decision,
    IncomingEvent, Membership, MessageKind, RoomClassification,
};

const LAUNCH: u64 = 1_700_000_000_000;

fn context() -> BotContext {
    BotContext {
        launched_ts: LAUNCH,
        identity: BotIdentity::new(String::from("@bot:server")),
        watched_rooms: vec![String::from("!abc:server"), String::from("!both:server")],
        watched_test_rooms: vec![String::from("!test:server"), String::from("!both:server")],
        report_rooms: vec![String::from("!report:server")],
    }
}

fn event(room: &str, body: &str) -> IncomingEvent {
    IncomingEvent {
        sender: String::from("@alice:server"),
        event_id: String::from("$ev1:server"),
        room_id: String::from(room),
        origin_ts: LAUNCH + 1000,
        kind: MessageKind::Text,
        body: String::from(body),
        formatted_body: None,
        mentions: None,
    }
}

#[test]
fn identity_holds_escaped_form() {
    let id = BotIdentity::new(String::from("@bot:server"));
    assert_eq!(id.mxid, "@bot:server");
    assert_eq!(id.mxid_escaped, "%40bot%3Aserver");
}

#[test]
fn body_mention_in_watched_room_accepted() {
    let ev = event("!abc:server", "hey @bot:server please look");
    assert_eq!(
        classify_and_check(&ev, Membership::Joined, &context()),
        Decision::Accept { is_test: false }
    );
}

#[test]
fn escaped_mention_in_formatted_body_of_test_room() {
    let mut ev = event("!test:server", "hey bot please look");
    ev.formatted_body = Some(String::from("<a href=\"https://matrix.to/#/%40bot%3Aserver\">bot</a>"));
    assert_eq!(
        classify_and_check(&ev, Membership::Joined, &context()),
        Decision::Accept { is_test: true }
    );
}

#[test]
fn raw_mention_in_formatted_body() {
    let mut ev = event("!abc:server", "hey bot");
    ev.formatted_body = Some(String::from("<b>@bot:server</b>"));
    assert_eq!(
        classify_and_check(&ev, Membership::Joined, &context()),
        Decision::Accept { is_test: false }
    );
}

#[test]
fn explicit_mention_list() {
    let mut ev = event("!abc:server", "hey bot");
    ev.mentions = Some(vec![String::from("@carol:server"), String::from("@bot:server")]);
    assert_eq!(
        classify_and_check(&ev, Membership::Joined, &context()),
        Decision::Accept { is_test: false }
    );
    ev.mentions = Some(vec![String::from("@carol:server")]);
    assert_eq!(classify_and_check(&ev, Membership::Joined, &context()), Decision::Reject);
}

#[test]
fn no_mention_rejected() {
    let mut ev = event("!abc:server", "hey everyone");
    ev.formatted_body = Some(String::from("<b>hey everyone</b>"));
    ev.mentions = Some(Vec::new());
    assert_eq!(classify_and_check(&ev, Membership::Joined, &context()), Decision::Reject);
}

#[test]
fn escaped_id_in_plain_body_does_not_count() {
    let ev = event("!abc:server", "see %40bot%3Aserver");
    assert_eq!(classify_and_check(&ev, Membership::Joined, &context()), Decision::Reject);
}

#[test]
fn mention_match_is_case_sensitive() {
    let ev = event("!abc:server", "hey @Bot:server");
    assert_eq!(classify_and_check(&ev, Membership::Joined, &context()), Decision::Reject);
}

#[test]
fn own_events_rejected() {
    let mut ev = event("!abc:server", "hey @bot:server please look");
    ev.sender = String::from("@bot:server");
    ev.mentions = Some(vec![String::from("@bot:server")]);
    assert_eq!(classify_and_check(&ev, Membership::Joined, &context()), Decision::Reject);
}

#[test]
fn room_in_both_lists_is_watched() {
    let ctx = context();
    assert_eq!(classify_room(&String::from("!both:server"), &ctx), RoomClassification::Watched);
    let ev = event("!both:server", "hey @bot:server");
    assert_eq!(
        classify_and_check(&ev, Membership::Joined, &ctx),
        Decision::Accept { is_test: false }
    );
}

#[test]
fn room_classifications() {
    let ctx = context();
    assert_eq!(classify_room(&String::from("!abc:server"), &ctx), RoomClassification::Watched);
    assert_eq!(classify_room(&String::from("!test:server"), &ctx), RoomClassification::WatchedTest);
    assert_eq!(classify_room(&String::from("!other:server"), &ctx), RoomClassification::Unmonitored);
}

#[test]
fn unmonitored_room_rejected() {
    let ev = event("!other:server", "hey @bot:server");
    assert_eq!(classify_and_check(&ev, Membership::Joined, &context()), Decision::Reject);
}

#[test]
fn room_not_joined_rejected() {
    let ev = event("!abc:server", "hey @bot:server");
    for m in [Membership::Invited, Membership::Left, Membership::Knocked, Membership::Banned] {
        assert_eq!(classify_and_check(&ev, m, &context()), Decision::Reject);
    }
}

#[test]
fn non_text_rejected() {
    let mut ev = event("!abc:server", "hey @bot:server");
    ev.kind = MessageKind::Other;
    assert_eq!(classify_and_check(&ev, Membership::Joined, &context()), Decision::Reject);
}

#[test]
fn stale_events_rejected() {
    let mut ev = event("!abc:server", "hey @bot:server");
    ev.origin_ts = LAUNCH - 10_001;
    assert_eq!(classify_and_check(&ev, Membership::Joined, &context()), Decision::Reject);
    ev.origin_ts = LAUNCH - 10_000;
    assert_eq!(
        classify_and_check(&ev, Membership::Joined, &context()),
        Decision::Accept { is_test: false }
    );
}

#[test]
fn grace_window_bounds() {
    assert!(is_recent_event(LAUNCH, LAUNCH));
    assert!(is_recent_event(LAUNCH - 10_000, LAUNCH));
    assert!(!is_recent_event(LAUNCH - 10_001, LAUNCH));
    assert!(is_recent_event(0, 9_999));
    assert!(is_recent_event(0, 10_000));
    assert!(!is_recent_event(0, 10_001));
}

#[test]
fn classification_is_repeatable() {
    let ctx = context();
    let mut ev = event("!test:server", "hey @bot:server");
    ev.formatted_body = Some(String::from("x"));
    let first = classify_and_check(&ev, Membership::Joined, &ctx);
    let second = classify_and_check(&ev, Membership::Joined, &ctx);
    assert_eq!(first, Decision::Accept { is_test: true });
    assert_eq!(first, second);
}
