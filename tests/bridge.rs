use shuttle_runtime::bridge::{declared_too_large, step, Action, Event, RequestBridge, Stage, BODY_LIMIT};

fn drive(events: &[Event]) -> Vec<Action> {
    let mut b = RequestBridge::new();
    events.iter().map(|e| b.advance(*e)).collect()
}

#[test]
fn declared_limit_edges() {
    assert_eq!(BODY_LIMIT, 65536);
    assert!(!declared_too_large(None));
    assert!(!declared_too_large(Some(0)));
    assert!(!declared_too_large(Some(65536)));
    assert!(declared_too_large(Some(65537)));
    assert!(declared_too_large(Some(u64::MAX)));
}

#[test]
fn small_body_passes_guest_reply() {
    let acts = drive(&[
        Event::Opened(Some(13)),
        Event::PartsWritten,
        Event::BodyCollected(13),
        Event::BodyWritten,
        Event::GuestReturned,
        Event::Decoded(200),
    ]);
    assert_eq!(
        acts,
        vec![
            Action::WriteParts,
            Action::CollectBody,
            Action::WriteBody,
            Action::InvokeGuest,
            Action::DecodeResponse,
            Action::ReplyFromGuest(200),
        ]
    );
}

#[test]
fn body_at_limit_is_accepted() {
    let acts = drive(&[Event::Opened(None), Event::PartsWritten, Event::BodyCollected(65536)]);
    assert_eq!(acts[2], Action::WriteBody);
}

#[test]
fn declared_oversize_is_413_without_guest() {
    let acts = drive(&[
        Event::Opened(Some(65537)),
        Event::PartsWritten,
        Event::BodyCollected(10),
        Event::BodyWritten,
        Event::GuestReturned,
    ]);
    assert_eq!(acts[1], Action::ReplyEmpty(413));
    assert!(!acts.contains(&Action::InvokeGuest));
}

#[test]
fn observed_oversize_is_413_without_guest() {
    let acts = drive(&[
        Event::Opened(None),
        Event::PartsWritten,
        Event::BodyCollected(70000),
        Event::BodyWritten,
        Event::GuestReturned,
    ]);
    assert_eq!(acts[2], Action::ReplyEmpty(413));
    assert!(!acts.contains(&Action::InvokeGuest));
}

#[test]
fn guest_failure_is_500() {
    let mut b = RequestBridge::new();
    b.advance(Event::Opened(None));
    b.advance(Event::PartsWritten);
    b.advance(Event::BodyCollected(0));
    b.advance(Event::BodyWritten);
    assert_eq!(b.advance(Event::Failed), Action::ReplyEmpty(500));
    assert!(b.is_finished());
    assert_eq!(b.advance(Event::Decoded(200)), Action::Idle);
}

#[test]
fn out_of_order_event_fails_closed() {
    let mut b = RequestBridge::new();
    assert_eq!(b.advance(Event::Opened(None)), Action::WriteParts);
    assert_eq!(b.advance(Event::GuestReturned), Action::ReplyEmpty(500));
    assert_eq!(b.stage(), Stage::Finished);
}

#[test]
fn session_open_failure_is_500() {
    assert_eq!(step(Stage::Opening, Event::Failed), (Stage::Finished, Action::ReplyEmpty(500)));
}

#[test]
fn every_session_starts_fresh() {
    let mut first = RequestBridge::new();
    first.advance(Event::Opened(None));
    first.advance(Event::Failed);
    let second = RequestBridge::new();
    assert_eq!(second.stage(), Stage::Opening);
}
