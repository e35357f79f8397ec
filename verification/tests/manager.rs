use bell::configuration::{EventHandler, EventResponse, EventTrigger};
use bell::manager::NotificationManager;
use bell::notification::{
    EventAction, Notification, NotificationCloseReason, NotificationError, NotificationUrgency,
    SurfaceId, SurfaceProcessingOutput, Timeout,
};

fn note(summary: &str) -> Notification {
    Notification::new("app".to_owned(), summary.to_owned(), "body".to_owned())
}

fn shown_on(summary: &str, surfaces: &[u64]) -> Notification {
    let mut n = note(summary);
    for s in surfaces {
        n.add_surface(SurfaceId(*s));
    }
    n
}

#[test]
fn new_manager_is_empty() {
    let m = NotificationManager::new();
    assert!(!m.has_had_any_notification());
    assert!(!m.has_any_active_notification());
    assert!(!m.is_active());
    assert!(m.get_configuration().is_none());
    assert!(m.active_ids().is_empty());
}

#[test]
fn added_notifications_get_increasing_ids() {
    let mut m = NotificationManager::new();
    let (a, action) = m.add_notification(note("first"));
    assert_eq!(action, EventAction::Ignored);
    let (b, _) = m.add_notification(note("second"));
    assert_eq!((a, b), (1, 2));
    assert!(m.has_had_any_notification());
    assert!(m.has_any_active_notification());
    assert!(m.is_active());
    assert_eq!(m.get_notification(1).unwrap().summary, "first");
    assert_eq!(m.get_notification(2).unwrap().id, Some(2));
    assert_eq!(m.active_ids(), vec![1, 2]);
}

#[test]
fn id_after_the_largest_wraps_to_one() {
    let mut m = NotificationManager::new();
    m.biggest_id_given = u32::MAX;
    let (id, _) = m.add_notification(note("wrapped"));
    assert_eq!(id, 1);
    assert_eq!(m.biggest_id_given, 1);
}

#[test]
fn closing_unknown_notification_fails() {
    let mut m = NotificationManager::new();
    let r = m.close_notification(5, NotificationCloseReason::Requested);
    match r {
        Err(e) => {
            assert_eq!(e, NotificationError::InvalidID(5));
            assert_eq!(e.message(), "Invalid ID (5)");
        }
        Ok(_) => panic!("closing an unknown notification succeeded"),
    }
    assert!(m.inactive_uncommited_notification_ids.is_empty());
}

#[test]
fn closing_twice_fails_the_second_time_and_is_reported_once() {
    let mut m = NotificationManager::new();
    let (id, _) = m.add_notification(shown_on("x", &[3, 4]));
    let expiry = m.close_notification(id, NotificationCloseReason::Requested).unwrap();
    assert_eq!(expiry.surfaces, vec![SurfaceId(3), SurfaceId(4)]);
    assert_eq!(expiry.closed_action, EventAction::Ignored);
    assert!(!m.has_any_active_notification());
    assert!(m.close_notification(id, NotificationCloseReason::Requested).is_err());

    let result = m.process_active_notifications();
    assert_eq!(result.commit.closed, vec![(id, NotificationCloseReason::Requested)]);
    let again = m.process_active_notifications();
    assert!(again.commit.closed.is_empty());
}

#[test]
fn replacing_keeps_the_requested_id() {
    let mut m = NotificationManager::new();
    let expired = m.replace_notification(7, note("replacement"));
    assert!(expired.is_none());
    assert_eq!(m.biggest_id_given, 1);
    assert_eq!(m.get_notification(7).unwrap().id, Some(7));

    let expired = m.replace_notification(7, shown_on("again", &[9]));
    assert!(expired.is_some());
    assert_eq!(m.get_notification(7).unwrap().summary, "again");
    assert_eq!(m.get_notification(7).unwrap().id, Some(7));
    assert_eq!(m.active_ids(), vec![7]);
}

#[test]
fn replacing_an_older_notification_keeps_its_id() {
    let mut m = NotificationManager::new();
    for summary in ["a", "b", "c", "d", "e"] {
        m.add_notification(note(summary));
    }
    assert_eq!(m.biggest_id_given, 5);
    m.replace_notification(3, note("replacement"));
    assert_eq!(m.biggest_id_given, 5);
    assert_eq!(m.get_notification(3).unwrap().id, Some(3));
    assert_eq!(m.get_notification(5).unwrap().summary, "e");
}

#[test]
fn received_response_runs_for_new_notifications() {
    let mut m = NotificationManager::new();
    let mut h = EventHandler::new();
    h.insert(EventTrigger::OnNotificationReceived, EventResponse::ExecuteCommand("echo hi".to_owned()));
    h.insert(EventTrigger::OnNotificationClosed, EventResponse::PlaySound("paplay".to_owned()));
    m.set_event_handler(h);
    let mut n = note("x");
    n.sound_file = Some("/tmp/ding.oga".to_owned());
    let (id, action) = m.add_notification(n);
    assert_eq!(action, EventAction::RunCommand("echo hi".to_owned()));
    let expiry = m.expire_notification(id).unwrap();
    assert_eq!(
        expiry.closed_action,
        EventAction::PlaySound { command: "paplay".to_owned(), sound_file: "/tmp/ding.oga".to_owned() }
    );
}

#[test]
fn clicks_are_carried_out_on_the_clicked_notification() {
    let mut m = NotificationManager::new();
    let mut h = EventHandler::new();
    h.insert(EventTrigger::OnLeftClick, EventResponse::CloseNotification);
    m.set_event_handler(h);
    let (a, _) = m.add_notification(shown_on("a", &[10]));
    let (b, _) = m.add_notification(shown_on("b", &[20, 21]));
    assert_eq!(m.owner_of(SurfaceId(21)), Some(b));
    assert_eq!(m.owner_of(SurfaceId(99)), None);

    m.add_event_triggers(vec![
        (SurfaceId(21), vec![EventTrigger::OnLeftClick]),
        (SurfaceId(99), vec![EventTrigger::OnLeftClick]),
    ]);
    assert_eq!(m.event_triggers_to_process.len(), 1);

    let events = m.handle_event_triggers();
    assert_eq!(events.len(), 1);
    assert_eq!(events[0].0, b);
    assert_eq!(
        events[0].1,
        Some(vec![EventAction::DestroySurfaces(vec![SurfaceId(20), SurfaceId(21)])])
    );
    assert!(m.get_notification(b).unwrap().surface_ids.is_empty());
    assert_eq!(m.get_notification(a).unwrap().surface_ids, vec![SurfaceId(10)]);
    assert_eq!(m.event_triggers_to_process.len(), 0);
}

#[test]
fn processing_surfaces_drops_lost_ones_and_closes_empty_notifications() {
    let mut m = NotificationManager::new();
    let (id, _) = m.add_notification(shown_on("x", &[1, 2]));

    let lost = m.process_notification_surfaces(
        id,
        &vec![SurfaceProcessingOutput::Continue, SurfaceProcessingOutput::SurfaceDestroyed],
    );
    assert_eq!(lost, vec![SurfaceId(2)]);
    let n = m.get_notification(id).unwrap();
    assert_eq!(n.surface_ids, vec![SurfaceId(1)]);
    assert!(!n.is_dirty);
    assert!(m.recently_inactivated.is_empty());

    let lost = m.process_notification_surfaces(id, &vec![SurfaceProcessingOutput::NoSurface]);
    assert_eq!(lost, vec![SurfaceId(1)]);
    assert_eq!(m.recently_inactivated, vec![(id, NotificationCloseReason::Undefined)]);

    let result = m.process_active_notifications();
    assert_eq!(result.commit.closed, vec![(id, NotificationCloseReason::Undefined)]);
    assert_eq!(result.commit.expiries.len(), 1);
    assert!(result.commit.expiries[0].1.is_some());
    assert!(!m.has_any_active_notification());
}

#[test]
fn notification_without_surfaces_is_dismissed() {
    let mut m = NotificationManager::new();
    let (id, _) = m.add_notification(note("gone"));
    let lost = m.process_notification_surfaces(id, &vec![]);
    assert!(lost.is_empty());
    let result = m.process_active_notifications();
    assert_eq!(result.commit.closed, vec![(id, NotificationCloseReason::Dismissed)]);
}

#[test]
fn timeouts_follow_urgency() {
    let mut m = NotificationManager::new();
    let (normal, _) = m.add_notification(note("n"));
    let mut c = note("c");
    c.urgency = NotificationUrgency::Critical;
    let (critical, _) = m.add_notification(c);
    assert_eq!(m.set_timeout_for_notification(normal, Timeout::ServerDefault), Some(Some(5000)));
    assert_eq!(m.set_timeout_for_notification(normal, Timeout::Millis(1200)), Some(Some(1200)));
    assert_eq!(m.get_notification(normal).unwrap().expire_timeout, Some(Timeout::Millis(1200)));
    assert_eq!(m.set_timeout_for_notification(critical, Timeout::Millis(10)), Some(None));
    assert_eq!(m.set_timeout_for_notification(99, Timeout::Millis(10)), None);
}

#[test]
fn submitted_notifications_follow_the_protocol() {
    let mut m = NotificationManager::new();
    let s = m.submit_notification(note("new"), 0, -1);
    assert_eq!(s.id, 1);
    assert_eq!(s.expiry_delay, Some(5000));
    assert!(s.received_action.is_some());
    assert!(s.replaced.is_none());

    let s = m.submit_notification(note("replacing"), 1, 0);
    assert_eq!(s.id, 1);
    assert_eq!(s.expiry_delay, None);
    assert!(s.received_action.is_none());
    assert!(s.replaced.is_some());
    assert_eq!(m.get_notification(1).unwrap().summary, "replacing");

    let s = m.submit_notification(note("timed"), 0, 2500);
    assert_eq!(s.id, 2);
    assert_eq!(s.expiry_delay, Some(2500));
    assert_eq!(m.get_notification(2).unwrap().expire_timeout, Some(Timeout::Millis(2500)));
}

#[test]
fn requested_closes_are_reported_before_surfaceless_ones() {
    let mut m = NotificationManager::new();
    let (first, _) = m.add_notification(shown_on("first", &[1]));
    let (second, _) = m.add_notification(shown_on("second", &[2]));
    assert!(m.close_notification(second, NotificationCloseReason::Requested).is_ok());
    m.process_notification_surfaces(first, &vec![SurfaceProcessingOutput::SurfaceDestroyed]);
    let result = m.process_active_notifications();
    assert_eq!(
        result.commit.closed,
        vec![(second, NotificationCloseReason::Requested), (first, NotificationCloseReason::Undefined)]
    );
    assert!(m.get_notification(first).is_none());
}
