use bell::configuration::{EventResponse, Layer, OutputConfiguration, UrgencyConfiguration};
use bell::images::ImageData;
use bell::notification::{
    expire_timeout_from, parse_image_data_struct, sound_command_parts, split_command,
    split_whitespace, surface_plan, EventAction, Notification, NotificationCloseReason,
    NotificationUrgency, NotifyHints, NotifyRequest, RawImageData, SurfaceId, Timeout,
};

fn hints() -> NotifyHints {
    NotifyHints {
        image_data: None,
        has_image_path: false,
        icon_data: None,
        urgency: None,
        suppress_sound: None,
        sound_file: None,
        sound_name: None,
    }
}

fn request(h: NotifyHints) -> NotifyRequest {
    NotifyRequest {
        app_name: "app".to_owned(),
        replaces_id: 0,
        app_icon: String::new(),
        summary: "s".to_owned(),
        body: "b".to_owned(),
        expire_timeout: -1,
        hints: h,
    }
}

fn tiny_image(width: i32) -> ImageData {
    ImageData { width, height: 1, rowstride: 3, has_alpha: false, bits_per_sample: 8, channels: 3, data: vec![1, 2, 3] }
}

#[test]
fn urgency_bytes_and_names() {
    assert_eq!(NotificationUrgency::from(0u8), NotificationUrgency::Low);
    assert_eq!(NotificationUrgency::from(1u8), NotificationUrgency::Normal);
    assert_eq!(NotificationUrgency::from(2u8), NotificationUrgency::Critical);
    assert_eq!(NotificationUrgency::from(9u8), NotificationUrgency::Normal);
    assert_eq!(NotificationUrgency::Critical.to_string(), "Critical");
    assert_eq!(NotificationUrgency::Low.to_string(), "Low");
}

#[test]
fn close_reasons_have_protocol_numbers() {
    assert_eq!(NotificationCloseReason::Expired.code(), 1);
    assert_eq!(NotificationCloseReason::Dismissed.code(), 2);
    assert_eq!(NotificationCloseReason::Requested.code(), 3);
    assert_eq!(NotificationCloseReason::Undefined.code(), 4);
}

#[test]
fn protocol_timeouts() {
    assert_eq!(expire_timeout_from(-1), Some(Timeout::ServerDefault));
    assert_eq!(expire_timeout_from(0), None);
    assert_eq!(expire_timeout_from(2000), Some(Timeout::Millis(2000)));
}

#[test]
fn new_notification_defaults() {
    let n = Notification::new("a".to_owned(), "s".to_owned(), "b".to_owned());
    assert_eq!(n.id, None);
    assert_eq!(n.urgency, NotificationUrgency::Normal);
    assert!(n.is_dirty);
    assert!(!n.has_any_surface());
}

#[test]
fn surfaces_are_added_and_removed() {
    let mut n = Notification::new("a".to_owned(), "s".to_owned(), "b".to_owned());
    n.add_surface(SurfaceId(1));
    n.add_surface(SurfaceId(2));
    n.add_surface(SurfaceId(1));
    assert!(n.has_surface(&SurfaceId(2)));
    n.delete_surface(&SurfaceId(1));
    assert_eq!(n.surface_ids, vec![SurfaceId(2)]);
    assert_eq!(n.expire(), vec![SurfaceId(2)]);
    assert!(!n.has_any_surface());
}

#[test]
fn event_responses_on_a_notification() {
    let mut n = Notification::new("a".to_owned(), "s".to_owned(), "b".to_owned());
    n.add_surface(SurfaceId(5));
    assert_eq!(n.try_handle_event(&EventResponse::Nothing), EventAction::Ignored);
    assert_eq!(n.try_handle_event(&EventResponse::InvokeAction), EventAction::Ignored);
    assert_eq!(
        n.try_handle_event(&EventResponse::ExecuteCommand("echo a b".to_owned())),
        EventAction::RunCommand("echo a b".to_owned())
    );
    assert_eq!(n.try_handle_event(&EventResponse::PlaySound("paplay".to_owned())), EventAction::Done);
    n.sound_file = Some("/s.oga".to_owned());
    assert_eq!(
        n.try_handle_event(&EventResponse::PlaySound("paplay".to_owned())),
        EventAction::PlaySound { command: "paplay".to_owned(), sound_file: "/s.oga".to_owned() }
    );
    assert_eq!(
        n.try_handle_event(&EventResponse::CloseNotification),
        EventAction::DestroySurfaces(vec![SurfaceId(5)])
    );
    assert!(n.surface_ids.is_empty());
}

#[test]
fn timeouts_of_notifications() {
    let mut n = Notification::new("a".to_owned(), "s".to_owned(), "b".to_owned());
    assert_eq!(n.set_timeout(Timeout::ServerDefault), Some(5000));
    assert_eq!(n.expire_timeout, Some(Timeout::ServerDefault));
    n.urgency = NotificationUrgency::Critical;
    assert_eq!(n.set_timeout(Timeout::Millis(100)), None);
    assert_eq!(n.expire_timeout, Some(Timeout::Millis(100)));
}

#[test]
fn commands_split_at_the_first_space() {
    assert_eq!(
        split_command("notify-send  hello   world"),
        Some(("notify-send".to_owned(), vec!["hello".to_owned(), "world".to_owned()]))
    );
    assert_eq!(split_command("ls"), None);
    assert_eq!(split_whitespace(&['a', '\t', 'b', ' ', ' ']), vec!["a".to_owned(), "b".to_owned()]);
    assert_eq!(
        sound_command_parts("paplay --volume 3", "/s.oga"),
        ("paplay".to_owned(), vec!["--volume".to_owned(), "3".to_owned(), "/s.oga".to_owned()])
    );
    assert_eq!(sound_command_parts("paplay", "/s.oga"), ("paplay".to_owned(), vec!["/s.oga".to_owned()]));
}

#[test]
fn requests_become_notifications() {
    let mut h = hints();
    h.urgency = Some(2);
    h.sound_name = Some(Some("bell".to_owned()));
    h.icon_data = Some(Some(tiny_image(1)));
    let mut r = request(h);
    r.app_icon = "firefox".to_owned();
    let n = Notification::from_request(r, "/default.oga");
    assert_eq!(n.app_icon.as_deref(), Some("firefox"));
    assert_eq!(n.urgency, NotificationUrgency::Critical);
    assert_eq!(n.sound_file.as_deref(), Some("/usr/share/sounds/freedesktop/stereo/bell.oga"));
    assert_eq!(n.image_data.unwrap().width, 1);

    let n = Notification::from_request(request(hints()), "/default.oga");
    assert_eq!(n.app_icon, None);
    assert_eq!(n.sound_file.as_deref(), Some("/default.oga"));
    assert_eq!(n.urgency, NotificationUrgency::Normal);

    let mut h = hints();
    h.suppress_sound = Some(Some(true));
    h.sound_file = Some(Some("/x.oga".to_owned()));
    h.image_data = Some(Some(tiny_image(2)));
    h.icon_data = Some(Some(tiny_image(3)));
    let n = Notification::from_request(request(h), "/default.oga");
    assert_eq!(n.sound_file, None);
    assert_eq!(n.image_data.unwrap().width, 2);

    let mut h = hints();
    h.sound_file = Some(None);
    let n = Notification::from_request(request(h), "/default.oga");
    assert_eq!(n.sound_file, None);
}

#[test]
fn image_data_hints_are_read() {
    let raw = RawImageData {
        width: Some(2),
        height: Some(1),
        rowstride: Some(6),
        has_alpha: Some(false),
        bits_per_sample: Some(8),
        channels: Some(3),
        data: Some(vec![Some(1), Some(256 + 7), None, Some(-1), Some(0), Some(255)]),
    };
    let img = parse_image_data_struct(raw).unwrap();
    assert_eq!(img.width, 2);
    assert_eq!(img.data, vec![1, 7, 0, 255, 0, 255]);
    let missing = RawImageData {
        width: Some(2),
        height: None,
        rowstride: Some(6),
        has_alpha: Some(false),
        bits_per_sample: Some(8),
        channels: Some(3),
        data: Some(vec![]),
    };
    assert!(parse_image_data_struct(missing).is_none());
}

#[test]
fn surfaces_are_planned_from_output_settings() {
    let mut spec = OutputConfiguration::default();
    let mut critical = UrgencyConfiguration::default();
    critical.layer = Some(Layer::Overlay);
    spec.urgencies.insert("Critical".to_owned(), critical);
    let plan = surface_plan(&spec, NotificationUrgency::Critical).unwrap();
    assert_eq!((plan.width, plan.height), (260, 125));
    assert_eq!(plan.layer, Some(Layer::Overlay));
    assert_eq!(surface_plan(&spec, NotificationUrgency::Low).unwrap().layer, Some(Layer::Top));
    spec.width = None;
    assert!(surface_plan(&spec, NotificationUrgency::Low).is_none());
}
