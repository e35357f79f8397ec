use bell::configuration::{
    default_idle_time, default_sound, default_true, parse_anchor, Anchor, Color, Configuration,
    EnableOption, EventHandler, EventResponse, EventTrigger, GrowthDirection, Layer, Margin,
    OutputConfiguration, UrgencyConfiguration,
};
use bell::layout::LineHeight;
use bell::table::Table;

fn blank_urgency() -> UrgencyConfiguration {
    UrgencyConfiguration {
        message_layout: None,
        font_size: None,
        font_family: None,
        text_color: None,
        background_color: None,
        icon_theme: None,
        border_color: None,
        border_size: None,
        border_radius: None,
        layer: None,
    }
}

fn blank_output() -> OutputConfiguration {
    OutputConfiguration {
        enabled: None,
        width: None,
        height: None,
        anchor: None,
        direction: None,
        margins: None,
        default_urgency: blank_urgency(),
        urgencies: Table::new(),
    }
}

fn blank_configuration() -> Configuration {
    Configuration {
        default_output_config: blank_output(),
        default_sound: default_sound(),
        persist_when_idle: default_true(),
        idle_time: default_idle_time(),
        events: EventHandler::new(),
        outputs: Table::new(),
    }
}

fn sized_output(width: i32, height: i32) -> OutputConfiguration {
    let mut o = blank_output();
    o.width = Some(width);
    o.height = Some(height);
    o
}

fn response(configuration: &Configuration, trigger: EventTrigger) -> EventResponse {
    configuration
        .get_event_handler()
        .get(&trigger)
        .unwrap_or(&EventResponse::Nothing)
        .clone()
}

#[test]
fn configuration_test_empty_configuration() {
    let mut configuration = blank_configuration();
    configuration.populate_outputs_with_default();
    assert_eq!(configuration.outputs.len(), 0);
}

#[test]
fn configuration_test_single_output_partial() {
    let mut configuration = blank_configuration();
    configuration.outputs.insert("eDP-1".to_owned(), sized_output(300, 150));
    configuration.populate_outputs_with_default();

    assert_eq!(configuration.outputs.len(), 1);
    assert!(configuration.outputs.contains_key("eDP-1"));

    let output_spec = configuration.outputs.get("eDP-1").unwrap();
    assert_eq!(output_spec.width.unwrap(), 300);
    assert_eq!(output_spec.height.unwrap(), 150);
}

#[test]
fn configuration_test_single_output_complete() {
    let mut output = sized_output(300, 150);
    output.default_urgency.background_color = Some(Color(0xDEADBEEF));
    output.default_urgency.border_color = Some(Color(0xBEEFDEAD));
    output.default_urgency.border_size = Some(2);
    output.anchor = Some(parse_anchor("Left|Top"));
    output.direction = Some(GrowthDirection::Down);
    output.default_urgency.layer = Layer::from_name("Overlay");
    output.margins = Some(Margin { left: 1, right: 2, top: 3, bottom: 4 });

    let mut configuration = blank_configuration();
    configuration.outputs.insert("A-HDMI-1".to_owned(), output);
    configuration.populate_outputs_with_default();

    assert_eq!(configuration.outputs.len(), 1);
    assert!(configuration.outputs.contains_key("A-HDMI-1"));

    let output_spec = configuration.outputs.get("A-HDMI-1").unwrap();
    assert_eq!(output_spec.width.unwrap(), 300);
    assert_eq!(output_spec.height.unwrap(), 150);
    assert_eq!(
        output_spec.default_urgency.background_color.unwrap(),
        Color::rgba(0xAD, 0xBE, 0xEF, 0xDE)
    );
    assert_eq!(
        output_spec.default_urgency.border_color.unwrap(),
        Color::rgba(0xEF, 0xDE, 0xAD, 0xBE)
    );
    assert_eq!(output_spec.default_urgency.border_size.unwrap(), 2);
    let left = Anchor::from_name(&['L', 'e', 'f', 't']).unwrap();
    let top = Anchor::from_name(&['T', 'o', 'p']).unwrap();
    assert_eq!(output_spec.anchor.unwrap(), left.union(top));
    assert_eq!(output_spec.direction.unwrap(), GrowthDirection::Down);
    assert_eq!(output_spec.default_urgency.layer.unwrap(), Layer::Overlay);
    assert_eq!(output_spec.margins.unwrap(), Margin { left: 1, right: 2, top: 3, bottom: 4 });
}

#[test]
fn configuration_test_multiple_outputs_partial() {
    let mut configuration = blank_configuration();
    configuration.outputs.insert("eDP-1".to_owned(), sized_output(300, 150));
    configuration.outputs.insert("A-HDMI-1".to_owned(), sized_output(500, 200));
    configuration.populate_outputs_with_default();

    assert_eq!(configuration.outputs.len(), 2);
    assert!(configuration.outputs.contains_key("eDP-1"));
    assert!(configuration.outputs.contains_key("A-HDMI-1"));

    let output_spec = configuration.outputs.get("eDP-1").unwrap();
    assert_eq!(output_spec.width.unwrap(), 300);
    assert_eq!(output_spec.height.unwrap(), 150);

    let output_spec = configuration.outputs.get("A-HDMI-1").unwrap();
    assert_eq!(output_spec.width.unwrap(), 500);
    assert_eq!(output_spec.height.unwrap(), 200);
}

#[test]
fn configuration_test_default_output() {
    let mut configuration = blank_configuration();
    configuration.default_output_config = sized_output(123, 456);
    configuration.populate_outputs_with_default();

    let output_spec = configuration.get_output_configuration("ahsiujhfiajsik");
    assert_eq!(output_spec.width.unwrap(), 123);
    assert_eq!(output_spec.height.unwrap(), 456);
}

#[test]
fn configuration_test_default_output_with_override() {
    let mut configuration = blank_configuration();
    configuration.default_output_config = sized_output(123, 456);
    let mut output = blank_output();
    output.height = Some(789);
    output.default_urgency.border_size = Some(2);
    configuration.outputs.insert("eDP-1".to_owned(), output);
    configuration.populate_outputs_with_default();

    let output_spec = configuration.get_output_configuration("eDP-1");
    assert_eq!(output_spec.width.unwrap(), 123);
    assert_eq!(output_spec.height.unwrap(), 789);
    assert_eq!(output_spec.default_urgency.border_size.unwrap(), 2);
    assert!(output_spec.default_urgency.layer.is_some());
    assert_eq!(output_spec.default_urgency.layer.unwrap(), Layer::Top);
}

#[test]
fn configuration_test_event_handler() {
    let mut configuration = blank_configuration();
    configuration.events.insert(EventTrigger::OnLeftClick, EventResponse::Nothing);
    configuration.events.insert(EventTrigger::OnRightClick, EventResponse::CloseNotification);
    configuration.populate_outputs_with_default();

    assert_eq!(response(&configuration, EventTrigger::OnLeftClick), EventResponse::Nothing);
    assert_eq!(
        response(&configuration, EventTrigger::OnRightClick),
        EventResponse::CloseNotification
    );
    assert_eq!(response(&configuration, EventTrigger::OnMiddleClick), EventResponse::Nothing);
    assert_eq!(
        response(&configuration, EventTrigger::OnNotificationReceived),
        EventResponse::Nothing
    );
    assert_eq!(
        response(&configuration, EventTrigger::OnNotificationClosed),
        EventResponse::Nothing
    );
}

#[test]
fn test_event_handler_custom_command() {
    let mut configuration = blank_configuration();
    configuration
        .events
        .insert(EventTrigger::OnLeftClick, EventResponse::ExecuteCommand("echo abc".to_owned()));
    configuration.populate_outputs_with_default();

    assert_eq!(
        response(&configuration, EventTrigger::OnLeftClick),
        EventResponse::ExecuteCommand("echo abc".to_owned())
    );
    assert_eq!(response(&configuration, EventTrigger::OnRightClick), EventResponse::Nothing);
    assert_eq!(response(&configuration, EventTrigger::OnMiddleClick), EventResponse::Nothing);
    assert_eq!(
        response(&configuration, EventTrigger::OnNotificationReceived),
        EventResponse::Nothing
    );
    assert_eq!(
        response(&configuration, EventTrigger::OnNotificationClosed),
        EventResponse::Nothing
    );
}

#[test]
fn configuration_test_message_layout_simple() {
    let mut configuration = blank_configuration();
    configuration.default_output_config.default_urgency.message_layout =
        Some("<summary>\n<app_name>\n<body>".to_owned());
    configuration.populate_outputs_with_default();

    let output_config = configuration.get_output_configuration("");
    let urgency = output_config.get_by_urgency("Normal");
    let spans = urgency.get_message_layout();

    let font_size = configuration.default_output_config.default_urgency.font_size.unwrap();
    let text_color = configuration.default_output_config.default_urgency.text_color.unwrap().0;

    let mut app_name_called = false;
    let mut summary_called = false;
    let mut body_called = false;
    let mut fragment_called = false;
    for span in spans.iter() {
        assert!(span.font_size_values.is_empty());
        assert_eq!(span.default_font_size, Some(font_size));
        assert_eq!(span.text_color, Some(text_color));
        match span.text.as_str() {
            "app_name" => app_name_called = true,
            "summary" => summary_called = true,
            "body" => body_called = true,
            "\n" => fragment_called = true,
            _ => unreachable!(),
        }
    }
    assert!(app_name_called);
    assert!(summary_called);
    assert!(body_called);
    assert!(fragment_called);
}

#[test]
fn configuration_test_message_layout_customized() {
    let mut configuration = blank_configuration();
    configuration.default_output_config.default_urgency.message_layout = Some(
        "<color=0xDEADBEEF font_size=13.5 this is a custom text>\n<font_size=18 summary>\n"
            .to_owned(),
    );
    let mut normal = blank_urgency();
    normal.font_size = Some(14.0f32.to_bits());
    configuration.default_output_config.urgencies.insert("Normal".to_owned(), normal);
    configuration.populate_outputs_with_default();

    let output_config = configuration.get_output_configuration("");
    let spans = output_config.get_by_urgency("Normal").get_message_layout();

    let mut summary_called = false;
    let mut fragment_called = false;
    for span in spans.iter() {
        match span.text.as_str() {
            "summary" => {
                summary_called = true;
                assert_eq!(span.font_size_values, vec!["18".to_owned()]);
                assert_eq!(span.font_size_values[0].parse::<f32>().unwrap(), 18.0);
            }
            "this is a custom text" => {
                fragment_called = true;
                assert_eq!(span.font_size_values, vec!["13.5".to_owned()]);
                assert_eq!(span.font_size_values[0].parse::<f32>().unwrap(), 13.5);
                assert_eq!(span.text_color, Some(Color::rgba(0xAD, 0xBE, 0xEF, 0xDE).0));
            }
            "\n" => {}
            _ => unreachable!(),
        }
    }
    assert!(summary_called);
    assert!(fragment_called);
}

#[test]
fn test_custom_urgency_levels() {
    let mut output = blank_output();
    output.default_urgency.border_size = Some(2);
    output.default_urgency.border_color = Some(Color(0xFF444488));
    let mut normal = blank_urgency();
    normal.border_color = Some(Color(0xFF6644BB));
    output.urgencies.insert("Normal".to_owned(), normal);
    let mut critical = blank_urgency();
    critical.border_color = Some(Color(0xFFFF6644));
    output.urgencies.insert("Critical".to_owned(), critical);

    let mut configuration = blank_configuration();
    configuration.outputs.insert("eDP-1".to_owned(), output);
    configuration.populate_outputs_with_default();

    let output_config = configuration.get_output_configuration("eDP-1");

    let low = output_config.get_by_urgency("Low");
    assert_eq!(low.border_size, Some(2));
    assert_eq!(low.border_color.unwrap(), Color::rgba(0x44, 0x44, 0x88, 0xFF));

    let normal = output_config.get_by_urgency("Normal");
    assert_eq!(normal.border_size, Some(2));
    assert_eq!(normal.border_color.unwrap(), Color::rgba(0x66, 0x44, 0xBB, 0xFF));

    let critical = output_config.get_by_urgency("Critical");
    assert_eq!(critical.border_size, Some(2));
    assert_eq!(critical.border_color.unwrap(), Color::rgba(0xFF, 0x66, 0x44, 0xFF));
}

#[test]
fn test_enable_output() {
    let mut configuration = blank_configuration();
    configuration.default_output_config.enabled = Some(EnableOption::from(true));
    configuration.outputs.insert("eDP-1".to_owned(), sized_output(300, 120));
    let mut hdmi = blank_output();
    hdmi.enabled = Some(EnableOption::from(false));
    configuration.outputs.insert("HDMI-A-1".to_owned(), hdmi);
    let mut abc = blank_output();
    abc.enabled = EnableOption::from_name("when-active");
    configuration.outputs.insert("ABC".to_owned(), abc);
    configuration.populate_outputs_with_default();

    assert_eq!(configuration.default_output_config.enabled, Some(EnableOption::Enabled));
    assert_eq!(configuration.outputs.get("eDP-1").unwrap().enabled, Some(EnableOption::Enabled));
    assert_eq!(
        configuration.outputs.get("HDMI-A-1").unwrap().enabled,
        Some(EnableOption::Disabled)
    );
    assert_eq!(configuration.outputs.get("ABC").unwrap().enabled, Some(EnableOption::WhenActive));
}

#[test]
fn margins_replace_one_side() {
    let m = Margin { top: 1, right: 2, bottom: 3, left: 4 };
    assert_eq!(m.with_top(9), Margin { top: 9, right: 2, bottom: 3, left: 4 });
    assert_eq!(m.with_right(9), Margin { top: 1, right: 9, bottom: 3, left: 4 });
    assert_eq!(m.with_bottom(9), Margin { top: 1, right: 2, bottom: 9, left: 4 });
    assert_eq!(m.with_left(9), Margin { top: 1, right: 2, bottom: 3, left: 9 });
    assert_eq!(Margin::default(), Margin { top: 0, right: 0, bottom: 0, left: 0 });
}

#[test]
fn color_channels() {
    let c = Color::rgba(0x11, 0x22, 0x33, 0x44);
    assert_eq!(c, Color(0x44112233));
    assert_eq!((c.r(), c.g(), c.b(), c.a()), (0x11, 0x22, 0x33, 0x44));
}

#[test]
fn layer_and_anchor_names() {
    assert_eq!(Layer::from_name("Background"), Some(Layer::Background));
    assert_eq!(Layer::from_name("Bottom"), Some(Layer::Bottom));
    assert_eq!(Layer::from_name("Top"), Some(Layer::Top));
    assert_eq!(Layer::from_name("top"), None);
    assert_eq!(parse_anchor("Right | Bottom").bits, 8 | 2);
    assert_eq!(parse_anchor(" Top|Nowhere ").bits, 1);
    assert_eq!(parse_anchor("").bits, 0);
    assert_eq!(Anchor::empty().bits, 0);
}

#[test]
fn enable_option_names() {
    assert_eq!(EnableOption::from_name("ENABLED"), Some(EnableOption::Enabled));
    assert_eq!(EnableOption::from_name("When-Active"), Some(EnableOption::WhenActive));
    assert_eq!(EnableOption::from_lowercase_name("disabled"), Some(EnableOption::Disabled));
    assert_eq!(EnableOption::from_lowercase_name("Disabled"), None);
    assert_eq!(EnableOption::from_name("maybe"), None);
    assert!(EnableOption::WhenActive.is_enabled());
    assert!(!EnableOption::Disabled.is_enabled());
    assert_eq!(EnableOption::default(), EnableOption::Disabled);
}

#[test]
fn event_handler_replaces_response() {
    let mut handler = EventHandler::new();
    handler.insert(EventTrigger::OnLeftClick, EventResponse::Nothing);
    handler.insert(EventTrigger::OnLeftClick, EventResponse::CloseNotification);
    assert_eq!(handler.response_for(&EventTrigger::OnLeftClick), EventResponse::CloseNotification);
    assert_eq!(handler.response_for(&EventTrigger::OnRightClick), EventResponse::Nothing);
    assert_eq!(handler.entries.len(), 1);
}

#[test]
fn builtin_settings_fill_missing_ones() {
    let mut configuration = blank_configuration();
    configuration.populate_outputs_with_default();
    let global = &configuration.default_output_config;
    assert_eq!(global.width, Some(260));
    assert_eq!(global.height, Some(125));
    assert_eq!(global.direction, Some(GrowthDirection::Up));
    assert_eq!(global.anchor.unwrap().bits, 10);
    let u = &global.default_urgency;
    assert_eq!(u.message_layout.as_deref(), Some("<summary> from <app_name>\n<body>"));
    assert_eq!(u.font_size, Some(14.0f32.to_bits()));
    assert_eq!(u.border_radius, Some(4));
    assert_eq!(u.icon_theme.as_deref(), Some("Adwaita"));
    assert_eq!(
        default_sound(),
        "/usr/share/sounds/freedesktop/stereo/message-new-instant.oga"
    );
    assert_eq!(default_idle_time(), 30_000);
}

#[test]
fn completion_is_idempotent_on_values() {
    let mut a = blank_urgency();
    a.border_size = Some(7);
    let b = UrgencyConfiguration::default();
    a.complete_missing(&b);
    let once = a.duplicate();
    a.complete_missing(&b);
    assert_eq!(a.border_size, Some(7));
    assert_eq!(a.border_size, once.border_size);
    assert_eq!(a.layer, once.layer);
    assert_eq!(a.message_layout, once.message_layout);
}

#[test]
fn layout_line_breaks_are_short() {
    let u = UrgencyConfiguration::default();
    let spans = u.parse_layout("a\n\nb", None);
    let texts: Vec<&str> = spans.iter().map(|s| s.text.as_str()).collect();
    assert!(texts.contains(&"a"));
    assert!(texts.contains(&"b"));
    assert!(spans.iter().any(|s| matches!(s.line_height, LineHeight::Break { .. })));
}
