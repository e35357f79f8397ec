use bell::configuration::{Color, GrowthDirection, Margin, OutputConfiguration};
use bell::daemon::{
    decide_surface, effective_style, font_family_choice, fragment_source, margins_for_offset,
    offset_after_surface, offset_before_surface, parse_arguments, plan_border, plan_content,
    should_exit, ArgumentsOutcome, BorderPlan, ContentPlan, FontFamilyChoice, FragmentSource,
    OffsetStep, Placement, SurfaceDecision,
};
use bell::layout::TextOptions;
use bell::notification::{SurfaceId, SurfaceProcessingOutput};
use bell::wayland::SurfaceState;

fn args(v: &[&str]) -> Vec<String> {
    v.iter().map(|s| (*s).to_owned()).collect()
}

fn spec(direction: GrowthDirection) -> OutputConfiguration {
    let mut o = OutputConfiguration::default();
    o.direction = Some(direction);
    o.margins = Some(Margin { top: 1, right: 2, bottom: 3, left: 4 });
    o.width = Some(260);
    o.height = Some(125);
    o
}

#[test]
fn command_line_options() {
    let p = parse_arguments(&args(&["--ephemeral", "-c", "/etc/bell.toml", "--what"]));
    match p.outcome {
        ArgumentsOutcome::Run(o) => {
            assert!(o.ephemeral);
            assert_eq!(o.config_path.as_deref(), Some("/etc/bell.toml"));
        }
        _ => panic!("expected options to run with"),
    }
    assert_eq!(p.unrecognized, args(&["--what"]));

    let p = parse_arguments(&args(&["--odd", "--help", "--ephemeral"]));
    assert!(matches!(p.outcome, ArgumentsOutcome::Help));
    assert_eq!(p.unrecognized, args(&["--odd"]));

    let p = parse_arguments(&args(&["--config"]));
    assert!(matches!(p.outcome, ArgumentsOutcome::MissingConfigValue));

    let p = parse_arguments(&args(&[]));
    match p.outcome {
        ArgumentsOutcome::Run(o) => assert!(!o.ephemeral && o.config_path.is_none()),
        _ => panic!("expected options to run with"),
    }
}

#[test]
fn ephemeral_daemon_exits_when_done() {
    assert!(should_exit(true, true, false));
    assert!(!should_exit(true, false, false));
    assert!(!should_exit(true, true, true));
    assert!(!should_exit(false, true, false));
}

#[test]
fn surfaces_stack_in_the_growth_direction() {
    let up = spec(GrowthDirection::Up);
    assert_eq!(offset_before_surface(0, &up), OffsetStep::Next(3));
    assert_eq!(offset_after_surface(3, &up), OffsetStep::Next(3 + 125 + 1));
    let right = spec(GrowthDirection::Right);
    assert_eq!(offset_before_surface(10, &right), OffsetStep::Next(14));
    assert_eq!(offset_after_surface(14, &right), OffsetStep::Next(14 + 260 + 2));
    assert_eq!(offset_before_surface(i32::MAX, &up), OffsetStep::Overflow);
    let mut missing = spec(GrowthDirection::Down);
    missing.height = None;
    assert_eq!(offset_before_surface(0, &missing), OffsetStep::Next(1));
    assert_eq!(offset_after_surface(1, &missing), OffsetStep::Missing);
    missing.margins = None;
    assert_eq!(offset_before_surface(0, &missing), OffsetStep::Missing);
}

#[test]
fn the_offset_replaces_the_leading_margin() {
    let m = Margin { top: 1, right: 2, bottom: 3, left: 4 };
    assert_eq!(margins_for_offset(&spec(GrowthDirection::Up), 50), Some(m.with_bottom(50)));
    assert_eq!(margins_for_offset(&spec(GrowthDirection::Left), 50), Some(m.with_right(50)));
    assert_eq!(margins_for_offset(&spec(GrowthDirection::Down), 50), Some(m.with_top(50)));
    assert_eq!(margins_for_offset(&spec(GrowthDirection::Right), 50), Some(m.with_left(50)));
    let mut no_direction = spec(GrowthDirection::Up);
    no_direction.direction = None;
    assert_eq!(margins_for_offset(&no_direction, 50), None);
}

#[test]
fn surface_decisions() {
    let mut s = SurfaceState::new(SurfaceId(1), "o".to_owned(), 10, 10);
    assert_eq!(decide_surface(None, false, true), SurfaceDecision::NoSurface);
    assert_eq!(decide_surface(Some(&s), false, false), SurfaceDecision::Place { render: true });
    s.is_dirty = false;
    assert_eq!(decide_surface(Some(&s), false, false), SurfaceDecision::Place { render: false });
    assert_eq!(decide_surface(Some(&s), true, false), SurfaceDecision::Skip);
    s.destroyed = true;
    assert_eq!(decide_surface(Some(&s), false, false), SurfaceDecision::Destroyed);
    assert_eq!(SurfaceDecision::Destroyed.output(), SurfaceProcessingOutput::SurfaceDestroyed);
    assert_eq!(SurfaceDecision::Skip.output(), SurfaceProcessingOutput::Continue);
}

#[test]
fn borders_need_a_color() {
    assert_eq!(plan_border(Some(2), Some(Color(0))), BorderPlan::Draw(2));
    assert_eq!(plan_border(Some(2), None), BorderPlan::MissingColor);
    assert_eq!(plan_border(Some(0), None), BorderPlan::NoBorder);
    assert_eq!(plan_border(None, Some(Color(0))), BorderPlan::NoBorder);
}

#[test]
fn content_placement() {
    let plan = plan_content(260, 125, 2, Some(16), true).unwrap();
    assert_eq!(
        plan,
        ContentPlan {
            padding: 12,
            icon: Some(Placement { x: -28, y: 12, size: 16 }),
            image: Some(Placement { x: -76, y: -76, size: 64 }),
            text_x: 12,
            text_y: 12,
            text_width: 260 - 24 - 64,
            text_height: 125 - 24,
        }
    );
    let small = plan_content(100, 60, 0, None, true).unwrap();
    assert_eq!(small.image, Some(Placement { x: -50, y: -50, size: 40 }));
    assert_eq!(small.text_width, 100 - 20 - 40);
    assert_eq!(plan_content(10, 10, 0, None, false), None);
}

#[test]
fn font_families_and_fragments() {
    assert_eq!(font_family_choice("serif"), FontFamilyChoice::Serif);
    assert_eq!(font_family_choice("SansSerif"), FontFamilyChoice::SansSerif);
    assert_eq!(font_family_choice("monospace"), FontFamilyChoice::Monospace);
    assert_eq!(font_family_choice("Fira Code"), FontFamilyChoice::Named);
    assert_eq!(fragment_source("summary"), FragmentSource::Summary);
    assert_eq!(fragment_source("app_name"), FragmentSource::AppName);
    assert_eq!(fragment_source("body"), FragmentSource::Body);
    assert_eq!(fragment_source("Body"), FragmentSource::Text);
}

#[test]
fn spans_inherit_outer_styles() {
    let mut inner = TextOptions::default();
    inner.italic = true;
    let mut outer = TextOptions::default();
    outer.bold = true;
    assert_eq!(effective_style(&inner, Some(&outer)), (true, true, false));
    assert_eq!(effective_style(&inner, None), (false, true, false));
}
