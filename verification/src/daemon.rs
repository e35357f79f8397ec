//! The daemon's own decisions: its command line, where each notification surface goes on
//! its output, and where the parts of a notification are drawn on its surface.
use vstd::prelude::*;

use crate::configuration::{Color, GrowthDirection, Margin, OutputConfiguration};
use crate::notification::opt_view;
use crate::text::{chars_of, is_word, string_views};
use crate::wayland::SurfaceState;

verus! {

/// The daemon's command-line options.
#[derive(Debug)]
pub struct ApplicationOptions {
    pub config_path: Option<String>,
    /// Exit once every notification was closed, after at least one was shown.
    pub ephemeral: bool,
}

impl Default for ApplicationOptions {
    fn default() -> (ret: ApplicationOptions)
        ensures
            ret.config_path is None,
            !ret.ephemeral,
    {
        ApplicationOptions { config_path: None, ephemeral: false }
    }
}

/// How reading the command line ended.
#[derive(Debug)]
pub enum ArgumentsOutcome {
    /// Run with these options.
    Run(ApplicationOptions),
    /// Show the help text and exit.
    Help,
    /// A configuration option was given without a value after it.
    MissingConfigValue,
}

/// The command line read: how it ended, and the arguments that were not understood before
/// that, in order.
#[derive(Debug)]
pub struct ParsedArguments {
    pub outcome: ArgumentsOutcome,
    pub unrecognized: Vec<String>,
}

pub open spec fn word_config_short() -> Seq<char> {
    seq!['-', 'c']
}

pub open spec fn word_config_long() -> Seq<char> {
    seq!['-', '-', 'c', 'o', 'n', 'f', 'i', 'g']
}

pub open spec fn word_ephemeral() -> Seq<char> {
    seq!['-', '-', 'e', 'p', 'h', 'e', 'm', 'e', 'r', 'a', 'l']
}

pub open spec fn word_help() -> Seq<char> {
    seq!['-', '-', 'h', 'e', 'l', 'p']
}

/// The model of how reading the command line ends.
pub enum ArgumentsModel {
    Run(Option<Seq<char>>, bool),
    Help,
    MissingConfigValue,
}

/// Reading the arguments `args` from position `i` on, with the configuration path `path` and
/// the ephemeral flag `eph` read so far: the outcome, and the arguments not understood.
pub open spec fn read_arguments(
    args: Seq<Seq<char>>,
    i: int,
    path: Option<Seq<char>>,
    eph: bool,
) -> (ArgumentsModel, Seq<Seq<char>>)
    decreases args.len() - i,
{
    if i >= args.len() || i < 0 {
        (ArgumentsModel::Run(path, eph), Seq::empty())
    } else {
        let a = args[i];
        if a == word_config_short() || a == word_config_long() {
            if i + 1 < args.len() {
                read_arguments(args, i + 2, Some(args[i + 1]), eph)
            } else {
                (ArgumentsModel::MissingConfigValue, Seq::empty())
            }
        } else if a == word_ephemeral() {
            read_arguments(args, i + 1, path, true)
        } else if a == word_help() {
            (ArgumentsModel::Help, Seq::empty())
        } else {
            let rest = read_arguments(args, i + 1, path, eph);
            (rest.0, seq![a] + rest.1)
        }
    }
}

/// The model of a read command line.
pub open spec fn parsed_model(p: ParsedArguments) -> (ArgumentsModel, Seq<Seq<char>>) {
    (
        match p.outcome {
            ArgumentsOutcome::Run(o) => ArgumentsModel::Run(opt_view(o.config_path), o.ephemeral),
            ArgumentsOutcome::Help => ArgumentsModel::Help,
            ArgumentsOutcome::MissingConfigValue => ArgumentsModel::MissingConfigValue,
        },
        string_views(p.unrecognized@),
    )
}

/// Reads the daemon's command line (the arguments after the program name): `-c` or
/// `--config` takes the next argument as the configuration path, `--ephemeral` sets the
/// ephemeral flag, `--help` stops reading; any other argument is not understood.
pub fn parse_arguments(args: &Vec<String>) -> (ret: ParsedArguments)
    ensures
        parsed_model(ret) == read_arguments(string_views(args@), 0, None, false),
{
    let ghost sv = string_views(args@);
    let mut path: Option<String> = None;
    let mut ephemeral = false;
    let mut unrecognized: Vec<String> = Vec::new();
    let mut i: usize = 0;
    while i < args.len()
        invariant
            sv == string_views(args@),
            i <= args.len(),
            ({
                let rest = read_arguments(sv, i as int, opt_view(path), ephemeral);
                read_arguments(sv, 0, None, false) == (rest.0, string_views(unrecognized@)
                    + rest.1)
            }),
        decreases args.len() - i,
    {
        let v = chars_of(args[i].as_str());
        assert(v@ == sv[i as int]);
        let ghost path_model = opt_view(path);
        if is_word(&v, &['-', 'c']) || is_word(&v, &['-', '-', 'c', 'o', 'n', 'f', 'i', 'g']) {
            if i + 1 < args.len() {
                path = Some(args[i + 1].clone());
                i = i + 2;
            } else {
                proof {
                    assert(read_arguments(sv, i as int, path_model, ephemeral) == (
                        ArgumentsModel::MissingConfigValue,
                        Seq::<Seq<char>>::empty(),
                    ));
                    assert(string_views(unrecognized@) + Seq::<Seq<char>>::empty() =~= string_views(
                        unrecognized@,
                    ));
                }
                return ParsedArguments { outcome: ArgumentsOutcome::MissingConfigValue, unrecognized };
            }
        } else if is_word(&v, &['-', '-', 'e', 'p', 'h', 'e', 'm', 'e', 'r', 'a', 'l']) {
            ephemeral = true;
            i = i + 1;
        } else if is_word(&v, &['-', '-', 'h', 'e', 'l', 'p']) {
            proof {
                assert(string_views(unrecognized@) + Seq::<Seq<char>>::empty() =~= string_views(
                    unrecognized@,
                ));
            }
            return ParsedArguments { outcome: ArgumentsOutcome::Help, unrecognized };
        } else {
            let ghost before = string_views(unrecognized@);
            unrecognized.push(args[i].clone());
            proof {
                let rest = read_arguments(sv, i + 1, path_model, ephemeral);
                assert(string_views(unrecognized@) =~= before.push(sv[i as int]));
                assert(before + (seq![sv[i as int]] + rest.1) =~= before.push(sv[i as int])
                    + rest.1);
            }
            i = i + 1;
        }
    }
    let options = ApplicationOptions { config_path: path, ephemeral };
    proof {
        assert(string_views(unrecognized@) + Seq::<Seq<char>>::empty() =~= string_views(
            unrecognized@,
        ));
    }
    ParsedArguments { outcome: ArgumentsOutcome::Run(options), unrecognized }
}

/// Whether an ephemeral daemon is to exit: once it has had a notification and none is
/// active any more.
pub fn should_exit(ephemeral: bool, has_had_any_notification: bool, has_any_active_notification: bool) -> (ret: bool)
    ensures
        ret == (ephemeral && has_had_any_notification && !has_any_active_notification),
{
    ephemeral && has_had_any_notification && !has_any_active_notification
}

} // verus!

verus! {

/// `a + b` where it fits an `i32`.
pub open spec fn add_i32(a: int, b: int) -> Option<i32> {
    if i32::MIN <= a + b <= i32::MAX {
        Some((a + b) as i32)
    } else {
        None
    }
}

/// The outcome of a step of the stacking offset of an output.
#[derive(Clone, Copy, Debug, PartialEq, Eq, Structural)]
pub enum OffsetStep {
    /// A setting that the step needs is not configured.
    Missing,
    /// The offset does not fit an `i32`.
    Overflow,
    /// The new offset.
    Next(i32),
}

/// The margin before a surface in the direction notifications stack in: the bottom one when
/// they grow up, the left one when they grow right, and so on.
pub open spec fn leading_margin(direction: GrowthDirection, m: Margin) -> i32 {
    match direction {
        GrowthDirection::Up => m.bottom,
        GrowthDirection::Right => m.left,
        GrowthDirection::Down => m.top,
        GrowthDirection::Left => m.right,
    }
}

/// The extent of a surface in the direction notifications stack in, and the margin after
/// it: height and top margin when they grow up, width and right margin when they grow
/// right, and so on; `None` where that extent is not configured.
pub open spec fn trailing_space(direction: GrowthDirection, m: Margin, spec: OutputConfiguration) -> Option<(i32, i32)> {
    match direction {
        GrowthDirection::Up => match spec.height {
            Some(h) => Some((h, m.top)),
            None => None,
        },
        GrowthDirection::Right => match spec.width {
            Some(w) => Some((w, m.right)),
            None => None,
        },
        GrowthDirection::Down => match spec.height {
            Some(h) => Some((h, m.bottom)),
            None => None,
        },
        GrowthDirection::Left => match spec.width {
            Some(w) => Some((w, m.left)),
            None => None,
        },
    }
}

/// Where the next surface of an output is placed, from the offset so far (see
/// `offset_before_surface`).
pub open spec fn before_step(offset: i32, spec: OutputConfiguration) -> OffsetStep {
    match (spec.direction, spec.margins) {
        (Some(d), Some(m)) => match add_i32(offset as int, leading_margin(d, m) as int) {
            Some(o) => OffsetStep::Next(o),
            None => OffsetStep::Overflow,
        },
        _ => OffsetStep::Missing,
    }
}

/// The offset after a surface placed at `offset` (see `offset_after_surface`).
pub open spec fn after_step(offset: i32, spec: OutputConfiguration) -> OffsetStep {
    match (spec.direction, spec.margins) {
        (Some(d), Some(m)) => match trailing_space(d, m, spec) {
            Some((extent, margin)) => match add_i32(extent as int, margin as int) {
                Some(step) => match add_i32(offset as int, step as int) {
                    Some(o) => OffsetStep::Next(o),
                    None => OffsetStep::Overflow,
                },
                None => OffsetStep::Overflow,
            },
            None => OffsetStep::Missing,
        },
        _ => OffsetStep::Missing,
    }
}

fn checked_add_i32(a: i32, b: i32) -> (ret: Option<i32>)
    ensures
        ret == add_i32(a as int, b as int),
{
    a.checked_add(b)
}

/// The offset at which the next surface of an output is placed: the offset so far plus the
/// margin before it (see `leading_margin`).
pub fn offset_before_surface(offset: i32, spec: &OutputConfiguration) -> (ret: OffsetStep)
    ensures
        ret == before_step(offset, *spec),
{
    let direction = match spec.direction {
        Some(d) => d,
        None => return OffsetStep::Missing,
    };
    let margins = match spec.margins {
        Some(m) => m,
        None => return OffsetStep::Missing,
    };
    let lead = match direction {
        GrowthDirection::Up => margins.bottom,
        GrowthDirection::Right => margins.left,
        GrowthDirection::Down => margins.top,
        GrowthDirection::Left => margins.right,
    };
    match checked_add_i32(offset, lead) {
        Some(o) => OffsetStep::Next(o),
        None => OffsetStep::Overflow,
    }
}

/// The offset after a surface placed at `offset`: that offset plus the surface's extent and
/// the margin after it (see `trailing_space`).
pub fn offset_after_surface(offset: i32, spec: &OutputConfiguration) -> (ret: OffsetStep)
    ensures
        ret == after_step(offset, *spec),
{
    let direction = match spec.direction {
        Some(d) => d,
        None => return OffsetStep::Missing,
    };
    let margins = match spec.margins {
        Some(m) => m,
        None => return OffsetStep::Missing,
    };
    let space = match direction {
        GrowthDirection::Up => match spec.height {
            Some(h) => (h, margins.top),
            None => return OffsetStep::Missing,
        },
        GrowthDirection::Right => match spec.width {
            Some(w) => (w, margins.right),
            None => return OffsetStep::Missing,
        },
        GrowthDirection::Down => match spec.height {
            Some(h) => (h, margins.bottom),
            None => return OffsetStep::Missing,
        },
        GrowthDirection::Left => match spec.width {
            Some(w) => (w, margins.left),
            None => return OffsetStep::Missing,
        },
    };
    match checked_add_i32(space.0, space.1) {
        Some(step) => match checked_add_i32(offset, step) {
            Some(o) => OffsetStep::Next(o),
            None => OffsetStep::Overflow,
        },
        None => OffsetStep::Overflow,
    }
}

/// The margins of a surface placed at `offset`: the configured ones with the margin before
/// it in the stacking direction replaced by the offset; `None` where margins or direction
/// are not configured.
pub fn margins_for_offset(spec: &OutputConfiguration, offset: i32) -> (ret: Option<Margin>)
    ensures
        ret == match (spec.margins, spec.direction) {
            (Some(m), Some(d)) => Some(
                match d {
                    GrowthDirection::Up => Margin { bottom: offset, ..m },
                    GrowthDirection::Right => Margin { left: offset, ..m },
                    GrowthDirection::Down => Margin { top: offset, ..m },
                    GrowthDirection::Left => Margin { right: offset, ..m },
                },
            ),
            _ => None,
        },
{
    let configured = match spec.margins {
        Some(m) => m,
        None => return None,
    };
    match spec.direction {
        Some(GrowthDirection::Up) => Some(configured.with_bottom(offset)),
        Some(GrowthDirection::Right) => Some(configured.with_left(offset)),
        Some(GrowthDirection::Down) => Some(configured.with_top(offset)),
        Some(GrowthDirection::Left) => Some(configured.with_right(offset)),
        None => None,
    }
}

/// What to do with a notification surface in a processing pass.
#[derive(Clone, Copy, Debug, PartialEq, Eq, Structural)]
pub enum SurfaceDecision {
    /// There is no surface with the id.
    NoSurface,
    /// The surface was destroyed.
    Destroyed,
    /// The surface is about to go: it takes no place on its output.
    Skip,
    /// The surface takes its place on its output, and is drawn again if `render`.
    Place { render: bool },
}

/// What to do with a surface: see `SurfaceDecision`. A surface goes when its destruction is
/// scheduled or its notification timed out; it is drawn again when it or its notification
/// is dirty.
pub fn decide_surface(surface: Option<&SurfaceState>, timed_out: bool, notification_dirty: bool) -> (ret: SurfaceDecision)
    ensures
        ret == match surface {
            None => SurfaceDecision::NoSurface,
            Some(s) => if s.destroyed {
                SurfaceDecision::Destroyed
            } else if s.destruction_scheduled || timed_out {
                SurfaceDecision::Skip
            } else {
                SurfaceDecision::Place { render: notification_dirty || s.is_dirty }
            },
        },
{
    match surface {
        None => SurfaceDecision::NoSurface,
        Some(s) => {
            if s.is_destroyed() {
                SurfaceDecision::Destroyed
            } else if s.will_destroy_later() || timed_out {
                SurfaceDecision::Skip
            } else {
                SurfaceDecision::Place { render: notification_dirty || s.is_dirty }
            }
        },
    }
}

impl SurfaceDecision {
    /// The outcome the notification manager is told.
    pub fn output(self) -> (ret: crate::notification::SurfaceProcessingOutput)
        ensures
            ret == match self {
                SurfaceDecision::NoSurface => crate::notification::SurfaceProcessingOutput::NoSurface,
                SurfaceDecision::Destroyed => crate::notification::SurfaceProcessingOutput::SurfaceDestroyed,
                _ => crate::notification::SurfaceProcessingOutput::Continue,
            },
    {
        match self {
            SurfaceDecision::NoSurface => crate::notification::SurfaceProcessingOutput::NoSurface,
            SurfaceDecision::Destroyed => crate::notification::SurfaceProcessingOutput::SurfaceDestroyed,
            _ => crate::notification::SurfaceProcessingOutput::Continue,
        }
    }
}

} // verus!

verus! {

/// Whether and how the border of a notification is drawn.
#[derive(Clone, Copy, Debug, PartialEq, Eq, Structural)]
pub enum BorderPlan {
    NoBorder,
    /// A border of this width.
    Draw(usize),
    /// A border is configured but no colour for it: nothing more is drawn.
    MissingColor,
}

/// The border of a notification: one of the configured width, where that is set and not
/// zero and a colour is configured.
pub fn plan_border(border_size: Option<usize>, border_color: Option<Color>) -> (ret: BorderPlan)
    ensures
        ret == match border_size {
            Some(s) => if s == 0 {
                BorderPlan::NoBorder
            } else if border_color is Some {
                BorderPlan::Draw(s)
            } else {
                BorderPlan::MissingColor
            },
            None => BorderPlan::NoBorder,
        },
{
    match border_size {
        Some(s) => {
            if s == 0 {
                BorderPlan::NoBorder
            } else if border_color.is_some() {
                BorderPlan::Draw(s)
            } else {
                BorderPlan::MissingColor
            }
        },
        None => BorderPlan::NoBorder,
    }
}

/// Where a square picture goes: its corner, counted from the left and top edges where
/// non-negative and from the right and bottom ones where negative, and its side.
#[derive(Clone, Copy, Debug, PartialEq, Eq, Structural)]
pub struct Placement {
    pub x: i32,
    pub y: i32,
    pub size: usize,
}

/// Where the parts of a notification go on its surface.
#[derive(Clone, Copy, Debug, PartialEq, Eq, Structural)]
pub struct ContentPlan {
    /// The space kept free along each edge.
    pub padding: usize,
    /// The application icon, at the top right.
    pub icon: Option<Placement>,
    /// The image, at the bottom right.
    pub image: Option<Placement>,
    pub text_x: i32,
    pub text_y: i32,
    pub text_width: usize,
    pub text_height: usize,
}

/// `a - b` where it is not negative.
pub open spec fn sub_usize(a: int, b: int) -> Option<usize> {
    if b <= a {
        Some((a - b) as usize)
    } else {
        None
    }
}

/// `a + b` where it fits a `usize`.
pub open spec fn add_usize(a: int, b: int) -> Option<usize> {
    if a + b <= usize::MAX {
        Some((a + b) as usize)
    } else {
        None
    }
}

/// `a - b` where it fits an `i32`.
pub open spec fn sub_i32(a: int, b: int) -> Option<i32> {
    if i32::MIN <= a - b <= i32::MAX {
        Some((a - b) as i32)
    } else {
        None
    }
}

/// A square of side `size` set `padding` away from the right edge and at `y`: its corner
/// counted from the right edge.
pub open spec fn placed_from_right(padding: usize, size: usize, y: i32) -> Option<Placement> {
    match sub_i32(0, (padding as i32) as int) {
        Some(np) => match sub_i32(np as int, (size as i32) as int) {
            Some(x) => Some(Placement { x, y, size }),
            None => None,
        },
        None => None,
    }
}

/// The corner, counted from the bottom edge, of a square of side `size` set `padding` away
/// from that edge.
pub open spec fn from_bottom(padding: usize, size: usize) -> Option<i32> {
    match sub_i32(0, (padding as i32) as int) {
        Some(np) => sub_i32(np as int, (size as i32) as int),
        None => None,
    }
}

/// The image's side on a surface of `width` by `height` with an icon of `icon_size`: the
/// room left inside the padding, at most 64.
pub open spec fn image_side(width: usize, height: usize, padding: usize, icon_size: usize) -> Option<usize> {
    match add_usize(padding as int, padding as int) {
        Some(twice) => match (sub_usize(width as int, twice as int), sub_usize(height as int, icon_size as int)) {
            (Some(a), Some(h)) => match sub_usize(h as int, twice as int) {
                Some(b) => Some(
                    if (if a < b { a } else { b }) < 64 {
                        if a < b { a } else { b }
                    } else {
                        64usize
                    },
                ),
                None => None,
            },
            _ => None,
        },
        None => None,
    }
}

/// Where the parts of a notification go on a surface of `width` by `height`, with a border
/// of `border` (zero for none), an icon of side `icon_size` where there is one, and an
/// image where `has_image`: the padding is ten plus the border; the icon goes at the top
/// right inside the padding; the image at the bottom right, as large as the room left below
/// the icon allows, at most 64; the text at the top left, as wide as the room left of the
/// larger of the two. `None` where these sizes do not fit the integer types they are
/// computed in.
pub open spec fn content_plan(
    width: usize,
    height: usize,
    border: usize,
    icon_size: Option<usize>,
    has_image: bool,
) -> Option<ContentPlan> {
    match add_usize(10, border as int) {
        None => None,
        Some(p) => {
            let icon = match icon_size {
                Some(s) => match placed_from_right(p, s, p as i32) {
                    Some(pl) => Some(Some(pl)),
                    None => None,
                },
                None => Some(None),
            };
            let isz: usize = match icon_size {
                Some(s) => s,
                None => 0,
            };
            let image = if has_image {
                match image_side(width, height, p, isz) {
                    Some(e) => match from_bottom(p, e) {
                        Some(y) => match placed_from_right(p, e, y) {
                            Some(pl) => Some(Some(pl)),
                            None => None,
                        },
                        None => None,
                    },
                    None => None,
                }
            } else {
                Some(None)
            };
            match (icon, image) {
                (Some(icon), Some(image)) => {
                    let msz: usize = match image {
                        Some(pl) => if pl.size < isz {
                            isz
                        } else {
                            pl.size
                        },
                        None => isz,
                    };
                    match add_usize(p as int, p as int) {
                        Some(twice) => match (
                            sub_usize(width as int, twice as int),
                            sub_usize(height as int, twice as int),
                        ) {
                            (Some(w), Some(h)) => match sub_usize(w as int, msz as int) {
                                Some(tw) => Some(
                                    ContentPlan {
                                        padding: p,
                                        icon,
                                        image,
                                        text_x: p as i32,
                                        text_y: p as i32,
                                        text_width: tw,
                                        text_height: h,
                                    },
                                ),
                                None => None,
                            },
                            _ => None,
                        },
                        None => None,
                    }
                },
                _ => None,
            }
        },
    }
}

fn place_from_right(padding: usize, size: usize, y: i32) -> (ret: Option<Placement>)
    ensures
        ret == placed_from_right(padding, size, y),
{
    let p = padding as i32;
    let s = size as i32;
    match 0i32.checked_sub(p) {
        Some(np) => match np.checked_sub(s) {
            Some(x) => Some(Placement { x, y, size }),
            None => None,
        },
        None => None,
    }
}

/// Where the parts of a notification go (see `content_plan`).
pub fn plan_content(
    width: usize,
    height: usize,
    border: usize,
    icon_size: Option<usize>,
    has_image: bool,
) -> (ret: Option<ContentPlan>)
    ensures
        ret == content_plan(width, height, border, icon_size, has_image),
{
    let p = match 10usize.checked_add(border) {
        Some(p) => p,
        None => return None,
    };
    let icon = match icon_size {
        Some(s) => match place_from_right(p, s, p as i32) {
            Some(pl) => Some(pl),
            None => return None,
        },
        None => None,
    };
    let isz: usize = match icon_size {
        Some(s) => s,
        None => 0,
    };
    let twice = match p.checked_add(p) {
        Some(t) => t,
        None => {
            proof {
                if has_image {
                    assert(image_side(width, height, p, isz) is None);
                }
                assert(add_usize(p as int, p as int) is None);
            }
            return None;
        },
    };
    let image = if has_image {
        let a = match width.checked_sub(twice) {
            Some(a) => a,
            None => return None,
        };
        let h = match height.checked_sub(isz) {
            Some(h) => h,
            None => return None,
        };
        let b = match h.checked_sub(twice) {
            Some(b) => b,
            None => return None,
        };
        let remaining = if a < b {
            a
        } else {
            b
        };
        let e = if remaining < 64 {
            remaining
        } else {
            64
        };
        assert(image_side(width, height, p, isz) == Some(e));
        let y = match 0i32.checked_sub(p as i32) {
            Some(np) => match np.checked_sub(e as i32) {
                Some(y) => y,
                None => return None,
            },
            None => return None,
        };
        match place_from_right(p, e, y) {
            Some(pl) => Some(pl),
            None => return None,
        }
    } else {
        None
    };
    let msz: usize = match image {
        Some(pl) => if pl.size < isz {
            isz
        } else {
            pl.size
        },
        None => isz,
    };
    let w = match width.checked_sub(twice) {
        Some(w) => w,
        None => return None,
    };
    let h = match height.checked_sub(twice) {
        Some(h) => h,
        None => return None,
    };
    let tw = match w.checked_sub(msz) {
        Some(tw) => tw,
        None => return None,
    };
    Some(
        ContentPlan {
            padding: p,
            icon,
            image,
            text_x: p as i32,
            text_y: p as i32,
            text_width: tw,
            text_height: h,
        },
    )
}

/// The generic font families a configuration can name.
#[derive(Clone, Copy, Debug, PartialEq, Eq, Structural)]
pub enum FontFamilyChoice {
    Serif,
    SansSerif,
    Cursive,
    Fantasy,
    Monospace,
    /// The value names a font family of its own.
    Named,
}

/// The font family a configuration value names: `Serif` or `serif`, `SansSerif` or
/// `sansserif`, `Cursive` or `cursive`, `Fantasy` or `fantasy`, `Monospace` or `monospace`;
/// any other value is the name of a family.
pub open spec fn font_family_named(name: Seq<char>) -> FontFamilyChoice {
    if name == "Serif"@ || name == "serif"@ {
        FontFamilyChoice::Serif
    } else if name == "SansSerif"@ || name == "sansserif"@ {
        FontFamilyChoice::SansSerif
    } else if name == "Cursive"@ || name == "cursive"@ {
        FontFamilyChoice::Cursive
    } else if name == "Fantasy"@ || name == "fantasy"@ {
        FontFamilyChoice::Fantasy
    } else if name == "Monospace"@ || name == "monospace"@ {
        FontFamilyChoice::Monospace
    } else {
        FontFamilyChoice::Named
    }
}

fn str_is(s: &[char], w: &str) -> (ret: bool)
    ensures
        ret == (s@ == w@),
{
    let v = chars_of(w);
    is_word(s, &v)
}

/// The font family a configuration value names (see `font_family_named`).
pub fn font_family_choice(name: &str) -> (ret: FontFamilyChoice)
    ensures
        ret == font_family_named(name@),
{
    let v = chars_of(name);
    if str_is(&v, "Serif") || str_is(&v, "serif") {
        FontFamilyChoice::Serif
    } else if str_is(&v, "SansSerif") || str_is(&v, "sansserif") {
        FontFamilyChoice::SansSerif
    } else if str_is(&v, "Cursive") || str_is(&v, "cursive") {
        FontFamilyChoice::Cursive
    } else if str_is(&v, "Fantasy") || str_is(&v, "fantasy") {
        FontFamilyChoice::Fantasy
    } else if str_is(&v, "Monospace") || str_is(&v, "monospace") {
        FontFamilyChoice::Monospace
    } else {
        FontFamilyChoice::Named
    }
}

/// What a piece of the message layout stands for.
#[derive(Clone, Copy, Debug, PartialEq, Eq, Structural)]
pub enum FragmentSource {
    /// The notification's application name, itself read as layout.
    AppName,
    /// The notification's summary, itself read as layout.
    Summary,
    /// The notification's body, itself read as layout.
    Body,
    /// The piece's own text.
    Text,
}

/// What a piece of the message layout stands for: `app_name`, `summary` and `body` stand
/// for those texts of the notification; any other piece for itself.
pub fn fragment_source(fragment: &str) -> (ret: FragmentSource)
    ensures
        ret == if fragment@ == "app_name"@ {
            FragmentSource::AppName
        } else if fragment@ == "summary"@ {
            FragmentSource::Summary
        } else if fragment@ == "body"@ {
            FragmentSource::Body
        } else {
            FragmentSource::Text
        },
{
    let v = chars_of(fragment);
    if str_is(&v, "app_name") {
        FragmentSource::AppName
    } else if str_is(&v, "summary") {
        FragmentSource::Summary
    } else if str_is(&v, "body") {
        FragmentSource::Body
    } else {
        FragmentSource::Text
    }
}

/// The bold, italic and underline flags a span is drawn with: its own, or those of the
/// piece of layout it was read from.
pub fn effective_style(
    options: &crate::layout::TextOptions,
    outer: Option<&crate::layout::TextOptions>,
) -> (ret: (bool, bool, bool))
    ensures
        ret == match outer {
            Some(o) => (options.bold || o.bold, options.italic || o.italic, options.underline
                || o.underline),
            None => (options.bold, options.italic, options.underline),
        },
{
    let base = crate::layout::TextOptions::default();
    let d = match outer {
        Some(o) => o,
        None => &base,
    };
    (options.bold || d.bold, options.italic || d.italic, options.underline || d.underline)
}

/// Stacking a surface on an output moves the offset by the room the surface takes in the
/// direction notifications grow in: its width and the left and right margins when they grow
/// left or right, its height and the top and bottom margins when they grow up or down. The
/// surface itself is placed past the margin on the side it grows away from: the bottom one
/// growing up, the left one growing right, the top one growing down, the right one growing
/// left.
pub proof fn law_stacking_moves_by_the_surface_extent(offset: i32, spec: OutputConfiguration, placed: i32, next: i32)
    requires
        before_step(offset, spec) == OffsetStep::Next(placed),
        after_step(placed, spec) == OffsetStep::Next(next),
    ensures
        spec.direction is Some,
        spec.margins is Some,
        ({
            let m = spec.margins.unwrap();
            match spec.direction.unwrap() {
                GrowthDirection::Left => spec.width is Some && placed == offset + m.right && next
                    == offset + m.right + spec.width.unwrap() + m.left,
                GrowthDirection::Right => spec.width is Some && placed == offset + m.left && next
                    == offset + m.left + spec.width.unwrap() + m.right,
                GrowthDirection::Up => spec.height is Some && placed == offset + m.bottom && next
                    == offset + m.bottom + spec.height.unwrap() + m.top,
                GrowthDirection::Down => spec.height is Some && placed == offset + m.top && next
                    == offset + m.top + spec.height.unwrap() + m.bottom,
            }
        }),
{
}

/// Where the parts of a notification go, wherever they fit: the padding is ten plus the
/// border; the icon, of the requested side, sits at the top right inside the padding; the
/// image sits at the bottom right inside the padding, below the icon without overlapping it,
/// and is the largest square (at most 64) that fits there; the text starts at the top left
/// inside the padding, as tall as the room inside the padding and as wide as the room left of
/// the larger of icon and image.
pub proof fn law_content_plan_places_the_parts(
    width: usize,
    height: usize,
    border: usize,
    icon_size: Option<usize>,
    has_image: bool,
)
    requires
        content_plan(width, height, border, icon_size, has_image) is Some,
    ensures
        ({
            let c = content_plan(width, height, border, icon_size, has_image).unwrap();
            let p = c.padding as int;
            let isz: int = match icon_size {
                Some(s) => s as int,
                None => 0,
            };
            let img: int = match c.image {
                Some(im) => im.size as int,
                None => 0,
            };
            &&& p == 10 + border
            &&& c.text_height + 2 * p == height
            &&& c.text_width + 2 * p + (if img < isz { isz } else { img }) == width
            &&& (p <= i32::MAX ==> c.text_x == p && c.text_y == p)
            &&& (icon_size is Some <==> c.icon is Some)
            &&& (c.icon matches Some(pl) ==> pl.size == isz && (p + isz <= i32::MAX ==> pl.x == -(p
                + isz) && pl.y == p))
            &&& (has_image <==> c.image is Some)
            &&& (c.image matches Some(im) ==> {
                &&& im.size <= 64
                &&& im.size + 2 * p <= width
                &&& im.size + isz + 2 * p <= height
                &&& (im.size == 64 || im.size + 2 * p == width || im.size + isz + 2 * p == height)
                &&& (p + im.size <= i32::MAX ==> im.x == -(p + im.size) && im.y == -(p + im.size))
            })
        }),
{
}

} // verus!
