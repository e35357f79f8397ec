//! Notifications and the manager that tracks which are active, allocates their ids and
//! decides what each event does to them.
use vstd::prelude::*;

use crate::configuration::{
    Configuration, EventHandler, EventResponse, EventTrigger, OutputConfiguration, response_lookup,
};
use crate::images::ImageData;
use crate::table::Table;
use crate::text::{
    chars_of, decimal, decimal_string, first_occurrence, find_chars, split_chars, split_on,
    string_of, string_views, strings_of, sub_chars, tail_chars, views,
};

verus! {

/// How urgent a notification is.
#[derive(Clone, Copy, Debug, PartialEq, Eq, Structural)]
pub enum NotificationUrgency {
    Low,
    Normal,
    Critical,
}

/// The urgency a protocol urgency byte names: 0 low, 1 normal, 2 critical; any other byte
/// is taken as normal.
pub open spec fn urgency_of_byte(byte: u8) -> NotificationUrgency {
    if byte == 0 {
        NotificationUrgency::Low
    } else if byte == 2 {
        NotificationUrgency::Critical
    } else {
        NotificationUrgency::Normal
    }
}

impl From<u8> for NotificationUrgency {
    fn from(byte: u8) -> (ret: NotificationUrgency) {
        match byte {
            0 => NotificationUrgency::Low,
            1 => NotificationUrgency::Normal,
            2 => NotificationUrgency::Critical,
            _ => NotificationUrgency::Normal,
        }
    }
}

impl vstd::std_specs::convert::FromSpecImpl<u8> for NotificationUrgency {
    open spec fn obeys_from_spec() -> bool {
        true
    }

    open spec fn from_spec(v: u8) -> NotificationUrgency {
        urgency_of_byte(v)
    }
}

/// The name of an urgency, as the configuration's urgency tables use it.
pub open spec fn urgency_name(u: NotificationUrgency) -> Seq<char> {
    match u {
        NotificationUrgency::Low => seq!['L', 'o', 'w'],
        NotificationUrgency::Normal => seq!['N', 'o', 'r', 'm', 'a', 'l'],
        NotificationUrgency::Critical => seq!['C', 'r', 'i', 't', 'i', 'c', 'a', 'l'],
    }
}

impl NotificationUrgency {
    /// The urgency's name: `Low`, `Normal` or `Critical`.
    pub fn to_string(&self) -> (ret: String)
        ensures
            ret@ == urgency_name(*self),
    {
        match self {
            NotificationUrgency::Low => {
                let v = ['L', 'o', 'w'];
                assert(v@ == urgency_name(*self));
                string_of(&v)
            },
            NotificationUrgency::Normal => {
                let v = ['N', 'o', 'r', 'm', 'a', 'l'];
                assert(v@ == urgency_name(*self));
                string_of(&v)
            },
            NotificationUrgency::Critical => {
                let v = ['C', 'r', 'i', 't', 'i', 'c', 'a', 'l'];
                assert(v@ == urgency_name(*self));
                string_of(&v)
            },
        }
    }
}

/// Why a notification was closed, as the notification protocol numbers the reasons.
#[derive(Clone, Copy, Debug, PartialEq, Eq, Structural)]
pub enum NotificationCloseReason {
    Expired,
    Dismissed,
    Requested,
    Undefined,
}

impl NotificationCloseReason {
    /// The protocol's number for the reason: expired 1, dismissed 2, requested 3,
    /// undefined 4.
    pub fn code(self) -> (ret: u32)
        ensures
            ret == match self {
                NotificationCloseReason::Expired => 1u32,
                NotificationCloseReason::Dismissed => 2u32,
                NotificationCloseReason::Requested => 3u32,
                NotificationCloseReason::Undefined => 4u32,
            },
    {
        match self {
            NotificationCloseReason::Expired => 1,
            NotificationCloseReason::Dismissed => 2,
            NotificationCloseReason::Requested => 3,
            NotificationCloseReason::Undefined => 4,
        }
    }
}

/// What went wrong with a request about a notification.
#[derive(Clone, Copy, Debug, PartialEq, Eq, Structural)]
pub enum NotificationError {
    InvalidID(u32),
}

impl NotificationError {
    /// The error's message: `Invalid ID (<id>)`.
    pub fn message(&self) -> (ret: String)
        ensures
            match *self {
                NotificationError::InvalidID(id) => ret@ == seq![
                    'I', 'n', 'v', 'a', 'l', 'i', 'd', ' ', 'I', 'D', ' ', '(',
                ] + decimal(id as nat) + seq![')'],
            },
    {
        match self {
            NotificationError::InvalidID(id) => {
                let mut v = vec!['I', 'n', 'v', 'a', 'l', 'i', 'd', ' ', 'I', 'D', ' ', '('];
                crate::text::push_decimal(*id as u64, &mut v);
                v.push(')');
                string_of(&v)
            },
        }
    }
}

/// What became of a surface when it was processed.
#[derive(Clone, Copy, Debug, PartialEq, Eq, Structural)]
pub enum SurfaceProcessingOutput {
    Continue,
    NoSurface,
    SurfaceDestroyed,
}

/// Identifies a notification surface.
#[derive(Clone, Copy, Debug, PartialEq, Eq, Hash, Structural)]
pub struct SurfaceId(pub u64);

/// When a notification expires on its own.
#[derive(Clone, Copy, Debug, PartialEq, Eq, Structural)]
pub enum Timeout {
    /// After a delay the server chooses.
    ServerDefault,
    /// After the given number of milliseconds.
    Millis(u64),
}

/// The protocol's `expire_timeout`: negative for the server's choice, zero for never,
/// else milliseconds.
pub open spec fn timeout_of(expire_timeout: i32) -> Option<Timeout> {
    if expire_timeout < 0 {
        Some(Timeout::ServerDefault)
    } else if expire_timeout == 0 {
        None
    } else {
        Some(Timeout::Millis(expire_timeout as u64))
    }
}

/// The protocol's `expire_timeout` (see `timeout_of`).
pub fn expire_timeout_from(expire_timeout: i32) -> (ret: Option<Timeout>)
    ensures
        ret == timeout_of(expire_timeout),
{
    if expire_timeout < 0 {
        Some(Timeout::ServerDefault)
    } else if expire_timeout == 0 {
        None
    } else {
        Some(Timeout::Millis(expire_timeout as u64))
    }
}

/// What carrying out an event response on a notification leaves for the caller to do.
#[derive(Debug, PartialEq, Eq)]
pub enum EventAction {
    /// The response is not one that acts on notifications.
    Ignored,
    /// The response was carried out; nothing is left to do.
    Done,
    /// These surfaces were removed from the notification and are to be destroyed.
    DestroySurfaces(Vec<SurfaceId>),
    /// Run this command line.
    RunCommand(String),
    /// Run this sound command with the notification's sound file.
    PlaySound { command: String, sound_file: String },
}

/// Every character with the Unicode `White_Space` property.
pub open spec fn white_space_chars() -> Seq<char> {
    seq![
        '\t', '\n', '\u{0B}', '\u{0C}', '\r', ' ', '\u{85}', '\u{A0}', '\u{1680}', '\u{2000}',
        '\u{2001}', '\u{2002}', '\u{2003}', '\u{2004}', '\u{2005}', '\u{2006}', '\u{2007}',
        '\u{2008}', '\u{2009}', '\u{200A}', '\u{2028}', '\u{2029}', '\u{202F}', '\u{205F}',
        '\u{3000}',
    ]
}

/// The words of `s`, as `str::split_whitespace` gives them: the non-empty pieces between
/// white-space characters.
pub open spec fn words(s: Seq<char>) -> Seq<Seq<char>> {
    split_on(s, white_space_chars()).filter(|w: Seq<char>| w.len() > 0)
}

/// A command line taken apart at its first space: the program, and the words after it.
pub open spec fn command_parts(cmd: Seq<char>) -> Option<(Seq<char>, Seq<Seq<char>>)> {
    match first_occurrence(cmd, seq![' ']) {
        Some(i) => Some((cmd.take(i), words(cmd.skip(i + 1)))),
        None => None,
    }
}

fn white_space_array() -> (ret: [char; 25])
    ensures
        ret@ == white_space_chars(),
{
    let a = [
        '\t', '\n', '\u{0B}', '\u{0C}', '\r', ' ', '\u{85}', '\u{A0}', '\u{1680}', '\u{2000}',
        '\u{2001}', '\u{2002}', '\u{2003}', '\u{2004}', '\u{2005}', '\u{2006}', '\u{2007}',
        '\u{2008}', '\u{2009}', '\u{200A}', '\u{2028}', '\u{2029}', '\u{202F}', '\u{205F}',
        '\u{3000}',
    ];
    assert(a@ == white_space_chars());
    a
}

/// The words of `s`.
pub fn split_whitespace(s: &[char]) -> (ret: Vec<String>)
    ensures
        string_views(ret@) == words(s@),
{
    let ws = white_space_array();
    let pieces = split_chars(s, &ws);
    let ghost pv = views(pieces@);
    let mut ret: Vec<String> = Vec::new();
    for i in 0..pieces.len()
        invariant
            pv == views(pieces@),
            string_views(ret@) == pv.take(i as int).filter(|w: Seq<char>| w.len() > 0),
    {
        let ghost before = ret@;
        assert(pv.take(i + 1).drop_last() == pv.take(i as int));
        assert(pv.take(i + 1).last() == pieces@[i as int]@);
        if pieces[i].len() > 0 {
            ret.push(string_of(&pieces[i]));
            assert(string_views(ret@) =~= string_views(before).push(pieces@[i as int]@));
        }
        reveal_with_fuel(Seq::<_>::filter, 1);
    }
    assert(pv.take(pieces@.len() as int) == pv);
    ret
}

/// Takes a command line apart at its first space: the program and the words after it;
/// `None` where the line holds no space.
pub fn split_command(cmd: &str) -> (ret: Option<(String, Vec<String>)>)
    ensures
        match ret {
            Some((p, args)) => command_parts(cmd@) == Some((p@, string_views(args@))),
            None => command_parts(cmd@) is None,
        },
{
    let v = chars_of(cmd);
    let space = [' '];
    assert(space@ == seq![' ']);
    match find_chars(&v, &space) {
        Some(i) => {
            let n = v.len();
            assert(i + 1 <= n);
            let program = sub_chars(&v, 0, i);
            assert(v@.subrange(0, i as int) == v@.take(i as int));
            let rest = tail_chars(&v, i + 1);
            Some((string_of(&program), split_whitespace(&rest)))
        },
        None => None,
    }
}

/// Takes a sound command apart: the program (the whole line where it holds no space) and
/// the words after it, with the sound file appended.
pub fn sound_command_parts(cmd: &str, sound_file: &str) -> (ret: (String, Vec<String>))
    ensures
        ({
            match command_parts(cmd@) {
                Some((p, args)) => ret.0@ == p && string_views(ret.1@) == args.push(sound_file@),
                None => ret.0@ == cmd@ && string_views(ret.1@) == seq![sound_file@],
            }
        }),
{
    match split_command(cmd) {
        Some((program, mut args)) => {
            let ghost before = args@;
            args.push(sound_file.to_owned());
            assert(string_views(args@) =~= string_views(before).push(sound_file@));
            (program, args)
        },
        None => {
            let mut args: Vec<String> = Vec::new();
            args.push(sound_file.to_owned());
            assert(string_views(args@) =~= seq![sound_file@]);
            (cmd.to_owned(), args)
        },
    }
}

} // verus!

verus! {

/// A notification and the surfaces that show it.
#[derive(Debug)]
pub struct Notification {
    pub id: Option<u32>,
    pub app_name: String,
    pub summary: String,
    pub body: String,
    pub urgency: NotificationUrgency,
    pub app_icon: Option<String>,
    pub image_data: Option<ImageData>,
    pub sound_file: Option<String>,
    pub is_dirty: bool,
    pub expire_timeout: Option<Timeout>,
    /// The names of the outputs it is shown on.
    pub outputs: Vec<String>,
    pub surface_ids: Vec<SurfaceId>,
}

/// The view of an optional string.
pub open spec fn opt_view(s: Option<String>) -> Option<Seq<char>> {
    match s {
        Some(t) => Some(t@),
        None => None,
    }
}

/// Whether two notifications agree in everything but their id and their surfaces.
pub open spec fn same_content(a: Notification, b: Notification) -> bool {
    &&& a.app_name == b.app_name
    &&& a.summary == b.summary
    &&& a.body == b.body
    &&& a.urgency == b.urgency
    &&& a.app_icon == b.app_icon
    &&& a.image_data == b.image_data
    &&& a.sound_file == b.sound_file
    &&& a.is_dirty == b.is_dirty
    &&& a.expire_timeout == b.expire_timeout
    &&& a.outputs == b.outputs
}

/// Whether `action` is what carrying out the response `r` leaves to do, on a notification
/// shown on `surfaces` whose sound file is `sound_file`.
pub open spec fn action_for(
    action: EventAction,
    surfaces: Seq<SurfaceId>,
    sound_file: Option<String>,
    r: EventResponse,
) -> bool {
    match r {
        EventResponse::CloseNotification => action matches EventAction::DestroySurfaces(v) && v@
            == surfaces,
        EventResponse::ExecuteCommand(c) => action == EventAction::RunCommand(c),
        EventResponse::PlaySound(c) => match sound_file {
            Some(f) => action == (EventAction::PlaySound { command: c, sound_file: f }),
            None => action == EventAction::Done,
        },
        _ => action == EventAction::Ignored,
    }
}

/// The surfaces that still show a notification after the response `r`: none after it was
/// closed, else those before.
pub open spec fn surfaces_after(surfaces: Seq<SurfaceId>, r: EventResponse) -> Seq<SurfaceId> {
    if r is CloseNotification {
        Seq::empty()
    } else {
        surfaces
    }
}

impl Notification {
    /// A new notification, not yet shown anywhere, of normal urgency.
    pub fn new(app_name: String, summary: String, body: String) -> (ret: Notification)
        ensures
            ret.id is None,
            ret.app_name == app_name,
            ret.summary == summary,
            ret.body == body,
            ret.urgency == NotificationUrgency::Normal,
            ret.app_icon is None,
            ret.image_data is None,
            ret.sound_file is None,
            ret.is_dirty,
            ret.expire_timeout is None,
            ret.outputs@.len() == 0,
            ret.surface_ids@.len() == 0,
    {
        Notification {
            id: None,
            app_name,
            summary,
            body,
            urgency: NotificationUrgency::Normal,
            app_icon: None,
            image_data: None,
            sound_file: None,
            is_dirty: true,
            expire_timeout: None,
            outputs: Vec::new(),
            surface_ids: Vec::new(),
        }
    }

    /// Whether the surface `id` shows this notification.
    pub fn has_surface(&self, id: &SurfaceId) -> (ret: bool)
        ensures
            ret == self.surface_ids@.contains(*id),
    {
        for i in 0..self.surface_ids.len()
            invariant
                forall|j: int| 0 <= j < i ==> self.surface_ids@[j] != *id,
        {
            if self.surface_ids[i] == *id {
                assert(self.surface_ids@[i as int] == *id);
                return true;
            }
        }
        false
    }

    /// Whether any surface shows this notification.
    pub fn has_any_surface(&self) -> (ret: bool)
        ensures
            ret == (self.surface_ids@.len() > 0),
    {
        !self.surface_ids.is_empty()
    }

    /// Records that the surface `id` shows this notification.
    pub fn add_surface(&mut self, id: SurfaceId)
        ensures
            final(self).surface_ids@ == old(self).surface_ids@.push(id),
            final(self).id == old(self).id,
            same_content(*final(self), *old(self)),
    {
        self.surface_ids.push(id);
    }

    /// Stops showing this notification on the surface `id` (every record of it).
    pub fn delete_surface(&mut self, surface_id: &SurfaceId)
        ensures
            final(self).surface_ids@ == old(self).surface_ids@.filter(|s: SurfaceId| s != *surface_id),
            final(self).id == old(self).id,
            same_content(*final(self), *old(self)),
    {
        let ghost old_ids = self.surface_ids@;
        let mut kept: Vec<SurfaceId> = Vec::new();
        for i in 0..self.surface_ids.len()
            invariant
                self.surface_ids@ == old_ids,
                kept@ == old_ids.take(i as int).filter(|s: SurfaceId| s != *surface_id),
        {
            assert(old_ids.take(i + 1).drop_last() == old_ids.take(i as int));
            reveal_with_fuel(Seq::<_>::filter, 1);
            if self.surface_ids[i] != *surface_id {
                kept.push(self.surface_ids[i]);
            }
        }
        assert(old_ids.take(old_ids.len() as int) == old_ids);
        self.surface_ids = kept;
    }

    /// Stops showing this notification anywhere; gives back the surfaces that showed it, to be
    /// destroyed.
    pub fn expire(&mut self) -> (ret: Vec<SurfaceId>)
        ensures
            ret@ == old(self).surface_ids@,
            final(self).surface_ids@.len() == 0,
            final(self).id == old(self).id,
            same_content(*final(self), *old(self)),
    {
        let mut ids: Vec<SurfaceId> = Vec::new();
        std::mem::swap(&mut ids, &mut self.surface_ids);
        ids
    }

    /// Carries out an event response on this notification: closing it stops showing it;
    /// a command or sound is handed back to be run; other responses are ignored.
    pub fn try_handle_event(&mut self, event: &EventResponse) -> (ret: EventAction)
        ensures
            action_for(ret, old(self).surface_ids@, old(self).sound_file, *event),
            final(self).surface_ids@ == surfaces_after(old(self).surface_ids@, *event),
            same_content(*final(self), *old(self)),
            final(self).id == old(self).id,
    {
        match event {
            EventResponse::CloseNotification => EventAction::DestroySurfaces(self.expire()),
            EventResponse::ExecuteCommand(command) => EventAction::RunCommand(command.clone()),
            EventResponse::PlaySound(command) => match &self.sound_file {
                Some(f) => EventAction::PlaySound { command: command.clone(), sound_file: f.clone() },
                None => EventAction::Done,
            },
            _ => EventAction::Ignored,
        }
    }

    /// Records that this notification is shown on the output `output_name`.
    pub fn try_add_output(&mut self, output_name: &String)
        ensures
            string_views(final(self).outputs@).contains(output_name@),
            forall|n: Seq<char>| #![trigger string_views(final(self).outputs@).contains(n)]
                string_views(final(self).outputs@).contains(n) <==> (string_views(old(self).outputs@).contains(n) || n == output_name@),
            final(self).surface_ids == old(self).surface_ids,
            final(self).id == old(self).id,
    {
        let ghost before = string_views(self.outputs@);
        for i in 0..self.outputs.len()
            invariant
                before == string_views(self.outputs@),
                forall|j: int| 0 <= j < i ==> self.outputs@[j]@ != output_name@,
        {
            if self.outputs[i] == *output_name {
                assert(before[i as int] == output_name@);
                return;
            }
        }
        self.outputs.push(output_name.clone());
        assert(string_views(self.outputs@) =~= before.push(output_name@));
        proof {
            broadcast use vstd::seq_lib::lemma_seq_contains_after_push;
        }
    }

    /// Starts the expiry of this notification: records its timeout and gives the delay, in
    /// milliseconds, after which it expires; critical notifications do not expire on their
    /// own, and the server's choice is five seconds.
    pub fn set_timeout(&mut self, timeout: Timeout) -> (ret: Option<u64>)
        ensures
            *final(self) == (Notification { expire_timeout: Some(timeout), ..*old(self) }),
            old(self).urgency == NotificationUrgency::Critical ==> ret is None,
            old(self).urgency != NotificationUrgency::Critical ==> ret == Some(
                match timeout {
                    Timeout::ServerDefault => 5000u64,
                    Timeout::Millis(m) => m,
                },
            ),
            final(self).surface_ids == old(self).surface_ids,
            final(self).id == old(self).id,
            final(self).urgency == old(self).urgency,
    {
        self.expire_timeout = Some(timeout);
        if self.urgency == NotificationUrgency::Critical {
            return None;
        }
        match timeout {
            Timeout::ServerDefault => Some(5000),
            Timeout::Millis(m) => Some(m),
        }
    }

    /// The settings of the output `output_name`, where this notification is shown on it.
    pub fn get_output_spec<'a>(&self, configuration: &'a Configuration, output_name: &String) -> (ret: Option<&'a OutputConfiguration>)
        requires
            configuration.outputs.wf(),
        ensures
            match ret {
                Some(o) => string_views(self.outputs@).contains(output_name@) && *o == match configuration.outputs.spec_get(output_name@) {
                    Some(c) => c,
                    None => configuration.default_output_config,
                },
                None => !string_views(self.outputs@).contains(output_name@),
            },
    {
        for i in 0..self.outputs.len()
            invariant
                configuration.outputs.wf(),
                forall|j: int| 0 <= j < i ==> self.outputs@[j]@ != output_name@,
        {
            if self.outputs[i] == *output_name {
                assert(string_views(self.outputs@)[i as int] == output_name@);
                return Some(configuration.get_output_configuration(output_name.as_str()));
            }
        }
        proof {
            if string_views(self.outputs@).contains(output_name@) {
                let k = string_views(self.outputs@).index_of(output_name@);
                assert(self.outputs@[k]@ == output_name@);
            }
        }
        None
    }
}

} // verus!

verus! {

/// Whether notifications are to be shown on the output `name` under `configuration`.
pub open spec fn output_enabled(configuration: Configuration, name: Seq<char>) -> bool {
    let conf = match configuration.outputs.spec_get(name) {
        Some(o) => o,
        None => configuration.default_output_config,
    };
    match conf.enabled {
        Some(e) => e != crate::configuration::EnableOption::Disabled,
        None => false,
    }
}

impl Notification {
    /// Records the outputs, among those available, on which notifications are enabled.
    pub fn select_outputs(&mut self, configuration: &Configuration, available: &Vec<String>)
        requires
            configuration.outputs.wf(),
        ensures
            forall|n: Seq<char>| #![trigger string_views(final(self).outputs@).contains(n)]
                string_views(final(self).outputs@).contains(n) <==> (string_views(old(self).outputs@).contains(n)
                    || (string_views(available@).contains(n) && output_enabled(*configuration, n))),
            final(self).surface_ids == old(self).surface_ids,
            final(self).id == old(self).id,
    {
        let ghost start = string_views(self.outputs@);
        let ghost av = string_views(available@);
        for i in 0..available.len()
            invariant
                configuration.outputs.wf(),
                av == string_views(available@),
                self.surface_ids == old(self).surface_ids,
                self.id == old(self).id,
                forall|n: Seq<char>| #![trigger string_views(self.outputs@).contains(n)]
                    string_views(self.outputs@).contains(n) <==> (start.contains(n)
                        || (av.take(i as int).contains(n) && output_enabled(*configuration, n))),
        {
            let name = &available[i];
            let conf = configuration.get_output_configuration(name.as_str());
            let enabled = match conf.enabled {
                Some(e) => e.is_enabled(),
                None => false,
            };
            proof {
                broadcast use vstd::seq_lib::lemma_seq_contains_after_push;
                assert(av.take(i + 1) == av.take(i as int).push(name@));
            }
            if enabled {
                self.try_add_output(name);
            }
        }
        assert(av.take(available@.len() as int) == av);
    }
}

/// The hints of a notification request that the server reads, each as found in the request:
/// `None` where the hint is absent, and an inner `None` where it is present but not of the
/// expected type.
#[derive(Debug)]
pub struct NotifyHints {
    pub image_data: Option<Option<ImageData>>,
    pub has_image_path: bool,
    pub icon_data: Option<Option<ImageData>>,
    pub urgency: Option<u8>,
    pub suppress_sound: Option<Option<bool>>,
    pub sound_file: Option<Option<String>>,
    pub sound_name: Option<Option<String>>,
}

/// A request to show a notification.
#[derive(Debug)]
pub struct NotifyRequest {
    pub app_name: String,
    pub replaces_id: u32,
    pub app_icon: String,
    pub summary: String,
    pub body: String,
    pub expire_timeout: i32,
    pub hints: NotifyHints,
}

pub open spec fn sound_theme_prefix() -> Seq<char> {
    "/usr/share/sounds/freedesktop/stereo/"@
}

pub open spec fn sound_theme_suffix() -> Seq<char> {
    seq!['.', 'o', 'g', 'a']
}

/// The sound file a request asks for: its `sound-file` hint (where that is a string); else
/// the themed sound its `sound-name` hint names; else the configured default sound.
pub open spec fn requested_sound(hints: NotifyHints, default_sound: Seq<char>) -> Option<Seq<char>> {
    match hints.sound_file {
        Some(f) => opt_view(f),
        None => match hints.sound_name {
            Some(n) => Some(
                sound_theme_prefix() + match n {
                    Some(s) => s@,
                    None => Seq::<char>::empty(),
                } + sound_theme_suffix(),
            ),
            None => Some(default_sound),
        },
    }
}

/// Whether a request asks for sounds to be suppressed.
pub open spec fn sound_suppressed(hints: NotifyHints) -> bool {
    match hints.suppress_sound {
        Some(Some(b)) => b,
        _ => false,
    }
}

/// The image of a request: its `image-data` hint, else its `icon_data` hint.
pub open spec fn requested_image(hints: NotifyHints) -> Option<ImageData> {
    match hints.image_data {
        Some(i) => i,
        None => match hints.icon_data {
            Some(i) => i,
            None => None,
        },
    }
}

fn concat3(a: &str, b: &str, c: &[char]) -> (ret: String)
    ensures
        ret@ == a@ + b@ + c@,
{
    let mut v = chars_of(a);
    let bv = chars_of(b);
    let ghost base = v@;
    for i in 0..bv.len()
        invariant
            v@ == base + bv@.take(i as int),
    {
        v.push(bv[i]);
        assert(bv@.take(i + 1) == bv@.take(i as int).push(bv@[i as int]));
    }
    assert(bv@.take(bv@.len() as int) == bv@);
    let ghost mid = v@;
    for i in 0..c.len()
        invariant
            v@ == mid + c@.take(i as int),
    {
        v.push(c[i]);
        assert(c@.take(i + 1) == c@.take(i as int).push(c@[i as int]));
    }
    assert(c@.take(c@.len() as int) == c@);
    string_of(&v)
}

impl Notification {
    /// The notification a request describes: its texts, its icon unless that is empty, its
    /// image, its urgency (normal where the request gives none) and, unless sounds are
    /// suppressed, the sound file to play.
    pub fn from_request(request: NotifyRequest, default_sound: &str) -> (ret: Notification)
        requires
            !(request.hints.image_data is None && request.hints.has_image_path),
        ensures
            ret.id is None,
            ret.app_name == request.app_name,
            ret.summary == request.summary,
            ret.body == request.body,
            request.app_icon@.len() == 0 ==> ret.app_icon is None,
            request.app_icon@.len() > 0 ==> ret.app_icon == Some(request.app_icon),
            ret.image_data == requested_image(request.hints),
            ret.urgency == match request.hints.urgency {
                Some(b) => urgency_of_byte(b),
                None => NotificationUrgency::Normal,
            },
            sound_suppressed(request.hints) ==> ret.sound_file is None,
            !sound_suppressed(request.hints) ==> opt_view(ret.sound_file) == requested_sound(
                request.hints,
                default_sound@,
            ),
            ret.is_dirty,
            ret.expire_timeout is None,
            ret.outputs@.len() == 0,
            ret.surface_ids@.len() == 0,
    {
        let NotifyRequest { app_name, replaces_id: _, app_icon, summary, body, expire_timeout: _, hints } = request;
        let mut n = Notification::new(app_name, summary, body);
        if !app_icon.as_str().is_empty() {
            n.app_icon = Some(app_icon);
        }
        let NotifyHints { image_data, has_image_path: _, icon_data, urgency, suppress_sound, sound_file, sound_name } = hints;
        n.image_data = match image_data {
            Some(i) => i,
            None => match icon_data {
                Some(i) => i,
                None => None,
            },
        };
        n.urgency = match urgency {
            Some(b) => NotificationUrgency::from(b),
            None => NotificationUrgency::Normal,
        };
        let suppress = match suppress_sound {
            Some(Some(b)) => b,
            _ => false,
        };
        if !suppress {
            n.sound_file = match sound_file {
                Some(f) => f,
                None => match sound_name {
                    Some(name) => {
                        let suffix = ['.', 'o', 'g', 'a'];
                        assert(suffix@ == sound_theme_suffix());
                        let text = match name {
                            Some(s) => s,
                            None => String::new(),
                        };
                        Some(concat3("/usr/share/sounds/freedesktop/stereo/", text.as_str(), &suffix))
                    },
                    None => Some(default_sound.to_owned()),
                },
            };
        }
        n
    }
}

} // verus!

verus! {

/// How a surface for a notification is to be made on an output.
#[derive(Clone, Copy, Debug, PartialEq, Eq, Structural)]
pub struct SurfacePlan {
    pub width: i32,
    pub height: i32,
    /// The edges to anchor it to, where configured.
    pub anchor: Option<crate::configuration::Anchor>,
    /// The layer to put it on, where configured for the notification's urgency.
    pub layer: Option<crate::configuration::Layer>,
    /// Its margins; without them, the surface is made but not kept.
    pub margins: Option<crate::configuration::Margin>,
}

/// How a surface for a notification of `urgency` is made on an output with the settings
/// `spec`: of the configured size, anchored and layered as configured; `None` where no size
/// is configured.
pub fn surface_plan(spec: &OutputConfiguration, urgency: NotificationUrgency) -> (ret: Option<SurfacePlan>)
    requires
        spec.urgencies.wf(),
    ensures
        match (spec.width, spec.height) {
            (Some(w), Some(h)) => ret == Some(
                SurfacePlan {
                    width: w,
                    height: h,
                    anchor: spec.anchor,
                    layer: match spec.urgencies.spec_get(urgency_name(urgency)) {
                        Some(u) => u.layer,
                        None => spec.default_urgency.layer,
                    },
                    margins: spec.margins,
                },
            ),
            _ => ret is None,
        },
{
    let width = match spec.width {
        Some(w) => w,
        None => return None,
    };
    let height = match spec.height {
        Some(h) => h,
        None => return None,
    };
    let name = urgency.to_string();
    let config = spec.get_by_urgency(name.as_str());
    Some(SurfacePlan { width, height, anchor: spec.anchor, layer: config.layer, margins: spec.margins })
}

/// The fields of an image-data hint as found in a request: each `None` where it is absent or
/// not of the expected type; the data as its items read as integers, each `None` where an
/// item is not an integer.
#[derive(Debug)]
pub struct RawImageData {
    pub width: Option<i32>,
    pub height: Option<i32>,
    pub rowstride: Option<i32>,
    pub has_alpha: Option<bool>,
    pub bits_per_sample: Option<i32>,
    pub channels: Option<i32>,
    pub data: Option<Vec<Option<i64>>>,
}

/// The byte an item of image data stands for: its low eight bits, zero where it is not an
/// integer.
pub open spec fn data_byte(item: Option<i64>) -> u8 {
    match item {
        Some(v) => v as u8,
        None => 0,
    }
}

/// Reads an image-data hint: `None` where a field is missing; else the image, each data item
/// taken as a byte (see `data_byte`).
pub fn parse_image_data_struct(raw: RawImageData) -> (ret: Option<ImageData>)
    ensures
        match (raw.width, raw.height, raw.rowstride, raw.has_alpha, raw.bits_per_sample, raw.channels, raw.data) {
            (Some(w), Some(h), Some(r), Some(a), Some(b), Some(c), Some(d)) => ret matches Some(img) && img.width
                == w && img.height == h && img.rowstride == r && img.has_alpha == a
                && img.bits_per_sample == b && img.channels == c && img.data@ == d@.map_values(
                |item: Option<i64>| data_byte(item),
            ),
            _ => ret is None,
        },
{
    let RawImageData { width, height, rowstride, has_alpha, bits_per_sample, channels, data } = raw;
    match (width, height, rowstride, has_alpha, bits_per_sample, channels, data) {
        (Some(w), Some(h), Some(r), Some(a), Some(b), Some(c), Some(items)) => {
            let mut bytes: Vec<u8> = Vec::new();
            for i in 0..items.len()
                invariant
                    bytes@ == items@.take(i as int).map_values(|item: Option<i64>| data_byte(item)),
            {
                let byte: u8 = match items[i] {
                    Some(v) => v as u8,
                    None => 0,
                };
                bytes.push(byte);
                assert(items@.take(i + 1).map_values(|item: Option<i64>| data_byte(item))
                    =~= items@.take(i as int).map_values(|item: Option<i64>| data_byte(item)).push(byte));
            }
            assert(items@.take(items@.len() as int) =~= items@);
            Some(
                ImageData {
                    width: w,
                    height: h,
                    rowstride: r,
                    has_alpha: a,
                    bits_per_sample: b,
                    channels: c,
                    data: bytes,
                },
            )
        },
        _ => None,
    }
}

} // verus!
