//! The state the compositor connection keeps per surface and per pointer, and the decisions
//! taken on each protocol event; the protocol objects themselves are driven by the caller.
use vstd::prelude::*;

use crate::configuration::EventTrigger;
use crate::notification::SurfaceId;
use crate::text::{decimal, string_of, zero_padded};

verus! {

/// A pointer button, by its Linux input event code.
#[derive(Clone, Copy, Debug, PartialEq, Eq, Structural)]
pub enum LinuxButtonCode {
    Unknown(u32),
    /// Code 0x110.
    Left,
    /// Code 0x111.
    Right,
    /// Code 0x112.
    Middle,
}

/// The button a Linux input event code names.
pub open spec fn button_of_code(data: u32) -> LinuxButtonCode {
    if data == 0x110 {
        LinuxButtonCode::Left
    } else if data == 0x111 {
        LinuxButtonCode::Right
    } else if data == 0x112 {
        LinuxButtonCode::Middle
    } else {
        LinuxButtonCode::Unknown(data)
    }
}

impl From<u32> for LinuxButtonCode {
    fn from(data: u32) -> (ret: LinuxButtonCode) {
        if data == 0x110 {
            LinuxButtonCode::Left
        } else if data == 0x111 {
            LinuxButtonCode::Right
        } else if data == 0x112 {
            LinuxButtonCode::Middle
        } else {
            LinuxButtonCode::Unknown(data)
        }
    }
}

impl vstd::std_specs::convert::FromSpecImpl<u32> for LinuxButtonCode {
    open spec fn obeys_from_spec() -> bool {
        true
    }

    open spec fn from_spec(v: u32) -> LinuxButtonCode {
        button_of_code(v)
    }
}

/// The trigger a button fires: the click of that button; an unknown button gives its code
/// back.
pub open spec fn trigger_of_button(code: LinuxButtonCode) -> Result<EventTrigger, u32> {
    match code {
        LinuxButtonCode::Left => Ok(EventTrigger::OnLeftClick),
        LinuxButtonCode::Right => Ok(EventTrigger::OnRightClick),
        LinuxButtonCode::Middle => Ok(EventTrigger::OnMiddleClick),
        LinuxButtonCode::Unknown(raw) => Err(raw),
    }
}

impl TryFrom<LinuxButtonCode> for EventTrigger {
    type Error = u32;

    fn try_from(code: LinuxButtonCode) -> (ret: Result<EventTrigger, u32>) {
        match code {
            LinuxButtonCode::Left => Ok(EventTrigger::OnLeftClick),
            LinuxButtonCode::Right => Ok(EventTrigger::OnRightClick),
            LinuxButtonCode::Middle => Ok(EventTrigger::OnMiddleClick),
            LinuxButtonCode::Unknown(raw) => Err(raw),
        }
    }
}

impl vstd::std_specs::convert::TryFromSpecImpl<LinuxButtonCode> for EventTrigger {
    open spec fn obeys_try_from_spec() -> bool {
        true
    }

    open spec fn try_from_spec(v: LinuxButtonCode) -> Result<EventTrigger, u32> {
        trigger_of_button(v)
    }
}

/// The name of the shared-memory object of the given attempt: `/wl_shm_bell-`, the attempt
/// number padded with zeros to eight digits, and a terminating NUL.
pub open spec fn shm_name(attempt_number: u16) -> Seq<char> {
    seq!['/', 'w', 'l', '_', 's', 'h', 'm', '_', 'b', 'e', 'l', 'l', '-'] + zero_padded(
        decimal(attempt_number as nat),
        8,
    ) + seq!['\0']
}

/// The name of the shared-memory object of the given attempt (see `shm_name`).
pub fn format_shm_name(attempt_number: u16) -> (ret: String)
    ensures
        ret@ == shm_name(attempt_number),
{
    let mut digits: Vec<char> = Vec::new();
    crate::text::push_decimal(attempt_number as u64, &mut digits);
    assert(digits@ =~= decimal(attempt_number as nat));
    let mut v = vec!['/', 'w', 'l', '_', 's', 'h', 'm', '_', 'b', 'e', 'l', 'l', '-'];
    let ghost prefix = v@;
    let mut pad: usize = 0;
    let width: usize = 8;
    let missing: usize = if digits.len() >= width {
        0
    } else {
        width - digits.len()
    };
    while pad < missing
        invariant
            pad <= missing,
            v@ == prefix + Seq::new(pad as nat, |i: int| '0'),
        decreases missing - pad,
    {
        v.push('0');
        pad = pad + 1;
        assert(v@ =~= prefix + Seq::new(pad as nat, |i: int| '0'));
    }
    let ghost padded = v@;
    for i in 0..digits.len()
        invariant
            v@ == padded + digits@.take(i as int),
    {
        v.push(digits[i]);
        assert(digits@.take(i + 1) =~= digits@.take(i as int).push(digits@[i as int]));
    }
    v.push('\0');
    proof {
        assert(digits@.take(digits@.len() as int) =~= digits@);
        let z = zero_padded(decimal(attempt_number as nat), 8);
        if digits@.len() >= 8 {
            assert(Seq::new(0nat, |i: int| '0') =~= Seq::<char>::empty());
            assert(z =~= digits@);
        } else {
            assert(z =~= Seq::new((8 - digits@.len()) as nat, |i: int| '0') + digits@);
        }
        assert(v@ =~= shm_name(attempt_number));
    }
    string_of(&v)
}

/// The sizes of a shared-memory pool that holds one buffer of `width` by `height` pixels of
/// `bit_depth` bytes at the scale `buffer_scale`.
#[derive(Clone, Copy, Debug, PartialEq, Eq, Structural)]
pub struct PoolLayout {
    pub width: i32,
    pub height: i32,
    pub bit_depth: u8,
    pub buffer_scale: i32,
}

/// `a * b` where it fits an `i32`.
pub open spec fn mul_i32(a: int, b: int) -> Option<i32> {
    if i32::MIN <= a * b <= i32::MAX {
        Some((a * b) as i32)
    } else {
        None
    }
}

fn checked_mul_i32(a: i32, b: i32) -> (ret: Option<i32>)
    ensures
        ret == mul_i32(a as int, b as int),
{
    a.checked_mul(b)
}

impl PoolLayout {
    pub open spec fn page_bytes(&self) -> Option<i32> {
        match mul_i32(self.width as int, self.height as int) {
            Some(a) => mul_i32(a as int, self.bit_depth as int),
            None => None,
        }
    }

    /// The bytes of one unscaled page: width times height times bit depth; `None` where that
    /// overflows an `i32`.
    pub fn page_size(&self) -> (ret: Option<i32>)
        ensures
            ret == self.page_bytes(),
    {
        match checked_mul_i32(self.width, self.height) {
            Some(a) => checked_mul_i32(a, self.bit_depth as i32),
            None => None,
        }
    }

    /// The bytes of the pool: the page size times the square of the scale; `None` where a
    /// step overflows an `i32`.
    pub fn size(&self) -> (ret: Option<i32>)
        ensures
            ret == match self.page_bytes() {
                Some(p) => match mul_i32(self.buffer_scale as int, self.buffer_scale as int) {
                    Some(sq) => mul_i32(p as int, sq as int),
                    None => None,
                },
                None => None,
            },
    {
        match self.page_size() {
            Some(p) => match checked_mul_i32(self.buffer_scale, self.buffer_scale) {
                Some(sq) => checked_mul_i32(p, sq),
                None => None,
            },
            None => None,
        }
    }

    /// The buffer's width, height and stride in bytes: the scaled width and height, and the
    /// scaled width times the bit depth; `None` where a step overflows an `i32`.
    pub fn buffer_geometry(&self) -> (ret: Option<(i32, i32, i32)>)
        ensures
            ret == match (
                mul_i32(self.width as int, self.buffer_scale as int),
                mul_i32(self.height as int, self.buffer_scale as int),
            ) {
                (Some(w), Some(h)) => match mul_i32(w as int, self.bit_depth as int) {
                    Some(stride) => Some((w, h, stride)),
                    None => None,
                },
                _ => None,
            },
    {
        let w = checked_mul_i32(self.width, self.buffer_scale);
        let h = checked_mul_i32(self.height, self.buffer_scale);
        match (w, h) {
            (Some(w), Some(h)) => match checked_mul_i32(w, self.bit_depth as i32) {
                Some(stride) => Some((w, h, stride)),
                None => None,
            },
            _ => None,
        }
    }
}

} // verus!

verus! {

/// What the caller is to do with a surface's protocol objects after a change of its state.
#[derive(Clone, Copy, Debug, PartialEq, Eq, Structural)]
pub enum DrawAction {
    Nothing,
    /// Damage the whole buffer, attach it and commit the surface.
    Draw,
    /// Destroy the layer surface and the surface.
    Destroy,
}

/// The state kept for a notification surface.
#[derive(Debug)]
pub struct SurfaceState {
    pub id: SurfaceId,
    pub output_name: String,
    pub surface_width: i32,
    pub surface_height: i32,
    /// Whether its contents are to be drawn again.
    pub is_dirty: bool,
    pub destruction_scheduled: bool,
    pub destroyed: bool,
    /// Whether the compositor released the buffer.
    pub ready_to_draw: bool,
    pub draw_is_requested: bool,
    pub is_configured: bool,
    /// The scale of its shared-memory pool, once one was made.
    pub pool_scale: Option<i32>,
}

/// A surface drawn: one scheduled for destruction is destroyed instead; else it waits for
/// the buffer to be released and for the next request, and is no longer dirty.
pub open spec fn drawn(s: SurfaceState) -> (SurfaceState, DrawAction) {
    if s.destruction_scheduled {
        (SurfaceState { destruction_scheduled: false, destroyed: true, ..s }, DrawAction::Destroy)
    } else {
        (
            SurfaceState { ready_to_draw: false, draw_is_requested: false, is_dirty: false, ..s },
            DrawAction::Draw,
        )
    }
}

/// A surface after a change of its flags: drawn once a draw is requested, the buffer is
/// released and the surface is configured; else unchanged.
pub open spec fn settled(s: SurfaceState) -> (SurfaceState, DrawAction) {
    if s.draw_is_requested && s.ready_to_draw && s.is_configured {
        drawn(s)
    } else {
        (s, DrawAction::Nothing)
    }
}

/// What a pointer button does on a surface: an unknown button gives its code back; a
/// pressed known button fires its trigger; a released one nothing.
pub open spec fn pointer_trigger(code: LinuxButtonCode, pressed: bool) -> Result<Option<EventTrigger>, u32> {
    match trigger_of_button(code) {
        Err(raw) => Err(raw),
        Ok(t) => Ok(
            if pressed {
                Some(t)
            } else {
                None
            },
        ),
    }
}

/// The trigger a pointer button fires on a surface (see `pointer_trigger`).
pub fn handle_pointer_event(button_code: LinuxButtonCode, pressed: bool) -> (ret: Result<
    Option<EventTrigger>,
    u32,
>)
    ensures
        ret == pointer_trigger(button_code, pressed),
{
    match EventTrigger::try_from(button_code) {
        Err(code) => Err(code),
        Ok(t) => Ok(
            if pressed {
                Some(t)
            } else {
                None
            },
        ),
    }
}

impl SurfaceState {
    /// A new surface of the given size on the output `output_name`: dirty, with its buffer
    /// released, neither configured nor asked to draw, and without a memory pool.
    pub fn new(id: SurfaceId, output_name: String, width: i32, height: i32) -> (ret: SurfaceState)
        ensures
            ret == (SurfaceState {
                id,
                output_name,
                surface_width: width,
                surface_height: height,
                is_dirty: true,
                destruction_scheduled: false,
                destroyed: false,
                ready_to_draw: true,
                draw_is_requested: false,
                is_configured: false,
                pool_scale: None,
            }),
    {
        SurfaceState {
            id,
            output_name,
            surface_width: width,
            surface_height: height,
            is_dirty: true,
            destruction_scheduled: false,
            destroyed: false,
            ready_to_draw: true,
            draw_is_requested: false,
            is_configured: false,
            pool_scale: None,
        }
    }

    /// The scale of its buffer: that of its memory pool, else one.
    pub fn get_buffer_scale(&self) -> (ret: i32)
        ensures
            ret == match self.pool_scale {
                Some(s) => s,
                None => 1,
            },
    {
        match self.pool_scale {
            Some(s) => s,
            None => 1,
        }
    }

    /// Sets the scale of its buffer; gives whether a new memory pool of that scale is to be
    /// made, which is so unless it has one of that scale already. A new pool makes the
    /// surface dirty.
    pub fn set_buffer_scale(&mut self, scale_factor: i32) -> (ret: bool)
        ensures
            ret == !(old(self).pool_scale == Some(scale_factor)),
            ret ==> *final(self) == (SurfaceState {
                pool_scale: Some(scale_factor),
                is_dirty: true,
                ..*old(self)
            }),
            !ret ==> *final(self) == *old(self),
    {
        if self.pool_scale.is_some() && scale_factor == self.get_buffer_scale() {
            return false;
        }
        self.pool_scale = Some(scale_factor);
        self.is_dirty = true;
        true
    }

    /// Schedules its destruction for its next draw, unless it is destroyed already.
    pub fn destroy_later(&mut self)
        ensures
            *final(self) == if old(self).destroyed {
                *old(self)
            } else {
                SurfaceState { destruction_scheduled: true, ..*old(self) }
            },
    {
        if self.destroyed {
            return;
        }
        self.destruction_scheduled = true;
    }

    /// Whether its destruction is scheduled.
    pub fn will_destroy_later(&self) -> (ret: bool)
        ensures
            ret == self.destruction_scheduled,
    {
        self.destruction_scheduled
    }

    /// Whether it was destroyed.
    pub fn is_destroyed(&self) -> (ret: bool)
        ensures
            ret == self.destroyed,
    {
        self.destroyed
    }

    fn draw(&mut self) -> (ret: DrawAction)
        ensures
            (*final(self), ret) == drawn(*old(self)),
    {
        if self.destruction_scheduled {
            self.destruction_scheduled = false;
            self.destroyed = true;
            return DrawAction::Destroy;
        }
        self.ready_to_draw = false;
        self.draw_is_requested = false;
        self.is_dirty = false;
        DrawAction::Draw
    }

    /// Records that the compositor released its buffer (see `settled`).
    pub fn set_ready_to_draw(&mut self) -> (ret: DrawAction)
        ensures
            (*final(self), ret) == settled(SurfaceState { ready_to_draw: true, ..*old(self) }),
    {
        self.ready_to_draw = true;
        if self.draw_is_requested && self.is_configured {
            return self.draw();
        }
        DrawAction::Nothing
    }

    /// Records that the compositor configured it (see `settled`).
    pub fn set_configured(&mut self) -> (ret: DrawAction)
        ensures
            (*final(self), ret) == settled(SurfaceState { is_configured: true, ..*old(self) }),
    {
        self.is_configured = true;
        if self.draw_is_requested && self.ready_to_draw {
            return self.draw();
        }
        DrawAction::Nothing
    }

    /// Asks for it to be drawn (see `settled`).
    pub fn request_draw(&mut self) -> (ret: DrawAction)
        ensures
            (*final(self), ret) == settled(SurfaceState { draw_is_requested: true, ..*old(self) }),
    {
        self.draw_is_requested = true;
        if self.ready_to_draw && self.is_configured {
            return self.draw();
        }
        DrawAction::Nothing
    }

    /// Records that new contents were written to its buffer and asks for it to be drawn;
    /// gives `None`, and changes nothing, where it has no memory pool to write to.
    pub fn write(&mut self) -> (ret: Option<DrawAction>)
        ensures
            old(self).pool_scale is None ==> ret is None && *final(self) == *old(self),
            old(self).pool_scale is Some ==> ret is Some && (*final(self), ret->0) == settled(
                SurfaceState { draw_is_requested: true, ..*old(self) },
            ),
    {
        if self.pool_scale.is_none() {
            return None;
        }
        Some(self.request_draw())
    }

    /// The extent of the buffer to damage when drawing: its size times the buffer scale;
    /// `None` where that overflows an `i32`.
    pub fn damage_extent(&self) -> (ret: Option<(i32, i32)>)
        ensures
            ({
                let scale = match self.pool_scale {
                    Some(s) => s,
                    None => 1,
                };
                ret == match (
                    mul_i32(self.surface_width as int, scale as int),
                    mul_i32(self.surface_height as int, scale as int),
                ) {
                    (Some(w), Some(h)) => Some((w, h)),
                    _ => None,
                }
            }),
    {
        let scale = self.get_buffer_scale();
        match (checked_mul_i32(self.surface_width, scale), checked_mul_i32(self.surface_height, scale)) {
            (Some(w), Some(h)) => Some((w, h)),
            _ => None,
        }
    }
}

} // verus!

verus! {

/// Whether no two surfaces share an id.
pub open spec fn surface_ids_distinct(s: Seq<SurfaceState>) -> bool {
    forall|i: int, j: int| 0 <= i < j < s.len() ==> s[i].id != s[j].id
}

/// The position of the surface `id`, if any.
pub open spec fn find_surface(s: Seq<SurfaceState>, id: SurfaceId) -> Option<int> {
    if exists|i: int| 0 <= i < s.len() && s[i].id == id {
        Some(choose|i: int| 0 <= i < s.len() && s[i].id == id)
    } else {
        None
    }
}

/// Whether no two trigger lists are for the same surface.
pub open spec fn trigger_ids_distinct(t: Seq<(SurfaceId, Vec<EventTrigger>)>) -> bool {
    forall|i: int, j: int| 0 <= i < j < t.len() ==> t[i].0 != t[j].0
}

/// The triggers reported on each surface.
pub open spec fn triggers_view(t: Seq<(SurfaceId, Vec<EventTrigger>)>) -> Map<SurfaceId, Seq<EventTrigger>> {
    Map::new(
        |id: SurfaceId| exists|i: int| 0 <= i < t.len() && t[i].0 == id,
        |id: SurfaceId| t[choose|i: int| 0 <= i < t.len() && t[i].0 == id].1@,
    )
}

/// A surface after another was marked for destruction: dirty, and scheduled for destruction
/// itself where it is that one and not destroyed yet.
pub open spec fn marked(s: SurfaceState, id: SurfaceId) -> SurfaceState {
    let t = if s.id == id && !s.destroyed {
        SurfaceState { destruction_scheduled: true, ..s }
    } else {
        s
    };
    SurfaceState { is_dirty: true, ..t }
}

/// What a pointer button did.
#[derive(Clone, Copy, Debug, PartialEq, Eq, Structural)]
pub enum ButtonOutcome {
    /// No surface has the id the pointer is on.
    NoSurface,
    /// The button is unknown; its code.
    UnknownButton(u32),
    /// The trigger was recorded for the surface.
    Recorded(EventTrigger),
    /// A known button was released.
    Released,
}

/// The compositor-side state: the surfaces, the triggers reported on them, the outputs, and
/// how many announcements are still awaited.
#[derive(Debug)]
pub struct WaylandState {
    pub pending_data_amount: usize,
    pub surfaces: Vec<SurfaceState>,
    pub trigger_events: Vec<(SurfaceId, Vec<EventTrigger>)>,
    pub output_names: Vec<String>,
}

proof fn lemma_find_surface(s: Seq<SurfaceState>, id: SurfaceId, i: int)
    requires
        surface_ids_distinct(s),
        0 <= i < s.len(),
        s[i].id == id,
    ensures
        find_surface(s, id) == Some(i),
{
    let j = choose|j: int| 0 <= j < s.len() && s[j].id == id;
    if j < i {
        assert(s[j].id != s[i].id);
    } else if i < j {
        assert(s[i].id != s[j].id);
    }
}

impl WaylandState {
    pub open spec fn wf(&self) -> bool {
        &&& surface_ids_distinct(self.surfaces@)
        &&& trigger_ids_distinct(self.trigger_events@)
    }

    /// A state with no surface, output or trigger, awaiting the first round trip.
    pub fn new() -> (ret: WaylandState)
        ensures
            ret.wf(),
            ret.pending_data_amount == 1,
            ret.surfaces@.len() == 0,
            ret.trigger_events@.len() == 0,
            ret.output_names@.len() == 0,
    {
        WaylandState {
            pending_data_amount: 1,
            surfaces: Vec::new(),
            trigger_events: Vec::new(),
            output_names: Vec::new(),
        }
    }

    /// Records that information about a newly bound output is awaited.
    pub fn await_output_data(&mut self)
        requires
            old(self).pending_data_amount < usize::MAX,
        ensures
            *final(self) == (WaylandState {
                pending_data_amount: (old(self).pending_data_amount + 1) as usize,
                ..*old(self)
            }),
    {
        self.pending_data_amount = self.pending_data_amount + 1;
    }

    /// Records that an awaited announcement arrived.
    pub fn data_received(&mut self)
        requires
            old(self).pending_data_amount > 0,
        ensures
            *final(self) == (WaylandState {
                pending_data_amount: (old(self).pending_data_amount - 1) as usize,
                ..*old(self)
            }),
    {
        self.pending_data_amount = self.pending_data_amount - 1;
    }

    /// Records the output `output_name`.
    pub fn add_output(&mut self, output_name: String)
        ensures
            crate::text::string_views(final(self).output_names@).contains(output_name@),
            forall|n: Seq<char>| #![trigger crate::text::string_views(final(self).output_names@).contains(n)]
                crate::text::string_views(final(self).output_names@).contains(n) <==> (
                crate::text::string_views(old(self).output_names@).contains(n) || n == output_name@),
            final(self).surfaces == old(self).surfaces,
            final(self).trigger_events == old(self).trigger_events,
            final(self).pending_data_amount == old(self).pending_data_amount,
    {
        let ghost before = crate::text::string_views(self.output_names@);
        for i in 0..self.output_names.len()
            invariant
                before == crate::text::string_views(self.output_names@),
                forall|j: int| 0 <= j < i ==> self.output_names@[j]@ != output_name@,
        {
            if self.output_names[i] == output_name {
                assert(before[i as int] == output_name@);
                return;
            }
        }
        let ghost name = output_name@;
        self.output_names.push(output_name);
        assert(crate::text::string_views(self.output_names@) =~= before.push(name));
        proof {
            broadcast use vstd::seq_lib::lemma_seq_contains_after_push;
        }
    }

    /// The names of the outputs.
    pub fn get_output_names(&self) -> (ret: &Vec<String>)
        ensures
            ret == self.output_names,
    {
        &self.output_names
    }

    /// The position of the surface `id`.
    pub fn surface_position(&self, id: SurfaceId) -> (ret: Option<usize>)
        requires
            self.wf(),
        ensures
            match ret {
                Some(i) => find_surface(self.surfaces@, id) == Some(i as int) && i < self.surfaces@.len(),
                None => find_surface(self.surfaces@, id) is None,
            },
    {
        for i in 0..self.surfaces.len()
            invariant
                self.wf(),
                forall|j: int| 0 <= j < i ==> self.surfaces@[j].id != id,
        {
            if self.surfaces[i].id == id {
                proof {
                    lemma_find_surface(self.surfaces@, id, i as int);
                }
                return Some(i);
            }
        }
        None
    }

    /// The surface `id`, if any.
    pub fn get_surface(&self, id: SurfaceId) -> (ret: Option<&SurfaceState>)
        requires
            self.wf(),
        ensures
            match ret {
                Some(s) => find_surface(self.surfaces@, id) matches Some(i) && self.surfaces@[i] == *s,
                None => find_surface(self.surfaces@, id) is None,
            },
    {
        match self.surface_position(id) {
            Some(i) => Some(&self.surfaces[i]),
            None => None,
        }
    }

    /// Adds `surface`, in place of any surface with its id.
    pub fn insert_surface(&mut self, surface: SurfaceState)
        requires
            old(self).wf(),
        ensures
            final(self).wf(),
            match find_surface(old(self).surfaces@, surface.id) {
                Some(i) => final(self).surfaces@ == old(self).surfaces@.update(i, surface),
                None => final(self).surfaces@ == old(self).surfaces@.push(surface),
            },
            final(self).trigger_events == old(self).trigger_events,
            final(self).output_names == old(self).output_names,
            final(self).pending_data_amount == old(self).pending_data_amount,
    {
        match self.surface_position(surface.id) {
            Some(i) => {
                self.surfaces.set(i, surface);
            },
            None => {
                self.surfaces.push(surface);
            },
        }
    }
}

} // verus!

verus! {

impl WaylandState {
    /// Records that the compositor configured the surface `id` (see
    /// `SurfaceState::set_configured`); `None` where there is no such surface.
    pub fn set_configured(&mut self, id: SurfaceId) -> (ret: Option<DrawAction>)
        requires
            old(self).wf(),
        ensures
            final(self).wf(),
            match find_surface(old(self).surfaces@, id) {
                Some(i) => {
                    let (s, a) = settled(
                        SurfaceState { is_configured: true, ..old(self).surfaces@[i] },
                    );
                    final(self).surfaces@ == old(self).surfaces@.update(i, s) && ret == Some(a)
                },
                None => ret is None && final(self).surfaces == old(self).surfaces,
            },
            final(self).trigger_events == old(self).trigger_events,
            final(self).output_names == old(self).output_names,
            final(self).pending_data_amount == old(self).pending_data_amount,
    {
        match self.surface_position(id) {
            Some(i) => {
                let mut s = self.surfaces.remove(i);
                let a = s.set_configured();
                self.surfaces.insert(i, s);
                assert(self.surfaces@ =~= old(self).surfaces@.update(i as int, s));
                Some(a)
            },
            None => None,
        }
    }

    /// Records that the compositor released the buffer of the surface `id` (see
    /// `SurfaceState::set_ready_to_draw`); `None` where there is no such surface.
    pub fn set_ready_to_draw(&mut self, id: SurfaceId) -> (ret: Option<DrawAction>)
        requires
            old(self).wf(),
        ensures
            final(self).wf(),
            match find_surface(old(self).surfaces@, id) {
                Some(i) => {
                    let (s, a) = settled(
                        SurfaceState { ready_to_draw: true, ..old(self).surfaces@[i] },
                    );
                    final(self).surfaces@ == old(self).surfaces@.update(i, s) && ret == Some(a)
                },
                None => ret is None && final(self).surfaces == old(self).surfaces,
            },
            final(self).trigger_events == old(self).trigger_events,
            final(self).output_names == old(self).output_names,
            final(self).pending_data_amount == old(self).pending_data_amount,
    {
        match self.surface_position(id) {
            Some(i) => {
                let mut s = self.surfaces.remove(i);
                let a = s.set_ready_to_draw();
                self.surfaces.insert(i, s);
                assert(self.surfaces@ =~= old(self).surfaces@.update(i as int, s));
                Some(a)
            },
            None => None,
        }
    }

    /// Records that new contents were written for the surface `id` (see
    /// `SurfaceState::write`); `None` where there is no such surface.
    pub fn write(&mut self, id: SurfaceId) -> (ret: Option<Option<DrawAction>>)
        requires
            old(self).wf(),
        ensures
            final(self).wf(),
            match find_surface(old(self).surfaces@, id) {
                Some(i) => {
                    let s0 = old(self).surfaces@[i];
                    if s0.pool_scale is None {
                        ret == Some(None::<DrawAction>) && final(self).surfaces@ == old(
                            self,
                        ).surfaces@
                    } else {
                        let (s, a) = settled(SurfaceState { draw_is_requested: true, ..s0 });
                        final(self).surfaces@ == old(self).surfaces@.update(i, s) && ret == Some(
                            Some(a),
                        )
                    }
                },
                None => ret is None && final(self).surfaces == old(self).surfaces,
            },
            final(self).trigger_events == old(self).trigger_events,
            final(self).output_names == old(self).output_names,
            final(self).pending_data_amount == old(self).pending_data_amount,
    {
        match self.surface_position(id) {
            Some(i) => {
                let mut s = self.surfaces.remove(i);
                let ghost s0 = s;
                let a = s.write();
                self.surfaces.insert(i, s);
                assert(self.surfaces@ =~= old(self).surfaces@.update(i as int, s));
                proof {
                    if s0.pool_scale is None {
                        assert(self.surfaces@ =~= old(self).surfaces@);
                    }
                }
                Some(a)
            },
            None => None,
        }
    }

    /// Sets the buffer scale of the surface `id` (see `SurfaceState::set_buffer_scale`);
    /// `None` where there is no such surface.
    pub fn set_buffer_scale(&mut self, id: SurfaceId, scale_factor: i32) -> (ret: Option<bool>)
        requires
            old(self).wf(),
        ensures
            final(self).wf(),
            match find_surface(old(self).surfaces@, id) {
                Some(i) => {
                    let s0 = old(self).surfaces@[i];
                    if s0.pool_scale == Some(scale_factor) {
                        ret == Some(false) && final(self).surfaces@ == old(self).surfaces@
                    } else {
                        ret == Some(true) && final(self).surfaces@ == old(self).surfaces@.update(
                            i,
                            SurfaceState { pool_scale: Some(scale_factor), is_dirty: true, ..s0 },
                        )
                    }
                },
                None => ret is None && final(self).surfaces == old(self).surfaces,
            },
            final(self).trigger_events == old(self).trigger_events,
            final(self).output_names == old(self).output_names,
            final(self).pending_data_amount == old(self).pending_data_amount,
    {
        match self.surface_position(id) {
            Some(i) => {
                let mut s = self.surfaces.remove(i);
                let ghost s0 = s;
                let changed = s.set_buffer_scale(scale_factor);
                self.surfaces.insert(i, s);
                assert(self.surfaces@ =~= old(self).surfaces@.update(i as int, s));
                proof {
                    if !changed {
                        assert(self.surfaces@ =~= old(self).surfaces@);
                    }
                }
                Some(changed)
            },
            None => None,
        }
    }

    /// Marks every surface dirty.
    pub fn dirty_all_surfaces(&mut self)
        requires
            old(self).wf(),
        ensures
            final(self).wf(),
            final(self).surfaces@.len() == old(self).surfaces@.len(),
            forall|i: int|
                0 <= i < old(self).surfaces@.len() ==> #[trigger] final(self).surfaces@[i] == (
                SurfaceState { is_dirty: true, ..old(self).surfaces@[i] }),
            final(self).trigger_events == old(self).trigger_events,
            final(self).output_names == old(self).output_names,
            final(self).pending_data_amount == old(self).pending_data_amount,
    {
        let ghost s0 = self.surfaces@;
        let n = self.surfaces.len();
        for i in 0..n
            invariant
                n == s0.len(),
                self.surfaces@.len() == s0.len(),
                forall|j: int|
                    0 <= j < i ==> #[trigger] self.surfaces@[j] == (SurfaceState {
                        is_dirty: true,
                        ..s0[j]
                    }),
                forall|j: int| i <= j < s0.len() ==> #[trigger] self.surfaces@[j] == s0[j],
                surface_ids_distinct(s0),
                self.trigger_events == old(self).trigger_events,
                self.output_names == old(self).output_names,
                self.pending_data_amount == old(self).pending_data_amount,
        {
            let mut s = self.surfaces.remove(i);
            s.is_dirty = true;
            self.surfaces.insert(i, s);
        }
        assert forall|a: int, b: int| 0 <= a < b < self.surfaces@.len() implies self.surfaces@[a].id
            != self.surfaces@[b].id by {
            assert(self.surfaces@[a].id == s0[a].id);
            assert(self.surfaces@[b].id == s0[b].id);
        }
    }

    /// Schedules the destruction of the surface `id` and marks every surface dirty; gives
    /// whether there is such a surface (where there is none, nothing changes).
    pub fn mark_surface_for_destruction(&mut self, id: SurfaceId) -> (ret: bool)
        requires
            old(self).wf(),
        ensures
            final(self).wf(),
            ret == find_surface(old(self).surfaces@, id) is Some,
            ret ==> final(self).surfaces@ == old(self).surfaces@.map_values(
                |s: SurfaceState| marked(s, id),
            ),
            !ret ==> final(self).surfaces == old(self).surfaces,
            final(self).trigger_events == old(self).trigger_events,
            final(self).output_names == old(self).output_names,
            final(self).pending_data_amount == old(self).pending_data_amount,
    {
        match self.surface_position(id) {
            Some(i) => {
                let ghost s0 = self.surfaces@;
                let mut s = self.surfaces.remove(i);
                s.destroy_later();
                self.surfaces.insert(i, s);
                assert(surface_ids_distinct(self.surfaces@)) by {
                    assert forall|a: int, b: int| 0 <= a < b < self.surfaces@.len() implies self.surfaces@[a].id
                        != self.surfaces@[b].id by {
                        assert(self.surfaces@[a].id == s0[a].id);
                        assert(self.surfaces@[b].id == s0[b].id);
                    }
                }
                self.dirty_all_surfaces();
                proof {
                    assert forall|j: int| 0 <= j < s0.len() && s0[j].id == id implies j == i by {
                        if s0[j].id == id && j != i {
                            if j < i {
                                assert(s0[j].id != s0[i as int].id);
                            } else {
                                assert(s0[i as int].id != s0[j].id);
                            }
                        }
                    }
                    assert(self.surfaces@ =~= s0.map_values(|s: SurfaceState| marked(s, id)));
                }
                true
            },
            None => false,
        }
    }

    /// Takes out the surfaces whose destruction is scheduled, in order, and gives them back.
    pub fn destroy_scheduled_surfaces(&mut self) -> (ret: Vec<SurfaceState>)
        requires
            old(self).wf(),
        ensures
            final(self).wf(),
            final(self).surfaces@ == old(self).surfaces@.filter(
                |s: SurfaceState| !s.destruction_scheduled,
            ),
            ret@ == old(self).surfaces@.filter(|s: SurfaceState| s.destruction_scheduled),
            final(self).trigger_events == old(self).trigger_events,
            final(self).output_names == old(self).output_names,
            final(self).pending_data_amount == old(self).pending_data_amount,
    {
        let mut all: Vec<SurfaceState> = Vec::new();
        std::mem::swap(&mut all, &mut self.surfaces);
        let ghost s0 = all@;
        let mut kept: Vec<SurfaceState> = Vec::new();
        let mut gone: Vec<SurfaceState> = Vec::new();
        let n = all.len();
        let mut i: usize = 0;
        while i < n
            invariant
                n == s0.len(),
                i <= n,
                all@ == s0.skip(i as int),
                kept@ == s0.take(i as int).filter(|s: SurfaceState| !s.destruction_scheduled),
                gone@ == s0.take(i as int).filter(|s: SurfaceState| s.destruction_scheduled),
                surface_ids_distinct(s0),
                surface_ids_distinct(kept@),
                forall|a: int|
                    0 <= a < kept@.len() ==> exists|j: int|
                        0 <= j < i && #[trigger] kept@[a].id == s0[j].id,
            decreases n - i,
        {
            let s = all.remove(0);
            proof {
                assert(s0.take(i + 1).drop_last() =~= s0.take(i as int));
                assert(s0.take(i + 1).last() == s);
                assert(all@ =~= s0.skip(i + 1));
                reveal_with_fuel(Seq::<_>::filter, 1);
            }
            if s.destruction_scheduled {
                gone.push(s);
            } else {
                let ghost k0 = kept@;
                kept.push(s);
                proof {
                    assert forall|a: int| 0 <= a < k0.len() implies k0[a].id != s.id by {
                        let j = choose|j: int| 0 <= j < i && k0[a].id == s0[j].id;
                        assert(s0[j].id != s0[i as int].id);
                    }
                    assert forall|a: int| 0 <= a < kept@.len() implies exists|j: int|
                        0 <= j < i + 1 && #[trigger] kept@[a].id == s0[j].id by {
                        if a < k0.len() {
                            let j = choose|j: int| 0 <= j < i && k0[a].id == s0[j].id;
                            assert(kept@[a].id == s0[j].id);
                        } else {
                            assert(kept@[a].id == s0[i as int].id);
                        }
                    }
                }
            }
            i = i + 1;
        }
        assert(s0.take(n as int) =~= s0);
        self.surfaces = kept;
        gone
    }
}

} // verus!

verus! {

proof fn lemma_triggers_view_index(t: Seq<(SurfaceId, Vec<EventTrigger>)>, i: int)
    requires
        trigger_ids_distinct(t),
        0 <= i < t.len(),
    ensures
        triggers_view(t).contains_key(t[i].0),
        triggers_view(t)[t[i].0] == t[i].1@,
{
    let id = t[i].0;
    assert(exists|j: int| 0 <= j < t.len() && t[j].0 == id);
    let j = choose|j: int| 0 <= j < t.len() && t[j].0 == id;
    if j < i {
        assert(t[j].0 != t[i].0);
    } else if i < j {
        assert(t[i].0 != t[j].0);
    }
}

impl WaylandState {
    fn trigger_position(&self, id: SurfaceId) -> (ret: Option<usize>)
        ensures
            match ret {
                Some(i) => i < self.trigger_events@.len() && self.trigger_events@[i as int].0 == id,
                None => forall|j: int|
                    0 <= j < self.trigger_events@.len() ==> self.trigger_events@[j].0 != id,
            },
    {
        for i in 0..self.trigger_events.len()
            invariant
                forall|j: int| 0 <= j < i ==> self.trigger_events@[j].0 != id,
        {
            if self.trigger_events[i].0 == id {
                return Some(i);
            }
        }
        None
    }

    /// Records the trigger `event` on the surface `id`, after those recorded on it before.
    pub fn insert_surface_event(&mut self, id: SurfaceId, event: EventTrigger)
        requires
            old(self).wf(),
        ensures
            final(self).wf(),
            triggers_view(final(self).trigger_events@) == triggers_view(
                old(self).trigger_events@,
            ).insert(
                id,
                if triggers_view(old(self).trigger_events@).contains_key(id) {
                    triggers_view(old(self).trigger_events@)[id].push(event)
                } else {
                    seq![event]
                },
            ),
            final(self).surfaces == old(self).surfaces,
            final(self).output_names == old(self).output_names,
            final(self).pending_data_amount == old(self).pending_data_amount,
    {
        let ghost t0 = self.trigger_events@;
        let ghost v0 = triggers_view(t0);
        match self.trigger_position(id) {
            Some(i) => {
                let (sid, mut list) = self.trigger_events.remove(i);
                list.push(event);
                let ghost l = list;
                self.trigger_events.insert(i, (sid, list));
                proof {
                    let t1 = self.trigger_events@;
                    assert(t1 =~= t0.update(i as int, (sid, l)));
                    lemma_triggers_view_index(t0, i as int);
                    assert forall|a: int, b: int| 0 <= a < b < t1.len() implies t1[a].0 != t1[b].0 by {
                        assert(t1[a].0 == t0[a].0);
                        assert(t1[b].0 == t0[b].0);
                    }
                    lemma_triggers_view_index(t1, i as int);
                    assert forall|k: SurfaceId| #[trigger] triggers_view(t1).contains_key(k) == v0.insert(id, v0[id].push(event)).contains_key(k) by {
                        if triggers_view(t1).contains_key(k) {
                            let j = choose|j: int| 0 <= j < t1.len() && t1[j].0 == k;
                            assert(t0[j].0 == k);
                        }
                        if v0.contains_key(k) {
                            let j = choose|j: int| 0 <= j < t0.len() && t0[j].0 == k;
                            assert(t1[j].0 == k);
                        }
                    }
                    assert forall|k: SurfaceId| #[trigger] triggers_view(t1).contains_key(k) implies triggers_view(t1)[k] == v0.insert(id, v0[id].push(event))[k] by {
                        let j = choose|j: int| 0 <= j < t1.len() && t1[j].0 == k;
                        lemma_triggers_view_index(t1, j);
                        if j != i {
                            assert(t0[j] == t1[j]);
                            lemma_triggers_view_index(t0, j);
                        }
                    }
                    assert(triggers_view(t1) =~= v0.insert(id, v0[id].push(event)));
                }
            },
            None => {
                let mut list: Vec<EventTrigger> = Vec::new();
                list.push(event);
                let ghost l = list;
                self.trigger_events.push((id, list));
                proof {
                    let t1 = self.trigger_events@;
                    assert(t1 =~= t0.push((id, l)));
                    assert(!v0.contains_key(id));
                    assert forall|a: int, b: int| 0 <= a < b < t1.len() implies t1[a].0 != t1[b].0 by {
                        if b == t0.len() {
                            assert(t1[a].0 == t0[a].0);
                        }
                    }
                    lemma_triggers_view_index(t1, t0.len() as int);
                    assert forall|k: SurfaceId| #[trigger] triggers_view(t1).contains_key(k) == v0.insert(id, seq![event]).contains_key(k) by {
                        if triggers_view(t1).contains_key(k) && k != id {
                            let j = choose|j: int| 0 <= j < t1.len() && t1[j].0 == k;
                            assert(t0[j].0 == k);
                        }
                        if v0.contains_key(k) {
                            let j = choose|j: int| 0 <= j < t0.len() && t0[j].0 == k;
                            assert(t1[j].0 == k);
                        }
                    }
                    assert forall|k: SurfaceId| #[trigger] triggers_view(t1).contains_key(k) implies triggers_view(t1)[k] == v0.insert(id, seq![event])[k] by {
                        let j = choose|j: int| 0 <= j < t1.len() && t1[j].0 == k;
                        lemma_triggers_view_index(t1, j);
                        if j < t0.len() {
                            assert(t0[j] == t1[j]);
                            lemma_triggers_view_index(t0, j);
                        }
                    }
                    assert(l@ =~= seq![event]);
                    assert(triggers_view(t1) =~= v0.insert(id, seq![event]));
                }
            },
        }
    }

    /// Takes out the triggers recorded per surface.
    pub fn consume_trigger_events(&mut self) -> (ret: Vec<(SurfaceId, Vec<EventTrigger>)>)
        requires
            old(self).wf(),
        ensures
            final(self).wf(),
            ret@ == old(self).trigger_events@,
            final(self).trigger_events@.len() == 0,
            final(self).surfaces == old(self).surfaces,
            final(self).output_names == old(self).output_names,
            final(self).pending_data_amount == old(self).pending_data_amount,
    {
        let mut taken: Vec<(SurfaceId, Vec<EventTrigger>)> = Vec::new();
        std::mem::swap(&mut taken, &mut self.trigger_events);
        taken
    }

    /// A pointer button on the surface `target` (see `pointer_trigger`): a pressed known
    /// button has its trigger recorded on the surface.
    pub fn handle_pointer_button(&mut self, target: SurfaceId, button: u32, pressed: bool) -> (ret:
        ButtonOutcome)
        requires
            old(self).wf(),
        ensures
            final(self).wf(),
            find_surface(old(self).surfaces@, target) is None ==> ret == ButtonOutcome::NoSurface
                && *final(self) == *old(self),
            find_surface(old(self).surfaces@, target) is Some ==> match pointer_trigger(
                button_of_code(button),
                pressed,
            ) {
                Err(raw) => ret == ButtonOutcome::UnknownButton(raw) && *final(self) == *old(self),
                Ok(None) => ret == ButtonOutcome::Released && *final(self) == *old(self),
                Ok(Some(t)) => ret == ButtonOutcome::Recorded(t) && triggers_view(
                    final(self).trigger_events@,
                ) == triggers_view(old(self).trigger_events@).insert(
                    target,
                    if triggers_view(old(self).trigger_events@).contains_key(target) {
                        triggers_view(old(self).trigger_events@)[target].push(t)
                    } else {
                        seq![t]
                    },
                ) && final(self).surfaces == old(self).surfaces,
            },
            final(self).output_names == old(self).output_names,
            final(self).pending_data_amount == old(self).pending_data_amount,
    {
        if self.surface_position(target).is_none() {
            return ButtonOutcome::NoSurface;
        }
        match handle_pointer_event(LinuxButtonCode::from(button), pressed) {
            Err(raw) => ButtonOutcome::UnknownButton(raw),
            Ok(None) => ButtonOutcome::Released,
            Ok(Some(t)) => {
                self.insert_surface_event(target, t);
                ButtonOutcome::Recorded(t)
            },
        }
    }
}

/// Where a pointer is: the serial of the event by which it entered a surface, and that
/// surface.
#[derive(Clone, Copy, Debug)]
pub struct PointerFocus {
    pub current: Option<(u32, SurfaceId)>,
}

/// What a pointer leaving a surface did.
#[derive(Clone, Copy, Debug, PartialEq, Eq, Structural)]
pub enum LeaveOutcome {
    /// It left the surface it was on.
    Left,
    /// The event names another surface, or is not newer than the one by which it entered.
    Mismatch,
    /// It was on no surface.
    NotEntered,
}

impl PointerFocus {
    /// A pointer on no surface.
    pub fn new() -> (ret: PointerFocus)
        ensures
            ret.current is None,
    {
        PointerFocus { current: None }
    }

    /// The pointer entered `surface` by the event `serial`.
    pub fn enter(&mut self, serial: u32, surface: SurfaceId)
        ensures
            final(self).current == Some((serial, surface)),
    {
        self.current = Some((serial, surface));
    }

    /// The pointer left `surface` by the event `serial`: it is on no surface afterwards
    /// where the event is newer than the one by which it entered that surface; else nothing
    /// changes.
    pub fn leave(&mut self, serial: u32, surface: SurfaceId) -> (ret: LeaveOutcome)
        ensures
            match old(self).current {
                Some((entered, on)) => if serial > entered && surface == on {
                    ret == LeaveOutcome::Left && final(self).current is None
                } else {
                    ret == LeaveOutcome::Mismatch && *final(self) == *old(self)
                },
                None => ret == LeaveOutcome::NotEntered && *final(self) == *old(self),
            },
    {
        match self.current {
            Some((entered, on)) => {
                if serial > entered && surface == on {
                    self.current = None;
                    LeaveOutcome::Left
                } else {
                    LeaveOutcome::Mismatch
                }
            },
            None => LeaveOutcome::NotEntered,
        }
    }

    /// The surface a button event `serial` is for: the one the pointer is on, where the
    /// event is newer than the one by which it entered.
    pub fn button_target(&self, serial: u32) -> (ret: Option<SurfaceId>)
        ensures
            ret == match self.current {
                Some((entered, on)) => if serial > entered {
                    Some(on)
                } else {
                    None
                },
                None => None,
            },
    {
        match self.current {
            Some((entered, on)) => if serial > entered {
                Some(on)
            } else {
                None
            },
            None => None,
        }
    }
}

} // verus!

verus! {

/// A surface is drawn, or destroyed, only once a draw is requested, its buffer is released
/// and it is configured; it is destroyed exactly when its destruction was scheduled, and is
/// then destroyed and no longer scheduled.
pub proof fn law_draw_needs_request_release_and_configure(s: SurfaceState)
    ensures
        settled(s).1 != DrawAction::Nothing ==> s.draw_is_requested && s.ready_to_draw
            && s.is_configured,
        settled(s).1 == DrawAction::Destroy <==> (s.draw_is_requested && s.ready_to_draw
            && s.is_configured && s.destruction_scheduled),
        settled(s).1 == DrawAction::Destroy ==> settled(s).0.destroyed
            && !settled(s).0.destruction_scheduled,
        settled(s).1 == DrawAction::Nothing ==> settled(s).0 == s,
{
}

/// After a draw, a surface is not drawn again on a new request alone: the compositor must
/// release its buffer first.
pub proof fn law_drawn_surface_waits_for_release(s: SurfaceState)
    requires
        settled(s).1 == DrawAction::Draw,
    ensures
        settled(SurfaceState { draw_is_requested: true, ..settled(s).0 }).1 == DrawAction::Nothing,
        !settled(s).0.is_dirty,
{
}

/// The left, right and middle buttons fire the click triggers of the same names; every other
/// code is unknown and given back.
pub proof fn law_button_triggers(code: u32)
    ensures
        trigger_of_button(button_of_code(0x110)) == Ok::<EventTrigger, u32>(EventTrigger::OnLeftClick),
        trigger_of_button(button_of_code(0x111)) == Ok::<EventTrigger, u32>(EventTrigger::OnRightClick),
        trigger_of_button(button_of_code(0x112)) == Ok::<EventTrigger, u32>(EventTrigger::OnMiddleClick),
        code != 0x110 && code != 0x111 && code != 0x112 ==> trigger_of_button(button_of_code(code))
            == Err::<EventTrigger, u32>(code),
{
}

/// A destroyed surface is never scheduled for destruction again.
pub proof fn law_destroyed_surface_stays_unscheduled(s: SurfaceState, id: SurfaceId)
    requires
        s.destroyed,
        !s.destruction_scheduled,
    ensures
        !marked(s, id).destruction_scheduled,
        marked(s, id).destroyed,
{
}

} // verus!

verus! {

/// The data of protocol objects that need none.
#[derive(Clone, Copy, Debug)]
pub struct UserData;

/// The data of the display's synchronisation callback.
#[derive(Clone, Copy, Debug)]
pub struct DisplayUserData;

/// The data of an output.
#[derive(Clone, Copy, Debug)]
pub struct WlOutputUserData;

/// The data of a surface.
#[derive(Clone, Copy, Debug)]
pub struct WlSurfaceUserData;

/// The data of a buffer: the surface it belongs to, if any.
#[derive(Clone, Copy, Debug)]
pub struct BufferUserData {
    pub parent_id: Option<SurfaceId>,
}

/// The data of a layer surface: the surface it belongs to.
#[derive(Clone, Copy, Debug)]
pub struct WlrUserData {
    pub parent_id: SurfaceId,
}

} // verus!
