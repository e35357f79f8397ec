use vstd::prelude::*;

use crate::table::{lookup, Table};
use crate::text::{chars_of, is_word, split_chars, split_on, views};

verus! {

/// Spacing, in pixels, kept around a notification surface on each side.
#[derive(Clone, Copy, Debug, PartialEq, Eq, Structural)]
pub struct Margin {
    pub top: i32,
    pub right: i32,
    pub bottom: i32,
    pub left: i32,
}

impl Default for Margin {
    fn default() -> (ret: Margin)
        ensures
            ret == (Margin { top: 0, right: 0, bottom: 0, left: 0 }),
    {
        Margin { top: 0, right: 0, bottom: 0, left: 0 }
    }
}

impl Margin {
    /// The same margins with the top side replaced.
    pub fn with_top(&self, top: i32) -> (ret: Margin)
        ensures
            ret == (Margin { top, ..*self }),
    {
        Margin { top, ..*self }
    }

    /// The same margins with the right side replaced.
    pub fn with_right(&self, right: i32) -> (ret: Margin)
        ensures
            ret == (Margin { right, ..*self }),
    {
        Margin { right, ..*self }
    }

    /// The same margins with the bottom side replaced.
    pub fn with_bottom(&self, bottom: i32) -> (ret: Margin)
        ensures
            ret == (Margin { bottom, ..*self }),
    {
        Margin { bottom, ..*self }
    }

    /// The same margins with the left side replaced.
    pub fn with_left(&self, left: i32) -> (ret: Margin)
        ensures
            ret == (Margin { left, ..*self }),
    {
        Margin { left, ..*self }
    }
}

/// The direction in which notifications stack when several are shown on one output.
#[derive(Clone, Copy, Debug, PartialEq, Eq, Structural)]
pub enum GrowthDirection {
    Up,
    Right,
    Down,
    Left,
}

impl Default for GrowthDirection {
    fn default() -> (ret: GrowthDirection)
        ensures
            ret == GrowthDirection::Up,
    {
        GrowthDirection::Up
    }
}

/// A colour packed as `0xAARRGGBB`.
#[derive(Clone, Copy, Debug, PartialEq, Eq, Structural)]
pub struct Color(pub u32);

impl Color {
    /// The colour with the given red, green, blue and alpha channels.
    pub fn rgba(r: u8, g: u8, b: u8, a: u8) -> (ret: Color)
        ensures
            ret.0 as int == a as int * 0x1000000 + r as int * 0x10000 + g as int * 0x100 + b as int,
    {
        Color((a as u32) * 0x1000000 + (r as u32) * 0x10000 + (g as u32) * 0x100 + (b as u32))
    }

    /// The alpha channel.
    pub fn a(&self) -> (ret: u8)
        ensures
            ret as int == self.0 as int / 0x1000000,
    {
        (self.0 / 0x1000000) as u8
    }

    /// The red channel.
    pub fn r(&self) -> (ret: u8)
        ensures
            ret as int == (self.0 as int / 0x10000) % 0x100,
    {
        ((self.0 / 0x10000) % 0x100) as u8
    }

    /// The green channel.
    pub fn g(&self) -> (ret: u8)
        ensures
            ret as int == (self.0 as int / 0x100) % 0x100,
    {
        ((self.0 / 0x100) % 0x100) as u8
    }

    /// The blue channel.
    pub fn b(&self) -> (ret: u8)
        ensures
            ret as int == self.0 as int % 0x100,
    {
        (self.0 % 0x100) as u8
    }
}

/// The layer-shell layer on which notification surfaces are placed.
#[derive(Clone, Copy, Debug, PartialEq, Eq, Structural)]
pub enum Layer {
    Background,
    Bottom,
    Top,
    Overlay,
}

pub open spec fn word_background() -> Seq<char> {
    seq!['B', 'a', 'c', 'k', 'g', 'r', 'o', 'u', 'n', 'd']
}

pub open spec fn word_bottom() -> Seq<char> {
    seq!['B', 'o', 't', 't', 'o', 'm']
}

pub open spec fn word_top() -> Seq<char> {
    seq!['T', 'o', 'p']
}

pub open spec fn word_overlay() -> Seq<char> {
    seq!['O', 'v', 'e', 'r', 'l', 'a', 'y']
}

pub open spec fn word_left() -> Seq<char> {
    seq!['L', 'e', 'f', 't']
}

pub open spec fn word_right() -> Seq<char> {
    seq!['R', 'i', 'g', 'h', 't']
}

/// The layer that a configuration value names, if it names one.
pub open spec fn layer_named(name: Seq<char>) -> Option<Layer> {
    if name == word_background() {
        Some(Layer::Background)
    } else if name == word_bottom() {
        Some(Layer::Bottom)
    } else if name == word_top() {
        Some(Layer::Top)
    } else if name == word_overlay() {
        Some(Layer::Overlay)
    } else {
        None
    }
}

impl Layer {
    /// The layer named by a configuration value (`Background`, `Bottom`, `Top` or `Overlay`);
    /// `None` for any other value.
    pub fn from_name(name: &str) -> (ret: Option<Layer>)
        ensures
            ret == layer_named(name@),
    {
        let v = chars_of(name);
        if is_word(&v, &['B', 'a', 'c', 'k', 'g', 'r', 'o', 'u', 'n', 'd']) {
            Some(Layer::Background)
        } else if is_word(&v, &['B', 'o', 't', 't', 'o', 'm']) {
            Some(Layer::Bottom)
        } else if is_word(&v, &['T', 'o', 'p']) {
            Some(Layer::Top)
        } else if is_word(&v, &['O', 'v', 'e', 'r', 'l', 'a', 'y']) {
            Some(Layer::Overlay)
        } else {
            None
        }
    }
}

/// A set of output edges to which a surface is anchored, as the layer-shell protocol's
/// bit flags: top 1, bottom 2, left 4, right 8.
#[derive(Clone, Copy, Debug, PartialEq, Eq, Structural)]
pub struct Anchor {
    pub bits: u32,
}

/// The anchor flag bits that `name` names: the protocol's flag names `Top`, `Bottom`, `Left`
/// and `Right`.
pub open spec fn anchor_flag_named(name: Seq<char>) -> Option<u32> {
    if name == word_top() {
        Some(1u32)
    } else if name == word_bottom() {
        Some(2u32)
    } else if name == word_left() {
        Some(4u32)
    } else if name == word_right() {
        Some(8u32)
    } else {
        None
    }
}

/// Whether `c` has the Unicode `White_Space` property, which `str::trim` removes.
pub open spec fn is_white_space(c: char) -> bool {
    ||| '\t' <= c && c <= '\r'
    ||| c == ' '
    ||| c == '\u{85}'
    ||| c == '\u{A0}'
    ||| c == '\u{1680}'
    ||| '\u{2000}' <= c && c <= '\u{200A}'
    ||| c == '\u{2028}'
    ||| c == '\u{2029}'
    ||| c == '\u{202F}'
    ||| c == '\u{205F}'
    ||| c == '\u{3000}'
}

/// `s` without its leading white space.
pub open spec fn trim_start(s: Seq<char>) -> Seq<char>
    decreases s.len(),
{
    if s.len() > 0 && is_white_space(s[0]) {
        trim_start(s.drop_first())
    } else {
        s
    }
}

/// `s` without its trailing white space.
pub open spec fn trim_end(s: Seq<char>) -> Seq<char>
    decreases s.len(),
{
    if s.len() > 0 && is_white_space(s.last()) {
        trim_end(s.drop_last())
    } else {
        s
    }
}

/// `s` without leading and trailing white space, as `str::trim` gives it.
pub open spec fn trimmed(s: Seq<char>) -> Seq<char> {
    trim_end(trim_start(s))
}

fn is_white_space_char(c: char) -> (ret: bool)
    ensures
        ret == is_white_space(c),
{
    ('\t' <= c && c <= '\r') || c == ' ' || c == '\u{85}' || c == '\u{A0}' || c == '\u{1680}' || (
    '\u{2000}' <= c && c <= '\u{200A}') || c == '\u{2028}' || c == '\u{2029}' || c == '\u{202F}'
        || c == '\u{205F}' || c == '\u{3000}'
}

/// The characters of `s` without leading and trailing white space.
pub fn trim_chars(s: &[char]) -> (ret: Vec<char>)
    ensures
        ret@ == trimmed(s@),
{
    let mut start: usize = 0;
    assert(s@.skip(0) == s@);
    while start < s.len() && is_white_space_char(s[start])
        invariant
            start <= s@.len(),
            trim_start(s@) == trim_start(s@.skip(start as int)),
        decreases s@.len() - start,
    {
        assert(s@.skip(start as int).drop_first() == s@.skip(start + 1));
        start = start + 1;
    }
    let ghost t = s@.skip(start as int);
    assert(trim_start(s@) == t);
    let mut end: usize = s.len();
    while end > start && is_white_space_char(s[end - 1])
        invariant
            start <= end <= s@.len(),
            t == s@.skip(start as int),
            trim_end(t) == trim_end(s@.subrange(start as int, end as int)),
        decreases end,
    {
        assert(s@.subrange(start as int, end as int).drop_last() == s@.subrange(
            start as int,
            end - 1,
        ));
        end = end - 1;
    }
    let mut ret: Vec<char> = Vec::new();
    for i in start..end
        invariant
            start <= end <= s@.len(),
            ret@ == s@.subrange(start as int, i as int),
    {
        ret.push(s[i]);
        assert(s@.subrange(start as int, i + 1) == s@.subrange(start as int, i as int).push(s@[i as int]));
    }
    assert(s@.skip(start as int) == s@.subrange(start as int, s@.len() as int));
    assert(trim_end(t) == s@.subrange(start as int, end as int));
    ret
}

/// The anchor bits that a `|`-separated list of flag names gives, each name trimmed
/// first; a name that is no flag adds nothing.
pub open spec fn anchor_bits_of(pieces: Seq<Seq<char>>) -> u32
    decreases pieces.len(),
{
    if pieces.len() == 0 {
        0u32
    } else {
        anchor_bits_of(pieces.drop_last()) | match anchor_flag_named(trimmed(pieces.last())) {
            Some(b) => b,
            None => 0u32,
        }
    }
}

impl Anchor {
    /// The anchor without any edge.
    pub fn empty() -> (ret: Anchor)
        ensures
            ret.bits == 0,
    {
        Anchor { bits: 0 }
    }

    /// The single flag named `name` (`Top`, `Bottom`, `Left` or `Right`), if it names one.
    pub fn from_name(name: &[char]) -> (ret: Option<Anchor>)
        ensures
            match ret {
                Some(a) => anchor_flag_named(name@) == Some(a.bits),
                None => anchor_flag_named(name@) is None,
            },
    {
        if is_word(name, &['T', 'o', 'p']) {
            Some(Anchor { bits: 1 })
        } else if is_word(name, &['B', 'o', 't', 't', 'o', 'm']) {
            Some(Anchor { bits: 2 })
        } else if is_word(name, &['L', 'e', 'f', 't']) {
            Some(Anchor { bits: 4 })
        } else if is_word(name, &['R', 'i', 'g', 'h', 't']) {
            Some(Anchor { bits: 8 })
        } else {
            None
        }
    }

    /// The edges of both anchors.
    pub fn union(self, other: Anchor) -> (ret: Anchor)
        ensures
            ret.bits == self.bits | other.bits,
    {
        Anchor { bits: self.bits | other.bits }
    }
}

/// Reads an anchor from a configuration value such as `"Right | Bottom"`: the names between
/// the `|` characters, trimmed, are flag names, and the anchor holds every flag named; a
/// piece that names no flag is ignored.
pub fn parse_anchor(input: &str) -> (ret: Anchor)
    ensures
        ret.bits == anchor_bits_of(split_on(input@, seq!['|'])),
{
    let v = chars_of(input);
    let pieces = split_chars(&v, &['|']);
    assert(['|']@ == seq!['|']);
    let ghost all = split_on(input@, seq!['|']);
    let mut acc = Anchor::empty();
    for i in 0..pieces.len()
        invariant
            views(pieces@) == all,
            acc.bits == anchor_bits_of(all.take(i as int)),
    {
        let name = trim_chars(&pieces[i]);
        let flag = match Anchor::from_name(&name) {
            Some(a) => a,
            None => Anchor::empty(),
        };
        assert(all.take(i + 1).drop_last() == all.take(i as int));
        assert(all.take(i + 1).last() == pieces@[i as int]@);
        acc = acc.union(flag);
    }
    assert(all.take(pieces@.len() as int) == all);
    acc
}

} // verus!

verus! {

/// `Option::or`: the first value if there is one, else the second.
pub open spec fn or_else<T>(a: Option<T>, b: Option<T>) -> Option<T> {
    match a {
        Some(x) => Some(x),
        None => b,
    }
}

fn clone_text(s: &Option<String>) -> (ret: Option<String>)
    ensures
        ret == *s,
{
    match s {
        Some(t) => Some(t.clone()),
        None => None,
    }
}

fn or_text(a: &Option<String>, b: &Option<String>) -> (ret: Option<String>)
    ensures
        ret == or_else(*a, *b),
{
    match a {
        Some(t) => Some(t.clone()),
        None => clone_text(b),
    }
}

/// The lowercase mapping of every character of `s`, by the Unicode tables that
/// `str::to_lowercase` uses.
pub uninterp spec fn lowercase(s: Seq<char>) -> Seq<char>;

/// `str::to_lowercase`: the string with every character replaced by its lowercase mapping.
#[verifier::external_body]
fn to_lowercase(s: &str) -> (ret: String)
    ensures
        ret@ == lowercase(s@),
{
    s.to_lowercase()
}

/// Whether notifications are shown on an output.
#[derive(Clone, Copy, Debug, PartialEq, Eq, Structural)]
pub enum EnableOption {
    Enabled,
    WhenActive,
    Disabled,
}

impl Default for EnableOption {
    fn default() -> (ret: EnableOption)
        ensures
            ret == EnableOption::Disabled,
    {
        EnableOption::Disabled
    }
}

pub open spec fn word_enabled() -> Seq<char> {
    seq!['e', 'n', 'a', 'b', 'l', 'e', 'd']
}

pub open spec fn word_when_active() -> Seq<char> {
    seq!['w', 'h', 'e', 'n', '-', 'a', 'c', 't', 'i', 'v', 'e']
}

pub open spec fn word_disabled() -> Seq<char> {
    seq!['d', 'i', 's', 'a', 'b', 'l', 'e', 'd']
}

/// The option that an already lowercased configuration value names.
pub open spec fn enable_option_named(name: Seq<char>) -> Option<EnableOption> {
    if name == word_enabled() {
        Some(EnableOption::Enabled)
    } else if name == word_when_active() {
        Some(EnableOption::WhenActive)
    } else if name == word_disabled() {
        Some(EnableOption::Disabled)
    } else {
        None
    }
}

impl EnableOption {
    /// The option named by a lowercase value: `enabled`, `when-active` or `disabled`.
    pub fn from_lowercase_name(name: &str) -> (ret: Option<EnableOption>)
        ensures
            ret == enable_option_named(name@),
    {
        let v = chars_of(name);
        if is_word(&v, &['e', 'n', 'a', 'b', 'l', 'e', 'd']) {
            Some(EnableOption::Enabled)
        } else if is_word(&v, &['w', 'h', 'e', 'n', '-', 'a', 'c', 't', 'i', 'v', 'e']) {
            Some(EnableOption::WhenActive)
        } else if is_word(&v, &['d', 'i', 's', 'a', 'b', 'l', 'e', 'd']) {
            Some(EnableOption::Disabled)
        } else {
            None
        }
    }

    /// The option named by a configuration value, compared without regard to case;
    /// `None` where the value names no option.
    pub fn from_name(name: &str) -> (ret: Option<EnableOption>)
        ensures
            ret == enable_option_named(lowercase(name@)),
    {
        let lower = to_lowercase(name);
        EnableOption::from_lowercase_name(lower.as_str())
    }

    /// Whether notifications are shown at all (`Enabled` or `WhenActive`).
    pub fn is_enabled(self) -> (ret: bool)
        ensures
            ret == (self != EnableOption::Disabled),
    {
        match self {
            EnableOption::Enabled => true,
            EnableOption::WhenActive => true,
            EnableOption::Disabled => false,
        }
    }
}

impl From<bool> for EnableOption {
    fn from(value: bool) -> (ret: EnableOption) {
        if value {
            EnableOption::Enabled
        } else {
            EnableOption::Disabled
        }
    }
}

impl vstd::std_specs::convert::FromSpecImpl<bool> for EnableOption {
    open spec fn obeys_from_spec() -> bool {
        true
    }

    open spec fn from_spec(v: bool) -> EnableOption {
        if v {
            EnableOption::Enabled
        } else {
            EnableOption::Disabled
        }
    }
}

/// A pointer or notification event to which a response can be configured.
#[derive(Clone, Copy, Debug, PartialEq, Eq, Hash, Structural)]
pub enum EventTrigger {
    OnLeftClick,
    OnRightClick,
    OnMiddleClick,
    OnNotificationReceived,
    OnNotificationClosed,
}

/// What to do when an event is triggered on a notification.
#[derive(Debug, PartialEq, Eq)]
pub enum EventResponse {
    CloseNotification,
    ExecuteCommand(String),
    PlaySound(String),
    InvokeAction,
    Nothing,
}

impl Clone for EventResponse {
    fn clone(&self) -> (ret: EventResponse)
        ensures
            ret == *self,
    {
        match self {
            EventResponse::CloseNotification => EventResponse::CloseNotification,
            EventResponse::ExecuteCommand(c) => EventResponse::ExecuteCommand(c.clone()),
            EventResponse::PlaySound(c) => EventResponse::PlaySound(c.clone()),
            EventResponse::InvokeAction => EventResponse::InvokeAction,
            EventResponse::Nothing => EventResponse::Nothing,
        }
    }
}

impl Default for EventResponse {
    fn default() -> (ret: EventResponse)
        ensures
            ret == EventResponse::Nothing,
    {
        EventResponse::Nothing
    }
}

/// The response configured for `trigger`: that of the first entry for it, if any.
pub open spec fn response_lookup(entries: Seq<(EventTrigger, EventResponse)>, trigger: EventTrigger) -> Option<EventResponse>
    decreases entries.len(),
{
    if entries.len() == 0 {
        None
    } else if entries[0].0 == trigger {
        Some(entries[0].1)
    } else {
        response_lookup(entries.drop_first(), trigger)
    }
}

/// The responses configured for event triggers.
#[derive(Debug)]
pub struct EventHandler {
    pub entries: Vec<(EventTrigger, EventResponse)>,
}

proof fn lemma_response_lookup_index(entries: Seq<(EventTrigger, EventResponse)>, trigger: EventTrigger, i: int)
    requires
        0 <= i < entries.len(),
        entries[i].0 == trigger,
        forall|j: int| 0 <= j < i ==> entries[j].0 != trigger,
    ensures
        response_lookup(entries, trigger) == Some(entries[i].1),
    decreases entries.len(),
{
    if i > 0 {
        lemma_response_lookup_index(entries.drop_first(), trigger, i - 1);
    }
}

proof fn lemma_response_lookup_absent(entries: Seq<(EventTrigger, EventResponse)>, trigger: EventTrigger)
    requires
        forall|j: int| 0 <= j < entries.len() ==> entries[j].0 != trigger,
    ensures
        response_lookup(entries, trigger) is None,
    decreases entries.len(),
{
    if entries.len() > 0 {
        lemma_response_lookup_absent(entries.drop_first(), trigger);
    }
}

proof fn lemma_response_lookup_push(entries: Seq<(EventTrigger, EventResponse)>, e: (EventTrigger, EventResponse), trigger: EventTrigger)
    requires
        forall|j: int| 0 <= j < entries.len() ==> entries[j].0 != e.0,
    ensures
        response_lookup(entries.push(e), trigger) == if trigger == e.0 {
            Some(e.1)
        } else {
            response_lookup(entries, trigger)
        },
    decreases entries.len(),
{
    if entries.len() > 0 {
        assert(entries.push(e)[0] == entries[0]);
        assert(entries.push(e).drop_first() =~= entries.drop_first().push(e));
        lemma_response_lookup_push(entries.drop_first(), e, trigger);
    } else {
        assert(entries.push(e)[0] == e);
        assert(entries.push(e).drop_first() =~= Seq::<(EventTrigger, EventResponse)>::empty());
        assert(response_lookup(entries.push(e).drop_first(), trigger) is None);
    }
}

proof fn lemma_response_lookup_push_any(entries: Seq<(EventTrigger, EventResponse)>, e: (EventTrigger, EventResponse))
    ensures
        forall|t: EventTrigger| #[trigger] response_lookup(entries.push(e), t) == match response_lookup(entries, t) {
            Some(r) => Some(r),
            None => if t == e.0 {
                Some(e.1)
            } else {
                None
            },
        },
    decreases entries.len(),
{
    if entries.len() > 0 {
        assert(entries.push(e)[0] == entries[0]);
        assert(entries.push(e).drop_first() =~= entries.drop_first().push(e));
        lemma_response_lookup_push_any(entries.drop_first(), e);
        assert forall|t: EventTrigger| #[trigger] response_lookup(entries.push(e), t) == match response_lookup(entries, t) {
            Some(r) => Some(r),
            None => if t == e.0 {
                Some(e.1)
            } else {
                None
            },
        } by {
            assert(response_lookup(entries.push(e).drop_first(), t) == response_lookup(entries.drop_first().push(e), t));
        }
    } else {
        assert(entries.push(e)[0] == e);
        assert(entries.push(e).drop_first() =~= Seq::<(EventTrigger, EventResponse)>::empty());
        assert forall|t: EventTrigger| #[trigger] response_lookup(entries.push(e), t) == match response_lookup(entries, t) {
            Some(r) => Some(r),
            None => if t == e.0 {
                Some(e.1)
            } else {
                None
            },
        } by {
            assert(response_lookup(entries.push(e).drop_first(), t) is None);
        }
    }
}

impl EventHandler {
    /// A handler with no configured response.
    pub fn new() -> (ret: EventHandler)
        ensures
            ret.entries@.len() == 0,
    {
        EventHandler { entries: Vec::new() }
    }

    /// The response configured for `trigger`, if any.
    pub fn get(&self, trigger: &EventTrigger) -> (ret: Option<&EventResponse>)
        ensures
            match ret {
                Some(r) => response_lookup(self.entries@, *trigger) == Some(*r),
                None => response_lookup(self.entries@, *trigger) is None,
            },
    {
        for i in 0..self.entries.len()
            invariant
                forall|j: int| 0 <= j < i ==> self.entries@[j].0 != *trigger,
        {
            if self.entries[i].0 == *trigger {
                proof {
                    lemma_response_lookup_index(self.entries@, *trigger, i as int);
                }
                return Some(&self.entries[i].1);
            }
        }
        proof {
            lemma_response_lookup_absent(self.entries@, *trigger);
        }
        None
    }

    /// The response configured for `trigger`, or `Nothing` where none is.
    pub fn response_for(&self, trigger: &EventTrigger) -> (ret: EventResponse)
        ensures
            ret == match response_lookup(self.entries@, *trigger) {
                Some(r) => r,
                None => EventResponse::Nothing,
            },
    {
        match self.get(trigger) {
            Some(r) => r.clone(),
            None => EventResponse::Nothing,
        }
    }

    /// Configures `response` for `trigger`, in place of the response configured before.
    pub fn insert(&mut self, trigger: EventTrigger, response: EventResponse)
        ensures
            response_lookup(final(self).entries@, trigger) == Some(response),
            forall|t: EventTrigger|
                t != trigger ==> #[trigger] response_lookup(final(self).entries@, t)
                    == response_lookup(old(self).entries@, t),
    {
        let ghost old_entries = self.entries@;
        let mut kept: Vec<(EventTrigger, EventResponse)> = Vec::new();
        let mut entries: Vec<(EventTrigger, EventResponse)> = Vec::new();
        std::mem::swap(&mut entries, &mut self.entries);
        for i in 0..entries.len()
            invariant
                entries@ == old_entries,
                forall|j: int| 0 <= j < kept@.len() ==> kept@[j].0 != trigger,
                forall|t: EventTrigger|
                    t != trigger ==> #[trigger] response_lookup(kept@, t) == response_lookup(
                        old_entries.take(i as int),
                        t,
                    ),
        {
            let e = (entries[i].0, entries[i].1.clone());
            proof {
                assert(old_entries.take(i + 1) == old_entries.take(i as int).push(old_entries[i as int]));
            }
            proof {
                lemma_response_lookup_push_any(old_entries.take(i as int), old_entries[i as int]);
            }
            if e.0 != trigger {
                let ghost before = kept@;
                kept.push(e);
                proof {
                    lemma_response_lookup_push_any(before, e);
                }
            }
        }
        assert(old_entries.take(old_entries.len() as int) == old_entries);
        let ghost before = kept@;
        kept.push((trigger, response));
        proof {
            lemma_response_lookup_push(before, (trigger, response), trigger);
            assert forall|t: EventTrigger| t != trigger implies #[trigger] response_lookup(kept@, t)
                == response_lookup(old_entries, t) by {
                lemma_response_lookup_push(before, (trigger, response), t);
            }
        }
        self.entries = kept;
    }
}

} // verus!

verus! {

/// The settings that may differ by notification urgency.
///
/// `font_size` holds the IEEE-754 single-precision bit pattern of a size in pixels.
#[derive(Debug)]
pub struct UrgencyConfiguration {
    pub message_layout: Option<String>,
    pub font_size: Option<u32>,
    pub font_family: Option<String>,
    pub text_color: Option<Color>,
    pub background_color: Option<Color>,
    pub icon_theme: Option<String>,
    pub border_color: Option<Color>,
    pub border_size: Option<usize>,
    pub border_radius: Option<usize>,
    pub layer: Option<Layer>,
}

/// The bits of the single-precision number 14.0, the default font size.
pub open spec fn default_font_size_bits() -> u32 {
    0x4160_0000u32
}

/// The built-in urgency settings.
pub open spec fn is_default_urgency(u: UrgencyConfiguration) -> bool {
    &&& u.message_layout matches Some(l) && l@ == seq![
        '<', 's', 'u', 'm', 'm', 'a', 'r', 'y', '>', ' ', 'f', 'r', 'o', 'm', ' ', '<', 'a', 'p',
        'p', '_', 'n', 'a', 'm', 'e', '>', '\n', '<', 'b', 'o', 'd', 'y', '>',
    ]
    &&& u.font_family is None
    &&& u.font_size == Some(default_font_size_bits())
    &&& u.text_color == Some(Color(0xFFFF_FFFF))
    &&& u.background_color == Some(Color(0xFF00_0000))
    &&& u.icon_theme matches Some(t) && t@ == seq!['A', 'd', 'w', 'a', 'i', 't', 'a']
    &&& u.border_color == Some(Color(0xFF00_0000))
    &&& u.border_size == Some(0usize)
    &&& u.border_radius == Some(4usize)
    &&& u.layer == Some(Layer::Top)
}

impl UrgencyConfiguration {
    /// These settings with every missing one taken from `other`.
    pub open spec fn completed(self, other: UrgencyConfiguration) -> UrgencyConfiguration {
        UrgencyConfiguration {
            message_layout: or_else(self.message_layout, other.message_layout),
            font_size: or_else(self.font_size, other.font_size),
            font_family: or_else(self.font_family, other.font_family),
            text_color: or_else(self.text_color, other.text_color),
            background_color: or_else(self.background_color, other.background_color),
            icon_theme: or_else(self.icon_theme, other.icon_theme),
            border_color: or_else(self.border_color, other.border_color),
            border_size: or_else(self.border_size, other.border_size),
            border_radius: or_else(self.border_radius, other.border_radius),
            layer: or_else(self.layer, other.layer),
        }
    }

    /// Whether every setting but the optional font family is given.
    pub open spec fn is_complete(self) -> bool {
        &&& self.message_layout is Some
        &&& self.font_size is Some
        &&& self.text_color is Some
        &&& self.background_color is Some
        &&& self.icon_theme is Some
        &&& self.border_color is Some
        &&& self.border_size is Some
        &&& self.border_radius is Some
        &&& self.layer is Some
    }

    /// An exact copy of these settings.
    pub fn duplicate(&self) -> (ret: UrgencyConfiguration)
        ensures
            ret == *self,
    {
        UrgencyConfiguration {
            message_layout: clone_text(&self.message_layout),
            font_size: self.font_size,
            font_family: clone_text(&self.font_family),
            text_color: self.text_color,
            background_color: self.background_color,
            icon_theme: clone_text(&self.icon_theme),
            border_color: self.border_color,
            border_size: self.border_size,
            border_radius: self.border_radius,
            layer: self.layer,
        }
    }

    /// Fills every setting that is missing here with the one of `other`.
    pub fn complete_missing(&mut self, other: &UrgencyConfiguration)
        ensures
            *final(self) == old(self).completed(*other),
    {
        self.message_layout = or_text(&self.message_layout, &other.message_layout);
        self.font_family = or_text(&self.font_family, &other.font_family);
        if self.font_size.is_none() {
            self.font_size = other.font_size;
        }
        if self.text_color.is_none() {
            self.text_color = other.text_color;
        }
        if self.background_color.is_none() {
            self.background_color = other.background_color;
        }
        self.icon_theme = or_text(&self.icon_theme, &other.icon_theme);
        if self.border_color.is_none() {
            self.border_color = other.border_color;
        }
        if self.border_size.is_none() {
            self.border_size = other.border_size;
        }
        if self.border_radius.is_none() {
            self.border_radius = other.border_radius;
        }
        if self.layer.is_none() {
            self.layer = other.layer;
        }
    }
}

impl Default for UrgencyConfiguration {
    fn default() -> (ret: UrgencyConfiguration)
        ensures
            is_default_urgency(ret),
    {
        let layout = "<summary> from <app_name>\n<body>".to_owned();
        let theme = "Adwaita".to_owned();
        proof {
            reveal_strlit("<summary> from <app_name>\n<body>");
            reveal_strlit("Adwaita");
            assert(layout@ =~= seq![
                '<', 's', 'u', 'm', 'm', 'a', 'r', 'y', '>', ' ', 'f', 'r', 'o', 'm', ' ', '<', 'a', 'p',
                'p', '_', 'n', 'a', 'm', 'e', '>', '\n', '<', 'b', 'o', 'd', 'y', '>',
            ]);
            assert(theme@ =~= seq!['A', 'd', 'w', 'a', 'i', 't', 'a']);
        }
        UrgencyConfiguration {
            message_layout: Some(layout),
            font_family: None,
            font_size: Some(0x4160_0000),
            text_color: Some(Color::rgba(0xFF, 0xFF, 0xFF, 0xFF)),
            background_color: Some(Color::rgba(0x00, 0x00, 0x00, 0xFF)),
            icon_theme: Some(theme),
            border_color: Some(Color::rgba(0x00, 0x00, 0x00, 0xFF)),
            border_size: Some(0),
            border_radius: Some(4),
            layer: Some(Layer::Top),
        }
    }
}

/// The urgency settings `u` completed from `other`, where there is such an entry.
pub open spec fn urgency_after(u: UrgencyConfiguration, other: Option<UrgencyConfiguration>) -> UrgencyConfiguration {
    match other {
        Some(o) => u.completed(o),
        None => u,
    }
}

/// The settings of one output (or the global ones, which apply to every output).
#[derive(Debug)]
pub struct OutputConfiguration {
    pub enabled: Option<EnableOption>,
    pub width: Option<i32>,
    pub height: Option<i32>,
    pub anchor: Option<Anchor>,
    pub direction: Option<GrowthDirection>,
    pub margins: Option<Margin>,
    pub default_urgency: UrgencyConfiguration,
    pub urgencies: Table<UrgencyConfiguration>,
}

/// The built-in output settings.
pub open spec fn is_default_output(o: OutputConfiguration) -> bool {
    &&& o.enabled is None
    &&& o.width == Some(260i32)
    &&& o.height == Some(125i32)
    &&& o.anchor == Some(Anchor { bits: 10 })
    &&& o.direction == Some(GrowthDirection::Up)
    &&& o.margins == Some(Margin { top: 0, right: 0, bottom: 0, left: 0 })
    &&& is_default_urgency(o.default_urgency)
    &&& o.urgencies.entries@.len() == 0
}

/// Whether the plain settings of `new` are those of `old` completed from `other`.
pub open spec fn output_settings_completed(
    new: OutputConfiguration,
    old: OutputConfiguration,
    other: OutputConfiguration,
) -> bool {
    &&& new.enabled == or_else(old.enabled, other.enabled)
    &&& new.width == or_else(old.width, other.width)
    &&& new.height == or_else(old.height, other.height)
    &&& new.anchor == or_else(old.anchor, other.anchor)
    &&& new.direction == or_else(old.direction, other.direction)
    &&& new.margins == or_else(old.margins, other.margins)
    &&& new.default_urgency == old.default_urgency.completed(other.default_urgency)
}

/// Whether the entries `new` are `old` with each completed from the entry of the same
/// name in `other`, where there is one.
pub open spec fn urgencies_completed(
    new: Seq<(String, UrgencyConfiguration)>,
    old: Seq<(String, UrgencyConfiguration)>,
    other: Seq<(String, UrgencyConfiguration)>,
) -> bool {
    &&& new.len() == old.len()
    &&& forall|i: int|
        0 <= i < new.len() ==> (#[trigger] new[i]).0 == old[i].0 && new[i].1 == urgency_after(
            old[i].1,
            lookup(other, old[i].0@),
        )
}

/// Whether the entries `new` are `old` with each completed from `base`.
pub open spec fn urgencies_completed_from(
    new: Seq<(String, UrgencyConfiguration)>,
    old: Seq<(String, UrgencyConfiguration)>,
    base: UrgencyConfiguration,
) -> bool {
    &&& new.len() == old.len()
    &&& forall|i: int|
        0 <= i < new.len() ==> (#[trigger] new[i]).0 == old[i].0 && new[i].1 == old[i].1.completed(
            base,
        )
}

impl Table<UrgencyConfiguration> {
    /// Completes every entry from the entry of the same name in `other`, where there is one.
    pub fn complete_each_from(&mut self, other: &Table<UrgencyConfiguration>)
        requires
            old(self).wf(),
            other.wf(),
        ensures
            final(self).wf(),
            urgencies_completed(final(self).entries@, old(self).entries@, other.entries@),
    {
        let ghost old_entries = self.entries@;
        let n = self.entries.len();
        for i in 0..n
            invariant
                n == old_entries.len(),
                other.wf(),
                self.entries@.len() == n,
                crate::table::names_distinct(old_entries),
                forall|j: int| #![trigger self.entries@[j]] 0 <= j < n ==> self.entries@[j].0 == old_entries[j].0,
                forall|j: int|
                    #![trigger self.entries@[j]]
                    0 <= j < i ==> self.entries@[j].1 == urgency_after(
                        old_entries[j].1,
                        lookup(other.entries@, old_entries[j].0@),
                    ),
                forall|j: int| #![trigger self.entries@[j]] i <= j < n ==> self.entries@[j].1 == old_entries[j].1,
        {
            let name = self.entries[i].0.clone();
            let mut value = self.entries[i].1.duplicate();
            match other.get(name.as_str()) {
                Some(o) => value.complete_missing(o),
                None => {},
            }
            self.entries.set(i, (name, value));
        }
        assert(self.wf()) by {
            assert forall|a: int, b: int| 0 <= a < b < self.entries@.len() implies self.entries@[a].0@ != self.entries@[b].0@ by {
                assert(self.entries@[a].0 == old_entries[a].0);
                assert(self.entries@[b].0 == old_entries[b].0);
            }
        }
    }

    /// Completes every entry from `base`.
    pub fn complete_each_with(&mut self, base: &UrgencyConfiguration)
        requires
            old(self).wf(),
        ensures
            final(self).wf(),
            urgencies_completed_from(final(self).entries@, old(self).entries@, *base),
    {
        let ghost old_entries = self.entries@;
        let n = self.entries.len();
        for i in 0..n
            invariant
                n == old_entries.len(),
                self.entries@.len() == n,
                crate::table::names_distinct(old_entries),
                forall|j: int| #![trigger self.entries@[j]] 0 <= j < n ==> self.entries@[j].0 == old_entries[j].0,
                forall|j: int|
                    #![trigger self.entries@[j]]
                    0 <= j < i ==> self.entries@[j].1 == old_entries[j].1.completed(*base),
                forall|j: int| #![trigger self.entries@[j]] i <= j < n ==> self.entries@[j].1 == old_entries[j].1,
        {
            let name = self.entries[i].0.clone();
            let mut value = self.entries[i].1.duplicate();
            value.complete_missing(base);
            self.entries.set(i, (name, value));
        }
        assert(self.wf()) by {
            assert forall|a: int, b: int| 0 <= a < b < self.entries@.len() implies self.entries@[a].0@ != self.entries@[b].0@ by {
                assert(self.entries@[a].0 == old_entries[a].0);
                assert(self.entries@[b].0 == old_entries[b].0);
            }
        }
    }
}

impl OutputConfiguration {
    /// Fills every setting that is missing here with the one of `other`; the settings of
    /// each urgency that both name are completed from those of `other` too.
    pub fn complete_missing(&mut self, other: &OutputConfiguration)
        requires
            old(self).urgencies.wf(),
            other.urgencies.wf(),
        ensures
            final(self).urgencies.wf(),
            output_settings_completed(*final(self), *old(self), *other),
            urgencies_completed(
                final(self).urgencies.entries@,
                old(self).urgencies.entries@,
                other.urgencies.entries@,
            ),
    {
        if self.enabled.is_none() {
            self.enabled = other.enabled;
        }
        if self.width.is_none() {
            self.width = other.width;
        }
        if self.height.is_none() {
            self.height = other.height;
        }
        if self.anchor.is_none() {
            self.anchor = other.anchor;
        }
        if self.direction.is_none() {
            self.direction = other.direction;
        }
        if self.margins.is_none() {
            self.margins = other.margins;
        }
        self.default_urgency.complete_missing(&other.default_urgency);
        self.urgencies.complete_each_from(&other.urgencies);
    }

    /// The settings for notifications of the given urgency: those configured for it, or the
    /// default urgency settings where it has none.
    pub fn get_by_urgency(&self, urgency: &str) -> (ret: &UrgencyConfiguration)
        requires
            self.urgencies.wf(),
        ensures
            *ret == match self.urgencies.spec_get(urgency@) {
                Some(u) => u,
                None => self.default_urgency,
            },
    {
        match self.urgencies.get(urgency) {
            Some(u) => u,
            None => &self.default_urgency,
        }
    }
}

impl Default for OutputConfiguration {
    fn default() -> (ret: OutputConfiguration)
        ensures
            is_default_output(ret),
            ret.urgencies.wf(),
    {
        assert((2u32 | 8u32) == 10u32) by (bit_vector);
        OutputConfiguration {
            enabled: None,
            width: Some(260),
            height: Some(125),
            anchor: Some(Anchor { bits: 2 }.union(Anchor { bits: 8 })),
            direction: Some(GrowthDirection::default()),
            margins: Some(Margin::default()),
            default_urgency: UrgencyConfiguration::default(),
            urgencies: Table::new(),
        }
    }
}

} // verus!

verus! {

/// The sound played for a notification that names none.
pub fn default_sound() -> (ret: String)
    ensures
        ret@ == "/usr/share/sounds/freedesktop/stereo/message-new-instant.oga"@,
{
    "/usr/share/sounds/freedesktop/stereo/message-new-instant.oga".to_owned()
}

/// Whether notifications are kept while the user is idle, where the configuration does not say.
pub fn default_true() -> (ret: bool)
    ensures
        ret,
{
    true
}

/// The idle time, in milliseconds, where the configuration does not give one.
pub fn default_idle_time() -> (ret: u32)
    ensures
        ret == 30_000,
{
    30_000
}

/// The whole configuration: global output settings, event responses and per-output settings.
#[derive(Debug)]
pub struct Configuration {
    pub default_output_config: OutputConfiguration,
    pub default_sound: String,
    pub persist_when_idle: bool,
    pub idle_time: u32,
    pub events: EventHandler,
    pub outputs: Table<OutputConfiguration>,
}

/// Whether every settings table of the configuration keeps its names distinct.
pub open spec fn configuration_wf(c: Configuration) -> bool {
    &&& c.default_output_config.urgencies.wf()
    &&& c.outputs.wf()
    &&& forall|i: int|
        0 <= i < c.outputs.entries@.len() ==> (#[trigger] c.outputs.entries@[i]).1.urgencies.wf()
}

/// Whether the urgency entries `new` are `old`, each completed first from the entry of the
/// same name in `other` (where there is one) and then from `base`.
pub open spec fn urgencies_settled(
    new: Seq<(String, UrgencyConfiguration)>,
    old: Seq<(String, UrgencyConfiguration)>,
    other: Seq<(String, UrgencyConfiguration)>,
    base: UrgencyConfiguration,
) -> bool {
    &&& new.len() == old.len()
    &&& forall|i: int|
        0 <= i < new.len() ==> (#[trigger] new[i]).0 == old[i].0 && new[i].1 == urgency_after(
            old[i].1,
            lookup(other, old[i].0@),
        ).completed(base)
}

/// Whether the configuration `new` is `old` with every missing setting filled in: the
/// global settings from the built-in ones `builtin`, the global urgencies from the global
/// default urgency, each output from the global settings, and each output's urgencies from
/// the global urgency of the same name and then from the output's own default urgency.
pub open spec fn populated_from(new: Configuration, old: Configuration, builtin: OutputConfiguration) -> bool {
    let g = new.default_output_config;
    let g0 = old.default_output_config;
    &&& configuration_wf(new)
    &&& output_settings_completed(g, g0, builtin)
    &&& urgencies_completed_from(g.urgencies.entries@, g0.urgencies.entries@, g.default_urgency)
    &&& new.outputs.entries@.len() == old.outputs.entries@.len()
    &&& forall|i: int|
        0 <= i < new.outputs.entries@.len() ==> {
            let o = (#[trigger] new.outputs.entries@[i]).1;
            let o0 = old.outputs.entries@[i].1;
            &&& new.outputs.entries@[i].0 == old.outputs.entries@[i].0
            &&& output_settings_completed(o, o0, g)
            &&& urgencies_settled(
                o.urgencies.entries@,
                o0.urgencies.entries@,
                g.urgencies.entries@,
                o.default_urgency,
            )
        }
    &&& new.default_sound == old.default_sound
    &&& new.persist_when_idle == old.persist_when_idle
    &&& new.idle_time == old.idle_time
    &&& new.events == old.events
}

impl Configuration {
    /// The settings that apply on the output named `output_name`: its own, or the global
    /// ones where it has none.
    pub fn get_output_configuration(&self, output_name: &str) -> (ret: &OutputConfiguration)
        requires
            self.outputs.wf(),
        ensures
            *ret == match self.outputs.spec_get(output_name@) {
                Some(o) => o,
                None => self.default_output_config,
            },
    {
        match self.outputs.get(output_name) {
            Some(o) => o,
            None => &self.default_output_config,
        }
    }

    /// A copy of the configured event responses.
    pub fn get_event_handler(&self) -> (ret: EventHandler)
        ensures
            ret.entries@ == self.events.entries@,
    {
        let mut entries: Vec<(EventTrigger, EventResponse)> = Vec::new();
        for i in 0..self.events.entries.len()
            invariant
                entries@ == self.events.entries@.take(i as int),
        {
            entries.push((self.events.entries[i].0, self.events.entries[i].1.clone()));
            assert(self.events.entries@.take(i + 1) == self.events.entries@.take(i as int).push(
                self.events.entries@[i as int],
            ));
        }
        assert(self.events.entries@.take(self.events.entries@.len() as int) == self.events.entries@);
        EventHandler { entries }
    }

    /// Fills in every missing setting: the global ones from the built-in settings, then the
    /// global urgencies from the global default urgency, then each output from the global
    /// settings and each output's urgencies from the global urgency of the same name and from
    /// the output's own default urgency.
    pub fn populate_outputs_with_default(&mut self)
        requires
            configuration_wf(*old(self)),
        ensures
            exists|builtin: OutputConfiguration|
                is_default_output(builtin) && populated_from(*final(self), *old(self), builtin),
    {
        let ghost old_self = *self;
        let builtin = OutputConfiguration::default();
        self.default_output_config.complete_missing(&builtin);
        let ghost mid = self.default_output_config.urgencies.entries@;
        proof {
            assert forall|i: int| 0 <= i < mid.len() implies mid[i] == old_self.default_output_config.urgencies.entries@[i] by {
                assert(lookup(builtin.urgencies.entries@, old_self.default_output_config.urgencies.entries@[i].0@) is None);
            }
            assert(mid =~= old_self.default_output_config.urgencies.entries@);
        }
        let base = self.default_output_config.default_urgency.duplicate();
        self.default_output_config.urgencies.complete_each_with(&base);
        let ghost g = self.default_output_config;

        let mut outputs: Vec<(String, OutputConfiguration)> = Vec::new();
        std::mem::swap(&mut outputs, &mut self.outputs.entries);
        let ghost old_outputs = outputs@;
        let n = outputs.len();
        let mut done: Vec<(String, OutputConfiguration)> = Vec::new();
        while outputs.len() > 0
            invariant
                g == self.default_output_config,
                g.urgencies.wf(),
                old_outputs == old_self.outputs.entries@,
                configuration_wf(old_self),
                done@.len() + outputs@.len() == n,
                n == old_outputs.len(),
                outputs@ == old_outputs.skip(done@.len() as int),
                forall|i: int|
                    0 <= i < done@.len() ==> {
                        let o = (#[trigger] done@[i]).1;
                        let o0 = old_outputs[i].1;
                        &&& done@[i].0 == old_outputs[i].0
                        &&& o.urgencies.wf()
                        &&& output_settings_completed(o, o0, g)
                        &&& urgencies_settled(
                            o.urgencies.entries@,
                            o0.urgencies.entries@,
                            g.urgencies.entries@,
                            o.default_urgency,
                        )
                    },
            decreases outputs@.len(),
        {
            let k = done.len();
            let (name, mut conf) = outputs.remove(0);
            assert(old_outputs[k as int] == (name, conf));
            assert(outputs@ =~= old_outputs.skip(k + 1));
            let ghost conf0 = conf;
            assert(conf.urgencies.wf()) by {
                assert(old_outputs[k as int] == old_self.outputs.entries@[k as int]);
            }
            conf.complete_missing(&self.default_output_config);
            let ghost conf1 = conf;
            let own = conf.default_urgency.duplicate();
            conf.urgencies.complete_each_with(&own);
            proof {
                assert forall|j: int| 0 <= j < conf.urgencies.entries@.len() implies (#[trigger] conf.urgencies.entries@[j]).0
                    == conf0.urgencies.entries@[j].0 && conf.urgencies.entries@[j].1 == urgency_after(
                    conf0.urgencies.entries@[j].1,
                    lookup(g.urgencies.entries@, conf0.urgencies.entries@[j].0@),
                ).completed(conf.default_urgency) by {
                    assert(conf1.urgencies.entries@[j].0 == conf0.urgencies.entries@[j].0);
                }
            }
            done.push((name, conf));
        }
        proof {
            assert forall|a: int, b: int| 0 <= a < b < done@.len() implies done@[a].0@ != done@[b].0@ by {
                assert(done@[a].0 == old_outputs[a].0);
                assert(done@[b].0 == old_outputs[b].0);
            }
        }
        self.outputs.entries = done;
        assert(populated_from(*self, old_self, builtin));
    }
}

} // verus!

verus! {

impl Default for Configuration {
    fn default() -> (ret: Configuration)
        ensures
            is_default_output(ret.default_output_config),
            ret.default_sound@.len() == 0,
            !ret.persist_when_idle,
            ret.idle_time == 0,
            ret.events.entries@.len() == 0,
            ret.outputs.entries@.len() == 0,
            configuration_wf(ret),
    {
        Configuration {
            default_output_config: OutputConfiguration::default(),
            default_sound: String::new(),
            persist_when_idle: false,
            idle_time: 0,
            events: EventHandler::new(),
            outputs: Table::new(),
        }
    }
}

/// Completing settings a second time from the same source changes nothing.
pub proof fn law_urgency_completion_idempotent(a: UrgencyConfiguration, b: UrgencyConfiguration)
    ensures
        a.completed(b).completed(b) == a.completed(b),
{
}

/// Completing settings keeps every setting that was given and takes every missing one from
/// the other side, so a setting is missing afterwards only where both sides miss it.
pub proof fn law_urgency_completion_keeps_given(a: UrgencyConfiguration, b: UrgencyConfiguration)
    ensures
        a.message_layout is Some ==> a.completed(b).message_layout == a.message_layout,
        a.message_layout is None ==> a.completed(b).message_layout == b.message_layout,
        a.font_size is Some ==> a.completed(b).font_size == a.font_size,
        a.font_size is None ==> a.completed(b).font_size == b.font_size,
        a.font_family is Some ==> a.completed(b).font_family == a.font_family,
        a.font_family is None ==> a.completed(b).font_family == b.font_family,
        a.text_color is Some ==> a.completed(b).text_color == a.text_color,
        a.text_color is None ==> a.completed(b).text_color == b.text_color,
        a.background_color is Some ==> a.completed(b).background_color == a.background_color,
        a.background_color is None ==> a.completed(b).background_color == b.background_color,
        a.icon_theme is Some ==> a.completed(b).icon_theme == a.icon_theme,
        a.icon_theme is None ==> a.completed(b).icon_theme == b.icon_theme,
        a.border_color is Some ==> a.completed(b).border_color == a.border_color,
        a.border_color is None ==> a.completed(b).border_color == b.border_color,
        a.border_size is Some ==> a.completed(b).border_size == a.border_size,
        a.border_size is None ==> a.completed(b).border_size == b.border_size,
        a.border_radius is Some ==> a.completed(b).border_radius == a.border_radius,
        a.border_radius is None ==> a.completed(b).border_radius == b.border_radius,
        a.layer is Some ==> a.completed(b).layer == a.layer,
        a.layer is None ==> a.completed(b).layer == b.layer,
        b.is_complete() ==> a.completed(b).is_complete(),
{
}

/// Completing an output's settings from another's keeps every setting the output gives,
/// its default urgency settings included, and takes every missing one from the other.
pub proof fn law_output_completion_keeps_given(
    new: OutputConfiguration,
    old: OutputConfiguration,
    other: OutputConfiguration,
)
    requires
        output_settings_completed(new, old, other),
    ensures
        old.enabled is Some ==> new.enabled == old.enabled,
        old.enabled is None ==> new.enabled == other.enabled,
        old.width is Some ==> new.width == old.width,
        old.width is None ==> new.width == other.width,
        old.height is Some ==> new.height == old.height,
        old.height is None ==> new.height == other.height,
        old.anchor is Some ==> new.anchor == old.anchor,
        old.anchor is None ==> new.anchor == other.anchor,
        old.direction is Some ==> new.direction == old.direction,
        old.direction is None ==> new.direction == other.direction,
        old.margins is Some ==> new.margins == old.margins,
        old.margins is None ==> new.margins == other.margins,
        old.default_urgency.message_layout is Some ==> new.default_urgency.message_layout == old.default_urgency.message_layout,
        old.default_urgency.message_layout is None ==> new.default_urgency.message_layout == other.default_urgency.message_layout,
        old.default_urgency.font_size is Some ==> new.default_urgency.font_size == old.default_urgency.font_size,
        old.default_urgency.font_size is None ==> new.default_urgency.font_size == other.default_urgency.font_size,
        old.default_urgency.font_family is Some ==> new.default_urgency.font_family == old.default_urgency.font_family,
        old.default_urgency.font_family is None ==> new.default_urgency.font_family == other.default_urgency.font_family,
        old.default_urgency.text_color is Some ==> new.default_urgency.text_color == old.default_urgency.text_color,
        old.default_urgency.text_color is None ==> new.default_urgency.text_color == other.default_urgency.text_color,
        old.default_urgency.background_color is Some ==> new.default_urgency.background_color == old.default_urgency.background_color,
        old.default_urgency.background_color is None ==> new.default_urgency.background_color == other.default_urgency.background_color,
        old.default_urgency.icon_theme is Some ==> new.default_urgency.icon_theme == old.default_urgency.icon_theme,
        old.default_urgency.icon_theme is None ==> new.default_urgency.icon_theme == other.default_urgency.icon_theme,
        old.default_urgency.border_color is Some ==> new.default_urgency.border_color == old.default_urgency.border_color,
        old.default_urgency.border_color is None ==> new.default_urgency.border_color == other.default_urgency.border_color,
        old.default_urgency.border_size is Some ==> new.default_urgency.border_size == old.default_urgency.border_size,
        old.default_urgency.border_size is None ==> new.default_urgency.border_size == other.default_urgency.border_size,
        old.default_urgency.border_radius is Some ==> new.default_urgency.border_radius == old.default_urgency.border_radius,
        old.default_urgency.border_radius is None ==> new.default_urgency.border_radius == other.default_urgency.border_radius,
        old.default_urgency.layer is Some ==> new.default_urgency.layer == old.default_urgency.layer,
        old.default_urgency.layer is None ==> new.default_urgency.layer == other.default_urgency.layer,
{
}

/// Every flag converts to an option that is enabled exactly when the flag is set.
pub proof fn law_enable_option_from_bool(b: bool)
    ensures
        (<EnableOption as vstd::std_specs::convert::FromSpec<bool>>::from_spec(b) != EnableOption::Disabled) == b,
{
}

/// After the missing settings are filled in, every output (the global settings and each named
/// output) has a size, an anchor, a stacking direction and margins, and every urgency setting
/// of every output is complete but for the optional font family.
pub proof fn law_populated_configuration_is_complete(
    new: Configuration,
    old: Configuration,
    builtin: OutputConfiguration,
)
    requires
        is_default_output(builtin),
        populated_from(new, old, builtin),
    ensures
        new.default_output_config.width is Some,
        new.default_output_config.height is Some,
        new.default_output_config.anchor is Some,
        new.default_output_config.direction is Some,
        new.default_output_config.margins is Some,
        new.default_output_config.default_urgency.is_complete(),
        forall|i: int|
            0 <= i < new.default_output_config.urgencies.entries@.len()
                ==> (#[trigger] new.default_output_config.urgencies.entries@[i]).1.is_complete(),
        forall|i: int|
            0 <= i < new.outputs.entries@.len() ==> {
                let o = (#[trigger] new.outputs.entries@[i]).1;
                &&& o.width is Some
                &&& o.height is Some
                &&& o.anchor is Some
                &&& o.direction is Some
                &&& o.margins is Some
                &&& o.default_urgency.is_complete()
                &&& forall|j: int|
                    0 <= j < o.urgencies.entries@.len()
                        ==> (#[trigger] o.urgencies.entries@[j]).1.is_complete()
            },
{
    let g = new.default_output_config;
    assert forall|i: int| 0 <= i < g.urgencies.entries@.len() implies (#[trigger] g.urgencies.entries@[i]).1.is_complete() by {
        assert(g.urgencies.entries@[i].1 == old.default_output_config.urgencies.entries@[i].1.completed(g.default_urgency));
    }
    assert forall|i: int| 0 <= i < new.outputs.entries@.len() implies {
        let o = (#[trigger] new.outputs.entries@[i]).1;
        &&& o.width is Some
        &&& o.height is Some
        &&& o.anchor is Some
        &&& o.direction is Some
        &&& o.margins is Some
        &&& o.default_urgency.is_complete()
        &&& forall|j: int|
            0 <= j < o.urgencies.entries@.len()
                ==> (#[trigger] o.urgencies.entries@[j]).1.is_complete()
    } by {
        let o = new.outputs.entries@[i].1;
        let o0 = old.outputs.entries@[i].1;
        assert forall|j: int| 0 <= j < o.urgencies.entries@.len() implies (#[trigger] o.urgencies.entries@[j]).1.is_complete() by {
            assert(o.urgencies.entries@[j].1 == urgency_after(
                o0.urgencies.entries@[j].1,
                lookup(g.urgencies.entries@, o0.urgencies.entries@[j].0@),
            ).completed(o.default_urgency));
        }
    }
}

/// Filling in the missing settings keeps every urgency setting that was given: the global
/// default urgency settings fall back on the built-in ones, the global settings of each named
/// urgency and the default urgency settings of each named output on the global default
/// urgency settings; a given setting is never replaced.
pub proof fn law_population_keeps_given_urgency_settings(
    new: Configuration,
    old: Configuration,
    builtin: OutputConfiguration,
)
    requires
        populated_from(new, old, builtin),
    ensures
        ({
            let g = new.default_output_config;
            let g0 = old.default_output_config;
            &&& forall|i: int|
                0 <= i < g.urgencies.entries@.len() ==> {
                    let u = (#[trigger] g.urgencies.entries@[i]).1;
                    let u0 = g0.urgencies.entries@[i].1;
                &&& u0.message_layout is Some ==> u.message_layout == u0.message_layout
                &&& u0.message_layout is None ==> u.message_layout == g.default_urgency.message_layout
                &&& u0.font_size is Some ==> u.font_size == u0.font_size
                &&& u0.font_size is None ==> u.font_size == g.default_urgency.font_size
                &&& u0.font_family is Some ==> u.font_family == u0.font_family
                &&& u0.font_family is None ==> u.font_family == g.default_urgency.font_family
                &&& u0.text_color is Some ==> u.text_color == u0.text_color
                &&& u0.text_color is None ==> u.text_color == g.default_urgency.text_color
                &&& u0.background_color is Some ==> u.background_color == u0.background_color
                &&& u0.background_color is None ==> u.background_color == g.default_urgency.background_color
                &&& u0.icon_theme is Some ==> u.icon_theme == u0.icon_theme
                &&& u0.icon_theme is None ==> u.icon_theme == g.default_urgency.icon_theme
                &&& u0.border_color is Some ==> u.border_color == u0.border_color
                &&& u0.border_color is None ==> u.border_color == g.default_urgency.border_color
                &&& u0.border_size is Some ==> u.border_size == u0.border_size
                &&& u0.border_size is None ==> u.border_size == g.default_urgency.border_size
                &&& u0.border_radius is Some ==> u.border_radius == u0.border_radius
                &&& u0.border_radius is None ==> u.border_radius == g.default_urgency.border_radius
                &&& u0.layer is Some ==> u.layer == u0.layer
                &&& u0.layer is None ==> u.layer == g.default_urgency.layer
                }
            &&& forall|i: int|
                0 <= i < new.outputs.entries@.len() ==> {
                    let u = (#[trigger] new.outputs.entries@[i]).1.default_urgency;
                    let u0 = old.outputs.entries@[i].1.default_urgency;
                &&& u0.message_layout is Some ==> u.message_layout == u0.message_layout
                &&& u0.message_layout is None ==> u.message_layout == g.default_urgency.message_layout
                &&& u0.font_size is Some ==> u.font_size == u0.font_size
                &&& u0.font_size is None ==> u.font_size == g.default_urgency.font_size
                &&& u0.font_family is Some ==> u.font_family == u0.font_family
                &&& u0.font_family is None ==> u.font_family == g.default_urgency.font_family
                &&& u0.text_color is Some ==> u.text_color == u0.text_color
                &&& u0.text_color is None ==> u.text_color == g.default_urgency.text_color
                &&& u0.background_color is Some ==> u.background_color == u0.background_color
                &&& u0.background_color is None ==> u.background_color == g.default_urgency.background_color
                &&& u0.icon_theme is Some ==> u.icon_theme == u0.icon_theme
                &&& u0.icon_theme is None ==> u.icon_theme == g.default_urgency.icon_theme
                &&& u0.border_color is Some ==> u.border_color == u0.border_color
                &&& u0.border_color is None ==> u.border_color == g.default_urgency.border_color
                &&& u0.border_size is Some ==> u.border_size == u0.border_size
                &&& u0.border_size is None ==> u.border_size == g.default_urgency.border_size
                &&& u0.border_radius is Some ==> u.border_radius == u0.border_radius
                &&& u0.border_radius is None ==> u.border_radius == g.default_urgency.border_radius
                &&& u0.layer is Some ==> u.layer == u0.layer
                &&& u0.layer is None ==> u.layer == g.default_urgency.layer
                }
        }),
        old.default_output_config.default_urgency.message_layout is Some ==> new.default_output_config.default_urgency.message_layout == old.default_output_config.default_urgency.message_layout,
        old.default_output_config.default_urgency.message_layout is None ==> new.default_output_config.default_urgency.message_layout == builtin.default_urgency.message_layout,
        old.default_output_config.default_urgency.font_size is Some ==> new.default_output_config.default_urgency.font_size == old.default_output_config.default_urgency.font_size,
        old.default_output_config.default_urgency.font_size is None ==> new.default_output_config.default_urgency.font_size == builtin.default_urgency.font_size,
        old.default_output_config.default_urgency.font_family is Some ==> new.default_output_config.default_urgency.font_family == old.default_output_config.default_urgency.font_family,
        old.default_output_config.default_urgency.font_family is None ==> new.default_output_config.default_urgency.font_family == builtin.default_urgency.font_family,
        old.default_output_config.default_urgency.text_color is Some ==> new.default_output_config.default_urgency.text_color == old.default_output_config.default_urgency.text_color,
        old.default_output_config.default_urgency.text_color is None ==> new.default_output_config.default_urgency.text_color == builtin.default_urgency.text_color,
        old.default_output_config.default_urgency.background_color is Some ==> new.default_output_config.default_urgency.background_color == old.default_output_config.default_urgency.background_color,
        old.default_output_config.default_urgency.background_color is None ==> new.default_output_config.default_urgency.background_color == builtin.default_urgency.background_color,
        old.default_output_config.default_urgency.icon_theme is Some ==> new.default_output_config.default_urgency.icon_theme == old.default_output_config.default_urgency.icon_theme,
        old.default_output_config.default_urgency.icon_theme is None ==> new.default_output_config.default_urgency.icon_theme == builtin.default_urgency.icon_theme,
        old.default_output_config.default_urgency.border_color is Some ==> new.default_output_config.default_urgency.border_color == old.default_output_config.default_urgency.border_color,
        old.default_output_config.default_urgency.border_color is None ==> new.default_output_config.default_urgency.border_color == builtin.default_urgency.border_color,
        old.default_output_config.default_urgency.border_size is Some ==> new.default_output_config.default_urgency.border_size == old.default_output_config.default_urgency.border_size,
        old.default_output_config.default_urgency.border_size is None ==> new.default_output_config.default_urgency.border_size == builtin.default_urgency.border_size,
        old.default_output_config.default_urgency.border_radius is Some ==> new.default_output_config.default_urgency.border_radius == old.default_output_config.default_urgency.border_radius,
        old.default_output_config.default_urgency.border_radius is None ==> new.default_output_config.default_urgency.border_radius == builtin.default_urgency.border_radius,
        old.default_output_config.default_urgency.layer is Some ==> new.default_output_config.default_urgency.layer == old.default_output_config.default_urgency.layer,
        old.default_output_config.default_urgency.layer is None ==> new.default_output_config.default_urgency.layer == builtin.default_urgency.layer,
{
    let g = new.default_output_config;
    let g0 = old.default_output_config;
    assert forall|i: int| 0 <= i < g.urgencies.entries@.len() implies {
        let u = (#[trigger] g.urgencies.entries@[i]).1;
        let u0 = g0.urgencies.entries@[i].1;
                &&& u0.message_layout is Some ==> u.message_layout == u0.message_layout
                &&& u0.message_layout is None ==> u.message_layout == g.default_urgency.message_layout
                &&& u0.font_size is Some ==> u.font_size == u0.font_size
                &&& u0.font_size is None ==> u.font_size == g.default_urgency.font_size
                &&& u0.font_family is Some ==> u.font_family == u0.font_family
                &&& u0.font_family is None ==> u.font_family == g.default_urgency.font_family
                &&& u0.text_color is Some ==> u.text_color == u0.text_color
                &&& u0.text_color is None ==> u.text_color == g.default_urgency.text_color
                &&& u0.background_color is Some ==> u.background_color == u0.background_color
                &&& u0.background_color is None ==> u.background_color == g.default_urgency.background_color
                &&& u0.icon_theme is Some ==> u.icon_theme == u0.icon_theme
                &&& u0.icon_theme is None ==> u.icon_theme == g.default_urgency.icon_theme
                &&& u0.border_color is Some ==> u.border_color == u0.border_color
                &&& u0.border_color is None ==> u.border_color == g.default_urgency.border_color
                &&& u0.border_size is Some ==> u.border_size == u0.border_size
                &&& u0.border_size is None ==> u.border_size == g.default_urgency.border_size
                &&& u0.border_radius is Some ==> u.border_radius == u0.border_radius
                &&& u0.border_radius is None ==> u.border_radius == g.default_urgency.border_radius
                &&& u0.layer is Some ==> u.layer == u0.layer
                &&& u0.layer is None ==> u.layer == g.default_urgency.layer
    } by {
        assert(g.urgencies.entries@[i].1 == g0.urgencies.entries@[i].1.completed(g.default_urgency));
    }
    assert forall|i: int| 0 <= i < new.outputs.entries@.len() implies {
        let u = (#[trigger] new.outputs.entries@[i]).1.default_urgency;
        let u0 = old.outputs.entries@[i].1.default_urgency;
                &&& u0.message_layout is Some ==> u.message_layout == u0.message_layout
                &&& u0.message_layout is None ==> u.message_layout == g.default_urgency.message_layout
                &&& u0.font_size is Some ==> u.font_size == u0.font_size
                &&& u0.font_size is None ==> u.font_size == g.default_urgency.font_size
                &&& u0.font_family is Some ==> u.font_family == u0.font_family
                &&& u0.font_family is None ==> u.font_family == g.default_urgency.font_family
                &&& u0.text_color is Some ==> u.text_color == u0.text_color
                &&& u0.text_color is None ==> u.text_color == g.default_urgency.text_color
                &&& u0.background_color is Some ==> u.background_color == u0.background_color
                &&& u0.background_color is None ==> u.background_color == g.default_urgency.background_color
                &&& u0.icon_theme is Some ==> u.icon_theme == u0.icon_theme
                &&& u0.icon_theme is None ==> u.icon_theme == g.default_urgency.icon_theme
                &&& u0.border_color is Some ==> u.border_color == u0.border_color
                &&& u0.border_color is None ==> u.border_color == g.default_urgency.border_color
                &&& u0.border_size is Some ==> u.border_size == u0.border_size
                &&& u0.border_size is None ==> u.border_size == g.default_urgency.border_size
                &&& u0.border_radius is Some ==> u.border_radius == u0.border_radius
                &&& u0.border_radius is None ==> u.border_radius == g.default_urgency.border_radius
                &&& u0.layer is Some ==> u.layer == u0.layer
                &&& u0.layer is None ==> u.layer == g.default_urgency.layer
    } by {
        let o = new.outputs.entries@[i].1;
        assert(output_settings_completed(o, old.outputs.entries@[i].1, g));
    }
}

/// A setting of a named output is its own where it gives one, else the global one, else the
/// built-in one.
pub proof fn law_output_setting_precedence(
    new: Configuration,
    old: Configuration,
    builtin: OutputConfiguration,
    i: int,
)
    requires
        populated_from(new, old, builtin),
        0 <= i < new.outputs.entries@.len(),
    ensures
        ({
            let o = new.outputs.entries@[i].1;
            let o0 = old.outputs.entries@[i].1;
            let g0 = old.default_output_config;
            &&& o.width == or_else(o0.width, or_else(g0.width, builtin.width))
            &&& o.height == or_else(o0.height, or_else(g0.height, builtin.height))
            &&& o.enabled == or_else(o0.enabled, or_else(g0.enabled, builtin.enabled))
            &&& o.margins == or_else(o0.margins, or_else(g0.margins, builtin.margins))
            &&& o.default_urgency.border_size == or_else(
                o0.default_urgency.border_size,
                or_else(g0.default_urgency.border_size, builtin.default_urgency.border_size),
            )
            &&& o.default_urgency.layer == or_else(
                o0.default_urgency.layer,
                or_else(g0.default_urgency.layer, builtin.default_urgency.layer),
            )
        }),
{
    let o = new.outputs.entries@[i].1;
    assert(o == new.outputs.entries@[i].1);
}

} // verus!
