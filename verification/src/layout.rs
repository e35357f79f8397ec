//! Reading of the message layout: the markup that says how a notification's text is laid out.
//!
//! Sizes are never computed here: a span records where its font size and line height come
//! from (the raw values written in the layout, the defaults, or the line height of an earlier
//! span), so that the renderer can settle them as numbers.
use vstd::prelude::*;

use crate::configuration::UrgencyConfiguration;
use crate::text::{
    chars_of, copy_chars, is_word, join_chars, join_with, parse_unsigned, parse_unsigned_chars,
    split_chars, split_on, string_of, string_views, tail_chars, views, lemma_split_on_nonempty,
};

verus! {

/// The text style in force when reading starts.
///
/// `font_size` and `line_height` hold IEEE-754 single-precision bit patterns.
#[derive(Clone, Copy, Debug, PartialEq, Eq, Structural)]
pub struct TextOptions {
    pub font_size: u32,
    pub line_height: u32,
    pub text_color: u32,
    pub bold: bool,
    pub italic: bool,
    pub underline: bool,
}

impl Default for TextOptions {
    fn default() -> (ret: TextOptions)
        ensures
            ret == (TextOptions {
                font_size: 0,
                line_height: 0,
                text_color: 0,
                bold: false,
                italic: false,
                underline: false,
            }),
    {
        TextOptions {
            font_size: 0,
            line_height: 0,
            text_color: 0,
            bold: false,
            italic: false,
            underline: false,
        }
    }
}

/// Where the line height of a span comes from.
#[derive(Debug)]
pub enum LineHeight {
    /// The last of `values` (the `line_height` values written in the fragment, in order)
    /// that reads as a number; without one, `fallback` (bits of a size) or, where that is
    /// `None`, the span's font size plus four.
    Given { values: Vec<String>, fallback: Option<u32> },
    /// A line break: half the line height in force when its piece of text began, at most
    /// twelve. `after` is the span whose line height that was; `None` means the starting line
    /// height (zero without starting options).
    Break { after: Option<usize> },
}

/// One piece of laid-out text with its style.
#[derive(Debug)]
pub struct LayoutSpan {
    pub text: String,
    /// The `font_size` values written in the fragment, in order: the last that reads as a
    /// number is the font size; without one, `default_font_size`.
    pub font_size_values: Vec<String>,
    /// Bits of the font size used where the fragment gives none.
    pub default_font_size: Option<u32>,
    pub line_height: LineHeight,
    pub text_color: Option<u32>,
    pub bold: bool,
    pub italic: bool,
    pub underline: bool,
}

/// The model of a line height.
pub enum LineModel {
    Given(Seq<Seq<char>>, Option<u32>),
    Break(Option<int>),
}

/// The model of a span.
pub struct SpanModel {
    pub text: Seq<char>,
    pub font_sizes: Seq<Seq<char>>,
    pub default_font_size: Option<u32>,
    pub line: LineModel,
    pub color: Option<u32>,
    pub bold: bool,
    pub italic: bool,
    pub underline: bool,
}

impl LayoutSpan {
    pub open spec fn model(&self) -> SpanModel {
        SpanModel {
            text: self.text@,
            font_sizes: string_views(self.font_size_values@),
            default_font_size: self.default_font_size,
            line: match self.line_height {
                LineHeight::Given { values, fallback } => LineModel::Given(
                    string_views(values@),
                    fallback,
                ),
                LineHeight::Break { after } => LineModel::Break(
                    match after {
                        Some(a) => Some(a as int),
                        None => None,
                    },
                ),
            },
            color: self.text_color,
            bold: self.bold,
            italic: self.italic,
            underline: self.underline,
        }
    }
}

/// The models of a list of spans.
pub open spec fn models(v: Seq<LayoutSpan>) -> Seq<SpanModel> {
    v.map_values(|s: LayoutSpan| s.model())
}

/// The style values a fragment falls back on.
#[derive(Clone, Copy)]
pub struct Defaults {
    pub font_size: Option<u32>,
    pub line_height: Option<u32>,
    pub color: Option<u32>,
}

/// The bold, italic and underline flags.
#[derive(Clone, Copy)]
pub struct Flags {
    pub bold: bool,
    pub italic: bool,
    pub underline: bool,
}

pub open spec fn word_font_size() -> Seq<char> {
    seq!['f', 'o', 'n', 't', '_', 's', 'i', 'z', 'e']
}

pub open spec fn word_line_height() -> Seq<char> {
    seq!['l', 'i', 'n', 'e', '_', 'h', 'e', 'i', 'g', 'h', 't']
}

pub open spec fn word_color() -> Seq<char> {
    seq!['c', 'o', 'l', 'o', 'r']
}

/// Whether a fragment token is one of the style keys.
pub open spec fn is_key(t: Seq<char>) -> bool {
    t == word_font_size() || t == word_line_height() || t == word_color()
}

/// How many leading tokens are style keys with their values: a key counts while a value
/// follows it.
pub open spec fn key_count(tokens: Seq<Seq<char>>) -> nat
    decreases tokens.len(),
{
    if tokens.len() >= 2 && is_key(tokens[0]) {
        2 + key_count(tokens.skip(2))
    } else {
        0
    }
}

/// The values given to `key` among the leading style keys, in order.
pub open spec fn key_values(tokens: Seq<Seq<char>>, key: Seq<char>) -> Seq<Seq<char>>
    decreases tokens.len(),
{
    if tokens.len() >= 2 && is_key(tokens[0]) {
        (if tokens[0] == key {
            seq![tokens[1]]
        } else {
            Seq::<Seq<char>>::empty()
        }) + key_values(tokens.skip(2), key)
    } else {
        Seq::<Seq<char>>::empty()
    }
}

/// The colour that a `color` value denotes: hexadecimal digits, with an optional `0x` before
/// them.
pub open spec fn color_value(v: Seq<char>) -> Option<u32> {
    let digits = if v.len() >= 2 && v[0] == '0' && v[1] == 'x' {
        v.skip(2)
    } else {
        v
    };
    match parse_unsigned(digits, 16, 0xFFFF_FFFF) {
        Some(n) => Some(n as u32),
        None => None,
    }
}

/// The colour of the last of `values` that denotes one, else `default`.
pub open spec fn last_color(values: Seq<Seq<char>>, default: Option<u32>) -> Option<u32>
    decreases values.len(),
{
    if values.len() == 0 {
        default
    } else {
        match color_value(values.last()) {
            Some(c) => Some(c),
            None => last_color(values.drop_last(), default),
        }
    }
}

/// The span that a fragment of layout text gives: its leading `key=value` pairs set the style,
/// and the remaining words, joined with single spaces, are the text.
pub open spec fn fragment_span(frag: Seq<char>, d: Defaults, f: Flags) -> SpanModel {
    let t = split_on(frag, seq!['=', ' ']);
    SpanModel {
        text: join_with(t.skip(key_count(t) as int), ' '),
        font_sizes: key_values(t, word_font_size()),
        default_font_size: d.font_size,
        line: LineModel::Given(key_values(t, word_line_height()), d.line_height),
        color: last_color(key_values(t, word_color()), d.color),
        bold: f.bold,
        italic: f.italic,
        underline: f.underline,
    }
}

/// The span of a line break.
pub open spec fn break_span(d: Defaults, f: Flags, after: Option<int>) -> SpanModel {
    SpanModel {
        text: seq!['\n'],
        font_sizes: Seq::<Seq<char>>::empty(),
        default_font_size: d.font_size,
        line: LineModel::Break(after),
        color: d.color,
        bold: f.bold,
        italic: f.italic,
        underline: f.underline,
    }
}

proof fn lemma_models_push(v: Seq<LayoutSpan>, s: LayoutSpan)
    ensures
        models(v.push(s)) == models(v).push(s.model()),
{
    assert(models(v.push(s)) =~= models(v).push(s.model()));
}

proof fn lemma_string_views_push(v: Seq<String>, s: String)
    ensures
        string_views(v.push(s)) == string_views(v).push(s@),
{
    assert(string_views(v.push(s)) =~= string_views(v).push(s@));
}

proof fn lemma_last_color_push(values: Seq<Seq<char>>, v: Seq<char>, default: Option<u32>)
    ensures
        last_color(values.push(v), default) == match color_value(v) {
            Some(c) => Some(c),
            None => last_color(values, default),
        },
{
    assert(values.push(v).drop_last() == values);
}

/// The colour that a `color` value denotes, if any.
fn read_color(v: &[char]) -> (ret: Option<u32>)
    ensures
        ret == color_value(v@),
{
    let from: usize = if v.len() >= 2 && v[0] == '0' && v[1] == 'x' {
        2
    } else {
        0
    };
    let digits = tail_chars(v, from);
    assert(from == 0 ==> v@.skip(0) == v@);
    match parse_unsigned_chars(&digits, 16, 0xFFFF_FFFF) {
        Some(n) => Some(n as u32),
        None => None,
    }
}

/// Reads one fragment of layout text into a span.
fn read_fragment(frag: &[char], d: Defaults, f: Flags) -> (ret: LayoutSpan)
    ensures
        ret.model() == fragment_span(frag@, d, f),
{
    let tokens = split_chars(frag, &['=', ' ']);
    assert(['=', ' ']@ == seq!['=', ' ']);
    let ghost tv = split_on(frag@, seq!['=', ' ']);
    let mut k: usize = 0;
    let mut font_sizes: Vec<String> = Vec::new();
    let mut line_heights: Vec<String> = Vec::new();
    let mut color = d.color;
    let ghost mut colors_seen: Seq<Seq<char>> = Seq::empty();
    assert(tv.skip(0) == tv);
    while k < tokens.len() && tokens.len() - k >= 2 && (is_word(&tokens[k], &['f', 'o', 'n', 't', '_', 's', 'i', 'z', 'e'])
        || is_word(&tokens[k], &['l', 'i', 'n', 'e', '_', 'h', 'e', 'i', 'g', 'h', 't'])
        || is_word(&tokens[k], &['c', 'o', 'l', 'o', 'r']))
        invariant
            views(tokens@) == tv,
            k <= tv.len(),
            key_count(tv) == k + key_count(tv.skip(k as int)),
            string_views(font_sizes@) + key_values(tv.skip(k as int), word_font_size())
                == key_values(tv, word_font_size()),
            string_views(line_heights@) + key_values(tv.skip(k as int), word_line_height())
                == key_values(tv, word_line_height()),
            colors_seen + key_values(tv.skip(k as int), word_color()) == key_values(tv, word_color()),
            color == last_color(colors_seen, d.color),
        decreases tv.len() - k,
    {
        let ghost rest = tv.skip(k as int);
        assert(rest[0] == tokens@[k as int]@);
        assert(rest[1] == tokens@[k + 1]@);
        assert(rest.skip(2) == tv.skip(k + 2));
        let key = &tokens[k];
        let value = &tokens[k + 1];
        if is_word(key, &['f', 'o', 'n', 't', '_', 's', 'i', 'z', 'e']) {
            let ghost before = font_sizes@;
            font_sizes.push(string_of(value));
            proof {
                lemma_string_views_push(before, font_sizes@.last());
                assert(key_values(rest, word_font_size()) == seq![rest[1]] + key_values(tv.skip(k + 2), word_font_size()));
                assert(key_values(rest, word_line_height()) == key_values(tv.skip(k + 2), word_line_height()));
                assert(key_values(rest, word_color()) == key_values(tv.skip(k + 2), word_color()));
            }
        } else if is_word(key, &['l', 'i', 'n', 'e', '_', 'h', 'e', 'i', 'g', 'h', 't']) {
            let ghost before = line_heights@;
            line_heights.push(string_of(value));
            proof {
                lemma_string_views_push(before, line_heights@.last());
                assert(key_values(rest, word_line_height()) == seq![rest[1]] + key_values(tv.skip(k + 2), word_line_height()));
                assert(key_values(rest, word_font_size()) == key_values(tv.skip(k + 2), word_font_size()));
                assert(key_values(rest, word_color()) == key_values(tv.skip(k + 2), word_color()));
            }
        } else {
            proof {
                lemma_last_color_push(colors_seen, value@, d.color);
                colors_seen = colors_seen.push(value@);
                assert(key_values(rest, word_color()) == seq![rest[1]] + key_values(tv.skip(k + 2), word_color()));
                assert(key_values(rest, word_font_size()) == key_values(tv.skip(k + 2), word_font_size()));
                assert(key_values(rest, word_line_height()) == key_values(tv.skip(k + 2), word_line_height()));
            }
            match read_color(value) {
                Some(c) => {
                    color = Some(c);
                },
                None => {},
            }
        }
        k = k + 2;
    }
    let ghost rest = tv.skip(k as int);
    assert(key_count(rest) == 0);
    assert(key_values(rest, word_font_size()) == Seq::<Seq<char>>::empty());
    assert(key_values(rest, word_line_height()) == Seq::<Seq<char>>::empty());
    assert(key_values(rest, word_color()) == Seq::<Seq<char>>::empty());
    assert(string_views(font_sizes@) == key_values(tv, word_font_size()));
    assert(string_views(line_heights@) == key_values(tv, word_line_height()));
    assert(colors_seen == key_values(tv, word_color()));
    let text = join_chars(&tokens, k, ' ');
    LayoutSpan {
        text: string_of(&text),
        font_size_values: font_sizes,
        default_font_size: d.font_size,
        line_height: LineHeight::Given { values: line_heights, fallback: d.line_height },
        text_color: color,
        bold: f.bold,
        italic: f.italic,
        underline: f.underline,
    }
}

} // verus!

verus! {

/// Whether the line piece at `i` (of the pieces of a fragment between `\n` characters) stands
/// for a line break: it is empty, another piece follows, and either that one is empty too or
/// this is not the first piece.
pub open spec fn breaks_line(secs: Seq<Seq<char>>, i: int) -> bool {
    &&& 0 <= i < secs.len()
    &&& secs[i].len() == 0
    &&& i + 1 < secs.len()
    &&& (secs[i + 1].len() == 0 || i != 0)
}

/// The piece after a line break at `i`: two empty pieces in a row past the first make one
/// break.
pub open spec fn after_break(secs: Seq<Seq<char>>, i: int) -> int {
    if secs[i + 1].len() == 0 && i != 0 {
        i + 2
    } else {
        i + 1
    }
}

/// The span of the pieces gathered so far, joined with `\n`, unless that text is empty.
pub open spec fn flushed(pending: Seq<Seq<char>>, d: Defaults, f: Flags) -> Seq<SpanModel> {
    let j = join_with(pending, '\n');
    if j.len() == 0 {
        Seq::<SpanModel>::empty()
    } else {
        seq![fragment_span(j, d, f)]
    }
}

/// The spans of the line pieces from `i` on, with `pending` gathered before them: pieces are
/// gathered until a line break, which ends the gathered text and adds a break span.
pub open spec fn section_spans(
    secs: Seq<Seq<char>>,
    i: int,
    pending: Seq<Seq<char>>,
    d: Defaults,
    f: Flags,
    after: Option<int>,
) -> Seq<SpanModel>
    decreases secs.len() - i,
{
    if i < 0 || i >= secs.len() {
        flushed(pending, d, f)
    } else if breaks_line(secs, i) {
        flushed(pending, d, f) + seq![break_span(d, f, after)] + section_spans(
            secs,
            after_break(secs, i),
            Seq::<Seq<char>>::empty(),
            d,
            f,
            after,
        )
    } else {
        section_spans(secs, i + 1, pending.push(secs[i]), d, f, after)
    }
}

/// The spans of a text fragment of the layout (a piece between `<` and `>` that is no tag).
pub open spec fn chunk_spans(chunk: Seq<char>, d: Defaults, f: Flags, after: Option<int>) -> Seq<SpanModel> {
    section_spans(split_on(chunk, seq!['\n']), 0, Seq::<Seq<char>>::empty(), d, f, after)
}

/// Appends the span of the gathered pieces, unless their text is empty.
fn flush(pending: &Vec<Vec<char>>, d: Defaults, f: Flags, out: &mut Vec<LayoutSpan>)
    ensures
        models(final(out)@) == models(old(out)@) + flushed(views(pending@), d, f),
{
    let joined = join_chars(pending, 0, '\n');
    assert(views(pending@).skip(0) == views(pending@));
    if joined.len() > 0 {
        let span = read_fragment(&joined, d, f);
        let ghost before = out@;
        out.push(span);
        proof {
            lemma_models_push(before, span);
        }
    } else {
        assert(models(out@) + Seq::<SpanModel>::empty() == models(out@));
    }
}

/// A line-break span.
fn new_break(d: Defaults, f: Flags, after: Option<usize>) -> (ret: LayoutSpan)
    ensures
        ret.model() == break_span(
            d,
            f,
            match after {
                Some(a) => Some(a as int),
                None => None,
            },
        ),
{
    let nl = ['\n'];
    let t = string_of(&nl);
    assert(nl@ == seq!['\n']);
    proof {
        assert(string_views(Seq::<String>::empty()) == Seq::<Seq<char>>::empty());
    }
    LayoutSpan {
        text: t,
        font_size_values: Vec::new(),
        default_font_size: d.font_size,
        line_height: LineHeight::Break { after },
        text_color: d.color,
        bold: f.bold,
        italic: f.italic,
        underline: f.underline,
    }
}

/// Appends the spans of a text fragment of the layout.
fn read_chunk(chunk: &[char], d: Defaults, f: Flags, after: Option<usize>, out: &mut Vec<LayoutSpan>)
    ensures
        models(final(out)@) == models(old(out)@) + chunk_spans(
            chunk@,
            d,
            f,
            match after {
                Some(a) => Some(a as int),
                None => None,
            },
        ),
{
    let ghost after_i: Option<int> = match after {
        Some(a) => Some(a as int),
        None => None,
    };
    let secs = split_chars(chunk, &['\n']);
    assert(['\n']@ == seq!['\n']);
    let ghost sv = split_on(chunk@, seq!['\n']);
    let ghost base = models(out@);
    let mut i: usize = 0;
    let mut pending: Vec<Vec<char>> = Vec::new();
    assert(views(pending@) == Seq::<Seq<char>>::empty());
    assert(models(out@) + section_spans(sv, 0, views(pending@), d, f, after_i) == base + chunk_spans(chunk@, d, f, after_i));
    while i < secs.len()
        invariant
            views(secs@) == sv,
            i <= sv.len(),
            after_i == match after {
                Some(a) => Some(a as int),
                None => None,
            },
            models(out@) + section_spans(sv, i as int, views(pending@), d, f, after_i) == base
                + chunk_spans(chunk@, d, f, after_i),
        decreases sv.len() - i,
    {
        assert(sv[i as int] == secs@[i as int]@);
        let is_break = secs[i].len() == 0 && i + 1 < secs.len() && (secs[i + 1].len() == 0 || i != 0);
        proof {
            if i + 1 < sv.len() {
                assert(sv[i + 1] == secs@[i + 1]@);
            }
        }
        if is_break {
            let ghost out0 = models(out@);
            let ghost p0 = views(pending@);
            flush(&pending, d, f, out);
            let ghost out1 = out@;
            let b = new_break(d, f, after);
            out.push(b);
            proof {
                lemma_models_push(out1, b);
                assert(models(out1) == out0 + flushed(p0, d, f));
                assert(b.model() == break_span(d, f, after_i));
                assert(models(out@) == models(out1).push(b.model()));
            }
            let next = if secs[i + 1].len() == 0 && i != 0 {
                i + 2
            } else {
                i + 1
            };
            assert(next == after_break(sv, i as int));
            pending = Vec::new();
            assert(views(pending@) == Seq::<Seq<char>>::empty());
            assert(section_spans(sv, i as int, p0, d, f, after_i) == flushed(p0, d, f) + seq![break_span(d, f, after_i)] + section_spans(sv, next as int, Seq::<Seq<char>>::empty(), d, f, after_i));
            assert(models(out@) =~= out0 + flushed(p0, d, f) + seq![break_span(d, f, after_i)]);
            assert(models(out@) + section_spans(sv, next as int, views(pending@), d, f, after_i) == out0 + section_spans(sv, i as int, p0, d, f, after_i));
            i = next;
        } else {
            let ghost p0 = views(pending@);
            let piece = copy_chars(&secs[i]);
            pending.push(piece);
            assert(views(pending@) == p0.push(sv[i as int]));
            i = i + 1;
        }
    }
    flush(&pending, d, f, out);
}

} // verus!

verus! {

/// The flags after a tag (`b`, `/b`, `i`, `/i`, `u`, `/u`), if the piece is a tag.
pub open spec fn tag_effect(c: Seq<char>, f: Flags) -> Option<Flags> {
    if c == seq!['b'] {
        Some(Flags { bold: true, ..f })
    } else if c == seq!['/', 'b'] {
        Some(Flags { bold: false, ..f })
    } else if c == seq!['i'] {
        Some(Flags { italic: true, ..f })
    } else if c == seq!['/', 'i'] {
        Some(Flags { italic: false, ..f })
    } else if c == seq!['u'] {
        Some(Flags { underline: true, ..f })
    } else if c == seq!['/', 'u'] {
        Some(Flags { underline: false, ..f })
    } else {
        None
    }
}

/// The flags and spans after reading the pieces `chunks` (the layout split at `<` and `>`):
/// empty pieces are skipped, tags change the flags, and every other piece adds its spans,
/// whose line breaks refer to the last span before the piece.
pub open spec fn layout_state(chunks: Seq<Seq<char>>, d: Defaults, f0: Flags) -> (Flags, Seq<SpanModel>)
    decreases chunks.len(),
{
    if chunks.len() == 0 {
        (f0, Seq::<SpanModel>::empty())
    } else {
        let prev = layout_state(chunks.drop_last(), d, f0);
        let f = prev.0;
        let spans = prev.1;
        let c = chunks.last();
        if c.len() == 0 {
            (f, spans)
        } else {
            match tag_effect(c, f) {
                Some(g) => (g, spans),
                None => (
                    f,
                    spans + chunk_spans(
                        c,
                        d,
                        f,
                        if spans.len() == 0 {
                            None
                        } else {
                            Some(spans.len() - 1)
                        },
                    ),
                ),
            }
        }
    }
}

/// The spans of a whole layout.
pub open spec fn layout_spans(layout: Seq<char>, d: Defaults, f0: Flags) -> Seq<SpanModel> {
    layout_state(split_on(layout, seq!['<', '>']), d, f0).1
}

/// The style values fragments fall back on: those of the starting options, or the
/// configured font size and colour (and a line height four more than the font size).
pub open spec fn layout_defaults(u: UrgencyConfiguration, starting: Option<TextOptions>) -> Defaults {
    match starting {
        Some(s) => Defaults {
            font_size: Some(s.font_size),
            line_height: Some(s.line_height),
            color: Some(s.text_color),
        },
        None => Defaults {
            font_size: u.font_size,
            line_height: None,
            color: match u.text_color {
                Some(c) => Some(c.0),
                None => None,
            },
        },
    }
}

/// The flags in force when reading starts.
pub open spec fn starting_flags(starting: Option<TextOptions>) -> Flags {
    match starting {
        Some(s) => Flags { bold: s.bold, italic: s.italic, underline: s.underline },
        None => Flags { bold: false, italic: false, underline: false },
    }
}

impl UrgencyConfiguration {
    /// Reads `layout` into styled spans of text.
    pub fn parse_layout(&self, layout: &str, starting_text_options: Option<TextOptions>) -> (ret: Vec<LayoutSpan>)
        ensures
            models(ret@) == layout_spans(
                layout@,
                layout_defaults(*self, starting_text_options),
                starting_flags(starting_text_options),
            ),
    {
        let d = match starting_text_options {
            Some(s) => Defaults {
                font_size: Some(s.font_size),
                line_height: Some(s.line_height),
                color: Some(s.text_color),
            },
            None => Defaults {
                font_size: self.font_size,
                line_height: None,
                color: match self.text_color {
                    Some(c) => Some(c.0),
                    None => None,
                },
            },
        };
        let mut f = match starting_text_options {
            Some(s) => Flags { bold: s.bold, italic: s.italic, underline: s.underline },
            None => Flags { bold: false, italic: false, underline: false },
        };
        let ghost f0 = f;
        let chars = chars_of(layout);
        let chunks = split_chars(&chars, &['<', '>']);
        assert(['<', '>']@ == seq!['<', '>']);
        let ghost cv = split_on(layout@, seq!['<', '>']);
        let mut out: Vec<LayoutSpan> = Vec::new();
        assert(cv.take(0) == Seq::<Seq<char>>::empty());
        assert(models(out@) == Seq::<SpanModel>::empty());
        for i in 0..chunks.len()
            invariant
                views(chunks@) == cv,
                layout_state(cv.take(i as int), d, f0) == (f, models(out@)),
        {
            let chunk = &chunks[i];
            let ghost prefix = cv.take(i + 1);
            assert(prefix.drop_last() == cv.take(i as int));
            assert(prefix.last() == chunk@);
            if chunk.len() == 0 {
            } else if is_word(chunk, &['b']) {
                assert(['b']@ == seq!['b']);
                f = Flags { bold: true, ..f };
            } else if is_word(chunk, &['/', 'b']) {
                assert(['/', 'b']@ == seq!['/', 'b']);
                f = Flags { bold: false, ..f };
            } else if is_word(chunk, &['i']) {
                assert(['i']@ == seq!['i']);
                f = Flags { italic: true, ..f };
            } else if is_word(chunk, &['/', 'i']) {
                assert(['/', 'i']@ == seq!['/', 'i']);
                f = Flags { italic: false, ..f };
            } else if is_word(chunk, &['u']) {
                assert(['u']@ == seq!['u']);
                f = Flags { underline: true, ..f };
            } else if is_word(chunk, &['/', 'u']) {
                assert(['/', 'u']@ == seq!['/', 'u']);
                f = Flags { underline: false, ..f };
            } else {
                assert(['b']@ == seq!['b']);
                assert(['/', 'b']@ == seq!['/', 'b']);
                assert(['i']@ == seq!['i']);
                assert(['/', 'i']@ == seq!['/', 'i']);
                assert(['u']@ == seq!['u']);
                assert(['/', 'u']@ == seq!['/', 'u']);
                let after: Option<usize> = if out.len() == 0 {
                    None
                } else {
                    Some(out.len() - 1)
                };
                read_chunk(chunk, d, f, after, &mut out);
            }
        }
        assert(cv.take(chunks@.len() as int) == cv);
        out
    }

    /// Reads the configured message layout into styled spans of text.
    pub fn get_message_layout(&self) -> (ret: Vec<LayoutSpan>)
        requires
            self.message_layout is Some,
        ensures
            models(ret@) == layout_spans(
                self.message_layout.unwrap()@,
                layout_defaults(*self, None),
                starting_flags(None),
            ),
    {
        match &self.message_layout {
            Some(layout) => self.parse_layout(layout.as_str(), None),
            None => Vec::new(),
        }
    }
}

} // verus!

verus! {

/// Whether a span carries the given flags.
pub open spec fn carries(s: SpanModel, f: Flags) -> bool {
    s.bold == f.bold && s.italic == f.italic && s.underline == f.underline
}

proof fn lemma_section_spans_carry(
    secs: Seq<Seq<char>>,
    i: int,
    pending: Seq<Seq<char>>,
    d: Defaults,
    f: Flags,
    after: Option<int>,
)
    ensures
        forall|k: int|
            0 <= k < section_spans(secs, i, pending, d, f, after).len() ==> carries(
                #[trigger] section_spans(secs, i, pending, d, f, after)[k],
                f,
            ),
    decreases secs.len() - i,
{
    if i < 0 || i >= secs.len() {
        let a = flushed(pending, d, f);
        assert(section_spans(secs, i, pending, d, f, after) == a);
        if a.len() > 0 {
            assert(a[0] == fragment_span(join_with(pending, '\n'), d, f));
        }
    } else if breaks_line(secs, i) {
        lemma_section_spans_carry(secs, after_break(secs, i), Seq::<Seq<char>>::empty(), d, f, after);
        let a = flushed(pending, d, f);
        let b = seq![break_span(d, f, after)];
        let c = section_spans(secs, after_break(secs, i), Seq::<Seq<char>>::empty(), d, f, after);
        let all = section_spans(secs, i, pending, d, f, after);
        assert(all == a + b + c);
        assert forall|k: int| 0 <= k < all.len() implies carries(#[trigger] all[k], f) by {
            if k < a.len() {
                assert(all[k] == a[k]);
            } else if k < a.len() + 1 {
                assert(all[k] == b[k - a.len()]);
            } else {
                assert(all[k] == c[k - a.len() - 1]);
            }
        }
    } else {
        lemma_section_spans_carry(secs, i + 1, pending.push(secs[i]), d, f, after);
        assert(section_spans(secs, i, pending, d, f, after) == section_spans(
            secs,
            i + 1,
            pending.push(secs[i]),
            d,
            f,
            after,
        ));
    }
}

proof fn lemma_split_append(p: Seq<char>, t: Seq<char>, delims: Seq<char>)
    requires
        forall|k: int| 0 <= k < t.len() ==> !delims.contains(#[trigger] t[k]),
    ensures
        split_on(p + t, delims) == split_on(p, delims).update(
            split_on(p, delims).len() - 1,
            split_on(p, delims).last() + t,
        ),
    decreases t.len(),
{
    lemma_split_on_nonempty(p, delims);
    let sp = split_on(p, delims);
    if t.len() == 0 {
        assert(p + t =~= p);
        assert(sp.last() + t =~= sp.last());
        assert(sp.update(sp.len() - 1, sp.last()) =~= sp);
    } else {
        let t0 = t.drop_last();
        lemma_split_append(p, t0, delims);
        assert((p + t).drop_last() =~= p + t0);
        assert((p + t).last() == t.last());
        assert(!delims.contains(t[t.len() - 1]));
        let prev = split_on(p + t0, delims);
        assert(prev.last() == sp.last() + t0);
        assert((sp.last() + t0).push(t.last()) =~= sp.last() + t);
        assert(prev.update(prev.len() - 1, prev.last().push(t.last())) =~= sp.update(
            sp.len() - 1,
            sp.last() + t,
        ));
    }
}

/// A tag changes only its own flag: after `<b>`, `<i>` or `<u>` the text that follows is
/// bold, italic or underlined, after `</b>`, `</i>` or `</u>` it is not, and the two other
/// flags stay as they were.
pub proof fn law_tags_set_only_their_flag(tag: Seq<char>, text: Seq<char>, d: Defaults, f: Flags)
    requires
        tag == seq!['b'] || tag == seq!['/', 'b'] || tag == seq!['i'] || tag == seq!['/', 'i']
            || tag == seq!['u'] || tag == seq!['/', 'u'],
        forall|k: int| 0 <= k < text.len() ==> #[trigger] text[k] != '<' && text[k] != '>',
    ensures
        forall|k: int|
            0 <= k < layout_spans(seq!['<'] + tag + seq!['>'] + text, d, f).len() ==> {
                let s = #[trigger] layout_spans(seq!['<'] + tag + seq!['>'] + text, d, f)[k];
                &&& s.bold == if tag == seq!['b'] {
                    true
                } else if tag == seq!['/', 'b'] {
                    false
                } else {
                    f.bold
                }
                &&& s.italic == if tag == seq!['i'] {
                    true
                } else if tag == seq!['/', 'i'] {
                    false
                } else {
                    f.italic
                }
                &&& s.underline == if tag == seq!['u'] {
                    true
                } else if tag == seq!['/', 'u'] {
                    false
                } else {
                    f.underline
                }
            },
{
    let delims = seq!['<', '>'];
    let lt = seq!['<'];
    let x = lt + tag + seq!['>'];
    let layout = x + text;
    assert forall|k: int| 0 <= k < text.len() implies !delims.contains(#[trigger] text[k]) by {
        assert(text[k] != delims[0] && text[k] != delims[1]);
    }
    assert forall|k: int| 0 <= k < tag.len() implies !delims.contains(#[trigger] tag[k]) by {
        assert(tag[k] != delims[0] && tag[k] != delims[1]);
    }
    lemma_split_append(x, text, delims);
    assert(lt.drop_last() =~= Seq::<char>::empty());
    assert(split_on(Seq::<char>::empty(), delims) == seq![Seq::<char>::empty()]);
    assert(lt.last() == '<' && delims[0] == '<');
    assert(delims.contains(lt.last()));
    assert(split_on(lt, delims) =~= seq![Seq::<char>::empty(), Seq::<char>::empty()]);
    lemma_split_append(lt, tag, delims);
    assert(Seq::<char>::empty() + tag =~= tag);
    assert(split_on(lt + tag, delims) =~= seq![Seq::<char>::empty(), tag]);
    assert(x.drop_last() =~= lt + tag);
    assert(x.last() == '>');
    assert(split_on(x, delims) =~= seq![Seq::<char>::empty(), tag, Seq::<char>::empty()]);
    let chunks = split_on(layout, delims);
    assert(chunks =~= seq![Seq::<char>::empty(), tag, text]);
    let g = tag_effect(tag, f).unwrap();
    assert(chunks.drop_last() =~= seq![Seq::<char>::empty(), tag]);
    assert(chunks.drop_last().drop_last() =~= seq![Seq::<char>::empty()]);
    assert(chunks.drop_last().drop_last().drop_last() =~= Seq::<Seq<char>>::empty());
    assert(layout_state(Seq::<Seq<char>>::empty(), d, f) == (f, Seq::<SpanModel>::empty()));
    assert(layout_state(chunks.drop_last().drop_last(), d, f) == (f, Seq::<SpanModel>::empty()));
    assert(tag.len() > 0);
    assert(tag_effect(tag, f) == Some(g));
    assert(layout_state(chunks.drop_last(), d, f) == (g, Seq::<SpanModel>::empty()));
    let spans = layout_spans(layout, d, f);
    if text.len() > 0 && tag_effect(text, g) is None {
        lemma_section_spans_carry(split_on(text, seq!['\n']), 0, Seq::<Seq<char>>::empty(), d, g, None);
        assert(spans =~= chunk_spans(text, d, g, None));
        assert forall|k: int| 0 <= k < spans.len() implies carries(#[trigger] spans[k], g) by {
            assert(spans[k] == chunk_spans(text, d, g, None)[k]);
        }
    } else {
        assert(spans.len() == 0);
    }
}

} // verus!
