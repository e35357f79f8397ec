//! Icon lookup decisions: which file an icon name or URI stands for, and how well an icon
//! theme directory fits a requested size.
use vstd::prelude::*;

use crate::table::{lookup, Table};
use crate::text::{
    chars_of, copy_chars, find_chars, first_occurrence, is_ascii_char, is_word, parse_unsigned,
    parse_unsigned_chars, split_chars, split_on, string_of, string_views, strings_of, sub_chars,
    tail_chars, trim_matching, trim_matching_chars, views,
};

verus! {

/// The kinds of icon file that are recognised.
#[derive(Clone, Copy, Debug, PartialEq, Eq, Structural)]
pub enum IconFileType {
    SVG,
    PNG,
    XPM,
}

/// Walks over icon file types in the order in which directories are searched.
#[derive(Clone, Copy, Debug, PartialEq, Eq, Structural)]
pub struct IconFileTypeIterator(pub IconFileType);

/// The file type an extension (without its dot) names.
pub open spec fn type_of_extension(ext: Seq<char>) -> Option<IconFileType> {
    if ext == seq!['s', 'v', 'g'] {
        Some(IconFileType::SVG)
    } else if ext == seq!['p', 'n', 'g'] {
        Some(IconFileType::PNG)
    } else if ext == seq!['x', 'p', 'm'] {
        Some(IconFileType::XPM)
    } else {
        None
    }
}

/// The extension of a file type, with its dot.
pub open spec fn extension_of(t: IconFileType) -> Seq<char> {
    match t {
        IconFileType::SVG => seq!['.', 's', 'v', 'g'],
        IconFileType::PNG => seq!['.', 'p', 'n', 'g'],
        IconFileType::XPM => seq!['.', 'x', 'p', 'm'],
    }
}

/// The type the iterator yields after `t`, if any.
pub open spec fn type_after(t: IconFileType) -> Option<IconFileType> {
    match t {
        IconFileType::SVG => Some(IconFileType::PNG),
        IconFileType::PNG => Some(IconFileType::XPM),
        IconFileType::XPM => None,
    }
}

impl IconFileType {
    /// An iterator over the file types in search order.
    pub fn iter() -> (ret: IconFileTypeIterator)
        ensures
            ret == IconFileTypeIterator(IconFileType::SVG),
    {
        IconFileTypeIterator(IconFileType::SVG)
    }

    /// The file type that `extension` (without its dot) names, if any.
    pub fn try_from_extension(extension: &str) -> (ret: Option<IconFileType>)
        ensures
            ret == type_of_extension(extension@),
    {
        let v = chars_of(extension);
        Self::from_extension_chars(&v)
    }

    fn from_extension_chars(v: &[char]) -> (ret: Option<IconFileType>)
        ensures
            ret == type_of_extension(v@),
    {
        assert(['s', 'v', 'g']@ == seq!['s', 'v', 'g']);
        assert(['p', 'n', 'g']@ == seq!['p', 'n', 'g']);
        assert(['x', 'p', 'm']@ == seq!['x', 'p', 'm']);
        if is_word(v, &['s', 'v', 'g']) {
            Some(IconFileType::SVG)
        } else if is_word(v, &['p', 'n', 'g']) {
            Some(IconFileType::PNG)
        } else if is_word(v, &['x', 'p', 'm']) {
            Some(IconFileType::XPM)
        } else {
            None
        }
    }

    /// The file extension of this type, with its dot.
    pub fn extension(self) -> (ret: String)
        ensures
            ret@ == extension_of(self),
    {
        let v = match self {
            IconFileType::SVG => ['.', 's', 'v', 'g'],
            IconFileType::PNG => ['.', 'p', 'n', 'g'],
            IconFileType::XPM => ['.', 'x', 'p', 'm'],
        };
        assert(['.', 's', 'v', 'g']@ == seq!['.', 's', 'v', 'g']);
        assert(['.', 'p', 'n', 'g']@ == seq!['.', 'p', 'n', 'g']);
        assert(['.', 'x', 'p', 'm']@ == seq!['.', 'x', 'p', 'm']);
        string_of(&v)
    }
}

impl IconFileTypeIterator {
    /// Moves to the next file type and yields it; `None` once the last type is reached.
    pub fn next(&mut self) -> (ret: Option<IconFileType>)
        ensures
            ret == type_after(old(self).0),
            match ret {
                Some(t) => final(self).0 == t,
                None => final(self).0 == old(self).0,
            },
    {
        match self.0 {
            IconFileType::SVG => {
                self.0 = IconFileType::PNG;
            },
            IconFileType::PNG => {
                self.0 = IconFileType::XPM;
            },
            IconFileType::XPM => {
                return None;
            },
        }
        Some(self.0)
    }
}

/// A nominal icon size and the scale at which it is drawn.
#[derive(Clone, Copy, Debug, PartialEq, Eq, Structural)]
pub struct IconSize {
    pub size: usize,
    pub scale: usize,
}

impl IconSize {
    /// The size in pixels: the nominal size times the scale.
    pub fn scaled_size(&self) -> (ret: usize)
        requires
            self.size * self.scale <= usize::MAX,
        ensures
            ret == self.size * self.scale,
    {
        self.size * self.scale
    }
}

impl Default for IconSize {
    fn default() -> (ret: IconSize)
        ensures
            ret == (IconSize { size: 0, scale: 0 }),
    {
        IconSize { size: 0, scale: 0 }
    }
}

/// Where an icon was found and what it is.
#[derive(Debug)]
pub struct IconFileInformation {
    pub path: String,
    pub file_type: IconFileType,
    pub icon_size: Option<IconSize>,
}

impl IconFileInformation {
    /// Information on an icon file.
    pub fn new(path: String, file_type: IconFileType, icon_size: Option<IconSize>) -> (ret: Self)
        ensures
            ret.path == path,
            ret.file_type == file_type,
            ret.icon_size == icon_size,
    {
        IconFileInformation { path, file_type, icon_size }
    }
}

/// Why an icon could not be found.
#[derive(Clone, Copy, Debug, PartialEq, Eq, Structural)]
pub enum IconError {
    InvalidInput,
    Unsupported,
    NotFound,
    InvalidData,
}

} // verus!

verus! {

pub open spec fn key_scale() -> Seq<char> {
    seq!['S', 'c', 'a', 'l', 'e']
}

pub open spec fn key_size() -> Seq<char> {
    seq!['S', 'i', 'z', 'e']
}

pub open spec fn key_type() -> Seq<char> {
    seq!['T', 'y', 'p', 'e']
}

pub open spec fn key_min_size() -> Seq<char> {
    seq!['M', 'i', 'n', 'S', 'i', 'z', 'e']
}

pub open spec fn key_max_size() -> Seq<char> {
    seq!['M', 'a', 'x', 'S', 'i', 'z', 'e']
}

pub open spec fn key_threshold() -> Seq<char> {
    seq!['T', 'h', 'r', 'e', 's', 'h', 'o', 'l', 'd']
}

pub open spec fn type_fixed() -> Seq<char> {
    seq!['F', 'i', 'x', 'e', 'd']
}

pub open spec fn type_scalable() -> Seq<char> {
    seq!['S', 'c', 'a', 'l', 'a', 'b', 'l', 'e']
}

/// Whether `x` fits in a `usize`.
pub open spec fn fits(x: int) -> bool {
    0 <= x <= usize::MAX
}

/// A size entry read as a decimal `usize`, or `default` where the entry is absent; `None`
/// where it is present but unreadable.
pub open spec fn read_size(v: Option<String>, default: nat) -> Option<nat> {
    match v {
        None => Some(default),
        Some(s) => parse_unsigned(s@, 10, usize::MAX as nat),
    }
}

/// The distance between two sizes.
pub open spec fn size_gap(a: int, b: int) -> int {
    if a >= b {
        a - b
    } else {
        b - a
    }
}

/// How far a theme directory with the given index entries is from the requested size, and
/// the size its icons have there (the icon theme specification's directory size distance).
///
/// `Fixed` directories hold one size; `Scalable` ones every size from `MinSize` to `MaxSize`;
/// `Threshold` ones (the default type) every size within `Threshold` (default 2) of `Size`.
/// `None` where the entries leave it undefined: `Size` missing, a number that does not read,
/// an unknown type, or a size out of range.
pub open spec fn size_distance(entries: Seq<(String, String)>, nominal: IconSize) -> Option<(nat, IconSize)> {
    let n = nominal.size * nominal.scale;
    let ty = match lookup(entries, key_type()) {
        Some(t) => t@,
        None => key_threshold(),
    };
    match (read_size(lookup(entries, key_scale()), 1), lookup(entries, key_size())) {
        (Some(scale), Some(size_text)) => match parse_unsigned(size_text@, 10, usize::MAX as nat) {
            Some(size) => if !fits(n) {
                None
            } else if ty == type_fixed() {
                if fits((size * scale) as int) {
                    Some((size_gap(n, (size * scale) as int) as nat, IconSize { size: size as usize, scale: scale as usize }))
                } else {
                    None
                }
            } else if ty == type_scalable() {
                match (read_size(lookup(entries, key_min_size()), size), read_size(lookup(entries, key_max_size()), size)) {
                    (Some(lo), Some(hi)) => if !fits((lo * scale) as int) || !fits((hi * scale) as int) {
                        None
                    } else if n < lo * scale {
                        Some(((lo * scale - n) as nat, IconSize { size: lo as usize, scale: scale as usize }))
                    } else if n > hi * scale {
                        Some(((n - hi * scale) as nat, IconSize { size: hi as usize, scale: scale as usize }))
                    } else {
                        Some((0, IconSize { size: size as usize, scale: scale as usize }))
                    },
                    _ => None,
                }
            } else if ty == key_threshold() {
                match read_size(lookup(entries, key_threshold()), 2) {
                    Some(t) => if t > size || !fits((size + t) as int) || !fits((size - t) * scale) || !fits(((size + t) * scale) as int) {
                        None
                    } else if n < (size - t) * scale {
                        Some((((size - t) * scale - n) as nat, IconSize { size: (size - t) as usize, scale: scale as usize }))
                    } else if n > (size + t) * scale {
                        Some(((n - (size + t) * scale) as nat, IconSize { size: (size + t) as usize, scale: scale as usize }))
                    } else {
                        Some((0, IconSize { size: size as usize, scale: scale as usize }))
                    },
                    None => None,
                }
            } else {
                None
            },
            None => None,
        },
        _ => None,
    }
}

/// The sizes a theme directory with the given index entries holds, as the icon theme
/// specification describes them: the smallest and largest size at its scale, its nominal
/// size and its scale. A `Fixed` directory holds `Size` alone; a `Scalable` one every size
/// from `MinSize` to `MaxSize` (both `Size` where absent); a `Threshold` one (the default
/// type) every size within `Threshold` (default 2) of `Size`.
pub open spec fn directory_sizes(entries: Seq<(String, String)>) -> Option<(int, int, int, int)> {
    let ty = match lookup(entries, key_type()) {
        Some(t) => t@,
        None => key_threshold(),
    };
    match (read_size(lookup(entries, key_scale()), 1), lookup(entries, key_size())) {
        (Some(scale), Some(size_text)) => match parse_unsigned(size_text@, 10, usize::MAX as nat) {
            Some(size) => if ty == type_fixed() {
                Some(((size * scale) as int, (size * scale) as int, size as int, scale as int))
            } else if ty == type_scalable() {
                match (read_size(lookup(entries, key_min_size()), size), read_size(lookup(entries, key_max_size()), size)) {
                    (Some(lo), Some(hi)) => Some(((lo * scale) as int, (hi * scale) as int, size as int, scale as int)),
                    _ => None,
                }
            } else if ty == key_threshold() {
                match read_size(lookup(entries, key_threshold()), 2) {
                    Some(t) => if t <= size {
                        Some(((size - t) * scale, ((size + t) * scale) as int, size as int, scale as int))
                    } else {
                        None
                    },
                    None => None,
                }
            } else {
                None
            },
            None => None,
        },
        _ => None,
    }
}

/// Wherever a directory's size distance is defined, the directory holds a range of sizes
/// `lo..=hi`, and for a requested size `n` (nominal size times scale): the distance is
/// `lo - n` below the range, `n - hi` above it and zero inside it, so it is zero exactly when
/// the requested size is in the range; the size given back is at the directory's scale and
/// is the nearest end of the range outside it, the directory's nominal size inside it.
pub proof fn law_size_distance_is_distance_to_range(entries: Seq<(String, String)>, nominal: IconSize)
    requires
        size_distance(entries, nominal) is Some,
    ensures
        ({
            let n = nominal.size * nominal.scale;
            let (d, s) = size_distance(entries, nominal).unwrap();
            &&& directory_sizes(entries) is Some
            &&& {
                let (lo, hi, size, scale) = directory_sizes(entries).unwrap();
                &&& d == if n < lo {
                    lo - n
                } else if n > hi {
                    n - hi
                } else {
                    0
                }
                &&& (d == 0 <==> lo <= n <= hi)
                &&& s.scale == scale
                &&& s.size * scale == if n < lo {
                    lo
                } else if n > hi {
                    hi
                } else {
                    size * scale
                }
            }
        }),
{
}

/// Reads a size entry: the number it holds, or `default` where it is absent.
fn read_size_entry(v: Option<&String>, default: usize) -> (ret: Option<usize>)
    ensures
        ret matches Some(x) ==> read_size(
            match v {
                Some(s) => Some(*s),
                None => None,
            },
            default as nat,
        ) == Some(x as nat),
        ret is None ==> read_size(
            match v {
                Some(s) => Some(*s),
                None => None,
            },
            default as nat,
        ) is None,
{
    match v {
        None => Some(default),
        Some(s) => {
            let c = chars_of(s.as_str());
            match parse_unsigned_chars(&c, 10, usize::MAX as u64) {
                Some(x) => Some(x as usize),
                None => None,
            }
        },
    }
}

fn gap(a: usize, b: usize) -> (ret: usize)
    ensures
        ret == size_gap(a as int, b as int),
{
    if a >= b {
        a - b
    } else {
        b - a
    }
}

/// How far a theme directory with the index entries `section_data` is from the requested
/// size, and the size its icons have there; `None` where the entries leave that undefined.
pub fn get_size_distance_for_icon(section_data: &Table<String>, nominal_size: IconSize) -> (ret: Option<(usize, IconSize)>)
    requires
        section_data.wf(),
    ensures
        match ret {
            Some((d, s)) => size_distance(section_data.entries@, nominal_size) == Some((d as nat, s)),
            None => size_distance(section_data.entries@, nominal_size) is None,
        },
{
    proof {
        reveal_strlit("Scale");
        reveal_strlit("Size");
        reveal_strlit("Type");
        reveal_strlit("MinSize");
        reveal_strlit("MaxSize");
        reveal_strlit("Threshold");
        reveal_strlit("Fixed");
        reveal_strlit("Scalable");
        assert("Scale"@ == key_scale());
        assert("Size"@ == key_size());
        assert("Type"@ == key_type());
        assert("MinSize"@ == key_min_size());
        assert("MaxSize"@ == key_max_size());
        assert("Threshold"@ == key_threshold());
    }
    let ghost entries = section_data.entries@;
    let ghost n_spec = nominal_size.size * nominal_size.scale;
    let scale = match read_size_entry(section_data.get("Scale"), 1) {
        Some(s) => s,
        None => return None,
    };
    let size_text = match section_data.get("Size") {
        Some(t) => t,
        None => return None,
    };
    let size_chars = chars_of(size_text.as_str());
    let size = match parse_unsigned_chars(&size_chars, 10, usize::MAX as u64) {
        Some(x) => x as usize,
        None => return None,
    };
    if nominal_size.scale != 0 && nominal_size.size > usize::MAX / nominal_size.scale {
        assert(nominal_size.size * nominal_size.scale > usize::MAX) by (nonlinear_arith)
            requires
                nominal_size.scale != 0,
                nominal_size.size > usize::MAX / nominal_size.scale,
        ;
        return None;
    }
    assert(nominal_size.size * nominal_size.scale <= usize::MAX) by (nonlinear_arith)
        requires
            nominal_size.scale == 0 || nominal_size.size <= usize::MAX / nominal_size.scale,
    ;
    let n = nominal_size.size * nominal_size.scale;
    let ty_chars: Vec<char> = match section_data.get("Type") {
        Some(t) => chars_of(t.as_str()),
        None => chars_of("Threshold"),
    };
    assert(['F', 'i', 'x', 'e', 'd']@ == type_fixed());
    assert(['S', 'c', 'a', 'l', 'a', 'b', 'l', 'e']@ == type_scalable());
    assert(['T', 'h', 'r', 'e', 's', 'h', 'o', 'l', 'd']@ == key_threshold());
    if is_word(&ty_chars, &['F', 'i', 'x', 'e', 'd']) {
        let s = match mul_checked(size, scale) {
            Some(s) => s,
            None => return None,
        };
        Some((gap(n, s), IconSize { size, scale }))
    } else if is_word(&ty_chars, &['S', 'c', 'a', 'l', 'a', 'b', 'l', 'e']) {
        let lo = match read_size_entry(section_data.get("MinSize"), size) {
            Some(x) => x,
            None => return None,
        };
        let hi = match read_size_entry(section_data.get("MaxSize"), size) {
            Some(x) => x,
            None => return None,
        };
        let lo_scaled = match mul_checked(lo, scale) {
            Some(x) => x,
            None => return None,
        };
        let hi_scaled = match mul_checked(hi, scale) {
            Some(x) => x,
            None => return None,
        };
        if n < lo_scaled {
            Some((lo_scaled - n, IconSize { size: lo, scale }))
        } else if n > hi_scaled {
            Some((n - hi_scaled, IconSize { size: hi, scale }))
        } else {
            Some((0, IconSize { size, scale }))
        }
    } else if is_word(&ty_chars, &['T', 'h', 'r', 'e', 's', 'h', 'o', 'l', 'd']) {
        let t = match read_size_entry(section_data.get("Threshold"), 2) {
            Some(x) => x,
            None => return None,
        };
        if t > size || size > usize::MAX - t {
            return None;
        }
        let lo_scaled = match mul_checked(size - t, scale) {
            Some(x) => x,
            None => return None,
        };
        let hi_scaled = match mul_checked(size + t, scale) {
            Some(x) => x,
            None => return None,
        };
        if n < lo_scaled {
            Some((lo_scaled - n, IconSize { size: size - t, scale }))
        } else if n > hi_scaled {
            Some((n - hi_scaled, IconSize { size: size + t, scale }))
        } else {
            Some((0, IconSize { size, scale }))
        }
    } else {
        None
    }
}

/// The product of two sizes, if it fits in a `usize`.
fn mul_checked(a: usize, b: usize) -> (ret: Option<usize>)
    ensures
        match ret {
            Some(p) => p == a * b,
            None => !fits(a * b),
        },
{
    if b != 0 && a > usize::MAX / b {
        assert(a * b > usize::MAX) by (nonlinear_arith)
            requires
                b != 0,
                a > usize::MAX / b,
        ;
        None
    } else {
        assert(a * b <= usize::MAX) by (nonlinear_arith)
            requires
                b == 0 || a <= usize::MAX / b,
        ;
        assert(a * b >= 0) by (nonlinear_arith);
        Some(a * b)
    }
}

} // verus!

verus! {

/// Whether reading the value of `field` from `source` stays within the text: where the
/// field occurs, a one-byte character follows it and the value starts before the end.
pub open spec fn field_readable(source: Seq<char>, field: Seq<char>) -> bool {
    match first_occurrence(source, field) {
        Some(i) => {
            let e = i + field.len();
            &&& e + 1 < source.len()
            &&& is_ascii_char(source[e])
        },
        None => true,
    }
}

/// The value of `field` in an index file: the text after the first occurrence of the field
/// and the one character after it, up to the next line break.
pub open spec fn field_value(source: Seq<char>, field: Seq<char>) -> Result<Seq<char>, IconError> {
    match first_occurrence(source, field) {
        None => Err(IconError::InvalidData),
        Some(i) => {
            let start = i + field.len() + 1;
            match first_occurrence(source.skip(start), seq!['\n']) {
                None => Err(IconError::InvalidData),
                Some(j) => Ok(source.subrange(start, start + j)),
            }
        },
    }
}

/// Reads the value of `field` from the text of an index file.
pub fn get_field_from_ini_file(source: &str, field: &str) -> (ret: Result<String, IconError>)
    requires
        field_readable(source@, field@),
    ensures
        match ret {
            Ok(v) => field_value(source@, field@) == Ok::<Seq<char>, IconError>(v@),
            Err(e) => field_value(source@, field@) == Err::<Seq<char>, IconError>(e),
        },
{
    let s = chars_of(source);
    let f = chars_of(field);
    let i = match find_chars(&s, &f) {
        Some(i) => i,
        None => return Err(IconError::InvalidData),
    };
    assert(s@ == source@ && f@ == field@);
    let n = s.len();
    assert(i + f@.len() + 1 < n);
    let start = i + f.len() + 1;
    let rest = tail_chars(&s, start);
    let nl = ['\n'];
    assert(nl@ == seq!['\n']);
    match find_chars(&rest, &nl) {
        Some(j) => {
            assert(j + 1 <= rest@.len());
            assert(s@.subrange(start as int, start + j) == rest@.subrange(0, j as int));
            let value = sub_chars(&rest, 0, j);
            Ok(string_of(&value))
        },
        None => Err(IconError::InvalidData),
    }
}

/// A line without a trailing carriage return.
pub open spec fn strip_cr(l: Seq<char>) -> Seq<char> {
    if l.len() > 0 && l.last() == '\r' {
        l.drop_last()
    } else {
        l
    }
}

/// Of the pieces of a text between `\n` characters, the line that piece `k` gives
/// (`str::lines`): every piece but the last ended with `\n` and loses a trailing `\r`.
pub open spec fn line_at(p: Seq<Seq<char>>, k: int) -> Seq<char> {
    if k < p.len() - 1 {
        strip_cr(p[k])
    } else {
        p[k]
    }
}

/// Whether piece `k` is a line: all are but an empty last piece.
pub open spec fn is_line(p: Seq<Seq<char>>, k: int) -> bool {
    k < p.len() - 1 || p[k].len() > 0
}

/// The value that the lines from the first `n` pieces give to `key`: that of the last line
/// whose text before its first `=` is `key`, the value being the text between that `=` and
/// the next one.
pub open spec fn section_value(p: Seq<Seq<char>>, n: int, key: Seq<char>) -> Option<Seq<char>>
    decreases n,
{
    if n <= 0 {
        None
    } else {
        let kv = split_on(line_at(p, n - 1), seq!['=']);
        if is_line(p, n - 1) && kv.len() >= 2 && kv[0] == key {
            Some(kv[1])
        } else {
            section_value(p, n - 1, key)
        }
    }
}

/// Where the entries of `section` start: three characters past the end of its first
/// occurrence (past the `]`, the line break and one more character).
pub open spec fn section_start(source: Seq<char>, section: Seq<char>) -> Option<int> {
    match first_occurrence(source, section) {
        Some(i) => Some(i + section.len() + 3),
        None => None,
    }
}

/// Whether reading the entries of `section` stays within the text: where the section
/// occurs, three one-byte characters follow it and the entries start before the end.
pub open spec fn section_readable(source: Seq<char>, section: Seq<char>) -> bool {
    match first_occurrence(source, section) {
        Some(i) => {
            let e = i + section.len();
            &&& e + 3 < source.len()
            &&& is_ascii_char(source[e])
            &&& is_ascii_char(source[e + 1])
            &&& is_ascii_char(source[e + 2])
        },
        None => true,
    }
}

/// Whether `t` holds exactly the values that the lines after `section` give their keys.
pub open spec fn section_table_matches(t: Table<String>, source: Seq<char>, section: Seq<char>) -> bool {
    match section_start(source, section) {
        Some(start) => {
            let p = split_on(source.skip(start), seq!['\n']);
            &&& t.wf()
            &&& forall|key: Seq<char>|
                #![trigger t.spec_get(key)]
                match t.spec_get(key) {
                    Some(v) => section_value(p, p.len() as int, key) == Some(v@),
                    None => section_value(p, p.len() as int, key) is None,
                }
        },
        None => false,
    }
}

/// Reads the `key=value` lines that follow `section` in the text of an index file, up to the
/// end of the text; a later line for a key replaces an earlier one.
pub fn get_section_from_ini_file(source: &str, section: &str) -> (ret: Result<Table<String>, IconError>)
    requires
        section_readable(source@, section@),
    ensures
        match ret {
            Ok(t) => section_table_matches(t, source@, section@),
            Err(e) => e == IconError::InvalidData && section_start(source@, section@) is None,
        },
{
    let s = chars_of(source);
    let sec = chars_of(section);
    let i = match find_chars(&s, &sec) {
        Some(i) => i,
        None => return Err(IconError::InvalidData),
    };
    assert(s@ == source@ && sec@ == section@);
    let n0 = s.len();
    assert(i + sec@.len() + 3 < n0);
    let start = i + sec.len() + 3;
    let rest = tail_chars(&s, start);
    let pieces = split_chars(&rest, &['\n']);
    assert(['\n']@ == seq!['\n']);
    let ghost p = split_on(source@.skip(start as int), seq!['\n']);
    let mut table: Table<String> = Table::new();
    let n = pieces.len();
    for k in 0..n
        invariant
            n == p.len(),
            views(pieces@) == p,
            table.wf(),
            forall|key: Seq<char>|
                #![trigger table.spec_get(key)]
                match table.spec_get(key) {
                    Some(v) => section_value(p, k as int, key) == Some(v@),
                    None => section_value(p, k as int, key) is None,
                },
    {
        assert(p[k as int] == pieces@[k as int]@);
        let piece = &pieces[k];
        let line: Vec<char> = if k + 1 < n && piece.len() > 0 && piece[piece.len() - 1] == '\r' {
            sub_chars(piece, 0, piece.len() - 1)
        } else {
            copy_chars(piece)
        };
        assert(line@ == line_at(p, k as int)) by {
            if k + 1 < n && piece@.len() > 0 && piece@.last() == '\r' {
                assert(piece@.subrange(0, piece@.len() - 1) == piece@.drop_last());
            }
        }
        if k + 1 < n || line.len() > 0 {
            let kv = split_chars(&line, &['=']);
            assert(['=']@ == seq!['=']);
            if kv.len() >= 2 {
                let key = string_of(&kv[0]);
                let value = string_of(&kv[1]);
                let ghost kk = key@;
                let ghost vv = value@;
                table.insert(key, value);
                proof {
                    assert forall|q: Seq<char>| #![trigger table.spec_get(q)] match table.spec_get(q) {
                        Some(v) => section_value(p, k + 1, q) == Some(v@),
                        None => section_value(p, k + 1, q) is None,
                    } by {
                        if q == kk {
                        } else {
                        }
                    }
                }
            }
        }
    }
    Ok(table)
}

} // verus!

verus! {

pub open spec fn key_directories() -> Seq<char> {
    seq!['D', 'i', 'r', 'e', 'c', 't', 'o', 'r', 'i', 'e', 's']
}

/// The directory names an icon theme index lists: its `Directories` value without leading
/// and trailing spaces and commas, split at commas.
pub open spec fn listed_directories(index: Seq<char>) -> Result<Seq<Seq<char>>, IconError> {
    match field_value(index, key_directories()) {
        Ok(v) => Ok(split_on(trim_matching(v, seq![' ', ',']), seq![','])),
        Err(e) => Err(e),
    }
}

/// The directory names listed by the text of an icon theme index file.
pub fn theme_directories(index: &str) -> (ret: Result<Vec<String>, IconError>)
    requires
        field_readable(index@, key_directories()),
    ensures
        match ret {
            Ok(v) => listed_directories(index@) == Ok::<Seq<Seq<char>>, IconError>(string_views(v@)),
            Err(e) => listed_directories(index@) == Err::<Seq<Seq<char>>, IconError>(e),
        },
{
    proof {
        reveal_strlit("Directories");
        assert("Directories"@ == key_directories());
    }
    let value = get_field_from_ini_file(index, "Directories")?;
    let v = chars_of(value.as_str());
    let set = [' ', ','];
    assert(set@ == seq![' ', ',']);
    let trimmed = trim_matching_chars(&v, &set);
    let comma = [','];
    assert(comma@ == seq![',']);
    let pieces = split_chars(&trimmed, &comma);
    Ok(strings_of(&pieces))
}

/// The file name of an icon of the given type: its name and the type's extension.
pub fn icon_file_name(icon_name: &str, file_type: IconFileType) -> (ret: String)
    ensures
        ret@ == icon_name@ + extension_of(file_type),
{
    let mut v = chars_of(icon_name);
    let e = file_type.extension();
    let ev = chars_of(e.as_str());
    let ghost base = v@;
    for i in 0..ev.len()
        invariant
            v@ == base + ev@.take(i as int),
    {
        v.push(ev[i]);
        assert(ev@.take(i + 1) == ev@.take(i as int).push(ev@[i as int]));
    }
    assert(ev@.take(ev@.len() as int) == ev@);
    string_of(&v)
}

/// The icon chosen in a theme directory, given the types (in search order) for which a file
/// of the icon's name exists there: the first of them, at the requested size where the
/// directory matches it exactly and at the directory's size otherwise; none where no file
/// exists or the distance is the largest `usize`.
pub open spec fn chosen_icon(found: Seq<IconFileType>, distance: (nat, IconSize), nominal: IconSize) -> Option<(IconFileType, IconSize)> {
    if found.len() == 0 {
        None
    } else if distance.0 == 0 {
        Some((found[0], nominal))
    } else if distance.0 < usize::MAX {
        Some((found[0], distance.1))
    } else {
        None
    }
}

/// The icon chosen in a theme directory is of the first file type found there, and its size
/// is the requested one where the directory holds that size, else the nearest size the
/// directory holds, at the directory's scale (none where that distance is the largest
/// `usize`).
pub proof fn law_chosen_icon_size(found: Seq<IconFileType>, entries: Seq<(String, String)>, nominal: IconSize)
    requires
        found.len() > 0,
        size_distance(entries, nominal) is Some,
    ensures
        directory_sizes(entries) is Some,
        ({
            let (lo, hi, size, scale) = directory_sizes(entries).unwrap();
            let n = nominal.size * nominal.scale;
            let r = chosen_icon(found, size_distance(entries, nominal).unwrap(), nominal);
            &&& lo <= n <= hi ==> r == Some((found[0], nominal))
            &&& n < lo && lo - n < usize::MAX ==> (r matches Some((t, s)) && t == found[0] && s.scale
                == scale && s.size * scale == lo)
            &&& lo <= n && n > hi && n - hi < usize::MAX ==> (r matches Some((t, s)) && t == found[0] && s.scale
                == scale && s.size * scale == hi)
            &&& ((n < lo && lo - n >= usize::MAX) || (lo <= n && n > hi && n - hi >= usize::MAX)) ==> r is None
        }),
{
    law_size_distance_is_distance_to_range(entries, nominal);
    let (lo, hi, size, scale) = directory_sizes(entries).unwrap();
    let n = nominal.size * nominal.scale;
    let dist = size_distance(entries, nominal).unwrap();
    assert(lo <= n <= hi ==> dist.0 == 0);
    assert(n < lo ==> dist.0 == lo - n);
    assert(lo <= n && n > hi ==> dist.0 == n - hi);
    assert(dist.1.scale == scale);
}

/// Chooses the icon in a theme directory, given the file types (in search order) for which
/// a file of the icon's name exists there.
pub fn search_for_icon_in_directory(
    found: &[IconFileType],
    section_data: &Table<String>,
    nominal_size: IconSize,
) -> (ret: Option<(IconFileType, IconSize)>)
    requires
        section_data.wf(),
        found@.len() > 0 ==> size_distance(section_data.entries@, nominal_size) is Some,
    ensures
        found@.len() == 0 ==> ret is None,
        found@.len() > 0 ==> ret == chosen_icon(
            found@,
            size_distance(section_data.entries@, nominal_size).unwrap(),
            nominal_size,
        ),
{
    if found.len() == 0 {
        return None;
    }
    match get_size_distance_for_icon(section_data, nominal_size) {
        Some((distance, actual)) => {
            if distance == 0 {
                Some((found[0], nominal_size))
            } else if distance < usize::MAX {
                Some((found[0], actual))
            } else {
                None
            }
        },
        None => None,
    }
}

pub open spec fn file_scheme() -> Seq<char> {
    seq!['f', 'i', 'l', 'e', ':', '/', '/']
}

/// The last position of `c` in `s`.
pub open spec fn last_position(s: Seq<char>, c: char) -> Option<int>
    decreases s.len(),
{
    if s.len() == 0 {
        None
    } else if s.last() == c {
        Some(s.len() - 1)
    } else {
        last_position(s.drop_last(), c)
    }
}

/// The icon a `file://` URI names: the whole text is the path and the text after its last
/// `.` the extension. `None` where the icon is no such URI (it is then a theme icon name).
pub open spec fn uri_icon(app_icon: Seq<char>) -> Option<Result<(Seq<char>, IconFileType), IconError>> {
    if app_icon.len() >= 7 && app_icon.take(7) == file_scheme() {
        Some(
            match last_position(app_icon, '.') {
                None => Err(IconError::InvalidInput),
                Some(k) => match type_of_extension(app_icon.skip(k + 1)) {
                    Some(t) => Ok((app_icon, t)),
                    None => Err(IconError::Unsupported),
                },
            },
        )
    } else {
        None
    }
}

fn last_position_of(v: &[char], c: char) -> (ret: Option<usize>)
    ensures
        match ret {
            Some(k) => last_position(v@, c) == Some(k as int) && k < v@.len(),
            None => last_position(v@, c) is None,
        },
{
    let mut n = v.len();
    assert(v@.take(n as int) == v@);
    while n > 0 && v[n - 1] != c
        invariant
            n <= v@.len(),
            last_position(v@, c) == last_position(v@.take(n as int), c),
        decreases n,
    {
        assert(v@.take(n as int).drop_last() == v@.take(n - 1));
        n = n - 1;
    }
    if n == 0 {
        assert(v@.take(0) == Seq::<char>::empty());
        None
    } else {
        Some(n - 1)
    }
}

/// The icon that `app_icon` names when it is a `file://` URI; `None` where it is not one.
pub fn icon_from_uri(app_icon: &str) -> (ret: Option<Result<IconFileInformation, IconError>>)
    ensures
        match ret {
            None => uri_icon(app_icon@) is None,
            Some(Ok(info)) => uri_icon(app_icon@) == Some(
                Ok::<(Seq<char>, IconFileType), IconError>((info.path@, info.file_type)),
            ) && info.icon_size is None,
            Some(Err(e)) => uri_icon(app_icon@) == Some(Err::<(Seq<char>, IconFileType), IconError>(e)),
        },
{
    let v = chars_of(app_icon);
    let scheme = ['f', 'i', 'l', 'e', ':', '/', '/'];
    assert(scheme@ == file_scheme());
    if v.len() < 7 {
        return None;
    }
    let head = sub_chars(&v, 0, 7);
    assert(v@.subrange(0, 7) == v@.take(7));
    if !is_word(&head, &scheme) {
        return None;
    }
    match last_position_of(&v, '.') {
        None => Some(Err(IconError::InvalidInput)),
        Some(k) => {
            let ext = tail_chars(&v, k + 1);
            match IconFileType::from_extension_chars(&ext) {
                Some(t) => Some(Ok(IconFileInformation::new(string_of(&v), t, None))),
                None => Some(Err(IconError::Unsupported)),
            }
        },
    }
}

} // verus!

verus! {

/// Whether reading the value of `field` from `source` stays within the text (see
/// `field_readable`).
pub fn ini_field_readable(source: &str, field: &str) -> (ret: bool)
    ensures
        ret == field_readable(source@, field@),
{
    let s = chars_of(source);
    let f = chars_of(field);
    match find_chars(&s, &f) {
        None => true,
        Some(i) => {
            if i > s.len() - f.len() {
                return false;
            }
            let e = i + f.len();
            s.len() - e > 1 && (s[e] as u32) < 128
        },
    }
}

/// Whether reading the entries of `section` from `source` stays within the text (see
/// `section_readable`).
pub fn ini_section_readable(source: &str, section: &str) -> (ret: bool)
    ensures
        ret == section_readable(source@, section@),
{
    let s = chars_of(source);
    let f = chars_of(section);
    match find_chars(&s, &f) {
        None => true,
        Some(i) => {
            if i > s.len() - f.len() {
                return false;
            }
            let e = i + f.len();
            s.len() - e > 3 && (s[e] as u32) < 128 && (s[e + 1] as u32) < 128 && (s[e + 2] as u32)
                < 128
        },
    }
}

/// What was found about one directory listed by an icon theme: whether it is a directory,
/// its entries in the theme's index (where they could be read), and the file types (in
/// search order) for which a file of the icon's name exists in it.
#[derive(Debug)]
pub struct DirectoryProbe {
    pub is_dir: bool,
    pub section: Option<Table<String>>,
    pub found: Vec<IconFileType>,
}

/// Whether the entries of a probed directory are well formed and, where a file was found in
/// the directory, define its size distance.
pub open spec fn probe_ready(p: DirectoryProbe, nominal: IconSize) -> bool {
    match p.section {
        Some(s) => s.wf() && (p.is_dir && p.found@.len() > 0 ==> size_distance(s.entries@, nominal) is Some),
        None => true,
    }
}

/// The icon a probed directory yields: none unless it is a directory whose entries could be
/// read (see `chosen_icon`).
pub open spec fn probe_choice(p: DirectoryProbe, nominal: IconSize) -> Option<(IconFileType, IconSize)> {
    match p.section {
        Some(s) => if p.is_dir && p.found@.len() > 0 {
            chosen_icon(p.found@, size_distance(s.entries@, nominal).unwrap(), nominal)
        } else {
            None
        },
        None => None,
    }
}

/// Finds an icon in a theme from what was found about its listed directories, in order: the
/// first directory that yields one (see `probe_choice`) gives its position, the file type and
/// the icon's size; none gives `NotFound`.
pub fn search_for_icon_in_icon_theme(probes: &Vec<DirectoryProbe>, nominal_size: IconSize) -> (ret: Result<
    (usize, IconFileType, IconSize),
    IconError,
>)
    requires
        forall|i: int| 0 <= i < probes@.len() ==> probe_ready(#[trigger] probes@[i], nominal_size),
    ensures
        match ret {
            Ok((i, t, s)) => i < probes@.len() && probe_choice(probes@[i as int], nominal_size)
                == Some((t, s)) && forall|j: int|
                0 <= j < i ==> probe_choice(#[trigger] probes@[j], nominal_size) is None,
            Err(e) => e == IconError::NotFound && forall|j: int|
                0 <= j < probes@.len() ==> probe_choice(#[trigger] probes@[j], nominal_size) is None,
        },
{
    for i in 0..probes.len()
        invariant
            forall|j: int| 0 <= j < i ==> probe_choice(#[trigger] probes@[j], nominal_size) is None,
            forall|k: int| 0 <= k < probes@.len() ==> probe_ready(#[trigger] probes@[k], nominal_size),
    {
        let p = &probes[i];
        if p.is_dir {
            match &p.section {
                Some(section) => {
                    match search_for_icon_in_directory(p.found.as_slice(), section, nominal_size) {
                        Some((t, s)) => {
                            return Ok((i, t, s));
                        },
                        None => {},
                    }
                },
                None => {},
            }
        }
    }
    Err(IconError::NotFound)
}

} // verus!
