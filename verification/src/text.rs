use vstd::prelude::*;

verus! {

/// The characters of `s`, in order.
pub fn chars_of(s: &str) -> (ret: Vec<char>)
    ensures
        ret@ == s@,
{
    let mut ret: Vec<char> = Vec::new();
    for c in it: s.chars()
        invariant
            ret@ == it.seq().take(it.index() as int),
            it.seq() == s@,
    {
        ret.push(c);
    }
    ret
}

/// Appends one character to a string (`String::push`).
#[verifier::external_body]
fn push_char(s: &mut String, c: char)
    ensures
        final(s)@ == old(s)@.push(c),
{
    s.push(c);
}

/// The string made of the characters of `v`, in order.
pub fn string_of(v: &[char]) -> (ret: String)
    ensures
        ret@ == v@,
{
    let mut ret = String::new();
    for i in 0..v.len()
        invariant
            ret@ == v@.take(i as int),
    {
        push_char(&mut ret, v[i]);
        assert(v@.take(i + 1) == v@.take(i as int).push(v@[i as int]));
    }
    assert(v@.take(v@.len() as int) == v@);
    ret
}

/// Whether the characters of `v` spell out exactly the word `w`.
pub fn is_word(v: &[char], w: &[char]) -> (ret: bool)
    ensures
        ret == (v@ == w@),
{
    if v.len() != w.len() {
        return false;
    }
    for i in 0..v.len()
        invariant
            v@.len() == w@.len(),
            forall|j: int| 0 <= j < i ==> v@[j] == w@[j],
    {
        if v[i] != w[i] {
            return false;
        }
    }
    assert(v@ =~= w@);
    true
}

/// The pieces of `s` between the characters that occur in `delims`, as `str::split`
/// with a set of characters gives them: `n` delimiters give `n + 1` pieces, some of
/// which may be empty.
pub open spec fn split_on(s: Seq<char>, delims: Seq<char>) -> Seq<Seq<char>>
    decreases s.len(),
{
    if s.len() == 0 {
        seq![Seq::<char>::empty()]
    } else {
        let prev = split_on(s.drop_last(), delims);
        if delims.contains(s.last()) {
            prev.push(Seq::<char>::empty())
        } else {
            prev.update(prev.len() - 1, prev.last().push(s.last()))
        }
    }
}

/// The pieces of `s` joined back together with `sep` between consecutive pieces.
pub open spec fn join_with(pieces: Seq<Seq<char>>, sep: char) -> Seq<char>
    decreases pieces.len(),
{
    if pieces.len() == 0 {
        Seq::<char>::empty()
    } else if pieces.len() == 1 {
        pieces[0]
    } else {
        join_with(pieces.drop_last(), sep).push(sep) + pieces.last()
    }
}

pub proof fn lemma_split_on_nonempty(s: Seq<char>, delims: Seq<char>)
    ensures
        split_on(s, delims).len() >= 1,
    decreases s.len(),
{
    if s.len() > 0 {
        lemma_split_on_nonempty(s.drop_last(), delims);
    }
}

/// The character sequences held by a list of character vectors.
pub open spec fn views(v: Seq<Vec<char>>) -> Seq<Seq<char>> {
    v.map_values(|p: Vec<char>| p@)
}

/// Splits `s` at every character that occurs in `delims`.
pub fn split_chars(s: &[char], delims: &[char]) -> (ret: Vec<Vec<char>>)
    ensures
        views(ret@) == split_on(s@, delims@),
{
    let mut pieces: Vec<Vec<char>> = Vec::new();
    let mut cur: Vec<char> = Vec::new();
    for i in 0..s.len()
        invariant
            views(pieces@).push(cur@) == split_on(s@.take(i as int), delims@),
    {
        let c = s[i];
        let ghost prev_s = s@.take(i as int);
        assert(s@.take(i + 1).drop_last() == prev_s);
        assert(s@.take(i + 1).last() == c);
        proof {
            lemma_split_on_nonempty(prev_s, delims@);
        }
        if contains_char(delims, c) {
            let done = cur;
            let ghost old_pieces = views(pieces@);
            let ghost done_view = done@;
            pieces.push(done);
            assert(views(pieces@) =~= old_pieces.push(done_view));
            cur = Vec::new();
            assert(views(pieces@).push(cur@) =~= split_on(s@.take(i + 1), delims@));
        } else {
            let ghost old_pieces = views(pieces@);
            cur.push(c);
            assert(views(pieces@) == old_pieces);
            assert(views(pieces@).push(cur@) =~= split_on(s@.take(i + 1), delims@));
        }
    }
    assert(s@.take(s@.len() as int) == s@);
    let ghost old_pieces = views(pieces@);
    let ghost cur_view = cur@;
    pieces.push(cur);
    assert(views(pieces@) =~= old_pieces.push(cur_view));
    pieces
}

/// Whether `c` is one of the characters of `set`.
pub fn contains_char(set: &[char], c: char) -> (ret: bool)
    ensures
        ret == set@.contains(c),
{
    for i in 0..set.len()
        invariant
            forall|j: int| 0 <= j < i ==> set@[j] != c,
    {
        if set[i] == c {
            assert(set@[i as int] == c);
            return true;
        }
    }
    false
}

/// Joins `pieces[from..]` with `sep` between consecutive pieces.
pub fn join_chars(pieces: &Vec<Vec<char>>, from: usize, sep: char) -> (ret: Vec<char>)
    requires
        from <= pieces.len(),
    ensures
        ret@ == join_with(views(pieces@).skip(from as int), sep),
{
    let mut ret: Vec<char> = Vec::new();
    let ghost dv = views(pieces@);
    for i in from..pieces.len()
        invariant
            from <= pieces.len(),
            dv == views(pieces@),
            ret@ == join_with(dv.subrange(from as int, i as int), sep),
    {
        let ghost before = ret@;
        if i > from {
            ret.push(sep);
        }
        let piece = &pieces[i];
        for k in 0..piece.len()
            invariant
                ret@ == (if i > from { before.push(sep) } else { before }) + piece@.take(k as int),
        {
            ret.push(piece[k]);
            assert(piece@.take(k + 1) == piece@.take(k as int).push(piece@[k as int]));
        }
        assert(piece@.take(piece@.len() as int) == piece@);
        assert(dv[i as int] == piece@);
        assert(dv.subrange(from as int, i + 1).drop_last() == dv.subrange(from as int, i as int));
        if i == from {
            assert(before == Seq::<char>::empty());
            assert(ret@ == piece@);
        }
    }
    assert(dv.subrange(from as int, dv.len() as int) == dv.skip(from as int));
    ret
}

} // verus!

verus! {

/// The value of `c` as a digit in base `radix` (at most 36), as `char::to_digit` gives it.
pub open spec fn digit_value(c: char, radix: nat) -> Option<nat> {
    let v: int = if '0' <= c && c <= '9' {
        c as int - '0' as int
    } else if 'a' <= c && c <= 'z' {
        c as int - 'a' as int + 10
    } else if 'A' <= c && c <= 'Z' {
        c as int - 'A' as int + 10
    } else {
        radix as int
    };
    if v < radix {
        Some(v as nat)
    } else {
        None
    }
}

/// Whether every character of `s` is a digit in base `radix`.
pub open spec fn all_digits(s: Seq<char>, radix: nat) -> bool {
    forall|i: int| 0 <= i < s.len() ==> (#[trigger] digit_value(s[i], radix)) is Some
}

/// The number that the digits `s` denote in base `radix`.
pub open spec fn digits_value(s: Seq<char>, radix: nat) -> nat
    decreases s.len(),
{
    if s.len() == 0 {
        0
    } else {
        digits_value(s.drop_last(), radix) * radix + digit_value(s.last(), radix).unwrap()
    }
}

/// What `from_str_radix` gives for an unsigned integer type whose largest value is `max`:
/// an optional `+` sign followed by at least one digit, denoting at most `max`.
pub open spec fn parse_unsigned(s: Seq<char>, radix: nat, max: nat) -> Option<nat> {
    let d = if s.len() > 1 && s[0] == '+' {
        s.drop_first()
    } else {
        s
    };
    if d.len() == 0 || !all_digits(d, radix) || digits_value(d, radix) > max {
        None
    } else {
        Some(digits_value(d, radix))
    }
}

proof fn lemma_digits_value_grows(s: Seq<char>, radix: nat, i: int)
    requires
        radix >= 1,
        0 <= i <= s.len(),
        all_digits(s, radix),
    ensures
        digits_value(s.take(i), radix) <= digits_value(s, radix),
    decreases s.len() - i,
{
    if i < s.len() {
        lemma_digits_value_grows(s, radix, i + 1);
        let p = s.take(i + 1);
        assert(p.drop_last() == s.take(i));
        assert(digit_value(s[i], radix) is Some);
        let a = digits_value(s.take(i), radix);
        assert(a * radix >= a) by (nonlinear_arith)
            requires
                radix >= 1,
        ;
    } else {
        assert(s.take(i) == s);
    }
}

/// Reads `s` as an unsigned number in base `radix`, as `from_str_radix` does for a type
/// whose largest value is `max`.
pub fn parse_unsigned_chars(s: &[char], radix: u32, max: u64) -> (ret: Option<u64>)
    requires
        2 <= radix <= 36,
    ensures
        match ret {
            Some(v) => parse_unsigned(s@, radix as nat, max as nat) == Some(v as nat),
            None => parse_unsigned(s@, radix as nat, max as nat) is None,
        },
{
    let start: usize = if s.len() > 1 && s[0] == '+' {
        1
    } else {
        0
    };
    let ghost d = if s@.len() > 1 && s@[0] == '+' {
        s@.drop_first()
    } else {
        s@
    };
    assert(d == s@.skip(start as int));
    if start == s.len() {
        return None;
    }
    let mut value: u64 = 0;
    let mut i = start;
    while i < s.len()
        invariant
            start <= i <= s@.len(),
            d == s@.skip(start as int),
            d == (if s@.len() > 1 && s@[0] == '+' {
                s@.drop_first()
            } else {
                s@
            }),
            d.len() > 0,
            2 <= radix <= 36,
            all_digits(d.take(i - start), radix as nat),
            value as nat == digits_value(d.take(i - start), radix as nat),
            value <= max,
        decreases s@.len() - i,
    {
        let c = s[i];
        let k = i - start;
        assert(d[k as int] == c);
        let digit: u32 = if '0' <= c && c <= '9' {
            (c as u32) - ('0' as u32)
        } else if 'a' <= c && c <= 'z' {
            (c as u32) - ('a' as u32) + 10
        } else if 'A' <= c && c <= 'Z' {
            (c as u32) - ('A' as u32) + 10
        } else {
            radix
        };
        assert(d.take(k + 1).drop_last() == d.take(k as int));
        assert(d.take(k + 1).last() == c);
        if digit >= radix {
            assert(!all_digits(d, radix as nat)) by {
                assert(digit_value(d[k as int], radix as nat) is None);
            }
            return None;
        }
        assert(digit_value(c, radix as nat) == Some(digit as nat));
        assert((value as u128) * (radix as u128) <= 36 * 0xFFFF_FFFF_FFFF_FFFFu128) by (nonlinear_arith)
            requires
                value <= 0xFFFF_FFFF_FFFF_FFFFu64,
                radix <= 36,
        ;
        let next: u128 = (value as u128) * (radix as u128) + (digit as u128);
        assert(next as nat == digits_value(d.take(k + 1), radix as nat));
        assert(all_digits(d.take(k + 1), radix as nat)) by {
            assert forall|j: int| 0 <= j < d.take(k + 1).len() implies (#[trigger] digit_value(
                d.take(k + 1)[j],
                radix as nat,
            )) is Some by {
                if j < k {
                    assert(d.take(k + 1)[j] == d.take(k as int)[j]);
                }
            }
        }
        if next > max as u128 {
            proof {
                if all_digits(d, radix as nat) {
                    lemma_digits_value_grows(d, radix as nat, k + 1);
                }
            }
            return None;
        }
        value = next as u64;
        i = i + 1;
    }
    assert(d.take(i - start) == d);
    Some(value)
}

} // verus!

verus! {

/// A copy of the characters of `v`.
pub fn copy_chars(v: &[char]) -> (ret: Vec<char>)
    ensures
        ret@ == v@,
{
    let mut ret: Vec<char> = Vec::new();
    for i in 0..v.len()
        invariant
            ret@ == v@.take(i as int),
    {
        ret.push(v[i]);
        assert(v@.take(i + 1) == v@.take(i as int).push(v@[i as int]));
    }
    assert(v@.take(v@.len() as int) == v@);
    ret
}

/// The characters of `v` from position `from` on.
pub fn tail_chars(v: &[char], from: usize) -> (ret: Vec<char>)
    requires
        from <= v@.len(),
    ensures
        ret@ == v@.skip(from as int),
{
    let mut ret: Vec<char> = Vec::new();
    for i in from..v.len()
        invariant
            from <= v@.len(),
            ret@ == v@.subrange(from as int, i as int),
    {
        ret.push(v[i]);
        assert(v@.subrange(from as int, i + 1) == v@.subrange(from as int, i as int).push(v@[i as int]));
    }
    assert(v@.subrange(from as int, v@.len() as int) == v@.skip(from as int));
    ret
}

/// The character sequences of a list of strings.
pub open spec fn string_views(v: Seq<String>) -> Seq<Seq<char>> {
    v.map_values(|s: String| s@)
}

} // verus!

verus! {

/// Whether `p` occurs in `s` at position `i`.
pub open spec fn occurs_at(s: Seq<char>, p: Seq<char>, i: int) -> bool {
    0 <= i && i + p.len() <= s.len() && s.subrange(i, i + p.len()) == p
}

/// The first position at or after `i` where `p` occurs in `s`.
pub open spec fn find_from(s: Seq<char>, p: Seq<char>, i: int) -> Option<int>
    decreases s.len() + 1 - i,
{
    if i < 0 || i + p.len() > s.len() {
        None
    } else if occurs_at(s, p, i) {
        Some(i)
    } else {
        find_from(s, p, i + 1)
    }
}

/// The first position where `p` occurs in `s`, as `str::find` gives it (counted in characters).
pub open spec fn first_occurrence(s: Seq<char>, p: Seq<char>) -> Option<int> {
    find_from(s, p, 0)
}

proof fn lemma_find_from_none(s: Seq<char>, p: Seq<char>, i: int)
    requires
        0 <= i,
        forall|j: int| i <= j ==> !occurs_at(s, p, j),
    ensures
        find_from(s, p, i) is None,
    decreases s.len() + 1 - i,
{
    if i + p.len() <= s.len() {
        lemma_find_from_none(s, p, i + 1);
    }
}

proof fn lemma_find_from_skip(s: Seq<char>, p: Seq<char>, i: int, k: int)
    requires
        0 <= i <= k,
        forall|j: int| i <= j < k ==> !occurs_at(s, p, j),
    ensures
        find_from(s, p, i) == find_from(s, p, k),
    decreases k - i,
{
    if i < k {
        lemma_find_from_skip(s, p, i + 1, k);
    }
}

/// Whether `p` occurs in `s` at position `i` (checked character by character).
fn occurs_at_exec(s: &[char], p: &[char], i: usize) -> (ret: bool)
    ensures
        ret == occurs_at(s@, p@, i as int),
{
    let n = s.len();
    if i > n || n - i < p.len() {
        return false;
    }
    for k in 0..p.len()
        invariant
            n == s@.len(),
            i + p@.len() <= s@.len(),
            forall|j: int| 0 <= j < k ==> s@[i + j] == p@[j],
    {
        assert(i + k < s@.len());
        if s[i + k] != p[k] {
            assert(s@.subrange(i as int, i + p@.len())[k as int] != p@[k as int]);
            return false;
        }
    }
    assert(s@.subrange(i as int, i + p@.len()) =~= p@);
    true
}

/// The first position where `p` occurs in `s`.
pub fn find_chars(s: &[char], p: &[char]) -> (ret: Option<usize>)
    ensures
        match ret {
            Some(i) => first_occurrence(s@, p@) == Some(i as int) && occurs_at(s@, p@, i as int),
            None => first_occurrence(s@, p@) is None,
        },
{
    let mut i: usize = 0;
    while i < s.len()
        invariant
            i <= s@.len(),
            forall|j: int| 0 <= j < i ==> !occurs_at(s@, p@, j),
        decreases s@.len() - i,
    {
        if occurs_at_exec(s, p, i) {
            proof {
                lemma_find_from_skip(s@, p@, 0, i as int);
            }
            return Some(i);
        }
        i = i + 1;
    }
    if occurs_at_exec(s, p, i) {
        proof {
            lemma_find_from_skip(s@, p@, 0, i as int);
        }
        return Some(i);
    }
    proof {
        assert forall|j: int| 0 <= j implies !occurs_at(s@, p@, j) by {
            if j > i {
                assert(j > s@.len());
            }
        }
        lemma_find_from_none(s@, p@, 0);
    }
    None
}

/// Whether `c` is an ASCII character (one byte in UTF-8).
pub open spec fn is_ascii_char(c: char) -> bool {
    (c as u32) < 128
}

/// The characters `v[from..to]`.
pub fn sub_chars(v: &[char], from: usize, to: usize) -> (ret: Vec<char>)
    requires
        from <= to <= v@.len(),
    ensures
        ret@ == v@.subrange(from as int, to as int),
{
    let mut ret: Vec<char> = Vec::new();
    for i in from..to
        invariant
            to <= v@.len(),
            ret@ == v@.subrange(from as int, i as int),
    {
        ret.push(v[i]);
        assert(v@.subrange(from as int, i + 1) == v@.subrange(from as int, i as int).push(v@[i as int]));
    }
    ret
}

} // verus!

verus! {

/// `s` without the leading characters that belong to `set`.
pub open spec fn strip_start_in(s: Seq<char>, set: Seq<char>) -> Seq<char>
    decreases s.len(),
{
    if s.len() > 0 && set.contains(s[0]) {
        strip_start_in(s.drop_first(), set)
    } else {
        s
    }
}

/// `s` without the trailing characters that belong to `set`.
pub open spec fn strip_end_in(s: Seq<char>, set: Seq<char>) -> Seq<char>
    decreases s.len(),
{
    if s.len() > 0 && set.contains(s.last()) {
        strip_end_in(s.drop_last(), set)
    } else {
        s
    }
}

/// `s` without leading and trailing characters of `set`, as `str::trim_matches` gives it.
pub open spec fn trim_matching(s: Seq<char>, set: Seq<char>) -> Seq<char> {
    strip_end_in(strip_start_in(s, set), set)
}

/// The characters of `s` without leading and trailing characters of `set`.
pub fn trim_matching_chars(s: &[char], set: &[char]) -> (ret: Vec<char>)
    ensures
        ret@ == trim_matching(s@, set@),
{
    let mut start: usize = 0;
    assert(s@.skip(0) == s@);
    while start < s.len() && contains_char(set, s[start])
        invariant
            start <= s@.len(),
            strip_start_in(s@, set@) == strip_start_in(s@.skip(start as int), set@),
        decreases s@.len() - start,
    {
        assert(s@.skip(start as int).drop_first() == s@.skip(start + 1));
        start = start + 1;
    }
    let ghost t = s@.skip(start as int);
    assert(strip_start_in(s@, set@) == t);
    let mut end: usize = s.len();
    while end > start && contains_char(set, s[end - 1])
        invariant
            start <= end <= s@.len(),
            t == s@.skip(start as int),
            strip_end_in(t, set@) == strip_end_in(s@.subrange(start as int, end as int), set@),
        decreases end,
    {
        assert(s@.subrange(start as int, end as int).drop_last() == s@.subrange(start as int, end - 1));
        end = end - 1;
    }
    assert(s@.skip(start as int) == s@.subrange(start as int, s@.len() as int));
    assert(strip_end_in(t, set@) == s@.subrange(start as int, end as int));
    sub_chars(s, start, end)
}

/// The strings made of each list of characters.
pub fn strings_of(pieces: &Vec<Vec<char>>) -> (ret: Vec<String>)
    ensures
        string_views(ret@) == views(pieces@),
{
    let mut ret: Vec<String> = Vec::new();
    for i in 0..pieces.len()
        invariant
            string_views(ret@) == views(pieces@).take(i as int),
    {
        let ghost before = ret@;
        ret.push(string_of(&pieces[i]));
        assert(string_views(ret@) =~= string_views(before).push(pieces@[i as int]@));
        assert(views(pieces@).take(i + 1) =~= views(pieces@).take(i as int).push(pieces@[i as int]@));
    }
    assert(views(pieces@).take(pieces@.len() as int) == views(pieces@));
    ret
}

} // verus!

verus! {

/// The decimal digit character for `d` (below ten).
pub open spec fn digit_char(d: nat) -> char {
    (('0' as u32) + d) as char
}

/// The decimal representation of `n`, without leading zeros.
pub open spec fn decimal(n: nat) -> Seq<char>
    decreases n,
{
    if n < 10 {
        seq![digit_char(n)]
    } else {
        decimal(n / 10).push(digit_char(n % 10))
    }
}

/// Appends the decimal representation of `n`.
pub fn push_decimal(n: u64, out: &mut Vec<char>)
    ensures
        final(out)@ == old(out)@ + decimal(n as nat),
    decreases n,
{
    if n >= 10 {
        push_decimal(n / 10, out);
    }
    let d = (n % 10) as u32;
    let c = char_of_digit(d);
    let ghost before = out@;
    out.push(c);
    proof {
        if n >= 10 {
            assert(out@ =~= old(out)@ + decimal(n as nat));
        } else {
            assert(out@ =~= old(out)@ + decimal(n as nat));
        }
    }
}

fn char_of_digit(d: u32) -> (ret: char)
    requires
        d < 10,
    ensures
        ret == digit_char(d as nat),
{
    if d == 0 { '0' }
    else if d == 1 { '1' }
    else if d == 2 { '2' }
    else if d == 3 { '3' }
    else if d == 4 { '4' }
    else if d == 5 { '5' }
    else if d == 6 { '6' }
    else if d == 7 { '7' }
    else if d == 8 { '8' }
    else { '9' }
}

/// The decimal representation of `n`.
pub fn decimal_string(n: u64) -> (ret: String)
    ensures
        ret@ == decimal(n as nat),
{
    let mut v: Vec<char> = Vec::new();
    push_decimal(n, &mut v);
    assert(v@ =~= decimal(n as nat));
    string_of(&v)
}

/// `s` with zeros added before it up to `width` characters, as the `{:0width}` format gives
/// a number.
pub open spec fn zero_padded(s: Seq<char>, width: nat) -> Seq<char> {
    if s.len() >= width {
        s
    } else {
        Seq::new((width - s.len()) as nat, |i: int| '0') + s
    }
}

} // verus!
