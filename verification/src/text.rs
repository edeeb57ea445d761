//! Text primitives over `Seq<char>`, with the meaning the standard library gives them.

use vstd::prelude::*;

verus! {

/// A set of characters that text is cut at.
#[derive(Clone, Copy)]
pub enum Class {
    Is(char),
    Whitespace,
    /// `.` and `-`, which separate the components of a version.
    VersionSeparator,
    /// `/` and `\`, which separate the parts of a path on Windows.
    PathSeparator,
}

/// The characters with the Unicode `White_Space` property.
pub open spec fn is_whitespace(c: char) -> bool {
    ||| '\u{9}' <= c <= '\u{d}'
    ||| c == ' '
    ||| c == '\u{85}'
    ||| c == '\u{a0}'
    ||| c == '\u{1680}'
    ||| '\u{2000}' <= c <= '\u{200a}'
    ||| c == '\u{2028}'
    ||| c == '\u{2029}'
    ||| c == '\u{202f}'
    ||| c == '\u{205f}'
    ||| c == '\u{3000}'
}

pub open spec fn is_digit(c: char) -> bool {
    '0' <= c <= '9'
}

pub open spec fn is_lower(c: char) -> bool {
    'a' <= c <= 'z'
}

pub open spec fn is_upper(c: char) -> bool {
    'A' <= c <= 'Z'
}

pub open spec fn is_hex_digit(c: char) -> bool {
    is_digit(c) || 'a' <= c <= 'f' || 'A' <= c <= 'F'
}

pub open spec fn is_alphanumeric(c: char) -> bool {
    is_digit(c) || is_lower(c) || is_upper(c)
}

pub open spec fn in_class(class: Class, c: char) -> bool {
    match class {
        Class::Is(it) => c == it,
        Class::Whitespace => is_whitespace(c),
        Class::VersionSeparator => c == '.' || c == '-',
        Class::PathSeparator => c == '/' || c == '\\',
    }
}

/// The views of a sequence of strings.
pub open spec fn texts(strings: Seq<String>) -> Seq<Seq<char>> {
    strings.map_values(|s: String| s@)
}

/// The views of a sequence of pairs of strings.
pub open spec fn text_pairs(pairs: Seq<(String, String)>) -> Seq<(Seq<char>, Seq<char>)> {
    pairs.map_values(|pair: (String, String)| (pair.0@, pair.1@))
}

/// The index of the first character of `class` in `s`, or the length of `s`.
pub open spec fn first_in(s: Seq<char>, class: Class) -> nat
    decreases s.len(),
{
    if s.len() == 0 || in_class(class, s[0]) {
        0
    } else {
        1 + first_in(s.drop_first(), class)
    }
}

/// Whether `s` holds a character of `class`.
pub open spec fn has_class(s: Seq<char>, class: Class) -> bool {
    exists|i: int| 0 <= i < s.len() && in_class(class, #[trigger] s[i])
}

/// The pieces of `s` between the characters of `class`.
pub open spec fn pieces(s: Seq<char>, class: Class) -> Seq<Seq<char>>
    decreases s.len(),
    via pieces_decreases
{
    let i = first_in(s, class) as int;
    if i == s.len() {
        seq![s]
    } else {
        seq![s.take(i)] + pieces(s.skip(i + 1), class)
    }
}

#[via_fn]
proof fn pieces_decreases(s: Seq<char>, class: Class) {
    lemma_first_in(s, class);
}

/// The words of `s`: its maximal runs of characters that are not whitespace.
pub open spec fn words(s: Seq<char>) -> Seq<Seq<char>> {
    pieces(s, Class::Whitespace).filter(|piece: Seq<char>| piece.len() > 0)
}

/// One line without the carriage return that ends it.
pub open spec fn without_carriage_return(line: Seq<char>) -> Seq<char> {
    if line.len() > 0 && line.last() == '\r' {
        line.drop_last()
    } else {
        line
    }
}

/// The lines of `s`. A line ends at `\n` or `\r\n`; the last one need not end at all.
pub open spec fn line_seq(s: Seq<char>) -> Seq<Seq<char>>
    decreases s.len(),
    via line_seq_decreases
{
    let i = first_in(s, Class::Is('\n')) as int;
    if s.len() == 0 {
        seq![]
    } else if i == s.len() {
        seq![s]
    } else {
        seq![without_carriage_return(s.take(i))] + line_seq(s.skip(i + 1))
    }
}

#[via_fn]
proof fn line_seq_decreases(s: Seq<char>) {
    lemma_first_in(s, Class::Is('\n'));
}

/// `s` without leading whitespace.
pub open spec fn trimmed_start(s: Seq<char>) -> Seq<char>
    decreases s.len(),
{
    if s.len() > 0 && is_whitespace(s[0]) {
        trimmed_start(s.drop_first())
    } else {
        s
    }
}

/// `s` without trailing whitespace.
pub open spec fn trimmed_end(s: Seq<char>) -> Seq<char>
    decreases s.len(),
{
    if s.len() > 0 && is_whitespace(s.last()) {
        trimmed_end(s.drop_last())
    } else {
        s
    }
}

/// `s` without leading and trailing whitespace.
pub open spec fn trimmed(s: Seq<char>) -> Seq<char> {
    trimmed_end(trimmed_start(s))
}

/// The parts with `separator` between each two of them.
pub open spec fn joined(parts: Seq<Seq<char>>, separator: Seq<char>) -> Seq<char>
    decreases parts.len(),
{
    if parts.len() == 0 {
        seq![]
    } else if parts.len() == 1 {
        parts[0]
    } else {
        joined(parts.drop_last(), separator) + separator + parts.last()
    }
}

/// `s` with every `from` replaced by `to`.
pub open spec fn replaced(s: Seq<char>, from: char, to: Seq<char>) -> Seq<char>
    decreases s.len(),
{
    if s.len() == 0 {
        seq![]
    } else {
        replaced(s.drop_last(), from, to) + (if s.last() == from {
            to
        } else {
            seq![s.last()]
        })
    }
}

/// Whether `needle` occurs in `s`.
pub open spec fn has_slice(s: Seq<char>, needle: Seq<char>) -> bool {
    exists|i: int|
        0 <= i <= s.len() - needle.len() && #[trigger] s.subrange(i, i + needle.len()) == needle
}

/// The number a sequence of decimal digits writes down.
pub open spec fn number(s: Seq<char>) -> nat
    decreases s.len(),
{
    if s.len() == 0 {
        0
    } else {
        number(s.drop_last()) * 10 + (s.last() as int - '0' as int) as nat
    }
}

pub open spec fn all_digits(s: Seq<char>) -> bool {
    s.len() > 0 && forall|i: int| 0 <= i < s.len() ==> is_digit(#[trigger] s[i])
}

/// The value of an unsigned decimal number, as `str::parse` reads it: digits after an optional
/// `+`, no larger than `max`.
pub open spec fn parsed(s: Seq<char>, max: nat) -> Option<nat> {
    let digits = if s.len() > 0 && s[0] == '+' {
        s.drop_first()
    } else {
        s
    };
    if all_digits(digits) && number(digits) <= max {
        Some(number(digits))
    } else {
        None
    }
}

/// The decimal digits of `n`.
pub open spec fn decimal(n: nat) -> Seq<char>
    decreases n,
{
    if n < 10 {
        seq![digit_char(n)]
    } else {
        decimal(n / 10).push(digit_char(n % 10))
    }
}

pub open spec fn digit_char(d: nat) -> char {
    (d + '0' as nat) as char
}

pub open spec fn ascii_lower(c: char) -> char {
    if is_upper(c) {
        (c as u32 + 32) as char
    } else {
        c
    }
}

pub open spec fn ascii_upper(c: char) -> char {
    if is_lower(c) {
        (c as u32 - 32) as char
    } else {
        c
    }
}

pub open spec fn ascii_lowered(s: Seq<char>) -> Seq<char> {
    s.map_values(|c: char| ascii_lower(c))
}

pub open spec fn ascii_uppered(s: Seq<char>) -> Seq<char> {
    s.map_values(|c: char| ascii_upper(c))
}

pub open spec fn is_ascii_text(s: Seq<char>) -> bool {
    forall|i: int| 0 <= i < s.len() ==> #[trigger] s[i] <= '\u{7f}'
}

/// The order of strings: by the first character in which they differ, a prefix first.
pub open spec fn lex_less(a: Seq<char>, b: Seq<char>) -> bool
    decreases a.len(),
{
    if b.len() == 0 {
        false
    } else if a.len() == 0 {
        true
    } else if a[0] != b[0] {
        a[0] < b[0]
    } else {
        lex_less(a.drop_first(), b.drop_first())
    }
}

pub proof fn lemma_first_in(s: Seq<char>, class: Class)
    ensures
        first_in(s, class) <= s.len(),
        forall|i: int| 0 <= i < first_in(s, class) ==> !in_class(class, #[trigger] s[i]),
        first_in(s, class) < s.len() ==> in_class(class, s[first_in(s, class) as int]),
    decreases s.len(),
{
    if s.len() > 0 && !in_class(class, s[0]) {
        let rest = s.drop_first();
        lemma_first_in(rest, class);
        assert forall|i: int| 0 <= i < first_in(s, class) implies !in_class(
            class,
            #[trigger] s[i],
        ) by {
            if i > 0 {
                assert(s[i] == rest[i - 1]);
            }
        }
    }
}

/// `String::push` appends one character.
pub assume_specification[ String::push ](s: &mut String, c: char)
    ensures
        final(s)@ == old(s)@.push(c),
;

pub fn char_in(class: Class, c: char) -> (res: bool)
    ensures
        res == in_class(class, c),
{
    match class {
        Class::Is(it) => c == it,
        Class::Whitespace => char_is_whitespace(c),
        Class::VersionSeparator => c == '.' || c == '-',
        Class::PathSeparator => c == '/' || c == '\\',
    }
}

pub fn char_is_whitespace(c: char) -> (res: bool)
    ensures
        res == is_whitespace(c),
{
    ('\u{9}' <= c && c <= '\u{d}') || c == ' ' || c == '\u{85}' || c == '\u{a0}' || c == '\u{1680}'
        || ('\u{2000}' <= c && c <= '\u{200a}') || c == '\u{2028}' || c == '\u{2029}' || c
        == '\u{202f}' || c == '\u{205f}' || c == '\u{3000}'
}

pub fn char_is_digit(c: char) -> (res: bool)
    ensures
        res == is_digit(c),
{
    '0' <= c && c <= '9'
}

pub fn char_is_alphanumeric(c: char) -> (res: bool)
    ensures
        res == is_alphanumeric(c),
{
    ('0' <= c && c <= '9') || ('a' <= c && c <= 'z') || ('A' <= c && c <= 'Z')
}

/// The characters of `s`.
pub fn chars_of(s: &str) -> (res: Vec<char>)
    ensures
        res@ == s@,
{
    let mut res: Vec<char> = Vec::new();
    for c in iter: s.chars()
        invariant
            iter.seq() == s@,
            res@ == s@.take(iter.index() as int),
    {
        res.push(c);
    }
    proof {
        assert(s@.take(s@.len() as int) =~= s@);
    }
    res
}

/// The string of the characters `cs[from..to]`.
pub fn string_of(cs: &Vec<char>, from: usize, to: usize) -> (res: String)
    requires
        from <= to <= cs.len(),
    ensures
        res@ == cs@.subrange(from as int, to as int),
{
    let mut res = String::new();
    let mut i: usize = from;
    while i < to
        invariant
            from <= i <= to <= cs.len(),
            res@ == cs@.subrange(from as int, i as int),
        decreases to - i,
    {
        res.push(cs[i]);
        proof {
            assert(cs@.subrange(from as int, i + 1) =~= cs@.subrange(from as int, i as int).push(
                cs@[i as int],
            ));
        }
        i += 1;
    }
    res
}

/// A copy of `strings`.
pub fn copies(strings: &Vec<String>) -> (res: Vec<String>)
    ensures
        res@ == strings@,
{
    let mut res: Vec<String> = Vec::new();
    let mut i: usize = 0;
    while i < strings.len()
        invariant
            i <= strings.len(),
            res@ == strings@.take(i as int),
        decreases strings.len() - i,
    {
        res.push(strings[i].clone());
        i += 1;
    }
    proof {
        assert(strings@.take(strings@.len() as int) =~= strings@);
    }
    res
}

/// A copy of an optional string.
pub fn copy_of(s: &Option<String>) -> (res: Option<String>)
    ensures
        res == *s,
{
    match s {
        Some(s) => Some(s.clone()),
        None => None,
    }
}

pub fn equal(a: &str, b: &str) -> (res: bool)
    ensures
        res == (a@ == b@),
{
    a.to_owned() == b.to_owned()
}

/// The texts one after the other.
pub fn cat2(a: &str, b: &str) -> (res: String)
    ensures
        res@ == a@ + b@,
{
    let mut res = a.to_owned();
    res.append(b);
    res
}

/// The texts one after the other.
pub fn cat3(a: &str, b: &str, c: &str) -> (res: String)
    ensures
        res@ == a@ + b@ + c@,
{
    let mut res = a.to_owned();
    res.append(b);
    res.append(c);
    res
}

/// The texts one after the other.
pub fn cat4(a: &str, b: &str, c: &str, d: &str) -> (res: String)
    ensures
        res@ == a@ + b@ + c@ + d@,
{
    let mut res = a.to_owned();
    res.append(b);
    res.append(c);
    res.append(d);
    res
}

/// The texts one after the other.
pub fn cat5(a: &str, b: &str, c: &str, d: &str, e: &str) -> (res: String)
    ensures
        res@ == a@ + b@ + c@ + d@ + e@,
{
    let mut res = a.to_owned();
    res.append(b);
    res.append(c);
    res.append(d);
    res.append(e);
    res
}

/// The texts one after the other.
pub fn cat6(a: &str, b: &str, c: &str, d: &str, e: &str, f: &str) -> (res: String)
    ensures
        res@ == a@ + b@ + c@ + d@ + e@ + f@,
{
    let mut res = a.to_owned();
    res.append(b);
    res.append(c);
    res.append(d);
    res.append(e);
    res.append(f);
    res
}

/// The texts one after the other.
pub fn cat7(a: &str, b: &str, c: &str, d: &str, e: &str, f: &str, g: &str) -> (res: String)
    ensures
        res@ == a@ + b@ + c@ + d@ + e@ + f@ + g@,
{
    let mut res = a.to_owned();
    res.append(b);
    res.append(c);
    res.append(d);
    res.append(e);
    res.append(f);
    res.append(g);
    res
}

fn matches_at(cs: &Vec<char>, at: usize, part: &Vec<char>) -> (res: bool)
    requires
        at <= cs.len(),
    ensures
        res == (at + part.len() <= cs.len() && cs@.subrange(at as int, at + part.len()) == part@),
{
    if part.len() > cs.len() - at {
        return false;
    }
    let mut i: usize = 0;
    while i < part.len()
        invariant
            i <= part.len(),
            at + part.len() <= cs.len(),
            forall|j: int| 0 <= j < i ==> cs@[at + j] == #[trigger] part@[j],
        decreases part.len() - i,
    {
        if cs[at + i] != part[i] {
            proof {
                assert(cs@.subrange(at as int, at + part.len())[i as int] != part@[i as int]);
            }
            return false;
        }
        i += 1;
    }
    proof {
        assert(cs@.subrange(at as int, at + part.len()) =~= part@);
    }
    true
}

pub fn starts_with(s: &str, prefix: &str) -> (res: bool)
    ensures
        res == prefix@.is_prefix_of(s@),
{
    matches_at(&chars_of(s), 0, &chars_of(prefix))
}

pub fn ends_with(s: &str, suffix: &str) -> (res: bool)
    ensures
        res == suffix@.is_suffix_of(s@),
{
    let cs = chars_of(s);
    let part = chars_of(suffix);
    part.len() <= cs.len() && matches_at(&cs, cs.len() - part.len(), &part)
}

/// What follows `prefix` in `s`, if `s` starts with it.
pub open spec fn after_prefix(s: Seq<char>, prefix: Seq<char>) -> Option<Seq<char>> {
    if prefix.is_prefix_of(s) {
        Some(s.skip(prefix.len() as int))
    } else {
        None
    }
}

/// The view of an optional string.
pub open spec fn opt_text(s: Option<String>) -> Option<Seq<char>> {
    match s {
        Some(s) => Some(s@),
        None => None,
    }
}

pub open spec fn opt_str(s: Option<&str>) -> Option<Seq<char>> {
    match s {
        Some(s) => Some(s@),
        None => None,
    }
}

pub fn strip_prefix(s: &str, prefix: &str) -> (res: Option<String>)
    ensures
        opt_text(res) == after_prefix(s@, prefix@),
{
    let cs = chars_of(s);
    let part = chars_of(prefix);
    if matches_at(&cs, 0, &part) {
        let res = string_of(&cs, part.len(), cs.len());
        proof {
            assert(res@ =~= s@.skip(prefix@.len() as int));
        }
        Some(res)
    } else {
        None
    }
}

pub fn contains(s: &str, needle: &str) -> (res: bool)
    ensures
        res == has_slice(s@, needle@),
{
    let cs = chars_of(s);
    let part = chars_of(needle);
    if part.len() > cs.len() {
        return false;
    }
    let last: usize = cs.len() - part.len();
    let mut i: usize = 0;
    loop
        invariant
            cs@ == s@,
            part@ == needle@,
            last == s@.len() - needle@.len(),
            i <= last,
            forall|j: int| 0 <= j < i ==> #[trigger] s@.subrange(j, j + needle@.len()) != needle@,
        decreases last - i,
    {
        if matches_at(&cs, i, &part) {
            return true;
        }
        if i == last {
            return false;
        }
        i += 1;
    }
}

/// The index of the first character of `class` in `cs` from `start` on.
pub fn find_from(cs: &Vec<char>, start: usize, class: Class) -> (res: usize)
    requires
        start <= cs.len(),
    ensures
        start <= res <= cs.len(),
        res == start + first_in(cs@.skip(start as int), class),
{
    let mut i: usize = start;
    while i < cs.len()
        invariant
            start <= i <= cs.len(),
            first_in(cs@.skip(start as int), class) == i - start + first_in(
                cs@.skip(i as int),
                class,
            ),
        decreases cs.len() - i,
    {
        proof {
            assert(cs@.skip(i as int)[0] == cs@[i as int]);
            assert(cs@.skip(i as int).drop_first() =~= cs@.skip(i + 1));
        }
        if char_in(class, cs[i]) {
            return i;
        }
        i += 1;
    }
    i
}

pub fn has_char_in(s: &str, class: Class) -> (res: bool)
    ensures
        res == has_class(s@, class),
{
    let cs = chars_of(s);
    let i = find_from(&cs, 0, class);
    proof {
        assert(cs@.skip(0) =~= cs@);
        lemma_first_in(s@, class);
        if i < cs.len() {
            assert(in_class(class, s@[i as int]));
        }
    }
    i < cs.len()
}

/// Cuts `s` at every character of `class`.
pub fn split(s: &str, class: Class) -> (res: Vec<String>)
    ensures
        texts(res@) == pieces(s@, class),
{
    let cs = chars_of(s);
    let mut res: Vec<String> = Vec::new();
    let mut start: usize = 0;
    proof {
        assert(s@.skip(0) =~= s@);
        assert(texts(res@) + pieces(s@, class) =~= pieces(s@, class));
    }
    loop
        invariant
            cs@ == s@,
            start <= cs.len(),
            pieces(s@, class) == texts(res@) + pieces(s@.skip(start as int), class),
        decreases cs.len() - start,
    {
        let end = find_from(&cs, start, class);
        let ghost before = res@;
        let ghost rest = s@.skip(start as int);
        res.push(string_of(&cs, start, end));
        proof {
            lemma_first_in(rest, class);
            assert(texts(res@) =~= texts(before).push(s@.subrange(start as int, end as int)));
            assert(s@.subrange(start as int, end as int) =~= rest.take(end - start));
        }
        if end == cs.len() {
            proof {
                assert(rest.take(end - start) =~= rest);
                assert(texts(res@) =~= texts(before) + pieces(rest, class));
            }
            return res;
        }
        proof {
            assert(s@.skip(end + 1) =~= rest.skip(end - start + 1));
            assert(texts(res@) + pieces(s@.skip(end + 1), class) =~= texts(before) + pieces(
                rest,
                class,
            ));
        }
        start = end + 1;
    }
}

/// Splits `s` into its words.
pub fn split_whitespace(s: &str) -> (res: Vec<String>)
    ensures
        texts(res@) == words(s@),
{
    let all = split(s, Class::Whitespace);
    let ghost nonempty = |piece: Seq<char>| piece.len() > 0;
    let mut res: Vec<String> = Vec::new();
    let mut i: usize = 0;
    proof {
        reveal(Seq::filter);
        assert(texts(all@).take(0) =~= seq![]);
        assert(texts(res@) =~= seq![]);
    }
    while i < all.len()
        invariant
            i <= all.len(),
            texts(res@) == texts(all@).take(i as int).filter(nonempty),
            nonempty == (|piece: Seq<char>| piece.len() > 0),
        decreases all.len() - i,
    {
        let ghost before = texts(res@);
        proof {
            reveal(Seq::filter);
            assert(texts(all@).take(i + 1).drop_last() =~= texts(all@).take(i as int));
        }
        if !all[i].as_str().is_empty() {
            res.push(all[i].clone());
            proof {
                assert(texts(res@) =~= before.push(all@[i as int]@));
            }
        }
        i += 1;
    }
    proof {
        assert(texts(all@).take(all.len() as int) =~= texts(all@));
    }
    res
}

/// Splits `s` into its lines.
pub fn lines(s: &str) -> (res: Vec<String>)
    ensures
        texts(res@) == line_seq(s@),
{
    let cs = chars_of(s);
    let mut res: Vec<String> = Vec::new();
    let mut start: usize = 0;
    proof {
        assert(s@.skip(0) =~= s@);
        assert(texts(res@) + line_seq(s@) =~= line_seq(s@));
    }
    while start < cs.len()
        invariant
            cs@ == s@,
            start <= cs.len(),
            line_seq(s@) == texts(res@) + line_seq(s@.skip(start as int)),
        decreases cs.len() - start,
    {
        let end = find_from(&cs, start, Class::Is('\n'));
        let ghost before = texts(res@);
        let ghost rest = s@.skip(start as int);
        proof {
            lemma_first_in(rest, Class::Is('\n'));
            assert(s@.subrange(start as int, end as int) =~= rest.take(end - start));
        }
        if end == cs.len() {
            res.push(string_of(&cs, start, end));
            proof {
                assert(rest.take(end - start) =~= rest);
                assert(texts(res@) =~= before + line_seq(rest));
            }
            return res;
        }
        let stop: usize = if end > start && cs[end - 1] == '\r' {
            end - 1
        } else {
            end
        };
        res.push(string_of(&cs, start, stop));
        proof {
            let line = rest.take(end - start);
            assert(s@.subrange(start as int, stop as int) =~= without_carriage_return(line));
            assert(s@.skip(end + 1) =~= rest.skip(end - start + 1));
            assert(texts(res@) =~= before.push(without_carriage_return(line)));
            assert(texts(res@) + line_seq(s@.skip(end + 1)) =~= before + line_seq(rest));
        }
        start = end + 1;
    }
    proof {
        assert(s@.skip(start as int) =~= seq![]);
        assert(texts(res@) + line_seq(s@.skip(start as int)) =~= texts(res@));
    }
    res
}

/// `s` without the whitespace around it.
pub fn trim(s: &str) -> (res: String)
    ensures
        res@ == trimmed(s@),
{
    let cs = chars_of(s);
    let mut from: usize = 0;
    proof {
        assert(s@.skip(0) =~= s@);
    }
    while from < cs.len() && char_is_whitespace(cs[from])
        invariant
            cs@ == s@,
            from <= cs.len(),
            trimmed_start(s@) == trimmed_start(s@.skip(from as int)),
        decreases cs.len() - from,
    {
        proof {
            assert(s@.skip(from as int).drop_first() =~= s@.skip(from + 1));
        }
        from += 1;
    }
    let ghost rest = s@.skip(from as int);
    proof {
        assert(trimmed_start(s@) == rest);
        assert(rest.take(rest.len() as int) =~= rest);
    }
    let mut to: usize = cs.len();
    while from < to && char_is_whitespace(cs[to - 1])
        invariant
            cs@ == s@,
            from <= to <= cs.len(),
            rest == s@.skip(from as int),
            trimmed_end(rest) == trimmed_end(rest.take(to - from)),
        decreases to - from,
    {
        proof {
            let part = rest.take(to - from);
            assert(part.last() == cs@[to - 1]);
            assert(part.drop_last() =~= rest.take(to - 1 - from));
        }
        to -= 1;
    }
    proof {
        let part = rest.take(to - from);
        if from < to {
            assert(part.last() == cs@[to - 1]);
        }
        assert(trimmed_end(part) == part);
        assert(cs@.subrange(from as int, to as int) =~= part);
    }
    string_of(&cs, from, to)
}

/// Joins `parts` with `separator`.
pub fn join(parts: &Vec<String>, separator: &str) -> (res: String)
    ensures
        res@ == joined(texts(parts@), separator@),
{
    let mut res = String::new();
    let mut i: usize = 0;
    proof {
        assert(texts(parts@).take(0) =~= seq![]);
    }
    while i < parts.len()
        invariant
            i <= parts.len(),
            res@ == joined(texts(parts@).take(i as int), separator@),
        decreases parts.len() - i,
    {
        proof {
            assert(texts(parts@).take(i + 1).drop_last() =~= texts(parts@).take(i as int));
        }
        if i > 0 {
            res.append(separator);
            res.append(parts[i].as_str());
        } else {
            res.append(parts[i].as_str());
            proof {
                assert(res@ =~= parts@[0]@);
            }
        }
        i += 1;
    }
    proof {
        assert(texts(parts@).take(parts.len() as int) =~= texts(parts@));
    }
    res
}

/// `s` with every `from` replaced by `to`.
pub fn replace_char(s: &str, from: char, to: &str) -> (res: String)
    ensures
        res@ == replaced(s@, from, to@),
{
    let cs = chars_of(s);
    let mut res = String::new();
    let mut i: usize = 0;
    while i < cs.len()
        invariant
            cs@ == s@,
            i <= cs.len(),
            res@ == replaced(s@.take(i as int), from, to@),
        decreases cs.len() - i,
    {
        let ghost before = res@;
        proof {
            assert(s@.take(i + 1).drop_last() =~= s@.take(i as int));
        }
        if cs[i] == from {
            res.append(to);
        } else {
            res.push(cs[i]);
            proof {
                assert(before.push(cs@[i as int]) =~= before + seq![cs@[i as int]]);
            }
        }
        i += 1;
    }
    proof {
        assert(s@.take(s@.len() as int) =~= s@);
    }
    res
}

/// Cuts `s` at the first `at`: what stands before it, and what stands after it.
pub open spec fn split_once_of(s: Seq<char>, at: char) -> Option<(Seq<char>, Seq<char>)> {
    let i = first_in(s, Class::Is(at)) as int;
    if i == s.len() {
        None
    } else {
        Some((s.take(i), s.skip(i + 1)))
    }
}

pub fn split_once(s: &str, at: char) -> (res: Option<(String, String)>)
    ensures
        match res {
            Some((before, after)) => split_once_of(s@, at) == Some((before@, after@)),
            None => split_once_of(s@, at) is None,
        },
{
    let cs = chars_of(s);
    let i = find_from(&cs, 0, Class::Is(at));
    proof {
        assert(s@.skip(0) =~= s@);
        lemma_first_in(s@, Class::Is(at));
    }
    if i == cs.len() {
        return None;
    }
    let before = string_of(&cs, 0, i);
    let after = string_of(&cs, i + 1, cs.len());
    proof {
        assert(before@ =~= s@.take(i as int));
        assert(after@ =~= s@.skip(i + 1));
    }
    Some((before, after))
}

/// The value of the digits `cs[from..]`, if there are any and nothing else, and the value is at
/// most `max`.
fn number_from(cs: &Vec<char>, from: usize, max: u64) -> (res: Option<u64>)
    requires
        from <= cs.len(),
        9 <= max,
    ensures
        match res {
            Some(n) => all_digits(cs@.skip(from as int)) && n == number(cs@.skip(from as int)) && n
                <= max,
            None => !(all_digits(cs@.skip(from as int)) && number(cs@.skip(from as int)) <= max),
        },
{
    let ghost digits = cs@.skip(from as int);
    if from == cs.len() {
        return None;
    }
    let mut i: usize = from;
    let mut value: u64 = 0;
    proof {
        assert(digits.take(0) =~= seq![]);
    }
    while i < cs.len()
        invariant
            from <= i <= cs.len(),
            9 <= max,
            digits == cs@.skip(from as int),
            value == number(digits.take(i - from)),
            value <= max,
            forall|j: int| 0 <= j < i - from ==> is_digit(#[trigger] digits[j]),
        decreases cs.len() - i,
    {
        let c = cs[i];
        proof {
            assert(digits[i - from] == c);
            assert(digits.take(i + 1 - from).drop_last() =~= digits.take(i - from));
            assert(digits.take(digits.len() as int) =~= digits);
        }
        if !char_is_digit(c) {
            return None;
        }
        let digit: u64 = (c as u32 - '0' as u32) as u64;
        if value > max / 10 || value * 10 > max - digit {
            proof {
                assert(number(digits.take(i + 1 - from)) > max);
                lemma_number_monotone(digits, i + 1 - from);
            }
            return None;
        }
        value = value * 10 + digit;
        i += 1;
    }
    proof {
        assert(digits.take(digits.len() as int) =~= digits);
    }
    Some(value)
}

proof fn lemma_number_monotone(s: Seq<char>, n: int)
    requires
        0 <= n <= s.len(),
    ensures
        number(s.take(n)) <= number(s),
    decreases s.len(),
{
    if n == s.len() {
        assert(s.take(n) =~= s);
    } else {
        assert(s.drop_last().take(n) =~= s.take(n));
        lemma_number_monotone(s.drop_last(), n);
    }
}

/// `str::parse` to an unsigned number of at most `max`.
fn parse_up_to(s: &str, max: u64) -> (res: Option<u64>)
    requires
        9 <= max,
    ensures
        match res {
            Some(n) => n <= max && parsed(s@, max as nat) == Some(n as nat),
            None => parsed(s@, max as nat) is None,
        },
{
    let cs = chars_of(s);
    if cs.len() > 0 && cs[0] == '+' {
        proof {
            assert(s@.skip(1) =~= s@.drop_first());
        }
        number_from(&cs, 1, max)
    } else {
        proof {
            assert(s@.skip(0) =~= s@);
        }
        number_from(&cs, 0, max)
    }
}

/// The value `str::parse::<u32>` reads.
pub open spec fn parsed_u32(s: Seq<char>) -> Option<u32> {
    match parsed(s, u32::MAX as nat) {
        Some(n) => Some(n as u32),
        None => None,
    }
}

/// `str::parse::<u32>`.
pub fn parse_u32(s: &str) -> (res: Option<u32>)
    ensures
        res == parsed_u32(s@),
{
    match parse_up_to(s, u32::MAX as u64) {
        Some(n) => Some(n as u32),
        None => None,
    }
}

/// A number written with digits alone, if it fits in 64 bits.
pub open spec fn plain_number(s: Seq<char>) -> Option<u64> {
    if all_digits(s) && number(s) <= u64::MAX {
        Some(number(s) as u64)
    } else {
        None
    }
}

pub fn parse_plain_number(s: &str) -> (res: Option<u64>)
    ensures
        res == plain_number(s@),
{
    let cs = chars_of(s);
    proof {
        assert(s@.skip(0) =~= s@);
    }
    number_from(&cs, 0, u64::MAX)
}

/// The decimal digits of `n`.
pub fn decimal_string(n: u64) -> (res: String)
    ensures
        res@ == decimal(n as nat),
    decreases n,
{
    let digit: char = digit_of((n % 10) as u8);
    if n < 10 {
        let mut res = String::new();
        res.push(digit);
        proof {
            assert(res@ =~= decimal(n as nat));
        }
        res
    } else {
        let mut res = decimal_string(n / 10);
        res.push(digit);
        res
    }
}

fn digit_of(d: u8) -> (res: char)
    requires
        d < 10,
    ensures
        res == digit_char(d as nat),
{
    (d + 48u8) as char
}

pub fn to_ascii_lowercase(s: &str) -> (res: String)
    ensures
        res@ == ascii_lowered(s@),
{
    let cs = chars_of(s);
    let mut res = String::new();
    let mut i: usize = 0;
    while i < cs.len()
        invariant
            cs@ == s@,
            i <= cs.len(),
            res@ == ascii_lowered(s@.take(i as int)),
        decreases cs.len() - i,
    {
        let c = cs[i];
        let lower: char = if 'A' <= c && c <= 'Z' {
            (c as u8 + 32u8) as char
        } else {
            c
        };
        let ghost before = res@;
        res.push(lower);
        proof {
            assert(lower == ascii_lower(c));
            assert(res@ =~= ascii_lowered(s@.take(i + 1)));
        }
        i += 1;
    }
    proof {
        assert(s@.take(s@.len() as int) =~= s@);
    }
    res
}

/// Whether `a` stands before `b` in the order of strings.
pub fn less(a: &str, b: &str) -> (res: bool)
    ensures
        res == lex_less(a@, b@),
{
    let x = chars_of(a);
    let y = chars_of(b);
    let mut i: usize = 0;
    proof {
        assert(a@.skip(0) =~= a@);
        assert(b@.skip(0) =~= b@);
    }
    while i < x.len() && i < y.len()
        invariant
            x@ == a@,
            y@ == b@,
            i <= x.len(),
            i <= y.len(),
            lex_less(a@, b@) == lex_less(a@.skip(i as int), b@.skip(i as int)),
        decreases x.len() - i,
    {
        proof {
            assert(a@.skip(i as int).drop_first() =~= a@.skip(i + 1));
            assert(b@.skip(i as int).drop_first() =~= b@.skip(i + 1));
        }
        if x[i] != y[i] {
            return x[i] < y[i];
        }
        i += 1;
    }
    i < y.len()
}

/// What `String::from_utf8_lossy` makes of `bytes`.
pub uninterp spec fn utf8_lossy(bytes: Seq<u8>) -> Seq<char>;

/// `String::from_utf8_lossy`: valid UTF-8 is decoded. How the rest is replaced is left to the
/// name `utf8_lossy`.
#[verifier::external_body]
pub(crate) fn from_utf8_lossy(bytes: &[u8]) -> (res: String)
    ensures
        res@ == utf8_lossy(bytes@),
        vstd::utf8::valid_utf8(bytes@) ==> res@ == vstd::utf8::decode_utf8(bytes@),
{
    String::from_utf8_lossy(bytes).into_owned()
}

/// What `str::to_uppercase` makes of `s`.
pub uninterp spec fn uppercased(s: Seq<char>) -> Seq<char>;

/// `str::to_uppercase`: on ASCII text it maps the letters `a` to `z`. The mapping of other
/// characters is left to the name `uppercased`.
#[verifier::external_body]
pub(crate) fn to_uppercase(s: &str) -> (res: String)
    ensures
        res@ == uppercased(s@),
        is_ascii_text(s@) ==> res@ == ascii_uppered(s@),
{
    s.to_uppercase()
}

pub proof fn lemma_lex_less_irreflexive(a: Seq<char>)
    ensures
        !lex_less(a, a),
    decreases a.len(),
{
    if a.len() > 0 {
        lemma_lex_less_irreflexive(a.drop_first());
    }
}

pub proof fn lemma_lex_less_transitive(a: Seq<char>, b: Seq<char>, c: Seq<char>)
    requires
        lex_less(a, b),
        lex_less(b, c),
    ensures
        lex_less(a, c),
    decreases a.len(),
{
    if a.len() > 0 && a[0] == b[0] && b[0] == c[0] {
        lemma_lex_less_transitive(a.drop_first(), b.drop_first(), c.drop_first());
    }
}

pub proof fn lemma_lex_less_total(a: Seq<char>, b: Seq<char>)
    ensures
        a == b || lex_less(a, b) || lex_less(b, a),
    decreases a.len(),
{
    if a.len() > 0 && b.len() > 0 {
        if a[0] == b[0] {
            lemma_lex_less_total(a.drop_first(), b.drop_first());
            if a.drop_first() == b.drop_first() {
                assert(a =~= seq![a[0]] + a.drop_first());
                assert(b =~= seq![b[0]] + b.drop_first());
            }
        }
    } else if a.len() == 0 && b.len() == 0 {
        assert(a =~= b);
    }
}

/// `first_in` of a text whose first part holds no character of `class`.
pub proof fn lemma_first_in_concat(a: Seq<char>, b: Seq<char>, class: Class)
    requires
        !has_class(a, class),
    ensures
        first_in(a + b, class) == a.len() + first_in(b, class),
    decreases a.len(),
{
    if a.len() == 0 {
        assert(a + b =~= b);
    } else {
        let rest = a.drop_first();
        assert(!in_class(class, a[0]));
        assert((a + b)[0] == a[0]);
        assert((a + b).drop_first() =~= rest + b);
        assert forall|i: int| 0 <= i < rest.len() implies !in_class(class, #[trigger] rest[i]) by {
            assert(rest[i] == a[i + 1]);
        }
        lemma_first_in_concat(rest, b, class);
    }
}

/// The parts with `separator` between each two of them, built from the front.
pub proof fn lemma_joined_front(parts: Seq<Seq<char>>, separator: Seq<char>)
    requires
        parts.len() > 1,
    ensures
        joined(parts, separator) == parts[0] + separator + joined(parts.drop_first(), separator),
    decreases parts.len(),
{
    if parts.len() == 2 {
        assert(parts.drop_last().len() == 1);
        assert(parts.drop_last()[0] == parts[0]);
        assert(parts.drop_first()[0] == parts[1]);
        assert(joined(parts.drop_last(), separator) == parts[0]);
        assert(joined(parts.drop_first(), separator) == parts[1]);
    } else {
        lemma_joined_front(parts.drop_last(), separator);
        let inner = parts.drop_last().drop_first();
        assert(inner =~= parts.drop_first().drop_last());
        assert(parts.drop_last()[0] == parts[0]);
        assert(parts.drop_first().last() == parts.last());
        assert(joined(parts.drop_first(), separator) == joined(inner, separator) + separator
            + parts.last());
        assert(joined(parts, separator) =~= parts[0] + separator + (joined(inner, separator)
            + separator + parts.last()));
    }
}

/// Cutting at a character undoes joining with it, as long as no part holds it.
pub proof fn lemma_split_undoes_join(parts: Seq<Seq<char>>, c: char)
    requires
        parts.len() > 0,
        forall|i: int| 0 <= i < parts.len() ==> !has_class(#[trigger] parts[i], Class::Is(c)),
    ensures
        pieces(joined(parts, seq![c]), Class::Is(c)) == parts,
    decreases parts.len(),
{
    let class = Class::Is(c);
    let whole = joined(parts, seq![c]);
    let head = parts[0];
    assert(!has_class(parts[0], class));
    if parts.len() == 1 {
        lemma_first_in_concat(head, seq![], class);
        assert(head + seq![] =~= head);
        assert(pieces(whole, class) =~= parts);
    } else {
        lemma_joined_front(parts, seq![c]);
        let tail = parts.drop_first();
        assert forall|i: int| 0 <= i < tail.len() implies !has_class(#[trigger] tail[i], class) by {
            assert(tail[i] == parts[i + 1]);
        }
        lemma_split_undoes_join(tail, c);
        let rest = joined(tail, seq![c]);
        let at = head.len() as int;
        assert(whole =~= head + (seq![c] + rest));
        assert(first_in(whole, class) == at) by {
            lemma_first_in_concat(head, seq![c] + rest, class);
            assert((seq![c] + rest)[0] == c);
        }
        assert(whole.take(at) =~= head);
        assert(whole.skip(at + 1) =~= rest);
        assert(pieces(whole, class) == seq![head] + tail);
        assert(seq![head] + tail =~= parts);
    }
}

/// Reading a number back from its decimal digits.
pub proof fn lemma_decimal_is_read_back(n: nat)
    ensures
        all_digits(decimal(n)),
        number(decimal(n)) == n,
        parsed(decimal(n), n) == Some(n),
    decreases n,
{
    let s = decimal(n);
    if n < 10 {
        assert(s.drop_last() =~= seq![]);
        assert(number(s.drop_last()) == 0);
    } else {
        lemma_decimal_is_read_back(n / 10);
        assert(s.drop_last() =~= decimal(n / 10));
        assert forall|i: int| 0 <= i < s.len() implies is_digit(#[trigger] s[i]) by {
            if i < s.len() - 1 {
                assert(s[i] == decimal(n / 10)[i]);
            }
        }
    }
    assert(is_digit(s[0]));
}

} // verus!
