//! Laws of text: what is cut can be put together again, and what is written can be read.

use crate::sort::lemma_filter_last;
use crate::text::{
    after_prefix, all_digits, ascii_lowered, ascii_uppered, decimal, first_in, has_class,
    has_slice, in_class, joined, lemma_decimal_is_read_back, lemma_first_in,
    lemma_first_in_concat, lemma_joined_front, lex_less, line_seq, number, parsed_u32, pieces,
    plain_number, replaced, split_once_of, trimmed, trimmed_end, trimmed_start,
    without_carriage_return, words, Class,
};
use vstd::prelude::*;

verus! {

/// The first piece ends at the first character that the text is cut at.
pub proof fn lemma_first_piece(head: Seq<char>, c: char, rest: Seq<char>, class: Class)
    requires
        in_class(class, c),
        !has_class(head, class),
    ensures
        pieces(head + seq![c] + rest, class) == seq![head] + pieces(rest, class),
        pieces(head, class) == seq![head],
{
    let whole = head + seq![c] + rest;
    let at = head.len() as int;
    assert(whole =~= head + (seq![c] + rest));
    assert(first_in(whole, class) == at) by {
        lemma_first_in_concat(head, seq![c] + rest, class);
        assert((seq![c] + rest)[0] == c);
    }
    assert(whole.take(at) =~= head);
    assert(whole.skip(at + 1) =~= rest);
    lemma_first_in_concat(head, seq![], class);
    assert(head + seq![] =~= head);
}

/// Cutting at the characters of a class undoes joining with one of them, as long as no part holds any.
pub proof fn lemma_cutting_undoes_joining(parts: Seq<Seq<char>>, c: char, class: Class)
    requires
        parts.len() > 0,
        in_class(class, c),
        forall|i: int| 0 <= i < parts.len() ==> !has_class(#[trigger] parts[i], class),
    ensures
        pieces(joined(parts, seq![c]), class) == parts,
    decreases parts.len(),
{
    let head = parts[0];
    if parts.len() == 1 {
        lemma_first_piece(head, c, seq![], class);
        assert(seq![head] =~= parts);
    } else {
        let tail = parts.drop_first();
        lemma_joined_front(parts, seq![c]);
        assert forall|i: int| 0 <= i < tail.len() implies !has_class(#[trigger] tail[i], class) by {
            assert(tail[i] == parts[i + 1]);
        }
        lemma_cutting_undoes_joining(tail, c, class);
        lemma_first_piece(head, c, joined(tail, seq![c]), class);
        assert(seq![head] + tail =~= parts);
    }
}

pub proof fn lemma_filter_keeps_all<A>(s: Seq<A>, p: spec_fn(A) -> bool)
    requires
        forall|i: int| 0 <= i < s.len() ==> p(#[trigger] s[i]),
    ensures
        s.filter(p) == s,
    decreases s.len(),
{
    if s.len() > 0 {
        let front = s.drop_last();
        assert forall|i: int| 0 <= i < front.len() implies p(#[trigger] front[i]) by {
            assert(front[i] == s[i]);
        }
        lemma_filter_keeps_all(front, p);
        lemma_filter_last(s, p);
        assert(p(s[s.len() - 1]));
        assert(front.push(s.last()) =~= s);
    } else {
        reveal(Seq::filter);
        assert(s.filter(p) =~= s);
    }
}

pub proof fn lemma_filter_keeps_none<A>(s: Seq<A>, p: spec_fn(A) -> bool)
    requires
        forall|i: int| 0 <= i < s.len() ==> !p(#[trigger] s[i]),
    ensures
        s.filter(p) == Seq::<A>::empty(),
    decreases s.len(),
{
    if s.len() > 0 {
        let front = s.drop_last();
        assert forall|i: int| 0 <= i < front.len() implies !p(#[trigger] front[i]) by {
            assert(front[i] == s[i]);
        }
        assert(!p(s[s.len() - 1]));
        lemma_filter_last(s, p);
        lemma_filter_keeps_none(front, p);
    } else {
        reveal(Seq::filter);
    }
}

/// What a program takes for whitespace: among the ASCII characters these, the spaces of other scripts,
/// and nothing that is printed.
pub proof fn law_whitespace(c: char)
    ensures
        c <= '\u{7f}' ==> (in_class(Class::Whitespace, c) <==> c == ' ' || c == '\t' || c == '\n' || c
            == '\r' || c == '\u{b}' || c == '\u{c}'),
        c > '\u{7f}' ==> (in_class(Class::Whitespace, c) <==> c == '\u{85}' || c == '\u{a0}' || c
            == '\u{1680}' || '\u{2000}' <= c <= '\u{200a}' || c == '\u{2028}' || c == '\u{2029}' || c
            == '\u{202f}' || c == '\u{205f}' || c == '\u{3000}'),
{
}

/// Words are read back: a list of words with a space between each two of them holds just these words.
pub proof fn law_words_are_read_back(list: Seq<Seq<char>>)
    requires
        forall|i: int|
            0 <= i < list.len() ==> (#[trigger] list[i]).len() > 0 && !has_class(
                list[i],
                Class::Whitespace,
            ),
    ensures
        words(joined(list, " "@)) == list,
{
    let keep = |piece: Seq<char>| piece.len() > 0;
    reveal_strlit(" ");
    assert(" "@ =~= seq![' ']);
    if list.len() == 0 {
        let none = joined(list, " "@);
        assert(none =~= seq![]);
        let cut = pieces(none, Class::Whitespace);
        assert(cut =~= seq![none]);
        lemma_filter_last(cut, keep);
        reveal(Seq::filter);
        assert(cut.drop_last() =~= seq![]);
        assert(cut.filter(keep) =~= seq![]);
        assert(list =~= seq![]);
    } else {
        assert forall|i: int| 0 <= i < list.len() implies !has_class(
            #[trigger] list[i],
            Class::Whitespace,
        ) by {}
        lemma_cutting_undoes_joining(list, ' ', Class::Whitespace);
        lemma_filter_keeps_all(list, keep);
    }
}

/// No piece holds a character that the text is cut at, and with one of those characters between each
/// two of them the pieces are the text again.
pub proof fn law_pieces(s: Seq<char>, c: char)
    ensures
        pieces(s, Class::Is(c)).len() > 0,
        forall|i: int|
            0 <= i < pieces(s, Class::Is(c)).len() ==> !(#[trigger] pieces(s, Class::Is(c))[i]).contains(
                c,
            ),
        joined(pieces(s, Class::Is(c)), seq![c]) == s,
    decreases s.len(),
{
    let class = Class::Is(c);
    let at = first_in(s, class) as int;
    let cut = pieces(s, class);
    lemma_first_in(s, class);
    if at == s.len() {
        assert(cut =~= seq![s]);
        assert forall|k: int| 0 <= k < s.len() implies #[trigger] s[k] != c by {
            assert(!in_class(class, s[k]));
        }
    } else {
        let head = s.take(at);
        let rest = s.skip(at + 1);
        law_pieces(rest, c);
        let tail = pieces(rest, class);
        assert(cut =~= seq![head] + tail);
        assert(cut.drop_first() =~= tail);
        lemma_joined_front(cut, seq![c]);
        assert(in_class(class, s[at]));
        assert(head + seq![c] + rest =~= s);
        assert forall|i: int| 0 <= i < cut.len() implies !(#[trigger] cut[i]).contains(c) by {
            if i == 0 {
                assert forall|k: int| 0 <= k < head.len() implies #[trigger] head[k] != c by {
                    assert(!in_class(class, s[k]));
                }
            } else {
                assert(cut[i] == tail[i - 1]);
            }
        }
    }
}

proof fn lemma_pieces_hold_the_rest(s: Seq<char>, class: Class)
    ensures
        forall|i: int|
            0 <= i < pieces(s, class).len() ==> !has_class(#[trigger] pieces(s, class)[i], class),
        joined(pieces(s, class), seq![]) == s.filter(|c: char| !in_class(class, c)),
        pieces(s, class).len() > 0,
    decreases s.len(),
{
    let other = |c: char| !in_class(class, c);
    let at = first_in(s, class) as int;
    let cut = pieces(s, class);
    lemma_first_in(s, class);
    let head = s.take(at);
    assert forall|k: int| 0 <= k < head.len() implies other(#[trigger] head[k]) by {
        assert(!in_class(class, s[k]));
    }
    lemma_filter_keeps_all(head, other);
    assert(!has_class(head, class)) by {
        assert forall|k: int| 0 <= k < head.len() implies !in_class(class, #[trigger] head[k]) by {
            assert(other(head[k]));
        }
    }
    if at == s.len() {
        assert(cut =~= seq![s]);
        assert(head =~= s);
    } else {
        let rest = s.skip(at + 1);
        let mid = seq![s[at]];
        lemma_pieces_hold_the_rest(rest, class);
        let tail = pieces(rest, class);
        assert(cut =~= seq![head] + tail);
        assert(cut.drop_first() =~= tail);
        lemma_joined_front(cut, seq![]);
        assert(s =~= head + (mid + rest));
        Seq::<char>::filter_distributes_over_add(head, mid + rest, other);
        Seq::<char>::filter_distributes_over_add(mid, rest, other);
        assert(in_class(class, s[at]));
        lemma_filter_keeps_none(mid, other);
        assert(joined(cut, seq![]) =~= head + joined(tail, seq![]));
        assert(s.filter(other) =~= head + rest.filter(other));
        assert forall|i: int| 0 <= i < cut.len() implies !has_class(#[trigger] cut[i], class) by {
            if i > 0 {
                assert(cut[i] == tail[i - 1]);
            }
        }
    }
}

proof fn lemma_empty_parts_say_nothing(parts: Seq<Seq<char>>)
    ensures
        joined(parts.filter(|part: Seq<char>| part.len() > 0), seq![]) == joined(parts, seq![]),
    decreases parts.len(),
{
    let keep = |part: Seq<char>| part.len() > 0;
    if parts.len() == 0 {
        reveal(Seq::filter);
        assert(parts.filter(keep) =~= parts);
    } else {
        let front = parts.drop_last();
        lemma_empty_parts_say_nothing(front);
        lemma_filter_last(parts, keep);
        let kept = front.filter(keep);
        let last = parts.last();
        lemma_joined_behind(front, last);
        if last.len() > 0 {
            lemma_joined_behind(kept, last);
            assert(kept.push(last).drop_last() =~= kept);
        } else {
            assert(joined(front, seq![]) + last =~= joined(front, seq![]));
        }
        assert(front.push(last) =~= parts);
    }
}

proof fn lemma_joined_behind(parts: Seq<Seq<char>>, last: Seq<char>)
    ensures
        joined(parts.push(last), seq![]) == joined(parts, seq![]) + last,
{
    assert(parts.push(last).drop_last() =~= parts);
    if parts.len() == 0 {
        assert(joined(parts, seq![]) + last =~= last);
    } else {
        assert(joined(parts, seq![]) + seq![] + last =~= joined(parts, seq![]) + last);
    }
}

/// The words of a text are all of it but its whitespace, in order: no word is empty or holds
/// whitespace, and nothing is lost.
pub proof fn law_words_are_the_text(s: Seq<char>)
    ensures
        forall|i: int|
            0 <= i < words(s).len() ==> (#[trigger] words(s)[i]).len() > 0 && !has_class(
                words(s)[i],
                Class::Whitespace,
            ),
        joined(words(s), seq![]) == s.filter(|c: char| !in_class(Class::Whitespace, c)),
{
    broadcast use vstd::seq_lib::group_filter_ensures;

    let cut = pieces(s, Class::Whitespace);
    let keep = |piece: Seq<char>| piece.len() > 0;
    lemma_pieces_hold_the_rest(s, Class::Whitespace);
    lemma_empty_parts_say_nothing(cut);
    let free = |piece: Seq<char>| !has_class(piece, Class::Whitespace);
    assert forall|i: int| 0 <= i < cut.len() implies free(#[trigger] cut[i]) by {}
    lemma_filter_keeps_property(cut, keep, free);
    assert forall|i: int| 0 <= i < words(s).len() implies (#[trigger] words(s)[i]).len() > 0
        && !has_class(words(s)[i], Class::Whitespace) by {
        assert(keep(cut.filter(keep)[i]));
        assert(free(cut.filter(keep)[i]));
    }
}

pub proof fn lemma_filter_keeps_property<A>(
    s: Seq<A>,
    p: spec_fn(A) -> bool,
    q: spec_fn(A) -> bool,
)
    requires
        forall|i: int| 0 <= i < s.len() ==> q(#[trigger] s[i]),
    ensures
        forall|i: int| 0 <= i < s.filter(p).len() ==> q(#[trigger] s.filter(p)[i]),
    decreases s.len(),
{
    if s.len() > 0 {
        let front = s.drop_last();
        assert forall|i: int| 0 <= i < front.len() implies q(#[trigger] front[i]) by {
            assert(front[i] == s[i]);
        }
        assert(q(s[s.len() - 1]));
        lemma_filter_keeps_property(front, p, q);
        lemma_filter_last(s, p);
    } else {
        reveal(Seq::filter);
    }
}

/// Joining goes from part to part: nothing alone is nothing, one part alone is that part, and two lists
/// are joined with the separator between them.
pub proof fn law_joining(a: Seq<Seq<char>>, b: Seq<Seq<char>>, part: Seq<char>, separator: Seq<char>)
    requires
        a.len() > 0,
        b.len() > 0,
    ensures
        joined(seq![], separator) == Seq::<char>::empty(),
        joined(seq![part], separator) == part,
        joined(a + b, separator) == joined(a, separator) + separator + joined(b, separator),
    decreases b.len(),
{
    if b.len() == 1 {
        assert((a + b).drop_last() =~= a);
        assert((a + b).last() == b[0]);
    } else {
        let front = b.drop_last();
        law_joining(a, front, part, separator);
        assert((a + b).drop_last() =~= a + front);
        assert((a + b).last() == b.last());
        assert(joined(a + b, separator) =~= joined(a, separator) + separator + joined(b, separator));
    }
}

/// Replacing goes character by character.
pub proof fn law_replacing(a: Seq<char>, b: Seq<char>, c: char, from: char, to: Seq<char>)
    ensures
        replaced(seq![], from, to) == Seq::<char>::empty(),
        replaced(seq![c], from, to) == if c == from {
            to
        } else {
            seq![c]
        },
        replaced(a + b, from, to) == replaced(a, from, to) + replaced(b, from, to),
    decreases b.len(),
{
    reveal_with_fuel(replaced, 2);
    assert(seq![c].drop_last() =~= seq![]);
    assert(replaced(seq![c], from, to) =~= if c == from {
        to
    } else {
        seq![c]
    });
    if b.len() == 0 {
        assert(a + b =~= a);
        assert(replaced(a, from, to) + replaced(b, from, to) =~= replaced(a, from, to));
    } else {
        let front = b.drop_last();
        law_replacing(a, front, c, from, to);
        assert((a + b).drop_last() =~= a + front);
        assert((a + b).last() == b.last());
        assert(replaced(a + b, from, to) =~= replaced(a, from, to) + replaced(b, from, to));
    }
}

/// Replacing one character by another keeps the length of a text, and every other character.
pub proof fn law_replacing_a_character(s: Seq<char>, from: char, to: char)
    ensures
        replaced(s, from, seq![to]).len() == s.len(),
        forall|i: int|
            0 <= i < s.len() ==> #[trigger] replaced(s, from, seq![to])[i] == if s[i] == from {
                to
            } else {
                s[i]
            },
    decreases s.len(),
{
    if s.len() > 0 {
        law_replacing_a_character(s.drop_last(), from, to);
    }
}

/// A number is written in decimal digits: the last is what is left when the number is divided by ten,
/// and those before it are the quotient.
pub proof fn law_decimal(n: nat, d: nat)
    requires
        d < 10,
    ensures
        decimal(d).len() == 1,
        decimal(d)[0] as int == '0' as int + d,
        n > 0 ==> decimal(10 * n + d) == decimal(n) + decimal(d),
{
    if n > 0 {
        assert((10 * n + d) / 10 == n) by (nonlinear_arith)
            requires
                d < 10,
        ;
        assert((10 * n + d) % 10 == d) by (nonlinear_arith)
            requires
                d < 10,
        ;
        assert(decimal(10 * n + d) =~= decimal(n) + decimal(d));
    }
}

/// Numbers are read back, with or without a sign and whatever zeros are in front; what has anything
/// else in it is none.
pub proof fn law_numbers_are_read_back(n: nat, s: Seq<char>)
    ensures
        n <= u32::MAX ==> parsed_u32(decimal(n)) == Some(n as u32),
        n <= u32::MAX ==> parsed_u32(seq!['+'] + decimal(n)) == Some(n as u32),
        n > u32::MAX ==> parsed_u32(decimal(n)) is None,
        n <= u64::MAX ==> plain_number(decimal(n)) == Some(n as u64),
        n > u64::MAX ==> plain_number(decimal(n)) is None,
        parsed_u32(s) is Some ==> s.len() > 0 && forall|i: int|
            0 <= i < s.len() ==> '0' <= #[trigger] s[i] <= '9' || (i == 0 && s[i] == '+'),
        plain_number(s) is Some <==> (s.len() > 0 && (forall|i: int|
            0 <= i < s.len() ==> '0' <= #[trigger] s[i] <= '9') && number(s) <= u64::MAX),
        all_digits(s) ==> number(seq!['0'] + s) == number(s),
{
    lemma_decimal_is_read_back(n);
    let digits = decimal(n);
    assert('0' <= digits[0] <= '9');
    assert((seq!['+'] + digits).drop_first() =~= digits);
    if let Some(_) = parsed_u32(s) {
        if s.len() > 0 && s[0] == '+' {
            let rest = s.drop_first();
            assert forall|i: int| 0 <= i < s.len() implies '0' <= #[trigger] s[i] <= '9' || (i == 0
                && s[i] == '+') by {
                if i > 0 {
                    assert(rest[i - 1] == s[i]);
                }
            }
        }
    }
    if all_digits(s) {
        lemma_leading_zero(s);
    }
}

proof fn lemma_leading_zero(s: Seq<char>)
    ensures
        number(seq!['0'] + s) == number(s),
    decreases s.len(),
{
    let all = seq!['0'] + s;
    if s.len() == 0 {
        reveal_with_fuel(number, 2);
        assert(all.drop_last() =~= seq![]);
    } else {
        lemma_leading_zero(s.drop_last());
        assert(all.drop_last() =~= seq!['0'] + s.drop_last());
        assert(all.last() == s.last());
    }
}

/// Trimming takes away the whitespace at both ends and nothing else.
pub proof fn law_trimming(s: Seq<char>)
    ensures
        exists|a: Seq<char>, b: Seq<char>|
            s == #[trigger] (a + trimmed(s) + b) && all_spaces(a) && all_spaces(b),
        trimmed(s).len() > 0 ==> !in_class(Class::Whitespace, trimmed(s)[0]) && !in_class(
            Class::Whitespace,
            trimmed(s).last(),
        ),
{
    let t = trimmed_start(s);
    lemma_trimmed_start(s);
    lemma_trimmed_end(t);
    let a = s.take(s.len() - t.len());
    let e = trimmed_end(t);
    let b = t.skip(e.len() as int);
    assert(s =~= a + trimmed(s) + b);
    assert(all_spaces(a) && all_spaces(b));
}

/// Whether a text is nothing but whitespace.
pub open spec fn all_spaces(s: Seq<char>) -> bool {
    forall|i: int| 0 <= i < s.len() ==> in_class(Class::Whitespace, #[trigger] s[i])
}

proof fn lemma_trimmed_start(s: Seq<char>)
    ensures
        trimmed_start(s).len() <= s.len(),
        s.skip(s.len() - trimmed_start(s).len()) == trimmed_start(s),
        all_spaces(s.take(s.len() - trimmed_start(s).len())),
        trimmed_start(s).len() > 0 ==> !in_class(Class::Whitespace, trimmed_start(s)[0]),
    decreases s.len(),
{
    let t = trimmed_start(s);
    if s.len() > 0 && in_class(Class::Whitespace, s[0]) {
        let rest = s.drop_first();
        lemma_trimmed_start(rest);
        let n = s.len() - t.len();
        assert(s.skip(n) =~= rest.skip(n - 1));
        let front = s.take(n);
        assert forall|i: int| 0 <= i < front.len() implies in_class(
            Class::Whitespace,
            #[trigger] front[i],
        ) by {
            if i > 0 {
                assert(front[i] == rest.take(n - 1)[i - 1]);
            }
        }
    } else {
        assert(s.skip(0) =~= s);
    }
}

proof fn lemma_trimmed_end(s: Seq<char>)
    ensures
        trimmed_end(s).len() <= s.len(),
        s.take(trimmed_end(s).len() as int) == trimmed_end(s),
        all_spaces(s.skip(trimmed_end(s).len() as int)),
        trimmed_end(s).len() > 0 ==> !in_class(Class::Whitespace, trimmed_end(s).last()),
    decreases s.len(),
{
    let t = trimmed_end(s);
    if s.len() > 0 && in_class(Class::Whitespace, s.last()) {
        let rest = s.drop_last();
        lemma_trimmed_end(rest);
        let n = t.len() as int;
        assert(s.take(n) =~= rest.take(n));
        let tail = s.skip(n);
        assert forall|i: int| 0 <= i < tail.len() implies in_class(
            Class::Whitespace,
            #[trigger] tail[i],
        ) by {
            if i < tail.len() - 1 {
                assert(tail[i] == rest.skip(n)[i]);
            }
        }
    } else {
        assert(s.take(s.len() as int) =~= s);
    }
}

/// Changing the case keeps a text as it is but for its ASCII letters of the other case.
pub proof fn law_case(s: Seq<char>, i: int)
    requires
        0 <= i < s.len(),
    ensures
        ascii_lowered(s).len() == s.len(),
        ascii_uppered(s).len() == s.len(),
        'A' <= s[i] <= 'Z' ==> ascii_lowered(s)[i] as int == s[i] as int - 'A' as int + 'a' as int,
        !('A' <= s[i] <= 'Z') ==> ascii_lowered(s)[i] == s[i],
        'a' <= s[i] <= 'z' ==> ascii_uppered(s)[i] as int == s[i] as int - 'a' as int + 'A' as int,
        !('a' <= s[i] <= 'z') ==> ascii_uppered(s)[i] == s[i],
{
}

/// Texts are ordered as in a dictionary: the first character that differs decides, and a text comes
/// before those it is the beginning of.
pub proof fn law_dictionary_order(start: Seq<char>, x: char, y: char, a: Seq<char>, b: Seq<char>)
    ensures
        x != y ==> lex_less(start + seq![x] + a, start + seq![y] + b) == (x < y),
        lex_less(start, start + seq![x] + a),
        !lex_less(start + seq![x] + a, start),
        !lex_less(start, start),
    decreases start.len(),
{
    let one = start + seq![x] + a;
    let two = start + seq![y] + b;
    if start.len() > 0 {
        let rest = start.drop_first();
        law_dictionary_order(rest, x, y, a, b);
        assert(one.drop_first() =~= rest + seq![x] + a);
        assert(two.drop_first() =~= rest + seq![y] + b);
        assert(one[0] == start[0] && two[0] == start[0]);
    } else {
        assert(one[0] == x && two[0] == y);
    }
}

/// What stands behind a prefix, in a text that has one.
pub proof fn law_prefixes(s: Seq<char>, prefix: Seq<char>, rest: Seq<char>)
    ensures
        after_prefix(prefix + rest, prefix) == Some(rest),
        after_prefix(s, prefix) matches Some(tail) ==> s == prefix + tail,
{
    assert((prefix + rest).skip(prefix.len() as int) =~= rest);
    assert(prefix.is_prefix_of(prefix + rest));
    if let Some(tail) = after_prefix(s, prefix) {
        assert(s =~= prefix + tail);
    }
}

/// A text holds another if it has it in its middle, and only then.
pub proof fn law_slices(s: Seq<char>, before: Seq<char>, needle: Seq<char>, after: Seq<char>)
    ensures
        has_slice(before + needle + after, needle),
        has_slice(s, needle) ==> exists|a: Seq<char>, b: Seq<char>|
            s == #[trigger] (a + needle + b),
{
    let whole = before + needle + after;
    let at = before.len() as int;
    assert(whole.subrange(at, at + needle.len()) =~= needle);
    if has_slice(s, needle) {
        let i = choose|i: int|
            0 <= i <= s.len() - needle.len() && #[trigger] s.subrange(i, i + needle.len()) == needle;
        let a = s.take(i);
        let b = s.skip(i + needle.len());
        assert(s =~= a + needle + b);
    }
}

/// A text is cut in two at the first of its characters that is the one to cut at.
pub proof fn law_cutting_in_two(s: Seq<char>, at: char, before: Seq<char>, after: Seq<char>)
    requires
        !before.contains(at),
    ensures
        split_once_of(before + seq![at] + after, at) == Some((before, after)),
        split_once_of(s, at) is None ==> !s.contains(at),
{
    let class = Class::Is(at);
    assert(!has_class(before, class)) by {
        assert forall|i: int| 0 <= i < before.len() implies !in_class(class, #[trigger] before[i]) by {
            assert(before.contains(before[i]));
        }
    }
    let whole = before + seq![at] + after;
    lemma_first_in_concat(before, seq![at] + after, class);
    assert(whole =~= before + (seq![at] + after));
    assert((seq![at] + after)[0] == at);
    assert(whole.take(before.len() as int) =~= before);
    assert(whole.skip(before.len() as int + 1) =~= after);
    lemma_first_in(s, class);
    if split_once_of(s, at) is None {
        assert forall|i: int| 0 <= i < s.len() implies #[trigger] s[i] != at by {
            assert(!in_class(class, s[i]));
        }
    }
}

/// A text is cut into lines at its line feeds, with or without a carriage return in front; what is
/// behind the last of them is a line if there is anything.
pub proof fn law_lines(line: Seq<char>, more: Seq<char>)
    requires
        !line.contains('\n'),
    ensures
        line_seq(seq![]) == Seq::<Seq<char>>::empty(),
        line.len() > 0 ==> line_seq(line) == seq![line],
        line.len() == 0 || line.last() != '\r' ==> line_seq(line + seq!['\n'] + more) == seq![line]
            + line_seq(more),
        line_seq(line + seq!['\r', '\n'] + more) == seq![line] + line_seq(more),
{
    let class = Class::Is('\n');
    assert(!has_class(line, class)) by {
        assert forall|i: int| 0 <= i < line.len() implies !in_class(class, #[trigger] line[i]) by {
            assert(line.contains(line[i]));
        }
    }
    lemma_first_in_concat(line, seq![], class);
    assert(line + seq![] =~= line);
    lemma_one_line(line, more);
    let with = line.push('\r');
    assert(!has_class(with, class)) by {
        assert forall|i: int| 0 <= i < with.len() implies !in_class(class, #[trigger] with[i]) by {
            if i < line.len() {
                assert(with[i] == line[i]);
                assert(line.contains(line[i]));
            }
        }
    }
    lemma_one_line(with, more);
    assert(with.drop_last() =~= line);
    assert(line + seq!['\r', '\n'] + more =~= with + seq!['\n'] + more);
}

proof fn lemma_one_line(line: Seq<char>, more: Seq<char>)
    requires
        !has_class(line, Class::Is('\n')),
    ensures
        line_seq(line + seq!['\n'] + more) == seq![without_carriage_return(line)] + line_seq(more),
{
    let class = Class::Is('\n');
    let whole = line + seq!['\n'] + more;
    let at = line.len() as int;
    lemma_first_in_concat(line, seq!['\n'] + more, class);
    assert(whole =~= line + (seq!['\n'] + more));
    assert((seq!['\n'] + more)[0] == '\n');
    assert(first_in(whole, class) == at);
    assert(whole.take(at) =~= line);
    assert(whole.skip(at + 1) =~= more);
}

} // verus!
