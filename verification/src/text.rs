//! Text operations on `&str`, stated over the sequence of characters of the text.

use vstd::prelude::*;
use vstd::std_specs::iter::IteratorSpec;

verus! {

broadcast use vstd::string::group_string_axioms;

/// `String::push`: the character is added at the end of the text.
pub assume_specification[ String::push ](s: &mut String, c: char)
    ensures
        final(s)@ == old(s)@.push(c),
;

/// The characters of a text, in order.
pub fn chars_of(s: &str) -> (r: Vec<char>)
    ensures
        r@ == s@,
{
    let mut out: Vec<char> = Vec::new();
    for c in it: s.chars()
        invariant
            it.seq() == s@,
            out@ == s@.take(it.index() as int),
    {
        proof {
            assert(s@.take(it.index() + 1) =~= s@.take(it.index() as int).push(c));
        }
        out.push(c);
    }
    proof {
        assert(s@.take(s@.len() as int) =~= s@);
    }
    out
}

/// The text made of `chars[from..to]`.
pub fn text_of(chars: &Vec<char>, from: usize, to: usize) -> (r: String)
    requires
        from <= to <= chars@.len(),
    ensures
        r@ == chars@.subrange(from as int, to as int),
{
    let mut out = String::new();
    let mut i: usize = from;
    while i < to
        invariant
            from <= i <= to <= chars@.len(),
            out@ == chars@.subrange(from as int, i as int),
        decreases to - i,
    {
        out.push(chars[i]);
        i += 1;
        proof {
            assert(chars@.subrange(from as int, i as int) =~= chars@.subrange(
                from as int,
                i - 1,
            ).push(chars@[i - 1]));
        }
    }
    out
}

/// Whether two texts hold the same characters.
pub fn same(a: &str, b: &str) -> (r: bool)
    ensures
        r == (a@ == b@),
{
    let x = chars_of(a);
    let y = chars_of(b);
    if x.len() != y.len() {
        return false;
    }
    let mut i: usize = 0;
    while i < x.len()
        invariant
            i <= x.len(),
            x@ == a@,
            y@ == b@,
            x@.len() == y@.len(),
            forall|j: int| 0 <= j < i ==> x@[j] == y@[j],
        decreases x.len() - i,
    {
        if x[i] != y[i] {
            return false;
        }
        i += 1;
    }
    proof {
        assert(a@ =~= b@);
    }
    true
}

/// Whether `s` begins with `prefix`.
pub fn starts_with(s: &str, prefix: &str) -> (r: bool)
    ensures
        r == prefix@.is_prefix_of(s@),
{
    let x = chars_of(s);
    let p = chars_of(prefix);
    if p.len() > x.len() {
        return false;
    }
    let mut i: usize = 0;
    while i < p.len()
        invariant
            i <= p.len() <= x.len(),
            x@ == s@,
            p@ == prefix@,
            forall|j: int| 0 <= j < i ==> x@[j] == p@[j],
        decreases p.len() - i,
    {
        if x[i] != p[i] {
            proof {
                assert(s@.subrange(0, prefix@.len() as int)[i as int] != prefix@[i as int]);
            }
            return false;
        }
        i += 1;
    }
    proof {
        assert(prefix@ =~= s@.subrange(0, prefix@.len() as int));
    }
    true
}

/// What is left of `s` behind `prefix`, if `s` begins with it.
pub open spec fn after_prefix(s: Seq<char>, prefix: Seq<char>) -> Option<Seq<char>> {
    if prefix.is_prefix_of(s) {
        Some(s.skip(prefix.len() as int))
    } else {
        None
    }
}

pub fn strip_prefix(s: &str, prefix: &str) -> (r: Option<String>)
    ensures
        r.deep_view() == after_prefix(s@, prefix@),
{
    if starts_with(s, prefix) {
        let x = chars_of(s);
        let p = chars_of(prefix);
        proof {
            assert(s@.subrange(prefix@.len() as int, s@.len() as int) =~= s@.skip(
                prefix@.len() as int,
            ));
        }
        Some(text_of(&x, p.len(), x.len()))
    } else {
        None
    }
}

/// The pieces of `s` between the occurrences of `sep`; a text without `sep` is its own
/// only piece.
pub open spec fn pieces(s: Seq<char>, sep: char) -> Seq<Seq<char>>
    decreases s.len(),
{
    if s.len() == 0 {
        seq![Seq::<char>::empty()]
    } else {
        let before = pieces(s.drop_last(), sep);
        if s.last() == sep {
            before.push(Seq::<char>::empty())
        } else {
            before.drop_last().push(before.last().push(s.last()))
        }
    }
}

pub(crate) proof fn lemma_pieces_nonempty(s: Seq<char>, sep: char)
    ensures
        pieces(s, sep).len() >= 1,
    decreases s.len(),
{
    if s.len() > 0 {
        lemma_pieces_nonempty(s.drop_last(), sep);
    }
}

/// Splits `s` at every `sep`.
pub fn split(s: &str, sep: char) -> (r: Vec<String>)
    ensures
        r.deep_view() == pieces(s@, sep),
        r@.len() >= 1,
{
    let x = chars_of(s);
    let mut out: Vec<String> = Vec::new();
    let mut current = String::new();
    let mut i: usize = 0;
    proof {
        assert(x@.take(0) =~= Seq::<char>::empty());
        assert(out.deep_view().push(current@) =~= pieces(x@.take(0), sep));
    }
    while i < x.len()
        invariant
            i <= x.len(),
            x@ == s@,
            out.deep_view().push(current@) == pieces(x@.take(i as int), sep),
        decreases x.len() - i,
    {
        let c = x[i];
        let ghost before = out.deep_view().push(current@);
        let ghost done = out.deep_view();
        proof {
            assert(x@.take(i + 1).drop_last() =~= x@.take(i as int));
            assert(x@.take(i + 1).last() == c);
            assert(before.drop_last() =~= done);
        }
        if c == sep {
            out.push(current);
            current = String::new();
            proof {
                assert(out.deep_view() =~= before);
            }
        } else {
            current.push(c);
        }
        i += 1;
    }
    let ghost done = out.deep_view();
    let ghost last = current@;
    out.push(current);
    proof {
        assert(x@.take(x@.len() as int) =~= s@);
        assert(out.deep_view() =~= done.push(last));
    }
    out
}

/// The texts of `list` one behind the other, with `sep` between neighbours.
pub open spec fn joined(list: Seq<Seq<char>>, sep: Seq<char>) -> Seq<char>
    decreases list.len(),
{
    if list.len() == 0 {
        Seq::empty()
    } else if list.len() == 1 {
        list[0]
    } else {
        joined(list.drop_last(), sep) + sep + list.last()
    }
}

pub fn join(list: &Vec<String>, sep: &str) -> (r: String)
    ensures
        r@ == joined(list.deep_view(), sep@),
{
    let mut out = String::new();
    let mut i: usize = 0;
    while i < list.len()
        invariant
            i <= list.len(),
            out@ == joined(list.deep_view().take(i as int), sep@),
        decreases list.len() - i,
    {
        proof {
            let v = list.deep_view();
            assert(v.take(i + 1).drop_last() =~= v.take(i as int));
            assert(v.take(i + 1).last() == list@[i as int]@);
            assert(v.take(0) =~= Seq::<Seq<char>>::empty());
        }
        if i > 0 {
            out.append(sep);
        }
        out.append(list[i].as_str());
        i += 1;
    }
    proof {
        assert(list.deep_view().take(list@.len() as int) =~= list.deep_view());
    }
    out
}

/// No piece holds the separator.
pub proof fn pieces_hold_no_separator(s: Seq<char>, sep: char)
    ensures
        forall|i: int| 0 <= i < pieces(s, sep).len() ==> !(#[trigger] pieces(s, sep)[i]).contains(
            sep,
        ),
    decreases s.len(),
{
    lemma_pieces_nonempty(s, sep);
    if s.len() > 0 {
        lemma_pieces_nonempty(s.drop_last(), sep);
        pieces_hold_no_separator(s.drop_last(), sep);
        let before = pieces(s.drop_last(), sep);
        if s.last() != sep {
            let last = before.last().push(s.last());
            assert(!before[before.len() - 1].contains(sep));
            assert(!last.contains(sep)) by {
                assert forall|j: int| 0 <= j < last.len() implies last[j] != sep by {
                    if j < before.last().len() {
                        assert(before.last().contains(before.last()[j]));
                    }
                }
            }
        }
    }
}

pub(crate) proof fn lemma_pieces_append(a: Seq<char>, sep: char, b: Seq<char>)
    requires
        !b.contains(sep),
    ensures
        pieces(a + seq![sep] + b, sep) == pieces(a, sep).push(b),
    decreases b.len(),
{
    let s = a + seq![sep] + b;
    lemma_pieces_nonempty(a, sep);
    if b.len() == 0 {
        assert(s.drop_last() =~= a);
        assert(b =~= Seq::empty());
    } else {
        assert forall|i: int| 0 <= i < b.drop_last().len() implies b.drop_last()[i] != sep by {
            assert(b[i] == b.drop_last()[i]);
            assert(b.contains(b[i]));
        }
        lemma_pieces_append(a, sep, b.drop_last());
        assert(s.drop_last() =~= a + seq![sep] + b.drop_last());
        assert(b.contains(b.last()));
        let before = pieces(a, sep).push(b.drop_last());
        assert(before.drop_last() =~= pieces(a, sep));
        assert(b.drop_last().push(b.last()) =~= b);
    }
}

pub(crate) proof fn lemma_pieces_of_one(s: Seq<char>, sep: char)
    requires
        !s.contains(sep),
    ensures
        pieces(s, sep) == seq![s],
    decreases s.len(),
{
    if s.len() > 0 {
        assert forall|i: int| 0 <= i < s.drop_last().len() implies s.drop_last()[i] != sep by {
            assert(s[i] == s.drop_last()[i]);
            assert(s.contains(s[i]));
        }
        lemma_pieces_of_one(s.drop_last(), sep);
        assert(s.contains(s.last()));
        assert(s.drop_last().push(s.last()) =~= s);
        assert(pieces(s, sep) =~= seq![s]);
    } else {
        assert(s =~= Seq::empty());
    }
}

/// Texts that do not hold the separator, joined by it, are split into the same texts again.
pub proof fn joined_texts_split_again(list: Seq<Seq<char>>, sep: char)
    requires
        list.len() > 0,
        forall|i: int| 0 <= i < list.len() ==> !(#[trigger] list[i]).contains(sep),
    ensures
        pieces(joined(list, seq![sep]), sep) == list,
    decreases list.len(),
{
    if list.len() == 1 {
        lemma_pieces_of_one(list[0], sep);
        assert(list =~= seq![list[0]]);
    } else {
        let front = list.drop_last();
        assert forall|i: int| 0 <= i < front.len() implies !(#[trigger] front[i]).contains(sep) by {
            assert(front[i] == list[i]);
        }
        joined_texts_split_again(front, sep);
        lemma_pieces_append(joined(front, seq![sep]), sep, list.last());
        assert(list =~= front.push(list.last()));
    }
}

/// The pieces joined by the separator are the text that was split.
pub proof fn joined_pieces_are_the_text(s: Seq<char>, sep: char)
    ensures
        joined(pieces(s, sep), seq![sep]) == s,
    decreases s.len(),
{
    if s.len() > 0 {
        joined_pieces_are_the_text(s.drop_last(), sep);
        lemma_pieces_nonempty(s.drop_last(), sep);
        let before = pieces(s.drop_last(), sep);
        let after = pieces(s, sep);
        assert(s =~= s.drop_last().push(s.last()));
        assert(after.last() == if s.last() == sep {
            Seq::<char>::empty()
        } else {
            before.last().push(s.last())
        });
        if s.last() == sep {
            assert(after.drop_last() =~= before);
        } else {
            assert(after.drop_last() =~= before.drop_last());
        }
        assert(joined(after, seq![sep]) =~= s);
    }
}


/// The place of the first `c` in `s`; the length of `s` if there is none.
pub open spec fn first_index(s: Seq<char>, c: char) -> int
    decreases s.len(),
{
    if s.len() == 0 || s[0] == c {
        0
    } else {
        1 + first_index(s.skip(1), c)
    }
}

pub(crate) proof fn lemma_first_index(s: Seq<char>, c: char, i: int)
    requires
        0 <= i <= s.len(),
        forall|j: int| 0 <= j < i ==> s[j] != c,
        i < s.len() ==> s[i] == c,
    ensures
        first_index(s, c) == i,
    decreases i,
{
    if i > 0 {
        lemma_first_index(s.skip(1), c, i - 1);
    }
}

/// What stands before and behind the first `sep`.
pub open spec fn around_first(s: Seq<char>, sep: char) -> Option<(Seq<char>, Seq<char>)> {
    let i = first_index(s, sep);
    if i < s.len() {
        Some((s.take(i), s.skip(i + 1)))
    } else {
        None
    }
}

pub fn split_once(s: &str, sep: char) -> (r: Option<(String, String)>)
    ensures
        r.deep_view() == around_first(s@, sep),
{
    let x = chars_of(s);
    let mut i: usize = 0;
    while i < x.len()
        invariant
            i <= x.len(),
            x@ == s@,
            forall|j: int| 0 <= j < i ==> s@[j] != sep,
        decreases x.len() - i,
    {
        if x[i] == sep {
            proof {
                lemma_first_index(s@, sep, i as int);
                assert(s@.subrange(0, i as int) =~= s@.take(i as int));
                assert(s@.subrange(i + 1, s@.len() as int) =~= s@.skip(i + 1));
            }
            return Some((text_of(&x, 0, i), text_of(&x, i + 1, x.len())));
        }
        i += 1;
    }
    proof {
        lemma_first_index(s@, sep, s@.len() as int);
    }
    None
}

/// The characters with the Unicode property White_Space, which `str::trim` removes.
pub open spec fn is_space(c: char) -> bool {
    ||| '\u{9}' <= c <= '\u{d}'
    ||| c == ' '
    ||| c == '\u{85}'
    ||| c == '\u{a0}'
    ||| c == '\u{1680}'
    ||| '\u{2000}' <= c <= '\u{200a}'
    ||| c == '\u{2028}'
    ||| c == '\u{2029}'
    ||| c == '\u{202f}'
    ||| c == '\u{205f}'
    ||| c == '\u{3000}'
}

fn is_whitespace(c: char) -> (r: bool)
    ensures
        r == is_space(c),
{
    ('\u{9}' <= c && c <= '\u{d}') || c == ' ' || c == '\u{85}' || c == '\u{a0}' || c
        == '\u{1680}' || ('\u{2000}' <= c && c <= '\u{200a}') || c == '\u{2028}' || c == '\u{2029}'
        || c == '\u{202f}' || c == '\u{205f}' || c == '\u{3000}'
}

pub open spec fn trimmed_start(s: Seq<char>) -> Seq<char>
    decreases s.len(),
{
    if s.len() > 0 && is_space(s[0]) {
        trimmed_start(s.skip(1))
    } else {
        s
    }
}

pub open spec fn trimmed_end(s: Seq<char>) -> Seq<char>
    decreases s.len(),
{
    if s.len() > 0 && is_space(s.last()) {
        trimmed_end(s.drop_last())
    } else {
        s
    }
}

/// `s` without the white space at both ends.
pub open spec fn trimmed(s: Seq<char>) -> Seq<char> {
    trimmed_end(trimmed_start(s))
}

pub fn trim(s: &str) -> (r: String)
    ensures
        r@ == trimmed(s@),
{
    let x = chars_of(s);
    let mut from: usize = 0;
    proof {
        assert(s@.skip(0) =~= s@);
    }
    while from < x.len() && is_whitespace(x[from])
        invariant
            from <= x.len(),
            x@ == s@,
            trimmed_start(s@) == trimmed_start(s@.skip(from as int)),
        decreases x.len() - from,
    {
        proof {
            assert(s@.skip(from as int).skip(1) =~= s@.skip(from + 1));
        }
        from += 1;
    }
    proof {
        assert(trimmed_start(s@) == s@.skip(from as int));
        assert(s@.subrange(from as int, s@.len() as int) =~= s@.skip(from as int));
    }
    let mut to: usize = x.len();
    while from < to && is_whitespace(x[to - 1])
        invariant
            from <= to <= x.len(),
            x@ == s@,
            trimmed(s@) == trimmed_end(s@.subrange(from as int, to as int)),
        decreases to,
    {
        proof {
            assert(s@.subrange(from as int, to as int).drop_last() =~= s@.subrange(
                from as int,
                to - 1,
            ));
        }
        to -= 1;
    }
    text_of(&x, from, to)
}

/// `s` without the leading occurrences of `prefix`, however many there are.
pub open spec fn without_leading(s: Seq<char>, prefix: Seq<char>) -> Seq<char>
    decreases s.len(),
{
    if prefix.len() > 0 && prefix.is_prefix_of(s) {
        without_leading(s.skip(prefix.len() as int), prefix)
    } else {
        s
    }
}

/// `trim_start_matches("0x")`.
pub fn trim_hex_prefix(s: &str) -> (r: String)
    ensures
        r@ == without_leading(s@, "0x"@),
{
    proof {
        reveal_strlit("0x");
    }
    let x = chars_of(s);
    let mut from: usize = 0;
    proof {
        assert(s@.skip(0) =~= s@);
    }
    while x.len() - from >= 2 && x[from] == '0' && x[from + 1] == 'x'
        invariant
            from <= x.len(),
            x@ == s@,
            "0x"@ =~= seq!['0', 'x'],
            without_leading(s@, "0x"@) == without_leading(s@.skip(from as int), "0x"@),
        decreases x.len() - from,
    {
        proof {
            let rest = s@.skip(from as int);
            assert("0x"@ =~= rest.subrange(0, 2));
            assert(rest.skip(2) =~= s@.skip(from + 2));
        }
        from += 2;
    }
    proof {
        let rest = s@.skip(from as int);
        if "0x"@.is_prefix_of(rest) {
            assert(rest.subrange(0, 2)[0] == '0');
            assert(rest.subrange(0, 2)[1] == 'x');
        }
        assert(s@.subrange(from as int, s@.len() as int) =~= rest);
    }
    text_of(&x, from, x.len())
}

/// `s` without the occurrences of `c` at its end.
pub open spec fn without_trailing(s: Seq<char>, c: char) -> Seq<char>
    decreases s.len(),
{
    if s.len() > 0 && s.last() == c {
        without_trailing(s.drop_last(), c)
    } else {
        s
    }
}

pub fn trim_end_matches(s: &str, c: char) -> (r: String)
    ensures
        r@ == without_trailing(s@, c),
{
    let x = chars_of(s);
    let mut to: usize = x.len();
    proof {
        assert(s@.subrange(0, s@.len() as int) =~= s@);
    }
    while to > 0 && x[to - 1] == c
        invariant
            to <= x.len(),
            x@ == s@,
            without_trailing(s@, c) == without_trailing(s@.subrange(0, to as int), c),
        decreases to,
    {
        proof {
            assert(s@.subrange(0, to as int).drop_last() =~= s@.subrange(0, to - 1));
        }
        to -= 1;
    }
    text_of(&x, 0, to)
}

/// The lower-case letter of an upper-case ASCII letter; any other character itself.
pub open spec fn ascii_lower_char(c: char) -> char {
    if 'A' <= c <= 'Z' {
        ((c as u8) + 32) as char
    } else {
        c
    }
}

pub open spec fn ascii_lower(s: Seq<char>) -> Seq<char> {
    s.map_values(|c: char| ascii_lower_char(c))
}

pub fn to_ascii_lowercase(s: &str) -> (r: String)
    ensures
        r@ == ascii_lower(s@),
{
    let x = chars_of(s);
    let mut out = String::new();
    let mut i: usize = 0;
    while i < x.len()
        invariant
            i <= x.len(),
            x@ == s@,
            out@ == ascii_lower(s@).take(i as int),
        decreases x.len() - i,
    {
        let c = x[i];
        let lower: char = if 'A' <= c && c <= 'Z' {
            ((c as u8) + 32) as char
        } else {
            c
        };
        out.push(lower);
        proof {
            assert(ascii_lower(s@).take(i + 1) =~= ascii_lower(s@).take(i as int).push(lower));
        }
        i += 1;
    }
    proof {
        assert(ascii_lower(s@).take(s@.len() as int) =~= ascii_lower(s@));
    }
    out
}

/// The value of a digit in base `radix`, where letters of either case follow the nine.
pub open spec fn digit_value(c: char, radix: nat) -> Option<nat> {
    let v: nat = if '0' <= c <= '9' {
        (c as nat - '0' as nat) as nat
    } else if 'a' <= c <= 'z' {
        (c as nat - 'a' as nat + 10) as nat
    } else if 'A' <= c <= 'Z' {
        (c as nat - 'A' as nat + 10) as nat
    } else {
        radix
    };
    if v < radix {
        Some(v)
    } else {
        None
    }
}

pub open spec fn all_digits(s: Seq<char>, radix: nat) -> bool {
    forall|i: int| 0 <= i < s.len() ==> (#[trigger] digit_value(s[i], radix)) is Some
}

/// The number that a row of digits stands for.
pub open spec fn digits_number(s: Seq<char>, radix: nat) -> nat
    decreases s.len(),
{
    if s.len() == 0 {
        0
    } else {
        digits_number(s.drop_last(), radix) * radix + digit_value(s.last(), radix).unwrap_or(0)
    }
}

/// The row of digits of a numeral: what stands behind a plus sign, if there is one.
pub open spec fn numeral_digits(s: Seq<char>) -> Seq<char> {
    if s.len() > 0 && s[0] == '+' {
        s.skip(1)
    } else {
        s
    }
}

/// The number that a numeral stands for, if it is one and fits in a `u64`: an optional plus
/// sign and one digit or more.
pub open spec fn u64_numeral(s: Seq<char>, radix: nat) -> Option<u64> {
    let digits = numeral_digits(s);
    if digits.len() > 0 && all_digits(digits, radix) && digits_number(digits, radix) <= u64::MAX {
        Some(digits_number(digits, radix) as u64)
    } else {
        None
    }
}

proof fn lemma_digits_grow(s: Seq<char>, k: int, radix: nat)
    requires
        0 <= k <= s.len(),
        radix >= 1,
    ensures
        digits_number(s.take(k), radix) <= digits_number(s, radix),
    decreases s.len() - k,
{
    if k < s.len() {
        lemma_digits_grow(s, k + 1, radix);
        assert(s.take(k + 1).drop_last() =~= s.take(k));
        let n = digits_number(s.take(k), radix);
        assert(n <= n * radix) by (nonlinear_arith)
            requires
                radix >= 1,
        ;
    } else {
        assert(s.take(k) =~= s);
    }
}

/// `str::parse::<u64>`, without the reason of a failure.
pub fn parse_u64(s: &str) -> (r: Option<u64>)
    ensures
        r == u64_numeral(s@, 10),
{
    let x = chars_of(s);
    let from: usize = if x.len() > 0 && x[0] == '+' {
        1
    } else {
        0
    };
    let ghost digits = numeral_digits(s@);
    proof {
        assert(s@.skip(0) =~= s@);
        assert(digits =~= s@.skip(from as int));
    }
    if x.len() == from {
        return None;
    }
    let mut value: u64 = 0;
    let mut i: usize = from;
    proof {
        assert(digits.take(0) =~= Seq::<char>::empty());
    }
    while i < x.len()
        invariant
            from <= i <= x.len(),
            from <= 1,
            x@ == s@,
            digits == numeral_digits(s@),
            digits == s@.skip(from as int),
            digits.len() > 0,
            forall|j: int| 0 <= j < i - from ==> (#[trigger] digit_value(digits[j], 10)) is Some,
            value == digits_number(digits.take(i - from), 10),
        decreases x.len() - i,
    {
        let c = x[i];
        let ghost k = i - from;
        proof {
            assert(digits[k] == c);
            assert(digits.take(k + 1).drop_last() =~= digits.take(k));
            assert(digits.take(k + 1).last() == c);
            lemma_digits_grow(digits, k + 1, 10);
        }
        if !('0' <= c && c <= '9') {
            proof {
                assert(digit_value(digits[k], 10) is None);
            }
            return None;
        }
        let d: u64 = (c as u64) - ('0' as u64);
        if value > (u64::MAX - d) / 10 {
            return None;
        }
        value = value * 10 + d;
        i += 1;
    }
    proof {
        assert(digits.take(digits.len() as int) =~= digits);
    }
    Some(value)
}

/// The text of the error that `u64::from_str_radix` gives on a text that is no hexadecimal
/// numeral of a `u64`.
pub uninterp spec fn hex_numeral_error(s: Seq<char>) -> Seq<char>;

/// `u64::from_str_radix` with the radix 16: a number for the digits of one that fits, behind
/// a plus sign that may be left out, and an error for any other text. The text of the error is
/// a function of the text that was read.
#[verifier::external_body]
pub(crate) fn parse_hex_u64(s: &str) -> (r: Result<u64, String>)
    ensures
        match r {
            Ok(n) => u64_numeral(s@, 16) == Some(n),
            Err(e) => u64_numeral(s@, 16) is None && e@ == hex_numeral_error(s@),
        },
{
    u64::from_str_radix(s, 16).map_err(|e| e.to_string())
}

/// The decimal numeral of a number.
pub open spec fn decimal(n: nat) -> Seq<char>
    decreases n,
{
    let digit = (48 + n % 10) as char;
    if n < 10 {
        seq![digit]
    } else {
        decimal(n / 10).push(digit)
    }
}

pub fn u64_text(n: u64) -> (r: String)
    ensures
        r@ == decimal(n as nat),
    decreases n,
{
    let digit: char = (48 + (n % 10) as u8) as char;
    if n < 10 {
        let mut out = String::new();
        out.push(digit);
        proof {
            assert(out@ =~= decimal(n as nat));
        }
        out
    } else {
        let mut out = u64_text(n / 10);
        out.push(digit);
        out
    }
}

/// A decimal numeral reads back as the number it was written for.
pub proof fn decimal_reads_back(n: u64)
    ensures
        u64_numeral(decimal(n as nat), 10) == Some(n),
{
    lemma_decimal(n as nat);
    let s = decimal(n as nat);
    assert(digit_value(s[0], 10) is Some);
    assert(numeral_digits(s) == s);
}

proof fn lemma_decimal(n: nat)
    ensures
        decimal(n).len() > 0,
        all_digits(decimal(n), 10),
        digits_number(decimal(n), 10) == n,
    decreases n,
{
    let digit = (48 + n % 10) as char;
    assert(digit_value(digit, 10) == Some(n % 10));
    if n >= 10 {
        lemma_decimal(n / 10);
        assert(decimal(n).drop_last() =~= decimal(n / 10));
    } else {
        assert(decimal(n).drop_last() =~= Seq::<char>::empty());
        reveal_with_fuel(digits_number, 2);
    }
}


/// Whether a character may stand in an error text that is passed on.
pub open spec fn is_harmless(c: char) -> bool {
    c != '"' && c != '\n' && c != '\r'
}

/// An error text without its quotation marks and line breaks.
pub open spec fn sanitized(s: Seq<char>) -> Seq<char> {
    s.filter(|c: char| is_harmless(c))
}

/// What is left of an error text holds no quotation marks and no line breaks, and a text
/// without them is left as it is.
pub proof fn sanitized_text_is_harmless(s: Seq<char>)
    ensures
        forall|i: int| 0 <= i < sanitized(s).len() ==> is_harmless(#[trigger] sanitized(s)[i]),
        (forall|i: int| 0 <= i < s.len() ==> is_harmless(#[trigger] s[i])) ==> sanitized(s) == s,
    decreases s.len(),
{
    reveal(Seq::filter);
    let keep = |c: char| is_harmless(c);
    assert forall|i: int| 0 <= i < sanitized(s).len() implies is_harmless(
        #[trigger] sanitized(s)[i],
    ) by {
        s.lemma_filter_pred(keep, i);
    }
    if s.len() > 0 {
        sanitized_text_is_harmless(s.drop_last());
        if forall|i: int| 0 <= i < s.len() ==> is_harmless(#[trigger] s[i]) {
            assert forall|i: int| 0 <= i < s.drop_last().len() implies is_harmless(
                #[trigger] s.drop_last()[i],
            ) by {
                assert(is_harmless(s[i]));
            }
            assert(sanitized(s) =~= s);
        }
    }
}

/// Removes quotation marks and line breaks from the text of an error.
pub fn sanitize_err(text: &str) -> (r: String)
    ensures
        r@ == sanitized(text@),
{
    let x = chars_of(text);
    let mut out = String::new();
    let mut i: usize = 0;
    let ghost keep = |c: char| is_harmless(c);
    proof {
        assert(text@.take(0).filter(keep) =~= Seq::<char>::empty());
    }
    while i < x.len()
        invariant
            i <= x.len(),
            x@ == text@,
            keep == (|c: char| is_harmless(c)),
            out@ == text@.take(i as int).filter(keep),
        decreases x.len() - i,
    {
        let c = x[i];
        proof {
            reveal(Seq::filter);
            assert(text@.take(i + 1).drop_last() =~= text@.take(i as int));
            assert(text@.take(i + 1).last() == c);
        }
        if c != '"' && c != '\n' && c != '\r' {
            out.push(c);
        }
        i += 1;
    }
    proof {
        assert(text@.take(text@.len() as int) =~= text@);
    }
    out
}

pub open spec fn is_alphanumeric(c: char) -> bool {
    '0' <= c <= '9' || 'a' <= c <= 'z' || 'A' <= c <= 'Z'
}

/// The ASCII letters and digits of `s`, in order.
pub open spec fn alphanumerics(s: Seq<char>) -> Seq<char> {
    s.filter(|c: char| is_alphanumeric(c))
}

pub fn keep_alphanumerics(s: &str) -> (r: String)
    ensures
        r@ == alphanumerics(s@),
{
    let x = chars_of(s);
    let mut out = String::new();
    let mut i: usize = 0;
    let ghost keep = |c: char| is_alphanumeric(c);
    proof {
        assert(s@.take(0).filter(keep) =~= Seq::<char>::empty());
    }
    while i < x.len()
        invariant
            i <= x.len(),
            x@ == s@,
            keep == (|c: char| is_alphanumeric(c)),
            out@ == s@.take(i as int).filter(keep),
        decreases x.len() - i,
    {
        let c = x[i];
        proof {
            reveal(Seq::filter);
            assert(s@.take(i + 1).drop_last() =~= s@.take(i as int));
            assert(s@.take(i + 1).last() == c);
        }
        if ('0' <= c && c <= '9') || ('a' <= c && c <= 'z') || ('A' <= c && c <= 'Z') {
            out.push(c);
        }
        i += 1;
    }
    proof {
        assert(s@.take(s@.len() as int) =~= s@);
    }
    out
}

/// The first `n` characters of `s`, or all of it if it is shorter.
pub open spec fn clipped(s: Seq<char>, n: nat) -> Seq<char> {
    if s.len() <= n {
        s
    } else {
        s.take(n as int)
    }
}

pub fn clip(s: &str, n: usize) -> (r: String)
    ensures
        r@ == clipped(s@, n as nat),
{
    let x = chars_of(s);
    let to: usize = if x.len() <= n {
        x.len()
    } else {
        n
    };
    proof {
        assert(s@.subrange(0, to as int) =~= clipped(s@, n as nat));
    }
    text_of(&x, 0, to)
}

/// The Unicode lower case of a text, as `str::to_lowercase` gives it.
pub uninterp spec fn lowercase(s: Seq<char>) -> Seq<char>;

/// `str::to_lowercase`. The result is a function of the text alone; of a text that is all
/// ASCII it is the text with its upper-case letters replaced by the lower-case ones.
#[verifier::external_body]
pub(crate) fn to_lowercase(s: &str) -> (r: String)
    ensures
        r@ == lowercase(s@),
        vstd::utf8::is_ascii_chars(s@) ==> r@ == ascii_lower(s@),
{
    s.to_lowercase()
}

/// What `String::from_utf8_lossy` reads in a row of bytes.
pub uninterp spec fn utf8_lossy(bytes: Seq<u8>) -> Seq<char>;

/// `String::from_utf8_lossy`. The result is a function of the bytes alone. Only what is no
/// UTF-8 is replaced: of bytes that are the encoding of a text it is that text, and such bytes
/// in front are read apart from what follows.
#[verifier::external_body]
pub(crate) fn from_utf8_lossy(bytes: &[u8]) -> (r: String)
    ensures
        r@ == utf8_lossy(bytes@),
        vstd::utf8::valid_utf8(bytes@) ==> r@ == vstd::utf8::decode_utf8(bytes@),
        forall|n: int|
            0 <= n <= bytes@.len() && vstd::utf8::valid_utf8(#[trigger] bytes@.take(n)) ==> r@
                == vstd::utf8::decode_utf8(bytes@.take(n)) + utf8_lossy(bytes@.skip(n)),
{
    String::from_utf8_lossy(bytes).into_owned()
}

/// The UTF-8 encoding of a text.
pub fn bytes_of(s: &str) -> (r: Vec<u8>)
    ensures
        r@ == vstd::utf8::encode_utf8(s@),
{
    s.as_bytes_vec()
}

/// A text of its own with the characters of `s`.
pub fn owned(s: &str) -> (r: String)
    ensures
        r@ == s@,
{
    String::from_str(s)
}

} // verus!
