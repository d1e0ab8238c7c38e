//! What the operations on texts, numerals and JSON objects give.

use vstd::prelude::*;
use vstd::utf8::encode_utf8;
use crate::http::{json_reply, text_reply};
use crate::json::{integer, json_bytes, json_text, JsonModel};
use crate::text::{
    after_prefix, alphanumerics, around_first, ascii_lower, clipped, decimal,
    digit_value, digits_number, first_index, is_space, joined, lemma_first_index, numeral_digits,
    sanitized, trimmed, trimmed_end, trimmed_start, u64_numeral, without_leading, without_trailing,
};

verus! {

/// A prefix is taken off a text that has it, and off no other.
pub proof fn prefixes_are_taken_off(prefix: Seq<char>, rest: Seq<char>, s: Seq<char>)
    ensures
        after_prefix(prefix + rest, prefix) == Some(rest),
        after_prefix(s, prefix) matches Some(t) ==> s == prefix + t,
        after_prefix(s, prefix) is None ==> forall|t: Seq<char>| s != #[trigger] (prefix + t),
{
    let whole = prefix + rest;
    assert(prefix =~= whole.subrange(0, prefix.len() as int));
    assert(whole.skip(prefix.len() as int) =~= rest);
    if let Some(t) = after_prefix(s, prefix) {
        assert(s =~= prefix + t);
    } else {
        assert forall|t: Seq<char>| s != #[trigger] (prefix + t) by {
            assert(prefix =~= (prefix + t).subrange(0, prefix.len() as int));
        }
    }
}

/// A text is parted at its first separator, and only where it has one.
pub proof fn texts_are_parted_at_the_first_separator(
    before: Seq<char>,
    sep: char,
    after: Seq<char>,
    s: Seq<char>,
)
    requires
        !before.contains(sep),
    ensures
        around_first(before + seq![sep] + after, sep) == Some((before, after)),
        around_first(s, sep) is None <==> !s.contains(sep),
{
    let whole = before + seq![sep] + after;
    let n = before.len() as int;
    assert forall|j: int| 0 <= j < n implies whole[j] != sep by {
        assert(before.contains(before[j]));
    }
    lemma_first_index(whole, sep, n);
    assert(whole.take(n) =~= before);
    assert(whole.skip(n + 1) =~= after);
    lemma_first_of(s, sep);
}

pub(crate) proof fn lemma_first_of(s: Seq<char>, c: char)
    ensures
        0 <= first_index(s, c) <= s.len(),
        first_index(s, c) < s.len() <==> s.contains(c),
        first_index(s, c) < s.len() ==> s[first_index(s, c)] == c,
        forall|j: int| 0 <= j < first_index(s, c) ==> #[trigger] s[j] != c,
    decreases s.len(),
{
    if s.len() > 0 {
        if s[0] == c {
            assert(s.contains(s[0]));
        } else {
            lemma_first_of(s.skip(1), c);
            assert forall|j: int| 0 <= j < first_index(s, c) implies #[trigger] s[j] != c by {
                if j > 0 {
                    assert(s[j] == s.skip(1)[j - 1]);
                }
            }
            if s.contains(c) {
                let i = choose|i: int| 0 <= i < s.len() && s[i] == c;
                assert(s.skip(1)[i - 1] == c);
            }
            if s.skip(1).contains(c) {
                let i = choose|i: int| 0 <= i < s.skip(1).len() && s.skip(1)[i] == c;
                assert(s[i + 1] == c);
            }
        }
    }
}

/// Spaces around a text are taken off, and nothing else is.
pub proof fn spaces_are_trimmed_off(left: Seq<char>, core: Seq<char>, right: Seq<char>)
    requires
        forall|i: int| 0 <= i < left.len() ==> is_space(#[trigger] left[i]),
        forall|i: int| 0 <= i < right.len() ==> is_space(#[trigger] right[i]),
        core.len() > 0 ==> !is_space(core[0]) && !is_space(core.last()),
    ensures
        trimmed(left + core + right) == core,
    decreases left.len() + right.len(),
{
    let s = left + core + right;
    if core.len() == 0 {
        assert forall|i: int| 0 <= i < s.len() implies is_space(#[trigger] s[i]) by {
            if i < left.len() {
                assert(s[i] == left[i]);
            } else {
                assert(s[i] == right[i - left.len()]);
            }
        }
        lemma_all_spaces(s);
        assert(core =~= Seq::empty());
    } else if left.len() > 0 {
        spaces_are_trimmed_off(left.skip(1), core, right);
        assert(is_space(left[0]));
        assert(s.skip(1) =~= left.skip(1) + core + right);
    } else {
        assert(s[0] == core[0]);
        assert(trimmed_start(s) == s);
        lemma_trimmed_behind(core, right);
        assert(s =~= core + right);
    }
}

proof fn lemma_all_spaces(s: Seq<char>)
    requires
        forall|i: int| 0 <= i < s.len() ==> is_space(#[trigger] s[i]),
    ensures
        trimmed(s) == Seq::<char>::empty(),
    decreases s.len(),
{
    if s.len() > 0 {
        assert(is_space(s[0]));
        assert forall|i: int| 0 <= i < s.skip(1).len() implies is_space(
            #[trigger] s.skip(1)[i],
        ) by {
            assert(s.skip(1)[i] == s[i + 1]);
        }
        lemma_all_spaces(s.skip(1));
    } else {
        assert(s =~= Seq::empty());
    }
}

proof fn lemma_trimmed_behind(core: Seq<char>, right: Seq<char>)
    requires
        forall|i: int| 0 <= i < right.len() ==> is_space(#[trigger] right[i]),
        core.len() > 0,
        !is_space(core.last()),
    ensures
        trimmed_end(core + right) == core,
    decreases right.len(),
{
    let s = core + right;
    if right.len() > 0 {
        assert(s.last() == right.last());
        assert(is_space(right[right.len() - 1]));
        assert(s.drop_last() =~= core + right.drop_last());
        lemma_trimmed_behind(core, right.drop_last());
    } else {
        assert(s =~= core);
    }
}

/// The spaces are the twenty-five characters with the Unicode property White_Space.
pub proof fn spaces_are_white_space(c: char)
    ensures
        is_space(c) <==> seq![
            0x9int,
            0xa,
            0xb,
            0xc,
            0xd,
            0x20,
            0x85,
            0xa0,
            0x1680,
            0x2000,
            0x2001,
            0x2002,
            0x2003,
            0x2004,
            0x2005,
            0x2006,
            0x2007,
            0x2008,
            0x2009,
            0x200a,
            0x2028,
            0x2029,
            0x202f,
            0x205f,
            0x3000,
        ].contains(c as int),
{
    let all = seq![
        0x9int,
        0xa,
        0xb,
        0xc,
        0xd,
        0x20,
        0x85,
        0xa0,
        0x1680,
        0x2000,
        0x2001,
        0x2002,
        0x2003,
        0x2004,
        0x2005,
        0x2006,
        0x2007,
        0x2008,
        0x2009,
        0x200a,
        0x2028,
        0x2029,
        0x202f,
        0x205f,
        0x3000,
    ];
    let n = c as int;
    if is_space(c) {
        if n <= 0xd {
            assert(all[n - 9] == n);
        } else if 0x2000 <= n <= 0x200a {
            assert(all[n - 0x2000 + 9] == n);
        } else {
            assert(all[5] == 0x20 && all[6] == 0x85 && all[7] == 0xa0 && all[8] == 0x1680);
            assert(all[20] == 0x2028 && all[21] == 0x2029 && all[22] == 0x202f);
            assert(all[23] == 0x205f && all[24] == 0x3000);
        }
    }
    if all.contains(n) {
        let i = choose|i: int| 0 <= i < all.len() && all[i] == n;
    }
}

/// Every leading prefix is taken off, and nothing else.
pub proof fn leading_prefixes_are_taken_off(prefix: Seq<char>, s: Seq<char>)
    requires
        prefix.len() > 0,
    ensures
        without_leading(prefix + s, prefix) == without_leading(s, prefix),
        !prefix.is_prefix_of(s) ==> without_leading(s, prefix) == s,
{
    let whole = prefix + s;
    assert(prefix =~= whole.subrange(0, prefix.len() as int));
    assert(whole.skip(prefix.len() as int) =~= s);
}

/// Every trailing character of the kind is taken off, and nothing else.
pub proof fn trailing_characters_are_taken_off(s: Seq<char>, c: char)
    ensures
        without_trailing(s.push(c), c) == without_trailing(s, c),
        s.len() == 0 || s.last() != c ==> without_trailing(s, c) == s,
{
    assert(s.push(c).drop_last() =~= s);
}

/// Lower case changes the letters A to Z, each to its small letter, and nothing else.
pub proof fn lower_case_changes_letters(s: Seq<char>, i: int)
    requires
        0 <= i < s.len(),
    ensures
        ascii_lower(s).len() == s.len(),
        'A' <= s[i] <= 'Z' ==> ascii_lower(s)[i] as nat == s[i] as nat + 32,
        !('A' <= s[i] <= 'Z') ==> ascii_lower(s)[i] == s[i],
{
}

/// A numeral is made of digits, behind a plus sign that may be left out, and stands for the
/// number that they give place by place. Nothing else is a numeral, nor is one of a number
/// that is too large.
pub proof fn numerals_are_read_by_place(s: Seq<char>, c: char, radix: nat)
    requires
        radix == 10 || radix == 16,
        s.len() > 0,
        forall|i: int| 0 <= i < s.len() ==> (#[trigger] digit_value(s[i], radix)) is Some,
    ensures
        digits_number(Seq::empty(), radix) == 0,
        u64_numeral(s, radix) == if digits_number(s, radix) <= u64::MAX {
            Some(digits_number(s, radix) as u64)
        } else {
            None
        },
        u64_numeral(seq!['+'] + s, radix) == u64_numeral(s, radix),
        digit_value(c, radix) matches Some(d) ==> digits_number(s.push(c), radix)
            == digits_number(s, radix) * radix + d,
        digit_value(c, radix) is None ==> u64_numeral(s.push(c), radix) is None,
        u64_numeral(Seq::empty(), radix) is None,
{
    assert(digit_value(s[0], radix) is Some);
    assert((seq!['+'] + s).skip(1) =~= s);
    assert(s.push(c).drop_last() =~= s);
    if digit_value(c, radix) is None {
        let t = s.push(c);
        assert(t[0] == s[0]);
        assert(numeral_digits(t) == t);
        assert(digit_value(t[t.len() - 1], radix) is None);
    }
}

/// A text that holds something else than digits, but for a plus sign in front, is no numeral, nor
/// is the sign alone.
pub proof fn other_texts_are_no_numerals(s: Seq<char>, i: int, radix: nat)
    requires
        0 <= i < s.len(),
        digit_value(s[i], radix) is None,
        i > 0 || s[0] != '+' || s.len() == 1,
    ensures
        u64_numeral(s, radix) is None,
{
    let digits = numeral_digits(s);
    if digits.len() > 0 {
        let k = if s[0] == '+' {
            i - 1
        } else {
            i
        };
        assert(digits[k] == s[i]);
        assert(digit_value(digits[k], radix) is None);
    }
}

/// The digits have the values that they show.
pub proof fn digits_have_their_values(d: nat)
    ensures
        d < 10 ==> digit_value((0x30 + d) as char, 10) == Some(d) && digit_value(
            (0x30 + d) as char,
            16,
        ) == Some(d),
        d < 6 ==> digit_value((0x61 + d) as char, 16) == Some(10 + d) && digit_value(
            (0x41 + d) as char,
            16,
        ) == Some(10 + d),
        forall|c: char| !('0' <= c <= '9') ==> #[trigger] digit_value(c, 10) is None,
        forall|c: char|
            !('0' <= c <= '9') && !('a' <= c <= 'f') && !('A' <= c <= 'F')
                ==> #[trigger] digit_value(c, 16) is None,
{
}

/// A decimal numeral has digits only, and no zero in front of others.
pub proof fn decimals_are_plain(n: nat)
    ensures
        decimal(n).len() > 0,
        forall|i: int| 0 <= i < decimal(n).len() ==> '0' <= #[trigger] decimal(n)[i] <= '9',
        n > 0 ==> decimal(n)[0] != '0',
        n == 0 ==> decimal(n) == seq!['0'],
        integer(n as int) == decimal(n),
        n > 0 ==> integer(-(n as int)) == seq!['-'] + decimal(n),
    decreases n,
{
    if n >= 10 {
        decimals_are_plain(n / 10);
    }
}

/// Texts are joined with the separator between neighbours.
pub proof fn texts_are_joined_by_the_separator(list: Seq<Seq<char>>, sep: Seq<char>, s: Seq<char>)
    ensures
        joined(Seq::empty(), sep) == Seq::<char>::empty(),
        joined(seq![s], sep) == s,
        list.len() > 0 ==> joined(list.push(s), sep) == joined(list, sep) + sep + s,
{
    assert(list.push(s).drop_last() =~= list);
}

/// From an error text the quotation marks and the line breaks are taken out one by one, and
/// nothing else.
pub proof fn error_texts_lose_quotes_and_breaks(s: Seq<char>, c: char)
    ensures
        sanitized(Seq::empty()) == Seq::<char>::empty(),
        sanitized(s.push(c)) == if c == '"' || c == '\n' || c == '\r' {
            sanitized(s)
        } else {
            sanitized(s).push(c)
        },
{
    reveal(Seq::filter);
    assert(s.push(c).drop_last() =~= s);
}

/// Of a text the ASCII letters and digits are kept one by one, and nothing else.
pub proof fn letters_and_digits_are_kept(s: Seq<char>, c: char)
    ensures
        alphanumerics(Seq::empty()) == Seq::<char>::empty(),
        alphanumerics(s.push(c)) == if 'a' <= c <= 'z' || 'A' <= c <= 'Z' || '0' <= c <= '9' {
            alphanumerics(s).push(c)
        } else {
            alphanumerics(s)
        },
{
    reveal(Seq::filter);
    assert(s.push(c).drop_last() =~= s);
}

/// A clipped text is the beginning of the text, with as many characters as are admitted.
pub proof fn clipped_texts_are_beginnings(s: Seq<char>, n: nat)
    ensures
        clipped(s, n).is_prefix_of(s),
        clipped(s, n).len() == if s.len() <= n {
            s.len()
        } else {
            n
        },
{
    assert(clipped(s, n) =~= s.subrange(0, clipped(s, n).len() as int));
}

/// An object has the members that were put into it, the last under each key, and no others.
pub proof fn objects_have_their_members(
    members: Map<Seq<char>, JsonModel>,
    key: Seq<char>,
    value: JsonModel,
    items: Seq<JsonModel>,
    i: int,
)
    ensures
        JsonModel::empty() == JsonModel::Object(Map::empty()),
        JsonModel::Object(members).with(key, value) == JsonModel::Object(
            members.insert(key, value),
        ),
        JsonModel::Object(members).member(key) == if members.contains_key(key) {
            members[key]
        } else {
            JsonModel::Null
        },
        JsonModel::Array(items).member(key) == JsonModel::Null,
        JsonModel::Array(items).element(i) == if 0 <= i < items.len() {
            items[i]
        } else {
            JsonModel::Null
        },
        JsonModel::Object(members).element(i) == JsonModel::Null,
{
}

/// A JSON answer has the given status, the headers for JSON that any page may read, and the
/// JSON text of the value as its body.
pub proof fn json_answers_carry_the_value(status: u16, m: JsonModel)
    ensures
        json_reply(status, m).status == status,
        json_reply(status, m).headers == seq![
            ("content-type"@, "application/json"@),
            ("access-control-allow-origin"@, "*"@),
        ],
        json_reply(status, m).body == encode_utf8(json_text(m)),
        json_reply(status, m) == text_reply(status, json_text(m)),
        json_bytes(m) == encode_utf8(json_text(m)),
{
    assert(json_reply(status, m).headers =~= seq![
        ("content-type"@, "application/json"@),
        ("access-control-allow-origin"@, "*"@),
    ]);
}

} // verus!
