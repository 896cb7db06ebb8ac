//! Text operations on `str` and `String`, stated over sequences of characters.

use vstd::prelude::*;

verus! {

/// `String::push` appends one character at the end.
pub assume_specification[ String::push ](s: &mut String, c: char)
    ensures
        final(s)@ == old(s)@.push(c),
;

/// The texts of `parts` one after the other, with `sep` between neighbours.
pub open spec fn joined(parts: Seq<Seq<char>>, sep: Seq<char>) -> Seq<char>
    decreases parts.len(),
{
    if parts.len() == 0 {
        Seq::empty()
    } else if parts.len() == 1 {
        parts[0]
    } else {
        joined(parts.drop_last(), sep) + sep + parts.last()
    }
}

/// `itertools::join` writes every item with `Display`, which for a `String` is
/// its text, and puts `sep` between neighbours; no items give the empty text.
#[verifier::external_body]
pub(crate) fn join_texts(parts: &Vec<String>, sep: &str) -> (r: String)
    ensures
        r@ == joined(parts.deep_view(), sep@),
{
    itertools::join(parts, sep)
}

/// Texts that do not contain the separator can be told from how they are
/// joined.
pub proof fn joined_is_injective(s: Seq<Seq<char>>, t: Seq<Seq<char>>, sep: char)
    requires
        s.len() > 0,
        t.len() > 0,
        forall|i: int| 0 <= i < s.len() ==> !(#[trigger] s[i]).contains(sep),
        forall|i: int| 0 <= i < t.len() ==> !(#[trigger] t[i]).contains(sep),
        joined(s, seq![sep]) == joined(t, seq![sep]),
    ensures
        s == t,
    decreases s.len(),
{
    let whole = joined(s, seq![sep]);
    let n = s.len();
    let m = t.len();
    let p = whole.len() - s.last().len() - 1;
    let q = whole.len() - t.last().len() - 1;
    assert(n > 1 ==> whole[p] == sep);
    assert(m > 1 ==> whole[q] == sep);
    assert(whole.skip(p + 1) =~= s.last());
    assert(whole.skip(q + 1) =~= t.last());
    if n > 1 && (m == 1 || q < p) {
        assert(t.last()[p - (q + 1)] == sep);
        assert(t.last().contains(sep));
    }
    if m > 1 && (n == 1 || p < q) {
        assert(s.last()[q - (p + 1)] == sep);
        assert(s.last().contains(sep));
    }
    if n > 1 {
        let s0 = s.drop_last();
        let t0 = t.drop_last();
        assert(joined(s0, seq![sep]) =~= whole.take(p));
        assert(joined(t0, seq![sep]) =~= whole.take(q));
        assert forall|i: int| 0 <= i < s0.len() implies !(#[trigger] s0[i]).contains(sep) by {
            assert(s0[i] == s[i]);
        }
        assert forall|i: int| 0 <= i < t0.len() implies !(#[trigger] t0[i]).contains(sep) by {
            assert(t0[i] == t[i]);
        }
        joined_is_injective(s0, t0, sep);
    }
    assert(s =~= s.drop_last().push(s.last()));
    assert(t =~= t.drop_last().push(t.last()));
    assert(s.drop_last() =~= t.drop_last());
}

/// The characters of `s` in order.
pub fn chars_of(s: &str) -> (r: Vec<char>)
    ensures
        r@ == s@,
{
    let mut r: Vec<char> = Vec::new();
    for c in it: s.chars()
        invariant
            r@ == it.seq().take(it.index()),
            it.seq() == s@,
    {
        r.push(c);
    }
    r
}

/// The text made of `chars[from..to]`.
pub fn text_of(chars: &Vec<char>, from: usize, to: usize) -> (r: String)
    requires
        from <= to <= chars.len(),
    ensures
        r@ == chars@.subrange(from as int, to as int),
{
    let mut r = String::new();
    let mut i: usize = from;
    while i < to
        invariant
            from <= i <= to <= chars.len(),
            r@ == chars@.subrange(from as int, i as int),
        decreases to - i,
    {
        r.push(chars[i]);
        i = i + 1;
    }
    r
}

/// The lower-case form of an ASCII letter; every other character is its own.
pub open spec fn ascii_lower(c: char) -> char {
    if 'A' <= c && c <= 'Z' {
        ((c as int) + 32) as char
    } else {
        c
    }
}

/// `s` with its ASCII letters in lower case.
pub open spec fn ascii_lowered(s: Seq<char>) -> Seq<char> {
    s.map_values(|c: char| ascii_lower(c))
}

fn lower_char(c: char) -> (r: char)
    ensures
        r == ascii_lower(c),
{
    if 'A' <= c && c <= 'Z' {
        ((c as u8) + 32) as char
    } else {
        c
    }
}

/// `s` with its ASCII letters in lower case.
pub fn to_ascii_lowercase(s: &str) -> (r: String)
    ensures
        r@ == ascii_lowered(s@),
{
    let mut r = String::new();
    for c in it: s.chars()
        invariant
            r@ == ascii_lowered(it.seq().take(it.index())),
            it.seq() == s@,
    {
        r.push(lower_char(c));
    }
    assert(s@.take(s@.len() as int) == s@);
    r
}

/// Whether two texts are equal up to the case of ASCII letters.
pub fn eq_ignore_ascii_case(a: &str, b: &str) -> (r: bool)
    ensures
        r == (ascii_lowered(a@) == ascii_lowered(b@)),
{
    to_ascii_lowercase(a) == to_ascii_lowercase(b)
}

/// `s` with every occurrence of `from` replaced by the text `to`.
pub open spec fn replaced(s: Seq<char>, from: char, to: Seq<char>) -> Seq<char>
    decreases s.len(),
{
    if s.len() == 0 {
        Seq::empty()
    } else {
        replaced(s.drop_last(), from, to) + if s.last() == from {
            to
        } else {
            seq![s.last()]
        }
    }
}

/// `s` with every occurrence of `from` replaced by the text `to`.
pub fn replace_char(s: &str, from: char, to: &str) -> (r: String)
    ensures
        r@ == replaced(s@, from, to@),
{
    let mut r = String::new();
    for c in it: s.chars()
        invariant
            r@ == replaced(it.seq().take(it.index()), from, to@),
            it.seq() == s@,
    {
        proof {
            let next = it.seq().take(it.index() + 1);
            assert(next.drop_last() == it.seq().take(it.index()));
            assert(next.last() == c);
        }
        if c == from {
            r.append(to);
        } else {
            r.push(c);
        }
    }
    assert(s@.take(s@.len() as int) == s@);
    r
}

/// The first line of `s`, without the line feed that ends it and without a
/// carriage return directly before that line feed.
pub open spec fn first_line(s: Seq<char>) -> Seq<char> {
    if s.contains('\n') {
        let line = s.take(s.index_of_first('\n')->0);
        if line.len() > 0 && line.last() == '\r' {
            line.drop_last()
        } else {
            line
        }
    } else {
        s
    }
}

/// Whether `c` has the Unicode property `White_Space`.
pub open spec fn white_space(c: char) -> bool {
    let u = c as int;
    ||| 0x09 <= u <= 0x0d
    ||| u == 0x20
    ||| u == 0x85
    ||| u == 0xa0
    ||| u == 0x1680
    ||| 0x2000 <= u <= 0x200a
    ||| u == 0x2028
    ||| u == 0x2029
    ||| u == 0x202f
    ||| u == 0x205f
    ||| u == 0x3000
}

/// Whether `c` has the Unicode property `White_Space`.
pub fn is_white_space(c: char) -> (r: bool)
    ensures
        r == white_space(c),
{
    let u: u32 = c as u32;
    (0x09 <= u && u <= 0x0d) || u == 0x20 || u == 0x85 || u == 0xa0 || u == 0x1680 || (0x2000 <= u
        && u <= 0x200a) || u == 0x2028 || u == 0x2029 || u == 0x202f || u == 0x205f || u == 0x3000
}

/// `s` without the white space at its start.
pub open spec fn trimmed_start(s: Seq<char>) -> Seq<char>
    decreases s.len(),
{
    if s.len() > 0 && white_space(s.first()) {
        trimmed_start(s.drop_first())
    } else {
        s
    }
}

/// `s` without the white space at its end.
pub open spec fn trimmed_end(s: Seq<char>) -> Seq<char>
    decreases s.len(),
{
    if s.len() > 0 && white_space(s.last()) {
        trimmed_end(s.drop_last())
    } else {
        s
    }
}

/// `s` without the white space at both ends.
pub open spec fn trimmed(s: Seq<char>) -> Seq<char> {
    trimmed_end(trimmed_start(s))
}

/// Where the first line of `chars` ends.
fn first_line_end(chars: &Vec<char>) -> (end: usize)
    ensures
        end <= chars.len(),
        first_line(chars@) == chars@.take(end as int),
{
    let mut i: usize = 0;
    while i < chars.len()
        invariant
            i <= chars.len(),
            forall|j: int| 0 <= j < i ==> chars@[j] != '\n',
        decreases chars.len() - i,
    {
        if chars[i] == '\n' {
            proof {
                assert(chars@.contains('\n'));
                chars@.index_of_first_ensures('\n');
                assert(chars@.index_of_first('\n') == Some(i as int));
            }
            if i > 0 && chars[i - 1] == '\r' {
                return i - 1;
            }
            return i;
        }
        i = i + 1;
    }
    i
}

/// The first line of `s`, without white space at its ends.
pub fn first_line_trimmed(s: &str) -> (r: String)
    ensures
        r@ == trimmed(first_line(s@)),
{
    let chars = chars_of(s);
    let end = first_line_end(&chars);
    let ghost line = first_line(s@);
    let mut from: usize = 0;
    assert(line.skip(0) == line);
    while from < end && is_white_space(chars[from])
        invariant
            from <= end <= chars.len(),
            line == chars@.take(end as int),
            trimmed_start(line) == trimmed_start(line.skip(from as int)),
        decreases end - from,
    {
        proof {
            assert(line.skip(from as int).drop_first() == line.skip(from + 1));
        }
        from = from + 1;
    }
    proof {
        assert(trimmed_start(line) == line.skip(from as int));
        assert(line.skip(from as int) == chars@.subrange(from as int, end as int));
    }
    let mut to: usize = end;
    while to > from && is_white_space(chars[to - 1])
        invariant
            from <= to <= end <= chars.len(),
            trimmed_end(chars@.subrange(from as int, end as int)) == trimmed_end(
                chars@.subrange(from as int, to as int),
            ),
        decreases to,
    {
        proof {
            assert(chars@.subrange(from as int, to as int).drop_last() == chars@.subrange(
                from as int,
                to - 1,
            ));
        }
        to = to - 1;
    }
    text_of(&chars, from, to)
}

/// `s` cut to its first `max` characters with an ellipsis behind them, or `s`
/// itself where it is no longer than that.
pub open spec fn ellipsized(s: Seq<char>, max: nat) -> Seq<char> {
    if s.len() > max {
        s.take(max as int).push('…')
    } else {
        s
    }
}

/// `s` cut to its first `max` characters with an ellipsis behind them, or `s`
/// itself where it is no longer than that.
pub fn ellipsize(s: &str, max: usize) -> (r: String)
    ensures
        r@ == ellipsized(s@, max as nat),
{
    let chars = chars_of(s);
    if chars.len() > max {
        let mut r = text_of(&chars, 0, max);
        r.push('…');
        r
    } else {
        s.to_owned()
    }
}

/// The decimal digit for `d`.
pub open spec fn decimal_digit(d: nat) -> char {
    (('0' as int) + d) as char
}

/// `n` in decimal digits without leading zeros.
pub open spec fn decimal(n: nat) -> Seq<char>
    decreases n,
{
    if n < 10 {
        seq![decimal_digit(n)]
    } else {
        decimal(n / 10).push(decimal_digit(n % 10))
    }
}

/// Different numbers have different decimal digits.
pub proof fn decimal_is_injective(a: nat, b: nat)
    requires
        decimal(a) == decimal(b),
    ensures
        a == b,
    decreases a,
{
    let s = decimal(a);
    let t = decimal(b);
    lemma_decimal_len(a);
    lemma_decimal_len(b);
    assert(s.last() == decimal_digit(a % 10));
    assert(t.last() == decimal_digit(b % 10));
    assert(a % 10 == b % 10);
    if a >= 10 {
        assert(s.drop_last() =~= decimal(a / 10));
        assert(t.drop_last() =~= decimal(b / 10));
        decimal_is_injective(a / 10, b / 10);
    }
}

proof fn lemma_decimal_len(n: nat)
    ensures
        decimal(n).len() >= 1,
        decimal(n).len() == 1 <==> n < 10,
    decreases n,
{
    if n >= 10 {
        lemma_decimal_len(n / 10);
    }
}

/// `n` in decimal digits without leading zeros.
pub fn decimal_text(n: usize) -> (r: String)
    ensures
        r@ == decimal(n as nat),
    decreases n,
{
    let mut r = if n < 10 {
        String::new()
    } else {
        decimal_text(n / 10)
    };
    let digit: u8 = (n % 10) as u8;
    r.push((48u8 + digit) as char);
    r
}

/// The lower-case hexadecimal digit for `d`.
pub open spec fn hex_digit(d: int) -> char {
    if d < 10 {
        (('0' as int) + d) as char
    } else {
        (('a' as int) + d - 10) as char
    }
}

/// Two lower-case hexadecimal digits for every byte, the high half first.
pub open spec fn hex(bytes: Seq<u8>) -> Seq<char> {
    Seq::new(
        2 * bytes.len(),
        |i: int|
            hex_digit(
                if i % 2 == 0 {
                    bytes[i / 2] as int / 16
                } else {
                    bytes[i / 2] as int % 16
                },
            ),
    )
}

fn hex_char(d: u8) -> (r: char)
    requires
        d < 16,
    ensures
        r == hex_digit(d as int),
{
    if d < 10 {
        (48u8 + d) as char
    } else {
        (87u8 + d) as char
    }
}

/// Two lower-case hexadecimal digits for each of the first `count` bytes.
pub fn hex_text(bytes: &Vec<u8>, count: usize) -> (r: String)
    requires
        count <= bytes.len(),
    ensures
        r@ == hex(bytes@.take(count as int)),
{
    let mut r = String::new();
    let mut i: usize = 0;
    while i < count
        invariant
            i <= count <= bytes.len(),
            r@ == hex(bytes@.take(i as int)),
        decreases count - i,
    {
        r.push(hex_char(bytes[i] / 16));
        r.push(hex_char(bytes[i] % 16));
        i = i + 1;
    }
    r
}

/// No texts join to the empty text, and one text joins to itself.
pub proof fn few_texts_are_joined(part: Seq<char>, sep: Seq<char>)
    ensures
        joined(Seq::empty(), sep).len() == 0,
        joined(seq![part], sep) == part,
{
}

/// Two lists of texts join to the first list joined, the separator, and the
/// second list joined.
pub proof fn joined_lists_are_separated(a: Seq<Seq<char>>, b: Seq<Seq<char>>, sep: Seq<char>)
    requires
        a.len() > 0,
        b.len() > 0,
    ensures
        joined(a + b, sep) == joined(a, sep) + sep + joined(b, sep),
    decreases b.len(),
{
    let both = a + b;
    assert(both.last() == b.last());
    if b.len() == 1 {
        assert(both.drop_last() =~= a);
    } else {
        let rest = b.drop_last();
        joined_lists_are_separated(a, rest, sep);
        assert(both.drop_last() =~= a + rest);
        assert(joined(a, sep) + sep + joined(rest, sep) + sep + b.last() =~= joined(a, sep) + sep
            + joined(b, sep));
    }
}

/// Putting a text in lower case moves the capitals from A to Z by the distance
/// to their small letters, and keeps every other character.
pub proof fn lowering_moves_capitals_only(s: Seq<char>)
    ensures
        ascii_lowered(s).len() == s.len(),
        forall|i: int|
            0 <= i < s.len() ==> {
                let from = #[trigger] s[i] as int;
                let to = ascii_lowered(s)[i] as int;
                &&& 65 <= from <= 90 ==> to == from + 32
                &&& !(65 <= from <= 90) ==> to == from
            },
{
}

/// Replacing a character goes through a text piece by piece: the character
/// itself becomes the replacement, and every other one stays.
pub proof fn replacing_goes_by_pieces(a: Seq<char>, b: Seq<char>, from: char, to: Seq<char>)
    ensures
        replaced(a + b, from, to) == replaced(a, from, to) + replaced(b, from, to),
        replaced(seq![from], from, to) == to,
        !a.contains(from) ==> replaced(a, from, to) == a,
    decreases a.len() + b.len(),
{
    reveal_with_fuel(replaced, 2);
    assert(seq![from].drop_last() =~= Seq::empty());
    assert(Seq::<char>::empty() + to =~= to);
    if b.len() == 0 {
        assert(a + b =~= a);
        assert(replaced(a, from, to) + replaced(b, from, to) =~= replaced(a, from, to));
        if a.len() > 0 {
            let rest = a.drop_last();
            replacing_goes_by_pieces(rest, b, from, to);
            if !a.contains(from) {
                assert(a[a.len() - 1] != from);
                assert forall|c: char| rest.contains(c) implies a.contains(c) by {
                    let i = choose|i: int| 0 <= i < rest.len() && rest[i] == c;
                    assert(a[i] == c);
                }
                assert(rest + seq![a.last()] =~= a);
            }
        }
    } else {
        let rest = b.drop_last();
        replacing_goes_by_pieces(a, rest, from, to);
        assert((a + b).drop_last() =~= a + rest);
        assert((a + b).last() == b.last());
        let end = if b.last() == from {
            to
        } else {
            seq![b.last()]
        };
        assert(replaced(a, from, to) + replaced(rest, from, to) + end =~= replaced(a, from, to) + (
        replaced(rest, from, to) + end));
    }
}

/// The first line of a text starts the text and holds no line feed. It is the
/// whole text unless there is a line feed, and then a line feed follows it,
/// with or without a carriage return before.
pub proof fn first_line_ends_at_line_feed(s: Seq<char>)
    ensures
        ({
            let n = first_line(s).len() as int;
            &&& n <= s.len()
            &&& first_line(s) == s.take(n)
            &&& !first_line(s).contains('\n')
            &&& !s.contains('\n') ==> n == s.len()
            &&& s.contains('\n') ==> {
                ||| n < s.len() && s[n] == '\n' && (n == 0 || s[n - 1] != '\r')
                ||| n + 1 < s.len() && s[n] == '\r' && s[n + 1] == '\n'
            }
        }),
{
    if s.contains('\n') {
        s.index_of_first_ensures('\n');
        let at = s.index_of_first('\n')->0;
        let line = first_line(s);
        assert(line =~= s.take(line.len() as int));
        assert forall|i: int| 0 <= i < line.len() implies line[i] != '\n' by {
            assert(line[i] == s[i]);
        }
    } else {
        assert(s.take(s.len() as int) =~= s);
    }
}

/// The characters that count as white space.
pub proof fn white_space_is_listed(c: char)
    ensures
        ({
            let u = c as int;
            white_space(c) <==> u == 9 || u == 10 || u == 11 || u == 12 || u == 13 || u == 32 || u
                == 133 || u == 160 || u == 5760 || u == 8192 || u == 8193 || u == 8194 || u == 8195
                || u == 8196 || u == 8197 || u == 8198 || u == 8199 || u == 8200 || u == 8201 || u
                == 8202 || u == 8232 || u == 8233 || u == 8239 || u == 8287 || u == 12288
        }),
{
}

/// Trimming a text gives the part from `r.0` to `r.1`: what it cuts off at both
/// ends is white space, and what it leaves does not start or end with any.
pub proof fn trimming_cuts_white_space(s: Seq<char>) -> (r: (int, int))
    ensures
        0 <= r.0 <= r.1 <= s.len(),
        trimmed(s) == s.subrange(r.0, r.1),
        forall|i: int| 0 <= i < r.0 || r.1 <= i < s.len() ==> white_space(#[trigger] s[i]),
        r.0 < r.1 ==> !white_space(s[r.0]) && !white_space(s[r.1 - 1]),
{
    let from = lemma_trimmed_start(s);
    let rest = s.skip(from);
    let to = lemma_trimmed_end(rest);
    assert(trimmed(s) == rest.take(to));
    assert(rest.take(to) =~= s.subrange(from, from + to));
    assert forall|i: int| 0 <= i < from || from + to <= i < s.len() implies white_space(
        #[trigger] s[i],
    ) by {
        if from + to <= i {
            assert(rest[i - from] == s[i]);
        }
    }
    if to > 0 {
        assert(rest[0] == s[from] && rest[to - 1] == s[from + to - 1]);
    }
    (from, from + to)
}

proof fn lemma_trimmed_start(s: Seq<char>) -> (from: int)
    ensures
        0 <= from <= s.len(),
        trimmed_start(s) == s.skip(from),
        forall|i: int| 0 <= i < from ==> white_space(#[trigger] s[i]),
        from < s.len() ==> !white_space(s[from]),
    decreases s.len(),
{
    if s.len() > 0 && white_space(s.first()) {
        let rest = s.drop_first();
        let from = lemma_trimmed_start(rest);
        assert(rest.skip(from) =~= s.skip(from + 1));
        assert forall|i: int| 0 <= i < from + 1 implies white_space(#[trigger] s[i]) by {
            if i > 0 {
                assert(rest[i - 1] == s[i]);
            }
        }
        from + 1
    } else {
        assert(s.skip(0) =~= s);
        0
    }
}

proof fn lemma_trimmed_end(s: Seq<char>) -> (to: int)
    ensures
        0 <= to <= s.len(),
        trimmed_end(s) == s.take(to),
        forall|i: int| to <= i < s.len() ==> white_space(#[trigger] s[i]),
        to > 0 ==> !white_space(s[to - 1]),
    decreases s.len(),
{
    if s.len() > 0 && white_space(s.last()) {
        let rest = s.drop_last();
        let to = lemma_trimmed_end(rest);
        assert(rest.take(to) =~= s.take(to));
        assert forall|i: int| to <= i < s.len() implies white_space(#[trigger] s[i]) by {
            if i < rest.len() {
                assert(rest[i] == s[i]);
            }
        }
        to
    } else {
        assert(s.take(s.len() as int) =~= s);
        s.len() as int
    }
}

/// A text that fits is kept. A longer one keeps its first `max` characters and
/// ends with an ellipsis behind them.
pub proof fn long_text_ends_with_ellipsis(s: Seq<char>, max: nat)
    ensures
        s.len() <= max ==> ellipsized(s, max) == s,
        s.len() > max ==> {
            &&& ellipsized(s, max).len() == max + 1
            &&& ellipsized(s, max)[max as int] == '…'
            &&& forall|i: int| 0 <= i < max ==> #[trigger] ellipsized(s, max)[i] == s[i]
        },
{
}

/// The number that decimal digits spell.
pub open spec fn decimal_value(digits: Seq<char>) -> int
    decreases digits.len(),
{
    if digits.len() == 0 {
        0
    } else {
        10 * decimal_value(digits.drop_last()) + (digits.last() as int - '0' as int)
    }
}

/// The decimal digits of a number spell the number, and zero leads only where
/// it stands alone.
pub proof fn decimal_spells_number(n: nat)
    ensures
        decimal_value(decimal(n)) == n,
        forall|i: int| 0 <= i < decimal(n).len() ==> '0' <= #[trigger] decimal(n)[i] <= '9',
        decimal(n).len() > 0,
        decimal(n)[0] == '0' ==> n == 0,
    decreases n,
{
    reveal_with_fuel(decimal_value, 2);
    if n < 10 {
        assert(decimal(n).drop_last() =~= Seq::empty());
    } else {
        decimal_spells_number(n / 10);
        assert(decimal(n).drop_last() =~= decimal(n / 10));
        assert(decimal(n)[0] == decimal(n / 10)[0]);
    }
}

/// The value of a hexadecimal digit in lower case.
pub open spec fn hex_value(c: char) -> int {
    if '0' <= c && c <= '9' {
        c as int - '0' as int
    } else {
        c as int - 'a' as int + 10
    }
}

/// Every byte has two digits from 0 to 9 or a to f, which spell it with the
/// high half first.
pub proof fn hex_spells_bytes(bytes: Seq<u8>)
    ensures
        hex(bytes).len() == 2 * bytes.len(),
        forall|i: int|
            0 <= i < bytes.len() ==> #[trigger] bytes[i] == 16 * hex_value(hex(bytes)[2 * i])
                + hex_value(hex(bytes)[2 * i + 1]),
        forall|i: int|
            0 <= i < hex(bytes).len() ==> {
                let c = #[trigger] hex(bytes)[i];
                ('0' <= c && c <= '9') || ('a' <= c && c <= 'f')
            },
{
    assert forall|i: int| 0 <= i < bytes.len() implies #[trigger] bytes[i] == 16 * hex_value(
        hex(bytes)[2 * i],
    ) + hex_value(hex(bytes)[2 * i + 1]) by {
        let b = bytes[i] as int;
        assert((2 * i) / 2 == i && (2 * i) % 2 == 0);
        assert((2 * i + 1) / 2 == i && (2 * i + 1) % 2 == 1);
        assert(0 <= b / 16 < 16 && 0 <= b % 16 < 16 && b == 16 * (b / 16) + b % 16);
    }
    assert forall|i: int| 0 <= i < hex(bytes).len() implies {
        let c = #[trigger] hex(bytes)[i];
        ('0' <= c && c <= '9') || ('a' <= c && c <= 'f')
    } by {
        let b = bytes[i / 2] as int;
        assert(0 <= b / 16 < 16 && 0 <= b % 16 < 16);
    }
}

} // verus!
