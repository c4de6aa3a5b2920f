//! Reading the colour and the touchpad settings that the user gives as text.

use vstd::prelude::*;

verus! {

broadcast use vstd::string::axiom_spec_iter;

/// The characters of `value`, in order.
pub fn chars_of(value: &str) -> (r: Vec<char>)
    ensures
        r@ == value@,
{
    let mut out: Vec<char> = Vec::new();
    for c in it: value.chars()
        invariant
            out@ == it.seq().take(it.index() as int),
    {
        out.push(c);
        assert(out@ =~= it.seq().take(it.index() as int + 1));
    }
    assert(out@ =~= value@);
    out
}

/// Background colour used when none is configured (opaque, ARGB).
pub const DEFAULT_BACKGROUND_COLOR: u32 = 0xff101418;

/// The lower-case hexadecimal digit for `d` (below 16).
pub open spec fn hex_char(d: u32) -> char {
    if d < 10 { (0x30 + d) as char } else { (0x61 + d - 10) as char }
}

/// The eight hexadecimal digits of `c`, most significant first.
pub open spec fn hex_spelling(c: u32) -> Seq<char> {
    Seq::new(8, |i: int| hex_char(((c as int / pow16((7 - i) as nat) as int) % 16) as u32))
}

/// Unicode `White_Space`, the characters that trimming removes.
pub open spec fn is_white_space(c: char) -> bool {
    let n = c as u32;
    ||| 0x09 <= n <= 0x0d
    ||| n == 0x20
    ||| n == 0x85
    ||| n == 0xa0
    ||| n == 0x1680
    ||| 0x2000 <= n <= 0x200a
    ||| n == 0x2028
    ||| n == 0x2029
    ||| n == 0x202f
    ||| n == 0x205f
    ||| n == 0x3000
}

/// `s` without its leading white space.
pub open spec fn trim_start(s: Seq<char>) -> Seq<char>
    decreases s.len(),
{
    if s.len() > 0 && is_white_space(s[0]) { trim_start(s.drop_first()) } else { s }
}

/// `s` without its trailing white space.
pub open spec fn trim_end(s: Seq<char>) -> Seq<char>
    decreases s.len(),
{
    if s.len() > 0 && is_white_space(s.last()) { trim_end(s.drop_last()) } else { s }
}

/// `s` without white space at either end.
pub open spec fn trim(s: Seq<char>) -> Seq<char> {
    trim_end(trim_start(s))
}

/// `s` without its leading `#` characters.
pub open spec fn strip_hashes(s: Seq<char>) -> Seq<char>
    decreases s.len(),
{
    if s.len() > 0 && s[0] == '#' { strip_hashes(s.drop_first()) } else { s }
}

/// The value of a hexadecimal digit (either case).
pub open spec fn hex_digit(c: char) -> Option<u32> {
    let n = c as u32;
    if 0x30 <= n <= 0x39 {
        Some((n - 0x30) as u32)
    } else if 0x61 <= n <= 0x66 {
        Some((n - 0x61 + 10) as u32)
    } else if 0x41 <= n <= 0x46 {
        Some((n - 0x41 + 10) as u32)
    } else {
        None
    }
}

/// Every character of `s` is a hexadecimal digit.
pub open spec fn all_hex(s: Seq<char>) -> bool {
    forall|i: int| 0 <= i < s.len() ==> #[trigger] hex_digit(s[i]) is Some
}

/// The number that the hexadecimal digits `s` write.
pub open spec fn hex_value(s: Seq<char>) -> nat
    decreases s.len(),
{
    if s.len() == 0 { 0 } else { hex_value(s.drop_last()) * 16 + (hex_digit(s.last())->0) as nat }
}

pub open spec fn pow16(n: nat) -> nat
    decreases n,
{
    if n == 0 { 1 } else { 16 * pow16((n - 1) as nat) }
}

/// The digits of a number in base 16 as `u32::from_str_radix` reads them: an
/// optional leading `+` (not alone) followed by the digits.
pub open spec fn radix16_digits(s: Seq<char>) -> Seq<char> {
    if s.len() > 1 && s[0] == '+' { s.drop_first() } else { s }
}

/// What `u32::from_str_radix(s, 16)` gives: the value when `s` is a non-empty
/// run of hexadecimal digits (optionally after `+`) that fits in `u32`.
pub open spec fn parse_hex_u32(s: Seq<char>) -> Option<u32> {
    let d = radix16_digits(s);
    if s.len() > 0 && all_hex(d) && hex_value(d) <= u32::MAX {
        Some(hex_value(d) as u32)
    } else {
        None
    }
}

/// The colour that `value` names: after trimming white space and leading `#`
/// signs, six hexadecimal digits give an opaque RGB colour (alpha `0xff`) and
/// eight give an ARGB colour; anything else names none.
pub open spec fn color_of(value: Seq<char>) -> Option<u32> {
    let cleaned = strip_hashes(trim(value));
    if cleaned.len() == 6 && parse_hex_u32(cleaned) is Some {
        Some((0xff00_0000 + parse_hex_u32(cleaned)->0) as u32)
    } else if cleaned.len() == 8 {
        parse_hex_u32(cleaned)
    } else {
        None
    }
}

/// The background colour: the one named by the setting when it names one,
/// else `DEFAULT_BACKGROUND_COLOR`.
pub open spec fn background_color_of(setting: Option<Seq<char>>) -> u32 {
    match setting {
        Some(v) => match color_of(v) {
            Some(c) => c,
            None => DEFAULT_BACKGROUND_COLOR,
        },
        None => DEFAULT_BACKGROUND_COLOR,
    }
}

pub proof fn lemma_hex_value_bound(s: Seq<char>)
    requires
        all_hex(s),
    ensures
        hex_value(s) < pow16(s.len()),
    decreases s.len(),
{
    if s.len() > 0 {
        assert(all_hex(s.drop_last())) by {
            assert forall|i: int| 0 <= i < s.drop_last().len() implies #[trigger] hex_digit(s.drop_last()[i]) is Some by {
                assert(s.drop_last()[i] == s[i]);
                assert(hex_digit(s[i]) is Some);
            }
        }
        assert(hex_digit(s[s.len() - 1]) is Some);
        lemma_hex_value_bound(s.drop_last());
    }
}

fn is_white_space_char(c: char) -> (r: bool)
    ensures
        r == is_white_space(c),
{
    let n = c as u32;
    (0x09 <= n && n <= 0x0d) || n == 0x20 || n == 0x85 || n == 0xa0 || n == 0x1680
        || (0x2000 <= n && n <= 0x200a) || n == 0x2028 || n == 0x2029 || n == 0x202f || n == 0x205f
        || n == 0x3000
}

fn hex_digit_value(c: char) -> (r: Option<u32>)
    ensures
        r == hex_digit(c),
{
    let n = c as u32;
    if 0x30 <= n && n <= 0x39 {
        Some(n - 0x30)
    } else if 0x61 <= n && n <= 0x66 {
        Some(n - 0x61 + 10)
    } else if 0x41 <= n && n <= 0x46 {
        Some(n - 0x41 + 10)
    } else {
        None
    }
}

/// The bounds `(start, end)` of `s` trimmed of white space.
fn trim_bounds(s: &Vec<char>) -> (r: (usize, usize))
    ensures
        r.0 <= r.1 <= s@.len(),
        s@.subrange(r.0 as int, r.1 as int) == trim(s@),
{
    let n = s.len();
    let mut start: usize = 0;
    assert(s@.subrange(0, n as int) =~= s@);
    while start < n && is_white_space_char(s[start])
        invariant
            start <= n,
            n == s@.len(),
            trim_start(s@) == trim_start(s@.subrange(start as int, n as int)),
        decreases n - start,
    {
        assert(s@.subrange(start as int, n as int).drop_first() =~= s@.subrange(start + 1, n as int));
        start += 1;
    }
    let mut end: usize = n;
    assert(s@.subrange(start as int, end as int) == trim_start(s@));
    while end > start && is_white_space_char(s[end - 1])
        invariant
            start <= end <= n,
            n == s@.len(),
            trim(s@) == trim_end(s@.subrange(start as int, end as int)),
        decreases end - start,
    {
        assert(s@.subrange(start as int, end as int).drop_last() =~= s@.subrange(start as int, end - 1));
        end -= 1;
    }
    (start, end)
}

/// The bounds `(start, end)` of `s` trimmed of white space and then of leading
/// `#` signs.
fn cleaned_bounds(s: &Vec<char>) -> (r: (usize, usize))
    ensures
        r.0 <= r.1 <= s@.len(),
        s@.subrange(r.0 as int, r.1 as int) == strip_hashes(trim(s@)),
{
    let (mut start, end) = trim_bounds(s);
    let n = s.len();
    while start < end && s[start] == '#'
        invariant
            start <= end <= n,
            n == s@.len(),
            strip_hashes(trim(s@)) == strip_hashes(s@.subrange(start as int, end as int)),
        decreases end - start,
    {
        assert(s@.subrange(start as int, end as int).drop_first() =~= s@.subrange(start + 1, end as int));
        start += 1;
    }
    (start, end)
}

/// `u32::from_str_radix` in base 16 on `s[start..end]`, for at most eight
/// characters.
fn parse_hex_range(s: &Vec<char>, start: usize, end: usize) -> (r: Option<u32>)
    requires
        start <= end <= s@.len(),
        end - start <= 8,
    ensures
        r == parse_hex_u32(s@.subrange(start as int, end as int)),
{
    let ghost t = s@.subrange(start as int, end as int);
    if start == end {
        return None;
    }
    let mut first = start;
    if end - start > 1 && s[start] == '+' {
        first = start + 1;
    }
    let ghost d = s@.subrange(first as int, end as int);
    assert(d =~= radix16_digits(t));
    let mut acc: u64 = 0;
    let mut i: usize = first;
    while i < end
        invariant
            first <= i <= end <= s@.len(),
            end - first <= 8,
            d == s@.subrange(first as int, end as int),
            d == radix16_digits(t),
            t == s@.subrange(start as int, end as int),
            t.len() > 0,
            all_hex(s@.subrange(first as int, i as int)),
            acc == hex_value(s@.subrange(first as int, i as int)),
            acc < pow16((i - first) as nat),
        decreases end - i,
    {
        let ghost p = s@.subrange(first as int, i as int);
        let ghost q = s@.subrange(first as int, i + 1);
        assert(q.drop_last() =~= p);
        match hex_digit_value(s[i]) {
            Some(digit) => {
                proof {
                    assert(pow16((i + 1 - first) as nat) == 16 * pow16((i - first) as nat));
                    assert(pow16((i - first) as nat) <= pow16(8)) by {
                        lemma_pow16_monotone((i - first) as nat, 8);
                    }
                    assert(pow16(8) == 0x1_0000_0000) by {
                        reveal_with_fuel(pow16, 9);
                    }
                    assert forall|j: int| 0 <= j < q.len() implies #[trigger] hex_digit(q[j]) is Some by {
                        if j < p.len() {
                            assert(q[j] == p[j]);
                            assert(hex_digit(p[j]) is Some);
                        }
                    }
                }
                acc = acc * 16 + digit as u64;
                i += 1;
            },
            None => {
                proof {
                    assert(!all_hex(d)) by {
                        assert(d[i - first] == s@[i as int]);
                    }
                }
                return None;
            },
        }
    }
    assert(s@.subrange(first as int, end as int) == d);
    proof {
        lemma_pow16_monotone((end - first) as nat, 8);
        reveal_with_fuel(pow16, 9);
    }
    Some(acc as u32)
}

proof fn lemma_pow16_monotone(a: nat, b: nat)
    requires
        a <= b,
    ensures
        pow16(a) <= pow16(b),
    decreases b,
{
    if a < b {
        lemma_pow16_monotone(a, (b - 1) as nat);
    }
}

/// The colour that `value` names (see `color_of`).
pub fn parse_color_argb(value: &str) -> (r: Option<u32>)
    ensures
        r == color_of(value@),
{
    let s = chars_of(value);
    let (start, end) = cleaned_bounds(&s);
    let len = end - start;
    if len == 6 {
        match parse_hex_range(&s, start, end) {
            Some(rgb) => {
                proof {
                    let t = s@.subrange(start as int, end as int);
                    let d = radix16_digits(t);
                    lemma_hex_value_bound(d);
                    lemma_pow16_monotone(d.len(), 6);
                    reveal_with_fuel(pow16, 7);
                }
                Some(0xff00_0000 + rgb)
            },
            None => None,
        }
    } else if len == 8 {
        parse_hex_range(&s, start, end)
    } else {
        None
    }
}

/// The background colour for the setting `setting` (see `background_color_of`).
pub fn configured_background_color(setting: Option<&str>) -> (r: u32)
    ensures
        r == background_color_of(match setting { Some(v) => Some(v@), None => None }),
{
    match setting {
        Some(v) => match parse_color_argb(v) {
            Some(c) => c,
            None => DEFAULT_BACKGROUND_COLOR,
        },
        None => DEFAULT_BACKGROUND_COLOR,
    }
}

/// The code of `c` with ASCII capitals turned into small letters.
pub open spec fn lower_code(c: char) -> u32 {
    let n = c as u32;
    if 0x41 <= n <= 0x5a { (n + 0x20) as u32 } else { n }
}

/// `t` spells the lower-case ASCII word `word`, ignoring ASCII case.
pub open spec fn spells(t: Seq<char>, word: Seq<char>) -> bool {
    &&& t.len() == word.len()
    &&& forall|i: int| 0 <= i < t.len() ==> lower_code(#[trigger] t[i]) == word[i] as u32
}

/// A setting switches a feature on when, trimmed and ignoring ASCII case, it
/// reads `1`, `true`, `yes` or `on`.
pub open spec fn switches_on(value: Seq<char>) -> bool {
    let t = trim(value);
    ||| spells(t, seq!['1'])
    ||| spells(t, seq!['t', 'r', 'u', 'e'])
    ||| spells(t, seq!['y', 'e', 's'])
    ||| spells(t, seq!['o', 'n'])
}

/// Whether `s[start..end]` spells `word` (lower-case ASCII), ignoring ASCII case.
fn spells_range(s: &Vec<char>, start: usize, end: usize, word: &Vec<char>) -> (r: bool)
    requires
        start <= end <= s@.len(),
        forall|i: int| 0 <= i < word@.len() ==> (word@[i] as u32) < 0x80,
    ensures
        r == spells(s@.subrange(start as int, end as int), word@),
{
    let ghost t = s@.subrange(start as int, end as int);
    if end - start != word.len() {
        return false;
    }
    let mut i: usize = 0;
    while i < word.len()
        invariant
            start <= end <= s@.len(),
            end - start == word@.len(),
            t == s@.subrange(start as int, end as int),
            i <= word@.len(),
            forall|j: int| 0 <= j < i ==> lower_code(#[trigger] t[j]) == word@[j] as u32,
        decreases word.len() - i,
    {
        let n = s[start + i] as u32;
        let lower = if 0x41 <= n && n <= 0x5a { n + 0x20 } else { n };
        assert(t[i as int] == s@[start + i]);
        if lower != word[i] as u32 {
            return false;
        }
        i += 1;
    }
    true
}

/// Whether the setting `value` switches a feature on (see `switches_on`).
pub fn setting_enabled(value: &str) -> (r: bool)
    ensures
        r == switches_on(value@),
{
    let s = chars_of(value);
    let (start, end) = trim_bounds(&s);
    spells_range(&s, start, end, &vec!['1'])
        || spells_range(&s, start, end, &vec!['t', 'r', 'u', 'e'])
        || spells_range(&s, start, end, &vec!['y', 'e', 's'])
        || spells_range(&s, start, end, &vec!['o', 'n'])
}

proof fn lemma_hex_char(d: u32)
    requires
        d < 16,
    ensures
        hex_digit(hex_char(d)) == Some(d),
        !is_white_space(hex_char(d)),
        hex_char(d) != '#',
        hex_char(d) != '+',
{
}

proof fn lemma_pow16_positive(n: nat)
    ensures
        pow16(n) > 0,
    decreases n,
{
    if n > 0 {
        lemma_pow16_positive((n - 1) as nat);
    }
}

proof fn lemma_spelling_value(c: u32, k: nat)
    requires
        k <= 8,
    ensures
        all_hex(hex_spelling(c).take(k as int)),
        hex_value(hex_spelling(c).take(k as int)) == c as int / pow16((8 - k) as nat) as int,
    decreases k,
{
    let s = hex_spelling(c);
    if k == 0 {
        assert(pow16(8) == 0x1_0000_0000) by {
            reveal_with_fuel(pow16, 9);
        }
        assert(c as int / 0x1_0000_0000 == 0);
        assert(s.take(0) =~= Seq::<char>::empty());
    } else {
        let j = (k - 1) as nat;
        lemma_spelling_value(c, j);
        assert(s.take(k as int).drop_last() =~= s.take(j as int));
        let p = pow16((7 - j) as nat) as int;
        lemma_pow16_positive((7 - j) as nat);
        let q = c as int / p;
        let d = q % 16;
        assert(0 <= d < 16) by {
            vstd::arithmetic::div_mod::lemma_mod_bound(q, 16);
        }
        assert(s[j as int] == hex_char(d as u32));
        lemma_hex_char(d as u32);
        assert forall|i: int| 0 <= i < s.take(k as int).len() implies #[trigger] hex_digit(s.take(k as int)[i]) is Some by {
            if i < j {
                assert(s.take(k as int)[i] == s.take(j as int)[i]);
            } else {
                assert(s.take(k as int)[i] == s[j as int]);
            }
        }
        assert(pow16((8 - j) as nat) == 16 * pow16((7 - j) as nat));
        assert(c as int / (p * 16) == q / 16) by {
            vstd::arithmetic::div_mod::lemma_div_denominator(c as int, p, 16);
        }
        assert(q == 16 * (q / 16) + d) by {
            vstd::arithmetic::div_mod::lemma_fundamental_div_mod(q, 16);
        }
        assert(p * 16 == 16 * p) by (nonlinear_arith);
    }
}

/// Every `u32` colour, written as eight hexadecimal digits (after a `#` or
/// not), is read back as itself.
pub proof fn law_color_spelling_round_trip(c: u32)
    ensures
        color_of(hex_spelling(c)) == Some(c),
        color_of(seq!['#'] + hex_spelling(c)) == Some(c),
{
    let s = hex_spelling(c);
    lemma_spelling_value(c, 8);
    assert(s.take(8) =~= s);
    assert(pow16(0) == 1);
    lemma_pow16_positive(7);
    vstd::arithmetic::div_mod::lemma_mod_bound(c as int / pow16(7) as int, 16);
    lemma_hex_char(((c as int / pow16(7) as int) % 16) as u32);
    let last = ((c as int / pow16(0) as int) % 16) as u32;
    assert(0 <= (c as int / pow16(0) as int) % 16 < 16) by {
        vstd::arithmetic::div_mod::lemma_mod_bound(c as int / pow16(0) as int, 16);
    }
    lemma_hex_char(last);
    assert(s[0] == hex_char(((c as int / pow16(7) as int) % 16) as u32));
    assert(s[7] == hex_char(last));
    assert(trim_start(s) == s);
    assert(trim_end(s) == s);
    assert(strip_hashes(s) == s);
    assert(radix16_digits(s) == s);
    assert(all_hex(s));
    assert(hex_value(s.take(8)) == c as int / pow16(0) as int);
    assert(c as int / 1 == c);
    assert(hex_value(s) == c);
    assert(trim(s) == s);
    assert(parse_hex_u32(s) == Some(c));
    assert(s.len() == 8);
    let h = seq!['#'] + s;
    assert(h[0] == '#');
    assert(!is_white_space('#'));
    assert(trim_start(h) == h);
    assert(h.last() == s.last());
    assert(trim_end(h) == h);
    assert(h.drop_first() =~= s);
    assert(strip_hashes(h) == strip_hashes(s));
    assert(trim(h) == h);
}

} // verus!
