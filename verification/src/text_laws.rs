//! What the text operations do, said of the characters themselves.

use crate::sizes::{
    half_even, lemma_spacing_bound, list_size, nearest_double, one_place, shortened, spacing,
    two_places,
};
use crate::text::{
    contains, decimal, digits_value, is_space, joined, lemma_find_char_unique, lines, lower, number,
    occurs_at, padded_left, padded_right, trim_back, trim_front, trimmed,
};
use vstd::arithmetic::div_mod::lemma_fundamental_div_mod;
use vstd::prelude::*;

verus! {

/// All of `s` is white space.
pub open spec fn is_blank(s: Seq<char>) -> bool {
    forall|i: int| 0 <= i < s.len() ==> is_space(#[trigger] s[i])
}

/// `s` has no white space at either end.
pub open spec fn has_firm_ends(s: Seq<char>) -> bool {
    s.len() > 0 ==> !is_space(s[0]) && !is_space(s[s.len() - 1])
}

proof fn lemma_trim_front_of(a: Seq<char>, s: Seq<char>)
    requires
        is_blank(a),
        s.len() > 0 ==> !is_space(s[0]),
    ensures
        trim_front(a + s) == s,
    decreases a.len(),
{
    if a.len() == 0 {
        assert(a + s =~= s);
    } else {
        assert(is_space(a[0]));
        assert((a + s).drop_first() =~= a.drop_first() + s);
        lemma_trim_front_of(a.drop_first(), s);
    }
}

proof fn lemma_trim_back_of(s: Seq<char>, b: Seq<char>)
    requires
        is_blank(b),
        s.len() > 0 ==> !is_space(s[s.len() - 1]),
    ensures
        trim_back(s + b) == s,
    decreases b.len(),
{
    if b.len() == 0 {
        assert(s + b =~= s);
    } else {
        assert(is_space(b[b.len() - 1]));
        assert((s + b).drop_last() =~= s + b.drop_last());
        lemma_trim_back_of(s, b.drop_last());
    }
}

/// Trimming takes off the white space at both ends, all of it, and nothing else.
pub proof fn law_trimming_takes_off_the_white_space(a: Seq<char>, s: Seq<char>, b: Seq<char>)
    requires
        is_blank(a),
        is_blank(b),
        has_firm_ends(s),
    ensures
        trimmed(a + s + b) == s,
{
    if s.len() == 0 {
        assert(is_blank(a + b));
        assert(a + s + b =~= (a + b) + s);
        lemma_trim_front_of(a + b, s);
        assert(trim_back(s) == s);
    } else {
        assert(a + s + b =~= a + (s + b));
        lemma_trim_front_of(a, s + b);
        lemma_trim_back_of(s, b);
    }
}

/// A part occurs in a text exactly where the text is something, the part, and
/// something.
pub proof fn law_parts_occur(s: Seq<char>, p: Seq<char>)
    ensures
        contains(s, p) <==> exists|x: Seq<char>, y: Seq<char>| s == #[trigger] (x + p + y),
{
    if contains(s, p) {
        let i = choose|i: int| #[trigger] occurs_at(s, p, i);
        let x = s.take(i);
        let y = s.skip(i + p.len());
        assert(s =~= x + p + y) by {
            assert forall|k: int| i <= k < i + p.len() implies s[k] == p[k - i] by {
                assert(s.subrange(i, i + p.len())[k - i] == s[k]);
            }
        }
    }
    if exists|x: Seq<char>, y: Seq<char>| s == #[trigger] (x + p + y) {
        let (x, y) = choose|x: Seq<char>, y: Seq<char>| s == #[trigger] (x + p + y);
        law_part_between(x, p, y);
    }
}

/// A part between any two texts occurs in the whole.
pub proof fn law_part_between(x: Seq<char>, p: Seq<char>, y: Seq<char>)
    ensures
        contains(x + p + y, p),
{
    let s = x + p + y;
    assert(s.subrange(x.len() as int, (x.len() + p.len()) as int) =~= p);
    assert(occurs_at(s, p, x.len() as int));
}

/// The small form of a text: each of the 26 ASCII capitals becomes its small
/// letter, every other character stays.
pub proof fn law_small_letters(s: Seq<char>)
    ensures
        lower(s).len() == s.len(),
        forall|i: int|
            0 <= i < s.len() ==> (#[trigger] lower(s)[i]) as u32 == if 65 <= s[i] as u32 <= 90 {
                s[i] as u32 + 32
            } else {
                s[i] as u32 as int
            },
{
}

/// The first line of a text ends at its first line feed; a carriage return
/// before that is no part of the line.
pub proof fn law_first_line(line: Seq<char>, rest: Seq<char>)
    requires
        forall|i: int| 0 <= i < line.len() ==> line[i] != '\n',
    ensures
        line.len() == 0 || line[line.len() - 1] != '\r' ==> lines(line + seq!['\n'] + rest)
            == seq![line] + lines(rest),
        lines(line + seq!['\r', '\n'] + rest) == seq![line] + lines(rest),
{
    let s = line + seq!['\n'] + rest;
    assert(s[line.len() as int] == '\n');
    lemma_find_char_unique(s, '\n', line.len() as int);
    assert(s.take(line.len() as int) =~= line);
    assert(s.skip(line.len() as int + 1) =~= rest);
    let t = line + seq!['\r', '\n'] + rest;
    let n = line.len() as int + 1;
    assert(t[n] == '\n');
    lemma_find_char_unique(t, '\n', n);
    assert(t.take(n) =~= line.push('\r'));
    assert(line.push('\r').drop_last() =~= line);
    assert(t.skip(n + 1) =~= rest);
}

/// What follows the last line feed is a line, unless it is empty.
pub proof fn law_last_line(line: Seq<char>)
    requires
        forall|i: int| 0 <= i < line.len() ==> line[i] != '\n',
    ensures
        lines(line) == if line.len() == 0 {
            Seq::<Seq<char>>::empty()
        } else {
            seq![line]
        },
{
    lemma_find_char_unique(line, '\n', line.len() as int);
}

/// Joined texts stand one after the other, with the separator between each two
/// and nowhere else.
pub proof fn law_joined(parts: Seq<Seq<char>>, part: Seq<char>, sep: Seq<char>)
    ensures
        joined(Seq::empty(), sep) == Seq::<char>::empty(),
        joined(seq![part], sep) == part,
        parts.len() > 0 ==> joined(parts.push(part), sep) == joined(parts, sep) + sep + part,
        parts.len() > 0 ==> joined(seq![part] + parts, sep) == part + sep + joined(parts, sep),
    decreases parts.len(),
{
    assert(parts.push(part).drop_last() =~= parts);
    if parts.len() == 1 {
        let two = seq![part] + parts;
        assert(two.drop_last() =~= seq![part]);
        assert(two.last() == parts[0]);
        assert(joined(seq![part], sep) == part);
        assert(joined(two, sep) =~= part + sep + joined(parts, sep));
    } else if parts.len() > 1 {
        let all = seq![part] + parts;
        let front = parts.drop_last();
        law_joined(front, part, sep);
        assert(all.drop_last() =~= seq![part] + front);
        assert(all.last() == parts.last());
        assert(joined(all, sep) =~= part + sep + joined(parts, sep));
    }
}

/// A text of digits is read as a number digit by digit, from the left; one that
/// is too large for 64 bits is no number.
pub proof fn law_numbers_are_read_digit_by_digit(s: Seq<char>, d: char)
    requires
        forall|i: int| 0 <= i < s.len() ==> '0' <= #[trigger] s[i] <= '9',
        '0' <= d <= '9',
    ensures
        number(seq![d]) == Some((d as u32 - 48) as u64),
        number(s) matches Some(n) ==> number(s.push(d)) == if 10 * n + (d as u32 - 48) <= u64::MAX {
            Some((10 * n + (d as u32 - 48)) as u64)
        } else {
            None
        },
        s.len() > 0 && number(s) is None ==> number(s.push(d)) is None,
        s.len() > 0 ==> number(seq!['+'] + s) == number(s),
{
    let one = seq![d];
    assert(one.drop_last() =~= Seq::<char>::empty());
    assert(digits_value(one.drop_last()) == 0);
    let more = s.push(d);
    assert(more.drop_last() =~= s);
    if s.len() > 0 {
        assert('0' <= s[0]);
        assert(more[0] == s[0]);
        let signed = seq!['+'] + s;
        assert(signed.drop_first() =~= s);
    }
}

/// A text with a character in it that is no digit, but for a plus sign in front,
/// is no number, nor is one without a digit.
pub proof fn law_only_digits_are_numbers(s: Seq<char>, i: int)
    ensures
        number(Seq::empty()) is None,
        number(seq!['+']) is None,
        0 <= i < s.len() && !('0' <= s[i] <= '9') && !(i == 0 && s[i] == '+') ==> number(s) is None,
{
    if 0 <= i < s.len() && !('0' <= s[i] <= '9') && !(i == 0 && s[i] == '+') {
        if s[0] == '+' {
            assert(s.drop_first()[i - 1] == s[i]);
        }
    }
    assert(seq!['+'].drop_first() =~= Seq::<char>::empty());
}

/// A number is written digit by digit, without zeros in front.
pub proof fn law_numbers_are_written_digit_by_digit(n: nat, d: nat)
    requires
        d < 10,
    ensures
        decimal(d) == seq![(48 + d) as char],
        n > 0 ==> decimal(10 * n + d) == decimal(n).push((48 + d) as char),
{
}

/// Padding brings a text up to a width with blanks; a text that is as wide stays
/// as it is.
pub proof fn law_padding(s: Seq<char>, width: nat)
    ensures
        s.len() >= width ==> padded_right(s, width) == s && padded_left(s, width) == s,
        s.len() < width ==> padded_right(s, width).len() == width && padded_left(s, width).len()
            == width,
        padded_right(s, width).take(s.len() as int) == s,
        padded_left(s, width).skip(padded_left(s, width).len() - s.len()) == s,
        forall|i: int|
            s.len() <= i < padded_right(s, width).len() ==> #[trigger] padded_right(s, width)[i]
                == ' ',
        forall|i: int|
            0 <= i < padded_left(s, width).len() - s.len() ==> #[trigger] padded_left(s, width)[i]
                == ' ',
{
    assert(padded_right(s, width).take(s.len() as int) =~= s);
    assert(padded_left(s, width).skip(padded_left(s, width).len() - s.len()) =~= s);
    if s.len() >= width {
        assert(padded_right(s, width) =~= s);
        assert(padded_left(s, width) =~= s);
    }
}

// ---------- Byte counts ----------

/// A quotient is rounded to the nearest integer, a half to the even one.
pub proof fn law_rounding_is_to_the_nearest(n: nat, d: nat)
    requires
        d > 0,
    ensures
        -(d as int) <= 2 * (half_even(n, d) * d - n) <= d,
        2 * (half_even(n, d) * d - n) == d || 2 * (half_even(n, d) * d - n) == -(d as int)
            ==> half_even(n, d) % 2 == 0,
{
    let q = n / d;
    let r = n % d;
    lemma_fundamental_div_mod(n as int, d as int);
    assert(q * d == d * q) by (nonlinear_arith);
    assert((q + 1) * d == d * q + d) by (nonlinear_arith);
}

/// `t` tenths of a unit are as near to `n` bytes as tenths come, to the even one
/// of two.
pub open spec fn nearest_part(n: nat, unit: nat, parts: nat, t: nat) -> bool {
    &&& -(unit as int) <= 2 * (t * unit - n * parts) <= unit
    &&& (2 * (t * unit - n * parts) == unit || 2 * (t * unit - n * parts) == -(unit as int)) ==> t
        % 2 == 0
}

/// A count below 2 to the 53rd is shown as the nearest tenth, or hundredth, of
/// its unit: the whole units, a point, and one digit or two.
pub proof fn law_counts_are_shown_to_the_nearest(n: nat, unit: nat)
    requires
        unit > 0,
        n < 9007199254740992,
    ensures
        exists|t: nat|
            #[trigger] nearest_part(n, unit, 10, t) && one_place(n, unit) == decimal(t / 10)
                + seq!['.', (48 + t % 10) as char],
        exists|t: nat|
            #[trigger] nearest_part(n, unit, 100, t) && two_places(n, unit) == decimal(t / 100)
                + seq!['.', (48 + (t / 10) % 10) as char, (48 + t % 10) as char],
{
    assert(half_even(n, 1) == n);
    assert(nearest_double(n) == n) by (nonlinear_arith)
        requires
            nearest_double(n) == half_even(n, 1) * 1,
            half_even(n, 1) == n,
    ;
    let t = half_even(n * 10, unit);
    law_rounding_is_to_the_nearest(n * 10, unit);
    assert(nearest_part(n, unit, 10, t));
    assert(one_place(n, unit) =~= decimal(t / 10) + seq!['.', (48 + t % 10) as char]);
    let h = half_even(n * 100, unit);
    law_rounding_is_to_the_nearest(n * 100, unit);
    assert(nearest_part(n, unit, 100, h));
    assert(two_places(n, unit) =~= decimal(h / 100) + seq![
        '.',
        (48 + (h / 10) % 10) as char,
        (48 + h % 10) as char,
    ]);
}

/// Shortening takes off all zeros at the end behind the point, and the point with
/// them where no other digit is left behind it.
pub proof fn law_shortening(whole: Seq<char>, digits: Seq<char>, zeros: Seq<char>)
    requires
        forall|i: int| 0 <= i < zeros.len() ==> #[trigger] zeros[i] == '0',
        digits.len() > 0 ==> digits[digits.len() - 1] != '0' && digits[digits.len() - 1] != '.',
    ensures
        shortened(whole + seq!['.'] + digits + zeros) == if digits.len() == 0 {
            whole
        } else {
            whole + seq!['.'] + digits
        },
    decreases zeros.len(),
{
    let s = whole + seq!['.'] + digits + zeros;
    assert(s[whole.len() as int] == '.');
    if zeros.len() > 0 {
        assert(s.last() == zeros[zeros.len() - 1]);
        assert(s.drop_last() =~= whole + seq!['.'] + digits + zeros.drop_last());
        law_shortening(whole, digits, zeros.drop_last());
    } else if digits.len() > 0 {
        assert(s =~= whole + seq!['.'] + digits);
        assert(s.last() == digits[digits.len() - 1]);
    } else {
        assert(s.drop_last() =~= whole);
    }
}

/// A count of any size is taken to a number that differs from it by no more than
/// its 2 to the 53rd part.
pub proof fn law_large_counts_stay_close(n: nat)
    ensures
        -(n as int) <= 9007199254740992 * (nearest_double(n) - n) <= n,
{
    lemma_spacing_bound(n);
    law_rounding_is_to_the_nearest(n, spacing(n));
    if n < 9007199254740992 {
        assert(nearest_double(n) == n) by (nonlinear_arith)
            requires
                nearest_double(n) == half_even(n, 1) * 1,
                half_even(n, 1) == n,
        ;
    }
}

/// The world list shows a count in the unit that its size calls for.
pub proof fn law_world_sizes(n: nat)
    ensures
        n < 1024 ==> list_size(n) == one_place(n, 1) + " B"@,
        1024 <= n < 1048576 ==> list_size(n) == one_place(n, 1024) + " KB"@,
        1048576 <= n < 1073741824 ==> list_size(n) == one_place(n, 1048576) + " MB"@,
        1073741824 <= n < 1099511627776 ==> list_size(n) == one_place(n, 1073741824) + " GB"@,
        1099511627776 <= n ==> list_size(n) == one_place(n, 1099511627776) + " TB"@,
{
}

} // verus!
