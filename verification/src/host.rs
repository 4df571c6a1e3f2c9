//! The pane coordinates the host takes, made by the host's own library from
//! the sizes the panel asks for, with a plain model of what they hold.

use vstd::prelude::*;
use zellij_tile::prelude::FloatingPaneCoordinates;
use zellij_utils::input::layout::SplitSize;
use crate::text::{decimal, digit_char};

verus! {

#[verifier::external_type_specification]
#[verifier::external_body]
pub struct ExFloatingPaneCoordinates(zellij_tile::prelude::FloatingPaneCoordinates);

/// A size in the host's pane coordinates: a number of rows, or a
/// percentage of the screen.
#[derive(Clone, Copy, Debug, PartialEq, Eq, Structural)]
pub enum PaneSize {
    Fixed(usize),
    Percent(usize),
}

/// What the panel's pane coordinates hold: the row the pane starts at and
/// its height; the column, width and pin are never given.
#[derive(Clone, Copy, Debug, PartialEq, Eq, Structural)]
pub struct PaneCoords {
    pub y: Option<PaneSize>,
    pub height: Option<PaneSize>,
}

/// Whether `c` is an ASCII decimal digit.
pub open spec fn is_digit(c: char) -> bool {
    '0' <= c && c <= '9'
}

/// The number that the decimal digits of `s` write.
pub open spec fn digits_value(s: Seq<char>) -> int
    decreases s.len(),
{
    if s.len() == 0 {
        0
    } else {
        digits_value(s.drop_last()) * 10 + ((s.last() as u32) - 48)
    }
}

/// The number `t` writes as `usize::from_str_radix(t, 10)` reads it: an
/// optional `+`, then at least one decimal digit and nothing else, for a
/// value that fits a `usize`.
pub open spec fn number_value(t: Seq<char>) -> Option<usize> {
    let d = if t.len() > 0 && t[0] == '+' {
        t.drop_first()
    } else {
        t
    };
    if d.len() > 0 && (forall|i: int| 0 <= i < d.len() ==> is_digit(#[trigger] d[i]))
        && digits_value(d) <= usize::MAX {
        Some(digits_value(d) as usize)
    } else {
        None
    }
}

/// The size the host's pane coordinates read from `s`: a percentage from 1
/// to 100 when it ends in `%`, else a number of rows; none when it is
/// neither.
pub open spec fn size_value(s: Seq<char>) -> Option<PaneSize> {
    if s.len() > 0 && s.last() == '%' {
        match number_value(s.drop_last()) {
            Some(n) => if 0 < n <= 100 {
                Some(PaneSize::Percent(n))
            } else {
                None
            },
            None => None,
        }
    } else {
        match number_value(s) {
            Some(n) => Some(PaneSize::Fixed(n)),
            None => None,
        }
    }
}

/// The number of bytes that UTF-8 takes for `c`.
pub open spec fn utf8_width(c: char) -> nat {
    let u = c as u32;
    if u < 0x80 {
        1
    } else if u < 0x800 {
        2
    } else if u < 0x10000 {
        3
    } else {
        4
    }
}

/// The number of bytes that UTF-8 takes for the first `k` characters of
/// `s`: the byte positions between characters.
pub open spec fn utf8_offset(s: Seq<char>, k: int) -> nat
    decreases k,
{
    if k <= 0 {
        0
    } else {
        utf8_offset(s, k - 1) + utf8_width(s[k - 1])
    }
}

/// Whether the host's pane coordinates can read `s` as a size without
/// failing. A size that ends in `%` is cut before the `%` at the byte
/// position given by its number of characters less one, and that position
/// must fall between two characters.
pub open spec fn size_readable(s: Seq<char>) -> bool {
    s.len() > 0 && s.last() == '%' ==> exists|j: int|
        0 <= j <= s.len() && #[trigger] utf8_offset(s, j) == s.len() - 1
}

/// Coordinates for a floating pane with this row and height, and what they
/// hold. Calls `FloatingPaneCoordinates::new` with no column, width or pin.
/// Its source reads each size with `SplitSize::from_str`: a size that ends
/// in `%` is the number before the `%` (read by `usize::from_str_radix`),
/// kept when it is from 1 to 100; any other size is such a number of rows;
/// a size that does not read is left out, and no coordinates come back when
/// neither reads. (That source cuts off the `%` at a byte position equal to
/// the number of characters less one; where that position falls between
/// two characters, what it cuts off reads as what is before the `%`, since
/// a non-ASCII character reads as no number either way; where it does not,
/// the source fails, and such sizes are not passed.) The model is read off
/// the coordinates that come back, one variant of `SplitSize` to one of
/// `PaneSize`.
#[verifier::external_body]
pub(crate) fn pane_coordinates(y: &str, height: &str) -> (r: Option<
    (FloatingPaneCoordinates, PaneCoords),
>)
    requires
        size_readable(y@),
        size_readable(height@),
    ensures
        r is Some <==> (size_value(y@) is Some || size_value(height@) is Some),
        r is Some ==> (r->0).1 == (PaneCoords { y: size_value(y@), height: size_value(height@) }),
{
    let c = FloatingPaneCoordinates::new(None, Some(y.to_string()), None, Some(height.to_string()), None)?;
    let y = match c.y { Some(SplitSize::Fixed(n)) => Some(PaneSize::Fixed(n)), Some(SplitSize::Percent(n)) => Some(PaneSize::Percent(n)), None => None };
    let height = match c.height { Some(SplitSize::Fixed(n)) => Some(PaneSize::Fixed(n)), Some(SplitSize::Percent(n)) => Some(PaneSize::Percent(n)), None => None };
    Some((c, PaneCoords { y, height }))
}

/// The rows of a pane `n` high, as its coordinates hold them.
pub open spec fn rows_size(n: nat) -> Option<PaneSize> {
    if n <= usize::MAX {
        Some(PaneSize::Fixed(n as usize))
    } else {
        None
    }
}

/// In a string of ASCII characters the byte positions are the character
/// positions.
proof fn lemma_ascii_offset(s: Seq<char>, k: int)
    requires
        0 <= k <= s.len(),
        forall|i: int| 0 <= i < s.len() ==> (#[trigger] s[i] as u32) < 0x80,
    ensures
        utf8_offset(s, k) == k,
    decreases k,
{
    if k > 0 {
        lemma_ascii_offset(s, k - 1);
    }
}

/// A size written in ASCII is readable.
pub proof fn lemma_ascii_readable(s: Seq<char>)
    requires
        forall|i: int| 0 <= i < s.len() ==> (#[trigger] s[i] as u32) < 0x80,
    ensures
        size_readable(s),
{
    if s.len() > 0 {
        lemma_ascii_offset(s, s.len() - 1);
    }
}

/// The decimal notation of `n` is all digits and writes `n`.
pub proof fn lemma_decimal_digits(n: nat)
    ensures
        decimal(n).len() > 0,
        forall|i: int| 0 <= i < decimal(n).len() ==> is_digit(#[trigger] decimal(n)[i]),
        digits_value(decimal(n)) == n,
    decreases n,
{
    let s = decimal(n);
    if n < 10 {
        assert(digit_char(n) as u32 == 48 + n);
        assert(s.drop_last() =~= Seq::<char>::empty());
        assert(digits_value(s.drop_last()) == 0);
    } else {
        lemma_decimal_digits(n / 10);
        let p = decimal(n / 10);
        assert(digit_char(n % 10) as u32 == 48 + n % 10);
        assert(s.drop_last() =~= p);
        assert(digits_value(s) == digits_value(p) * 10 + n % 10);
        assert((n / 10) * 10 + n % 10 == n);
        assert forall|i: int| 0 <= i < s.len() implies is_digit(#[trigger] s[i]) by {
            if i < p.len() {
                assert(s[i] == p[i]);
            }
        }
    }
}

/// A number written in decimal reads as that many rows, when it fits a
/// `usize`, and it is readable.
pub proof fn lemma_decimal_size(n: nat)
    ensures
        size_value(decimal(n)) == rows_size(n),
        size_readable(decimal(n)),
{
    lemma_decimal_digits(n);
    let s = decimal(n);
    assert(is_digit(s[0]));
    assert(is_digit(s[s.len() - 1]));
}

/// A row number written with one digit reads as that row.
pub proof fn lemma_one_row()
    ensures
        size_value("1"@) == Some(PaneSize::Fixed(1)),
        size_readable("1"@),
{
    reveal_strlit("1");
    assert("1"@ =~= seq!['1']);
    assert("1"@.drop_last() =~= Seq::<char>::empty());
    assert(is_digit("1"@[0]));
    assert(digits_value("1"@.drop_last()) == 0);
    assert(('1' as u32) == 49);
    assert(digits_value("1"@) == 1);
}

/// A two-digit percentage written `"d0d1%"` reads as that percentage.
proof fn lemma_percent(s: Seq<char>, d0: char, d1: char)
    requires
        s =~= seq![d0, d1, '%'],
        '1' <= d0 <= '9',
        '0' <= d1 <= '9',
    ensures
        size_value(s) == Some(PaneSize::Percent(((d0 as u32 - 48) * 10 + (d1 as u32 - 48)) as usize)),
        size_readable(s),
{
    let d = s.drop_last();
    assert(d =~= seq![d0, d1]);
    assert(d.drop_last() =~= seq![d0]);
    assert(d.drop_last().drop_last() =~= Seq::<char>::empty());
    assert(is_digit(d[0]) && is_digit(d[1]));
    assert(digits_value(d.drop_last().drop_last()) == 0);
    assert(digits_value(d.drop_last()) == d0 as u32 - 48);
    assert(digits_value(d) == (d0 as u32 - 48) * 10 + (d1 as u32 - 48));
    assert((s[0] as u32) < 0x80 && (s[1] as u32) < 0x80 && (s[2] as u32) < 0x80);
    lemma_ascii_readable(s);
}

/// Fifteen per cent reads as that percentage.
pub proof fn lemma_fifteen_percent()
    ensures
        size_value("15%"@) == Some(PaneSize::Percent(15)),
        size_readable("15%"@),
{
    reveal_strlit("15%");
    lemma_percent("15%"@, '1', '5');
}

/// Seventy per cent reads as that percentage.
pub proof fn lemma_seventy_percent()
    ensures
        size_value("70%"@) == Some(PaneSize::Percent(70)),
        size_readable("70%"@),
{
    reveal_strlit("70%");
    lemma_percent("70%"@, '7', '0');
}

} // verus!
