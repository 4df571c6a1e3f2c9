//! Text helpers over `String`, specified by the string's view as a sequence
//! of characters.

use vstd::prelude::*;
use vstd::string::*;

verus! {

/// Appends one character. Calls `String::push`, whose documentation says
/// that it appends the character to the end of the string.
#[verifier::external_body]
pub(crate) fn push_char(s: &mut String, c: char)
    ensures
        final(s)@ == old(s)@.push(c),
{
    s.push(c);
}

/// Removes the last character. Calls `String::pop`, which its
/// documentation says removes and returns the last character, or returns
/// `None` and leaves the string as it is when it is empty.
#[verifier::external_body]
pub(crate) fn pop_char(s: &mut String) -> (r: Option<char>)
    ensures
        old(s)@.len() == 0 ==> r is None && final(s)@ == old(s)@,
        old(s)@.len() > 0 ==> r == Some(old(s)@.last()) && final(s)@ == old(s)@.drop_last(),
{
    s.pop()
}

/// The decimal digit character for `d < 10`.
pub open spec fn digit_char(d: nat) -> char {
    (48 + d) as char
}

/// The decimal notation of `n`, without sign or leading zeros.
pub open spec fn decimal(n: nat) -> Seq<char>
    decreases n,
{
    if n < 10 {
        seq![digit_char(n)]
    } else {
        decimal(n / 10).push(digit_char(n % 10))
    }
}

fn digit(d: u64) -> (c: char)
    requires
        d < 10,
    ensures
        c == digit_char(d as nat),
{
    let b: u8 = 48u8 + (d as u8);
    b as char
}

/// Appends the decimal notation of `n`, for numbers that may not fit a
/// `u64`.
pub fn push_decimal_wide(s: &mut String, n: u128)
    ensures
        final(s)@ == old(s)@ + decimal(n as nat),
    decreases n,
{
    if n >= 10 {
        push_decimal_wide(s, n / 10);
    }
    let d: u8 = (n % 10) as u8;
    let c: char = (48u8 + d) as char;
    assert(c == digit_char((n % 10) as nat));
    push_char(s, c);
}

/// Appends the decimal notation of `n`.
pub fn push_decimal(s: &mut String, n: u64)
    ensures
        final(s)@ == old(s)@ + decimal(n as nat),
    decreases n,
{
    if n >= 10 {
        push_decimal(s, n / 10);
    }
    push_char(s, digit(n % 10));
}

/// The views of a sequence of strings.
pub open spec fn views(v: Seq<String>) -> Seq<Seq<char>> {
    v.map_values(|s: String| s@)
}

/// Pushing a string pushes its view.
pub proof fn lemma_views_push(v: Seq<String>, s: String)
    ensures
        views(v.push(s)) == views(v).push(s@),
{
    assert(views(v.push(s)) =~= views(v).push(s@));
}

/// `n` copies of `p`, one after the other.
pub open spec fn repeat(p: Seq<char>, n: nat) -> Seq<char>
    decreases n,
{
    if n == 0 {
        Seq::empty()
    } else {
        repeat(p, (n - 1) as nat) + p
    }
}

/// The parts, with `sep` between each two neighbours.
pub open spec fn join(parts: Seq<Seq<char>>, sep: Seq<char>) -> Seq<char>
    decreases parts.len(),
{
    if parts.len() == 0 {
        Seq::empty()
    } else if parts.len() == 1 {
        parts[0]
    } else {
        join(parts.drop_last(), sep) + sep + parts.last()
    }
}

/// `s` if it has at most `max` characters; else its first `max - 1`
/// characters (none when `max` is 0) followed by an ellipsis.
pub open spec fn truncated(s: Seq<char>, max: nat) -> Seq<char> {
    if s.len() <= max {
        s
    } else if max == 0 {
        seq!['…']
    } else {
        s.take(max - 1).push('…')
    }
}

/// Whether `needle` occurs in `hay` starting at position `i`.
pub open spec fn occurs_at(hay: Seq<char>, needle: Seq<char>, i: int) -> bool {
    0 <= i && i + needle.len() <= hay.len() && hay.subrange(i, i + needle.len()) == needle
}

/// Whether `needle` occurs anywhere in `hay`.
pub open spec fn has_substring(hay: Seq<char>, needle: Seq<char>) -> bool {
    exists|i: int| occurs_at(hay, needle, i)
}

/// What `str::to_lowercase` returns for a string with these characters.
pub uninterp spec fn lowercase(s: Seq<char>) -> Seq<char>;

/// Lower-cases the string. Calls `str::to_lowercase`; the contract names
/// its result, which the Unicode case tables decide, and says no more.
#[verifier::external_body]
pub(crate) fn to_lowercase(s: &str) -> (r: String)
    ensures
        r@ == lowercase(s@),
{
    s.to_lowercase()
}

/// A new string with the characters of `s`.
pub fn owned(s: &str) -> (r: String)
    ensures
        r@ == s@,
{
    s.to_owned()
}

/// The characters of `s`, in order.
pub fn chars_of(s: &str) -> (v: Vec<char>)
    ensures
        v@ == s@,
{
    let n = s.unicode_len();
    let mut v: Vec<char> = Vec::new();
    let mut i: usize = 0;
    while i < n
        invariant
            n == s@.len(),
            i <= n,
            v@ == s@.take(i as int),
        decreases n - i,
    {
        v.push(s.get_char(i));
        i = i + 1;
        assert(v@ =~= s@.take(i as int));
    }
    assert(v@ =~= s@);
    v
}

/// Appends `n` copies of `p`.
pub fn push_repeat(s: &mut String, p: &str, n: usize)
    ensures
        final(s)@ == old(s)@ + repeat(p@, n as nat),
{
    let mut i: usize = 0;
    while i < n
        invariant
            i <= n,
            s@ == old(s)@ + repeat(p@, i as nat),
        decreases n - i,
    {
        s.append(p);
        i = i + 1;
        assert(s@ =~= old(s)@ + repeat(p@, i as nat));
    }
}

/// The parts, with `sep` between each two neighbours.
pub fn join_strings(parts: &Vec<String>, sep: &str) -> (r: String)
    ensures
        r@ == join(views(parts@), sep@),
{
    let mut r = String::new();
    let mut i: usize = 0;
    while i < parts.len()
        invariant
            i <= parts.len(),
            r@ == join(views(parts@).take(i as int), sep@),
        decreases parts.len() - i,
    {
        let ghost before = views(parts@).take(i as int);
        if i > 0 {
            r.append(sep);
        }
        r.append(parts[i].as_str());
        proof {
            let after = views(parts@).take(i + 1);
            assert(after.drop_last() =~= before);
            if i == 0 {
                assert(r@ =~= after[0]);
            }
        }
        i = i + 1;
    }
    assert(views(parts@).take(parts.len() as int) =~= views(parts@));
    r
}

/// `s` if it has at most `max` characters; else its first `max - 1`
/// characters followed by an ellipsis.
pub fn truncate(s: &str, max: usize) -> (r: String)
    ensures
        r@ == truncated(s@, max as nat),
{
    let n = s.unicode_len();
    if n <= max {
        owned(s)
    } else {
        let keep: usize = if max == 0 { 0 } else { max - 1 };
        let mut r = owned(s.substring_char(0, keep));
        push_char(&mut r, '…');
        assert(s@.subrange(0, keep as int) =~= s@.take(keep as int));
        r
    }
}

/// Whether `needle` occurs in `hay`.
pub fn contains_text(hay: &str, needle: &str) -> (b: bool)
    ensures
        b == has_substring(hay@, needle@),
{
    let h = chars_of(hay);
    let nd = chars_of(needle);
    if nd.len() > h.len() {
        assert forall|i: int| !occurs_at(hay@, needle@, i) by {}
        return false;
    }
    if nd.len() == 0 {
        assert(hay@.subrange(0, 0) =~= needle@);
        assert(occurs_at(hay@, needle@, 0));
        return true;
    }
    let last = h.len() - nd.len();
    let count = last + 1;
    let mut i: usize = 0;
    while i < count
        invariant
            h@ == hay@,
            nd@ == needle@,
            last == h@.len() - nd@.len(),
            count == last + 1,
            nd@.len() <= h@.len(),
            i <= count,
            forall|k: int| 0 <= k < i ==> !occurs_at(hay@, needle@, k),
        decreases last + 1 - i,
    {
        let mut j: usize = 0;
        let mut same = true;
        while j < nd.len()
            invariant
                h@ == hay@,
                nd@ == needle@,
                i <= last,
                last == h@.len() - nd@.len(),
                nd@.len() <= h@.len(),
                j <= nd@.len(),
                same == (forall|t: int| 0 <= t < j ==> h@[i + t] == nd@[t]),
            decreases nd.len() - j,
        {
            assert(i + j < h.len());
            if h[i + j] != nd[j] {
                same = false;
            }
            j = j + 1;
        }
        if same {
            assert(hay@.subrange(i as int, i + needle@.len()) =~= needle@);
            assert(occurs_at(hay@, needle@, i as int));
            return true;
        }
        assert(!occurs_at(hay@, needle@, i as int)) by {
            if occurs_at(hay@, needle@, i as int) {
                let t = choose|t: int| 0 <= t < nd@.len() && h@[i + t] != nd@[t];
                assert(hay@.subrange(i as int, i + needle@.len())[t] == needle@[t]);
            }
        }
        i = i + 1;
    }
    assert forall|k: int| !occurs_at(hay@, needle@, k) by {
        if occurs_at(hay@, needle@, k) {
            assert(k <= last);
        }
    }
    false
}

/// The pieces of `s` between occurrences of `c`, read from the left: a new
/// piece starts after each `c`.
pub open spec fn split_char(s: Seq<char>, c: char) -> Seq<Seq<char>>
    decreases s.len(),
{
    if s.len() == 0 {
        seq![Seq::empty()]
    } else {
        let prev = split_char(s.drop_last(), c);
        if s.last() == c {
            prev.push(Seq::empty())
        } else {
            prev.update(prev.len() - 1, prev.last().push(s.last()))
        }
    }
}

/// The pieces of `s` are never empty as a list.
pub proof fn lemma_split_char_nonempty(s: Seq<char>, c: char)
    ensures
        split_char(s, c).len() >= 1,
    decreases s.len(),
{
    if s.len() > 0 {
        lemma_split_char_nonempty(s.drop_last(), c);
    }
}

/// The pieces of `s` between occurrences of `c`, as `str::split` gives
/// them.
pub fn split_on_char(s: &str, c: char) -> (r: Vec<String>)
    ensures
        views(r@) == split_char(s@, c),
{
    let v = chars_of(s);
    let mut out: Vec<String> = Vec::new();
    let mut cur = String::new();
    let mut i: usize = 0;
    proof {
        assert(v@.take(0) =~= Seq::<char>::empty());
    }
    while i < v.len()
        invariant
            v@ == s@,
            i <= v.len(),
            views(out@).push(cur@) == split_char(v@.take(i as int), c),
        decreases v.len() - i,
    {
        let ghost before = v@.take(i as int);
        proof {
            assert(v@.take(i + 1).drop_last() =~= before);
            lemma_split_char_nonempty(before, c);
        }
        if v[i] == c {
            let piece = cur;
            out.push(piece);
            cur = String::new();
            assert(views(out@).push(cur@) =~= split_char(before, c).push(Seq::empty()));
        } else {
            push_char(&mut cur, v[i]);
            assert(views(out@).push(cur@) =~= split_char(before, c).update(
                split_char(before, c).len() - 1,
                split_char(before, c).last().push(v@[i as int]),
            ));
        }
        i = i + 1;
    }
    assert(v@.take(v.len() as int) =~= v@);
    out.push(cur);
    out
}

/// The first position at or after `i` where `sep` occurs in `s`.
pub open spec fn find_from(s: Seq<char>, sep: Seq<char>, i: int) -> Option<int>
    decreases s.len() + 1 - i,
{
    if i < 0 || i + sep.len() > s.len() {
        None
    } else if occurs_at(s, sep, i) {
        Some(i)
    } else {
        find_from(s, sep, i + 1)
    }
}

/// What `find_from` returns is an occurrence, and none comes before it.
pub proof fn lemma_find_from(s: Seq<char>, sep: Seq<char>, i: int)
    requires
        0 <= i,
    ensures
        match find_from(s, sep, i) {
            Some(k) => i <= k && occurs_at(s, sep, k) && forall|j: int|
                i <= j < k ==> !occurs_at(s, sep, j),
            None => forall|j: int| i <= j ==> !occurs_at(s, sep, j),
        },
    decreases s.len() + 1 - i,
{
    if i + sep.len() > s.len() {
    } else if occurs_at(s, sep, i) {
    } else {
        lemma_find_from(s, sep, i + 1);
    }
}

/// The pieces of `s` between the occurrences of `sep` that a scan from the
/// left finds, one after the other without overlap, as `str::split` gives
/// them.
pub open spec fn split_str(s: Seq<char>, sep: Seq<char>) -> Seq<Seq<char>>
    decreases s.len(),
{
    if sep.len() == 0 {
        seq![s]
    } else {
        match find_from(s, sep, 0) {
            None => seq![s],
            Some(k) => if 0 <= k && k + sep.len() <= s.len() {
                seq![s.take(k)] + split_str(s.skip(k + sep.len()), sep)
            } else {
                seq![s]
            },
        }
    }
}

/// The position of the first occurrence of `sep` in `v` at or after `from`.
pub(crate) fn find_in(v: &Vec<char>, sep: &Vec<char>, from: usize) -> (r: Option<usize>)
    requires
        from <= v@.len(),
        sep@.len() > 0,
    ensures
        match r {
            Some(k) => find_from(v@, sep@, from as int) == Some(k as int),
            None => find_from(v@, sep@, from as int) is None,
        },
{
    proof {
        lemma_find_from(v@, sep@, from as int);
    }
    if sep.len() > v.len() - from {
        return None;
    }
    let last = v.len() - sep.len();
    let mut i = from;
    while i <= last
        invariant
            from <= i,
            last == v@.len() - sep@.len(),
            sep@.len() > 0,
            forall|j: int| from <= j < i ==> !occurs_at(v@, sep@, j),
            find_from(v@, sep@, from as int) == find_from(v@, sep@, i as int),
        decreases last + 1 - i,
    {
        let mut j: usize = 0;
        let mut same = true;
        while j < sep.len()
            invariant
                i <= last,
                last == v@.len() - sep@.len(),
                j <= sep@.len(),
                same == (forall|t: int| 0 <= t < j ==> v@[i + t] == sep@[t]),
            decreases sep.len() - j,
        {
            assert(i + j < v.len());
            if v[i + j] != sep[j] {
                same = false;
            }
            j = j + 1;
        }
        if same {
            assert(v@.subrange(i as int, i + sep@.len()) =~= sep@);
            return Some(i);
        }
        assert(!occurs_at(v@, sep@, i as int)) by {
            if occurs_at(v@, sep@, i as int) {
                let t = choose|t: int| 0 <= t < sep@.len() && v@[i + t] != sep@[t];
                assert(v@.subrange(i as int, i + sep@.len())[t] == sep@[t]);
            }
        }
        assert(last < v.len());
        i = i + 1;
    }
    None
}

/// A string made of `v[from..to]`.
pub(crate) fn string_of_range(v: &Vec<char>, from: usize, to: usize) -> (s: String)
    requires
        from <= to <= v@.len(),
    ensures
        s@ == v@.subrange(from as int, to as int),
{
    let mut s = String::new();
    let mut i = from;
    while i < to
        invariant
            from <= i <= to,
            to <= v@.len(),
            s@ == v@.subrange(from as int, i as int),
        decreases to - i,
    {
        push_char(&mut s, v[i]);
        i = i + 1;
        assert(s@ =~= v@.subrange(from as int, i as int));
    }
    s
}

/// The pieces of `s` between the occurrences of `sep`, as `str::split`
/// gives them.
pub fn split_on_str(s: &str, sep: &str) -> (r: Vec<String>)
    requires
        sep@.len() > 0,
    ensures
        views(r@) == split_str(s@, sep@),
{
    let v = chars_of(s);
    let sv = chars_of(sep);
    let mut out: Vec<String> = Vec::new();
    let mut start: usize = 0;
    assert(v@.skip(0) =~= v@);
    loop
        invariant
            v@ == s@,
            sv@ == sep@,
            sep@.len() > 0,
            start <= v@.len(),
            views(out@) + split_str(v@.skip(start as int), sep@) == split_str(s@, sep@),
        decreases v@.len() - start,
    {
        let ghost rest = v@.skip(start as int);
        match find_in(&v, &sv, start) {
            None => {
                proof {
                    lemma_find_from(v@, sv@, start as int);
                    lemma_find_from(rest, sep@, 0);
                    if find_from(rest, sep@, 0) is Some {
                        let k = find_from(rest, sep@, 0)->0;
                        assert(v@.subrange(start + k, start + k + sep@.len()) =~= rest.subrange(
                            k,
                            k + sep@.len(),
                        ));
                        assert(occurs_at(v@, sep@, start + k));
                    }
                }
                let piece = string_of_range(&v, start, v.len());
                assert(piece@ =~= rest);
                out.push(piece);
                assert(views(out@) =~= views(out@).drop_last().push(rest));
                return out;
            },
            Some(k) => {
                proof {
                    lemma_find_from(v@, sv@, start as int);
                    lemma_find_from(rest, sep@, 0);
                    let kk = (k - start) as int;
                    assert(rest.subrange(kk, kk + sep@.len()) =~= v@.subrange(
                        k as int,
                        k + sep@.len(),
                    ));
                    assert(occurs_at(rest, sep@, kk));
                    match find_from(rest, sep@, 0) {
                        Some(k2) => {
                            if k2 < kk {
                                assert(rest.subrange(k2, k2 + sep@.len()) =~= v@.subrange(
                                    start + k2,
                                    start + k2 + sep@.len(),
                                ));
                                assert(occurs_at(v@, sep@, start + k2));
                            }
                            assert(k2 == kk);
                        },
                        None => {},
                    }
                    assert(rest.skip(kk + sep@.len()) =~= v@.skip(k + sep@.len()));
                    assert(split_str(rest, sep@) == seq![rest.take(kk)] + split_str(
                        rest.skip(kk + sep@.len()),
                        sep@,
                    ));
                }
                assert(k + sv.len() <= v.len());
                let piece = string_of_range(&v, start, k);
                assert(piece@ =~= rest.take((k - start) as int));
                let ghost old_out = views(out@);
                out.push(piece);
                assert(views(out@) =~= old_out.push(rest.take((k - start) as int)));
                start = k + sv.len();
                assert(views(out@) + split_str(v@.skip(start as int), sep@) =~= old_out
                    + split_str(rest, sep@));
            },
        }
    }
}

/// Whether `c` has the Unicode `White_Space` property, which is what
/// `char::is_whitespace` tests.
pub open spec fn is_white(c: char) -> bool {
    let u = c as u32;
    ||| 9 <= u <= 13
    ||| u == 32
    ||| u == 0x85
    ||| u == 0xa0
    ||| u == 0x1680
    ||| 0x2000 <= u <= 0x200a
    ||| u == 0x2028
    ||| u == 0x2029
    ||| u == 0x202f
    ||| u == 0x205f
    ||| u == 0x3000
}

/// Whether `c` is white space.
pub fn white(c: char) -> (b: bool)
    ensures
        b == is_white(c),
{
    let u = c as u32;
    (9 <= u && u <= 13) || u == 32 || u == 0x85 || u == 0xa0 || u == 0x1680 || (0x2000 <= u && u
        <= 0x200a) || u == 0x2028 || u == 0x2029 || u == 0x202f || u == 0x205f || u == 0x3000
}

/// `s` without the white space at its end.
pub open spec fn trim_end(s: Seq<char>) -> Seq<char>
    decreases s.len(),
{
    if s.len() > 0 && is_white(s.last()) {
        trim_end(s.drop_last())
    } else {
        s
    }
}

/// `s` without the white space at its start.
pub open spec fn trim_start(s: Seq<char>) -> Seq<char>
    decreases s.len(),
{
    if s.len() > 0 && is_white(s[0]) {
        trim_start(s.drop_first())
    } else {
        s
    }
}

/// `s` without the white space at either end.
pub open spec fn trimmed(s: Seq<char>) -> Seq<char> {
    trim_start(trim_end(s))
}

/// The end of `v[..to]` once its trailing white space is cut.
fn trimmed_end_index(v: &Vec<char>, to: usize) -> (e: usize)
    requires
        to <= v@.len(),
    ensures
        e <= to,
        trim_end(v@.take(to as int)) == v@.take(e as int),
{
    let mut e = to;
    while e > 0 && white(v[e - 1])
        invariant
            e <= to <= v@.len(),
            trim_end(v@.take(to as int)) == trim_end(v@.take(e as int)),
        decreases e,
    {
        assert(v@.take(e as int).drop_last() =~= v@.take(e - 1));
        e = e - 1;
    }
    e
}

/// The start of `v[from..]` once its leading white space is cut.
fn trimmed_start_index(v: &Vec<char>, from: usize) -> (b: usize)
    requires
        from <= v@.len(),
    ensures
        from <= b <= v@.len(),
        trim_start(v@.skip(from as int)) == v@.skip(b as int),
{
    let mut b = from;
    while b < v.len() && white(v[b])
        invariant
            from <= b <= v@.len(),
            trim_start(v@.skip(from as int)) == trim_start(v@.skip(b as int)),
        decreases v.len() - b,
    {
        assert(v@.skip(b as int).drop_first() =~= v@.skip(b + 1));
        b = b + 1;
    }
    b
}

/// `s` without white space at its end.
pub fn trim_end_string(s: &str) -> (r: String)
    ensures
        r@ == trim_end(s@),
{
    let v = chars_of(s);
    let e = trimmed_end_index(&v, v.len());
    assert(v@.take(v.len() as int) =~= v@);
    let r = string_of_range(&v, 0, e);
    assert(r@ =~= v@.take(e as int));
    r
}

/// `s` without white space at its start.
pub fn trim_start_string(s: &str) -> (r: String)
    ensures
        r@ == trim_start(s@),
{
    let v = chars_of(s);
    let b = trimmed_start_index(&v, 0);
    assert(v@.skip(0) =~= v@);
    let r = string_of_range(&v, b, v.len());
    assert(r@ =~= v@.skip(b as int));
    r
}

/// `s` without white space at either end.
pub fn trim_string(s: &str) -> (r: String)
    ensures
        r@ == trimmed(s@),
{
    let e = trim_end_string(s);
    trim_start_string(e.as_str())
}

/// The last position at or before `i` where `sep` occurs in `s`.
pub open spec fn rfind_from(s: Seq<char>, sep: Seq<char>, i: int) -> Option<int>
    decreases i + 1,
{
    if i < 0 {
        None
    } else if occurs_at(s, sep, i) {
        Some(i)
    } else {
        rfind_from(s, sep, i - 1)
    }
}

/// The position of the last occurrence of `sep` in `s`, as `str::rfind`
/// reports it.
pub open spec fn rfind(s: Seq<char>, sep: Seq<char>) -> Option<int> {
    rfind_from(s, sep, s.len() - sep.len())
}

/// What `rfind_from` returns is an occurrence at or before `i`.
pub proof fn lemma_rfind_from(s: Seq<char>, sep: Seq<char>, i: int)
    ensures
        match rfind_from(s, sep, i) {
            Some(k) => 0 <= k <= i && occurs_at(s, sep, k),
            None => forall|j: int| 0 <= j <= i ==> !occurs_at(s, sep, j),
        },
    decreases i + 1,
{
    if i >= 0 && !occurs_at(s, sep, i) {
        lemma_rfind_from(s, sep, i - 1);
    }
}

/// The position of the last occurrence of `sep` in `v`.
pub(crate) fn rfind_in(v: &Vec<char>, sep: &str) -> (r: Option<usize>)
    ensures
        match r {
            Some(k) => rfind(v@, sep@) == Some(k as int),
            None => rfind(v@, sep@) is None,
        },
{
    let sv = chars_of(sep);
    if sv.len() > v.len() {
        assert(rfind(v@, sep@) is None);
        return None;
    }
    if sv.len() == 0 {
        assert(v@.subrange(v@.len() as int, v@.len() as int) =~= sep@);
        return Some(v.len());
    }
    let mut i: usize = v.len() - sv.len() + 1;
    while i > 0
        invariant
            sv@ == sep@,
            sv@.len() <= v@.len(),
            i <= v@.len() - sv@.len() + 1,
            rfind(v@, sep@) == rfind_from(v@, sep@, i - 1),
        decreases i,
    {
        let k = i - 1;
        let mut j: usize = 0;
        let mut same = true;
        while j < sv.len()
            invariant
                k + sv@.len() <= v@.len(),
                j <= sv@.len(),
                same == (forall|t: int| 0 <= t < j ==> v@[k + t] == sv@[t]),
            decreases sv.len() - j,
        {
            assert(k + j < v.len());
            if v[k + j] != sv[j] {
                same = false;
            }
            j = j + 1;
        }
        if same {
            assert(v@.subrange(k as int, k + sv@.len()) =~= sv@);
            return Some(k);
        }
        assert(!occurs_at(v@, sep@, k as int)) by {
            if occurs_at(v@, sep@, k as int) {
                let t = choose|t: int| 0 <= t < sv@.len() && v@[k + t] != sv@[t];
                assert(v@.subrange(k as int, k + sv@.len())[t] == sv@[t]);
            }
        }
        i = k;
    }
    None
}

/// Without `c` in it, `s` is its own single piece.
pub proof fn lemma_split_char_absent(s: Seq<char>, c: char)
    requires
        !s.contains(c),
    ensures
        split_char(s, c) == seq![s],
    decreases s.len(),
{
    if s.len() > 0 {
        assert(!s.drop_last().contains(c)) by {
            if s.drop_last().contains(c) {
                let j = choose|j: int| 0 <= j < s.drop_last().len() && s.drop_last()[j] == c;
                assert(s[j] == c);
            }
        }
        lemma_split_char_absent(s.drop_last(), c);
        assert(s.last() != c);
        assert(s.drop_last().push(s.last()) =~= s);
        assert(seq![s.drop_last()].update(0, s.drop_last().push(s.last())) =~= seq![s]);
    } else {
        assert(s =~= Seq::<char>::empty());
    }
}

/// Whether two strings have the same characters.
pub fn same_text(a: &str, b: &str) -> (r: bool)
    ensures
        r == (a@ == b@),
{
    let x = owned(a);
    let y = owned(b);
    x == y
}

} // verus!
