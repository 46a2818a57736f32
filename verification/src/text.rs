//! Text helpers over the character view of strings.
//!
//! Every contract here speaks of `Seq<char>`, the view of `str` and `String`,
//! so that callers can state what a path, a message or a number looks like.

use vstd::prelude::*;

verus! {

/// `needle` stands in `hay` at character offset `at`.
pub open spec fn occurs_at(needle: Seq<char>, hay: Seq<char>, at: int) -> bool {
    &&& 0 <= at
    &&& at + needle.len() <= hay.len()
    &&& hay.subrange(at, at + needle.len()) == needle
}

/// `needle` stands somewhere in `hay`.
pub open spec fn occurs_in(needle: Seq<char>, hay: Seq<char>) -> bool {
    exists|at: int| occurs_at(needle, hay, at)
}

/// `s` without the run of `c` at its end.
pub open spec fn without_trailing(s: Seq<char>, c: char) -> Seq<char>
    decreases s.len(),
{
    if s.len() > 0 && s.last() == c {
        without_trailing(s.drop_last(), c)
    } else {
        s
    }
}

/// The characters that `str::trim` removes: Unicode's White_Space.
pub open spec fn is_space(c: char) -> bool {
    let n = c as u32;
    ||| 0x09 <= n <= 0x0D
    ||| n == 0x20
    ||| n == 0x85
    ||| n == 0xA0
    ||| n == 0x1680
    ||| 0x2000 <= n <= 0x200A
    ||| n == 0x2028
    ||| n == 0x2029
    ||| n == 0x202F
    ||| n == 0x205F
    ||| n == 0x3000
}

/// `s` without the white space at its end.
pub open spec fn without_trailing_space(s: Seq<char>) -> Seq<char>
    decreases s.len(),
{
    if s.len() > 0 && is_space(s.last()) {
        without_trailing_space(s.drop_last())
    } else {
        s
    }
}

/// `s` without the white space at its start.
pub open spec fn without_leading_space(s: Seq<char>) -> Seq<char>
    decreases s.len(),
{
    if s.len() > 0 && is_space(s.first()) {
        without_leading_space(s.drop_first())
    } else {
        s
    }
}

/// `s` without white space at either end.
pub open spec fn trimmed(s: Seq<char>) -> Seq<char> {
    without_trailing_space(without_leading_space(s))
}

/// The decimal digits of `n`, most significant first, without leading zeros.
pub open spec fn decimal_digits(n: nat) -> Seq<char>
    decreases n,
{
    if n < 10 {
        seq![digit_char(n)]
    } else {
        decimal_digits(n / 10).push(digit_char(n % 10))
    }
}

/// The character of one decimal digit.
pub open spec fn digit_char(d: nat) -> char {
    if d == 0 {
        '0'
    } else if d == 1 {
        '1'
    } else if d == 2 {
        '2'
    } else if d == 3 {
        '3'
    } else if d == 4 {
        '4'
    } else if d == 5 {
        '5'
    } else if d == 6 {
        '6'
    } else if d == 7 {
        '7'
    } else if d == 8 {
        '8'
    } else {
        '9'
    }
}

/// `String::push` appends one character.
pub assume_specification[ String::push ](s: &mut String, c: char)
    ensures
        final(s)@ == old(s)@.push(c),
;

/// The characters of `s`, in order.
pub fn chars_of(s: &str) -> (v: Vec<char>)
    ensures
        v@ == s@,
{
    let mut v: Vec<char> = Vec::new();
    for c in it: s.chars()
        invariant
            v@ == it.seq().take(it.index()),
            it.seq() == s@,
    {
        v.push(c);
    }
    v
}

/// The text made of `v[from..to]`.
pub fn text_of_range(v: &Vec<char>, from: usize, to: usize) -> (s: String)
    requires
        from <= to <= v.len(),
    ensures
        s@ == v@.subrange(from as int, to as int),
{
    let mut s = String::new();
    let mut i: usize = from;
    while i < to
        invariant
            from <= i <= to <= v.len(),
            s@ == v@.subrange(from as int, i as int),
        decreases to - i,
    {
        s.push(v[i]);
        i += 1;
        assert(v@.subrange(from as int, i as int) == v@.subrange(from as int, i - 1).push(
            v@[i - 1],
        ));
    }
    s
}

/// The text made of all of `v`.
pub fn text_of(v: &Vec<char>) -> (s: String)
    ensures
        s@ == v@,
{
    let s = text_of_range(v, 0, v.len());
    assert(v@.subrange(0, v.len() as int) == v@);
    s
}

/// Whether `needle` stands in `hay` at `at`, on characters.
pub fn chars_match_at(hay: &Vec<char>, needle: &Vec<char>, at: usize) -> (found: bool)
    ensures
        found == occurs_at(needle@, hay@, at as int),
{
    if needle.len() > hay.len() || at > hay.len() - needle.len() {
        return false;
    }
    let mut j: usize = 0;
    while j < needle.len()
        invariant
            j <= needle.len(),
            at + needle.len() <= hay.len(),
            forall|k: int| 0 <= k < j ==> hay@[at + k] == needle@[k],
        decreases needle.len() - j,
    {
        if hay[at + j] != needle[j] {
            assert(hay@.subrange(at as int, at + needle.len())[j as int] != needle@[j as int]);
            return false;
        }
        j += 1;
    }
    assert(hay@.subrange(at as int, at + needle.len()) =~= needle@);
    true
}

/// Whether `s` begins with `prefix`.
pub fn starts_with(s: &str, prefix: &str) -> (found: bool)
    ensures
        found == prefix@.is_prefix_of(s@),
{
    let hay = chars_of(s);
    let needle = chars_of(prefix);
    let found = chars_match_at(&hay, &needle, 0);
    proof {
        if found {
            assert(s@.subrange(0, prefix@.len() as int) == prefix@);
        }
        if prefix@.is_prefix_of(s@) {
            assert(s@.subrange(0, prefix@.len() as int) =~= prefix@);
        }
    }
    found
}

/// Whether `needle` stands somewhere in `hay`.
pub fn contains(hay: &str, needle: &str) -> (found: bool)
    ensures
        found == occurs_in(needle@, hay@),
{
    let h = chars_of(hay);
    let n = chars_of(needle);
    if n.len() > h.len() {
        assert forall|at: int| !occurs_at(needle@, hay@, at) by {}
        return false;
    }
    let last: usize = h.len() - n.len();
    let mut i: usize = 0;
    while i < last
        invariant
            i <= last,
            last == h.len() - n.len(),
            n.len() <= h.len(),
            h@ == hay@,
            n@ == needle@,
            forall|at: int| 0 <= at < i ==> !occurs_at(needle@, hay@, at),
        decreases last - i,
    {
        if chars_match_at(&h, &n, i) {
            return true;
        }
        i += 1;
    }
    if chars_match_at(&h, &n, last) {
        return true;
    }
    assert forall|at: int| !occurs_at(needle@, hay@, at) by {}
    false
}

/// Whether two texts hold the same characters.
pub fn same_text(a: &str, b: &str) -> (same: bool)
    ensures
        same == (a@ == b@),
{
    let x = chars_of(a);
    let y = chars_of(b);
    if x.len() != y.len() {
        return false;
    }
    let same = chars_match_at(&x, &y, 0);
    proof {
        assert(x@.subrange(0, y@.len() as int) == x@);
    }
    same
}

/// `s` without the run of `c` at its end.
pub fn trim_trailing(s: &str, c: char) -> (t: String)
    ensures
        t@ == without_trailing(s@, c),
{
    let v = chars_of(s);
    let mut end: usize = v.len();
    assert(v@.subrange(0, v.len() as int) == v@);
    while end > 0 && v[end - 1] == c
        invariant
            end <= v.len(),
            without_trailing(v@, c) == without_trailing(v@.subrange(0, end as int), c),
        decreases end,
    {
        assert(v@.subrange(0, end as int).drop_last() == v@.subrange(0, end - 1));
        end -= 1;
    }
    proof {
        assert(v@.subrange(0, v.len() as int) == v@);
    }
    text_of_range(&v, 0, end)
}

/// `s` without white space at either end, as `str::trim` gives it.
pub fn trim(s: &str) -> (t: String)
    ensures
        t@ == trimmed(s@),
{
    let v = chars_of(s);
    let mut start: usize = 0;
    assert(v@.subrange(0, v.len() as int) == v@);
    while start < v.len() && char_is_space(v[start])
        invariant
            start <= v.len(),
            without_leading_space(v@) == without_leading_space(
                v@.subrange(start as int, v.len() as int),
            ),
        decreases v.len() - start,
    {
        assert(v@.subrange(start as int, v.len() as int).drop_first() == v@.subrange(
            start + 1,
            v.len() as int,
        ));
        start += 1;
    }
    let mut end: usize = v.len();
    while end > start && char_is_space(v[end - 1])
        invariant
            start <= end <= v.len(),
            without_trailing_space(v@.subrange(start as int, v.len() as int))
                == without_trailing_space(v@.subrange(start as int, end as int)),
        decreases end,
    {
        assert(v@.subrange(start as int, end as int).drop_last() == v@.subrange(
            start as int,
            end - 1,
        ));
        end -= 1;
    }
    proof {
        assert(v@.subrange(0, v.len() as int) == v@);
    }
    text_of_range(&v, start, end)
}

/// Whether `c` is white space.
pub fn char_is_space(c: char) -> (space: bool)
    ensures
        space == is_space(c),
{
    let n: u32 = c as u32;
    (0x09 <= n && n <= 0x0D) || n == 0x20 || n == 0x85 || n == 0xA0 || n == 0x1680 || (0x2000 <= n
        && n <= 0x200A) || n == 0x2028 || n == 0x2029 || n == 0x202F || n == 0x205F || n == 0x3000
}

/// The character of the decimal digit `d`.
pub fn digit_of(d: usize) -> (c: char)
    requires
        d < 10,
    ensures
        c == digit_char(d as nat),
{
    if d == 0 {
        '0'
    } else if d == 1 {
        '1'
    } else if d == 2 {
        '2'
    } else if d == 3 {
        '3'
    } else if d == 4 {
        '4'
    } else if d == 5 {
        '5'
    } else if d == 6 {
        '6'
    } else if d == 7 {
        '7'
    } else if d == 8 {
        '8'
    } else {
        '9'
    }
}

/// `n` in decimal.
pub fn decimal(n: usize) -> (s: String)
    ensures
        s@ == decimal_digits(n as nat),
{
    // Digits come out least significant first.
    let mut rev: Vec<char> = Vec::new();
    let mut rest: usize = n;
    while rest >= 10
        invariant
            decimal_digits(n as nat) == decimal_digits(rest as nat) + rev@.reverse(),
        decreases rest,
    {
        let d = digit_of(rest % 10);
        proof {
            let old_rev = rev@;
            assert(old_rev.push(d).reverse() =~= seq![d] + old_rev.reverse());
            assert(decimal_digits(rest as nat) == decimal_digits((rest / 10) as nat).push(d));
            assert(decimal_digits((rest / 10) as nat).push(d) + old_rev.reverse()
                =~= decimal_digits((rest / 10) as nat) + (seq![d] + old_rev.reverse()));
        }
        rev.push(d);
        rest = rest / 10;
    }
    let d = digit_of(rest);
    let mut s = String::new();
    s.push(d);
    let mut i: usize = rev.len();
    while i > 0
        invariant
            i <= rev.len(),
            s@ == seq![d] + rev@.reverse().subrange(0, rev.len() - i),
        decreases i,
    {
        i -= 1;
        s.push(rev[i]);
        proof {
            let r = rev@.reverse();
            assert(r[rev.len() - 1 - i] == rev@[i as int]);
            assert(r.subrange(0, rev.len() - i) =~= r.subrange(0, rev.len() - 1 - i).push(
                rev@[i as int],
            ));
            assert(s@ =~= seq![d] + r.subrange(0, rev.len() - i));
        }
    }
    proof {
        assert(rev@.reverse().subrange(0, rev.len() as int) == rev@.reverse());
        assert(decimal_digits(rest as nat) == seq![d]);
    }
    s
}

/// `a` followed by `b`.
pub fn join(a: &str, b: &str) -> (s: String)
    ensures
        s@ == a@ + b@,
{
    let mut s = String::from_str(a);
    s.append(b);
    s
}

} // verus!
