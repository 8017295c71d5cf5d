//! Text helpers: splitting, decimal numbers and the order of strings.

use vstd::prelude::*;

verus! {

/// The index of the first `x` in `s`, or the length of `s` where there is none.
pub open spec fn position<T>(s: Seq<T>, x: T) -> int
    decreases s.len(),
{
    if s.len() == 0 || s[0] == x {
        0
    } else {
        1 + position(s.skip(1), x)
    }
}

/// The pieces of `s` between the occurrences of `sep`, empty pieces included.
pub open spec fn split<T>(s: Seq<T>, sep: T) -> Seq<Seq<T>>
    decreases s.len(),
{
    let n = position(s, sep);
    if n < 0 || n >= s.len() {
        seq![s]
    } else {
        seq![s.take(n)] + split(s.skip(n + 1), sep)
    }
}

/// The part of `s` before the first `sep`; all of `s` where there is none.
pub open spec fn first_piece<T>(s: Seq<T>, sep: T) -> Seq<T> {
    s.take(position(s, sep))
}

/// The index that `position` gives is the only one with no `x` before it and
/// either `x` or the end at it.
pub proof fn lemma_position<T>(s: Seq<T>, x: T, n: int)
    requires
        0 <= n <= s.len(),
        forall|i: int| 0 <= i < n ==> s[i] != x,
        n < s.len() ==> s[n] == x,
    ensures
        position(s, x) == n,
    decreases s.len(),
{
    if n > 0 {
        assert forall|i: int| 0 <= i < n - 1 implies s.skip(1)[i] != x by {
            assert(s.skip(1)[i] == s[i + 1]);
        }
        lemma_position(s.skip(1), x, n - 1);
    }
}

/// Where `position` points: inside the sequence at the first `x`, or at its end.
pub proof fn lemma_position_first<T>(s: Seq<T>, x: T)
    ensures
        0 <= position(s, x) <= s.len(),
        forall|i: int| 0 <= i < position(s, x) ==> s[i] != x,
        position(s, x) < s.len() ==> s[position(s, x)] == x,
    decreases s.len(),
{
    if s.len() > 0 && s[0] != x {
        let t = s.skip(1);
        lemma_position_first(t, x);
        assert forall|i: int| 0 <= i < position(s, x) implies s[i] != x by {
            if i > 0 {
                assert(t[i - 1] == s[i]);
            }
        }
    }
}

/// The characters of `s`.
pub fn chars_of(s: &str) -> (v: Vec<char>)
    ensures
        v@ == s@,
{
    let mut v: Vec<char> = Vec::new();
    for c in it: s.chars()
        invariant
            it.seq() == s@,
            v@ == s@.take(it.index() as int),
    {
        v.push(c);
    }
    v
}

/// The index of the first `x` in `v`, or the length of `v`.
pub fn position_of(v: &Vec<char>, x: char) -> (n: usize)
    ensures
        n == position(v@, x),
{
    let mut n: usize = 0;
    while n < v.len() && v[n] != x
        invariant
            n <= v.len(),
            forall|i: int| 0 <= i < n ==> v@[i] != x,
        decreases v.len() - n,
    {
        n = n + 1;
    }
    proof {
        lemma_position(v@, x, n as int);
    }
    n
}

/// The text before the first `sep` in `s`.
pub fn text_before(s: &str, sep: char) -> (r: String)
    ensures
        r@ == first_piece(s@, sep),
{
    let v = chars_of(s);
    let n = position_of(&v, sep);
    proof {
        lemma_position_first(s@, sep);
    }
    s.substring_char(0, n).to_owned()
}

/// Whether `c` is one of `0` to `9`.
pub open spec fn is_digit(c: char) -> bool {
    '0' <= c <= '9'
}

/// The number that decimal digits write.
pub open spec fn decimal(s: Seq<char>) -> nat
    decreases s.len(),
{
    if s.len() == 0 {
        0
    } else {
        let d: nat = if is_digit(s.last()) { (s.last() as int - '0' as int) as nat } else { 0 };
        10 * decimal(s.drop_last()) + d
    }
}

/// `s` without the one leading `+` that it may have.
pub open spec fn unsigned_digits(s: Seq<char>) -> Seq<char> {
    if s.len() > 0 && s[0] == '+' {
        s.skip(1)
    } else {
        s
    }
}

/// What `s` means as a `u32`: an optional `+`, then at least one decimal digit
/// and nothing else, writing a number that fits.
pub open spec fn u32_value(s: Seq<char>) -> Option<u32> {
    let d = unsigned_digits(s);
    if d.len() > 0 && (forall|i: int| 0 <= i < d.len() ==> is_digit(d[i])) && decimal(d)
        <= u32::MAX {
        Some(decimal(d) as u32)
    } else {
        None
    }
}

/// A number does not get smaller as digits are appended to it.
proof fn lemma_decimal_grows(s: Seq<char>, n: int)
    requires
        0 <= n <= s.len(),
    ensures
        decimal(s.take(n)) <= decimal(s),
    decreases s.len() - n,
{
    if n < s.len() {
        lemma_decimal_grows(s, n + 1);
        assert(s.take(n + 1).drop_last() == s.take(n));
    } else {
        assert(s.take(n) == s);
    }
}

/// Parses a `u32` written in decimal.
pub fn parse_u32(s: &str) -> (r: Option<u32>)
    ensures
        r == u32_value(s@),
{
    let v = chars_of(s);
    let ghost d = unsigned_digits(s@);
    let start: usize = if v.len() > 0 && v[0] == '+' {
        1
    } else {
        0
    };
    if start == v.len() {
        return None;
    }
    let mut i: usize = start;
    let mut acc: u64 = 0;
    while i < v.len()
        invariant
            start <= i <= v.len(),
            start <= 1,
            v@ == s@,
            d == v@.skip(start as int),
            d == unsigned_digits(s@),
            acc == decimal(d.take(i - start)),
            acc <= u32::MAX,
            forall|j: int| 0 <= j < i - start ==> is_digit(d[j]),
        decreases v.len() - i,
    {
        let c = v[i];
        assert(d[i - start] == c);
        if c < '0' || c > '9' {
            return None;
        }
        let digit: u64 = c as u64 - '0' as u64;
        assert(d.take(i - start + 1).drop_last() == d.take(i - start));
        acc = acc * 10 + digit;
        if acc > u32::MAX as u64 {
            proof {
                lemma_decimal_grows(d, i - start + 1);
            }
            return None;
        }
        i = i + 1;
    }
    assert(d.take(v.len() - start) == d);
    Some(acc as u32)
}

/// Whether `a` comes before `b`: the first difference decides, and a proper
/// prefix comes first. Ordering by code point is also the order of the UTF-8
/// bytes, hence that of `String`.
#[verifier::opaque]
pub open spec fn text_lt(a: Seq<char>, b: Seq<char>) -> bool
    decreases b.len(),
{
    if b.len() == 0 {
        false
    } else if a.len() == 0 {
        true
    } else if a[0] == b[0] {
        text_lt(a.skip(1), b.skip(1))
    } else {
        a[0] < b[0]
    }
}

/// Of two texts exactly one comes first, unless they are equal.
pub proof fn lemma_text_lt_total(a: Seq<char>, b: Seq<char>)
    ensures
        a == b ==> !text_lt(a, b),
        a != b ==> text_lt(a, b) != text_lt(b, a),
    decreases b.len(),
{
    reveal(text_lt);
    if a.len() > 0 && b.len() > 0 && a[0] == b[0] {
        lemma_text_lt_total(a.skip(1), b.skip(1));
        if a.skip(1) == b.skip(1) {
            assert(a =~= seq![a[0]] + a.skip(1));
            assert(b =~= seq![b[0]] + b.skip(1));
        }
    } else if a.len() == 0 && b.len() == 0 {
        assert(a =~= b);
    }
}

/// The order of texts is transitive.
pub proof fn lemma_text_lt_transitive(a: Seq<char>, b: Seq<char>, c: Seq<char>)
    requires
        text_lt(a, b),
        text_lt(b, c),
    ensures
        text_lt(a, c),
    decreases c.len(),
{
    reveal(text_lt);
    if a.len() > 0 && a[0] == b[0] && b[0] == c[0] {
        lemma_text_lt_transitive(a.skip(1), b.skip(1), c.skip(1));
    }
}

/// A common prefix does not decide which of two texts comes first.
proof fn lemma_text_lt_common_prefix(a: Seq<char>, b: Seq<char>, n: int)
    requires
        0 <= n <= a.len(),
        n <= b.len(),
        forall|i: int| 0 <= i < n ==> a[i] == b[i],
    ensures
        text_lt(a, b) == text_lt(a.skip(n), b.skip(n)),
    decreases n,
{
    reveal(text_lt);
    if n == 0 {
        assert(a.skip(0) == a);
        assert(b.skip(0) == b);
    } else {
        let x = a.skip(1);
        let y = b.skip(1);
        assert forall|i: int| 0 <= i < n - 1 implies x[i] == y[i] by {
            assert(x[i] == a[i + 1]);
            assert(y[i] == b[i + 1]);
        }
        lemma_text_lt_common_prefix(x, y, n - 1);
        assert(x.skip(n - 1) == a.skip(n));
        assert(y.skip(n - 1) == b.skip(n));
    }
}

/// Where one text stands with regard to another.
#[derive(Clone, Copy, Debug, PartialEq, Eq, Structural)]
pub enum TextOrder {
    Before,
    Same,
    After,
}

/// Compares two texts.
pub fn text_order(a: &str, b: &str) -> (r: TextOrder)
    ensures
        r == TextOrder::Before <==> text_lt(a@, b@),
        r == TextOrder::Same <==> a@ == b@,
        r == TextOrder::After <==> text_lt(b@, a@),
{
    chars_order(&chars_of(a), &chars_of(b))
}

/// Compares two texts, given as their characters.
pub(crate) fn chars_order(u: &Vec<char>, v: &Vec<char>) -> (r: TextOrder)
    ensures
        r == TextOrder::Before <==> text_lt(u@, v@),
        r == TextOrder::Same <==> u@ == v@,
        r == TextOrder::After <==> text_lt(v@, u@),
{
    let mut n: usize = 0;
    while n < u.len() && n < v.len() && u[n] == v[n]
        invariant
            n <= u.len(),
            n <= v.len(),
            forall|i: int| 0 <= i < n ==> u@[i] == v@[i],
        decreases u.len() - n,
    {
        n = n + 1;
    }
    proof {
        reveal(text_lt);
        lemma_text_lt_common_prefix(u@, v@, n as int);
        lemma_text_lt_common_prefix(v@, u@, n as int);
        lemma_text_lt_total(u@, v@);
        if n == u.len() && n == v.len() {
            assert(u@ =~= v@);
        }
    }
    if n == v.len() {
        if n == u.len() {
            TextOrder::Same
        } else {
            TextOrder::After
        }
    } else if n == u.len() || u[n] < v[n] {
        TextOrder::Before
    } else {
        TextOrder::After
    }
}

/// However a text is taken apart at a separator, what comes before the first one is
/// what `text_before` gives, whole and unchanged.
pub proof fn law_text_before_is_the_first_part(
    s: &str,
    sep: char,
    head: Seq<char>,
    tail: Seq<char>,
    r: String,
)
    requires
        call_ensures(text_before, (s, sep), r),
        s@ == head + tail,
        !head.contains(sep),
        tail.len() == 0 || tail[0] == sep,
    ensures
        r@ == head,
{
    assert forall|i: int| 0 <= i < head.len() implies s@[i] != sep by {
        assert(head.contains(head[i]));
    }
    lemma_position(s@, sep, head.len() as int);
    assert(s@.take(head.len() as int) =~= head);
}

/// A number is read digit by digit: one more digit makes it ten times as much and
/// the digit more, as long as that fits, and nothing but digits may follow the `+`
/// that may come first.
pub proof fn law_numbers_are_read_digit_by_digit(s: Seq<char>, c: char)
    ensures
        u32_value(Seq::empty()) is None,
        u32_value(seq!['+']) is None,
        s.len() == 0 || s == seq!['+'] ==> u32_value(s.push(c)) == if '0' <= c <= '9' {
            Some((c as u32 - '0' as u32) as u32)
        } else {
            None
        },
        s.len() > 0 && s != seq!['+'] ==> u32_value(s.push(c)) == match u32_value(s) {
            Some(n) => if '0' <= c <= '9' && 10 * n + (c as u32 - '0' as u32) <= 4294967295 {
                Some((10 * n + (c as u32 - '0' as u32)) as u32)
            } else {
                None
            },
            None => None,
        },
        forall|text: &str, r: Option<u32>| #[trigger]
            call_ensures(parse_u32, (text,), r) ==> r == u32_value(text@),
{
    let t = s.push(c);
    let d = unsigned_digits(t);
    assert(unsigned_digits(seq!['+']) =~= Seq::<char>::empty());
    if s.len() == 0 || s == seq!['+'] {
        if s.len() == 0 {
            assert(t =~= seq![c]);
        } else {
            assert(t =~= seq!['+', c]);
        }
        if c == '+' {
            assert(d =~= Seq::<char>::empty() || d =~= seq!['+']);
            assert(d.len() > 0 ==> !is_digit(d[0]));
        } else {
            assert(d =~= seq![c]);
            assert(d.drop_last() =~= Seq::<char>::empty());
            assert(is_digit(c) == is_digit(d[0]));
        }
    } else {
        let e = unsigned_digits(s);
        if s[0] == '+' {
            assert(e.len() > 0) by {
                if s.len() == 1 {
                    assert(s =~= seq!['+']);
                }
            }
        }
        assert(d =~= e.push(c));
        assert(d.drop_last() =~= e);
        assert(d[e.len() as int] == c);
        assert forall|i: int| 0 <= i < e.len() implies d[i] == e[i] by {}
        if forall|i: int| 0 <= i < d.len() ==> is_digit(d[i]) {
            assert forall|i: int| 0 <= i < e.len() implies is_digit(e[i]) by {
                assert(d[i] == e[i]);
            }
        }
        if forall|i: int| 0 <= i < e.len() ==> is_digit(e[i]) {
            if is_digit(c) {
                assert forall|i: int| 0 <= i < d.len() implies is_digit(d[i]) by {
                    if i < e.len() {
                        assert(d[i] == e[i]);
                    }
                }
            }
        }
    }
}

/// The first character in which two texts differ decides which comes first, and a
/// text comes before any longer one that starts with it.
pub proof fn law_first_difference_decides(a: Seq<char>, b: Seq<char>, n: int)
    requires
        0 <= n <= a.len(),
        n <= b.len(),
        forall|i: int| 0 <= i < n ==> a[i] == b[i],
    ensures
        n == b.len() ==> !text_lt(a, b),
        n == a.len() && n < b.len() ==> text_lt(a, b),
        n < a.len() && n < b.len() && a[n] != b[n] ==> text_lt(a, b) == (a[n] < b[n]),
        forall|x: &str, y: &str, r: TextOrder| #[trigger]
            call_ensures(text_order, (x, y), r) ==> (r is Before <==> text_lt(x@, y@)) && (r is Same
                <==> x@ == y@),
{
    reveal(text_lt);
    lemma_text_lt_common_prefix(a, b, n);
}

} // verus!
