//! The text of `/etc/login.defs`: one setting per line, its name and its value
//! separated by whitespace, with `#` starting a comment line.

use vstd::prelude::*;

use crate::text::chars_of;

verus! {

/// Whether `c` has the Unicode property `White_Space`.
pub open spec fn is_space(c: char) -> bool {
    ||| '\u{9}' <= c <= '\u{d}'
    ||| c == '\u{20}'
    ||| c == '\u{85}'
    ||| c == '\u{a0}'
    ||| c == '\u{1680}'
    ||| '\u{2000}' <= c <= '\u{200a}'
    ||| c == '\u{2028}'
    ||| c == '\u{2029}'
    ||| c == '\u{202f}'
    ||| c == '\u{205f}'
    ||| c == '\u{3000}'
}

/// `s` without the whitespace at its start.
pub open spec fn trim_start(s: Seq<char>) -> Seq<char>
    decreases s.len(),
{
    if s.len() > 0 && is_space(s[0]) {
        trim_start(s.skip(1))
    } else {
        s
    }
}

/// `s` without the whitespace at its end.
pub open spec fn trim_end(s: Seq<char>) -> Seq<char>
    decreases s.len(),
{
    if s.len() > 0 && is_space(s.last()) {
        trim_end(s.drop_last())
    } else {
        s
    }
}

/// The length of the part of `s` before its first whitespace.
pub open spec fn word_len(s: Seq<char>) -> int
    decreases s.len(),
{
    if s.len() == 0 || is_space(s[0]) {
        0
    } else {
        1 + word_len(s.skip(1))
    }
}

/// The text of a line that counts: without the whitespace around it.
pub open spec fn line_body(line: Seq<char>) -> Seq<char> {
    trim_end(trim_start(line))
}

/// Whether a line holds a setting: it is no comment, and whitespace separates
/// its first word from more text.
pub open spec fn has_setting(line: Seq<char>) -> bool {
    let body = line_body(line);
    body.len() > 0 && body[0] != '#' && word_len(body) < body.len()
}

/// The name that a line with a setting sets.
pub open spec fn setting_name(line: Seq<char>) -> Seq<char> {
    line_body(line).take(word_len(line_body(line)))
}

/// The value that a line with a setting gives.
pub open spec fn setting_value(line: Seq<char>) -> Seq<char> {
    trim_start(line_body(line).skip(word_len(line_body(line)) + 1))
}

/// The value of the last of `lines` that sets `name`.
pub open spec fn last_value(lines: Seq<Seq<char>>, name: Seq<char>) -> Option<Seq<char>>
    decreases lines.len(),
{
    if lines.len() == 0 {
        None
    } else if has_setting(lines.last()) && setting_name(lines.last()) == name {
        Some(setting_value(lines.last()))
    } else {
        last_value(lines.drop_last(), name)
    }
}

/// The value that `text` gives to the setting `name`.
pub open spec fn value_of(text: Seq<char>, name: Seq<char>) -> Option<Seq<char>> {
    last_value(crate::text::split(text, '\n'), name)
}

/// Whether the character that ends the name of a setting is ASCII, on a line
/// that has one.
pub open spec fn separator_is_ascii(line: Seq<char>) -> bool {
    has_setting(line) ==> line_body(line)[word_len(line_body(line))] as u32 <= 0x7f
}

/// The texts that can be read: names and values are separated by ASCII
/// whitespace on every line.
pub open spec fn is_readable(text: Seq<char>) -> bool {
    let lines = crate::text::split(text, '\n');
    forall|i: int| 0 <= i < lines.len() ==> separator_is_ascii(#[trigger] lines[i])
}

/// `whitespace_conf::parse`, asked for one name.
///
/// Believed of it: every line is trimmed; an empty one and one that starts with
/// `#` are passed over; of the others, one with whitespace in it gives the name
/// before its first whitespace the text after it, trimmed at its start; and of
/// two lines that give the same name a value the later one counts. It takes
/// the first whitespace of a line to be one byte long and panics where it is
/// not, so only readable texts are handed to it.
#[verifier::external_body]
pub(crate) fn lookup<'a>(text: &'a str, name: &str) -> (r: Option<&'a str>)
    requires
        is_readable(text@),
    ensures
        match r {
            Some(value) => value_of(text@, name@) == Some(value@),
            None => value_of(text@, name@) is None,
        },
{
    whitespace_conf::parse(text).get(name).copied()
}

proof fn lemma_trim_start(s: Seq<char>, n: int)
    requires
        0 <= n <= s.len(),
        forall|i: int| 0 <= i < n ==> is_space(s[i]),
        n < s.len() ==> !is_space(s[n]),
    ensures
        trim_start(s) == s.skip(n),
    decreases s.len(),
{
    if n == 0 {
        assert(s.skip(0) == s);
    } else {
        let t = s.skip(1);
        assert forall|i: int| 0 <= i < n - 1 implies is_space(t[i]) by {
            assert(t[i] == s[i + 1]);
        }
        lemma_trim_start(t, n - 1);
        assert(t.skip(n - 1) == s.skip(n));
    }
}

proof fn lemma_trim_end(s: Seq<char>, n: int)
    requires
        0 <= n <= s.len(),
        forall|i: int| n <= i < s.len() ==> is_space(s[i]),
        n > 0 ==> !is_space(s[n - 1]),
    ensures
        trim_end(s) == s.take(n),
    decreases s.len(),
{
    if n == s.len() {
        assert(s.take(n) == s);
    } else {
        lemma_trim_end(s.drop_last(), n);
        assert(s.drop_last().take(n) == s.take(n));
    }
}

proof fn lemma_word_len(s: Seq<char>, n: int)
    requires
        0 <= n <= s.len(),
        forall|i: int| 0 <= i < n ==> !is_space(s[i]),
        n < s.len() ==> is_space(s[n]),
    ensures
        word_len(s) == n,
    decreases s.len(),
{
    if n > 0 {
        let t = s.skip(1);
        assert forall|i: int| 0 <= i < n - 1 implies !is_space(t[i]) by {
            assert(t[i] == s[i + 1]);
        }
        lemma_word_len(t, n - 1);
    }
}

/// Whether `c` has the Unicode property `White_Space`.
fn check_space(c: char) -> (r: bool)
    ensures
        r == is_space(c),
{
    ('\u{9}' <= c && c <= '\u{d}') || c == '\u{20}' || c == '\u{85}' || c == '\u{a0}' || c
        == '\u{1680}' || ('\u{2000}' <= c && c <= '\u{200a}') || c == '\u{2028}' || c
        == '\u{2029}' || c == '\u{202f}' || c == '\u{205f}' || c == '\u{3000}'
}

/// Whether the line that stands in `v` from `start` to `end` can be read.
fn check_line(v: &Vec<char>, start: usize, end: usize) -> (r: bool)
    requires
        start <= end <= v.len(),
    ensures
        r == separator_is_ascii(v@.subrange(start as int, end as int)),
{
    let ghost line = v@.subrange(start as int, end as int);
    let mut a: usize = start;
    while a < end && check_space(v[a])
        invariant
            start <= a <= end <= v.len(),
            line == v@.subrange(start as int, end as int),
            forall|i: int| 0 <= i < a - start ==> is_space(line[i]),
        decreases end - a,
    {
        assert(line[a - start] == v@[a as int]);
        a = a + 1;
    }
    let ghost left = line.skip(a - start);
    proof {
        lemma_trim_start(line, a - start);
    }
    let mut b: usize = end;
    while b > a && check_space(v[b - 1])
        invariant
            start <= a <= b <= end <= v.len(),
            line == v@.subrange(start as int, end as int),
            left == line.skip(a - start),
            forall|i: int| b - a <= i < left.len() ==> is_space(left[i]),
        decreases b,
    {
        assert(left[b - 1 - a] == v@[b - 1]);
        b = b - 1;
    }
    let ghost body = left.take(b - a);
    proof {
        lemma_trim_end(left, b - a);
        assert(body =~= v@.subrange(a as int, b as int));
    }
    if a == b || v[a] == '#' {
        return true;
    }
    let mut w: usize = a;
    while w < b && !check_space(v[w])
        invariant
            a <= w <= b <= v.len(),
            body == v@.subrange(a as int, b as int),
            forall|i: int| 0 <= i < w - a ==> !is_space(body[i]),
        decreases b - w,
    {
        assert(body[w - a] == v@[w as int]);
        w = w + 1;
    }
    proof {
        lemma_word_len(body, w - a);
    }
    w == b || v[w] as u32 <= 0x7f
}

/// A text can be read if its first line and the text after it can.
proof fn lemma_readable_step(text: Seq<char>, n: int)
    requires
        0 <= n < text.len(),
        n == crate::text::position(text, '\n'),
    ensures
        is_readable(text) <==> separator_is_ascii(text.take(n)) && is_readable(text.skip(n + 1)),
{
    let lines = crate::text::split(text, '\n');
    let rest = crate::text::split(text.skip(n + 1), '\n');
    assert(lines == seq![text.take(n)] + rest);
    if is_readable(text) {
        assert(separator_is_ascii(lines[0]));
        assert forall|i: int| 0 <= i < rest.len() implies separator_is_ascii(#[trigger] rest[i]) by {
            assert(rest[i] == lines[i + 1]);
        }
    }
    if separator_is_ascii(text.take(n)) && is_readable(text.skip(n + 1)) {
        assert forall|i: int| 0 <= i < lines.len() implies separator_is_ascii(
            #[trigger] lines[i],
        ) by {
            if i > 0 {
                assert(lines[i] == rest[i - 1]);
            }
        }
    }
}

/// Whether `text` can be read.
pub fn readable(text: &str) -> (r: bool)
    ensures
        r == is_readable(text@),
{
    let v = chars_of(text);
    let mut start: usize = 0;
    let mut i: usize = 0;
    assert(v@.skip(0) == v@);
    loop
        invariant
            start <= i <= v.len(),
            v@ == text@,
            forall|j: int| start <= j < i ==> v@[j] != '\n',
            is_readable(text@) == is_readable(v@.skip(start as int)),
        decreases v.len() + 1 - i,
    {
        if i < v.len() && v[i] != '\n' {
            i = i + 1;
            continue;
        }
        let ok = check_line(&v, start, i);
        let ghost rest = v@.skip(start as int);
        proof {
            crate::text::lemma_position(rest, '\n', i - start);
            assert(rest.take(i - start) =~= v@.subrange(start as int, i as int));
        }
        if i == v.len() {
            proof {
                let lines = crate::text::split(rest, '\n');
                assert(lines == seq![rest]);
                assert(rest.take(i - start) =~= rest);
                assert(lines[0] == rest);
            }
            return ok;
        }
        proof {
            lemma_readable_step(rest, i - start);
            assert(rest.skip(i - start + 1) =~= v@.skip(i + 1));
        }
        if !ok {
            return false;
        }
        start = i + 1;
        i = start;
    }
}

/// What a line counts for is a part of the line.
proof fn lemma_body_is_part(line: Seq<char>, i: int)
    requires
        0 <= i < line_body(line).len(),
    ensures
        line.contains(line_body(line)[i]),
{
    let left = trim_start(line);
    lemma_trim_start_is_part(line);
    lemma_trim_end_is_part(left);
    let n: int = line.len() - left.len();
    assert(line_body(line)[i] == left[i]);
    assert(left[i] == line[n + i]);
}

proof fn lemma_trim_start_is_part(s: Seq<char>)
    ensures
        trim_start(s).len() <= s.len(),
        trim_start(s) == s.skip(s.len() - trim_start(s).len()),
    decreases s.len(),
{
    if s.len() > 0 && is_space(s[0]) {
        let t = s.skip(1);
        lemma_trim_start_is_part(t);
        let n: int = t.len() - trim_start(t).len();
        assert(t.skip(n) =~= s.skip(n + 1));
    } else {
        assert(s.skip(0) =~= s);
    }
}

proof fn lemma_trim_end_is_part(s: Seq<char>)
    ensures
        trim_end(s).len() <= s.len(),
        trim_end(s) == s.take(trim_end(s).len() as int),
    decreases s.len(),
{
    if s.len() > 0 && is_space(s.last()) {
        let t = s.drop_last();
        lemma_trim_end_is_part(t);
        let n: int = trim_end(t).len() as int;
        assert(t.take(n) =~= s.take(n));
    } else {
        assert(s.take(s.len() as int) =~= s);
    }
}

proof fn lemma_word_is_part(s: Seq<char>)
    ensures
        0 <= word_len(s) <= s.len(),
    decreases s.len(),
{
    if s.len() > 0 && !is_space(s[0]) {
        lemma_word_is_part(s.skip(1));
    }
}

/// Lines are read one by one: a text can be read if its first line and the rest can.
/// A line in ASCII can always be read.
pub proof fn law_lines_are_read_one_by_one(line: Seq<char>, rest: Seq<char>)
    requires
        !line.contains('\n'),
    ensures
        is_readable(line + seq!['\n'] + rest) == (is_readable(line) && is_readable(rest)),
        (forall|i: int| 0 <= i < line.len() ==> (#[trigger] line[i]) as u32 <= 0x7f)
            ==> is_readable(line),
        forall|text: &str, r: bool| #[trigger]
            call_ensures(readable, (text,), r) ==> r == is_readable(text@),
{
    let text = line + seq!['\n'] + rest;
    let n: int = line.len() as int;
    assert forall|i: int| 0 <= i < n implies line[i] != '\n' by {
        assert(line.contains(line[i]));
    }
    assert forall|i: int| 0 <= i < n implies text[i] != '\n' by {
        assert(text[i] == line[i]);
    }
    crate::text::lemma_position(text, '\n', n);
    crate::text::lemma_position(line, '\n', n);
    lemma_readable_step(text, n);
    assert(text.take(n) =~= line);
    assert(text.skip(n + 1) =~= rest);
    let lines = crate::text::split(line, '\n');
    assert(lines =~= seq![line]);
    assert(lines[0] == line);
    assert(is_readable(line) == separator_is_ascii(line));
    if forall|i: int| 0 <= i < line.len() ==> (#[trigger] line[i]) as u32 <= 0x7f {
        let body = line_body(line);
        lemma_word_is_part(body);
        if has_setting(line) {
            let w: int = word_len(body);
            lemma_body_is_part(line, w);
            let j: int = choose|j: int| 0 <= j < line.len() && line[j] == body[w];
            assert(line[j] as u32 <= 0x7f);
        }
    }
}

} // verus!
