//! Text: the string operations that the rest of the library builds on.
//!
//! A text is read as the sequence of its characters.

use vstd::prelude::*;
use vstd::std_specs::iter::IteratorSpec;

verus! {

/// `String::push` appends the given character to the end of the string.
pub assume_specification[ String::push ](s: &mut String, c: char)
    ensures
        final(s)@ == old(s)@.push(c),
;

/// What a list of texts holds.
pub open spec fn texts(list: Seq<String>) -> Seq<Seq<char>> {
    list.map_values(|s: String| s@)
}

/// The characters of a text, in order.
pub fn chars_of(s: &str) -> (r: Vec<char>)
    ensures
        r@ == s@,
{
    let mut out: Vec<char> = Vec::new();
    for c in it: s.chars()
        invariant
            it.seq() == s@,
            out@ == s@.take(it.index() as int),
    {
        out.push(c);
    }
    out
}

/// The text made of the characters from `from` up to `to`.
pub fn text_between(chars: &Vec<char>, from: usize, to: usize) -> (r: String)
    requires
        from <= to <= chars@.len(),
    ensures
        r@ == chars@.subrange(from as int, to as int),
{
    let mut out = String::new();
    for i in from..to
        invariant
            from <= to <= chars@.len(),
            out@ == chars@.subrange(from as int, i as int),
    {
        out.push(chars[i]);
    }
    out
}

/// Tells whether two texts hold the same characters.
pub fn same_text(a: &str, b: &str) -> (r: bool)
    ensures
        r == (a@ == b@),
{
    let mut x = a.chars();
    let mut y = b.chars();
    let ghost mut k: int = 0;
    loop
        invariant
            0 <= k <= a@.len(),
            k <= b@.len(),
            a@.take(k) == b@.take(k),
            x.remaining() == a@.skip(k),
            y.remaining() == b@.skip(k),
        decreases a@.len() - k,
    {
        match (x.next(), y.next()) {
            (Some(c), Some(d)) => {
                assert(a@[k] == c && b@[k] == d);
                if c != d {
                    return false;
                }
                proof {
                    k = k + 1;
                }
            },
            (None, None) => {
                assert(a@.skip(k).len() == 0 && b@.skip(k).len() == 0);
                assert(a@ == a@.take(k));
                assert(b@ == b@.take(k));
                return true;
            },
            _ => {
                assert(a@.skip(k).len() != b@.skip(k).len());
                return false;
            },
        }
    }
}

/// Owned copies of some texts.
pub fn strings(list: &[&str]) -> (r: Vec<String>)
    ensures
        texts(r@) == list@.map_values(|s: &str| s@),
{
    let mut out: Vec<String> = Vec::new();
    for i in 0..list.len()
        invariant
            texts(out@) == list@.take(i as int).map_values(|s: &str| s@),
    {
        let s = list[i].to_owned();
        assert(texts(out@.push(s)) == texts(out@).push(s@));
        assert(list@.take(i + 1).map_values(|s: &str| s@) == list@.take(i as int).map_values(
            |s: &str| s@,
        ).push(s@));
        out.push(s);
    }
    assert(list@.take(list@.len() as int) == list@);
    out
}

/// Tells whether `list` holds a text equal to `wanted`.
pub fn holds_text(list: &Vec<String>, wanted: &str) -> (r: bool)
    ensures
        r == texts(list@).contains(wanted@),
{
    for i in 0..list.len()
        invariant
            forall|j: int| 0 <= j < i ==> list@[j]@ != wanted@,
    {
        if same_text(list[i].as_str(), wanted) {
            assert(texts(list@)[i as int] == wanted@);
            return true;
        }
    }
    false
}

/// Tells whether a text holds a character.
pub fn holds_char(s: &str, c: char) -> (r: bool)
    ensures
        r == s@.contains(c),
{
    for d in it: s.chars()
        invariant
            it.seq() == s@,
            forall|j: int| 0 <= j < it.index() ==> s@[j] != c,
    {
        if d == c {
            assert(s@[it.index() as int] == c);
            return true;
        }
    }
    false
}

/// The order of texts: at the first place where two texts differ, the one with the lower character
/// comes first, or the one that ends there.
pub open spec fn precedes(a: Seq<char>, b: Seq<char>) -> bool {
    exists|i: int| #[trigger] differs_at(a, b, i)
}

/// Tells whether `a` comes before `b` by what stands at a place, and they agree before it.
pub open spec fn differs_at(a: Seq<char>, b: Seq<char>, i: int) -> bool {
    &&& 0 <= i <= a.len() && i < b.len()
    &&& a.take(i) == b.take(i)
    &&& i < a.len() ==> a[i] < b[i]
}

/// Tells whether a text begins with `prefix`.
pub fn starts_with(s: &str, prefix: &str) -> (r: bool)
    ensures
        r == prefix@.is_prefix_of(s@),
{
    let chars = chars_of(s);
    let head = chars_of(prefix);
    occurs_here(&chars, &head, 0)
}

/// Tells whether `part` stands in `whole` at position `at`.
pub open spec fn stands_at(whole: Seq<char>, part: Seq<char>, at: int) -> bool {
    0 <= at && at + part.len() <= whole.len() && whole.subrange(at, at + part.len()) == part
}

/// Tells whether `part` stands anywhere in `whole`.
pub open spec fn has_part(whole: Seq<char>, part: Seq<char>) -> bool {
    exists|at: int| #[trigger] stands_at(whole, part, at)
}

fn occurs_here(whole: &Vec<char>, part: &Vec<char>, at: usize) -> (r: bool)
    requires
        at <= whole@.len(),
    ensures
        r == stands_at(whole@, part@, at as int),
{
    let total = whole.len();
    if part.len() > total - at {
        return false;
    }
    for i in 0..part.len()
        invariant
            total == whole@.len(),
            at + part@.len() <= total,
            forall|j: int| 0 <= j < i ==> #[trigger] part@[j] == whole@[at + j],
    {
        if part[i] != whole[at + i] {
            assert(whole@.subrange(at as int, at + part@.len())[i as int] != part@[i as int]);
            return false;
        }
    }
    assert(whole@.subrange(at as int, at + part@.len()) == part@);
    true
}

/// Tells whether `part` stands anywhere in `whole`.
pub fn contains(whole: &str, part: &str) -> (r: bool)
    ensures
        r == has_part(whole@, part@),
{
    let w = chars_of(whole);
    let p = chars_of(part);
    let total = w.len();
    for at in 0..total
        invariant
            total == w@.len(),
            w@ == whole@,
            p@ == part@,
            forall|j: int| 0 <= j < at ==> !stands_at(whole@, part@, j),
    {
        if occurs_here(&w, &p, at) {
            return true;
        }
    }
    occurs_here(&w, &p, total)
}

/// `s` with every occurrence of `from`, taken from left to right without overlap, replaced by
/// `to`.
pub open spec fn replaced(s: Seq<char>, from: Seq<char>, to: Seq<char>) -> Seq<char>
    decreases s.len(),
{
    if s.len() == 0 || from.len() == 0 {
        s
    } else if stands_at(s, from, 0) {
        to + replaced(s.skip(from.len() as int), from, to)
    } else {
        seq![s[0]] + replaced(s.skip(1), from, to)
    }
}

/// Replaces every occurrence of `from`.
pub fn replace(s: &str, from: &str, to: &str) -> (r: String)
    requires
        from@.len() > 0,
    ensures
        r@ == replaced(s@, from@, to@),
{
    let chars = chars_of(s);
    let wanted = chars_of(from);
    let mut out = String::new();
    let mut i: usize = 0;
    assert(s@.skip(0) == s@);
    while i < chars.len()
        invariant
            i <= chars@.len(),
            chars@ == s@,
            wanted@ == from@,
            from@.len() > 0,
            out@ + replaced(s@.skip(i as int), from@, to@) == replaced(s@, from@, to@),
        decreases chars@.len() - i,
    {
        let ghost rest = s@.skip(i as int);
        if occurs_here(&chars, &wanted, i) {
            assert(rest.subrange(0, from@.len() as int) == s@.subrange(
                i as int,
                i + from@.len(),
            ));
            assert(rest.skip(from@.len() as int) == s@.skip(i + from@.len()));
            out.append(to);
            i = i + wanted.len();
        } else {
            assert(!stands_at(rest, from@, 0)) by {
                if stands_at(rest, from@, 0) {
                    assert(rest.subrange(0, from@.len() as int) == s@.subrange(
                        i as int,
                        i + from@.len(),
                    ));
                }
            }
            assert(rest.skip(1) == s@.skip(i + 1));
            out.push(chars[i]);
            i = i + 1;
        }
    }
    assert(s@.skip(i as int).len() == 0);
    out
}

/// Where a character first stands, if it does.
pub open spec fn first_at(s: Seq<char>, c: char) -> Option<int>
    decreases s.len(),
{
    if s.len() == 0 {
        None
    } else if s[0] == c {
        Some(0)
    } else {
        match first_at(s.skip(1), c) {
            Some(i) => Some(i + 1),
            None => None,
        }
    }
}

/// A first place is a place, and no earlier one is.
pub proof fn lemma_first_at(s: Seq<char>, c: char)
    ensures
        match first_at(s, c) {
            Some(i) => 0 <= i < s.len() && s[i] == c && forall|j: int| 0 <= j < i ==> s[j] != c,
            None => forall|j: int| 0 <= j < s.len() ==> s[j] != c,
        },
    decreases s.len(),
{
    if s.len() > 0 && s[0] != c {
        lemma_first_at(s.skip(1), c);
        match first_at(s.skip(1), c) {
            Some(i) => {
                assert forall|j: int| 0 <= j < i + 1 implies s[j] != c by {
                    if j > 0 {
                        assert(s[j] == s.skip(1)[j - 1]);
                    }
                }
            },
            None => {
                assert forall|j: int| 0 <= j < s.len() implies s[j] != c by {
                    if j > 0 {
                        assert(s[j] == s.skip(1)[j - 1]);
                    }
                }
            },
        }
    }
}

/// Only one place can be the first.
proof fn lemma_first_at_is(s: Seq<char>, c: char, i: int)
    requires
        0 <= i < s.len(),
        s[i] == c,
        forall|j: int| 0 <= j < i ==> s[j] != c,
    ensures
        first_at(s, c) == Some(i),
{
    lemma_first_at(s, c);
}

/// What stands before the first `c`; all of the text where there is none.
pub open spec fn before_first(s: Seq<char>, c: char) -> Seq<char> {
    match first_at(s, c) {
        Some(i) => s.take(i),
        None => s,
    }
}

/// What stands after the last `c`; all of the text where there is none.
pub open spec fn after_last(s: Seq<char>, c: char) -> Seq<char>
    decreases s.len(),
{
    match first_at(s, c) {
        Some(i) => if 0 <= i < s.len() {
            after_last(s.skip(i + 1), c)
        } else {
            s
        },
        None => s,
    }
}

fn find_char(chars: &Vec<char>, from: usize, c: char) -> (r: Option<usize>)
    requires
        from <= chars@.len(),
    ensures
        match r {
            Some(i) => from <= i < chars@.len() && first_at(chars@.skip(from as int), c) == Some(
                i - from,
            ),
            None => first_at(chars@.skip(from as int), c) is None,
        },
{
    let ghost rest = chars@.skip(from as int);
    for i in from..chars.len()
        invariant
            from <= chars@.len(),
            rest == chars@.skip(from as int),
            forall|j: int| 0 <= j < i - from ==> rest[j] != c,
    {
        if chars[i] == c {
            proof {
                lemma_first_at_is(rest, c, i - from);
            }
            return Some(i);
        }
    }
    proof {
        lemma_first_at(rest, c);
    }
    None
}

/// What stands before the first `c`.
pub fn text_before_first(s: &str, c: char) -> (r: String)
    ensures
        r@ == before_first(s@, c),
{
    let chars = chars_of(s);
    assert(chars@.skip(0) == s@);
    match find_char(&chars, 0, c) {
        Some(i) => text_between(&chars, 0, i),
        None => s.to_owned(),
    }
}

/// What stands after the last `c`.
pub fn text_after_last(s: &str, c: char) -> (r: String)
    ensures
        r@ == after_last(s@, c),
{
    let chars = chars_of(s);
    let total = chars.len();
    let mut from: usize = 0;
    assert(chars@.skip(0) == s@);
    loop
        invariant
            from <= total == chars@.len(),
            chars@ == s@,
            after_last(s@, c) == after_last(s@.skip(from as int), c),
        decreases chars@.len() - from,
    {
        match find_char(&chars, from, c) {
            Some(i) => {
                assert(s@.skip(from as int).skip(i - from + 1) == s@.skip(i + 1));
                from = i + 1;
            },
            None => {
                assert(s@.skip(from as int) == s@.subrange(from as int, s@.len() as int));
                return text_between(&chars, from, total);
            },
        }
    }
}

/// A line without the carriage return that may close it.
pub open spec fn without_return(line: Seq<char>) -> Seq<char> {
    if line.len() > 0 && line.last() == '\r' {
        line.drop_last()
    } else {
        line
    }
}

/// The lines of a text. A line ends at a line feed, with the carriage return before it if there
/// is one, or at the end of the text.
pub open spec fn lines(s: Seq<char>) -> Seq<Seq<char>>
    decreases s.len(),
{
    if s.len() == 0 {
        Seq::empty()
    } else {
        match first_at(s, '\n') {
            Some(i) => if 0 <= i < s.len() {
                seq![without_return(s.take(i))] + lines(s.skip(i + 1))
            } else {
                seq![s]
            },
            None => seq![s],
        }
    }
}

/// Splits a text into its lines.
pub fn split_lines(s: &str) -> (r: Vec<String>)
    ensures
        texts(r@) == lines(s@),
        r@.len() <= s@.len(),
{
    let chars = chars_of(s);
    let mut out: Vec<String> = Vec::new();
    let mut from: usize = 0;
    assert(s@.skip(0) == s@);
    assert(texts(out@) + lines(s@) == lines(s@));
    while from < chars.len()
        invariant
            from <= chars@.len(),
            chars@ == s@,
            out@.len() <= from,
            texts(out@) + lines(s@.skip(from as int)) == lines(s@),
        decreases chars@.len() - from,
    {
        let ghost rest = s@.skip(from as int);
        let ghost before = texts(out@);
        proof {
            lemma_first_at(rest, '\n');
        }
        match find_char(&chars, from, '\n') {
            Some(i) => {
                let end: usize = if i > from && chars[i - 1] == '\r' {
                    i - 1
                } else {
                    i
                };
                let line = text_between(&chars, from, end);
                assert(line@ == without_return(rest.take(i - from)));
                assert(rest.skip(i - from + 1) == s@.skip(i + 1));
                out.push(line);
                assert(texts(out@) == before.push(line@));
                assert(before + (seq![line@] + lines(s@.skip(i + 1))) == before.push(line@)
                    + lines(s@.skip(i + 1)));
                from = i + 1;
            },
            None => {
                let line = text_between(&chars, from, chars.len());
                assert(line@ == rest);
                out.push(line);
                assert(texts(out@) == before.push(line@));
                assert(before + seq![rest] == before.push(line@));
                return out;
            },
        }
    }
    assert(s@.skip(from as int).len() == 0);
    assert(texts(out@) + Seq::empty() == texts(out@));
    out
}

/// The characters that count as white space.
pub open spec fn is_white_space(c: char) -> bool {
    ||| '\u{9}' <= c <= '\u{d}'
    ||| c == ' '
    ||| c == '\u{85}'
    ||| c == '\u{a0}'
    ||| c == '\u{1680}'
    ||| '\u{2000}' <= c <= '\u{200a}'
    ||| c == '\u{2028}'
    ||| c == '\u{2029}'
    ||| c == '\u{202f}'
    ||| c == '\u{205f}'
    ||| c == '\u{3000}'
}

/// A blank text holds nothing but white space.
pub open spec fn blank(s: Seq<char>) -> bool {
    forall|i: int| 0 <= i < s.len() ==> is_white_space(#[trigger] s[i])
}

/// Tells whether a text holds nothing but white space.
pub fn is_blank(s: &str) -> (r: bool)
    ensures
        r == blank(s@),
{
    for c in it: s.chars()
        invariant
            it.seq() == s@,
            forall|j: int| 0 <= j < it.index() ==> is_white_space(#[trigger] s@[j]),
    {
        let white = ('\u{9}' <= c && c <= '\u{d}') || c == ' ' || c == '\u{85}' || c == '\u{a0}'
            || c == '\u{1680}' || ('\u{2000}' <= c && c <= '\u{200a}') || c == '\u{2028}' || c
            == '\u{2029}' || c == '\u{202f}' || c == '\u{205f}' || c == '\u{3000}';
        if !white {
            assert(!is_white_space(s@[it.index() as int]));
            return false;
        }
    }
    true
}

/// The digit for a value below sixteen.
pub open spec fn digit(d: int) -> char {
    if d < 10 {
        (48 + d) as char
    } else {
        (87 + d) as char
    }
}

/// A number written in the given base, without leading zeros.
pub open spec fn radix(n: nat, base: nat) -> Seq<char>
    decreases n,
{
    if base < 2 || n < base {
        seq![digit(n as int)]
    } else {
        proof {
            assert(n / base < n) by (nonlinear_arith)
                requires
                    n >= base >= 2,
            ;
        }
        radix(n / base, base).push(digit((n % base) as int))
    }
}

/// A number in decimal.
pub open spec fn decimal(n: nat) -> Seq<char> {
    radix(n, 10)
}

/// A number in hexadecimal with lower-case digits, filled up with zeros on the left to at least
/// `width` digits.
pub open spec fn padded_hex(n: nat, width: nat) -> Seq<char> {
    let digits = radix(n, 16);
    if digits.len() < width {
        Seq::new((width - digits.len()) as nat, |i: int| '0') + digits
    } else {
        digits
    }
}

fn digit_char(d: u8) -> (r: char)
    requires
        d < 16,
    ensures
        r == digit(d as int),
{
    if d < 10 {
        (48 + d) as char
    } else {
        (87 + d) as char
    }
}

fn hex_text(n: u128) -> (r: String)
    ensures
        r@ == radix(n as nat, 16),
    decreases n,
{
    if n < 16 {
        let mut s = String::new();
        s.push(digit_char(n as u8));
        s
    } else {
        let mut s = hex_text(n / 16);
        s.push(digit_char((n % 16) as u8));
        s
    }
}

/// Writes a number in decimal.
pub fn decimal_text(n: u128) -> (r: String)
    ensures
        r@ == decimal(n as nat),
    decreases n,
{
    if n < 10 {
        let mut s = String::new();
        s.push(digit_char(n as u8));
        s
    } else {
        let mut s = decimal_text(n / 10);
        s.push(digit_char((n % 10) as u8));
        s
    }
}

/// Writes a number in hexadecimal, with at least `width` digits.
pub fn padded_hex_text(n: u128, width: usize) -> (r: String)
    ensures
        r@ == padded_hex(n as nat, width as nat),
{
    let digits = hex_text(n);
    let have = chars_of(digits.as_str()).len();
    let mut out = String::new();
    if have < width {
        for i in 0..(width - have)
            invariant
                have < width,
                out@ == Seq::new(i as nat, |k: int| '0'),
        {
            out.push('0');
        }
    }
    let ghost zeros = out@;
    out.append(digits.as_str());
    assert(zeros.len() == 0 ==> zeros + digits@ == digits@);
    out
}

/// The texts of a list with `sep` between each two.
pub open spec fn joined(parts: Seq<Seq<char>>, sep: Seq<char>) -> Seq<char>
    decreases parts.len(),
{
    if parts.len() == 0 {
        Seq::empty()
    } else if parts.len() == 1 {
        parts[0]
    } else {
        joined(parts.drop_last(), sep) + sep + parts.last()
    }
}

/// Joins the texts of a list.
pub fn join(parts: &Vec<String>, sep: &str) -> (r: String)
    ensures
        r@ == joined(texts(parts@), sep@),
{
    let mut out = String::new();
    let ghost all = texts(parts@);
    for i in 0..parts.len()
        invariant
            all == texts(parts@),
            out@ == joined(all.take(i as int), sep@),
    {
        proof {
            assert(all.take(i + 1).drop_last() == all.take(i as int));
            assert(all.take(i + 1).last() == parts@[i as int]@);
        }
        if i > 0 {
            out.append(sep);
        } else {
            assert(out@ + parts@[0]@ == parts@[0]@);
        }
        out.append(parts[i].as_str());
    }
    assert(all.take(parts@.len() as int) == all);
    out
}

} // verus!
