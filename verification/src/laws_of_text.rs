//! What holds of texts, lists of texts and JSON values: the vocabulary that the other laws speak in.

use crate::json::{entries_view, lemma_entries_keys, lemma_items_view, Json, JsonView};
use crate::json_text::{
    distinct_keys, layer_content, lemma_fields_hold, lemma_fields_keys, reading, value_content, Layer,
};
use crate::outside::{
    alphanumeric, debug_list, hex_text, host_view, lower, shown_list, unicode_alphanumeric,
    unicode_lower, unicode_upper, upper,
};
use crate::schema::{opt_view, views};
use crate::text::{
    after_last, before_first, blank, decimal, differs_at, digit, first_at, has_part, joined,
    lemma_first_at, lines, padded_hex, precedes, radix, replaced, stands_at, texts,
};
use vstd::prelude::*;
use vstd::utf8::is_ascii_chars;

verus! {

// Lists.

/// A list of texts holds what each of its texts holds, in order.
pub proof fn law_texts_hold_each_text(list: Seq<String>)
    ensures
        texts(list).len() == list.len(),
        forall|i: int| 0 <= i < list.len() ==> #[trigger] texts(list)[i] == list[i]@,
{
}

/// A list stands for what each of its items stands for, in order.
pub proof fn law_views_hold_each_view<T: View>(list: Seq<T>, item: Option<T>)
    ensures
        views(list).len() == list.len(),
        forall|i: int| 0 <= i < list.len() ==> #[trigger] views(list)[i] == list[i]@,
        opt_view(item) is Some <==> item is Some,
        item is Some ==> opt_view(item)->0 == item->0@,
{
}

// Parts of texts.

/// A part of a text is what stands at the beginning of some rest of it.
pub proof fn law_part_begins_a_rest(whole: Seq<char>, part: Seq<char>)
    ensures
        has_part(whole, part) <==> exists|at: int|
            0 <= at <= whole.len() && part.is_prefix_of(#[trigger] whole.skip(at)),
{
    if has_part(whole, part) {
        let at = choose|at: int| #[trigger] stands_at(whole, part, at);
        assert(whole.skip(at).subrange(0, part.len() as int) =~= whole.subrange(
            at,
            at + part.len(),
        ));
        assert(part.is_prefix_of(whole.skip(at)));
    }
    if exists|at: int| 0 <= at <= whole.len() && part.is_prefix_of(#[trigger] whole.skip(at)) {
        let at = choose|at: int|
            0 <= at <= whole.len() && part.is_prefix_of(#[trigger] whole.skip(at));
        assert(whole.subrange(at, at + part.len()) =~= whole.skip(at).subrange(
            0,
            part.len() as int,
        ));
        assert(stands_at(whole, part, at));
    }
}

/// A text is a part of every text that holds it between others.
pub proof fn law_part_is_found_anywhere(before: Seq<char>, part: Seq<char>, after: Seq<char>)
    ensures
        has_part(before + part + after, part),
{
    let whole = before + part + after;
    assert(whole.subrange(before.len() as int, (before.len() + part.len()) as int) =~= part);
    assert(stands_at(whole, part, before.len() as int));
}

/// Replacing leaves a text as it is that does not hold what is replaced.
pub proof fn law_nothing_to_replace(s: Seq<char>, from: Seq<char>, to: Seq<char>)
    requires
        forall|at: int| 0 <= at <= s.len() ==> !from.is_prefix_of(#[trigger] s.skip(at)),
    ensures
        replaced(s, from, to) == s,
    decreases s.len(),
{
    if s.len() > 0 && from.len() > 0 {
        assert(!stands_at(s, from, 0)) by {
            if stands_at(s, from, 0) {
                assert(from.is_prefix_of(s.skip(0)));
            }
        }
        assert forall|at: int| 0 <= at <= s.skip(1).len() implies !from.is_prefix_of(
            #[trigger] s.skip(1).skip(at),
        ) by {
            assert(s.skip(1).skip(at) =~= s.skip(at + 1));
        }
        law_nothing_to_replace(s.skip(1), from, to);
        assert(seq![s[0]] + s.skip(1) =~= s);
    }
}

/// Replacing puts the new text in the place of the first occurrence, keeps what stands before it, and
/// goes on behind it.
pub proof fn law_first_occurrence_is_replaced(
    before: Seq<char>,
    from: Seq<char>,
    after: Seq<char>,
    to: Seq<char>,
)
    requires
        from.len() > 0,
        forall|at: int|
            0 <= at < before.len() ==> !from.is_prefix_of(
                #[trigger] (before + from + after).skip(at),
            ),
    ensures
        replaced(before + from + after, from, to) == before + to + replaced(after, from, to),
    decreases before.len(),
{
    let whole = before + from + after;
    if before.len() == 0 {
        assert(whole.subrange(0, from.len() as int) =~= from);
        assert(whole.skip(from.len() as int) =~= after);
        assert(before + to + replaced(after, from, to) =~= to + replaced(after, from, to));
    } else {
        let rest = before.skip(1);
        assert(whole.skip(1) =~= rest + from + after);
        assert(!stands_at(whole, from, 0)) by {
            if stands_at(whole, from, 0) {
                assert(from.is_prefix_of(whole.skip(0)));
            }
        }
        assert forall|at: int| 0 <= at < rest.len() implies !from.is_prefix_of(
            #[trigger] (rest + from + after).skip(at),
        ) by {
            assert((rest + from + after).skip(at) =~= whole.skip(at + 1));
        }
        law_first_occurrence_is_replaced(rest, from, after, to);
        assert(seq![whole[0]] + (rest + to + replaced(after, from, to)) =~= before + to + replaced(
            after,
            from,
            to,
        ));
    }
}

/// What stands before the first of a character, and after the last of it.
pub proof fn law_text_is_cut_at_a_character(a: Seq<char>, c: char, b: Seq<char>)
    ensures
        !a.contains(c) ==> before_first(a + seq![c] + b, c) == a,
        !a.contains(c) ==> before_first(a, c) == a && after_last(a, c) == a,
        !b.contains(c) ==> after_last(a + seq![c] + b, c) == b,
{
    let whole = a + seq![c] + b;
    lemma_first_at(whole, c);
    lemma_first_at(a, c);
    assert(whole[a.len() as int] == c);
    if !a.contains(c) {
        assert forall|j: int| 0 <= j < a.len() implies whole[j] != c by {
            assert(whole[j] == a[j]);
            assert(a.contains(a[j]));
        }
        assert(whole.take(a.len() as int) =~= a);
        if let Some(i) = first_at(a, c) {
            assert(a.contains(a[i]));
        }
    }
    if !b.contains(c) {
        lemma_last_cut(a, c, b);
    }
}

proof fn lemma_last_cut(a: Seq<char>, c: char, b: Seq<char>)
    requires
        !b.contains(c),
    ensures
        after_last(a + seq![c] + b, c) == b,
    decreases a.len(),
{
    let whole = a + seq![c] + b;
    lemma_first_at(whole, c);
    assert(whole[a.len() as int] == c);
    let i = first_at(whole, c)->0;
    if i == a.len() {
        assert(whole.skip(i + 1) =~= b);
        lemma_first_at(b, c);
        if let Some(j) = first_at(b, c) {
            assert(b.contains(b[j]));
        }
        assert(after_last(b, c) == b);
    } else {
        let shorter = a.skip(i + 1);
        assert(whole.skip(i + 1) =~= shorter + seq![c] + b);
        lemma_last_cut(shorter, c, b);
    }
}

/// The lines of a text: none of an empty text, one of a text without a line feed; and a line feed ends
/// a line, together with the carriage return before it.
pub proof fn law_lines_end_at_line_feeds(a: Seq<char>, b: Seq<char>)
    requires
        !a.contains('\n'),
    ensures
        lines(Seq::<char>::empty()) == Seq::<Seq<char>>::empty(),
        a.len() > 0 ==> lines(a) == seq![a],
        a.len() > 0 && a.last() == '\r' ==> lines(a + seq!['\n'] + b) == seq![a.drop_last()] + lines(
            b,
        ),
        a.len() == 0 || a.last() != '\r' ==> lines(a + seq!['\n'] + b) == seq![a] + lines(b),
{
    let whole = a + seq!['\n'] + b;
    lemma_first_at(a, '\n');
    if let Some(i) = first_at(a, '\n') {
        assert(a.contains(a[i]));
    }
    lemma_first_at(whole, '\n');
    assert(whole[a.len() as int] == '\n');
    assert forall|j: int| 0 <= j < a.len() implies whole[j] != '\n' by {
        assert(whole[j] == a[j]);
        assert(a.contains(a[j]));
    }
    assert(whole.take(a.len() as int) =~= a);
    assert(whole.skip((a.len() + 1) as int) =~= b);
}

/// A text is blank exactly where all of its characters are white space, by their code points.
pub proof fn law_blank_texts_are_white_space(s: Seq<char>)
    ensures
        blank(s) <==> forall|i: int|
            0 <= i < s.len() ==> {
                let c = #[trigger] s[i] as int;
                ||| 9 <= c <= 13
                ||| c == 32
                ||| c == 0x85
                ||| c == 0xA0
                ||| c == 0x1680
                ||| 0x2000 <= c <= 0x200A
                ||| c == 0x2028
                ||| c == 0x2029
                ||| c == 0x202F
                ||| c == 0x205F
                ||| c == 0x3000
            },
{
}

// Numbers.

/// The value of a digit.
pub open spec fn digit_value(c: char) -> int {
    if '0' <= c <= '9' {
        c as int - 48
    } else {
        c as int - 87
    }
}

/// The value of some digits in a base.
pub open spec fn digits_value(s: Seq<char>, base: int) -> int
    decreases s.len(),
{
    if s.len() == 0 {
        0
    } else {
        digits_value(s.drop_last(), base) * base + digit_value(s.last())
    }
}

proof fn lemma_digit(d: int)
    requires
        0 <= d < 16,
    ensures
        digit_value(digit(d)) == d,
        d < 10 ==> '0' <= digit(d) <= '9',
        d >= 10 ==> 'a' <= digit(d) <= 'f',
        digit(d) == '0' ==> d == 0,
{
}

proof fn lemma_radix(n: nat, base: nat)
    requires
        2 <= base <= 16,
    ensures
        digits_value(radix(n, base), base as int) == n,
        radix(n, base).len() > 0,
        radix(n, base).len() > 1 ==> radix(n, base)[0] != '0',
        n > 0 ==> radix(n, base)[0] != '0',
        forall|i: int|
            0 <= i < radix(n, base).len() ==> {
                let c = #[trigger] radix(n, base)[i];
                ('0' <= c <= '9' || 'a' <= c <= 'f') && digit_value(c) < base
            },
    decreases n,
{
    let s = radix(n, base);
    if n < base {
        lemma_digit(n as int);
        assert(s.drop_last() =~= Seq::empty());
        reveal_with_fuel(digits_value, 2);
    } else {
        assert(n / base < n && n / base > 0) by (nonlinear_arith)
            requires
                n >= base >= 2,
        ;
        lemma_radix(n / base, base);
        lemma_digit((n % base) as int);
        let front = radix(n / base, base);
        assert(s.drop_last() =~= front);
        assert(s.last() == digit((n % base) as int));
        assert((n / base) * base + n % base == n) by (nonlinear_arith)
            requires
                base > 0,
        ;
        assert(s[0] == front[0]);
        assert forall|i: int| 0 <= i < s.len() implies {
            let c = #[trigger] s[i];
            ('0' <= c <= '9' || 'a' <= c <= 'f') && digit_value(c) < base
        } by {
            if i < front.len() {
                assert(s[i] == front[i]);
            }
        }
    }
}

/// A number in decimal has its value, is made of the digits from 0 to 9, and has no leading zero.
pub proof fn law_decimal_has_its_value(n: nat)
    ensures
        digits_value(decimal(n), 10) == n,
        decimal(n).len() > 0,
        decimal(n).len() > 1 ==> decimal(n)[0] != '0',
        forall|i: int| 0 <= i < decimal(n).len() ==> '0' <= #[trigger] decimal(n)[i] <= '9',
{
    lemma_radix(n, 10);
    assert forall|i: int| 0 <= i < decimal(n).len() implies '0' <= #[trigger] decimal(n)[i]
        <= '9' by {
        let c = radix(n, 10)[i];
        assert(digit_value(c) < 10);
    }
}

proof fn lemma_leading_zeros(k: nat, s: Seq<char>)
    ensures
        digits_value(Seq::new(k, |i: int| '0') + s, 16) == digits_value(s, 16),
    decreases s.len(), k,
{
    let zeros = Seq::new(k, |i: int| '0');
    if s.len() > 0 {
        lemma_leading_zeros(k, s.drop_last());
        assert((zeros + s).drop_last() =~= zeros + s.drop_last());
    } else if k > 0 {
        lemma_leading_zeros((k - 1) as nat, s);
        assert((zeros + s).drop_last() =~= Seq::new((k - 1) as nat, |i: int| '0') + s);
        assert((zeros + s).last() == '0');
    } else {
        assert(zeros + s =~= s);
    }
}

/// A number in hexadecimal has its value, is made of digits and the letters from a to f, is at least as
/// long as asked for, and has a leading zero only to be so.
pub proof fn law_hexadecimal_has_its_value(n: nat, width: nat)
    ensures
        digits_value(padded_hex(n, width), 16) == n,
        padded_hex(n, width).len() >= width,
        padded_hex(n, width).len() >= 1,
        padded_hex(n, width).len() > width && n > 0 ==> padded_hex(n, width)[0] != '0',
        n == 0 ==> padded_hex(n, width).len() == if width == 0 {
            1
        } else {
            width
        },
        forall|i: int|
            0 <= i < padded_hex(n, width).len() ==> {
                let c = #[trigger] padded_hex(n, width)[i];
                '0' <= c <= '9' || 'a' <= c <= 'f'
            },
{
    lemma_radix(n, 16);
    let digits = radix(n, 16);
    if digits.len() < width {
        lemma_leading_zeros((width - digits.len()) as nat, digits);
        let zeros = Seq::new((width - digits.len()) as nat, |i: int| '0');
        assert forall|i: int| 0 <= i < padded_hex(n, width).len() implies {
            let c = #[trigger] padded_hex(n, width)[i];
            '0' <= c <= '9' || 'a' <= c <= 'f'
        } by {
            if i >= zeros.len() {
                assert(padded_hex(n, width)[i] == digits[i - zeros.len()]);
            }
        }
    }
}

/// Bytes in hexadecimal: two digits for each byte, which have its value.
pub proof fn law_bytes_have_their_digits(data: Seq<u8>, i: int)
    requires
        0 <= i < data.len(),
    ensures
        hex_text(data).len() == 2 * data.len(),
        digit_value(hex_text(data)[2 * i]) * 16 + digit_value(hex_text(data)[2 * i + 1]) == data[i],
        digit_value(hex_text(data)[2 * i + 1]) < 16,
        ({
            let c = hex_text(data)[2 * i];
            '0' <= c <= '9' || 'a' <= c <= 'f'
        }),
        ({
            let c = hex_text(data)[2 * i + 1];
            '0' <= c <= '9' || 'a' <= c <= 'f'
        }),
{
    let b = data[i] as int;
    assert((2 * i) / 2 == i && (2 * i) % 2 == 0 && (2 * i + 1) / 2 == i && (2 * i + 1) % 2 == 1);
    lemma_digit(b / 16);
    lemma_digit(b % 16);
}

// Joining and ordering.

/// Two lists are joined as their concatenation is, and a single text joined is the text itself.
pub proof fn law_joining(a: Seq<Seq<char>>, b: Seq<Seq<char>>, sep: Seq<char>, s: Seq<char>)
    requires
        a.len() > 0,
        b.len() > 0,
    ensures
        joined(Seq::empty(), sep) == Seq::<char>::empty(),
        joined(seq![s], sep) == s,
        joined(a + b, sep) == joined(a, sep) + sep + joined(b, sep),
    decreases b.len(),
{
    if b.len() == 1 {
        assert((a + b).drop_last() =~= a);
        assert((a + b).last() == b[0]);
    } else {
        let shorter = b.drop_last();
        law_joining(a, shorter, sep, s);
        assert((a + b).drop_last() =~= a + shorter);
        assert((a + b).last() == b.last());
        assert(joined(a, sep) + sep + joined(shorter, sep) + sep + b.last() =~= joined(a, sep) + sep
            + (joined(shorter, sep) + sep + b.last()));
    }
}

/// Texts are ordered as in a dictionary: by their first characters, and where these agree by the rest.
/// The empty text comes first.
pub proof fn law_texts_are_ordered(c: char, a: Seq<char>, d: char, b: Seq<char>)
    ensures
        precedes(seq![c] + a, seq![d] + b) <==> c < d || (c == d && precedes(a, b)),
        precedes(Seq::empty(), seq![d] + b),
        !precedes(a, Seq::empty()),
{
    let (x, y) = (seq![c] + a, seq![d] + b);
    assert(differs_at(Seq::empty(), y, 0)) by {
        assert(Seq::<char>::empty().take(0) =~= y.take(0));
    }
    if precedes(x, y) {
        let i = choose|i: int| #[trigger] differs_at(x, y, i);
        if i > 0 {
            assert(x.take(i)[0] == c && y.take(i)[0] == d);
            assert(x.take(i).skip(1) =~= a.take(i - 1));
            assert(y.take(i).skip(1) =~= b.take(i - 1));
            assert(differs_at(a, b, i - 1));
        }
    }
    if c < d {
        assert(x.take(0) =~= y.take(0));
        assert(differs_at(x, y, 0));
    }
    if c == d && precedes(a, b) {
        let i = choose|i: int| #[trigger] differs_at(a, b, i);
        assert(x.take(i + 1) =~= seq![c] + a.take(i));
        assert(y.take(i + 1) =~= seq![d] + b.take(i));
        assert(differs_at(x, y, i + 1));
    }
}

// Characters.

/// Letters and digits: those of ASCII by their code points, and beyond them as Unicode has them.
pub proof fn law_letters_and_digits(c: char)
    ensures
        (c as int) < 128 ==> (alphanumeric(c) <==> 48 <= c as int <= 57 || 65 <= c as int <= 90 || 97
            <= c as int <= 122),
        (c as int) >= 128 ==> alphanumeric(c) == unicode_alphanumeric(c),
{
}

/// The upper and lower case of a text: letters of ASCII are shifted by 32 and other characters kept; a
/// text beyond ASCII has the case that Unicode gives it.
pub proof fn law_letter_case(s: Seq<char>)
    ensures
        (forall|i: int| 0 <= i < s.len() ==> 0 <= (#[trigger] s[i] as int) < 128) ==> {
            &&& upper(s).len() == s.len()
            &&& lower(s).len() == s.len()
            &&& forall|i: int|
                0 <= i < s.len() ==> #[trigger] upper(s)[i] as int == if 97 <= s[i] as int <= 122 {
                    s[i] as int - 32
                } else {
                    s[i] as int
                }
            &&& forall|i: int|
                0 <= i < s.len() ==> #[trigger] lower(s)[i] as int == if 65 <= s[i] as int <= 90 {
                    s[i] as int + 32
                } else {
                    s[i] as int
                }
        },
        (exists|i: int| 0 <= i < s.len() && (#[trigger] s[i] as int) >= 128) ==> upper(s)
            == unicode_upper(s) && lower(s) == unicode_lower(s),
{
    if forall|i: int| 0 <= i < s.len() ==> 0 <= (#[trigger] s[i] as int) < 128 {
        assert(is_ascii_chars(s));
    }
    if exists|i: int| 0 <= i < s.len() && (#[trigger] s[i] as int) >= 128 {
        let i = choose|i: int| 0 <= i < s.len() && (#[trigger] s[i] as int) >= 128;
        assert(!is_ascii_chars(s));
    }
}

/// Tells whether a list holds nothing but texts of ASCII letters and digits, by their code points.
pub open spec fn letters_and_digits(a: Seq<Seq<char>>) -> bool {
    forall|i: int, j: int|
        0 <= i < a.len() && 0 <= j < a[i].len() ==> {
            let c = #[trigger] a[i][j] as int;
            48 <= c <= 57 || 65 <= c <= 90 || 97 <= c <= 122
        }
}

/// A list of texts of ASCII letters and digits is shown in brackets, with each text in quotes and commas
/// between them; any other list as debug formatting has it.
pub proof fn law_lists_are_shown(a: Seq<Seq<char>>)
    ensures
        letters_and_digits(a) ==> shown_list(a) == "["@ + joined(
            Seq::new(a.len(), |i: int| "\""@ + a[i] + "\""@),
            ", "@,
        ) + "]"@,
        !letters_and_digits(a) ==> shown_list(a) == debug_list(a),
{
    assert(a.map_values(|s: Seq<char>| "\""@ + s + "\""@) =~= Seq::new(
        a.len(),
        |i: int| "\""@ + a[i] + "\""@,
    ));
    if crate::outside::plain_list(a) {
        assert forall|i: int, j: int| 0 <= i < a.len() && 0 <= j < a[i].len() implies {
            let c = #[trigger] a[i][j] as int;
            48 <= c <= 57 || 65 <= c <= 90 || 97 <= c <= 122
        } by {
            assert(crate::outside::ascii_alphanumeric(a[i][j]));
        }
    }
}

// JSON values.

/// An array stands for what its items stand for, in order; other values but objects for themselves.
pub proof fn law_json_values(items: Vec<Json>, b: bool, n: serde_json::Number, s: String)
    ensures
        Json::Null@ == JsonView::Null,
        Json::Bool(b)@ == JsonView::Bool(b),
        Json::Number(n)@ == JsonView::Number(n),
        Json::Text(s)@ == JsonView::Text(s@),
        Json::Array(items)@ matches JsonView::Array(list) && list.len() == items@.len() && forall|
            i: int,
        |
            0 <= i < list.len() ==> #[trigger] list[i] == items@[i]@,
{
    lemma_items_view(items@);
}

proof fn lemma_later_entry(entries: Seq<(String, Json)>, at: int)
    requires
        0 <= at < entries.len(),
        forall|j: int| at < j < entries.len() ==> (#[trigger] entries[j]).0@ != entries[at].0@,
    ensures
        entries_view(entries).contains_key(entries[at].0@),
        entries_view(entries)[entries[at].0@] == entries[at].1@,
    decreases entries.len(),
{
    if at < entries.len() - 1 {
        assert(entries[entries.len() - 1].0@ != entries[at].0@);
        lemma_later_entry(entries.drop_last(), at);
    }
}

/// The fields of an object are those of its entries; of two entries with one key the later one counts.
pub proof fn law_json_objects(entries: Vec<(String, Json)>, key: Seq<char>, at: int)
    ensures
        Json::Object(entries)@ is Object,
        (forall|i: int| 0 <= i < entries@.len() ==> (#[trigger] entries@[i]).0@ != key)
            ==> Json::Object(entries)@.field(key) is None,
        (0 <= at < entries@.len() && entries@[at].0@ == key && forall|j: int|
            at < j < entries@.len() ==> (#[trigger] entries@[j]).0@ != key) ==> Json::Object(
            entries,
        )@.field(key) == Some(entries@[at].1@),
{
    lemma_entries_keys(entries@, key);
    if 0 <= at < entries@.len() && entries@[at].0@ == key && forall|j: int|
        at < j < entries@.len() ==> (#[trigger] entries@[j]).0@ != key {
        lemma_later_entry(entries@, at);
    }
}

/// What the outermost layer of a value holds: an array what its items hold, in order, and an object what
/// its entries hold under their keys, and under no others.
pub proof fn law_json_layers(
    values: Vec<serde_json::Value>,
    entries: Vec<(String, serde_json::Value)>,
    key: Seq<char>,
    s: String,
    b: bool,
    n: serde_json::Number,
    i: int,
)
    ensures
        layer_content(Layer::Null) == JsonView::Null,
        layer_content(Layer::Bool(b)) == JsonView::Bool(b),
        layer_content(Layer::Number(n)) == JsonView::Number(n),
        layer_content(Layer::Text(s)) == JsonView::Text(s@),
        layer_content(Layer::Array(values)) matches JsonView::Array(list) && list.len()
            == values@.len() && (0 <= i < list.len() ==> list[i] == value_content(values@[i])),
        layer_content(Layer::Object(entries)) is Object,
        distinct_keys(entries@) && 0 <= i < entries@.len() ==> layer_content(
            Layer::Object(entries),
        ).field(entries@[i].0@) == Some(value_content(entries@[i].1)),
        layer_content(Layer::Object(entries)).field(key) is Some ==> exists|j: int|
            0 <= j < entries@.len() && (#[trigger] entries@[j]).0@ == key,
{
    lemma_fields_keys(entries@, key);
    if distinct_keys(entries@) && 0 <= i < entries@.len() {
        lemma_fields_hold(entries@, i);
    }
}

/// What a reading gives, and what an optional host stands for.
pub proof fn law_readings(r: Result<Json, String>, host: Option<Option<String>>)
    ensures
        match r {
            Ok(j) => reading(r) == Ok::<JsonView, Seq<char>>(j@),
            Err(e) => reading(r) == Err::<JsonView, Seq<char>>(e@),
        },
        match host {
            None => host_view(host) is None,
            Some(None) => host_view(host) == Some(None::<Seq<char>>),
            Some(Some(h)) => host_view(host) == Some(Some(h@)),
        },
{
}

/// Only objects have fields, only texts are texts, and only arrays have items.
pub proof fn law_json_accessors(j: JsonView, key: Seq<char>)
    ensures
        match j {
            JsonView::Object(m) => {
                &&& j.field(key) is Some <==> m.dom().contains(key)
                &&& m.dom().contains(key) ==> j.field(key)->0 == m[key]
            },
            _ => j.field(key) is None,
        },
        match j {
            JsonView::Text(s) => j.text() == Some(s),
            _ => j.text() is None,
        },
        match j {
            JsonView::Array(items) => j.items() == Some(items),
            _ => j.items() is None,
        },
        j.field(key) is None ==> j.text_field(key) is None,
        j.field(key) is Some ==> j.text_field(key) == j.field(key)->0.text(),
{
}

} // verus!
