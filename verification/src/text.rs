//! Strings as sequences of characters.
//!
//! Every contract of this crate speaks of a string by its view, the sequence
//! of its characters. This module holds the operations on text that the rest
//! of the library is built from, each stated over that view.
use vstd::prelude::*;
use vstd::slice::slice_subrange;
use vstd::string::*;

verus! {

/// `String::push` appends one character at the end of the string.
pub assume_specification[ String::push ](s: &mut String, ch: char)
    ensures
        final(s)@ == old(s)@.push(ch),
;

/// What formatting `text` with `{:?}` gives: the text in double quotes, with
/// the characters that need it escaped.
pub uninterp spec fn debug_quoted(text: Seq<char>) -> Seq<char>;

/// `format!` with `{:?}` on a string. The result is named, not described: which
/// characters are escaped is the formatter's affair.
#[verifier::external_body]
pub(crate) fn quote(text: &str) -> (quoted: String)
    ensures
        quoted@ == debug_quoted(text@),
{
    format!("{:?}", text)
}

/// Whether `a` and `b` hold the same characters.
pub fn same_text(a: &str, b: &str) -> (same: bool)
    ensures
        same == (a@ == b@),
{
    let mut xs = a.chars();
    let mut ys = b.chars();
    let ghost mut i: int = 0;
    proof {
        assert(a@.skip(0) =~= a@);
        assert(b@.skip(0) =~= b@);
    }
    loop
        invariant
            0 <= i <= a@.len(),
            i <= b@.len(),
            vstd::std_specs::iter::IteratorSpec::remaining(&xs) == a@.skip(i),
            vstd::std_specs::iter::IteratorSpec::remaining(&ys) == b@.skip(i),
            a@.take(i) =~= b@.take(i),
        decreases a@.len() - i,
    {
        match (xs.next(), ys.next()) {
            (Some(x), Some(y)) => {
                if x != y {
                    assert(a@[i] != b@[i]);
                    return false;
                }
                proof {
                    assert(a@.take(i + 1) =~= a@.take(i).push(x));
                    assert(b@.take(i + 1) =~= b@.take(i).push(y));
                    assert(a@.skip(i).drop_first() =~= a@.skip(i + 1));
                    assert(b@.skip(i).drop_first() =~= b@.skip(i + 1));
                    i = i + 1;
                }
            },
            (None, None) => {
                assert(a@.take(i) =~= a@);
                assert(b@.take(i) =~= b@);
                return true;
            },
            _ => {
                assert(a@.len() != b@.len());
                return false;
            },
        }
    }
}

/// Whether `text` is one of `texts`.
pub fn holds_text(texts: &[String], text: &String) -> (holds: bool)
    ensures
        holds == texts.deep_view().contains(text@),
{
    let ghost model = texts.deep_view();
    let mut i: usize = 0;
    while i < texts.len()
        invariant
            0 <= i <= texts@.len(),
            model == texts.deep_view(),
            forall|j: int| 0 <= j < i ==> #[trigger] model[j] != text@,
        decreases texts@.len() - i,
    {
        assert(model[i as int] == texts@[i as int]@);
        if texts[i] == *text {
            return true;
        }
        i = i + 1;
    }
    false
}

/// The characters of `s`, in order.
pub fn chars_of(s: &str) -> (chars: Vec<char>)
    ensures
        chars@ == s@,
{
    let mut chars: Vec<char> = Vec::new();
    for c in iter: s.chars()
        invariant
            chars@ == iter.seq().take(iter.index() as int),
            iter.seq() == s@,
    {
        chars.push(c);
    }
    chars
}

/// The string that holds `chars[from..to]`.
pub fn text_of(chars: &[char], from: usize, to: usize) -> (text: String)
    requires
        from <= to <= chars@.len(),
    ensures
        text@ == chars@.subrange(from as int, to as int),
{
    let mut text = String::new();
    let mut i: usize = from;
    while i < to
        invariant
            from <= i <= to <= chars@.len(),
            text@ == chars@.subrange(from as int, i as int),
        decreases to - i,
    {
        text.push(chars[i]);
        i = i + 1;
    }
    text
}

/// The digit character for `d`, which is below ten.
pub open spec fn digit_char(d: nat) -> char {
    (48 + d) as char
}

/// `n` in decimal, without leading zeros.
pub open spec fn decimal(n: nat) -> Seq<char>
    decreases n,
{
    if n < 10 {
        seq![digit_char(n)]
    } else {
        decimal(n / 10).push(digit_char(n % 10))
    }
}

/// `n` in decimal, with a leading minus sign where it is negative.
pub open spec fn signed_decimal(n: int) -> Seq<char> {
    if n < 0 {
        seq!['-'] + decimal((-n) as nat)
    } else {
        decimal(n as nat)
    }
}

/// Appends `n` in decimal to `out`.
pub fn push_decimal(out: &mut String, n: u64)
    ensures
        final(out)@ == old(out)@ + decimal(n as nat),
    decreases n,
{
    if n >= 10 {
        push_decimal(out, n / 10);
    }
    let digit: u8 = (n % 10) as u8;
    out.push((48u8 + digit) as char);
    assert(out@ =~= old(out)@ + decimal(n as nat));
}

/// Appends `n` in decimal to `out`, with its sign where it is negative.
pub fn push_signed_decimal(out: &mut String, n: i64)
    ensures
        final(out)@ == old(out)@ + signed_decimal(n as int),
{
    if n < 0 {
        out.push('-');
        let magnitude: u64 = if n == i64::MIN {
            0x8000_0000_0000_0000
        } else {
            (-n) as u64
        };
        push_decimal(out, magnitude);
        assert(out@ =~= old(out)@ + signed_decimal(n as int));
    } else {
        push_decimal(out, n as u64);
    }
}

/// The value of `c` as a digit in `radix`, at most sixteen; letters count in
/// either case.
pub open spec fn digit_value(c: char, radix: nat) -> Option<nat> {
    let code = c as int;
    let value: int = if 48 <= code <= 57 {
        code - 48
    } else if 97 <= code <= 102 {
        code - 87
    } else if 65 <= code <= 70 {
        code - 55
    } else {
        16
    };
    if value < radix && value < 16 {
        Some(value as nat)
    } else {
        None
    }
}

/// Whether `text` is one or more digits in `radix` and nothing else.
pub open spec fn is_number(text: Seq<char>, radix: nat) -> bool {
    text.len() > 0 && forall|i: int|
        0 <= i < text.len() ==> (#[trigger] digit_value(text[i], radix)) is Some
}

/// The number that the digits of `text` write down in `radix`.
pub open spec fn number(text: Seq<char>, radix: nat) -> nat
    decreases text.len(),
{
    if text.len() == 0 {
        0
    } else {
        number(text.drop_last(), radix) * radix + digit_value(text.last(), radix)->0
    }
}

proof fn lemma_number_grows(text: Seq<char>, radix: nat, i: int)
    requires
        0 <= i <= text.len(),
        radix > 0,
    ensures
        number(text.take(i), radix) <= number(text, radix),
    decreases text.len() - i,
{
    if i < text.len() {
        lemma_number_grows(text, radix, i + 1);
        assert(text.take(i + 1).drop_last() =~= text.take(i));
        let n = number(text.take(i), radix);
        assert(n * radix >= n) by (nonlinear_arith)
            requires
                radix > 0,
                n >= 0,
        ;
    } else {
        assert(text.take(i) =~= text);
    }
}

/// The value of `c` as a digit in `radix`.
pub fn digit_of(c: char, radix: u32) -> (digit: Option<u32>)
    requires
        2 <= radix <= 16,
    ensures
        digit is Some == digit_value(c, radix as nat) is Some,
        digit is Some ==> digit->0 == digit_value(c, radix as nat)->0,
{
    let code: u32 = c as u32;
    let value: u32 = if 48 <= code && code <= 57 {
        code - 48
    } else if 97 <= code && code <= 102 {
        code - 87
    } else if 65 <= code && code <= 70 {
        code - 55
    } else {
        16
    };
    if value < radix {
        Some(value)
    } else {
        None
    }
}

/// The number that `chars` writes in `radix`, where `chars` is a number and
/// is at most `max`.
pub fn parse_number(chars: &[char], radix: u32, max: u32) -> (value: Option<u32>)
    requires
        2 <= radix <= 16,
    ensures
        value is Some == (is_number(chars@, radix as nat) && number(chars@, radix as nat) <= max),
        value is Some ==> value->0 == number(chars@, radix as nat),
{
    if chars.len() == 0 {
        return None;
    }
    let mut value: u64 = 0;
    let mut too_large: bool = false;
    let mut i: usize = 0;
    while i < chars.len()
        invariant
            0 <= i <= chars@.len(),
            2 <= radix <= 16,
            !too_large ==> value <= max,
            !too_large ==> value == number(chars@.take(i as int), radix as nat),
            too_large ==> number(chars@, radix as nat) > max,
            forall|j: int|
                0 <= j < i ==> (#[trigger] digit_value(chars@[j], radix as nat)) is Some,
        decreases chars@.len() - i,
    {
        let digit: u32 = match digit_of(chars[i], radix) {
            Some(digit) => digit,
            None => {
                assert(digit_value(chars@[i as int], radix as nat) is None);
                return None;
            },
        };
        if !too_large {
            assert(chars@.take(i + 1).drop_last() =~= chars@.take(i as int));
            assert(value * radix <= 0xffff_ffff * 16) by (nonlinear_arith)
                requires
                    value <= 0xffff_ffff,
                    radix <= 16,
            ;
            value = value * (radix as u64) + (digit as u64);
            if value > max as u64 {
                too_large = true;
                proof {
                    lemma_number_grows(chars@, radix as nat, i + 1);
                }
            }
        }
        i = i + 1;
    }
    assert(chars@.take(i as int) =~= chars@);
    if too_large {
        None
    } else {
        Some(value as u32)
    }
}

/// The number that `text` writes as a `u32`: decimal digits, with a leading
/// plus sign allowed.
pub open spec fn u32_value(text: Seq<char>) -> Option<nat> {
    let digits = if text.len() > 0 && text[0] == '+' {
        text.skip(1)
    } else {
        text
    };
    if is_number(digits, 10) && number(digits, 10) <= u32::MAX {
        Some(number(digits, 10))
    } else {
        None
    }
}

/// Parses a `u32`.
pub fn parse_u32(chars: &[char]) -> (value: Option<u32>)
    ensures
        value is Some == u32_value(chars@) is Some,
        value is Some ==> value->0 == u32_value(chars@)->0,
{
    if chars.len() > 0 && chars[0] == '+' {
        let digits = slice_subrange(chars, 1, chars.len());
        assert(digits@ =~= chars@.skip(1));
        parse_number(digits, 10, u32::MAX)
    } else {
        parse_number(chars, 10, u32::MAX)
    }
}

/// The pieces of `text` that the separator `sep` marks off: one more than
/// there are separators, any of them possibly empty.
pub open spec fn split(text: Seq<char>, sep: char) -> Seq<Seq<char>>
    decreases text.len(),
{
    if text.len() == 0 {
        seq![Seq::empty()]
    } else {
        let before = split(text.drop_last(), sep);
        if text.last() == sep {
            before.push(Seq::empty())
        } else {
            before.drop_last().push(before.last().push(text.last()))
        }
    }
}

/// A split yields at least one piece.
pub proof fn lemma_split_len(text: Seq<char>, sep: char)
    ensures
        split(text, sep).len() > 0,
    decreases text.len(),
{
    if text.len() > 0 {
        lemma_split_len(text.drop_last(), sep);
    }
}

/// Splits `chars` at every `sep`.
pub fn split_chars(chars: &[char], sep: char) -> (pieces: Vec<Vec<char>>)
    ensures
        pieces.deep_view() == split(chars@, sep),
{
    let mut done: Vec<Vec<char>> = Vec::new();
    let mut piece: Vec<char> = Vec::new();
    let mut i: usize = 0;
    assert(done.deep_view().push(piece@) =~= seq![Seq::<char>::empty()]);
    assert(chars@.take(0) =~= Seq::empty());
    while i < chars.len()
        invariant
            0 <= i <= chars@.len(),
            done.deep_view().push(piece@) == split(chars@.take(i as int), sep),
        decreases chars@.len() - i,
    {
        let c = chars[i];
        let ghost before = split(chars@.take(i as int), sep);
        let ghost old_done = done.deep_view();
        let ghost old_piece = piece@;
        assert(chars@.take(i + 1).drop_last() =~= chars@.take(i as int));
        assert(before.drop_last() =~= old_done);
        assert(before.last() == old_piece);
        if c == sep {
            assert(piece.deep_view() =~= old_piece);
            done.push(piece);
            piece = Vec::new();
            assert(done.deep_view() =~= old_done.push(old_piece));
            assert(done.deep_view() =~= before);
        } else {
            piece.push(c);
        }
        i = i + 1;
    }
    assert(chars@.take(i as int) =~= chars@);
    let ghost old_done = done.deep_view();
    let ghost old_piece = piece@;
    assert(piece.deep_view() =~= old_piece);
    done.push(piece);
    assert(done.deep_view() =~= old_done.push(old_piece));
    done
}

/// Whether `a` comes before `b` in the order of texts: at the first position
/// where they differ the character of `a` is the lower one, or `a` ends there
/// and `b` goes on.
pub open spec fn text_less(a: Seq<char>, b: Seq<char>) -> bool
    decreases a.len(),
{
    if b.len() == 0 {
        false
    } else if a.len() == 0 {
        true
    } else if a[0] != b[0] {
        (a[0] as int) < (b[0] as int)
    } else {
        text_less(a.skip(1), b.skip(1))
    }
}

/// No text comes before itself.
pub proof fn lemma_text_less_irreflexive(a: Seq<char>)
    ensures
        !text_less(a, a),
    decreases a.len(),
{
    if a.len() > 0 {
        lemma_text_less_irreflexive(a.skip(1));
    }
}

/// The order of texts is transitive.
pub proof fn lemma_text_less_transitive(a: Seq<char>, b: Seq<char>, c: Seq<char>)
    requires
        text_less(a, b),
        text_less(b, c),
    ensures
        text_less(a, c),
    decreases a.len(),
{
    if a.len() > 0 && b.len() > 0 && c.len() > 0 && a[0] == b[0] && b[0] == c[0] {
        lemma_text_less_transitive(a.skip(1), b.skip(1), c.skip(1));
    }
}

/// Of two different texts one comes before the other.
pub proof fn lemma_text_less_total(a: Seq<char>, b: Seq<char>)
    ensures
        a == b || text_less(a, b) || text_less(b, a),
    decreases a.len(),
{
    if a.len() == 0 || b.len() == 0 {
        if a.len() == b.len() {
            assert(a =~= b);
        }
    } else if a[0] == b[0] {
        lemma_text_less_total(a.skip(1), b.skip(1));
        if a.skip(1) == b.skip(1) {
            assert(a =~= seq![a[0]] + a.skip(1));
            assert(b =~= seq![b[0]] + b.skip(1));
        }
    }
}

/// How two texts stand in the order of texts.
#[derive(Debug, Clone, Copy, PartialEq, Eq)]
pub enum TextOrder {
    Less,
    Equal,
    Greater,
}

fn char_less(a: char, b: char) -> (less: bool)
    ensures
        less == ((a as int) < (b as int)),
{
    (a as u32) < (b as u32)
}

/// Compares two texts.
pub fn order_text(a: &str, b: &str) -> (order: TextOrder)
    ensures
        order is Less <==> text_less(a@, b@),
        order is Equal <==> a@ == b@,
        order is Greater <==> text_less(b@, a@),
{
    let mut xs = a.chars();
    let mut ys = b.chars();
    let ghost mut i: int = 0;
    proof {
        assert(a@.skip(0) =~= a@);
        assert(b@.skip(0) =~= b@);
        lemma_text_less_irreflexive(a@);
        lemma_text_less_irreflexive(b@);
        if text_less(a@, b@) && text_less(b@, a@) {
            lemma_text_less_transitive(a@, b@, a@);
        }
    }
    loop
        invariant
            0 <= i <= a@.len(),
            i <= b@.len(),
            vstd::std_specs::iter::IteratorSpec::remaining(&xs) == a@.skip(i),
            vstd::std_specs::iter::IteratorSpec::remaining(&ys) == b@.skip(i),
            a@.take(i) =~= b@.take(i),
            text_less(a@, b@) == text_less(a@.skip(i), b@.skip(i)),
            text_less(b@, a@) == text_less(b@.skip(i), a@.skip(i)),
            !(text_less(a@, b@) && text_less(b@, a@)),
            !text_less(a@, a@),
        decreases a@.len() - i,
    {
        match (xs.next(), ys.next()) {
            (Some(x), Some(y)) => {
                if x != y {
                    assert(a@[i] != b@[i]);
                    if char_less(x, y) {
                        return TextOrder::Less;
                    } else {
                        return TextOrder::Greater;
                    }
                }
                proof {
                    assert(a@.take(i + 1) =~= a@.take(i).push(x));
                    assert(b@.take(i + 1) =~= b@.take(i).push(y));
                    assert(a@.skip(i).drop_first() =~= a@.skip(i + 1));
                    assert(b@.skip(i).drop_first() =~= b@.skip(i + 1));
                    assert(a@.skip(i).skip(1) =~= a@.skip(i + 1));
                    assert(b@.skip(i).skip(1) =~= b@.skip(i + 1));
                    i = i + 1;
                }
            },
            (None, None) => {
                assert(a@.take(i) =~= a@);
                assert(b@.take(i) =~= b@);
                return TextOrder::Equal;
            },
            (None, Some(_)) => {
                assert(a@.len() != b@.len());
                return TextOrder::Less;
            },
            (Some(_), None) => {
                assert(a@.len() != b@.len());
                return TextOrder::Greater;
            },
        }
    }
}

/// Whether `c` has the Unicode property `White_Space`.
pub open spec fn is_space(c: char) -> bool {
    let code = c as int;
    ||| 0x9 <= code <= 0xd
    ||| code == 0x20
    ||| code == 0x85
    ||| code == 0xa0
    ||| code == 0x1680
    ||| 0x2000 <= code <= 0x200a
    ||| code == 0x2028
    ||| code == 0x2029
    ||| code == 0x202f
    ||| code == 0x205f
    ||| code == 0x3000
}

fn space(c: char) -> (is: bool)
    ensures
        is == is_space(c),
{
    let code: u32 = c as u32;
    (0x9 <= code && code <= 0xd) || code == 0x20 || code == 0x85 || code == 0xa0 || code == 0x1680
        || (0x2000 <= code && code <= 0x200a) || code == 0x2028 || code == 0x2029 || code == 0x202f
        || code == 0x205f || code == 0x3000
}

/// `text` without the white space at its start.
pub open spec fn trim_start(text: Seq<char>) -> Seq<char>
    decreases text.len(),
{
    if text.len() > 0 && is_space(text[0]) {
        trim_start(text.skip(1))
    } else {
        text
    }
}

/// `text` without the white space at its end.
pub open spec fn trim_end(text: Seq<char>) -> Seq<char>
    decreases text.len(),
{
    if text.len() > 0 && is_space(text.last()) {
        trim_end(text.drop_last())
    } else {
        text
    }
}

/// `text` without the white space at its start and end.
pub open spec fn trim(text: Seq<char>) -> Seq<char> {
    trim_end(trim_start(text))
}

/// Where the text of `chars` begins, past the white space at its start.
pub fn start_of_text(chars: &[char]) -> (start: usize)
    ensures
        start <= chars@.len(),
        trim_start(chars@) == chars@.skip(start as int),
{
    let mut start: usize = 0;
    assert(chars@.skip(0) =~= chars@);
    while start < chars.len() && space(chars[start])
        invariant
            start <= chars@.len(),
            trim_start(chars@) == trim_start(chars@.skip(start as int)),
        decreases chars@.len() - start,
    {
        assert(chars@.skip(start as int).skip(1) =~= chars@.skip(start + 1));
        start = start + 1;
    }
    start
}

/// The characters of `chars` without the white space at their start and end.
pub fn trim_chars(chars: &[char]) -> (trimmed: &[char])
    ensures
        trimmed@ == trim(chars@),
{
    let start = start_of_text(chars);
    let ghost rest = chars@.skip(start as int);
    let mut end: usize = chars.len();
    assert(chars@.subrange(start as int, end as int) =~= rest);
    while end > start && space(chars[end - 1])
        invariant
            start <= end <= chars@.len(),
            rest == chars@.skip(start as int),
            trim_end(rest) == trim_end(chars@.subrange(start as int, end as int)),
        decreases end - start,
    {
        let ghost part = chars@.subrange(start as int, end as int);
        assert(part.last() == chars@[end - 1]);
        assert(part.drop_last() =~= chars@.subrange(start as int, end - 1));
        end = end - 1;
    }
    proof {
        let part = chars@.subrange(start as int, end as int);
        if part.len() > 0 {
            assert(part.last() == chars@[end - 1]);
        }
    }
    slice_subrange(chars, start, end)
}

/// A trimmed text neither starts nor ends with white space.
pub proof fn lemma_trim_ends(text: Seq<char>)
    ensures
        trim(text).len() > 0 ==> !is_space(trim(text)[0]) && !is_space(trim(text).last()),
{
    lemma_trim_start_begins(text);
    lemma_trim_end_keeps_start(trim_start(text));
}

proof fn lemma_trim_start_begins(text: Seq<char>)
    ensures
        trim_start(text).len() > 0 ==> !is_space(trim_start(text)[0]),
    decreases text.len(),
{
    if text.len() > 0 && is_space(text[0]) {
        lemma_trim_start_begins(text.skip(1));
    }
}

proof fn lemma_trim_end_keeps_start(text: Seq<char>)
    ensures
        trim_end(text).len() > 0 ==> text.len() > 0 && trim_end(text)[0] == text[0] && !is_space(
            trim_end(text).last(),
        ),
    decreases text.len(),
{
    if text.len() > 0 && is_space(text.last()) {
        lemma_trim_end_keeps_start(text.drop_last());
    }
}

/// `line` without a carriage return at its end.
pub open spec fn strip_return(line: Seq<char>) -> Seq<char> {
    if line.len() > 0 && line.last() == '\r' {
        line.drop_last()
    } else {
        line
    }
}

/// The lines of `text`: what line feeds mark off, without a carriage return
/// before a line feed, and without an empty last line.
pub open spec fn lines(text: Seq<char>) -> Seq<Seq<char>> {
    let pieces = split(text, '\n');
    let ended = pieces.drop_last().map_values(|line: Seq<char>| strip_return(line));
    if pieces.last().len() == 0 {
        ended
    } else {
        ended.push(pieces.last())
    }
}

/// The lines of `chars`.
pub fn lines_of(chars: &[char]) -> (found: Vec<Vec<char>>)
    ensures
        found.deep_view() == lines(chars@),
{
    let mut pieces = split_chars(chars, '\n');
    let ghost model = split(chars@, '\n');
    let ghost ended = model.drop_last().map_values(|line: Seq<char>| strip_return(line));
    proof {
        lemma_split_len(chars@, '\n');
        assert forall|i: int| 0 <= i < model.len() implies #[trigger] model[i] == pieces@[i]@ by {
            assert(pieces@[i].deep_view() =~= pieces@[i]@);
        }
    }
    let last: usize = pieces.len() - 1;
    let mut found: Vec<Vec<char>> = Vec::new();
    let mut i: usize = 0;
    while i < last
        invariant
            0 <= i <= last,
            last == pieces@.len() - 1,
            model.len() == pieces@.len(),
            forall|j: int| 0 <= j < model.len() ==> #[trigger] model[j] == pieces@[j]@,
            ended == model.drop_last().map_values(|line: Seq<char>| strip_return(line)),
            found@.len() == i,
            forall|j: int| 0 <= j < i ==> (#[trigger] found@[j])@ == ended[j],
        decreases last - i,
    {
        assert(model[i as int] == pieces@[i as int]@);
        let line = strip_return_chars(&pieces[i]);
        assert(line@ == ended[i as int]);
        found.push(line);
        i = i + 1;
    }
    proof {
        assert(model.last() == pieces@[last as int]@);
        assert forall|j: int| 0 <= j < found@.len() implies (#[trigger] found@[j]).deep_view()
            == ended[j] by {
            assert(found@[j].deep_view() =~= found@[j]@);
        }
        assert(found.deep_view() =~= ended);
    }
    let ghost before = found.deep_view();
    match pieces.pop() {
        Some(piece) => {
            if piece.len() > 0 {
                assert(piece.deep_view() =~= piece@);
                found.push(piece);
                assert(found.deep_view() =~= before.push(model.last()));
            }
        },
        None => {},
    }
    found
}

fn strip_return_chars(line: &Vec<char>) -> (stripped: Vec<char>)
    ensures
        stripped@ == strip_return(line@),
{
    let mut stripped = copy_chars(line);
    if stripped.len() > 0 && stripped[stripped.len() - 1] == '\r' {
        stripped.pop();
        assert(stripped@ =~= line@.drop_last());
    }
    stripped
}

fn copy_chars(chars: &Vec<char>) -> (copy: Vec<char>)
    ensures
        copy@ == chars@,
{
    let copy = chars.clone();
    assert(copy@ =~= chars@);
    copy
}

/// `c` in lower case, where it is an ASCII letter.
pub open spec fn ascii_lower_char(c: char) -> char {
    if 65 <= c as int <= 90 {
        (c as int + 32) as char
    } else {
        c
    }
}

/// `text` with its ASCII letters in lower case.
pub open spec fn ascii_lower(text: Seq<char>) -> Seq<char> {
    text.map_values(|c: char| ascii_lower_char(c))
}

fn lower_char(c: char) -> (lower: char)
    ensures
        lower == ascii_lower_char(c),
{
    let code: u32 = c as u32;
    if 65 <= code && code <= 90 {
        ((code + 32) as u8) as char
    } else {
        c
    }
}

/// `chars` as text with its ASCII letters in lower case.
pub fn lower_text(chars: &[char]) -> (text: String)
    ensures
        text@ == ascii_lower(chars@),
{
    let mut text = String::new();
    let mut i: usize = 0;
    while i < chars.len()
        invariant
            0 <= i <= chars@.len(),
            text@ == ascii_lower(chars@.take(i as int)),
        decreases chars@.len() - i,
    {
        text.push(lower_char(chars[i]));
        i = i + 1;
        assert(text@ =~= ascii_lower(chars@.take(i as int)));
    }
    assert(chars@.take(i as int) =~= chars@);
    text
}

} // verus!
