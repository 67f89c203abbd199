//! Texts: numbers and digits, pieces and lines, and white space.
use vstd::prelude::*;

verus! {

/// A text without the separator is its only piece.
pub proof fn law_split_without_separator(text: Seq<char>, sep: char)
    requires
        !text.contains(sep),
    ensures
        crate::text::split(text, sep) == seq![text],
    decreases text.len(),
{
    if text.len() > 0 {
        let front = text.drop_last();
        assert forall|c: char| front.contains(c) implies text.contains(c) by {
            let i = choose|i: int| 0 <= i < front.len() && front[i] == c;
            assert(text[i] == c);
        }
        law_split_without_separator(front, sep);
        assert(text[text.len() - 1] == text.last());
        assert(front.push(text.last()) =~= text);
    } else {
        assert(text =~= Seq::empty());
    }
    assert(crate::text::split(text, sep) =~= seq![text]);
}

/// What stands behind the last separator is one more piece.
pub proof fn law_split_adds_a_piece(front: Seq<char>, sep: char, piece: Seq<char>)
    requires
        !piece.contains(sep),
    ensures
        crate::text::split(front + seq![sep] + piece, sep) == crate::text::split(front, sep).push(
            piece,
        ),
    decreases piece.len(),
{
    let text = front + seq![sep] + piece;
    if piece.len() == 0 {
        assert(text.drop_last() =~= front);
        assert(text.last() == sep);
        assert(piece =~= Seq::empty());
    } else {
        let shorter = piece.drop_last();
        assert forall|c: char| shorter.contains(c) implies piece.contains(c) by {
            let i = choose|i: int| 0 <= i < shorter.len() && shorter[i] == c;
            assert(piece[i] == c);
        }
        law_split_adds_a_piece(front, sep, shorter);
        assert(text.drop_last() =~= front + seq![sep] + shorter);
        assert(text.last() == piece.last());
        assert(piece[piece.len() - 1] == piece.last());
        let before = crate::text::split(front, sep).push(shorter);
        assert(before.last() == shorter);
        assert(shorter.push(piece.last()) =~= piece);
        assert(before.drop_last() =~= crate::text::split(front, sep));
    }
}

/// `pieces` with `sep` between each two of them.
pub open spec fn joined_by(pieces: Seq<Seq<char>>, sep: char) -> Seq<char>
    decreases pieces.len(),
{
    if pieces.len() == 0 {
        Seq::empty()
    } else if pieces.len() == 1 {
        pieces[0]
    } else {
        joined_by(pieces.drop_last(), sep) + seq![sep] + pieces.last()
    }
}

/// Splitting undoes joining.
pub proof fn law_split_undoes_joining(pieces: Seq<Seq<char>>, sep: char)
    requires
        pieces.len() > 0,
        forall|i: int| 0 <= i < pieces.len() ==> !(#[trigger] pieces[i]).contains(sep),
    ensures
        crate::text::split(joined_by(pieces, sep), sep) == pieces,
    decreases pieces.len(),
{
    if pieces.len() == 1 {
        law_split_without_separator(pieces[0], sep);
        assert(pieces =~= seq![pieces[0]]);
    } else {
        let front = pieces.drop_last();
        assert forall|i: int| 0 <= i < front.len() implies !(#[trigger] front[i]).contains(
            sep,
        ) by {
            assert(front[i] == pieces[i]);
        }
        law_split_undoes_joining(front, sep);
        assert(!pieces[pieces.len() - 1].contains(sep));
        law_split_adds_a_piece(joined_by(front, sep), sep, pieces.last());
        assert(front.push(pieces.last()) =~= pieces);
    }
}

/// Joining undoes splitting, and no piece holds the separator.
pub proof fn law_joining_undoes_splitting(text: Seq<char>, sep: char)
    ensures
        joined_by(crate::text::split(text, sep), sep) == text,
        crate::text::split(text, sep).len() > 0,
        forall|i: int|
            0 <= i < crate::text::split(text, sep).len() ==> !(#[trigger] crate::text::split(
                text,
                sep,
            )[i]).contains(sep),
    decreases text.len(),
{
    let pieces = crate::text::split(text, sep);
    crate::text::lemma_split_len(text, sep);
    if text.len() > 0 {
        let front = text.drop_last();
        let before = crate::text::split(front, sep);
        law_joining_undoes_splitting(front, sep);
        if text.last() == sep {
            assert(pieces.drop_last() =~= before);
            assert(pieces.last() =~= Seq::empty());
            assert(joined_by(pieces, sep) =~= front + seq![sep]);
            assert(front + seq![sep] =~= text);
            assert forall|i: int| 0 <= i < pieces.len() implies !(#[trigger] pieces[i]).contains(
                sep,
            ) by {
                if i < before.len() {
                    assert(pieces[i] == before[i]);
                }
            }
        } else {
            let last = before.last().push(text.last());
            assert(pieces.drop_last() =~= before.drop_last());
            assert(pieces.last() == last);
            assert forall|i: int| 0 <= i < pieces.len() implies !(#[trigger] pieces[i]).contains(
                sep,
            ) by {
                if i < before.len() - 1 {
                    assert(pieces[i] == before[i]);
                } else {
                    assert(!before[before.len() - 1].contains(sep));
                    if last.contains(sep) {
                        let k = choose|k: int| 0 <= k < last.len() && last[k] == sep;
                        assert(before.last()[k] == sep);
                    }
                }
            }
            if before.len() == 1 {
                assert(pieces =~= seq![last]);
                assert(before.last() == front);
                assert(front.push(text.last()) =~= text);
            } else {
                assert(joined_by(pieces, sep) =~= joined_by(before, sep).push(text.last()));
                assert(front.push(text.last()) =~= text);
            }
        }
    } else {
        assert(pieces =~= seq![Seq::<char>::empty()]);
        assert(text =~= Seq::empty());
        assert(!pieces[0].contains(sep));
    }
}

/// The values of digits: the ten decimal ones in either radix, and the letters
/// from `a` to `f`, of either case, in radix sixteen alone.
pub proof fn law_digits(c: char)
    ensures
        '0' <= c <= '9' ==> crate::text::digit_value(c, 10) == Some((c as int - 48) as nat)
            && crate::text::digit_value(c, 16) == Some((c as int - 48) as nat),
        'a' <= c <= 'f' ==> crate::text::digit_value(c, 10) is None && crate::text::digit_value(
            c,
            16,
        ) == Some((c as int - 97 + 10) as nat),
        'A' <= c <= 'F' ==> crate::text::digit_value(c, 10) is None && crate::text::digit_value(
            c,
            16,
        ) == Some((c as int - 65 + 10) as nat),
        !('0' <= c <= '9') && !('a' <= c <= 'f') && !('A' <= c <= 'F') ==> crate::text::digit_value(
            c,
            10,
        ) is None && crate::text::digit_value(c, 16) is None,
{
}

/// Whether `text` is decimal digits and nothing else.
pub open spec fn is_digits(text: Seq<char>) -> bool {
    text.len() > 0 && forall|i: int| 0 <= i < text.len() ==> '0' <= #[trigger] text[i] <= '9'
}

/// A text of digits is a number, and writing one more digit behind it takes it
/// times ten and adds the digit. A number beyond the range of `u32` is none.
pub proof fn law_one_more_digit(text: Seq<char>, digit: char)
    requires
        '0' <= digit <= '9',
        text.len() > 0 ==> is_digits(text),
    ensures
        crate::text::u32_value(seq![digit]) == Some((digit as int - 48) as nat),
        crate::text::u32_value(text) matches Some(value) ==> crate::text::u32_value(
            text.push(digit),
        ) == (if value * 10 + (digit as int - 48) <= 0xffff_ffff {
            Some((value * 10 + (digit as int - 48)) as nat)
        } else {
            None
        }),
        text.len() > 0 && crate::text::u32_value(text) is None ==> crate::text::u32_value(
            text.push(digit),
        ) is None,
{
    let one = seq![digit];
    assert(one.drop_last() =~= Seq::empty());
    assert(one[0] != '+');
    assert(crate::text::number(Seq::empty(), 10) == 0);
    assert(crate::text::is_number(one, 10)) by {
        assert(one[0] == digit);
    }
    assert(crate::text::number(one, 10) == digit as int - 48);
    if text.len() > 0 {
        let longer = text.push(digit);
        assert(longer.drop_last() =~= text);
        assert('0' <= text[0] <= '9');
        assert(text[0] != '+');
        assert(longer[0] == text[0]);
        assert forall|i: int| 0 <= i < text.len() implies (#[trigger] crate::text::digit_value(
            text[i],
            10,
        )) is Some by {
            assert('0' <= text[i] <= '9');
        }
        assert forall|i: int| 0 <= i < longer.len() implies (#[trigger] crate::text::digit_value(
            longer[i],
            10,
        )) is Some by {
            if i < text.len() {
                assert(longer[i] == text[i]);
                assert('0' <= text[i] <= '9');
            }
        }
    }
}

/// A number is written with digits alone, but for one plus sign before them,
/// which changes nothing.
pub proof fn law_what_is_a_number(text: Seq<char>)
    ensures
        crate::text::u32_value(text) is Some ==> is_digits(text) || text.len() > 1 && text[0] == '+'
            && is_digits(text.skip(1)),
        is_digits(text) ==> crate::text::u32_value(seq!['+'] + text) == crate::text::u32_value(text),
{
    let plus = seq!['+'] + text;
    assert(plus[0] == '+');
    assert(plus.skip(1) =~= text);
    if crate::text::u32_value(text) is Some {
        let digits = if text.len() > 0 && text[0] == '+' {
            text.skip(1)
        } else {
            text
        };
        assert forall|i: int| 0 <= i < digits.len() implies '0' <= #[trigger] digits[i] <= '9' by {
            assert(crate::text::digit_value(digits[i], 10) is Some);
        }
    }
    if is_digits(text) {
        assert('0' <= text[0] <= '9');
    }
}

/// What is written in decimal is read back as the same number, is digits alone,
/// and has no leading zero.
pub proof fn law_decimal_is_read_back(n: nat)
    ensures
        is_digits(crate::text::decimal(n)),
        crate::text::number(crate::text::decimal(n), 10) == n,
        n > 0 ==> crate::text::decimal(n)[0] != '0',
        n == 0 ==> crate::text::decimal(n) == seq!['0'],
    decreases n,
{
    let text = crate::text::decimal(n);
    if n < 10 {
        assert(text =~= seq![crate::text::digit_char(n)]);
        assert(text.drop_last() =~= Seq::empty());
        assert(crate::text::number(Seq::empty(), 10) == 0);
        assert(text.last() == text[0]);
    } else {
        law_decimal_is_read_back(n / 10);
        let front = crate::text::decimal(n / 10);
        let digit = crate::text::digit_char(n % 10);
        assert(text == front.push(digit));
        assert(text.drop_last() =~= front);
        assert(text[0] == front[0]);
        assert forall|i: int| 0 <= i < text.len() implies '0' <= #[trigger] text[i] <= '9' by {
            if i < front.len() {
                assert(text[i] == front[i]);
            }
        }
    }
}

/// A negative number is written with a minus sign before its magnitude.
pub proof fn law_signed_decimal(n: int)
    ensures
        n >= 0 ==> crate::text::signed_decimal(n) == crate::text::decimal(n as nat),
        n < 0 ==> crate::text::signed_decimal(n)[0] == '-' && crate::text::signed_decimal(n).skip(1)
            == crate::text::decimal((-n) as nat),
{
    if n < 0 {
        assert(crate::text::signed_decimal(n).skip(1) =~= crate::text::decimal((-n) as nat));
    }
}

/// Trimming takes off white space at both ends and nothing else.
pub proof fn law_trim(text: Seq<char>)
    ensures
        exists|from: int, to: int|
            0 <= from <= to <= text.len() && crate::text::trim(text) == #[trigger] text.subrange(
                from,
                to,
            ) && (forall|i: int|
                0 <= i < from ==> crate::text::is_space(#[trigger] text[i])) && (forall|i: int|
                to <= i < text.len() ==> crate::text::is_space(#[trigger] text[i])) && (from < to
                ==> !crate::text::is_space(text[from]) && !crate::text::is_space(text[to - 1])),
{
    let from = lemma_trim_start(text);
    let rest = text.skip(from);
    let length = lemma_trim_end(rest);
    let to = from + length;
    assert(rest.take(length) =~= text.subrange(from, to));
    assert forall|i: int| to <= i < text.len() implies crate::text::is_space(
        #[trigger] text[i],
    ) by {
        assert(rest[i - from] == text[i]);
    }
    if from < to {
        assert(rest[0] == text[from]);
        assert(rest[length - 1] == text[to - 1]);
    }
}

proof fn lemma_trim_start(text: Seq<char>) -> (from: int)
    ensures
        0 <= from <= text.len(),
        crate::text::trim_start(text) == text.skip(from),
        forall|i: int| 0 <= i < from ==> crate::text::is_space(#[trigger] text[i]),
        from < text.len() ==> !crate::text::is_space(text[from]),
    decreases text.len(),
{
    if text.len() > 0 && crate::text::is_space(text[0]) {
        let rest = text.skip(1);
        let from = lemma_trim_start(rest);
        assert(rest.skip(from) =~= text.skip(from + 1));
        assert forall|i: int| 0 <= i < from + 1 implies crate::text::is_space(
            #[trigger] text[i],
        ) by {
            if i > 0 {
                assert(rest[i - 1] == text[i]);
            }
        }
        from + 1
    } else {
        assert(text.skip(0) =~= text);
        0
    }
}

proof fn lemma_trim_end(text: Seq<char>) -> (to: int)
    ensures
        0 <= to <= text.len(),
        crate::text::trim_end(text) == text.take(to),
        forall|i: int| to <= i < text.len() ==> crate::text::is_space(#[trigger] text[i]),
        0 < to ==> !crate::text::is_space(text[to - 1]),
    decreases text.len(),
{
    if text.len() > 0 && crate::text::is_space(text.last()) {
        let front = text.drop_last();
        let to = lemma_trim_end(front);
        assert(front.take(to) =~= text.take(to));
        assert forall|i: int| to <= i < text.len() implies crate::text::is_space(
            #[trigger] text[i],
        ) by {
            if i < front.len() {
                assert(front[i] == text[i]);
            }
        }
        to
    } else {
        assert(text.take(text.len() as int) =~= text);
        text.len() as int
    }
}

/// White space is the blank, the tab, the line feed, the carriage return, and
/// no letter, digit or mark of punctuation.
pub proof fn law_white_space(c: char)
    ensures
        crate::text::is_space(' '),
        crate::text::is_space('\t'),
        crate::text::is_space('\n'),
        crate::text::is_space('\r'),
        '!' <= c <= '~' ==> !crate::text::is_space(c),
{
}

/// Texts are ordered by the first character in which they differ, and a text
/// comes before any that goes on behind it.
pub proof fn law_text_order(shared: Seq<char>, a: Seq<char>, b: Seq<char>)
    ensures
        crate::text::text_less(shared + a, shared + b) == crate::text::text_less(a, b),
        a.len() > 0 && b.len() > 0 && a[0] != b[0] ==> crate::text::text_less(a, b) == (a[0]
            < b[0]),
        a.len() == 0 ==> crate::text::text_less(a, b) == (b.len() > 0),
        b.len() == 0 ==> !crate::text::text_less(a, b),
    decreases shared.len(),
{
    if shared.len() == 0 {
        assert(shared + a =~= a);
        assert(shared + b =~= b);
    } else {
        law_text_order(shared.skip(1), a, b);
        assert((shared + a).skip(1) =~= shared.skip(1) + a);
        assert((shared + b).skip(1) =~= shared.skip(1) + b);
        assert((shared + a)[0] == shared[0]);
        assert((shared + b)[0] == shared[0]);
    }
}

/// Lower case changes the capital letters of ASCII and nothing else.
pub proof fn law_lower_case(text: Seq<char>, i: int)
    requires
        0 <= i < text.len(),
    ensures
        crate::text::ascii_lower(text).len() == text.len(),
        'A' <= text[i] <= 'Z' ==> crate::text::ascii_lower(text)[i] as int == text[i] as int - 65
            + 97,
        !('A' <= text[i] <= 'Z') ==> crate::text::ascii_lower(text)[i] == text[i],
{
}

/// A line that ends in a line feed is a line of its own, without a carriage
/// return at its end; what stands behind the last line feed is one only where
/// it is not empty.
pub proof fn law_lines(text: Seq<char>, line: Seq<char>)
    requires
        !line.contains('\n'),
    ensures
        (line.len() == 0 || line.last() != '\r') ==> crate::text::lines(
            text + seq!['\n'] + line + seq!['\n'],
        ) == crate::text::lines(text + seq!['\n']).push(line),
        crate::text::lines(text + seq!['\n'] + line + seq!['\r', '\n']) == crate::text::lines(
            text + seq!['\n'],
        ).push(line),
        line.len() > 0 ==> crate::text::lines(text + seq!['\n'] + line) == crate::text::lines(
            text + seq!['\n'],
        ).push(line),
        crate::text::lines(Seq::empty()) == Seq::<Seq<char>>::empty(),
{
    let none = Seq::<char>::empty();
    let strip = |line: Seq<char>| crate::text::strip_return(line);
    let pieces = crate::text::split(text, '\n');
    crate::text::lemma_split_len(text, '\n');
    let ended = text + seq!['\n'];
    assert(ended =~= text + seq!['\n'] + none);
    law_split_adds_a_piece(text, '\n', none);
    let after = crate::text::split(ended, '\n');
    assert(after == pieces.push(none));
    assert(after.drop_last() =~= pieces);
    let before = crate::text::lines(ended);
    assert(before == pieces.map_values(strip));
    // The line with a line feed behind it.
    law_split_adds_a_piece(text, '\n', line);
    let with_line = ended + line;
    assert(with_line =~= text + seq!['\n'] + line);
    let one = with_line + seq!['\n'];
    assert(one =~= with_line + seq!['\n'] + none);
    law_split_adds_a_piece(with_line, '\n', none);
    assert(crate::text::split(one, '\n') == pieces.push(line).push(none));
    assert(pieces.push(line).push(none).drop_last() =~= pieces.push(line));
    assert(crate::text::lines(one) == pieces.push(line).map_values(strip));
    if line.len() == 0 || line.last() != '\r' {
        assert(crate::text::strip_return(line) == line);
        assert(pieces.push(line).map_values(strip) =~= before.push(line));
    }
    assert(text + seq!['\n'] + line + seq!['\n'] =~= one);
    // The line with a carriage return and a line feed behind it.
    let marked = line.push('\r');
    assert(!marked.contains('\n')) by {
        if marked.contains('\n') {
            let k = choose|k: int| 0 <= k < marked.len() && marked[k] == '\n';
            assert(line[k] == '\n');
        }
    }
    law_split_adds_a_piece(text, '\n', marked);
    let two = text + seq!['\n'] + marked + seq!['\n'];
    assert(two =~= (text + seq!['\n'] + marked) + seq!['\n'] + none);
    law_split_adds_a_piece(text + seq!['\n'] + marked, '\n', none);
    assert(pieces.push(marked).push(none).drop_last() =~= pieces.push(marked));
    assert(crate::text::strip_return(marked) =~= line);
    assert(pieces.push(marked).map_values(strip) =~= before.push(line));
    assert(text + seq!['\n'] + line + seq!['\r', '\n'] =~= two);
    // The line at the end of the text.
    if line.len() > 0 {
        assert(crate::text::split(with_line, '\n') == pieces.push(line));
        assert(pieces.push(line).drop_last() =~= pieces);
    }
    law_split_without_separator(none, '\n');
    assert(crate::text::lines(none) =~= Seq::<Seq<char>>::empty());
}

} // verus!
