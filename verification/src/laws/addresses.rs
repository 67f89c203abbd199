//! Addresses and blocks: what their texts stand for, and which addresses a
//! block holds.
use vstd::prelude::*;

use crate::net::IpAddr;

verus! {

/// Two numbers have the same quotient by `size` exactly where the second lies
/// in the run of `size` numbers that the first lies in.
proof fn lemma_same_quotient(a: int, b: int, size: int)
    requires
        size > 0,
    ensures
        a / size == b / size <==> a - a % size <= b < a - a % size + size,
{
    vstd::arithmetic::div_mod::lemma_fundamental_div_mod(a, size);
    vstd::arithmetic::div_mod::lemma_fundamental_div_mod(b, size);
    let base = size * (a / size);
    assert(base == a - a % size);
    if a / size == b / size {
    } else if a / size < b / size {
        assert(size * (b / size) >= size * (a / size) + size) by (nonlinear_arith)
            requires
                size > 0,
                a / size + 1 <= b / size,
        ;
    } else {
        assert(size * (b / size) + size <= size * (a / size)) by (nonlinear_arith)
            requires
                size > 0,
                b / size + 1 <= a / size,
        ;
    }
}

proof fn lemma_first_slash(front: Seq<char>, back: Seq<char>, from: int)
    requires
        !front.contains('/'),
        0 <= from <= front.len(),
    ensures
        crate::net::first_from(front + seq!['/'] + back, '/', from) == front.len(),
    decreases front.len() - from,
{
    let text = front + seq!['/'] + back;
    if from < front.len() {
        assert(text[from] == front[from]);
        assert(front.contains(front[from]));
        lemma_first_slash(front, back, from + 1);
    } else {
        assert(text[from] == '/');
    }
}

proof fn lemma_no_slash(text: Seq<char>, from: int)
    requires
        !text.contains('/'),
        0 <= from <= text.len(),
    ensures
        crate::net::first_from(text, '/', from) == text.len(),
    decreases text.len() - from,
{
    if from < text.len() {
        assert(text.contains(text[from]));
        lemma_no_slash(text, from + 1);
    }
}

/// A version 4 block with a prefix of `prefix` bits holds exactly the run of
/// addresses of that size that its network lies in, and nothing of version 6.
pub proof fn law_v4_block_is_an_interval(
    network_text: Seq<char>,
    prefix_text: Seq<char>,
    network: u32,
    prefix: nat,
    host: u32,
    other: u128,
)
    requires
        !network_text.contains('/'),
        crate::net::address(network_text) == Some(IpAddr::V4(network)),
        crate::text::u32_value(prefix_text) == Some(prefix),
        prefix <= 32,
    ensures
        ({
            let cidr = network_text + seq!['/'] + prefix_text;
            let size = vstd::arithmetic::power2::pow2((32 - prefix) as nat);
            let base = network - network as int % size as int;
            &&& crate::net::block_contains(cidr, IpAddr::V4(host)) == Some(
                base <= host < base + size,
            )
            &&& crate::net::block_contains(cidr, IpAddr::V6(other)) == Some(false)
        }),
{
    reveal(crate::net::block_contains);
    let cidr = network_text + seq!['/'] + prefix_text;
    lemma_first_slash(network_text, prefix_text, 0);
    assert(cidr.take(network_text.len() as int) =~= network_text);
    assert(cidr.skip(network_text.len() as int + 1) =~= prefix_text);
    vstd::arithmetic::power2::lemma_pow2_pos((32 - prefix) as nat);
    lemma_same_quotient(
        network as int,
        host as int,
        vstd::arithmetic::power2::pow2((32 - prefix) as nat) as int,
    );
}

/// A version 6 block with a prefix of `prefix` bits holds exactly the run of
/// addresses of that size that its network lies in, and nothing of version 4.
pub proof fn law_v6_block_is_an_interval(
    network_text: Seq<char>,
    prefix_text: Seq<char>,
    network: u128,
    prefix: nat,
    host: u128,
    other: u32,
)
    requires
        !network_text.contains('/'),
        crate::net::address(network_text) == Some(IpAddr::V6(network)),
        crate::text::u32_value(prefix_text) == Some(prefix),
        prefix <= 128,
    ensures
        ({
            let cidr = network_text + seq!['/'] + prefix_text;
            let size = vstd::arithmetic::power2::pow2((128 - prefix) as nat);
            let base = network - network as int % size as int;
            &&& crate::net::block_contains(cidr, IpAddr::V6(host)) == Some(
                base <= host < base + size,
            )
            &&& crate::net::block_contains(cidr, IpAddr::V4(other)) == Some(false)
        }),
{
    reveal(crate::net::block_contains);
    let cidr = network_text + seq!['/'] + prefix_text;
    lemma_first_slash(network_text, prefix_text, 0);
    assert(cidr.take(network_text.len() as int) =~= network_text);
    assert(cidr.skip(network_text.len() as int + 1) =~= prefix_text);
    vstd::arithmetic::power2::lemma_pow2_pos((128 - prefix) as nat);
    lemma_same_quotient(
        network as int,
        host as int,
        vstd::arithmetic::power2::pow2((128 - prefix) as nat) as int,
    );
}

/// A text is a block only with a slash in it, an address before the first
/// slash, and behind it a prefix length no longer than such an address.
pub proof fn law_what_is_no_block(network_text: Seq<char>, prefix_text: Seq<char>, peer: IpAddr)
    requires
        !network_text.contains('/'),
    ensures
        crate::net::block_contains(network_text, peer) is None,
        crate::net::block_contains(network_text + seq!['/'] + prefix_text, peer) is None <==> {
            ||| crate::net::address(network_text) is None
            ||| crate::text::u32_value(prefix_text) is None
            ||| crate::net::address(network_text)->0 is V4 && crate::text::u32_value(
                prefix_text,
            )->0 > 32
            ||| crate::net::address(network_text)->0 is V6 && crate::text::u32_value(
                prefix_text,
            )->0 > 128
        },
{
    reveal(crate::net::block_contains);
    let cidr = network_text + seq!['/'] + prefix_text;
    lemma_no_slash(network_text, 0);
    lemma_first_slash(network_text, prefix_text, 0);
    assert(cidr.take(network_text.len() as int) =~= network_text);
    assert(cidr.skip(network_text.len() as int + 1) =~= prefix_text);
}

/// Flipping a bit that the prefix covers takes an address out of a version 4
/// block, flipping any other leaves it in.
pub proof fn law_prefix_bits_decide(
    network_text: Seq<char>,
    prefix_text: Seq<char>,
    network: u32,
    prefix: nat,
    host: u32,
    flipped: u32,
    bit: nat,
)
    requires
        !network_text.contains('/'),
        crate::net::address(network_text) == Some(IpAddr::V4(network)),
        crate::text::u32_value(prefix_text) == Some(prefix),
        prefix <= 32,
        bit < 32,
        // Bit 0 is the most significant one.
        (host as int / vstd::arithmetic::power2::pow2((31 - bit) as nat) as int) % 2 == 0,
        flipped == host + vstd::arithmetic::power2::pow2((31 - bit) as nat),
    ensures
        ({
            let cidr = network_text + seq!['/'] + prefix_text;
            let holds_host = crate::net::block_contains(cidr, IpAddr::V4(host)) == Some(true);
            let holds_flipped = crate::net::block_contains(cidr, IpAddr::V4(flipped)) == Some(
                true,
            );
            &&& bit >= prefix ==> (holds_host == holds_flipped)
            &&& bit < prefix ==> !(holds_host && holds_flipped)
        }),
{
    law_v4_block_is_an_interval(network_text, prefix_text, network, prefix, host, 0);
    law_v4_block_is_an_interval(network_text, prefix_text, network, prefix, flipped, 0);
    let unit = vstd::arithmetic::power2::pow2((31 - bit) as nat) as int;
    let size = vstd::arithmetic::power2::pow2((32 - prefix) as nat) as int;
    vstd::arithmetic::power2::lemma_pow2_pos((31 - bit) as nat);
    vstd::arithmetic::power2::lemma_pow2_pos((32 - prefix) as nat);
    if bit < prefix {
        if 32 - prefix < 31 - bit {
            vstd::arithmetic::power2::lemma_pow2_strictly_increases(
                (32 - prefix) as nat,
                (31 - bit) as nat,
            );
        }
    } else {
        let k = vstd::arithmetic::power2::pow2((bit - prefix) as nat) as int;
        vstd::arithmetic::power2::lemma_pow2_pos((bit - prefix) as nat);
        vstd::arithmetic::power2::lemma_pow2_adds((31 - bit) as nat, (bit - prefix) as nat);
        vstd::arithmetic::power2::lemma_pow2_unfold((32 - prefix) as nat);
        let pair = 2 * unit;
        assert(size == pair * k) by (nonlinear_arith)
            requires
                size == 2 * (unit * k),
                pair == 2 * unit,
        ;
        // The pair of runs that the bit tells apart lies within one block.
        vstd::arithmetic::div_mod::lemma_fundamental_div_mod(host as int, unit);
        let q = host as int / unit;
        let r = host as int % unit;
        let h = q / 2;
        assert(q == 2 * h);
        assert(host == pair * h + r) by (nonlinear_arith)
            requires
                host == unit * q + r,
                q == 2 * h,
                pair == 2 * unit,
        ;
        assert(host as int / pair == h && flipped as int / pair == h) by {
            vstd::arithmetic::div_mod::lemma_fundamental_div_mod_converse(
                host as int,
                pair,
                h,
                r,
            );
            vstd::arithmetic::div_mod::lemma_fundamental_div_mod_converse(
                flipped as int,
                pair,
                h,
                r + unit,
            );
        }
        vstd::arithmetic::div_mod::lemma_div_denominator(host as int, pair, k);
        vstd::arithmetic::div_mod::lemma_div_denominator(flipped as int, pair, k);
        lemma_same_quotient(network as int, host as int, size);
        lemma_same_quotient(network as int, flipped as int, size);
    }
}

/// The character of a decimal digit.
pub open spec fn digit(d: int) -> char {
    (48 + d) as char
}

/// An octet as it is written: without leading zeros.
pub open spec fn octet_text(n: int) -> Seq<char> {
    if n < 10 {
        seq![digit(n)]
    } else if n < 100 {
        seq![digit(n / 10), digit(n % 10)]
    } else {
        seq![digit(n / 100), digit(n / 10 % 10), digit(n % 10)]
    }
}

/// A version 4 address as it is written: four octets with dots between them.
pub open spec fn dotted(value: u32) -> Seq<char> {
    octet_text(value as int / 0x100_0000) + seq!['.'] + octet_text(value as int / 0x1_0000 % 0x100)
        + seq!['.'] + octet_text(value as int / 0x100 % 0x100) + seq!['.'] + octet_text(
        value as int % 0x100,
    )
}

/// The value of the digit at `i`.
spec fn digit_at(text: Seq<char>, i: int, radix: nat) -> int {
    crate::text::digit_value(text[i], radix)->0 as int
}

proof fn lemma_decimal_digits(text: Seq<char>)
    requires
        1 <= text.len() <= 3,
    ensures
        text.len() == 1 ==> crate::text::number(text, 10) == digit_at(text, 0, 10),
        text.len() == 2 ==> crate::text::number(text, 10) == digit_at(text, 0, 10) * 10 + digit_at(
            text,
            1,
            10,
        ),
        text.len() == 3 ==> crate::text::number(text, 10) == digit_at(text, 0, 10) * 100 + digit_at(
            text,
            1,
            10,
        ) * 10 + digit_at(text, 2, 10),
    decreases text.len(),
{
    let front = text.drop_last();
    assert(crate::text::number(text, 10) == crate::text::number(front, 10) * 10 + digit_at(
        text,
        text.len() - 1,
        10,
    ));
    if front.len() == 0 {
        assert(crate::text::number(front, 10) == 0);
    } else {
        lemma_decimal_digits(front);
        assert(digit_at(front, 0, 10) == digit_at(text, 0, 10));
        if front.len() > 1 {
            assert(digit_at(front, 1, 10) == digit_at(text, 1, 10));
        }
    }
}

proof fn lemma_hex_digits(text: Seq<char>)
    requires
        1 <= text.len() <= 4,
    ensures
        text.len() == 1 ==> crate::text::number(text, 16) == digit_at(text, 0, 16),
        text.len() == 2 ==> crate::text::number(text, 16) == digit_at(text, 0, 16) * 16 + digit_at(
            text,
            1,
            16,
        ),
        text.len() == 3 ==> crate::text::number(text, 16) == digit_at(text, 0, 16) * 256 + digit_at(
            text,
            1,
            16,
        ) * 16 + digit_at(text, 2, 16),
        text.len() == 4 ==> crate::text::number(text, 16) == digit_at(text, 0, 16) * 4096
            + digit_at(text, 1, 16) * 256 + digit_at(text, 2, 16) * 16 + digit_at(text, 3, 16),
    decreases text.len(),
{
    let front = text.drop_last();
    assert(crate::text::number(text, 16) == crate::text::number(front, 16) * 16 + digit_at(
        text,
        text.len() - 1,
        16,
    ));
    if front.len() == 0 {
        assert(crate::text::number(front, 16) == 0);
    } else {
        lemma_hex_digits(front);
        assert(digit_at(front, 0, 16) == digit_at(text, 0, 16));
        if front.len() > 1 {
            assert(digit_at(front, 1, 16) == digit_at(text, 1, 16));
        }
        if front.len() > 2 {
            assert(digit_at(front, 2, 16) == digit_at(text, 2, 16));
        }
    }
}

proof fn lemma_octet_text(n: int)
    requires
        0 <= n <= 255,
    ensures
        crate::net::octet(octet_text(n)) == Some(n as nat),
        !octet_text(n).contains('.'),
        !octet_text(n).contains('/'),
        !octet_text(n).contains(':'),
        octet_text(n)[0] != '+',
{
    let text = octet_text(n);
    lemma_decimal_digits(text);
    assert forall|i: int| 0 <= i < text.len() implies (#[trigger] crate::text::digit_value(
        text[i],
        10,
    )) is Some && text[i] != '.' && text[i] != '/' && text[i] != ':' && text[i] != '+' by {}
    assert(crate::text::is_number(text, 10));
}

proof fn lemma_octet_is_written_once(part: Seq<char>)
    requires
        crate::net::octet(part) is Some,
    ensures
        crate::net::octet(part)->0 <= 255,
        part == octet_text(crate::net::octet(part)->0 as int),
{
    lemma_decimal_digits(part);
    let n = crate::net::octet(part)->0 as int;
    assert forall|i: int| 0 <= i < part.len() implies '0' <= #[trigger] part[i] <= '9' && part[i]
        == digit(crate::text::digit_value(part[i], 10)->0 as int) by {
        assert(crate::text::digit_value(part[i], 10) is Some);
    }
    assert(part =~= octet_text(n));
}

/// The four octets of a version 4 address as they are written.
spec fn octet_texts(value: u32) -> Seq<Seq<char>> {
    seq![
        octet_text(value as int / 0x100_0000),
        octet_text(value as int / 0x1_0000 % 0x100),
        octet_text(value as int / 0x100 % 0x100),
        octet_text(value as int % 0x100),
    ]
}

proof fn lemma_dotted_pieces(value: u32)
    ensures
        crate::text::split(dotted(value), '.') == octet_texts(value),
{
    let a = octet_text(value as int / 0x100_0000);
    let b = octet_text(value as int / 0x1_0000 % 0x100);
    let c = octet_text(value as int / 0x100 % 0x100);
    let d = octet_text(value as int % 0x100);
    lemma_octet_text(value as int / 0x100_0000);
    lemma_octet_text(value as int / 0x1_0000 % 0x100);
    lemma_octet_text(value as int / 0x100 % 0x100);
    lemma_octet_text(value as int % 0x100);
    crate::laws::texts::law_split_without_separator(a, '.');
    crate::laws::texts::law_split_adds_a_piece(a, '.', b);
    let two = a + seq!['.'] + b;
    crate::laws::texts::law_split_adds_a_piece(two, '.', c);
    let three = two + seq!['.'] + c;
    crate::laws::texts::law_split_adds_a_piece(three, '.', d);
    assert(dotted(value) == three + seq!['.'] + d);
    assert(seq![a].push(b).push(c).push(d) =~= octet_texts(value));
}

proof fn lemma_octets_of(w: int, x: int, y: int, z: int, value: int)
    requires
        0 <= w < 0x100,
        0 <= x < 0x100,
        0 <= y < 0x100,
        0 <= z < 0x100,
        value == w * 0x100_0000 + x * 0x1_0000 + y * 0x100 + z,
    ensures
        w == value / 0x100_0000,
        x == value / 0x1_0000 % 0x100,
        y == value / 0x100 % 0x100,
        z == value % 0x100,
{
    assert(value / 0x100_0000 == w);
    assert(value / 0x1_0000 == w * 0x100 + x);
    assert(value / 0x100 == w * 0x1_0000 + x * 0x100 + y);
    assert((w * 0x100 + x) % 0x100 == x);
    assert((w * 0x1_0000 + x * 0x100 + y) % 0x100 == y);
    assert((w * 0x100_0000 + x * 0x1_0000 + y * 0x100 + z) % 0x100 == z);
}

proof fn lemma_value_of_octets(value: int)
    requires
        0 <= value < 0x1_0000_0000,
    ensures
        value == (value / 0x100_0000) * 0x100_0000 + (value / 0x1_0000 % 0x100) * 0x1_0000 + (value
            / 0x100 % 0x100) * 0x100 + value % 0x100,
        0 <= value / 0x100_0000 < 0x100,
{
    assert(value == (value / 0x100) * 0x100 + value % 0x100);
    assert(value / 0x100 == (value / 0x1_0000) * 0x100 + value / 0x100 % 0x100);
    assert(value / 0x1_0000 == (value / 0x100_0000) * 0x100 + value / 0x1_0000 % 0x100);
}

#[verifier::rlimit(30)]
proof fn lemma_dotted_is_read(value: u32)
    ensures
        crate::net::v4_value(dotted(value)) == Some(value as nat),
{
    lemma_dotted_pieces(value);
    lemma_value_of_octets(value as int);
    let a = value as int / 0x100_0000;
    let b = value as int / 0x1_0000 % 0x100;
    let c = value as int / 0x100 % 0x100;
    let d = value as int % 0x100;
    assert(crate::net::octet(octet_text(a)) == Some(a as nat)) by {
        lemma_octet_text(a);
    }
    assert(crate::net::octet(octet_text(b)) == Some(b as nat)) by {
        lemma_octet_text(b);
    }
    assert(crate::net::octet(octet_text(c)) == Some(c as nat)) by {
        lemma_octet_text(c);
    }
    assert(crate::net::octet(octet_text(d)) == Some(d as nat)) by {
        lemma_octet_text(d);
    }
    let parts = crate::text::split(dotted(value), '.');
    assert(parts.len() == 4);
    assert(parts[0] == octet_text(a));
    assert(parts[1] == octet_text(b));
    assert(parts[2] == octet_text(c));
    assert(parts[3] == octet_text(d));
}

/// A text writes a version 4 address exactly where it is that address written
/// out: four octets in decimal, the most significant first, with no leading
/// zeros and nothing around them.
pub proof fn law_dotted_address(text: Seq<char>, value: u32)
    ensures
        crate::net::address(text) == Some(IpAddr::V4(value)) <==> text == dotted(value),
{
    lemma_dotted_is_read(value);
    if crate::net::address(text) == Some(IpAddr::V4(value)) {
        let parts = crate::text::split(text, '.');
        assert(crate::net::v4_value(text) is Some);
        lemma_octet_is_written_once(parts[0]);
        lemma_octet_is_written_once(parts[1]);
        lemma_octet_is_written_once(parts[2]);
        lemma_octet_is_written_once(parts[3]);
        lemma_octets_of(
            crate::net::octet(parts[0])->0 as int,
            crate::net::octet(parts[1])->0 as int,
            crate::net::octet(parts[2])->0 as int,
            crate::net::octet(parts[3])->0 as int,
            value as int,
        );
        assert(parts =~= octet_texts(value));
        lemma_dotted_pieces(value);
        crate::laws::texts::law_joining_undoes_splitting(text, '.');
        crate::laws::texts::law_joining_undoes_splitting(dotted(value), '.');
    }
}

/// Whether `part` is a group as it is written: one to four hexadecimal digits
/// of either case.
pub open spec fn is_group_text(part: Seq<char>) -> bool {
    1 <= part.len() <= 4 && forall|i: int|
        0 <= i < part.len() ==> '0' <= #[trigger] part[i] <= '9' || 'a' <= part[i] <= 'f' || 'A'
            <= part[i] <= 'F'
}

/// The value of a hexadecimal digit.
pub open spec fn hex_digit(c: char) -> int {
    if '0' <= c <= '9' {
        c as int - 48
    } else if 'a' <= c <= 'f' {
        c as int - 97 + 10
    } else {
        c as int - 65 + 10
    }
}

/// The value of a group as it is written.
pub open spec fn group_number(part: Seq<char>) -> int {
    if part.len() == 1 {
        hex_digit(part[0])
    } else if part.len() == 2 {
        hex_digit(part[0]) * 16 + hex_digit(part[1])
    } else if part.len() == 3 {
        hex_digit(part[0]) * 256 + hex_digit(part[1]) * 16 + hex_digit(part[2])
    } else {
        hex_digit(part[0]) * 4096 + hex_digit(part[1]) * 256 + hex_digit(part[2]) * 16 + hex_digit(
            part[3],
        )
    }
}

proof fn lemma_group_text(part: Seq<char>)
    requires
        is_group_text(part),
    ensures
        crate::net::is_group(part),
        crate::text::number(part, 16) == group_number(part),
        0 <= group_number(part) < 0x1_0000,
        !part.contains(':'),
        !part.contains('.'),
{
    lemma_hex_digits(part);
    assert forall|i: int| 0 <= i < part.len() implies (#[trigger] crate::text::digit_value(
        part[i],
        16,
    )) == Some(hex_digit(part[i]) as nat) && 0 <= hex_digit(part[i]) < 16 by {
        assert('0' <= part[i] <= '9' || 'a' <= part[i] <= 'f' || 'A' <= part[i] <= 'F');
    }
    assert forall|c: char| part.contains(c) implies c != ':' && c != '.' by {
        let i = choose|i: int| 0 <= i < part.len() && part[i] == c;
        assert('0' <= part[i] <= '9' || 'a' <= part[i] <= 'f' || 'A' <= part[i] <= 'F');
    }
}

proof fn lemma_joined_chars(parts: Seq<Seq<char>>, c: char)
    requires
        c != ':',
        forall|i: int| 0 <= i < parts.len() ==> !(#[trigger] parts[i]).contains(c),
    ensures
        !crate::laws::texts::joined_by(parts, ':').contains(c),
    decreases parts.len(),
{
    let text = crate::laws::texts::joined_by(parts, ':');
    if parts.len() == 1 {
        assert(!parts[0].contains(c));
    } else if parts.len() > 1 {
        let front = parts.drop_last();
        assert forall|i: int| 0 <= i < front.len() implies !(#[trigger] front[i]).contains(c) by {
            assert(front[i] == parts[i]);
        }
        lemma_joined_chars(front, c);
        let before = crate::laws::texts::joined_by(front, ':');
        assert(!parts[parts.len() - 1].contains(c));
        if text.contains(c) {
            let i = choose|i: int| 0 <= i < text.len() && text[i] == c;
            if i < before.len() {
                assert(before[i] == c);
            } else if i > before.len() {
                assert(parts.last()[i - before.len() - 1] == c);
            }
        }
    }
}

/// Parts that are not empty and hold no colon, joined, hold no `::`, and neither
/// begin nor end with a colon.
#[verifier::rlimit(30)]
proof fn lemma_no_gap(parts: Seq<Seq<char>>)
    requires
        parts.len() > 0,
        forall|i: int|
            0 <= i < parts.len() ==> (#[trigger] parts[i]).len() > 0 && !parts[i].contains(':'),
    ensures
        ({
            let text = crate::laws::texts::joined_by(parts, ':');
            &&& text.len() > 0
            &&& text[0] != ':'
            &&& text.last() != ':'
            &&& forall|i: int|
                0 <= i < text.len() - 1 ==> !(#[trigger] text[i] == ':' && text[i + 1] == ':')
        }),
    decreases parts.len(),
{
    let text = crate::laws::texts::joined_by(parts, ':');
    let last = parts[parts.len() - 1];
    assert forall|i: int| 0 <= i < last.len() implies #[trigger] last[i] != ':' by {
        assert(last.contains(last[i]));
    }
    if parts.len() == 1 {
        assert(text == last);
        assert forall|i: int| 0 <= i < text.len() - 1 implies !(#[trigger] text[i] == ':' && text[i
            + 1] == ':') by {
            assert(last[i] != ':');
        }
    } else {
        let front = parts.drop_last();
        assert forall|i: int| 0 <= i < front.len() implies (#[trigger] front[i]).len() > 0
            && !front[i].contains(':') by {
            assert(front[i] == parts[i]);
        }
        lemma_no_gap(front);
        let before = crate::laws::texts::joined_by(front, ':');
        assert(text == before + seq![':'] + last);
        assert(text[0] == before[0]);
        assert(text.last() == last[last.len() - 1]);
        assert forall|i: int| 0 <= i < text.len() - 1 implies !(#[trigger] text[i] == ':' && text[i
            + 1] == ':') by {
            if i < before.len() - 1 {
                assert(text[i] == before[i] && text[i + 1] == before[i + 1]);
                assert(!(before[i] == ':' && before[i + 1] == ':'));
            } else if i == before.len() - 1 {
                assert(text[i] == before.last());
            } else if i == before.len() {
                assert(text[i + 1] == last[0]);
            } else {
                assert(text[i] == last[i - before.len() - 1]);
            }
        }
    }
}

proof fn lemma_gap_from_none(text: Seq<char>, from: int)
    requires
        0 <= from <= text.len(),
        forall|i: int|
            0 <= i < text.len() - 1 ==> !(#[trigger] text[i] == ':' && text[i + 1] == ':'),
    ensures
        crate::net::gap_from(text, from) == text.len(),
    decreases text.len() - from,
{
    if from + 1 < text.len() {
        assert(!(text[from] == ':' && text[from + 1] == ':'));
        lemma_gap_from_none(text, from + 1);
    }
}

/// The groups of a run of hexadecimal groups.
proof fn lemma_run(parts: Seq<Seq<char>>, v4_last: bool)
    requires
        parts.len() > 0,
        forall|i: int| 0 <= i < parts.len() ==> is_group_text(#[trigger] parts[i]),
    ensures
        crate::net::run_groups(parts, v4_last) == Some(
            Seq::new(parts.len(), |i: int| group_number(parts[i]) as nat),
        ),
{
    let front = parts.drop_last();
    assert forall|i: int| 0 <= i < parts.len() implies crate::net::is_group(#[trigger] parts[i])
        && crate::text::number(parts[i], 16) == group_number(parts[i]) by {
        lemma_group_text(parts[i]);
    }
    assert forall|i: int| 0 <= i < front.len() implies crate::net::is_group(
        #[trigger] front[i],
    ) by {
        assert(front[i] == parts[i]);
    }
    assert(parts[parts.len() - 1] == parts.last());
    let groups = front.map_values(|part: Seq<char>| crate::text::number(part, 16)).push(
        crate::text::number(parts.last(), 16),
    );
    assert(groups =~= Seq::new(parts.len(), |i: int| group_number(parts[i]) as nat));
}

/// The number that groups spell out.
pub open spec fn spelled(groups: Seq<int>) -> int
    decreases groups.len(),
{
    if groups.len() == 0 {
        0
    } else {
        spelled(groups.drop_last()) * 0x1_0000 + groups.last()
    }
}

proof fn lemma_spelled(groups: Seq<nat>)
    ensures
        spelled(groups.map_values(|g: nat| g as int)) == crate::net::groups_value(groups),
    decreases groups.len(),
{
    if groups.len() > 0 {
        lemma_spelled(groups.drop_last());
        assert(groups.map_values(|g: nat| g as int).drop_last() =~= groups.drop_last().map_values(
            |g: nat| g as int,
        ));
    }
}

/// Eight groups of hexadecimal digits with colons between them write the
/// version 6 address that they spell out, the most significant group first.
pub proof fn law_eight_groups(parts: Seq<Seq<char>>)
    requires
        parts.len() == 8,
        forall|i: int| 0 <= i < parts.len() ==> is_group_text(#[trigger] parts[i]),
    ensures
        crate::net::address(crate::laws::texts::joined_by(parts, ':')) == Some(
            IpAddr::V6(
                spelled(Seq::new(8, |i: int| group_number(parts[i]))) as u128,
            ),
        ),
{
    let text = crate::laws::texts::joined_by(parts, ':');
    assert forall|i: int| 0 <= i < parts.len() implies (#[trigger] parts[i]).len() > 0
        && !parts[i].contains(':') && !parts[i].contains('.') by {
        lemma_group_text(parts[i]);
    }
    lemma_no_gap(parts);
    lemma_gap_from_none(text, 0);
    crate::laws::texts::law_split_undoes_joining(parts, ':');
    lemma_run(parts, true);
    lemma_joined_chars(parts, '.');
    crate::laws::texts::law_split_without_separator(text, '.');
    assert(crate::net::v4_value(text) is None);
    let groups = Seq::new(8, |i: int| group_number(parts[i]) as nat);
    lemma_spelled(groups);
    assert forall|i: int| 0 <= i < 8 implies group_number(parts[i]) >= 0 by {
        lemma_group_text(parts[i]);
    }
    assert(groups.map_values(|g: nat| g as int) =~= Seq::new(8, |i: int| group_number(parts[i])));
}

/// Where the gap stands in a text that has one behind `head`.
proof fn lemma_gap_at(head: Seq<char>, tail: Seq<char>, from: int)
    requires
        0 <= from <= head.len(),
        forall|i: int|
            0 <= i < head.len() - 1 ==> !(#[trigger] head[i] == ':' && head[i + 1] == ':'),
        head.len() > 0 ==> head.last() != ':',
    ensures
        crate::net::gap_from(head + seq![':', ':'] + tail, from) == head.len(),
    decreases head.len() - from,
{
    let text = head + seq![':', ':'] + tail;
    if from < head.len() {
        assert(text[from] == head[from]);
        if from < head.len() - 1 {
            assert(text[from + 1] == head[from + 1]);
        }
        lemma_gap_at(head, tail, from + 1);
    }
}

/// The text of a side of the gap: its groups with colons between them, or
/// nothing.
pub open spec fn side_text(parts: Seq<Seq<char>>) -> Seq<char> {
    crate::laws::texts::joined_by(parts, ':')
}

proof fn lemma_side(parts: Seq<Seq<char>>, v4_last: bool)
    requires
        forall|i: int| 0 <= i < parts.len() ==> is_group_text(#[trigger] parts[i]),
    ensures
        crate::net::side_groups(side_text(parts), v4_last) == Some(
            Seq::new(parts.len(), |i: int| group_number(parts[i]) as nat),
        ),
        ({
            let text = side_text(parts);
            &&& text.len() > 0 ==> text.last() != ':'
            &&& forall|i: int|
                0 <= i < text.len() - 1 ==> !(#[trigger] text[i] == ':' && text[i + 1] == ':')
        }),
        !side_text(parts).contains('.'),
{
    assert forall|i: int| 0 <= i < parts.len() implies (#[trigger] parts[i]).len() > 0
        && !parts[i].contains(':') && !parts[i].contains('.') by {
        lemma_group_text(parts[i]);
    }
    lemma_joined_chars(parts, '.');
    if parts.len() > 0 {
        lemma_no_gap(parts);
        crate::laws::texts::law_split_undoes_joining(parts, ':');
        lemma_run(parts, v4_last);
    } else {
        assert(Seq::<nat>::empty() =~= Seq::new(
            0,
            |i: int| group_number(parts[i]) as nat,
        ));
    }
}

/// One `::` stands for as many zero groups as are missing: the address is the
/// one that the groups before it, the zeros, and the groups behind it spell
/// out.
pub proof fn law_gap_stands_for_zeros(head: Seq<Seq<char>>, tail: Seq<Seq<char>>)
    requires
        head.len() + tail.len() <= 7,
        forall|i: int| 0 <= i < head.len() ==> is_group_text(#[trigger] head[i]),
        forall|i: int| 0 <= i < tail.len() ==> is_group_text(#[trigger] tail[i]),
    ensures
        crate::net::address(side_text(head) + seq![':', ':'] + side_text(tail)) == Some(
            IpAddr::V6(
                spelled(
                    Seq::new(
                        8,
                        |i: int|
                            if i < head.len() {
                                group_number(head[i])
                            } else if i < 8 - tail.len() {
                                0
                            } else {
                                group_number(tail[i - (8 - tail.len())])
                            },
                    ),
                ) as u128,
            ),
        ),
{
    let text = side_text(head) + seq![':', ':'] + side_text(tail);
    lemma_side(head, false);
    lemma_side(tail, true);
    lemma_gap_at(side_text(head), side_text(tail), 0);
    let gap = side_text(head).len() as int;
    assert(text.take(gap) =~= side_text(head));
    assert(text.skip(gap + 2) =~= side_text(tail));
    assert(!text.contains('.')) by {
        if text.contains('.') {
            let i = choose|i: int| 0 <= i < text.len() && text[i] == '.';
            if i < gap {
                assert(side_text(head)[i] == '.');
            } else if i >= gap + 2 {
                assert(side_text(tail)[i - gap - 2] == '.');
            }
        }
    }
    crate::laws::texts::law_split_without_separator(text, '.');
    assert(crate::net::v4_value(text) is None);
    let a = Seq::new(head.len(), |i: int| group_number(head[i]) as nat);
    let b = Seq::new(tail.len(), |i: int| group_number(tail[i]) as nat);
    let groups = a + Seq::new((8 - a.len() - b.len()) as nat, |i: int| 0nat) + b;
    assert(crate::net::v6_groups(text) == Some(groups));
    lemma_spelled(groups);
    assert forall|i: int| 0 <= i < head.len() implies group_number(#[trigger] head[i]) >= 0 by {
        lemma_group_text(head[i]);
    }
    assert forall|i: int| 0 <= i < tail.len() implies group_number(#[trigger] tail[i]) >= 0 by {
        lemma_group_text(tail[i]);
    }
    assert(groups.map_values(|g: nat| g as int) =~= Seq::new(
        8,
        |i: int|
            if i < head.len() {
                group_number(head[i])
            } else if i < 8 - tail.len() {
                0
            } else {
                group_number(tail[i - (8 - tail.len())])
            },
    ));
}

/// Any other number of groups than eight is no address without a `::`, and with
/// one, at least one group must be missing.
pub proof fn law_wrong_number_of_groups(head: Seq<Seq<char>>, tail: Seq<Seq<char>>)
    requires
        forall|i: int| 0 <= i < head.len() ==> is_group_text(#[trigger] head[i]),
        forall|i: int| 0 <= i < tail.len() ==> is_group_text(#[trigger] tail[i]),
    ensures
        head.len() != 8 && head.len() > 0 ==> crate::net::address(side_text(head)) is None,
        head.len() + tail.len() > 7 ==> crate::net::address(
            side_text(head) + seq![':', ':'] + side_text(tail),
        ) is None,
{
    lemma_side(head, false);
    lemma_side(tail, true);
    if head.len() > 0 {
        let text = side_text(head);
        lemma_gap_from_none(text, 0);
        assert forall|i: int| 0 <= i < head.len() implies !(#[trigger] head[i]).contains(':') by {
            lemma_group_text(head[i]);
        }
        crate::laws::texts::law_split_undoes_joining(head, ':');
        crate::laws::texts::law_split_without_separator(text, '.');
        lemma_run(head, true);
    }
    let text = side_text(head) + seq![':', ':'] + side_text(tail);
    let gap = side_text(head).len() as int;
    lemma_gap_at(side_text(head), side_text(tail), 0);
    assert(text.take(gap) =~= side_text(head));
    assert(text.skip(gap + 2) =~= side_text(tail));
    assert(!text.contains('.')) by {
        if text.contains('.') {
            let i = choose|i: int| 0 <= i < text.len() && text[i] == '.';
            if i < gap {
                assert(side_text(head)[i] == '.');
            } else if i >= gap + 2 {
                assert(side_text(tail)[i - gap - 2] == '.');
            }
        }
    }
    crate::laws::texts::law_split_without_separator(text, '.');
}

proof fn lemma_dotted_has_no(value: u32, c: char)
    requires
        c == '/' || c == ':',
    ensures
        !dotted(value).contains(c),
{
    let a = octet_text(value as int / 0x100_0000);
    let b = octet_text(value as int / 0x1_0000 % 0x100);
    let d = octet_text(value as int / 0x100 % 0x100);
    let e = octet_text(value as int % 0x100);
    let dot = seq!['.'];
    lemma_octet_text(value as int / 0x100_0000);
    lemma_octet_text(value as int / 0x1_0000 % 0x100);
    lemma_octet_text(value as int / 0x100 % 0x100);
    lemma_octet_text(value as int % 0x100);
    assert(!dot.contains(c));
    lemma_not_in_sum(a, dot, c);
    lemma_not_in_sum(a + dot, b, c);
    lemma_not_in_sum(a + dot + b, dot, c);
    lemma_not_in_sum(a + dot + b + dot, d, c);
    lemma_not_in_sum(a + dot + b + dot + d, dot, c);
    lemma_not_in_sum(a + dot + b + dot + d + dot, e, c);
}

/// The last two groups may be written as a version 4 address: behind six groups,
/// or behind a `::`. They are its two halves.
pub proof fn law_embedded_address(head: Seq<Seq<char>>, tail: Seq<Seq<char>>, value: u32)
    requires
        head.len() + tail.len() <= 5,
        forall|i: int| 0 <= i < head.len() ==> is_group_text(#[trigger] head[i]),
        forall|i: int| 0 <= i < tail.len() ==> is_group_text(#[trigger] tail[i]),
    ensures
        crate::net::address(
            side_text(head) + seq![':', ':'] + side_text(tail.push(dotted(value))),
        ) == Some(
            IpAddr::V6(
                spelled(
                    Seq::new(
                        8,
                        |i: int|
                            if i < head.len() {
                                group_number(head[i])
                            } else if i < 6 - tail.len() {
                                0
                            } else if i < 6 {
                                group_number(tail[i - (6 - tail.len())])
                            } else if i == 6 {
                                value as int / 0x1_0000
                            } else {
                                value as int % 0x1_0000
                            },
                    ),
                ) as u128,
            ),
        ),
{
    let parts = tail.push(dotted(value));
    let text = side_text(head) + seq![':', ':'] + side_text(parts);
    let gap = side_text(head).len() as int;
    lemma_side(head, false);
    lemma_gap_at(side_text(head), side_text(parts), 0);
    assert(text.take(gap) =~= side_text(head));
    assert(text.skip(gap + 2) =~= side_text(parts));
    lemma_dotted_has_no(value, ':');
    assert forall|i: int| 0 <= i < parts.len() implies !(#[trigger] parts[i]).contains(':') by {
        if i < tail.len() {
            lemma_group_text(tail[i]);
        }
    }
    crate::laws::texts::law_split_undoes_joining(parts, ':');
    law_dotted_address(dotted(value), value);
    lemma_octet_text(value as int / 0x100_0000);
    let front = parts.drop_last();
    assert(front =~= tail);
    assert forall|i: int| 0 <= i < front.len() implies crate::net::is_group(#[trigger] front[i])
        && crate::text::number(front[i], 16) == group_number(tail[i]) && group_number(tail[i])
        >= 0 by {
        lemma_group_text(tail[i]);
    }
    assert(dotted(value)[octet_text(value as int / 0x100_0000).len() as int] == '.');
    assert(!crate::net::is_group(dotted(value))) by {
        let at = octet_text(value as int / 0x100_0000).len() as int;
        assert(crate::text::digit_value(dotted(value)[at], 16) is None);
    }
    let b = Seq::new(tail.len(), |i: int| group_number(tail[i]) as nat).push(
        (value as int / 0x1_0000) as nat,
    ).push((value as int % 0x1_0000) as nat);
    assert(crate::net::v4_value(dotted(value)) == Some(value as nat));
    assert(front.map_values(|part: Seq<char>| crate::text::number(part, 16)) =~= Seq::new(
        tail.len(),
        |i: int| group_number(tail[i]) as nat,
    ));
    assert(crate::net::run_groups(parts, true) == Some(b));
    assert(side_text(parts).len() > 0) by {
        assert(dotted(value).len() > 0);
    }
    assert(crate::net::side_groups(side_text(parts), true) == Some(b));
    let a = Seq::new(head.len(), |i: int| group_number(head[i]) as nat);
    let groups = a + Seq::new((8 - a.len() - b.len()) as nat, |i: int| 0nat) + b;
    assert(crate::net::v6_groups(text) == Some(groups));
    lemma_not_dotted(text, gap);
    lemma_spelled(groups);
    assert forall|i: int| 0 <= i < head.len() implies group_number(#[trigger] head[i]) >= 0 by {
        lemma_group_text(head[i]);
    }
    assert(groups.map_values(|g: nat| g as int) =~= Seq::new(
        8,
        |i: int|
            if i < head.len() {
                group_number(head[i])
            } else if i < 6 - tail.len() {
                0
            } else if i < 6 {
                group_number(tail[i - (6 - tail.len())])
            } else if i == 6 {
                value as int / 0x1_0000
            } else {
                value as int % 0x1_0000
            },
    ));
}

/// A text with a colon in it is no version 4 address.
proof fn lemma_not_dotted(text: Seq<char>, at: int)
    requires
        0 <= at < text.len(),
        text[at] == ':',
    ensures
        crate::net::v4_value(text) is None,
{
    if crate::net::v4_value(text) is Some {
        lemma_dotted_has_no(crate::net::address(text)->0->V4_0, ':');
        law_dotted_address(text, crate::net::address(text)->0->V4_0);
        assert(text.contains(':'));
    }
}

proof fn lemma_group_is_written(part: Seq<char>)
    requires
        crate::net::is_group(part),
    ensures
        is_group_text(part),
{
    assert forall|i: int| 0 <= i < part.len() implies '0' <= #[trigger] part[i] <= '9' || 'a'
        <= part[i] <= 'f' || 'A' <= part[i] <= 'F' by {
        assert(crate::text::digit_value(part[i], 16) is Some);
    }
}

proof fn lemma_v4_is_written(part: Seq<char>)
    requires
        crate::net::v4_value(part) is Some,
    ensures
        exists|value: u32| part == #[trigger] dotted(value),
{
    let value = crate::net::address(part)->0->V4_0;
    law_dotted_address(part, value);
}

/// Whether `parts` are a run of groups as they are written, of which the last
/// may be a version 4 address where `v4_last` says so.
pub open spec fn is_run(parts: Seq<Seq<char>>, v4_last: bool) -> bool {
    &&& parts.len() > 0
    &&& forall|i: int| 0 <= i < parts.len() - 1 ==> is_group_text(#[trigger] parts[i])
    &&& is_group_text(parts.last()) || v4_last && exists|value: u32|
        parts.last() == #[trigger] dotted(value)
}

proof fn lemma_run_shape(parts: Seq<Seq<char>>, v4_last: bool)
    requires
        crate::net::run_groups(parts, v4_last) is Some,
    ensures
        is_run(parts, v4_last),
        is_group_text(parts.last()) ==> crate::net::run_groups(parts, v4_last)->0.len()
            == parts.len(),
        !is_group_text(parts.last()) ==> crate::net::run_groups(parts, v4_last)->0.len()
            == parts.len() + 1,
{
    let front = parts.drop_last();
    assert forall|i: int| 0 <= i < parts.len() - 1 implies is_group_text(#[trigger] parts[i]) by {
        assert(front[i] == parts[i]);
        lemma_group_is_written(front[i]);
    }
    if crate::net::is_group(parts.last()) {
        lemma_group_is_written(parts.last());
    } else {
        lemma_v4_is_written(parts.last());
        if is_group_text(parts.last()) {
            lemma_group_text(parts.last());
        }
    }
}

/// A text without a `::` is a version 6 address only where it is eight groups,
/// or six groups and a version 4 address.
pub proof fn law_shape_without_gap(text: Seq<char>)
    requires
        forall|i: int|
            0 <= i < text.len() - 1 ==> !(#[trigger] text[i] == ':' && text[i + 1] == ':'),
        crate::net::address(text) matches Some(address) && address is V6,
    ensures
        ({
            let parts = crate::text::split(text, ':');
            &&& is_run(parts, true)
            &&& is_group_text(parts.last()) ==> parts.len() == 8
            &&& !is_group_text(parts.last()) ==> parts.len() == 7
        }),
{
    lemma_gap_from_none(text, 0);
    lemma_run_shape(crate::text::split(text, ':'), true);
}

/// A text with a `::` is a version 6 address only where what stands before it is
/// nothing or a run of groups, and what stands behind it is nothing or a run of
/// groups whose last may be a version 4 address.
pub proof fn law_shape_with_gap(head: Seq<char>, tail: Seq<char>)
    requires
        forall|i: int|
            0 <= i < head.len() - 1 ==> !(#[trigger] head[i] == ':' && head[i + 1] == ':'),
        head.len() > 0 ==> head.last() != ':',
        crate::net::address(head + seq![':', ':'] + tail) is Some,
    ensures
        head.len() > 0 ==> is_run(crate::text::split(head, ':'), false),
        tail.len() > 0 ==> is_run(crate::text::split(tail, ':'), true),
{
    let text = head + seq![':', ':'] + tail;
    let gap = head.len() as int;
    lemma_gap_at(head, tail, 0);
    assert(text.take(gap) =~= head);
    assert(text.skip(gap + 2) =~= tail);
    assert(text[gap] == ':');
    lemma_not_dotted(text, gap);
    if head.len() > 0 {
        lemma_run_shape(crate::text::split(head, ':'), false);
    }
    if tail.len() > 0 {
        lemma_run_shape(crate::text::split(tail, ':'), true);
    }
}

proof fn lemma_not_in_sum(a: Seq<char>, b: Seq<char>, c: char)
    requires
        !a.contains(c),
        !b.contains(c),
    ensures
        !(a + b).contains(c),
{
    if (a + b).contains(c) {
        let i = choose|i: int| 0 <= i < (a + b).len() && (a + b)[i] == c;
        if i < a.len() {
            assert(a[i] == c);
        } else {
            assert(b[i - a.len()] == c);
        }
    }
}

/// A version 4 block as it is written, dotted network and decimal prefix, holds
/// the addresses that share its first `prefix` bits.
pub proof fn law_written_block(network: u32, prefix: nat, host: u32)
    requires
        prefix <= 32,
    ensures
        ({
            let size = vstd::arithmetic::power2::pow2((32 - prefix) as nat);
            let base = network - network as int % size as int;
            crate::net::block_contains(
                dotted(network) + seq!['/'] + octet_text(prefix as int),
                IpAddr::V4(host),
            ) == Some(base <= host < base + size)
        }),
{
    let prefix_text = octet_text(prefix as int);
    law_dotted_address(dotted(network), network);
    lemma_octet_text(prefix as int);
    assert(crate::text::u32_value(prefix_text) == Some(prefix));
    lemma_dotted_has_no(network, '/');
    law_v4_block_is_an_interval(dotted(network), prefix_text, network, prefix, host, 0);
}

} // verus!
