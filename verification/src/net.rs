//! IP addresses, their text form, and CIDR containment.
//!
//! An address is the unsigned integer that its bits spell out. The text forms
//! are the usual ones: four dotted decimal octets for version 4, and eight
//! colon-separated groups of hexadecimal digits for version 6, where one `::`
//! may stand for a run of zero groups and the last two groups may be written
//! as a version 4 address.
use vstd::prelude::*;
use vstd::slice::slice_subrange;

use crate::text::{chars_of, parse_number, parse_u32, split_chars};

verus! {

/// An IP address of either version.
#[derive(Debug, Clone, Copy, PartialEq, Eq, Structural)]
pub enum IpAddr {
    /// A version 4 address, most significant octet first.
    V4(u32),
    /// A version 6 address, most significant group first.
    V6(u128),
}

impl DeepView for IpAddr {
    type V = IpAddr;

    open spec fn deep_view(&self) -> IpAddr {
        *self
    }
}

/// The number an octet's text stands for: at most three decimal digits, no
/// leading zero, at most 255.
pub open spec fn octet(part: Seq<char>) -> Option<nat> {
    let value = crate::text::number(part, 10);
    if crate::text::is_number(part, 10) && part.len() <= 3 && (part.len() == 1 || part[0] != '0')
        && value <= 255 {
        Some(value)
    } else {
        None
    }
}

/// The version 4 address that `text` writes.
pub open spec fn v4_value(text: Seq<char>) -> Option<nat> {
    let parts = crate::text::split(text, '.');
    if parts.len() == 4 && octet(parts[0]) is Some && octet(parts[1]) is Some && octet(
        parts[2],
    ) is Some && octet(parts[3]) is Some {
        Some(
            octet(parts[0])->0 * 0x100_0000 + octet(parts[1])->0 * 0x1_0000 + octet(parts[2])->0
                * 0x100 + octet(parts[3])->0,
        )
    } else {
        None
    }
}

/// Whether `part` is a group of one to four hexadecimal digits.
pub open spec fn is_group(part: Seq<char>) -> bool {
    crate::text::is_number(part, 16) && part.len() <= 4
}

/// The groups that the parts of a colon-separated run stand for: hexadecimal
/// groups throughout, except that the last part may be a version 4 address
/// (worth two groups) where `v4_last` allows it.
pub open spec fn run_groups(parts: Seq<Seq<char>>, v4_last: bool) -> Option<Seq<nat>> {
    let front = parts.drop_last();
    let front_groups = front.map_values(|part: Seq<char>| crate::text::number(part, 16));
    if parts.len() == 0 || !(forall|i: int|
        0 <= i < front.len() ==> is_group(#[trigger] front[i])) {
        None
    } else if is_group(parts.last()) {
        Some(front_groups.push(crate::text::number(parts.last(), 16)))
    } else if v4_last && v4_value(parts.last()) is Some {
        let v4 = v4_value(parts.last())->0;
        Some(front_groups.push(v4 / 0x1_0000).push(v4 % 0x1_0000))
    } else {
        None
    }
}

/// The groups of a run that may also be empty.
pub open spec fn side_groups(text: Seq<char>, v4_last: bool) -> Option<Seq<nat>> {
    if text.len() == 0 {
        Some(Seq::empty())
    } else {
        run_groups(crate::text::split(text, ':'), v4_last)
    }
}

/// Where the first `::` at or after `from` stands, or the length of `text`
/// where there is none.
pub open spec fn gap_from(text: Seq<char>, from: int) -> int
    decreases text.len() - from,
{
    if from + 1 >= text.len() {
        text.len() as int
    } else if text[from] == ':' && text[from + 1] == ':' {
        from
    } else {
        gap_from(text, from + 1)
    }
}

/// The eight groups that `text` writes, if it is a version 6 address.
pub open spec fn v6_groups(text: Seq<char>) -> Option<Seq<nat>> {
    let gap = gap_from(text, 0);
    if gap == text.len() {
        match run_groups(crate::text::split(text, ':'), true) {
            Some(groups) => if groups.len() == 8 {
                Some(groups)
            } else {
                None
            },
            None => None,
        }
    } else {
        match (side_groups(text.take(gap), false), side_groups(text.skip(gap + 2), true)) {
            (Some(head), Some(tail)) => if head.len() + tail.len() <= 7 {
                Some(head + Seq::new((8 - head.len() - tail.len()) as nat, |i: int| 0nat) + tail)
            } else {
                None
            },
            _ => None,
        }
    }
}

/// The number whose base-65536 digits are `groups`.
pub open spec fn groups_value(groups: Seq<nat>) -> nat
    decreases groups.len(),
{
    if groups.len() == 0 {
        0
    } else {
        groups_value(groups.drop_last()) * 0x1_0000 + groups.last()
    }
}

/// The address that `text` writes, if it writes one.
pub open spec fn address(text: Seq<char>) -> Option<IpAddr> {
    match v4_value(text) {
        Some(value) => Some(IpAddr::V4(value as u32)),
        None => match v6_groups(text) {
            Some(groups) => Some(IpAddr::V6(groups_value(groups) as u128)),
            None => None,
        },
    }
}

/// Sixteen raised to four times `n`: the number of values that `n` groups take.
spec fn group_span(n: nat) -> nat
    decreases n,
{
    if n == 0 {
        1
    } else {
        group_span((n - 1) as nat) * 0x1_0000
    }
}

proof fn lemma_groups_value_bound(groups: Seq<nat>)
    requires
        forall|i: int| 0 <= i < groups.len() ==> groups[i] < 0x1_0000,
    ensures
        groups_value(groups) < group_span(groups.len()),
    decreases groups.len(),
{
    if groups.len() > 0 {
        assert forall|i: int| 0 <= i < groups.drop_last().len() implies groups.drop_last()[i]
            < 0x1_0000 by {
            assert(groups.drop_last()[i] == groups[i]);
        }
        lemma_groups_value_bound(groups.drop_last());
    }
}

proof fn lemma_group_span_grows(a: nat, b: nat)
    requires
        a <= b,
    ensures
        group_span(a) <= group_span(b),
    decreases b - a,
{
    if a < b {
        lemma_group_span_grows(a, (b - 1) as nat);
    }
}

proof fn lemma_group_number_bound(part: Seq<char>, n: nat)
    requires
        crate::text::is_number(part, 16) || part.len() == 0,
        part.len() <= n <= 4,
    ensures
        crate::text::number(part, 16) < (if n == 0 {
            1int
        } else if n == 1 {
            0x10
        } else if n == 2 {
            0x100
        } else if n == 3 {
            0x1000
        } else {
            0x1_0000
        }),
    decreases n,
{
    if part.len() > 0 {
        let front = part.drop_last();
        assert(crate::text::digit_value(part.last(), 16) is Some);
        assert forall|i: int| 0 <= i < front.len() implies (#[trigger] crate::text::digit_value(
            front[i],
            16,
        )) is Some by {
            assert(front[i] == part[i]);
        }
        lemma_group_number_bound(front, (n - 1) as nat);
    }
}

fn parse_octet(part: &[char]) -> (value: Option<u32>)
    ensures
        value is Some == octet(part@) is Some,
        value is Some ==> value->0 == octet(part@)->0 && value->0 <= 255,
{
    if part.len() > 3 || (part.len() > 1 && part[0] == '0') {
        return None;
    }
    parse_number(part, 10, 255)
}

fn parse_v4(chars: &[char]) -> (value: Option<u32>)
    ensures
        value is Some == v4_value(chars@) is Some,
        value is Some ==> value->0 == v4_value(chars@)->0,
{
    let parts = split_chars(chars, '.');
    if parts.len() != 4 {
        return None;
    }
    proof {
        assert forall|i: int| 0 <= i < 4 implies #[trigger] parts.deep_view()[i] == parts@[i]@ by {
            assert(parts@[i].deep_view() =~= parts@[i]@);
        }
    }
    match (
        parse_octet(parts[0].as_slice()),
        parse_octet(parts[1].as_slice()),
        parse_octet(parts[2].as_slice()),
        parse_octet(parts[3].as_slice()),
    ) {
        (Some(a), Some(b), Some(c), Some(d)) => Some(
            a * 0x100_0000 + b * 0x1_0000 + c * 0x100 + d,
        ),
        _ => None,
    }
}

fn parse_group(part: &[char]) -> (value: Option<u32>)
    ensures
        value is Some == is_group(part@),
        value is Some ==> value->0 == crate::text::number(part@, 16) && value->0 < 0x1_0000,
{
    if part.len() > 4 {
        return None;
    }
    proof {
        if is_group(part@) {
            lemma_group_number_bound(part@, 4);
        }
    }
    parse_number(part, 16, 0xffff)
}

/// The numbers that `groups` holds.
spec fn group_numbers(groups: Seq<u32>) -> Seq<nat> {
    groups.map_values(|group: u32| group as nat)
}

proof fn lemma_group_numbers_push(groups: Seq<u32>, group: u32)
    ensures
        group_numbers(groups.push(group)) == group_numbers(groups).push(group as nat),
{
    assert(group_numbers(groups.push(group)) =~= group_numbers(groups).push(group as nat));
}

fn parse_run(parts: &Vec<Vec<char>>, v4_last: bool) -> (groups: Option<Vec<u32>>)
    ensures
        groups is Some == run_groups(parts.deep_view(), v4_last) is Some,
        groups is Some ==> group_numbers(groups->0@) == run_groups(parts.deep_view(), v4_last)->0,
        groups is Some ==> forall|i: int| 0 <= i < groups->0@.len() ==> groups->0@[i] < 0x1_0000,
{
    let ghost model = parts.deep_view();
    if parts.len() == 0 {
        return None;
    }
    proof {
        assert forall|i: int| 0 <= i < model.len() implies #[trigger] model[i] == parts@[i]@ by {
            assert(parts@[i].deep_view() =~= parts@[i]@);
        }
    }
    let ghost front = model.drop_last();
    let last: usize = parts.len() - 1;
    let mut groups: Vec<u32> = Vec::new();
    let mut i: usize = 0;
    while i < last
        invariant
            0 <= i <= last,
            last == parts@.len() - 1,
            model == parts.deep_view(),
            front == model.drop_last(),
            forall|j: int| 0 <= j < model.len() ==> #[trigger] model[j] == parts@[j]@,
            groups@.len() == i,
            forall|j: int| 0 <= j < i ==> is_group(#[trigger] front[j]),
            forall|j: int|
                0 <= j < i ==> #[trigger] groups@[j] == crate::text::number(front[j], 16)
                    && groups@[j] < 0x1_0000,
        decreases last - i,
    {
        assert(front[i as int] == model[i as int]);
        match parse_group(parts[i].as_slice()) {
            Some(group) => groups.push(group),
            None => {
                assert(!is_group(front[i as int]));
                return None;
            },
        }
        i = i + 1;
    }
    let ghost front_groups = front.map_values(|part: Seq<char>| crate::text::number(part, 16));
    assert(group_numbers(groups@) =~= front_groups);
    assert(model.last() == parts@[last as int]@);
    match parse_group(parts[last].as_slice()) {
        Some(group) => {
            groups.push(group);
            assert(group_numbers(groups@) =~= front_groups.push(group as nat));
            Some(groups)
        },
        None => {
            if !v4_last {
                return None;
            }
            match parse_v4(parts[last].as_slice()) {
                Some(value) => {
                    groups.push(value / 0x1_0000);
                    groups.push(value % 0x1_0000);
                    assert(group_numbers(groups@) =~= front_groups.push(
                        (value / 0x1_0000) as nat,
                    ).push((value % 0x1_0000) as nat));
                    Some(groups)
                },
                None => None,
            }
        },
    }
}

fn parse_side(chars: &[char], v4_last: bool) -> (groups: Option<Vec<u32>>)
    ensures
        groups is Some == side_groups(chars@, v4_last) is Some,
        groups is Some ==> group_numbers(groups->0@) == side_groups(chars@, v4_last)->0,
        groups is Some ==> forall|i: int| 0 <= i < groups->0@.len() ==> groups->0@[i] < 0x1_0000,
{
    if chars.len() == 0 {
        let groups: Vec<u32> = Vec::new();
        assert(group_numbers(groups@) =~= Seq::empty());
        return Some(groups);
    }
    let parts = split_chars(chars, ':');
    parse_run(&parts, v4_last)
}

fn find_gap(chars: &[char]) -> (gap: usize)
    ensures
        gap == gap_from(chars@, 0),
        gap <= chars@.len(),
        gap < chars@.len() ==> gap + 2 <= chars@.len(),
{
    let mut i: usize = 0;
    while i < chars.len() && chars.len() - i >= 2
        invariant
            0 <= i <= chars@.len(),
            gap_from(chars@, 0) == gap_from(chars@, i as int),
        decreases chars@.len() - i,
    {
        if chars[i] == ':' && chars[i + 1] == ':' {
            return i;
        }
        i = i + 1;
    }
    chars.len()
}

fn join_groups(groups: &Vec<u32>) -> (value: u128)
    requires
        groups@.len() == 8,
        forall|i: int| 0 <= i < groups@.len() ==> groups@[i] < 0x1_0000,
    ensures
        value == groups_value(group_numbers(groups@)),
{
    let ghost numbers = group_numbers(groups@);
    let mut value: u128 = 0;
    let mut i: usize = 0;
    proof {
        assert(group_span(8) == 0x1_0000_0000_0000_0000_0000_0000_0000_0000) by {
            reveal_with_fuel(group_span, 9);
        }
    }
    while i < 8
        invariant
            0 <= i <= 8,
            groups@.len() == 8,
            numbers == group_numbers(groups@),
            forall|j: int| 0 <= j < groups@.len() ==> groups@[j] < 0x1_0000,
            value == groups_value(numbers.take(i as int)),
            group_span(8) == 0x1_0000_0000_0000_0000_0000_0000_0000_0000,
        decreases 8 - i,
    {
        proof {
            let next = numbers.take(i + 1);
            assert(next.drop_last() =~= numbers.take(i as int));
            assert(next.last() == groups@[i as int] as nat);
            assert forall|j: int| 0 <= j < next.len() implies next[j] < 0x1_0000 by {
                assert(next[j] == groups@[j] as nat);
            }
            lemma_groups_value_bound(next);
            lemma_group_span_grows((i + 1) as nat, 8);
        }
        value = value * 0x1_0000 + (groups[i] as u128);
        i = i + 1;
    }
    assert(numbers.take(8) =~= numbers);
    value
}

fn parse_v6(chars: &[char]) -> (value: Option<u128>)
    ensures
        value is Some == v6_groups(chars@) is Some,
        value is Some ==> value->0 == groups_value(v6_groups(chars@)->0),
{
    let gap = find_gap(chars);
    if gap == chars.len() {
        let parts = split_chars(chars, ':');
        match parse_run(&parts, true) {
            Some(groups) => {
                if groups.len() == 8 {
                    Some(join_groups(&groups))
                } else {
                    None
                }
            },
            None => None,
        }
    } else {
        let head_chars = slice_subrange(chars, 0, gap);
        let tail_chars = slice_subrange(chars, gap + 2, chars.len());
        assert(head_chars@ =~= chars@.take(gap as int));
        assert(tail_chars@ =~= chars@.skip(gap + 2));
        match (parse_side(head_chars, false), parse_side(tail_chars, true)) {
            (Some(head), Some(tail)) => {
                if head.len() > 7 || tail.len() > 7 - head.len() {
                    return None;
                }
                let ghost head_numbers = group_numbers(head@);
                let ghost tail_numbers = group_numbers(tail@);
                let zeros: usize = 8 - head.len() - tail.len();
                let mut groups = head;
                let mut i: usize = 0;
                while i < zeros
                    invariant
                        0 <= i <= zeros,
                        group_numbers(groups@) == head_numbers + Seq::new(i as nat, |j: int| 0nat),
                        forall|j: int| 0 <= j < groups@.len() ==> groups@[j] < 0x1_0000,
                    decreases zeros - i,
                {
                    proof {
                        lemma_group_numbers_push(groups@, 0);
                    }
                    groups.push(0);
                    i = i + 1;
                    assert(group_numbers(groups@) =~= head_numbers + Seq::new(
                        i as nat,
                        |j: int| 0nat,
                    ));
                }
                let ghost filled = group_numbers(groups@);
                let mut k: usize = 0;
                while k < tail.len()
                    invariant
                        0 <= k <= tail@.len(),
                        tail_numbers == group_numbers(tail@),
                        group_numbers(groups@) == filled + tail_numbers.take(k as int),
                        forall|j: int| 0 <= j < groups@.len() ==> groups@[j] < 0x1_0000,
                        forall|j: int| 0 <= j < tail@.len() ==> tail@[j] < 0x1_0000,
                    decreases tail@.len() - k,
                {
                    proof {
                        lemma_group_numbers_push(groups@, tail@[k as int]);
                        assert(tail_numbers.take(k + 1) =~= tail_numbers.take(k as int).push(
                            tail@[k as int] as nat,
                        ));
                    }
                    groups.push(tail[k]);
                    k = k + 1;
                    assert(group_numbers(groups@) =~= filled + tail_numbers.take(k as int));
                }
                assert(tail_numbers.take(k as int) =~= tail_numbers);
                assert(group_numbers(groups@).len() == groups@.len());
                assert(filled.len() == head_numbers.len() + zeros);
                assert(group_numbers(groups@).len() == filled.len() + tail_numbers.len());
                Some(join_groups(&groups))
            },
            _ => None,
        }
    }
}

/// Parses an IP address of either version.
pub fn parse_address(text: &str) -> (parsed: Option<IpAddr>)
    ensures
        parsed == address(text@),
{
    let chars = chars_of(text);
    parse_address_chars(chars.as_slice())
}

fn parse_address_chars(chars: &[char]) -> (parsed: Option<IpAddr>)
    ensures
        parsed == address(chars@),
{
    match parse_v4(chars) {
        Some(value) => Some(IpAddr::V4(value)),
        None => match parse_v6(chars) {
            Some(value) => Some(IpAddr::V6(value)),
            None => None,
        },
    }
}

/// Whether the first `prefix` of `width` bits of `a` and `b` agree.
pub open spec fn same_prefix(a: nat, b: nat, width: nat, prefix: nat) -> bool {
    a / vstd::arithmetic::power2::pow2((width - prefix) as nat) == b / vstd::arithmetic::power2::pow2((width - prefix) as nat)
}

/// Where the first `sep` in `text` at or after `from` stands, or the length of
/// `text` where there is none.
pub open spec fn first_from(text: Seq<char>, sep: char, from: int) -> int
    decreases text.len() - from,
{
    if from >= text.len() {
        text.len() as int
    } else if text[from] == sep {
        from
    } else {
        first_from(text, sep, from + 1)
    }
}

/// Whether the block that `cidr` writes contains `peer`, or `None` where
/// `cidr` writes no block: an address, a slash, and a prefix length no longer
/// than an address of that version. A block of one version contains no address
/// of the other.
#[verifier::opaque]
pub open spec fn block_contains(cidr: Seq<char>, peer: IpAddr) -> Option<bool> {
    let slash = first_from(cidr, '/', 0);
    if slash == cidr.len() {
        None
    } else {
        match (address(cidr.take(slash)), crate::text::u32_value(cidr.skip(slash + 1))) {
            (Some(IpAddr::V4(network)), Some(prefix)) => if prefix > 32 {
                None
            } else {
                match peer {
                    IpAddr::V4(host) => Some(
                        same_prefix(network as nat, host as nat, 32, prefix),
                    ),
                    IpAddr::V6(_) => Some(false),
                }
            },
            (Some(IpAddr::V6(network)), Some(prefix)) => if prefix > 128 {
                None
            } else {
                match peer {
                    IpAddr::V6(host) => Some(
                        same_prefix(network as nat, host as nat, 128, prefix),
                    ),
                    IpAddr::V4(_) => Some(false),
                }
            },
            _ => None,
        }
    }
}

fn find_char(chars: &[char], sep: char) -> (at: usize)
    ensures
        at == first_from(chars@, sep, 0),
        at <= chars@.len(),
{
    let mut i: usize = 0;
    while i < chars.len()
        invariant
            0 <= i <= chars@.len(),
            first_from(chars@, sep, 0) == first_from(chars@, sep, i as int),
        decreases chars@.len() - i,
    {
        if chars[i] == sep {
            return i;
        }
        i = i + 1;
    }
    chars.len()
}

fn same_prefix_v4(a: u32, b: u32, prefix: u32) -> (same: bool)
    requires
        prefix <= 32,
    ensures
        same == same_prefix(a as nat, b as nat, 32, prefix as nat),
{
    if prefix == 0 {
        proof {
            vstd::arithmetic::power2::lemma2_to64();
            vstd::arithmetic::div_mod::lemma_basic_div(a as int, vstd::arithmetic::power2::pow2(32) as int);
            vstd::arithmetic::div_mod::lemma_basic_div(b as int, vstd::arithmetic::power2::pow2(32) as int);
        }
        return true;
    }
    let shift: u32 = 32 - prefix;
    proof {
        vstd::bits::lemma_u32_shr_is_div(a, shift);
        vstd::bits::lemma_u32_shr_is_div(b, shift);
    }
    (a >> shift) == (b >> shift)
}

fn same_prefix_v6(a: u128, b: u128, prefix: u32) -> (same: bool)
    requires
        prefix <= 128,
    ensures
        same == same_prefix(a as nat, b as nat, 128, prefix as nat),
{
    if prefix == 0 {
        proof {
            vstd::arithmetic::power2::lemma2_to64();
            vstd::arithmetic::power2::lemma_pow2_adds(64, 64);
            assert(vstd::arithmetic::power2::pow2(128) == 0x1_0000_0000_0000_0000_0000_0000_0000_0000);
            vstd::arithmetic::div_mod::lemma_basic_div(a as int, vstd::arithmetic::power2::pow2(128) as int);
            vstd::arithmetic::div_mod::lemma_basic_div(b as int, vstd::arithmetic::power2::pow2(128) as int);
        }
        return true;
    }
    let shift: u128 = 128 - (prefix as u128);
    proof {
        vstd::bits::lemma_u128_shr_is_div(a, shift);
        vstd::bits::lemma_u128_shr_is_div(b, shift);
    }
    (a >> shift) == (b >> shift)
}

/// Whether `cidr` (`"ip/prefix_len"`, of either version) contains `peer`, or
/// `None` where `cidr` is not a valid block.
pub fn cidr_contains(cidr: &str, peer: IpAddr) -> (contains: Option<bool>)
    ensures
        contains == block_contains(cidr@, peer),
{
    reveal(block_contains);
    let chars = chars_of(cidr);
    let slash = find_char(chars.as_slice(), '/');
    if slash == chars.len() {
        return None;
    }
    let network_chars = slice_subrange(chars.as_slice(), 0, slash);
    let prefix_chars = slice_subrange(chars.as_slice(), slash + 1, chars.len());
    assert(network_chars@ =~= cidr@.take(slash as int));
    assert(prefix_chars@ =~= cidr@.skip(slash + 1));
    match (parse_address_chars(network_chars), parse_u32(prefix_chars)) {
        (Some(IpAddr::V4(network)), Some(prefix)) => {
            if prefix > 32 {
                None
            } else {
                match peer {
                    IpAddr::V4(host) => Some(same_prefix_v4(network, host, prefix)),
                    IpAddr::V6(_) => Some(false),
                }
            }
        },
        (Some(IpAddr::V6(network)), Some(prefix)) => {
            if prefix > 128 {
                None
            } else {
                match peer {
                    IpAddr::V6(host) => Some(same_prefix_v6(network, host, prefix)),
                    IpAddr::V4(_) => Some(false),
                }
            }
        },
        _ => None,
    }
}

} // verus!
