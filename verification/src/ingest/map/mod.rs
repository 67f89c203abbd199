//! Mapping of API answers into domain types.
//!
//! A required field that is absent or out of range makes its resource
//! unmappable. A cross-account reference does not: it is mapped as unresolved,
//! never dropped.
use vstd::prelude::*;
use vstd::string::*;

use crate::domain::rule::PortRange;
use crate::error::MappingError;
use crate::text::{push_signed_decimal, same_text};

pub mod nacl;
pub mod sg;
pub mod stubs;
pub mod topology;
pub mod whole;

verus! {

/// A field of a resource that cannot be mapped.
pub open spec fn invalid(
    resource_id: Seq<char>,
    field: Seq<char>,
    reason: Seq<char>,
) -> crate::error::MappingErrorView {
    crate::error::MappingErrorView::InvalidField { resource_id, field, reason }
}

/// A required field that is absent.
pub open spec fn absent(
    resource_id: Seq<char>,
    field: Seq<char>,
) -> crate::error::MappingErrorView {
    invalid(resource_id, field, "field is required but absent"@)
}

/// Whether a result is the one that a model describes.
pub open spec fn agrees<T: DeepView>(
    result: Result<T, MappingError>,
    model: Result<T::V, crate::error::MappingErrorView>,
) -> bool {
    match (result, model) {
        (Ok(value), Ok(expected)) => value.deep_view() == expected,
        (Err(error), Err(expected)) => error.deep_view() == expected,
        _ => false,
    }
}

/// What mapping each item gives, in order, or the first item's error.
pub open spec fn map_all<A, B>(
    items: Seq<A>,
    f: spec_fn(A) -> Result<B, crate::error::MappingErrorView>,
) -> Result<Seq<B>, crate::error::MappingErrorView>
    decreases items.len(),
{
    if items.len() == 0 {
        Ok(Seq::empty())
    } else {
        match map_all(items.drop_last(), f) {
            Err(error) => Err(error),
            Ok(mapped) => match f(items.last()) {
                Ok(value) => Ok(mapped.push(value)),
                Err(error) => Err(error),
            },
        }
    }
}

/// The first error stays, whatever comes after it.
pub proof fn lemma_map_all_fault<A, B>(
    items: Seq<A>,
    f: spec_fn(A) -> Result<B, crate::error::MappingErrorView>,
    i: int,
)
    requires
        0 <= i <= items.len(),
        map_all(items.take(i), f) is Err,
    ensures
        map_all(items, f) == map_all(items.take(i), f),
    decreases items.len() - i,
{
    if i < items.len() {
        assert(items.take(i + 1).drop_last() =~= items.take(i));
        lemma_map_all_fault(items, f, i + 1);
    } else {
        assert(items.take(i) =~= items);
    }
}

/// Mapping one more item.
pub proof fn lemma_map_all_step<A, B>(
    items: Seq<A>,
    f: spec_fn(A) -> Result<B, crate::error::MappingErrorView>,
    i: int,
)
    requires
        0 <= i < items.len(),
    ensures
        map_all(items.take(i + 1), f) == (match map_all(items.take(i), f) {
            Err(error) => Err(error),
            Ok(mapped) => match f(items[i]) {
                Ok(value) => Ok(mapped.push(value)),
                Err(error) => Err(error),
            },
        }),
{
    assert(items.take(i + 1).drop_last() =~= items.take(i));
}

/// Mapping succeeds exactly where it does for every item, with one value per
/// item.
pub proof fn lemma_map_all_ok<A, B>(
    items: Seq<A>,
    f: spec_fn(A) -> Result<B, crate::error::MappingErrorView>,
)
    ensures
        map_all(items, f) is Ok <==> forall|i: int|
            0 <= i < items.len() ==> f(#[trigger] items[i]) is Ok,
        map_all(items, f) matches Ok(mapped) ==> mapped.len() == items.len() && forall|i: int|
            0 <= i < items.len() ==> f(items[i]) == Ok::<B, crate::error::MappingErrorView>(
                #[trigger] mapped[i],
            ),
    decreases items.len(),
{
    if items.len() > 0 {
        let front = items.drop_last();
        lemma_map_all_ok(front, f);
        if map_all(items, f) is Ok {
            let mapped = map_all(items, f)->Ok_0;
            let front_mapped = map_all(front, f)->Ok_0;
            assert forall|i: int| 0 <= i < items.len() implies f(items[i]) == Ok::<
                B,
                crate::error::MappingErrorView,
            >(#[trigger] mapped[i]) by {
                if i < front.len() {
                    assert(front[i] == items[i]);
                    assert(front_mapped[i] == mapped[i]);
                }
            }
            assert forall|i: int| 0 <= i < items.len() implies f(#[trigger] items[i]) is Ok by {
                let value = mapped[i];
            }
        }
        if forall|i: int| 0 <= i < items.len() ==> f(#[trigger] items[i]) is Ok {
            assert forall|i: int| 0 <= i < front.len() implies f(#[trigger] front[i]) is Ok by {
                assert(front[i] == items[i]);
            }
            assert(items[items.len() - 1] == items.last());
        }
    }
}

/// The parts put together in order.
pub open spec fn joined<A>(parts: Seq<Seq<A>>) -> Seq<A>
    decreases parts.len(),
{
    if parts.len() == 0 {
        Seq::empty()
    } else {
        joined(parts.drop_last()) + parts.last()
    }
}

/// Putting one more part at the end.
pub proof fn lemma_joined_push<A>(parts: Seq<Seq<A>>, part: Seq<A>)
    ensures
        joined(parts.push(part)) == joined(parts) + part,
{
    assert(parts.push(part).drop_last() =~= parts);
}

/// An element stands in the whole only where some part holds it.
pub proof fn lemma_joined_contains<A>(parts: Seq<Seq<A>>, element: A)
    requires
        joined(parts).contains(element),
    ensures
        exists|k: int| 0 <= k < parts.len() && (#[trigger] parts[k]).contains(element),
    decreases parts.len(),
{
    if parts.len() > 0 {
        let before = joined(parts.drop_last());
        let i = choose|i: int| 0 <= i < joined(parts).len() && joined(parts)[i] == element;
        if i < before.len() {
            assert(before[i] == element);
            lemma_joined_contains(parts.drop_last(), element);
            let k = choose|k: int|
                0 <= k < parts.drop_last().len() && (#[trigger] parts.drop_last()[k]).contains(
                    element,
                );
            assert(parts[k].contains(element));
        } else {
            assert(parts.last()[i - before.len()] == element);
            assert(parts[parts.len() - 1].contains(element));
        }
    }
}

/// What each item gives, put together in order.
pub open spec fn joined_map<A, B>(items: Seq<A>, f: spec_fn(A) -> Seq<B>) -> Seq<B>
    decreases items.len(),
{
    if items.len() == 0 {
        Seq::empty()
    } else {
        joined_map(items.drop_last(), f) + f(items.last())
    }
}

/// Adding what one more item gives.
pub proof fn lemma_joined_map_step<A, B>(items: Seq<A>, f: spec_fn(A) -> Seq<B>, i: int)
    requires
        0 <= i < items.len(),
    ensures
        joined_map(items.take(i + 1), f) == joined_map(items.take(i), f) + f(items[i]),
{
    assert(items.take(i + 1).drop_last() =~= items.take(i));
}

/// An element stands in the whole exactly where some item gives it.
pub proof fn lemma_joined_map_contains<A, B>(items: Seq<A>, f: spec_fn(A) -> Seq<B>, element: B)
    ensures
        joined_map(items, f).contains(element) <==> exists|i: int|
            0 <= i < items.len() && f(#[trigger] items[i]).contains(element),
    decreases items.len(),
{
    if items.len() > 0 {
        let front = items.drop_last();
        let before = joined_map(front, f);
        let last = f(items.last());
        lemma_joined_map_contains(front, f, element);
        if joined_map(items, f).contains(element) {
            let k = choose|k: int|
                0 <= k < joined_map(items, f).len() && joined_map(items, f)[k] == element;
            if k < before.len() {
                assert(before[k] == element);
                let i = choose|i: int|
                    0 <= i < front.len() && f(#[trigger] front[i]).contains(element);
                assert(f(items[i]).contains(element));
            } else {
                assert(last[k - before.len()] == element);
                assert(f(items[items.len() - 1]).contains(element));
            }
        }
        if exists|i: int| 0 <= i < items.len() && f(#[trigger] items[i]).contains(element) {
            let i = choose|i: int| 0 <= i < items.len() && f(#[trigger] items[i]).contains(element);
            if i < front.len() {
                assert(f(front[i]).contains(element));
                let k = choose|k: int| 0 <= k < before.len() && before[k] == element;
                assert(joined_map(items, f)[k] == element);
            } else {
                let k = choose|k: int| 0 <= k < last.len() && last[k] == element;
                assert(joined_map(items, f)[before.len() + k] == element);
            }
        }
    }
}

/// The value of a field, as a sequence of one element or none.
pub open spec fn present(value: Option<String>) -> Seq<Seq<char>> {
    match value {
        Some(text) => seq![text@],
        None => Seq::empty(),
    }
}

/// Appends `more` to `all`.
pub(crate) fn append_items<T: DeepView>(all: &mut Vec<T>, more: Vec<T>)
    ensures
        final(all).deep_view() == old(all).deep_view() + more.deep_view(),
{
    let ghost before = all.deep_view();
    let ghost added = more.deep_view();
    let mut more = more;
    all.append(&mut more);
    assert(all.deep_view() =~= before + added);
}

/// Appends `item` to `all`.
pub(crate) fn push_item<T: DeepView>(all: &mut Vec<T>, item: T)
    ensures
        final(all).deep_view() == old(all).deep_view().push(item.deep_view()),
{
    let ghost before = all.deep_view();
    let ghost added = item.deep_view();
    all.push(item);
    assert(all.deep_view() =~= before.push(added));
}

/// The value of a required field.
pub open spec fn required(
    resource_id: Seq<char>,
    field: Seq<char>,
    value: Option<String>,
) -> Result<Seq<char>, crate::error::MappingErrorView> {
    match value {
        Some(text) => Ok(text@),
        None => Err(absent(resource_id, field)),
    }
}

pub(crate) fn absent_field(resource_id: &str, field: &'static str) -> (error: MappingError)
    ensures
        error.deep_view() == absent(resource_id@, field@),
{
    MappingError::InvalidField {
        resource_id: resource_id.to_owned(),
        field,
        reason: String::from_str("field is required but absent"),
    }
}

/// Reads a required field, or names the resource and field that were missing.
pub fn require_str(resource_id: &str, field: &'static str, value: &Option<String>) -> (text: Result<
    String,
    MappingError,
>)
    ensures
        agrees(text, required(resource_id@, field@, *value)),
{
    match value {
        Some(text) => Ok(text.clone()),
        None => Err(absent_field(resource_id, field)),
    }
}

/// The port range that a protocol and a pair of bounds stand for.
///
/// All protocols have no ports, whatever bounds are given. For ICMP the bounds
/// are type and code, and a negative one means any: two of them restrict
/// nothing, and of one the other's restriction stays, as a range of a single
/// value.
pub open spec fn port_span(
    resource_id: Seq<char>,
    field: Seq<char>,
    protocol: Seq<char>,
    from_port: Option<i32>,
    to_port: Option<i32>,
) -> Result<Option<(u16, u16)>, crate::error::MappingErrorView> {
    match (from_port, to_port) {
        (Some(from_port), Some(to_port)) => {
            let from = if from_port < 0 {
                to_port
            } else {
                from_port
            };
            let to = if to_port < 0 {
                from_port
            } else {
                to_port
            };
            if protocol == "-1"@ || (from_port < 0 && to_port < 0) {
                Ok(None)
            } else if from > u16::MAX {
                Err(invalid(resource_id, field, port_too_high(from as int)))
            } else if to > u16::MAX {
                Err(invalid(resource_id, field, port_too_high(to as int)))
            } else if from > to {
                Err(
                    invalid(
                        resource_id,
                        field,
                        (crate::domain::rule::RuleError::InvertedPortRange {
                            from_port: from as u16,
                            to_port: to as u16,
                        }).text(),
                    ),
                )
            } else {
                Ok(Some((from as u16, to as u16)))
            }
        },
        _ => Ok(None),
    }
}

/// What is said of a port beyond the range of ports.
pub open spec fn port_too_high(value: int) -> Seq<char> {
    "port "@ + crate::text::signed_decimal(value) + " exceeds u16 range"@
}

fn port_number(resource_id: &str, field: &'static str, value: i32) -> (port: Result<
    u16,
    MappingError,
>)
    requires
        value >= 0,
    ensures
        agrees(
            port,
            (if value <= u16::MAX {
                Ok(value as u16)
            } else {
                Err(invalid(resource_id@, field@, port_too_high(value as int)))
            }),
        ),
{
    if value <= 0xffff {
        Ok(value as u16)
    } else {
        let mut reason = String::from_str("port ");
        push_signed_decimal(&mut reason, value as i64);
        reason.append(" exceeds u16 range");
        Err(MappingError::InvalidField { resource_id: resource_id.to_owned(), field, reason })
    }
}

/// Normalises a protocol and a pair of bounds into a port range.
pub fn build_port_range(
    resource_id: &str,
    field: &'static str,
    protocol: &str,
    from_port: Option<i32>,
    to_port: Option<i32>,
) -> (range: Result<Option<PortRange>, MappingError>)
    ensures
        agrees(range, port_span(resource_id@, field@, protocol@, from_port, to_port)),
{
    if same_text(protocol, "-1") {
        return Ok(None);
    }
    let (from, to): (i32, i32) = match (from_port, to_port) {
        (Some(from), Some(to)) => {
            if from < 0 && to < 0 {
                return Ok(None);
            } else if from < 0 {
                (to, to)
            } else if to < 0 {
                (from, from)
            } else {
                (from, to)
            }
        },
        _ => return Ok(None),
    };
    let lower: u16 = match port_number(resource_id, field, from) {
        Ok(port) => port,
        Err(error) => return Err(error),
    };
    let upper: u16 = match port_number(resource_id, field, to) {
        Ok(port) => port,
        Err(error) => return Err(error),
    };
    match PortRange::new(lower, upper) {
        Ok(range) => Ok(Some(range)),
        Err(error) => Err(
            MappingError::InvalidField {
                resource_id: resource_id.to_owned(),
                field,
                reason: error.message(),
            },
        ),
    }
}

/// A restriction of an ICMP rule to one type or one code is never widened to
/// all of ICMP: where one of two bounds is given, so is a range.
pub proof fn law_icmp_restriction_survives(
    resource_id: Seq<char>,
    field: Seq<char>,
    protocol: Seq<char>,
    from_port: i32,
    to_port: i32,
)
    requires
        protocol != "-1"@,
        from_port >= 0 || to_port >= 0,
    ensures
        port_span(resource_id, field, protocol, Some(from_port), Some(to_port)) != Ok::<
            Option<(u16, u16)>,
            crate::error::MappingErrorView,
        >(None),
{
}

} // verus!
