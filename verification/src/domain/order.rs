//! Network ACL rules in evaluation order: ascending by rule number, rules with
//! the same number in the order in which they were given.
use vstd::prelude::*;

use crate::domain::rule::NaclRule;

verus! {

/// `sorted` with `rule` put after every rule whose number is not higher.
pub open spec fn insert_by_number(
    sorted: Seq<crate::domain::rule::NaclRuleView>,
    rule: crate::domain::rule::NaclRuleView,
) -> Seq<crate::domain::rule::NaclRuleView>
    decreases sorted.len(),
{
    if sorted.len() == 0 || sorted.last().rule_number <= rule.rule_number {
        sorted.push(rule)
    } else {
        insert_by_number(sorted.drop_last(), rule).push(sorted.last())
    }
}

/// `rules` in evaluation order.
pub open spec fn by_number(rules: Seq<crate::domain::rule::NaclRuleView>) -> Seq<
    crate::domain::rule::NaclRuleView,
>
    decreases rules.len(),
{
    if rules.len() == 0 {
        Seq::empty()
    } else {
        insert_by_number(by_number(rules.drop_last()), rules.last())
    }
}

/// Whether rule numbers never go down.
pub open spec fn ascending(rules: Seq<crate::domain::rule::NaclRuleView>) -> bool {
    forall|i: int, j: int|
        0 <= i <= j < rules.len() ==> (#[trigger] rules[i]).rule_number <= (
        #[trigger] rules[j]).rule_number
}

proof fn lemma_insert_len(
    sorted: Seq<crate::domain::rule::NaclRuleView>,
    rule: crate::domain::rule::NaclRuleView,
)
    ensures
        insert_by_number(sorted, rule).len() == sorted.len() + 1,
    decreases sorted.len(),
{
    if sorted.len() > 0 && sorted.last().rule_number > rule.rule_number {
        lemma_insert_len(sorted.drop_last(), rule);
    }
}

proof fn lemma_insert_keeps_ascending(
    sorted: Seq<crate::domain::rule::NaclRuleView>,
    rule: crate::domain::rule::NaclRuleView,
    bound: int,
)
    requires
        ascending(sorted),
        rule.rule_number <= bound,
        forall|i: int| 0 <= i < sorted.len() ==> (#[trigger] sorted[i]).rule_number <= bound,
    ensures
        ascending(insert_by_number(sorted, rule)),
        forall|i: int|
            0 <= i < insert_by_number(sorted, rule).len() ==> (#[trigger] insert_by_number(
                sorted,
                rule,
            )[i]).rule_number <= bound,
    decreases sorted.len(),
{
    if sorted.len() > 0 && sorted.last().rule_number > rule.rule_number {
        let front = sorted.drop_last();
        let last = sorted.last();
        assert forall|i: int| 0 <= i < front.len() implies (#[trigger] front[i]).rule_number
            <= last.rule_number by {
            assert(front[i] == sorted[i]);
            assert(sorted[sorted.len() - 1] == last);
        }
        lemma_insert_keeps_ascending(front, rule, last.rule_number as int);
        lemma_insert_len(front, rule);
        let result = insert_by_number(sorted, rule);
        assert(result == insert_by_number(front, rule).push(last));
        assert(last == sorted[sorted.len() - 1]);
    } else if sorted.len() > 0 {
        let result = insert_by_number(sorted, rule);
        assert(sorted[sorted.len() - 1] == sorted.last());
        assert forall|i: int, j: int| 0 <= i <= j < result.len() implies (
        #[trigger] result[i]).rule_number <= (#[trigger] result[j]).rule_number by {
            if j == sorted.len() && i < j {
                assert(sorted[i].rule_number <= sorted[sorted.len() - 1].rule_number);
            }
        }
    }
}

/// Rules in evaluation order have ascending numbers.
pub proof fn law_by_number_is_ascending(rules: Seq<crate::domain::rule::NaclRuleView>)
    ensures
        ascending(by_number(rules)),
    decreases rules.len(),
{
    if rules.len() > 0 {
        law_by_number_is_ascending(rules.drop_last());
        lemma_insert_keeps_ascending(by_number(rules.drop_last()), rules.last(), u16::MAX as int);
    }
}

proof fn lemma_insert_multiset(
    sorted: Seq<crate::domain::rule::NaclRuleView>,
    rule: crate::domain::rule::NaclRuleView,
)
    ensures
        insert_by_number(sorted, rule).to_multiset() == sorted.to_multiset().insert(rule),
    decreases sorted.len(),
{
    broadcast use vstd::seq_lib::group_to_multiset_ensures;

    if sorted.len() > 0 && sorted.last().rule_number > rule.rule_number {
        let front = sorted.drop_last();
        lemma_insert_multiset(front, rule);
        assert(front.push(sorted.last()) =~= sorted);
        assert(insert_by_number(sorted, rule).to_multiset() =~= sorted.to_multiset().insert(rule));
    }
}

/// Putting rules in evaluation order loses none and adds none.
pub proof fn law_by_number_is_a_permutation(rules: Seq<crate::domain::rule::NaclRuleView>)
    ensures
        by_number(rules).to_multiset() == rules.to_multiset(),
    decreases rules.len(),
{
    broadcast use vstd::seq_lib::group_to_multiset_ensures;

    if rules.len() > 0 {
        law_by_number_is_a_permutation(rules.drop_last());
        lemma_insert_multiset(by_number(rules.drop_last()), rules.last());
        assert(rules.drop_last().push(rules.last()) =~= rules);
    } else {
        assert(by_number(rules) =~= rules);
    }
}

/// Those of `rules` that have `number`, in order.
pub open spec fn with_number(
    rules: Seq<crate::domain::rule::NaclRuleView>,
    number: u16,
) -> Seq<crate::domain::rule::NaclRuleView>
    decreases rules.len(),
{
    if rules.len() == 0 {
        Seq::empty()
    } else if rules.last().rule_number == number {
        with_number(rules.drop_last(), number).push(rules.last())
    } else {
        with_number(rules.drop_last(), number)
    }
}

proof fn lemma_insert_with_number(
    sorted: Seq<crate::domain::rule::NaclRuleView>,
    rule: crate::domain::rule::NaclRuleView,
    number: u16,
)
    ensures
        with_number(insert_by_number(sorted, rule), number) == (if rule.rule_number == number {
            with_number(sorted, number).push(rule)
        } else {
            with_number(sorted, number)
        }),
    decreases sorted.len(),
{
    let result = insert_by_number(sorted, rule);
    if sorted.len() > 0 && sorted.last().rule_number > rule.rule_number {
        lemma_insert_with_number(sorted.drop_last(), rule, number);
        assert(result.drop_last() =~= insert_by_number(sorted.drop_last(), rule));
    } else {
        assert(result.drop_last() =~= sorted);
    }
}

/// Rules with the same number stay in the order in which they were given.
pub proof fn law_by_number_is_stable(
    rules: Seq<crate::domain::rule::NaclRuleView>,
    number: u16,
)
    ensures
        with_number(by_number(rules), number) == with_number(rules, number),
    decreases rules.len(),
{
    if rules.len() > 0 {
        law_by_number_is_stable(rules.drop_last(), number);
        lemma_insert_with_number(by_number(rules.drop_last()), rules.last(), number);
    }
}

fn insert_rule(sorted: &mut Vec<NaclRule>, rule: NaclRule)
    ensures
        final(sorted).deep_view() == insert_by_number(old(sorted).deep_view(), rule.deep_view()),
{
    let ghost model = sorted.deep_view();
    let ghost inserted = rule.deep_view();
    let mut k: usize = sorted.len();
    assert(model.take(k as int) =~= model);
    assert(insert_by_number(model, inserted) =~= insert_by_number(model.take(k as int), inserted)
        + model.skip(k as int));
    while k > 0 && sorted[k - 1].rule_number > rule.rule_number
        invariant
            0 <= k <= sorted@.len(),
            model == sorted.deep_view(),
            inserted == rule.deep_view(),
            insert_by_number(model, inserted) == insert_by_number(model.take(k as int), inserted)
                + model.skip(k as int),
        decreases k,
    {
        proof {
            let part = model.take(k as int);
            assert(part.last() == sorted@[k - 1].deep_view());
            assert(part.drop_last() =~= model.take(k - 1));
            assert(insert_by_number(part, inserted) + model.skip(k as int) =~= insert_by_number(
                model.take(k - 1),
                inserted,
            ) + model.skip(k - 1));
        }
        k = k - 1;
    }
    proof {
        let part = model.take(k as int);
        if k > 0 {
            assert(part.last() == sorted@[k - 1].deep_view());
        }
        assert(insert_by_number(part, inserted) == part.push(inserted));
    }
    sorted.insert(k, rule);
    assert(sorted.deep_view() =~= model.take(k as int).push(inserted) + model.skip(k as int));
}

/// `rules` in evaluation order.
pub fn sort_by_number(rules: &Vec<NaclRule>) -> (sorted: Vec<NaclRule>)
    ensures
        sorted.deep_view() == by_number(rules.deep_view()),
{
    let ghost model = rules.deep_view();
    let mut sorted: Vec<NaclRule> = Vec::new();
    let mut i: usize = 0;
    assert(sorted.deep_view() =~= Seq::empty());
    assert(model.take(0) =~= Seq::empty());
    while i < rules.len()
        invariant
            0 <= i <= rules@.len(),
            model == rules.deep_view(),
            sorted.deep_view() == by_number(model.take(i as int)),
        decreases rules@.len() - i,
    {
        assert(model.take(i + 1).drop_last() =~= model.take(i as int));
        assert(model.take(i + 1).last() == rules@[i as int].deep_view());
        insert_rule(&mut sorted, rules[i].clone());
        i = i + 1;
    }
    assert(model.take(i as int) =~= model);
    sorted
}

} // verus!
