//! Collecting what the `Describe*` calls list.
//!
//! Each call lists at most one page. What the first page alone holds would make
//! a graph that looks sound and is wrong by omission, so that every page counts.
use vstd::prelude::*;

use crate::error::IngestError;

verus! {

/// What the pages before `end` hold, in order.
pub open spec fn all_items<T>(pages: Seq<Result<Vec<T>, anyhow::Error>>, end: int) -> Seq<T>
    decreases end,
{
    if end <= 0 {
        Seq::empty()
    } else {
        all_items(pages, end - 1) + pages[end - 1]->Ok_0@
    }
}

/// Whether the page at `at` is the first that could not be had.
pub open spec fn is_first_failure<T>(pages: Seq<Result<Vec<T>, anyhow::Error>>, at: int) -> bool {
    &&& 0 <= at < pages.len()
    &&& pages[at] is Err
    &&& forall|i: int| 0 <= i < at ==> (#[trigger] pages[i]) is Ok
}

/// Puts the pages of one call together. A page that could not be had fails the
/// whole: a part of what there is stands for nothing.
pub fn drain_pages<T>(operation: &'static str, pages: Vec<Result<Vec<T>, anyhow::Error>>) -> (items: Result<
    Vec<T>,
    IngestError,
>)
    ensures
        items is Ok <==> forall|i: int| 0 <= i < pages@.len() ==> (#[trigger] pages@[i]) is Ok,
        items matches Ok(all) ==> all@ == all_items(pages@, pages@.len() as int),
        items matches Err(error) ==> exists|i: int|
            is_first_failure(pages@, i) && error == (IngestError::Describe {
                operation,
                source: (#[trigger] pages@[i])->Err_0,
            }),
{
    let ghost given = pages@;
    let mut items: Vec<T> = Vec::new();
    for page in it: pages
        invariant
            it.seq() == given,
            given == pages@,
            forall|i: int| 0 <= i < it.index() ==> (#[trigger] given[i]) is Ok,
            items@ == all_items(given, it.index() as int),
    {
        assert(page == given[it.index() as int]);
        match page {
            Ok(mut more) => {
                items.append(&mut more);
                assert(all_items(given, it.index() + 1) == all_items(given, it.index() as int)
                    + given[it.index() as int]->Ok_0@);
            },
            Err(source) => {
                assert(is_first_failure(given, it.index() as int));
                return Err(IngestError::Describe { operation, source });
            },
        }
    }
    Ok(items)
}

} // verus!
