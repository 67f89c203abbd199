//! What an AWS client is built with: its region, its patience, and the account
//! that it works for.
use vstd::prelude::*;

use crate::error::{ErrorSource, IngestError};

verus! {

/// How often a call is tried before it counts as failed.
pub const MAX_ATTEMPTS: u32 = 8;

/// Seconds that one try of a call may take.
pub const ATTEMPT_TIMEOUT_SECS: u64 = 20;

/// The first of `sources` that names a region, which an empty text does not.
pub open spec fn first_region(sources: Seq<Option<Seq<char>>>) -> Option<Seq<char>>
    decreases sources.len(),
{
    if sources.len() == 0 {
        None
    } else if names_region(sources[0]) {
        sources[0]
    } else {
        first_region(sources.skip(1))
    }
}

/// The region to work in: the first that is named explicitly, in `AWS_REGION`,
/// in `AWS_DEFAULT_REGION` or in the profile. An empty text names none.
pub fn resolve_region(
    explicit: Option<&str>,
    aws_region_env: Option<&str>,
    aws_default_region_env: Option<&str>,
    profile_region: Option<&str>,
) -> (region: Option<String>)
    ensures
        region.deep_view() == first_region(
            seq![
                explicit.deep_view(),
                aws_region_env.deep_view(),
                aws_default_region_env.deep_view(),
                profile_region.deep_view(),
            ],
        ),
{
    proof {
        let a = explicit.deep_view();
        let b = aws_region_env.deep_view();
        let c = aws_default_region_env.deep_view();
        let d = profile_region.deep_view();
        assert(seq![a, b, c, d].skip(1) =~= seq![b, c, d]);
        assert(seq![b, c, d].skip(1) =~= seq![c, d]);
        assert(seq![c, d].skip(1) =~= seq![d]);
        assert(seq![d].skip(1) =~= Seq::empty());
        reveal_with_fuel(first_region, 6);
    }
    if let Some(region) = named(explicit) {
        return Some(region);
    }
    if let Some(region) = named(aws_region_env) {
        return Some(region);
    }
    if let Some(region) = named(aws_default_region_env) {
        return Some(region);
    }
    named(profile_region)
}

fn named(source: Option<&str>) -> (region: Option<String>)
    ensures
        region.deep_view() == (if source.deep_view() is Some && source.deep_view()->0.len() > 0 {
            source.deep_view()
        } else {
            None
        }),
{
    match source {
        Some(text) => {
            let region = text.to_string();
            if crate::text::same_text(text, "") {
                proof {
                    reveal_strlit("");
                }
                None
            } else {
                proof {
                    reveal_strlit("");
                    if text@.len() == 0 {
                        assert(text@ =~= ""@);
                    }
                }
                Some(region)
            }
        },
        None => None,
    }
}

/// Whether a source names a region.
pub open spec fn names_region(source: Option<Seq<char>>) -> bool {
    source is Some && source->0.len() > 0
}

/// A region is never made up: it is the one that the first source that names
/// any names, and there is none only where no source names one.
pub proof fn law_region_is_never_made_up(sources: Seq<Option<Seq<char>>>)
    ensures
        match first_region(sources) {
            Some(region) => exists|i: int|
                0 <= i < sources.len() && sources[i] == Some(region) && names_region(
                    #[trigger] sources[i],
                ) && forall|j: int| 0 <= j < i ==> !names_region(#[trigger] sources[j]),
            None => forall|i: int|
                0 <= i < sources.len() ==> !names_region(#[trigger] sources[i]),
        },
    decreases sources.len(),
{
    if sources.len() > 0 {
        let rest = sources.skip(1);
        if names_region(sources[0]) {
            assert(names_region(sources[0]));
        } else {
            law_region_is_never_made_up(rest);
            assert forall|i: int| 0 <= i < rest.len() implies rest[i] == #[trigger] sources[i + 1] by {
            }
            match first_region(sources) {
                Some(region) => {
                    let k = choose|k: int|
                        0 <= k < rest.len() && rest[k] == Some(region) && names_region(
                            #[trigger] rest[k],
                        ) && forall|j: int| 0 <= j < k ==> !names_region(#[trigger] rest[j]);
                    assert(sources[k + 1] == rest[k]);
                    assert forall|j: int| 0 <= j < k + 1 implies !names_region(
                        #[trigger] sources[j],
                    ) by {
                        if j > 0 {
                            assert(sources[j] == rest[j - 1]);
                        }
                    }
                    assert(names_region(sources[k + 1]));
                },
                None => {
                    assert forall|i: int| 0 <= i < sources.len() implies !names_region(
                        #[trigger] sources[i],
                    ) by {
                        if i > 0 {
                            assert(sources[i] == rest[i - 1]);
                        }
                    }
                },
            }
        }
    }
}

/// A source that names no region never changes which one is worked in.
pub proof fn law_unnamed_source_is_passed_over(
    before: Seq<Option<Seq<char>>>,
    unnamed: Option<Seq<char>>,
    after: Seq<Option<Seq<char>>>,
)
    requires
        unnamed is None || unnamed->0.len() == 0,
    ensures
        first_region(before.push(unnamed) + after) == first_region(before + after),
    decreases before.len(),
{
    let with = before.push(unnamed) + after;
    let plain = before + after;
    if before.len() == 0 {
        assert(with[0] == unnamed);
        assert(with.skip(1) =~= after);
        assert(plain =~= after);
    } else {
        law_unnamed_source_is_passed_over(before.skip(1), unnamed, after);
        assert(with[0] == before[0]);
        assert(plain[0] == before[0]);
        assert(with.skip(1) =~= before.skip(1).push(unnamed) + after);
        assert(plain.skip(1) =~= before.skip(1) + after);
    }
}

/// The region to work in, or the error of there being none.
pub fn require_region(region: Option<String>) -> (required: Result<String, IngestError>)
    ensures
        required is Ok <==> region is Some,
        required matches Ok(name) ==> name == region->0,
        required matches Err(error) ==> error is RegionNotResolved,
{
    match region {
        Some(name) => Ok(name),
        None => Err(IngestError::RegionNotResolved),
    }
}

/// The account id that the identity service gave, or the error of its having
/// given none.
pub fn require_account_id(account: Option<String>) -> (required: Result<String, IngestError>)
    ensures
        required is Ok <==> account is Some,
        required matches Ok(id) ==> id == account->0,
        required matches Err(error) ==> (error matches IngestError::AccountIdResolution { source }
            && (source matches ErrorSource::Message(text) && text@
            == "GetCallerIdentity response had no account field"@)),
{
    match account {
        Some(id) => Ok(id),
        None => Err(
            IngestError::AccountIdResolution {
                source: ErrorSource::Message(
                    "GetCallerIdentity response had no account field".to_string(),
                ),
            },
        ),
    }
}

} // verus!
