//! What the engine decides for a caller's request before any store or
//! provider is asked: how many results, in which mode, and which provider
//! an id belongs to.

use vstd::prelude::*;
use vstd::string::StringExecFns;
use crate::config::SourceKind;
use crate::index::hybrid::SearchMode;
use crate::text::{eq_ignore_ascii_case, eq_ignoring_ascii_case, starts_with};

verus! {

/// How many results a request gets that names no number.
pub const DEFAULT_RESULTS: u32 = 10;

/// The most results that a search returns.
pub const MAX_RESULTS: u32 = 100;

/// The most records that one request puts into the local index.
pub const MAX_BULK_INDEX: u32 = 50;

/// The number of results for a request: what it asks for, or
/// [`DEFAULT_RESULTS`], and never more than `ceiling`.
pub fn result_cap(requested: Option<u32>, ceiling: u32) -> (cap: u32)
    ensures
        cap == ({
            let wanted = match requested {
                Some(n) => n,
                None => DEFAULT_RESULTS,
            };
            if wanted < ceiling {
                wanted
            } else {
                ceiling
            }
        }),
{
    let wanted = match requested {
        Some(n) => n,
        None => DEFAULT_RESULTS,
    };
    if wanted < ceiling {
        wanted
    } else {
        ceiling
    }
}

/// The mode that a request names: `keyword` and `vector` by name, hybrid
/// for every other name and for none.
pub open spec fn mode_named(name: Option<Seq<char>>) -> SearchMode {
    match name {
        Some(n) => if n == "keyword"@ {
            SearchMode::KeywordOnly
        } else if n == "vector"@ {
            SearchMode::VectorOnly
        } else {
            SearchMode::Hybrid
        },
        None => SearchMode::Hybrid,
    }
}

/// Reads the search mode of a request.
pub fn search_mode(name: Option<&str>) -> (mode: SearchMode)
    ensures
        mode == mode_named(
            match name {
                Some(n) => Some(n@),
                None => None,
            },
        ),
{
    match name {
        Some(n) => {
            let n = String::from_str(n);
            if n == String::from_str("keyword") {
                SearchMode::KeywordOnly
            } else if n == String::from_str("vector") {
                SearchMode::VectorOnly
            } else {
                SearchMode::Hybrid
            }
        },
        None => SearchMode::Hybrid,
    }
}

/// The provider whose ids begin as `id` does, if there is one.
pub open spec fn provider_of(id: Seq<char>) -> Option<SourceKind> {
    if "arxiv:"@.is_prefix_of(id) {
        Some(SourceKind::Arxiv)
    } else if "inspire:"@.is_prefix_of(id) {
        Some(SourceKind::Inspire)
    } else if "s2:"@.is_prefix_of(id) {
        Some(SourceKind::SemanticScholar)
    } else if "ads:"@.is_prefix_of(id) {
        Some(SourceKind::Ads)
    } else if "doi:"@.is_prefix_of(id) {
        Some(SourceKind::CrossRef)
    } else if "pmid:"@.is_prefix_of(id) {
        Some(SourceKind::EuropePmc)
    } else if "doaj:"@.is_prefix_of(id) {
        Some(SourceKind::Doaj)
    } else if "vixra:"@.is_prefix_of(id) {
        Some(SourceKind::Vixra)
    } else if "openalex:"@.is_prefix_of(id) {
        Some(SourceKind::OpenAlex)
    } else {
        None
    }
}

/// Tells from the prefix of an id which provider it belongs to.
pub fn source_for_id(id: &str) -> (kind: Option<SourceKind>)
    ensures
        kind == provider_of(id@),
{
    if starts_with(id, "arxiv:") {
        Some(SourceKind::Arxiv)
    } else if starts_with(id, "inspire:") {
        Some(SourceKind::Inspire)
    } else if starts_with(id, "s2:") {
        Some(SourceKind::SemanticScholar)
    } else if starts_with(id, "ads:") {
        Some(SourceKind::Ads)
    } else if starts_with(id, "doi:") {
        Some(SourceKind::CrossRef)
    } else if starts_with(id, "pmid:") {
        Some(SourceKind::EuropePmc)
    } else if starts_with(id, "doaj:") {
        Some(SourceKind::Doaj)
    } else if starts_with(id, "vixra:") {
        Some(SourceKind::Vixra)
    } else if starts_with(id, "openalex:") {
        Some(SourceKind::OpenAlex)
    } else {
        None
    }
}

/// The name of the provider to ask for an id: the one the request names,
/// else the one the id's prefix names, else none, which means all.
pub open spec fn target_of(named: Option<Seq<char>>, id: Seq<char>) -> Option<Seq<char>> {
    match named {
        Some(name) => Some(name),
        None => match provider_of(id) {
            Some(kind) => Some(kind.name_text()),
            None => None,
        },
    }
}

/// Picks the provider to ask for an id.
pub fn target_source(named: Option<&str>, id: &str) -> (target: Option<String>)
    ensures
        crate::apis::opt_text(target) == target_of(
            match named {
                Some(n) => Some(n@),
                None => None,
            },
            id@,
        ),
{
    match named {
        Some(name) => Some(String::from_str(name)),
        None => match source_for_id(id) {
            Some(kind) => Some(String::from_str(kind.name())),
            None => None,
        },
    }
}

/// Whether a provider of this name is asked: always without a target,
/// else when it is the target, letter case aside.
pub open spec fn is_asked(name: Seq<char>, target: Option<Seq<char>>) -> bool {
    match target {
        Some(t) => eq_ignoring_ascii_case(name, t),
        None => true,
    }
}

/// The providers to ask for an id, by position in `names`, in the order
/// in which they are asked: those that are the target, or all without one.
pub fn lookup_order(names: &Vec<String>, target: Option<&str>) -> (order: Vec<usize>)
    ensures
        forall|k: int|
            0 <= k < order@.len() ==> (#[trigger] order@[k]) < names@.len() && is_asked(
                names@[order@[k] as int]@,
                match target {
                    Some(t) => Some(t@),
                    None => None,
                },
            ),
        forall|i: int|
            0 <= i < names@.len() && is_asked(
                (#[trigger] names@[i])@,
                match target {
                    Some(t) => Some(t@),
                    None => None,
                },
            ) ==> order@.contains(i as usize),
        forall|k: int, l: int| 0 <= k < l < order@.len() ==> order@[k] < order@[l],
{
    let ghost wanted: Option<Seq<char>> = match target {
        Some(t) => Some(t@),
        None => None,
    };
    let mut order: Vec<usize> = Vec::new();
    let mut i: usize = 0;
    while i < names.len()
        invariant
            wanted == match target {
                Some(t) => Some(t@),
                None => None::<Seq<char>>,
            },
            0 <= i <= names@.len(),
            forall|k: int|
                0 <= k < order@.len() ==> (#[trigger] order@[k]) < i && is_asked(
                    names@[order@[k] as int]@,
                    wanted,
                ),
            forall|n: int|
                0 <= n < i && is_asked((#[trigger] names@[n])@, wanted) ==> order@.contains(
                    n as usize,
                ),
            forall|k: int, l: int| 0 <= k < l < order@.len() ==> order@[k] < order@[l],
        decreases names@.len() - i,
    {
        let asked = match target {
            Some(t) => eq_ignore_ascii_case(names[i].as_str(), t),
            None => true,
        };
        if asked {
            let ghost before = order@;
            order.push(i);
            proof {
                assert(order@[before.len() as int] == i);
                assert forall|n: int|
                    0 <= n < i + 1 && is_asked((#[trigger] names@[n])@, wanted) implies order@.contains(
                    n as usize,
                ) by {
                    if n < i {
                        let k = choose|k: int| 0 <= k < before.len() && before[k] == n as usize;
                        assert(order@[k] == n as usize);
                    }
                }
            }
        }
        i += 1;
    }
    order
}

} // verus!
