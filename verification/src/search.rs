//! The merge step of a federated search: which providers to ask and for how
//! much, and how their answers become one deduplicated, ranked list.

use vstd::prelude::*;
use crate::apis::{opt_text, PaperResult, PaperView, SourceError};
use crate::ranking::{
    all_comparable, drop_keys, lemma_ranked_entries_are_given, lemma_ranked_in_order,
    lemma_ranked_keeps_entries_apart, lemma_ranked_len, lemma_ranked_pair, rank_entries, ranked,
    without_keys, RankKey,
};
use crate::text::{
    char_is_alphanumeric, char_is_whitespace, edit_distance, eq_ignore_ascii_case,
    eq_ignoring_ascii_case, is_alphanumeric_char, is_whitespace_char, lemma_distance_symmetric,
    lemma_distance_to_self, levenshtein_distance, lowercase, lowercase_of, push_char,
};

verus! {

/// No provider is asked for fewer records than this.
pub const MIN_FETCH_QUOTA: u32 = 5;

/// Two normalized titles closer than this many edits name the same paper.
pub const TITLE_DISTANCE_LIMIT: usize = 5;

/// How many filled fields a record has, the weightier ones counted twice.
pub open spec fn richness(p: PaperView) -> nat {
    (if p.title.len() > 0 { 1nat } else { 0nat })
        + (if p.authors.len() > 0 { 1nat } else { 0nat })
        + (if p.abstract_text is Some { 2nat } else { 0nat })
        + (if p.year is Some { 1nat } else { 0nat })
        + (if p.doi is Some { 2nat } else { 0nat })
        + (if p.citation_count is Some { 1nat } else { 0nat })
        + (if p.pdf_url is Some { 1nat } else { 0nat })
}

/// Scores how complete a record's metadata is; higher is more complete.
pub fn metadata_score(p: &PaperResult) -> (score: u32)
    ensures
        score == richness(p@),
        score <= 9,
{
    let mut score: u32 = 0;
    if !p.title.as_str().is_empty() {
        score += 1;
    }
    if !p.authors.is_empty() {
        score += 1;
    }
    if p.abstract_text.is_some() {
        score += 2;
    }
    if p.year.is_some() {
        score += 1;
    }
    if p.doi.is_some() {
        score += 2;
    }
    if p.citation_count.is_some() {
        score += 1;
    }
    if p.pdf_url.is_some() {
        score += 1;
    }
    score
}

/// Whether a character survives title normalization.
pub open spec fn is_title_char(c: char) -> bool {
    is_alphanumeric_char(c) || is_whitespace_char(c)
}

/// The characters of `s` that are letters, digits or whitespace.
pub open spec fn title_chars(s: Seq<char>) -> Seq<char> {
    s.filter(|c: char| is_title_char(c))
}

/// The words of `s` joined by single spaces: whitespace at either end is
/// gone and every run of whitespace between two words is one space.
pub open spec fn collapse_whitespace(s: Seq<char>) -> Seq<char>
    decreases s.len(),
{
    if s.len() == 0 {
        Seq::empty()
    } else {
        let head = s.drop_last();
        let words = collapse_whitespace(head);
        if is_whitespace_char(s.last()) {
            words
        } else if words.len() > 0 && is_whitespace_char(head.last()) {
            words.push(' ').push(s.last())
        } else {
            words.push(s.last())
        }
    }
}

/// A title as it is compared: lowercase, punctuation gone, whitespace
/// collapsed.
pub open spec fn normalized_title(title: Seq<char>) -> Seq<char> {
    collapse_whitespace(title_chars(lowercase_of(title)))
}

/// Normalizes a title for comparison.
pub fn normalize_title(title: &str) -> (normalized: String)
    ensures
        normalized@ == normalized_title(title@),
{
    let lower = lowercase(title);
    let ghost text = lower@;
    let mut out = String::new();
    let mut started = false;
    let mut after_space = false;
    proof {
        assert(text.take(0) =~= Seq::<char>::empty());
    }
    for c in it: lower.as_str().chars()
        invariant
            it.seq() == text,
            out@ == collapse_whitespace(title_chars(text.take(it.index() as int))),
            started == (out@.len() > 0),
            after_space == ({
                let kept = title_chars(text.take(it.index() as int));
                kept.len() > 0 && is_whitespace_char(kept.last())
            }),
    {
        let ghost i = it.index() as int;
        let ghost kept = title_chars(text.take(i));
        proof {
            assert(text.take(i + 1) =~= text.take(i).push(c));
            text.take(i).lemma_filter_push(c, |c: char| is_title_char(c));
        }
        let space = char_is_whitespace(c);
        if space || char_is_alphanumeric(c) {
            proof {
                assert(title_chars(text.take(i + 1)) == kept.push(c));
                assert(kept.push(c).drop_last() =~= kept);
            }
            if !space {
                if started && after_space {
                    push_char(&mut out, ' ');
                }
                push_char(&mut out, c);
                started = true;
            }
            after_space = space;
        }
    }
    proof {
        assert(text.take(text.len() as int) =~= text);
    }
    out
}

/// The key under which two records count as the same by DOI, if the record
/// has a DOI.
pub open spec fn doi_key(p: PaperView) -> Option<Seq<char>> {
    match p.doi {
        Some(doi) => Some(lowercase_of(doi)),
        None => None,
    }
}

/// The order of the final list: citations first, then year, a missing
/// value counting as zero.
pub open spec fn citation_key(p: PaperView) -> (u32, u32) {
    (
        match p.citation_count {
            Some(c) => c,
            None => 0u32,
        },
        match p.year {
            Some(y) => y,
            None => 0u32,
        },
    )
}

/// Whether `p` repeats a record already kept: by DOI if `p` has one, else
/// by a title within [`TITLE_DISTANCE_LIMIT`] edits of a kept title.
pub open spec fn repeats_kept(kept: Seq<PaperResult>, p: PaperResult) -> bool {
    match doi_key(p@) {
        Some(doi) => exists|i: int| 0 <= i < kept.len() && doi_key(#[trigger] kept[i]@) == Some(doi),
        None => exists|i: int|
            0 <= i < kept.len() && levenshtein_distance(
                normalized_title(p@.title),
                normalized_title(#[trigger] kept[i]@.title),
            ) < TITLE_DISTANCE_LIMIT,
    }
}

/// The records of `s` that survive a walk from the front in which a record
/// is dropped when it repeats one kept before it.
pub open spec fn deduplicated(s: Seq<PaperResult>) -> Seq<PaperResult>
    decreases s.len(),
{
    if s.len() == 0 {
        s
    } else {
        let kept = deduplicated(s.drop_last());
        if repeats_kept(kept, s.last()) {
            kept
        } else {
            kept.push(s.last())
        }
    }
}

/// Each record paired with its richness.
pub open spec fn keyed_by_richness(s: Seq<PaperResult>) -> Seq<(u32, PaperResult)> {
    s.map_values(|p: PaperResult| (richness(p@) as u32, p))
}

/// Each record paired with its citation key.
pub open spec fn keyed_by_citations(s: Seq<PaperResult>) -> Seq<((u32, u32), PaperResult)> {
    s.map_values(|p: PaperResult| (citation_key(p@), p))
}

/// The records with the richest metadata first, equals in their given
/// order.
pub open spec fn richest_first(s: Seq<PaperResult>) -> Seq<PaperResult> {
    without_keys(ranked(keyed_by_richness(s)))
}

/// The records with the most cited first, then the most recent, equals in
/// their given order.
pub open spec fn most_cited_first(s: Seq<PaperResult>) -> Seq<PaperResult> {
    without_keys(ranked(keyed_by_citations(s)))
}

/// The merged list: of each group of duplicates the richest variant, the
/// survivors by citations and year, cut to `limit`.
pub open spec fn merged_ranking(results: Seq<PaperResult>, limit: nat) -> Seq<PaperResult> {
    let all = most_cited_first(deduplicated(richest_first(results)));
    if limit < all.len() {
        all.take(limit as int)
    } else {
        all
    }
}

/// Whether some text in `dois` is `doi`.
fn doi_seen(dois: &Vec<Option<String>>, doi: &String) -> (seen: bool)
    ensures
        seen == exists|i: int| 0 <= i < dois@.len() && opt_text(#[trigger] dois@[i]) == Some(doi@),
{
    let mut i: usize = 0;
    while i < dois.len()
        invariant
            0 <= i <= dois@.len(),
            forall|j: int| 0 <= j < i ==> opt_text(#[trigger] dois@[j]) != Some(doi@),
        decreases dois@.len() - i,
    {
        match &dois[i] {
            Some(d) => {
                if *d == *doi {
                    return true;
                }
            },
            None => {},
        }
        i += 1;
    }
    false
}

/// Whether some text in `titles` lies within the distance limit of `title`.
fn title_seen(titles: &Vec<String>, title: &String) -> (seen: bool)
    ensures
        seen == exists|i: int|
            0 <= i < titles@.len() && levenshtein_distance(title@, #[trigger] titles@[i]@)
                < TITLE_DISTANCE_LIMIT,
{
    let mut i: usize = 0;
    while i < titles.len()
        invariant
            0 <= i <= titles@.len(),
            forall|j: int|
                0 <= j < i ==> levenshtein_distance(title@, #[trigger] titles@[j]@)
                    >= TITLE_DISTANCE_LIMIT,
        decreases titles@.len() - i,
    {
        if edit_distance(title.as_str(), titles[i].as_str()) < TITLE_DISTANCE_LIMIT {
            return true;
        }
        i += 1;
    }
    false
}

/// Deduplicates records by DOI and by title similarity, then ranks them.
///
/// Records are first put in order of metadata richness, so that of several
/// variants of one paper the richest is met first and kept. The survivors
/// are ordered by citations, then year, and the list is cut to `limit`.
pub fn deduplicate_and_rank(results: Vec<PaperResult>, limit: usize) -> (ranked: Vec<PaperResult>)
    ensures
        ranked@ == merged_ranking(results@, limit as nat),
{
    let ghost input = results@;
    let mut keyed: Vec<(u32, PaperResult)> = Vec::new();
    for paper in it: results
        invariant
            it.seq() == input,
            keyed@ =~= keyed_by_richness(input.take(it.index() as int)),
    {
        proof {
            let i = it.index() as int;
            assert(input.take(i + 1) =~= input.take(i).push(paper));
        }
        let score = metadata_score(&paper);
        keyed.push((score, paper));
    }
    proof {
        assert(input.take(input.len() as int) =~= input);
        assert(all_comparable(keyed@));
    }
    let sorted = rank_entries(keyed);
    let ghost rich = richest_first(input);
    assert(rich == without_keys(sorted@));

    let mut kept: Vec<((u32, u32), PaperResult)> = Vec::new();
    let mut kept_dois: Vec<Option<String>> = Vec::new();
    let mut kept_titles: Vec<String> = Vec::new();
    proof {
        assert(rich.take(0) =~= Seq::<PaperResult>::empty());
        assert(without_keys(kept@) =~= Seq::<PaperResult>::empty());
        assert(keyed_by_citations(Seq::<PaperResult>::empty()) =~= kept@);
    }
    for entry in it: sorted
        invariant
            it.seq().len() == rich.len(),
            rich == without_keys(it.seq()),
            without_keys(kept@) == deduplicated(rich.take(it.index() as int)),
            kept@ == keyed_by_citations(without_keys(kept@)),
            kept_dois@.len() == kept@.len(),
            kept_titles@.len() == kept@.len(),
            forall|j: int|
                0 <= j < kept@.len() ==> opt_text(#[trigger] kept_dois@[j]) == doi_key(
                    kept@[j].1@,
                ),
            forall|j: int|
                0 <= j < kept@.len() ==> (#[trigger] kept_titles@[j])@ == normalized_title(
                    kept@[j].1@.title,
                ),
    {
        let ghost i = it.index() as int;
        let ghost before = without_keys(kept@);
        let paper = entry.1;
        proof {
            assert(rich[i] == paper);
            assert(rich.take(i + 1).drop_last() =~= rich.take(i));
            assert(rich.take(i + 1).last() == paper);
            assert(forall|j: int| 0 <= j < kept@.len() ==> before[j] == (#[trigger] kept@[j]).1);
        }
        let doi: Option<String> = match &paper.doi {
            Some(d) => Some(lowercase(d.as_str())),
            None => None,
        };
        let title = normalize_title(paper.title.as_str());
        let repeat = match &doi {
            Some(d) => doi_seen(&kept_dois, d),
            None => title_seen(&kept_titles, &title),
        };
        proof {
            match doi_key(paper@) {
                Some(d) => {
                    if repeat {
                        let j = choose|j: int|
                            0 <= j < kept_dois@.len() && opt_text(#[trigger] kept_dois@[j]) == Some(d);
                        assert(doi_key(before[j]@) == Some(d));
                    } else if repeats_kept(before, paper) {
                        let j = choose|j: int|
                            0 <= j < before.len() && doi_key(#[trigger] before[j]@) == Some(d);
                        assert(opt_text(kept_dois@[j]) == Some(d));
                    }
                },
                None => {
                    if repeat {
                        let j = choose|j: int|
                            0 <= j < kept_titles@.len() && levenshtein_distance(
                                title@,
                                #[trigger] kept_titles@[j]@,
                            ) < TITLE_DISTANCE_LIMIT;
                        assert(normalized_title(before[j]@.title) == kept_titles@[j]@);
                    } else if repeats_kept(before, paper) {
                        let j = choose|j: int|
                            0 <= j < before.len() && levenshtein_distance(
                                normalized_title(paper@.title),
                                normalized_title(#[trigger] before[j]@.title),
                            ) < TITLE_DISTANCE_LIMIT;
                        assert(kept_titles@[j]@ == normalized_title(before[j]@.title));
                    }
                },
            }
            assert(repeat == repeats_kept(before, paper));
        }
        if !repeat {
            let citations = match paper.citation_count {
                Some(c) => c,
                None => 0,
            };
            let year = match paper.year {
                Some(y) => y,
                None => 0,
            };
            kept.push(((citations, year), paper));
            kept_dois.push(doi);
            kept_titles.push(title);
            proof {
                assert(without_keys(kept@) =~= before.push(paper));
                assert(kept@ =~= keyed_by_citations(without_keys(kept@)));
            }
        }
    }
    proof {
        assert(rich.take(rich.len() as int) =~= rich);
        assert(all_comparable(kept@));
    }
    let ordered = rank_entries(kept);
    let mut ranked = drop_keys(ordered);
    ranked.truncate(limit);
    ranked
}

/// Whether a provider of this name takes part: always without a filter,
/// else when the filter names it, letter case aside.
pub open spec fn source_selected(name: Seq<char>, filter: Option<&Vec<String>>) -> bool {
    match filter {
        None => true,
        Some(wanted) => named_in(wanted@, name),
    }
}

/// Whether one of `wanted` is `name`, letter case aside.
pub open spec fn named_in(wanted: Seq<String>, name: Seq<char>) -> bool {
    exists|j: int| 0 <= j < wanted.len() && eq_ignoring_ascii_case((#[trigger] wanted[j])@, name)
}

/// Whether the filter names the provider.
fn is_selected(name: &String, filter: Option<&Vec<String>>) -> (selected: bool)
    ensures
        selected == source_selected(name@, filter),
{
    match filter {
        None => true,
        Some(wanted) => {
            let mut j: usize = 0;
            while j < wanted.len()
                invariant
                    filter == Some(wanted),
                    0 <= j <= wanted@.len(),
                    forall|k: int|
                        0 <= k < j ==> !eq_ignoring_ascii_case((#[trigger] wanted@[k])@, name@),
                decreases wanted@.len() - j,
            {
                if eq_ignore_ascii_case(wanted[j].as_str(), name.as_str()) {
                    assert(eq_ignoring_ascii_case(wanted@[j as int]@, name@));
                    return true;
                }
                j += 1;
            }
            false
        },
    }
}

/// Picks the providers that take part in a search, by position in `names`.
///
/// The positions come out in rising order, and a position is among them
/// exactly when the filter selects its name.
pub fn select_sources(names: &Vec<String>, filter: Option<&Vec<String>>) -> (active: Vec<usize>)
    ensures
        forall|k: int|
            0 <= k < active@.len() ==> (#[trigger] active@[k]) < names@.len() && source_selected(
                names@[active@[k] as int]@,
                filter,
            ),
        forall|i: int|
            0 <= i < names@.len() && source_selected((#[trigger] names@[i])@, filter)
                ==> active@.contains(i as usize),
        forall|k: int, l: int| 0 <= k < l < active@.len() ==> active@[k] < active@[l],
{
    let mut active: Vec<usize> = Vec::new();
    let mut i: usize = 0;
    while i < names.len()
        invariant
            0 <= i <= names@.len(),
            forall|k: int|
                0 <= k < active@.len() ==> (#[trigger] active@[k]) < i && source_selected(
                    names@[active@[k] as int]@,
                    filter,
                ),
            forall|n: int|
                0 <= n < i && source_selected((#[trigger] names@[n])@, filter)
                    ==> active@.contains(n as usize),
            forall|k: int, l: int| 0 <= k < l < active@.len() ==> active@[k] < active@[l],
        decreases names@.len() - i,
    {
        if is_selected(&names[i], filter) {
            let ghost before = active@;
            active.push(i);
            proof {
                assert(active@[before.len() as int] == i);
                assert forall|n: int|
                    0 <= n < i + 1 && source_selected(
                        (#[trigger] names@[n])@,
                        filter,
                    ) implies active@.contains(n as usize) by {
                    if n < i {
                        let k = choose|k: int| 0 <= k < before.len() && before[k] == n as usize;
                        assert(active@[k] == n as usize);
                    }
                }
            }
        }
        i += 1;
    }
    active
}

/// How many records each of `active` providers is asked for: twice the cap
/// shared out among them, and never fewer than [`MIN_FETCH_QUOTA`], so that
/// enough is left after duplicates are gone.
pub fn per_source_quota(max_results: u32, active: usize) -> (quota: u32)
    requires
        active > 0,
        2 * max_results <= u32::MAX,
    ensures
        quota == if 2 * max_results / (active as int) < MIN_FETCH_QUOTA {
            MIN_FETCH_QUOTA as int
        } else {
            2 * max_results / (active as int)
        },
{
    let doubled: u64 = 2 * (max_results as u64);
    let share: u64 = doubled / (active as u64);
    if share < MIN_FETCH_QUOTA as u64 {
        MIN_FETCH_QUOTA
    } else {
        share as u32
    }
}

/// What came back from one provider.
pub enum ProviderOutcome {
    /// The provider answered with these records.
    Records(Vec<PaperResult>),
    /// The provider reported an error.
    Failed(SourceError),
    /// The provider's task ended without an answer.
    Aborted,
}

/// The records that one outcome adds to a search: those it carries, none
/// for a failure.
pub open spec fn contribution(outcome: ProviderOutcome) -> Seq<PaperResult> {
    match outcome {
        ProviderOutcome::Records(records) => records@,
        _ => Seq::empty(),
    }
}

/// All records of the outcomes, provider after provider.
pub open spec fn gathered(outcomes: Seq<ProviderOutcome>) -> Seq<PaperResult>
    decreases outcomes.len(),
{
    if outcomes.len() == 0 {
        Seq::empty()
    } else {
        gathered(outcomes.drop_last()) + contribution(outcomes.last())
    }
}

/// Puts the records of all providers that answered into one list; a
/// provider that failed adds nothing and stops nothing.
pub fn gather_records(outcomes: Vec<ProviderOutcome>) -> (all: Vec<PaperResult>)
    ensures
        all@ == gathered(outcomes@),
{
    let ghost input = outcomes@;
    let mut all: Vec<PaperResult> = Vec::new();
    proof {
        assert(input.take(0) =~= Seq::<ProviderOutcome>::empty());
    }
    for outcome in it: outcomes
        invariant
            it.seq() == input,
            all@ == gathered(input.take(it.index() as int)),
    {
        proof {
            let i = it.index() as int;
            assert(input.take(i + 1).drop_last() =~= input.take(i));
            assert(input.take(i + 1).last() == outcome);
        }
        match outcome {
            ProviderOutcome::Records(mut records) => {
                all.append(&mut records);
            },
            ProviderOutcome::Failed(_) => {
                assert(all@ + Seq::<PaperResult>::empty() =~= all@);
            },
            ProviderOutcome::Aborted => {
                assert(all@ + Seq::<PaperResult>::empty() =~= all@);
            },
        }
    }
    proof {
        assert(input.take(input.len() as int) =~= input);
    }
    all
}

/// The result of a federated search from what its providers returned: all
/// records that came back, deduplicated, ranked and cut to `max_results`.
pub fn merge_outcomes(outcomes: Vec<ProviderOutcome>, max_results: u32) -> (ranked: Vec<
    PaperResult,
>)
    ensures
        ranked@ == merged_ranking(gathered(outcomes@), max_results as nat),
{
    deduplicate_and_rank(gather_records(outcomes), max_results as usize)
}

/// A provider that failed changes nothing: the gathered records are those
/// of the other providers, as if it had not been asked.
pub proof fn lemma_failure_contributes_nothing(outcomes: Seq<ProviderOutcome>, i: int)
    requires
        0 <= i < outcomes.len(),
        !(outcomes[i] is Records),
    ensures
        gathered(outcomes) == gathered(outcomes.remove(i)),
    decreases outcomes.len(),
{
    let head = outcomes.drop_last();
    if i == outcomes.len() - 1 {
        assert(outcomes.remove(i) =~= head);
        assert(gathered(head) + Seq::<PaperResult>::empty() =~= gathered(head));
    } else {
        lemma_failure_contributes_nothing(head, i);
        assert(outcomes.remove(i).drop_last() =~= head.remove(i));
        assert(outcomes.remove(i).last() == outcomes.last());
    }
}

/// Every record that a provider returned is among the gathered records.
pub proof fn lemma_gathered_holds_each_answer(outcomes: Seq<ProviderOutcome>, i: int, k: int)
    requires
        0 <= i < outcomes.len(),
        0 <= k < contribution(outcomes[i]).len(),
    ensures
        gathered(outcomes).contains(contribution(outcomes[i])[k]),
    decreases outcomes.len(),
{
    let head = gathered(outcomes.drop_last());
    let tail = contribution(outcomes.last());
    if i == outcomes.len() - 1 {
        assert((head + tail)[head.len() + k] == tail[k]);
    } else {
        lemma_gathered_holds_each_answer(outcomes.drop_last(), i, k);
        let j = choose|j: int| 0 <= j < head.len() && head[j] == contribution(outcomes[i])[k];
        assert((head + tail)[j] == head[j]);
    }
}

/// Of a list that is not empty the walk keeps at least the first record.
pub proof fn lemma_deduplicated_keeps_first(s: Seq<PaperResult>)
    requires
        s.len() > 0,
    ensures
        deduplicated(s).len() > 0,
        deduplicated(s)[0] == s[0],
    decreases s.len(),
{
    if s.len() == 1 {
        assert(s.drop_last() =~= Seq::<PaperResult>::empty());
        assert(deduplicated(s.drop_last()) =~= Seq::<PaperResult>::empty());
    } else {
        lemma_deduplicated_keeps_first(s.drop_last());
    }
}

/// A search comes out the same whether or not a provider that failed was
/// asked.
pub proof fn lemma_failure_changes_no_result(
    outcomes: Seq<ProviderOutcome>,
    i: int,
    max_results: nat,
)
    requires
        0 <= i < outcomes.len(),
        !(outcomes[i] is Records),
    ensures
        merged_ranking(gathered(outcomes), max_results) == merged_ranking(
            gathered(outcomes.remove(i)),
            max_results,
        ),
{
    lemma_failure_contributes_nothing(outcomes, i);
}

/// A search with room for one result returns one as soon as any provider
/// returned a record, whatever became of the other providers.
pub proof fn lemma_one_answer_suffices(outcomes: Seq<ProviderOutcome>, i: int, max_results: nat)
    requires
        0 <= i < outcomes.len(),
        contribution(outcomes[i]).len() > 0,
        max_results > 0,
    ensures
        merged_ranking(gathered(outcomes), max_results).len() > 0,
{
    lemma_gathered_holds_each_answer(outcomes, i, 0);
    let all = gathered(outcomes);
    assert(all.len() > 0);
    lemma_merged_ranking_len(all, max_results);
}

/// A merged list is as long as the cap allows and never empty when there
/// was a record and room for one.
pub proof fn lemma_merged_ranking_len(results: Seq<PaperResult>, limit: nat)
    ensures
        merged_ranking(results, limit).len() <= limit,
        merged_ranking(results, limit).len() <= results.len(),
        results.len() > 0 && limit > 0 ==> merged_ranking(results, limit).len() > 0,
{
    lemma_ranked_len(keyed_by_richness(results));
    let rich = richest_first(results);
    assert(rich.len() == results.len());
    lemma_deduplicated_len(rich);
    if rich.len() > 0 {
        lemma_deduplicated_keeps_first(rich);
    }
    lemma_ranked_len(keyed_by_citations(deduplicated(rich)));
}

/// The walk never adds a record.
pub proof fn lemma_deduplicated_len(s: Seq<PaperResult>)
    ensures
        deduplicated(s).len() <= s.len(),
    decreases s.len(),
{
    if s.len() > 0 {
        lemma_deduplicated_len(s.drop_last());
    }
}

/// No two records that the walk keeps share a DOI, letter case aside.
pub proof fn lemma_deduplicated_dois_differ(s: Seq<PaperResult>, i: int, j: int)
    requires
        0 <= i < j < deduplicated(s).len(),
        doi_key(deduplicated(s)[i]@) is Some,
    ensures
        doi_key(deduplicated(s)[i]@) != doi_key(deduplicated(s)[j]@),
    decreases s.len(),
{
    let kept = deduplicated(s.drop_last());
    if s.len() > 0 {
        if repeats_kept(kept, s.last()) || j < kept.len() {
            lemma_deduplicated_dois_differ(s.drop_last(), i, j);
        } else {
            assert(deduplicated(s)[j] == s.last());
            assert(deduplicated(s)[i] == kept[i]);
        }
    }
}

/// No record without a DOI that the walk keeps has a title within the
/// distance limit of the title of a record kept before it.
pub proof fn lemma_deduplicated_titles_apart(s: Seq<PaperResult>, i: int, j: int)
    requires
        0 <= i < j < deduplicated(s).len(),
        doi_key(deduplicated(s)[j]@) is None,
    ensures
        levenshtein_distance(
            normalized_title(deduplicated(s)[j]@.title),
            normalized_title(deduplicated(s)[i]@.title),
        ) >= TITLE_DISTANCE_LIMIT,
    decreases s.len(),
{
    let kept = deduplicated(s.drop_last());
    if s.len() > 0 {
        if repeats_kept(kept, s.last()) || j < kept.len() {
            lemma_deduplicated_titles_apart(s.drop_last(), i, j);
        } else {
            assert(deduplicated(s)[j] == s.last());
            assert(deduplicated(s)[i] == kept[i]);
        }
    }
}

/// No two records that the walk keeps are equal.
pub proof fn lemma_deduplicated_records_differ(s: Seq<PaperResult>)
    ensures
        deduplicated(s).no_duplicates(),
{
    let kept = deduplicated(s);
    assert forall|i: int, j: int| 0 <= i < kept.len() && 0 <= j < kept.len() && i != j implies kept[i]
        != kept[j] by {
        let a = if i < j { i } else { j };
        let b = if i < j { j } else { i };
        if doi_key(kept[b]@) is Some {
            if doi_key(kept[a]@) is Some {
                lemma_deduplicated_dois_differ(s, a, b);
            }
        } else {
            lemma_deduplicated_titles_apart(s, a, b);
            lemma_distance_to_self(normalized_title(kept[b]@.title));
        }
    }
}

/// No two records of a merged list share a DOI, letter case aside.
pub proof fn lemma_merged_dois_differ(results: Seq<PaperResult>, limit: nat, i: int, j: int)
    requires
        0 <= i < merged_ranking(results, limit).len(),
        0 <= j < merged_ranking(results, limit).len(),
        i != j,
        doi_key(merged_ranking(results, limit)[i]@) is Some,
    ensures
        doi_key(merged_ranking(results, limit)[i]@) != doi_key(merged_ranking(results, limit)[j]@),
{
    let rich = richest_first(results);
    let kept = deduplicated(rich);
    let keyed = keyed_by_citations(kept);
    let order = ranked(keyed);
    lemma_deduplicated_records_differ(rich);
    assert(keyed.no_duplicates()) by {
        assert forall|a: int, b: int|
            0 <= a < keyed.len() && 0 <= b < keyed.len() && a != b implies keyed[a]
            != keyed[b] by {
            assert(keyed[a].1 == kept[a]);
            assert(keyed[b].1 == kept[b]);
        }
    }
    lemma_ranked_keeps_entries_apart(keyed);
    lemma_ranked_len(keyed);
    lemma_ranked_entries_are_given(keyed, i);
    lemma_ranked_entries_are_given(keyed, j);
    let a = choose|a: int| 0 <= a < keyed.len() && keyed[a] == order[i];
    let b = choose|b: int| 0 <= b < keyed.len() && keyed[b] == order[j];
    assert(order[i] != order[j]);
    assert(a != b);
    assert(most_cited_first(kept)[i] == order[i].1);
    assert(most_cited_first(kept)[j] == order[j].1);
    assert(keyed[a].1 == kept[a]);
    assert(keyed[b].1 == kept[b]);
    if a < b {
        lemma_deduplicated_dois_differ(rich, a, b);
    } else {
        if doi_key(kept[b]@) is Some {
            lemma_deduplicated_dois_differ(rich, b, a);
        }
    }
}

/// Two records with one DOI, letter case aside, collapse to one, and the
/// one with the richer metadata survives, in whichever order they came.
pub proof fn lemma_same_doi_collapses(a: PaperResult, b: PaperResult, limit: nat)
    requires
        doi_key(a@) is Some,
        doi_key(a@) == doi_key(b@),
        richness(a@) > richness(b@),
        limit > 0,
    ensures
        merged_ranking(seq![a, b], limit) == seq![a],
        merged_ranking(seq![b, a], limit) == seq![a],
{
    lemma_pair_collapses(a, b, limit);
}

/// Two records without a DOI whose normalized titles lie within the
/// distance limit collapse to one. The richer survives, or of two equally
/// rich the one that came first.
pub proof fn lemma_near_titles_collapse(a: PaperResult, b: PaperResult, limit: nat)
    requires
        a@.doi is None,
        b@.doi is None,
        levenshtein_distance(normalized_title(a@.title), normalized_title(b@.title))
            < TITLE_DISTANCE_LIMIT,
        richness(a@) >= richness(b@),
        limit > 0,
    ensures
        merged_ranking(seq![a, b], limit) == seq![a],
        richness(a@) > richness(b@) ==> merged_ranking(seq![b, a], limit) == seq![a],
        richness(a@) == richness(b@) ==> merged_ranking(seq![b, a], limit) == seq![b],
{
    lemma_distance_symmetric(normalized_title(a@.title), normalized_title(b@.title));
    lemma_pair_collapses(a, b, limit);
    if richness(a@) == richness(b@) {
        lemma_pair_collapses(b, a, limit);
    }
}

/// Two records without a DOI whose titles are the same once normalized,
/// as titles are that differ in letter case and punctuation alone,
/// collapse to one.
pub proof fn lemma_same_title_collapses(a: PaperResult, b: PaperResult, limit: nat)
    requires
        a@.doi is None,
        b@.doi is None,
        normalized_title(a@.title) == normalized_title(b@.title),
        richness(a@) >= richness(b@),
        limit > 0,
    ensures
        merged_ranking(seq![a, b], limit) == seq![a],
        richness(a@) > richness(b@) ==> merged_ranking(seq![b, a], limit) == seq![a],
        richness(a@) == richness(b@) ==> merged_ranking(seq![b, a], limit) == seq![b],
{
    lemma_distance_to_self(normalized_title(a@.title));
    lemma_near_titles_collapse(a, b, limit);
}

/// A merged list is in order: no record has more citations than one
/// before it, nor as many and a later year.
pub proof fn lemma_merged_ranking_in_order(results: Seq<PaperResult>, limit: nat, i: int, j: int)
    requires
        0 <= i < j < merged_ranking(results, limit).len(),
    ensures
        !citation_key(merged_ranking(results, limit)[j]@).outranks(
            &citation_key(merged_ranking(results, limit)[i]@),
        ),
{
    let kept = deduplicated(richest_first(results));
    let keyed = keyed_by_citations(kept);
    let order = ranked(keyed);
    lemma_ranked_in_order(keyed);
    lemma_ranked_len(keyed);
    lemma_ranked_entries_are_given(keyed, i);
    lemma_ranked_entries_are_given(keyed, j);
    let a = choose|a: int| 0 <= a < keyed.len() && keyed[a] == order[i];
    let b = choose|b: int| 0 <= b < keyed.len() && keyed[b] == order[j];
    assert(order[i].0 == citation_key(order[i].1@));
    assert(order[j].0 == citation_key(order[j].1@));
    assert(!order[j].0.outranks(&order[i].0));
    assert(most_cited_first(kept)[i] == order[i].1);
    assert(most_cited_first(kept)[j] == order[j].1);
}

/// Whether each of two records repeats the other when the other is kept.
pub open spec fn mutual_repeats(a: PaperResult, b: PaperResult) -> bool {
    repeats_kept(seq![a], b) && repeats_kept(seq![b], a)
}

/// Of two records that repeat each other only `a` is kept when `a` is at
/// least as rich as `b` and comes first, or is richer.
proof fn lemma_pair_collapses(a: PaperResult, b: PaperResult, limit: nat)
    requires
        limit > 0,
        richness(a@) >= richness(b@),
        (doi_key(a@) is Some && doi_key(a@) == doi_key(b@)) || (a@.doi is None && b@.doi is None
            && levenshtein_distance(normalized_title(b@.title), normalized_title(a@.title))
            < TITLE_DISTANCE_LIMIT),
    ensures
        merged_ranking(seq![a, b], limit) == seq![a],
        richness(a@) > richness(b@) ==> merged_ranking(seq![b, a], limit) == seq![a],
{
    let ka = (richness(a@) as u32, a);
    let kb = (richness(b@) as u32, b);
    assert(richness(a@) <= 9 && richness(b@) <= 9);
    assert(keyed_by_richness(seq![a, b]) =~= seq![ka, kb]);
    assert(keyed_by_richness(seq![b, a]) =~= seq![kb, ka]);
    lemma_ranked_pair(ka, kb);
    lemma_ranked_pair(kb, ka);
    assert(without_keys(seq![ka, kb]) =~= seq![a, b]);
    assert(richest_first(seq![a, b]) == seq![a, b]);
    if richness(a@) > richness(b@) {
        assert(richest_first(seq![b, a]) == seq![a, b]);
    }
    let s = seq![a, b];
    let one = seq![a];
    assert(s.drop_last() =~= one);
    assert(one.drop_last() =~= Seq::<PaperResult>::empty());
    assert(deduplicated(one.drop_last()) =~= Seq::<PaperResult>::empty());
    assert(!repeats_kept(Seq::<PaperResult>::empty(), a));
    assert(deduplicated(one) =~= one);
    assert(one[0] == a);
    assert(repeats_kept(one, b));
    assert(deduplicated(s) == one);
    let kc = (citation_key(a@), a);
    assert(keyed_by_citations(one) =~= seq![kc]);
    assert(seq![kc].drop_last() =~= Seq::<((u32, u32), PaperResult)>::empty());
    assert(ranked(seq![kc].drop_last()) =~= Seq::<((u32, u32), PaperResult)>::empty());
    assert(ranked(seq![kc]) =~= seq![kc]);
    assert(without_keys(seq![kc]) =~= one);
    assert(most_cited_first(one) == one);
}

} // verus!
