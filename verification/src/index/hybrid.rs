//! Rank fusion: one ranking out of the lexical and the vector ranking of a
//! query, by reciprocal rank fusion.
//!
//! A list gives the item at zero-based rank `r` the score `1 / (K + r + 1)`,
//! and an item in both lists has the sum of its two scores. Scores are kept
//! exact, as the ranks they come from, and compared as fractions.

use vstd::prelude::*;
use crate::apis::PaperResult;
use crate::ranking::{
    all_comparable, drop_keys, lemma_ranked_entries_are_given, lemma_ranked_in_order,
    lemma_ranked_len, rank_entries, ranked, without_keys, RankKey,
};

verus! {

/// The constant `K` of reciprocal rank fusion.
pub const RRF_K: usize = 60;

/// No list that is fused may be longer than this, so that fused scores can
/// be compared exactly in 128 bits.
pub const RANK_LIMIT: usize = 0xFFFF_FFFF;

/// How many candidates each store is asked for per result wanted.
pub const OVERSAMPLING: usize = 3;

/// A store's own score or distance, carried through as the bit pattern of
/// the single-precision number that the store reported.
#[derive(Debug, Clone, Copy, PartialEq, Eq, Structural)]
pub struct RawScore {
    pub bits: u32,
}

/// One entry of a store's ranking.
#[derive(Debug, Clone)]
pub struct Hit {
    pub id: String,
    pub score: RawScore,
}

/// Which rankings a search draws on.
#[derive(Debug, Clone, Copy, PartialEq, Eq, Structural)]
pub enum SearchMode {
    /// The lexical ranking alone.
    KeywordOnly,
    /// The vector ranking alone.
    VectorOnly,
    /// Both, fused.
    Hybrid,
}

/// A fused score, held as the ranks that make it up.
#[derive(Debug, Clone, Copy, PartialEq, Eq, Structural)]
pub struct RrfScore {
    pub lexical_rank: Option<usize>,
    pub vector_rank: Option<usize>,
}

/// An item of a fused ranking, with the stores' own scores kept for
/// display.
#[derive(Debug, Clone)]
pub struct ScoredResult {
    pub id: String,
    pub rrf_score: RrfScore,
    pub bm25_score: Option<RawScore>,
    pub vector_distance: Option<RawScore>,
}

/// The reciprocal of the score that a list gives the item at `rank`.
pub open spec fn divisor(rank: usize) -> nat {
    (RRF_K + rank + 1) as nat
}

impl RrfScore {
    /// The numerator of the score as a fraction.
    pub open spec fn numerator(self) -> nat {
        match (self.lexical_rank, self.vector_rank) {
            (Some(l), Some(v)) => divisor(l) + divisor(v),
            (Some(_), None) => 1,
            (None, Some(_)) => 1,
            (None, None) => 0,
        }
    }

    /// The denominator of the score as a fraction.
    pub open spec fn denominator(self) -> nat {
        match (self.lexical_rank, self.vector_rank) {
            (Some(l), Some(v)) => divisor(l) * divisor(v),
            (Some(l), None) => divisor(l),
            (None, Some(v)) => divisor(v),
            (None, None) => 1,
        }
    }

    /// A score's denominator is positive.
    pub proof fn lemma_denominator_positive(self)
        ensures
            self.denominator() > 0,
    {
        match (self.lexical_rank, self.vector_rank) {
            (Some(l), Some(v)) => {
                let dl = divisor(l) as int;
                let dv = divisor(v) as int;
                assert(dl * dv > 0) by (nonlinear_arith)
                    requires
                        dl > 0,
                        dv > 0,
                ;
            },
            _ => {},
        }
    }

    /// Whether the score is at least `other`.
    pub open spec fn at_least(self, other: RrfScore) -> bool {
        self.numerator() * other.denominator() >= other.numerator() * self.denominator()
    }

    /// Whether both ranks are below [`RANK_LIMIT`].
    pub open spec fn in_range(self) -> bool {
        &&& self.lexical_rank matches Some(l) ==> l < RANK_LIMIT
        &&& self.vector_rank matches Some(v) ==> v < RANK_LIMIT
    }

    /// The score as numerator and denominator.
    pub fn fraction(&self) -> (parts: (u128, u128))
        requires
            self.in_range(),
        ensures
            parts.0 == self.numerator(),
            parts.1 == self.denominator(),
            0 < parts.1 <= 0x4_0000_0000_0000_0000,
            parts.0 <= 0x4_0000_0000,
    {
        match (self.lexical_rank, self.vector_rank) {
            (Some(l), Some(v)) => {
                let dl: u128 = RRF_K as u128 + l as u128 + 1;
                let dv: u128 = RRF_K as u128 + v as u128 + 1;
                assert(dl * dv <= 0x2_0000_0000 * 0x2_0000_0000) by (nonlinear_arith)
                    requires
                        0 < dl <= 0x2_0000_0000,
                        0 < dv <= 0x2_0000_0000,
                ;
                assert(0 < dl * dv) by (nonlinear_arith)
                    requires
                        0 < dl,
                        0 < dv,
                ;
                (dl + dv, dl * dv)
            },
            (Some(l), None) => (1, RRF_K as u128 + l as u128 + 1),
            (None, Some(v)) => (1, RRF_K as u128 + v as u128 + 1),
            (None, None) => (0, 1),
        }
    }
}

impl RankKey for RrfScore {
    open spec fn comparable(&self) -> bool {
        self.in_range()
    }

    open spec fn outranks(&self, other: &Self) -> bool {
        self.numerator() * other.denominator() > other.numerator() * self.denominator()
    }

    fn ranks_above(&self, other: &Self) -> (b: bool) {
        let (n1, d1) = self.fraction();
        let (n2, d2) = other.fraction();
        assert(n1 * d2 <= 0x4_0000_0000 * 0x4_0000_0000_0000_0000) by (nonlinear_arith)
            requires
                n1 <= 0x4_0000_0000,
                d2 <= 0x4_0000_0000_0000_0000,
        ;
        assert(n2 * d1 <= 0x4_0000_0000 * 0x4_0000_0000_0000_0000) by (nonlinear_arith)
            requires
                n2 <= 0x4_0000_0000,
                d1 <= 0x4_0000_0000_0000_0000,
        ;
        n1 * d2 > n2 * d1
    }

    proof fn lemma_outranks_orders(a: &Self, b: &Self, c: &Self) {
        let (na, da) = (a.numerator() as int, a.denominator() as int);
        let (nb, db) = (b.numerator() as int, b.denominator() as int);
        let (nc, dc) = (c.numerator() as int, c.denominator() as int);
        a.lemma_denominator_positive();
        b.lemma_denominator_positive();
        c.lemma_denominator_positive();
        assert(nb * da <= na * db && nc * db <= nb * dc ==> nc * da <= na * dc) by (nonlinear_arith)
            requires
                da > 0,
                db > 0,
                dc > 0,
                na >= 0,
                nb >= 0,
                nc >= 0,
        ;
    }
}

/// A better rank in either list never lowers the fused score.
pub proof fn lemma_better_rank_scores_higher(
    better: usize,
    worse: usize,
    other: Option<usize>,
)
    requires
        better <= worse,
    ensures
        (RrfScore { lexical_rank: Some(better), vector_rank: other }).at_least(
            RrfScore { lexical_rank: Some(worse), vector_rank: other },
        ),
        (RrfScore { lexical_rank: other, vector_rank: Some(better) }).at_least(
            RrfScore { lexical_rank: other, vector_rank: Some(worse) },
        ),
{
    let b = divisor(better) as int;
    let w = divisor(worse) as int;
    match other {
        Some(o) => {
            let d = divisor(o) as int;
            assert((b + d) * (w * d) >= (w + d) * (b * d)) by (nonlinear_arith)
                requires
                    0 < b <= w,
                    0 < d,
            ;
            assert((d + b) * (d * w) >= (d + w) * (d * b)) by (nonlinear_arith)
                requires
                    0 < b <= w,
                    0 < d,
            ;
        },
        None => {},
    }
}

/// An item in both lists scores at least as high as if it were in one of
/// them alone.
pub proof fn lemma_both_lists_score_higher(lexical: usize, vector: usize)
    ensures
        (RrfScore { lexical_rank: Some(lexical), vector_rank: Some(vector) }).at_least(
            RrfScore { lexical_rank: Some(lexical), vector_rank: None },
        ),
        (RrfScore { lexical_rank: Some(lexical), vector_rank: Some(vector) }).at_least(
            RrfScore { lexical_rank: None, vector_rank: Some(vector) },
        ),
{
    let l = divisor(lexical) as int;
    let v = divisor(vector) as int;
    assert((l + v) * l >= 1 * (l * v)) by (nonlinear_arith)
        requires
            0 < l,
            0 < v,
    ;
    assert((l + v) * v >= 1 * (l * v)) by (nonlinear_arith)
        requires
            0 < l,
            0 < v,
    ;
}

/// The rank at which `id` first appears in `hits`, if it appears.
pub open spec fn first_rank(hits: Seq<Hit>, id: Seq<char>) -> Option<int>
    decreases hits.len(),
{
    if hits.len() == 0 {
        None
    } else {
        match first_rank(hits.drop_last(), id) {
            Some(r) => Some(r),
            None => if hits.last().id@ == id {
                Some(hits.len() - 1)
            } else {
                None
            },
        }
    }
}

/// The ids of `hits` in order of first appearance, each once.
pub open spec fn first_ids(hits: Seq<Hit>) -> Seq<String>
    decreases hits.len(),
{
    if hits.len() == 0 {
        Seq::empty()
    } else {
        let head = first_ids(hits.drop_last());
        if first_rank(hits.drop_last(), hits.last().id@) is Some {
            head
        } else {
            head.push(hits.last().id)
        }
    }
}

/// The store's own score of the hit at `rank`, if there is a rank.
pub open spec fn score_at(hits: Seq<Hit>, rank: Option<int>) -> Option<RawScore> {
    match rank {
        Some(r) => Some(hits[r].score),
        None => None,
    }
}

/// A rank as a machine number.
pub open spec fn as_rank(rank: Option<int>) -> Option<usize> {
    match rank {
        Some(r) => Some(r as usize),
        None => None,
    }
}

/// What the two rankings say of one id: the rank at which each list first
/// has it, and the score that the list gave it there.
pub open spec fn entry_for(lexical: Seq<Hit>, vector: Seq<Hit>, id: String) -> ScoredResult {
    ScoredResult {
        id,
        rrf_score: RrfScore {
            lexical_rank: as_rank(first_rank(lexical, id@)),
            vector_rank: as_rank(first_rank(vector, id@)),
        },
        bm25_score: score_at(lexical, first_rank(lexical, id@)),
        vector_distance: score_at(vector, first_rank(vector, id@)),
    }
}

/// One entry for each id that either list has, in order of first
/// appearance, the lexical list read first.
pub open spec fn fused_candidates(lexical: Seq<Hit>, vector: Seq<Hit>) -> Seq<ScoredResult> {
    first_ids(lexical + vector).map_values(|id: String| entry_for(lexical, vector, id))
}

/// Each entry paired with its fused score.
pub open spec fn keyed_by_score(s: Seq<ScoredResult>) -> Seq<(RrfScore, ScoredResult)> {
    s.map_values(|e: ScoredResult| (e.rrf_score, e))
}

/// The first `limit` items of `s`, or all of `s` if it has fewer.
pub open spec fn cut<T>(s: Seq<T>, limit: nat) -> Seq<T> {
    if limit < s.len() {
        s.take(limit as int)
    } else {
        s
    }
}

/// The fused ranking: the candidates by falling fused score, candidates of
/// equal score in order of first appearance, cut to `limit`.
pub open spec fn fused_ranking(lexical: Seq<Hit>, vector: Seq<Hit>, limit: nat) -> Seq<
    ScoredResult,
> {
    cut(without_keys(ranked(keyed_by_score(fused_candidates(lexical, vector)))), limit)
}

/// The entry of the hit at `rank` of a lexical ranking that stands alone.
pub open spec fn lexical_entry(hit: Hit, rank: usize) -> ScoredResult {
    ScoredResult {
        id: hit.id,
        rrf_score: RrfScore { lexical_rank: Some(rank), vector_rank: None },
        bm25_score: Some(hit.score),
        vector_distance: None,
    }
}

/// The entry of the hit at `rank` of a vector ranking that stands alone.
pub open spec fn vector_entry(hit: Hit, rank: usize) -> ScoredResult {
    ScoredResult {
        id: hit.id,
        rrf_score: RrfScore { lexical_rank: None, vector_rank: Some(rank) },
        bm25_score: None,
        vector_distance: Some(hit.score),
    }
}

/// A single ranking as a result list: hit after hit in the given order,
/// each scored by its rank, cut to `limit`.
pub open spec fn single_ranking(hits: Seq<Hit>, lexical: bool, limit: nat) -> Seq<ScoredResult> {
    cut(
        Seq::new(
            hits.len(),
            |i: int|
                if lexical {
                    lexical_entry(hits[i], i as usize)
                } else {
                    vector_entry(hits[i], i as usize)
                },
        ),
        limit,
    )
}

/// A rank that is found lies within the list, at a hit with that id, and
/// no earlier hit has the id.
pub proof fn lemma_first_rank_is_first(hits: Seq<Hit>, id: Seq<char>)
    ensures
        match first_rank(hits, id) {
            Some(r) => 0 <= r < hits.len() && hits[r].id@ == id && forall|k: int|
                0 <= k < r ==> (#[trigger] hits[k]).id@ != id,
            None => forall|k: int| 0 <= k < hits.len() ==> (#[trigger] hits[k]).id@ != id,
        },
    decreases hits.len(),
{
    if hits.len() > 0 {
        lemma_first_rank_is_first(hits.drop_last(), id);
        assert(forall|k: int| 0 <= k < hits.len() - 1 ==> hits.drop_last()[k] == hits[k]);
    }
}

/// The first rank in two lists read one after the other.
pub proof fn lemma_first_rank_of_both(a: Seq<Hit>, b: Seq<Hit>, id: Seq<char>)
    ensures
        first_rank(a + b, id) == match first_rank(a, id) {
            Some(r) => Some(r),
            None => match first_rank(b, id) {
                Some(r) => Some(a.len() + r),
                None => None,
            },
        },
    decreases b.len(),
{
    if b.len() == 0 {
        assert(a + b =~= a);
    } else {
        lemma_first_rank_of_both(a, b.drop_last(), id);
        assert((a + b).drop_last() =~= a + b.drop_last());
        assert((a + b).last() == b.last());
        lemma_first_rank_is_first(b.drop_last(), id);
    }
}

/// An id has a first rank exactly when it is among the first ids.
pub proof fn lemma_first_ids_are_the_ids(hits: Seq<Hit>, id: Seq<char>)
    ensures
        first_rank(hits, id) is Some <==> exists|k: int|
            0 <= k < first_ids(hits).len() && (#[trigger] first_ids(hits)[k])@ == id,
    decreases hits.len(),
{
    if hits.len() > 0 {
        let head = hits.drop_last();
        lemma_first_ids_are_the_ids(head, id);
        lemma_first_ids_are_the_ids(head, hits.last().id@);
        let ids = first_ids(hits);
        if first_rank(head, id) is Some {
            let k = choose|k: int| 0 <= k < first_ids(head).len() && (#[trigger] first_ids(head)[k])@ == id;
            assert(ids[k]@ == id);
        } else if first_rank(hits, id) is Some {
            assert(hits.last().id@ == id);
            assert(ids == first_ids(head).push(hits.last().id));
            assert(ids[ids.len() - 1]@ == id);
        } else {
            if exists|k: int| 0 <= k < ids.len() && (#[trigger] ids[k])@ == id {
                let k = choose|k: int| 0 <= k < ids.len() && (#[trigger] ids[k])@ == id;
                if k < first_ids(head).len() {
                    assert(first_ids(head)[k]@ == id);
                }
            }
        }
    }
}

/// No id is twice among the first ids.
pub proof fn lemma_first_ids_differ(hits: Seq<Hit>, a: int, b: int)
    requires
        0 <= a < b < first_ids(hits).len(),
    ensures
        first_ids(hits)[a]@ != first_ids(hits)[b]@,
    decreases hits.len(),
{
    if hits.len() > 0 {
        let head = hits.drop_last();
        if b < first_ids(head).len() {
            lemma_first_ids_differ(head, a, b);
        } else {
            lemma_first_ids_are_the_ids(head, hits.last().id@);
            assert(first_ids(head)[a]@ != hits.last().id@);
        }
    }
}

/// A fused ranking is in order: no result has a higher fused score than
/// one before it.
pub proof fn lemma_fused_ranking_in_order(
    lexical: Seq<Hit>,
    vector: Seq<Hit>,
    limit: nat,
    i: int,
    j: int,
)
    requires
        0 <= i < j < fused_ranking(lexical, vector, limit).len(),
    ensures
        fused_ranking(lexical, vector, limit)[i].rrf_score.at_least(
            fused_ranking(lexical, vector, limit)[j].rrf_score,
        ),
{
    let keyed = keyed_by_score(fused_candidates(lexical, vector));
    let order = ranked(keyed);
    lemma_ranked_in_order(keyed);
    lemma_ranked_len(keyed);
    lemma_ranked_entries_are_given(keyed, i);
    lemma_ranked_entries_are_given(keyed, j);
    let a = choose|a: int| 0 <= a < keyed.len() && keyed[a] == order[i];
    let b = choose|b: int| 0 <= b < keyed.len() && keyed[b] == order[j];
    assert(order[i].0 == order[i].1.rrf_score);
    assert(order[j].0 == order[j].1.rrf_score);
    assert(!order[j].0.outranks(&order[i].0));
    assert(without_keys(order)[i] == order[i].1);
    assert(without_keys(order)[j] == order[j].1);
}

/// The ids of entries, in order.
pub open spec fn ids_of(s: Seq<ScoredResult>) -> Seq<String> {
    s.map_values(|e: ScoredResult| e.id)
}

/// The position of the entry with this id, if there is one.
fn find_entry(entries: &Vec<ScoredResult>, id: &String) -> (found: Option<usize>)
    ensures
        match found {
            Some(k) => k < entries@.len() && entries@[k as int].id@ == id@,
            None => forall|k: int| 0 <= k < entries@.len() ==> (#[trigger] entries@[k]).id@ != id@,
        },
{
    let mut k: usize = 0;
    while k < entries.len()
        invariant
            0 <= k <= entries@.len(),
            forall|j: int| 0 <= j < k ==> (#[trigger] entries@[j]).id@ != id@,
        decreases entries@.len() - k,
    {
        if entries[k].id == *id {
            return Some(k);
        }
        k += 1;
    }
    None
}

/// Cuts a list to its first `limit` items.
fn cut_to<T>(items: Vec<T>, limit: usize) -> (kept: Vec<T>)
    ensures
        kept@ == cut(items@, limit as nat),
{
    let mut kept = items;
    kept.truncate(limit);
    kept
}

/// How many candidates to ask each store for, so that `limit` results are
/// left after fusion.
pub fn fetch_limit(limit: usize) -> (candidates: usize)
    requires
        OVERSAMPLING * limit <= usize::MAX,
    ensures
        candidates == OVERSAMPLING * limit,
{
    limit * OVERSAMPLING
}

impl SearchMode {
    /// Whether the mode reads the lexical ranking.
    pub fn uses_lexical(&self) -> (used: bool)
        ensures
            used == (*self != SearchMode::VectorOnly),
    {
        match self {
            SearchMode::VectorOnly => false,
            _ => true,
        }
    }

    /// Whether the mode reads the vector ranking.
    pub fn uses_vector(&self) -> (used: bool)
        ensures
            used == (*self != SearchMode::KeywordOnly),
    {
        match self {
            SearchMode::KeywordOnly => false,
            _ => true,
        }
    }
}

/// Turns one store's ranking into results: each hit scored by its rank
/// alone, the store's own score kept beside it.
pub fn rank_single(hits: Vec<Hit>, lexical: bool, limit: usize) -> (results: Vec<ScoredResult>)
    ensures
        results@ == single_ranking(hits@, lexical, limit as nat),
{
    let ghost input = hits@;
    let ghost all = Seq::new(
        input.len(),
        |i: int|
            if lexical {
                lexical_entry(input[i], i as usize)
            } else {
                vector_entry(input[i], i as usize)
            },
    );
    let count = hits.len();
    let mut results: Vec<ScoredResult> = Vec::new();
    let mut rank: usize = 0;
    for hit in it: hits
        invariant
            it.seq() == input,
            input.len() == count,
            rank == it.index(),
            results@ =~= all.take(rank as int),
            all.len() == input.len(),
            forall|i: int|
                0 <= i < input.len() ==> #[trigger] all[i] == if lexical {
                    lexical_entry(input[i], i as usize)
                } else {
                    vector_entry(input[i], i as usize)
                },
    {
        let entry = if lexical {
            ScoredResult {
                id: hit.id,
                rrf_score: RrfScore { lexical_rank: Some(rank), vector_rank: None },
                bm25_score: Some(hit.score),
                vector_distance: None,
            }
        } else {
            ScoredResult {
                id: hit.id,
                rrf_score: RrfScore { lexical_rank: None, vector_rank: Some(rank) },
                bm25_score: None,
                vector_distance: Some(hit.score),
            }
        };
        assert(entry == all[rank as int]);
        results.push(entry);
        rank += 1;
    }
    proof {
        assert(all.take(all.len() as int) =~= all);
    }
    cut_to(results, limit)
}

/// Fuses the lexical and the vector ranking of one query.
///
/// Every id that either list has gets one entry. A list counts for an id
/// through the first rank at which it has the id. The entries come out by
/// falling fused score, entries of equal score in order of first
/// appearance with the lexical list read first, cut to `limit`.
pub fn fuse_rankings(lexical: Vec<Hit>, vector: Vec<Hit>, limit: usize) -> (fused: Vec<
    ScoredResult,
>)
    requires
        lexical@.len() <= RANK_LIMIT,
        vector@.len() <= RANK_LIMIT,
    ensures
        fused@ == fused_ranking(lexical@, vector@, limit as nat),
{
    let ghost lex = lexical@;
    let ghost vec = vector@;
    let ghost none = Seq::<Hit>::empty();
    let mut acc: Vec<ScoredResult> = Vec::new();
    let mut rank: usize = 0;
    proof {
        assert(lex.take(0) =~= none);
    }
    for hit in it: lexical
        invariant
            it.seq() == lex,
            rank == it.index(),
            lex.len() <= RANK_LIMIT,
            none.len() == 0,
            ids_of(acc@) =~= first_ids(lex.take(rank as int)),
            forall|k: int|
                0 <= k < acc@.len() ==> #[trigger] acc@[k] == entry_for(
                    lex.take(rank as int),
                    none,
                    acc@[k].id,
                ),
            forall|k: int| 0 <= k < acc@.len() ==> (#[trigger] acc@[k]).rrf_score.in_range(),
    {
        let ghost seen = lex.take(rank as int);
        let ghost next = lex.take(rank + 1);
        proof {
            assert(next.drop_last() =~= seen);
            assert(next.last() == hit);
            lemma_first_ids_are_the_ids(seen, hit.id@);
            assert forall|k: int| 0 <= k < acc@.len() implies #[trigger] acc@[k] == entry_for(
                next,
                none,
                acc@[k].id,
            ) by {
                let id = acc@[k].id;
                assert(ids_of(acc@)[k] == id);
                assert(first_ids(seen)[k]@ == id@);
                lemma_first_ids_are_the_ids(seen, id@);
                lemma_first_rank_is_first(seen, id@);
            }
        }
        let found = find_entry(&acc, &hit.id);
        match found {
            Some(k) => {
                proof {
                    assert(ids_of(acc@)[k as int] == acc@[k as int].id);
                    assert(first_ids(seen)[k as int]@ == hit.id@);
                    assert(first_ids(next) == first_ids(seen));
                }
            },
            None => {
                proof {
                    if first_rank(seen, hit.id@) is Some {
                        let k = choose|k: int|
                            0 <= k < first_ids(seen).len() && (#[trigger] first_ids(seen)[k])@
                                == hit.id@;
                        assert(ids_of(acc@)[k] == acc@[k].id);
                        assert(false);
                    }
                    assert(first_ids(next) == first_ids(seen).push(hit.id));
                }
                let entry = ScoredResult {
                    id: hit.id,
                    rrf_score: RrfScore { lexical_rank: Some(rank), vector_rank: None },
                    bm25_score: Some(hit.score),
                    vector_distance: None,
                };
                assert(entry == entry_for(next, none, entry.id));
                acc.push(entry);
            },
        }
        rank += 1;
    }
    proof {
        assert(lex.take(lex.len() as int) =~= lex);
        assert(vec.take(0) =~= none);
        assert(lex + none =~= lex);
    }
    let mut rank: usize = 0;
    for hit in it: vector
        invariant
            it.seq() == vec,
            rank == it.index(),
            lex.len() <= RANK_LIMIT,
            vec.len() <= RANK_LIMIT,
            ids_of(acc@) =~= first_ids(lex + vec.take(rank as int)),
            forall|k: int|
                0 <= k < acc@.len() ==> #[trigger] acc@[k] == entry_for(
                    lex,
                    vec.take(rank as int),
                    acc@[k].id,
                ),
            forall|k: int| 0 <= k < acc@.len() ==> (#[trigger] acc@[k]).rrf_score.in_range(),
    {
        let ghost seen = vec.take(rank as int);
        let ghost next = vec.take(rank + 1);
        let ghost before = acc@;
        proof {
            assert(next.drop_last() =~= seen);
            assert(next.last() == hit);
            assert((lex + next).drop_last() =~= lex + seen);
            assert((lex + next).last() == hit);
            lemma_first_ids_are_the_ids(lex + seen, hit.id@);
            lemma_first_rank_of_both(lex, seen, hit.id@);
            lemma_first_rank_is_first(seen, hit.id@);
        }
        let found = find_entry(&acc, &hit.id);
        match found {
            Some(k) => {
                proof {
                    assert(ids_of(before)[k as int] == before[k as int].id);
                    assert(first_ids(lex + seen)[k as int]@ == hit.id@);
                    assert(first_ids(lex + next) == first_ids(lex + seen));
                    assert forall|j: int| 0 <= j < before.len() && j != k implies before[j].id@
                        != hit.id@ by {
                        assert(ids_of(before)[j] == before[j].id);
                        if j < k {
                            lemma_first_ids_differ(lex + seen, j, k as int);
                        } else {
                            lemma_first_ids_differ(lex + seen, k as int, j);
                        }
                    }
                }
                if acc[k].rrf_score.vector_rank.is_none() {
                    let old_entry = acc.remove(k);
                    let entry = ScoredResult {
                        id: old_entry.id,
                        rrf_score: RrfScore {
                            lexical_rank: old_entry.rrf_score.lexical_rank,
                            vector_rank: Some(rank),
                        },
                        bm25_score: old_entry.bm25_score,
                        vector_distance: Some(hit.score),
                    };
                    assert(entry == entry_for(lex, next, entry.id));
                    acc.insert(k, entry);
                    proof {
                        assert(acc@ =~= before.update(k as int, entry));
                        assert(ids_of(acc@) =~= ids_of(before));
                    }
                }
                proof {
                    assert forall|j: int| 0 <= j < acc@.len() implies #[trigger] acc@[j]
                        == entry_for(lex, next, acc@[j].id) by {
                        if j != k {
                            assert(acc@[j] == before[j]);
                            lemma_first_rank_is_first(seen, acc@[j].id@);
                        } else {
                            lemma_first_rank_is_first(seen, acc@[j].id@);
                        }
                    }
                }
            },
            None => {
                proof {
                    if first_rank(lex + seen, hit.id@) is Some {
                        let k = choose|k: int|
                            0 <= k < first_ids(lex + seen).len() && (#[trigger] first_ids(
                                lex + seen,
                            )[k])@ == hit.id@;
                        assert(ids_of(acc@)[k] == acc@[k].id);
                        assert(false);
                    }
                    assert(first_ids(lex + next) == first_ids(lex + seen).push(hit.id));
                    assert forall|j: int| 0 <= j < acc@.len() implies #[trigger] acc@[j]
                        == entry_for(lex, next, acc@[j].id) by {
                        lemma_first_rank_is_first(seen, acc@[j].id@);
                    }
                }
                let entry = ScoredResult {
                    id: hit.id,
                    rrf_score: RrfScore { lexical_rank: None, vector_rank: Some(rank) },
                    bm25_score: None,
                    vector_distance: Some(hit.score),
                };
                assert(entry == entry_for(lex, next, entry.id));
                acc.push(entry);
            },
        }
        rank += 1;
    }
    proof {
        assert(vec.take(vec.len() as int) =~= vec);
        assert(acc@ =~= fused_candidates(lex, vec)) by {
            assert forall|k: int| 0 <= k < acc@.len() implies acc@[k] == fused_candidates(
                lex,
                vec,
            )[k] by {
                assert(ids_of(acc@)[k] == acc@[k].id);
            }
        }
    }
    let ghost candidates = acc@;
    let mut keyed: Vec<(RrfScore, ScoredResult)> = Vec::new();
    for entry in it: acc
        invariant
            it.seq() == candidates,
            keyed@ =~= keyed_by_score(candidates.take(it.index() as int)),
            forall|k: int|
                0 <= k < candidates.len() ==> (#[trigger] candidates[k]).rrf_score.in_range(),
    {
        proof {
            let i = it.index() as int;
            assert(candidates.take(i + 1) =~= candidates.take(i).push(entry));
        }
        keyed.push((entry.rrf_score, entry));
    }
    proof {
        assert(candidates.take(candidates.len() as int) =~= candidates);
        assert(all_comparable(keyed@));
    }
    cut_to(drop_keys(rank_entries(keyed)), limit)
}

/// The ranking of a query in the given mode, from what the stores
/// returned. A store that the mode does not read is not looked at.
pub open spec fn mode_ranking(mode: SearchMode, lexical: Seq<Hit>, vector: Seq<Hit>, limit: nat) -> Seq<
    ScoredResult,
> {
    match mode {
        SearchMode::KeywordOnly => single_ranking(lexical, true, limit),
        SearchMode::VectorOnly => single_ranking(vector, false, limit),
        SearchMode::Hybrid => fused_ranking(lexical, vector, limit),
    }
}

/// Ranks the hits of a query in the given mode. In every mode the order of
/// the results comes from ranks alone, so that scores compare across modes.
pub fn rank_hits(mode: SearchMode, lexical: Vec<Hit>, vector: Vec<Hit>, limit: usize) -> (results:
    Vec<ScoredResult>)
    requires
        mode == SearchMode::Hybrid ==> lexical@.len() <= RANK_LIMIT && vector@.len()
            <= RANK_LIMIT,
    ensures
        results@ == mode_ranking(mode, lexical@, vector@, limit as nat),
{
    match mode {
        SearchMode::KeywordOnly => rank_single(lexical, true, limit),
        SearchMode::VectorOnly => rank_single(vector, false, limit),
        SearchMode::Hybrid => fuse_rankings(lexical, vector, limit),
    }
}

/// The records that were found, in order; an id that did not resolve
/// leaves no trace.
pub open spec fn resolved(lookups: Seq<Option<PaperResult>>) -> Seq<PaperResult>
    decreases lookups.len(),
{
    if lookups.len() == 0 {
        Seq::empty()
    } else {
        let head = resolved(lookups.drop_last());
        match lookups.last() {
            Some(paper) => head.push(paper),
            None => head,
        }
    }
}

/// Keeps the records that the store found for a ranking's ids, in the
/// ranking's order.
pub fn collect_resolved(lookups: Vec<Option<PaperResult>>) -> (papers: Vec<PaperResult>)
    ensures
        papers@ == resolved(lookups@),
{
    let ghost input = lookups@;
    let mut papers: Vec<PaperResult> = Vec::new();
    proof {
        assert(input.take(0) =~= Seq::<Option<PaperResult>>::empty());
    }
    for lookup in it: lookups
        invariant
            it.seq() == input,
            papers@ == resolved(input.take(it.index() as int)),
    {
        proof {
            let i = it.index() as int;
            assert(input.take(i + 1).drop_last() =~= input.take(i));
            assert(input.take(i + 1).last() == lookup);
        }
        match lookup {
            Some(paper) => {
                papers.push(paper);
            },
            None => {},
        }
    }
    proof {
        assert(input.take(input.len() as int) =~= input);
    }
    papers
}

} // verus!
