//! The match confidence engine: scores a local asset against marketplace
//! candidates and classifies the result into a confidence tier.
//!
//! Scores are fixed-point millionths (`SCALE` is a certain match). The name
//! similarity of a candidate is a Jaro-Winkler similarity of the two cleaned
//! names (see `clean_string`), supplied by the caller in millionths.
use vstd::prelude::*;
use crate::SCALE;
use crate::decimal::{percent_text, push_percent};
use crate::listing::OrbitalAsset;
use crate::text::{TrimClass, chars_of, char_vecs, join, join_chars, contains_chars, is_infix, lower_of, lowercase, push_str_chars, separators_to_spaces, split_words, string_from_chars, strip, strip_chars, strs, trim, trim_chars, replace_separators, words_of};

verus! {

pub const EXACT_MATCH_THRESHOLD: u64 = 950_000;

pub const HIGH_CONFIDENCE_THRESHOLD: u64 = 850_000;

pub const MEDIUM_CONFIDENCE_THRESHOLD: u64 = 700_000;

pub const LOW_CONFIDENCE_THRESHOLD: u64 = 500_000;

/// Discrete match quality; `Manual` marks a match a user confirmed.
#[derive(Debug, Clone, Copy, PartialEq, Eq, Structural)]
pub enum MatchType {
    Exact,
    HighConfidence,
    MediumConfidence,
    LowConfidence,
    NoMatch,
    Manual,
}

/// The tier that a confidence falls in.
pub open spec fn tier(c: int) -> MatchType {
    if c >= EXACT_MATCH_THRESHOLD {
        MatchType::Exact
    } else if c >= HIGH_CONFIDENCE_THRESHOLD {
        MatchType::HighConfidence
    } else if c >= MEDIUM_CONFIDENCE_THRESHOLD {
        MatchType::MediumConfidence
    } else if c >= LOW_CONFIDENCE_THRESHOLD {
        MatchType::LowConfidence
    } else {
        MatchType::NoMatch
    }
}

/// What the engine reads of a local asset.
#[derive(Debug, Clone)]
pub struct LocalAsset {
    pub id: Option<i64>,
    pub name: String,
    /// The asset's category tag, such as `animation`.
    pub asset_type: String,
    pub file_size: i64,
    pub file_hash: Option<String>,
}

/// The outcome of matching one local asset.
#[derive(Debug, Clone)]
pub struct AssetMatch {
    pub local_asset_id: i64,
    pub orbital_asset: Option<OrbitalAsset>,
    pub match_confidence: u64,
    pub match_type: MatchType,
    pub match_reasons: Vec<String>,
}

/// Every outcome's tier is the one its confidence implies, but for a manual
/// match, which is certain.
pub open spec fn outcome_consistent(m: AssetMatch) -> bool {
    &&& m.match_confidence <= SCALE
    &&& if m.match_type == MatchType::Manual {
        m.match_confidence == SCALE
    } else {
        m.match_type == tier(m.match_confidence as int)
    }
}

/// Halves runs of double spaces, left to right, as one `replace("  ", " ")`.
pub open spec fn halve_spaces(s: Seq<char>) -> Seq<char>
    decreases s.len(),
{
    if s.len() == 0 {
        s
    } else if s.len() >= 2 && s[0] == ' ' && s[1] == ' ' {
        seq![' '] + halve_spaces(s.skip(2))
    } else {
        seq![s[0]] + halve_spaces(s.drop_first())
    }
}

/// A name as the engine compares it: lowercase, separators as spaces.
pub open spec fn cleaned_name(s: Seq<char>) -> Seq<char> {
    trim(halve_spaces(separators_to_spaces(lower_of(s))))
}

/// The keywords of a name, from the back.
pub open spec fn keywords_from(ws: Seq<Seq<char>>) -> Seq<Seq<char>>
    decreases ws.len(),
{
    if ws.len() == 0 {
        seq![]
    } else {
        let rest = keywords_from(ws.drop_last());
        let k = strip(lower_of(ws.last()), TrimClass::NotAlphanumeric);
        if k.len() > 0 && utf8_len(k) > 2 {
            rest.push(k)
        } else {
            rest
        }
    }
}

/// Words of the name, lowercased, stripped of non-alphanumeric ends, longer
/// than two bytes.
pub open spec fn keywords_of(name: Seq<char>) -> Seq<Seq<char>> {
    keywords_from(words_of(name))
}

pub open spec fn char_utf8_len(c: char) -> nat {
    if (c as u32) < 0x80 {
        1
    } else if (c as u32) < 0x800 {
        2
    } else if (c as u32) < 0x10000 {
        3
    } else {
        4
    }
}

/// The length of the UTF-8 encoding.
pub open spec fn utf8_len(s: Seq<char>) -> nat
    decreases s.len(),
{
    if s.len() == 0 {
        0
    } else {
        utf8_len(s.drop_last()) + char_utf8_len(s.last())
    }
}

/// How many of the keywords occur in the text.
pub open spec fn count_found(ks: Seq<Seq<char>>, hay: Seq<char>) -> nat
    decreases ks.len(),
{
    if ks.len() == 0 {
        0
    } else {
        count_found(ks.drop_last(), hay) + if is_infix(lower_of(ks.last()), hay) {
            1nat
        } else {
            0nat
        }
    }
}

/// The share of the name's keywords found in the description, in millionths.
pub open spec fn desc_overlap(name: Seq<char>, desc: Seq<char>) -> int {
    let ks = keywords_of(name);
    if ks.len() == 0 {
        0
    } else {
        (count_found(ks, lower_of(desc)) as int) * (SCALE as int) / (ks.len() as int)
    }
}

/// Some category contains the local category, ignoring case.
pub open spec fn category_compatible(local_type: Seq<char>, cats: Seq<Seq<char>>) -> bool {
    exists|i: int| 0 <= i < cats.len() && is_infix(lower_of(local_type), lower_of(#[trigger] cats[i]))
}

/// The weighted score: name similarity weighs six tenths when the candidate
/// has a title, category compatibility two tenths, and description overlap
/// two tenths when it has a description; the sum is divided by the weights
/// that took part.
pub open spec fn match_confidence(
    name: Seq<char>,
    local_type: Seq<char>,
    cand: OrbitalAsset,
    name_similarity: int,
) -> int {
    let t: int = if cand.title is Some { 6 * name_similarity } else { 0 };
    let tw: int = if cand.title is Some { 6 } else { 0 };
    let c: int = if category_compatible(local_type, strs(cand.categories@)) { 2 * SCALE } else { 0 };
    let d: int = match cand.description {
        Some(desc) => 2 * desc_overlap(name, desc@),
        None => 0,
    };
    let dw: int = if cand.description is Some { 2 } else { 0 };
    (t + c + d) / (tw + 2 + dw)
}

/// The reasons given for a match.
pub open spec fn match_reasons(
    local_type: Seq<char>,
    cand: OrbitalAsset,
    confidence: int,
    name_similarity: int,
) -> Seq<Seq<char>> {
    let a = if cand.title is Some && name_similarity > 800_000 {
        seq!["High name similarity: "@ + percent_text(name_similarity as nat)]
    } else {
        seq![]
    };
    let b = if category_compatible(local_type, strs(cand.categories@)) {
        seq!["Compatible asset type"@]
    } else {
        seq![]
    };
    a + b + seq!["Overall confidence: "@ + percent_text(confidence as nat)]
}

/// The scores of all candidates, in order.
pub open spec fn candidate_scores(
    name: Seq<char>,
    local_type: Seq<char>,
    cands: Seq<OrbitalAsset>,
    sims: Seq<u64>,
) -> Seq<int> {
    Seq::new(
        cands.len(),
        |i: int| match_confidence(name, local_type, cands[i], sims[i] as int),
    )
}

/// The index of the first highest score: a later candidate replaces the
/// incumbent only when it scores strictly higher.
pub open spec fn best_of(s: Seq<int>) -> int
    decreases s.len(),
{
    if s.len() <= 1 {
        0
    } else {
        let b = best_of(s.drop_last());
        if s.last() > s[b] {
            s.len() - 1
        } else {
            b
        }
    }
}

/// The winner holds the highest score, and every earlier candidate scores less.
pub proof fn lemma_best_of_is_first_max(s: Seq<int>)
    requires
        s.len() > 0,
    ensures
        0 <= best_of(s) < s.len(),
        forall|j: int| 0 <= j < s.len() ==> #[trigger] s[j] <= s[best_of(s)],
        forall|j: int| 0 <= j < best_of(s) ==> #[trigger] s[j] < s[best_of(s)],
    decreases s.len(),
{
    if s.len() > 1 {
        let p = s.drop_last();
        lemma_best_of_is_first_max(p);
        let b = best_of(p);
        assert(s[b] == p[b]);
        if s.last() > s[b] {
            assert forall|j: int| 0 <= j < s.len() implies #[trigger] s[j] <= s[best_of(s)] by {
                if j < s.len() - 1 {
                    assert(s[j] == p[j]);
                }
            }
            assert forall|j: int| 0 <= j < best_of(s) implies #[trigger] s[j] < s[best_of(s)] by {
                assert(s[j] == p[j]);
            }
        } else {
            assert forall|j: int| 0 <= j < s.len() implies #[trigger] s[j] <= s[best_of(s)] by {
                if j < s.len() - 1 {
                    assert(s[j] == p[j]);
                }
            }
            assert forall|j: int| 0 <= j < best_of(s) implies #[trigger] s[j] < s[best_of(s)] by {
                assert(s[j] == p[j]);
            }
        }
    }
}

/// Feeding the candidates in reverse order picks the same winner, whenever
/// no two candidates score the same.
pub proof fn lemma_winner_independent_of_order(s: Seq<int>)
    requires
        s.len() > 0,
        s.no_duplicates(),
    ensures
        best_of(s.reverse()) == s.len() - 1 - best_of(s),
        s.reverse()[best_of(s.reverse())] == s[best_of(s)],
{
    let r = s.reverse();
    lemma_best_of_is_first_max(s);
    lemma_best_of_is_first_max(r);
    let b = best_of(s);
    let br = best_of(r);
    let k = s.len() - 1 - br;
    assert(r[br] == s[k]);
    assert(r[s.len() - 1 - b] == s[b]);
    assert(s[k] <= s[b]);
    assert(s[b] <= r[br]);
    assert(s[k] == s[b]);
}

/// Scoring a reversed candidate list yields the reversed scores, and when
/// no two candidates score the same the winner is the same candidate.
pub proof fn lemma_match_winner_reversed(
    name: Seq<char>,
    local_type: Seq<char>,
    cands: Seq<OrbitalAsset>,
    sims: Seq<u64>,
)
    requires
        cands.len() == sims.len(),
        cands.len() > 0,
        candidate_scores(name, local_type, cands, sims).no_duplicates(),
    ensures
        candidate_scores(name, local_type, cands.reverse(), sims.reverse()) == candidate_scores(
            name,
            local_type,
            cands,
            sims,
        ).reverse(),
        cands.reverse()[best_of(candidate_scores(name, local_type, cands.reverse(), sims.reverse()))]
            == cands[best_of(candidate_scores(name, local_type, cands, sims))],
{
    let s = candidate_scores(name, local_type, cands, sims);
    let r = candidate_scores(name, local_type, cands.reverse(), sims.reverse());
    assert(r =~= s.reverse());
    lemma_winner_independent_of_order(s);
    lemma_best_of_is_first_max(s);
    let b = best_of(s);
    assert(cands.reverse()[s.len() - 1 - b] == cands[b]);
}

/// A titled candidate without a description whose categories fit the local
/// category scores at least `HIGH_CONFIDENCE_THRESHOLD` once its name
/// similarity reaches 0.8, so it is classed Exact or HighConfidence.
pub proof fn lemma_compatible_close_name_is_high(
    name: Seq<char>,
    local_type: Seq<char>,
    cand: OrbitalAsset,
    name_similarity: int,
)
    requires
        cand.title is Some,
        cand.description is None,
        category_compatible(local_type, strs(cand.categories@)),
        800_000 <= name_similarity <= SCALE,
    ensures
        match_confidence(name, local_type, cand, name_similarity) >= HIGH_CONFIDENCE_THRESHOLD,
        tier(match_confidence(name, local_type, cand, name_similarity)) == MatchType::Exact
            || tier(match_confidence(name, local_type, cand, name_similarity))
            == MatchType::HighConfidence,
{
    let c = match_confidence(name, local_type, cand, name_similarity);
    assert(c == (6 * name_similarity + 2 * SCALE) / 8);
    assert((6 * name_similarity + 2 * SCALE) / 8 >= 850_000) by (nonlinear_arith)
        requires
            800_000 <= name_similarity,
    ;
}

/// A manual match: certain, whatever the engine would have said.
pub fn manual_match(local_asset_id: i64, listing: OrbitalAsset) -> (r: AssetMatch)
    ensures
        r.local_asset_id == local_asset_id,
        r.orbital_asset == Some(listing),
        r.match_confidence == SCALE,
        r.match_type == MatchType::Manual,
        strs(r.match_reasons@) == seq!["Manual match"@],
        outcome_consistent(r),
{
    let mut reasons: Vec<String> = Vec::new();
    reasons.push(String::from_str("Manual match"));
    assert(strs(reasons@) =~= seq!["Manual match"@]);
    AssetMatch {
        local_asset_id,
        orbital_asset: Some(listing),
        match_confidence: SCALE,
        match_type: MatchType::Manual,
        match_reasons: reasons,
    }
}

/// The matching engine. Its thresholds are the fixed table of `tier`.
pub struct AssetMatcher;

fn halve_spaces_chars(s: &Vec<char>) -> (r: Vec<char>)
    ensures
        r@ == halve_spaces(s@),
{
    let mut out: Vec<char> = Vec::new();
    let mut i: usize = 0;
    assert(s@.skip(0) == s@);
    assert(out@ + halve_spaces(s@) =~= halve_spaces(s@));
    while i < s.len()
        invariant
            i <= s.len(),
            out@ + halve_spaces(s@.skip(i as int)) == halve_spaces(s@),
        decreases s.len() - i,
    {
        let ghost rest = s@.skip(i as int);
        if i + 1 < s.len() && s[i] == ' ' && s[i + 1] == ' ' {
            assert(rest.skip(2) == s@.skip(i + 2));
            assert(halve_spaces(rest) == seq![' '] + halve_spaces(rest.skip(2)));
            let ghost before = out@;
            out.push(' ');
            assert(out@ == before + seq![' ']);
            i += 2;
        } else {
            assert(rest.drop_first() == s@.skip(i + 1));
            assert(halve_spaces(rest) == seq![rest[0]] + halve_spaces(rest.drop_first()));
            let ghost before = out@;
            out.push(s[i]);
            assert(out@ == before + seq![s@[i as int]]);
            i += 1;
        }
    }
    assert(s@.skip(s.len() as int) =~= Seq::<char>::empty());
    assert(out@ + Seq::<char>::empty() == out@);
    out
}

fn char_utf8_width(c: char) -> (r: usize)
    ensures
        r == char_utf8_len(c),
{
    let u = c as u32;
    if u < 0x80 {
        1
    } else if u < 0x800 {
        2
    } else if u < 0x10000 {
        3
    } else {
        4
    }
}

/// The UTF-8 length of `s`, counted up to three.
pub(crate) fn utf8_length(s: &Vec<char>) -> (r: usize)
    ensures
        r == if utf8_len(s@) > 3 { 3 } else { utf8_len(s@) },
{
    let mut n: usize = 0;
    let mut i: usize = 0;
    while i < s.len()
        invariant
            i <= s.len(),
            n == if utf8_len(s@.take(i as int)) > 3 { 3 } else { utf8_len(s@.take(i as int)) },
        decreases s.len() - i,
    {
        assert(s@.take(i + 1).drop_last() == s@.take(i as int));
        let w = char_utf8_width(s[i]);
        n = if n + w > 3 {
            3
        } else {
            n + w
        };
        i += 1;
    }
    assert(s@.take(s.len() as int) == s@);
    n
}

impl AssetMatcher {
    pub fn new() -> (r: AssetMatcher) {
        AssetMatcher
    }

    /// Lowercases, turns separators into spaces, halves double spaces, trims.
    pub fn clean_string(&self, name: &str) -> (r: String)
        ensures
            r@ == cleaned_name(name@),
    {
        let lower = lowercase(name);
        let cs = replace_separators(&chars_of(lower.as_str()));
        let halved = halve_spaces_chars(&cs);
        string_from_chars(&trim_chars(&halved))
    }

    /// The keywords of an asset name.
    pub fn extract_keywords(&self, name: &str) -> (r: Vec<String>)
        ensures
            strs(r@) == keywords_of(name@),
    {
        let words = split_words(&chars_of(name));
        let ghost ws = char_vecs(words@);
        let mut out: Vec<String> = Vec::new();
        let mut i: usize = 0;
        while i < words.len()
            invariant
                i <= words.len(),
                ws == char_vecs(words@),
                ws == words_of(name@),
                strs(out@) == keywords_from(ws.take(i as int)),
            decreases words.len() - i,
        {
            assert(ws[i as int] == words@[i as int]@);
            assert(ws.take(i + 1).drop_last() == ws.take(i as int));
            let w = string_from_chars(&words[i]);
            let lower = lowercase(w.as_str());
            let k = strip_chars(&chars_of(lower.as_str()), TrimClass::NotAlphanumeric);
            if k.len() > 0 && utf8_length(&k) > 2 {
                let ghost before = out@;
                let ks = string_from_chars(&k);
                out.push(ks);
                assert(strs(out@) =~= strs(before).push(ks@));
            }
            i += 1;
        }
        assert(ws.take(words.len() as int) == ws);
        out
    }

    /// The share of the local name's keywords that the description contains.
    pub fn calculate_description_similarity(&self, local: &LocalAsset, orbital_description: &str) -> (r: u64)
        ensures
            r == desc_overlap(local.name@, orbital_description@),
            r <= SCALE,
    {
        let ks = self.extract_keywords(local.name.as_str());
        let d = lowercase(orbital_description);
        let dc = chars_of(d.as_str());
        let ghost kv = strs(ks@);
        let mut found: usize = 0;
        let mut i: usize = 0;
        while i < ks.len()
            invariant
                i <= ks.len(),
                kv == strs(ks@),
                dc@ == lower_of(orbital_description@),
                found == count_found(kv.take(i as int), dc@),
                found <= i,
            decreases ks.len() - i,
        {
            assert(kv.take(i + 1).drop_last() == kv.take(i as int));
            assert(kv[i as int] == ks@[i as int]@);
            let k = lowercase(ks[i].as_str());
            if contains_chars(&dc, &chars_of(k.as_str())) {
                found += 1;
            }
            i += 1;
        }
        assert(kv.take(ks.len() as int) == kv);
        if ks.len() == 0 {
            0
        } else {
            let num: u128 = found as u128 * 1_000_000u128;
            let den: u128 = ks.len() as u128;
            let q: u128 = num / den;
            assert(q <= 1_000_000) by (nonlinear_arith)
                requires
                    q == num / den,
                    num == found * 1_000_000,
                    found <= den,
                    den > 0,
            ;
            q as u64
        }
    }

    /// Whether some category contains the local category, ignoring case.
    pub fn asset_types_compatible(&self, local_type: &str, orbital_categories: &Vec<String>) -> (r:
        bool)
        ensures
            r == category_compatible(local_type@, strs(orbital_categories@)),
    {
        let lt = lowercase(local_type);
        let needle = chars_of(lt.as_str());
        let ghost cs = strs(orbital_categories@);
        let mut i: usize = 0;
        while i < orbital_categories.len()
            invariant
                i <= orbital_categories.len(),
                cs == strs(orbital_categories@),
                needle@ == lower_of(local_type@),
                forall|j: int| 0 <= j < i ==> !is_infix(lower_of(local_type@), lower_of(#[trigger] cs[j])),
            decreases orbital_categories.len() - i,
        {
            assert(cs[i as int] == orbital_categories@[i as int]@);
            let c = lowercase(orbital_categories[i].as_str());
            if contains_chars(&chars_of(c.as_str()), &needle) {
                return true;
            }
            i += 1;
        }
        false
    }

    /// The weighted confidence that `candidate` is `local`; `name_similarity`
    /// is the similarity of the cleaned local name and the cleaned title.
    pub fn calculate_match_confidence(
        &self,
        local: &LocalAsset,
        candidate: &OrbitalAsset,
        name_similarity: u64,
    ) -> (r: u64)
        requires
            name_similarity <= SCALE,
        ensures
            r == match_confidence(local.name@, local.asset_type@, *candidate, name_similarity as int),
            r <= SCALE,
    {
        let mut total: u64 = 0;
        let mut weights: u64 = 2;
        if candidate.title.is_some() {
            total = 6 * name_similarity;
            weights = weights + 6;
        }
        if self.asset_types_compatible(local.asset_type.as_str(), &candidate.categories) {
            total = total + 2 * SCALE;
        }
        match &candidate.description {
            Some(desc) => {
                let d = self.calculate_description_similarity(local, desc.as_str());
                total = total + 2 * d;
                weights = weights + 2;
            },
            None => {},
        }
        assert(total <= weights * SCALE);
        let r = total / weights;
        assert(r <= SCALE) by (nonlinear_arith)
            requires
                r == total / weights,
                total <= weights * SCALE,
                weights > 0,
        ;
        r
    }

    /// The tier of a confidence.
    pub fn determine_match_type(&self, confidence: u64) -> (r: MatchType)
        ensures
            r == tier(confidence as int),
    {
        if confidence >= EXACT_MATCH_THRESHOLD {
            MatchType::Exact
        } else if confidence >= HIGH_CONFIDENCE_THRESHOLD {
            MatchType::HighConfidence
        } else if confidence >= MEDIUM_CONFIDENCE_THRESHOLD {
            MatchType::MediumConfidence
        } else if confidence >= LOW_CONFIDENCE_THRESHOLD {
            MatchType::LowConfidence
        } else {
            MatchType::NoMatch
        }
    }

    /// Human-readable reasons for a match.
    pub fn generate_match_reasons(
        &self,
        local: &LocalAsset,
        candidate: &OrbitalAsset,
        confidence: u64,
        name_similarity: u64,
    ) -> (r: Vec<String>)
        requires
            confidence <= SCALE,
            name_similarity <= SCALE,
        ensures
            strs(r@) == match_reasons(local.asset_type@, *candidate, confidence as int, name_similarity as int),
    {
        let mut reasons: Vec<String> = Vec::new();
        if candidate.title.is_some() && name_similarity > 800_000 {
            let mut t: Vec<char> = Vec::new();
            push_str_chars(&mut t, "High name similarity: ");
            push_percent(name_similarity, &mut t);
            reasons.push(string_from_chars(&t));
        }
        let ghost a = strs(reasons@);
        if self.asset_types_compatible(local.asset_type.as_str(), &candidate.categories) {
            reasons.push(String::from_str("Compatible asset type"));
        }
        let ghost ab = strs(reasons@);
        let mut t: Vec<char> = Vec::new();
        push_str_chars(&mut t, "Overall confidence: ");
        push_percent(confidence, &mut t);
        let last = string_from_chars(&t);
        let ghost before = reasons@;
        reasons.push(last);
        assert(strs(reasons@) =~= strs(before).push(last@));
        assert(strs(reasons@) =~= match_reasons(
            local.asset_type@,
            *candidate,
            confidence as int,
            name_similarity as int,
        ));
        reasons
    }

    /// Picks the best of the candidates that resolution found for `local`.
    /// `name_similarities[i]` is the name similarity of candidate `i`.
    pub fn match_single_asset(
        &self,
        local: &LocalAsset,
        search_results: Result<Vec<OrbitalAsset>, String>,
        name_similarities: &Vec<u64>,
    ) -> (r: AssetMatch)
        requires
            search_results is Ok ==> name_similarities@.len() == search_results->Ok_0@.len(),
            forall|i: int| 0 <= i < name_similarities@.len() ==> #[trigger] name_similarities@[i] <= SCALE,
        ensures
            r.local_asset_id == match local.id {
                Some(x) => x,
                None => 0,
            },
            outcome_consistent(r),
            r.match_type == tier(r.match_confidence as int),
            match search_results {
                Err(e) => r.orbital_asset is None && r.match_confidence == 0 && strs(r.match_reasons@)
                    == seq!["Search failed: "@ + e@],
                Ok(cs) => if cs@.len() == 0 {
                    r.orbital_asset is None && r.match_confidence == 0 && strs(r.match_reasons@)
                        == seq!["No matching assets found on Orbital marketplace"@]
                } else {
                    let s = candidate_scores(local.name@, local.asset_type@, cs@, name_similarities@);
                    let b = best_of(s);
                    &&& r.orbital_asset == Some(cs@[b])
                    &&& r.match_confidence == s[b]
                    &&& strs(r.match_reasons@) == match_reasons(
                        local.asset_type@,
                        cs@[b],
                        s[b],
                        name_similarities@[b] as int,
                    )
                },
            },
    {
        let local_asset_id = match local.id {
            Some(x) => x,
            None => 0,
        };
        let mut candidates = match search_results {
            Err(e) => {
                let mut t: Vec<char> = Vec::new();
                push_str_chars(&mut t, "Search failed: ");
                push_str_chars(&mut t, e.as_str());
                let mut reasons: Vec<String> = Vec::new();
                let s = string_from_chars(&t);
                reasons.push(s);
                assert(strs(reasons@) =~= seq![s@]);
                return AssetMatch {
                    local_asset_id,
                    orbital_asset: None,
                    match_confidence: 0,
                    match_type: MatchType::NoMatch,
                    match_reasons: reasons,
                };
            },
            Ok(cs) => cs,
        };
        if candidates.len() == 0 {
            let mut reasons: Vec<String> = Vec::new();
            let s = String::from_str("No matching assets found on Orbital marketplace");
            reasons.push(s);
            assert(strs(reasons@) =~= seq![s@]);
            return AssetMatch {
                local_asset_id,
                orbital_asset: None,
                match_confidence: 0,
                match_type: MatchType::NoMatch,
                match_reasons: reasons,
            };
        }
        let ghost scores = candidate_scores(
            local.name@,
            local.asset_type@,
            candidates@,
            name_similarities@,
        );
        let mut best: usize = 0;
        let mut best_score: u64 = self.calculate_match_confidence(
            local,
            &candidates[0],
            name_similarities[0],
        );
        let mut i: usize = 1;
        while i < candidates.len()
            invariant
                1 <= i <= candidates.len(),
                candidates@.len() == name_similarities@.len(),
                forall|j: int| 0 <= j < name_similarities@.len() ==> #[trigger] name_similarities@[j] <= SCALE,
                scores == candidate_scores(local.name@, local.asset_type@, candidates@, name_similarities@),
                best == best_of(scores.take(i as int)),
                best < i,
                best_score == scores[best as int],
                best_score <= SCALE,
            decreases candidates.len() - i,
        {
            let s = self.calculate_match_confidence(local, &candidates[i], name_similarities[i]);
            assert(scores.take(i + 1).drop_last() == scores.take(i as int));
            assert(scores.take(i + 1)[best as int] == scores[best as int]);
            if s > best_score {
                best = i;
                best_score = s;
            }
            i += 1;
        }
        assert(scores.take(candidates.len() as int) == scores);
        let ghost cs = candidates@;
        let sim = name_similarities[best];
        let chosen = candidates.remove(best);
        let match_type = self.determine_match_type(best_score);
        let match_reasons = self.generate_match_reasons(local, &chosen, best_score, sim);
        AssetMatch {
            local_asset_id,
            orbital_asset: Some(chosen),
            match_confidence: best_score,
            match_type,
            match_reasons,
        }
    }
}

// ---------------------------------------------------------------------------
// Name-only similarity, as the scan loop matches folders to candidates.
/// The Levenshtein distance: the least number of single-character
/// insertions, deletions and substitutions that turn `a` into `b`.
pub open spec fn edit_distance(a: Seq<char>, b: Seq<char>) -> nat
    decreases a.len() + b.len(),
{
    if a.len() == 0 {
        b.len()
    } else if b.len() == 0 {
        a.len()
    } else {
        let sub = edit_distance(a.drop_last(), b.drop_last()) + if a.last() == b.last() {
            0nat
        } else {
            1nat
        };
        let del = edit_distance(a.drop_last(), b) + 1;
        let ins = edit_distance(a, b.drop_last()) + 1;
        let m = if sub <= del { sub } else { del };
        if m <= ins { m } else { ins }
    }
}

/// Replacing the shorter string's characters and inserting the rest is
/// always enough.
pub proof fn lemma_edit_distance_bound(a: Seq<char>, b: Seq<char>)
    ensures
        edit_distance(a, b) <= if a.len() < b.len() { b.len() } else { a.len() },
    decreases a.len() + b.len(),
{
    if a.len() > 0 && b.len() > 0 {
        lemma_edit_distance_bound(a.drop_last(), b.drop_last());
    }
}

/// Relies on `strsim::levenshtein`, which counts in characters.
#[verifier::external_body]
fn levenshtein_distance(a: &str, b: &str) -> (r: usize)
    ensures
        r == edit_distance(a@, b@),
{
    strsim::levenshtein(a, b)
}

pub const JARO_WINKLER_WEIGHT: u64 = 7;

pub const LEVENSHTEIN_WEIGHT: u64 = 3;

pub const COMMON_PREFIX_BONUS: u64 = 50_000;

pub const COMMON_PREFIX_WORDS: usize = 2;

/// Strength of a name-only match.
#[derive(Debug, Clone, Copy, PartialEq, Eq, Structural)]
pub enum MatchStrength {
    NoMatch,
    Low,
    Medium,
    High,
    Exact,
}

pub open spec fn strength_of(c: int) -> MatchStrength {
    if c >= EXACT_MATCH_THRESHOLD {
        MatchStrength::Exact
    } else if c >= HIGH_CONFIDENCE_THRESHOLD {
        MatchStrength::High
    } else if c >= MEDIUM_CONFIDENCE_THRESHOLD {
        MatchStrength::Medium
    } else if c >= LOW_CONFIDENCE_THRESHOLD {
        MatchStrength::Low
    } else {
        MatchStrength::NoMatch
    }
}

/// The words of a name once lowercased with separators as spaces.
pub open spec fn name_words(s: Seq<char>) -> Seq<Seq<char>> {
    words_of(separators_to_spaces(lower_of(s)))
}

/// The words joined by single spaces.
pub open spec fn clean_name_of(s: Seq<char>) -> Seq<char> {
    join(name_words(s), ' ')
}

/// The first words (at most two) of both names agree.
pub open spec fn common_prefix(w1: Seq<Seq<char>>, w2: Seq<Seq<char>>) -> bool {
    let k = if w1.len() < w2.len() { w1.len() } else { w2.len() };
    let k = if k < COMMON_PREFIX_WORDS { k } else { COMMON_PREFIX_WORDS as nat };
    k > 0 && w1.take(k as int) == w2.take(k as int)
}

/// `(max - distance) / max` in millionths.
pub open spec fn edit_similarity(a: Seq<char>, b: Seq<char>) -> int {
    let m: int = if a.len() < b.len() { b.len() as int } else { a.len() as int };
    if m == 0 {
        SCALE as int
    } else {
        (m - edit_distance(a, b)) * SCALE / m
    }
}

/// The blended name similarity: seven tenths Jaro-Winkler (`jw`, computed on
/// the cleaned names), three tenths edit similarity, plus a bonus when the
/// leading words agree, capped at one.
pub open spec fn name_similarity_score(n1: Seq<char>, n2: Seq<char>, jw: int) -> int {
    let c1 = clean_name_of(n1);
    let c2 = clean_name_of(n2);
    if name_words(n1).len() == 0 || name_words(n2).len() == 0 {
        0
    } else {
        let base = (JARO_WINKLER_WEIGHT * jw + LEVENSHTEIN_WEIGHT * edit_similarity(c1, c2)) / 10;
        let with_bonus = if common_prefix(name_words(n1), name_words(n2)) {
            base + COMMON_PREFIX_BONUS
        } else {
            base
        };
        if with_bonus > SCALE {
            SCALE as int
        } else {
            with_bonus
        }
    }
}

/// Scores of the candidates that have a title.
pub open spec fn title_scores(local: Seq<char>, cands: Seq<OrbitalAsset>, sims: Seq<u64>) -> Seq<
    Option<int>,
> {
    Seq::new(
        cands.len(),
        |i: int| match cands[i].title {
            Some(t) => Some(name_similarity_score(local, t@, sims[i] as int)),
            None => None,
        },
    )
}

/// The first candidate with the highest score that is at least a weak match.
pub open spec fn strongest_pick(s: Seq<Option<int>>) -> Option<int>
    decreases s.len(),
{
    if s.len() == 0 {
        None
    } else {
        let p = strongest_pick(s.drop_last());
        match s.last() {
            Some(sc) => if sc >= LOW_CONFIDENCE_THRESHOLD && (p is None || sc > s[p->0]->0) {
                Some(s.len() - 1)
            } else {
                p
            },
            None => p,
        }
    }
}

proof fn lemma_strongest_pick_bounds(s: Seq<Option<int>>)
    ensures
        match strongest_pick(s) {
            Some(i) => 0 <= i < s.len() && s[i] is Some && s[i]->0 >= LOW_CONFIDENCE_THRESHOLD,
            None => true,
        },
    decreases s.len(),
{
    if s.len() > 0 {
        lemma_strongest_pick_bounds(s.drop_last());
        match strongest_pick(s.drop_last()) {
            Some(i) => {
                assert(s[i] == s.drop_last()[i]);
            },
            None => {},
        }
    }
}

/// A score that can win: present and at least a weak match.
pub open spec fn eligible(o: Option<int>) -> bool {
    o is Some && o->0 >= LOW_CONFIDENCE_THRESHOLD
}

/// The pick is an eligible score that no eligible score exceeds; there is no
/// pick only when nothing is eligible.
pub proof fn lemma_strongest_pick_is_max(s: Seq<Option<int>>)
    ensures
        match strongest_pick(s) {
            Some(i) => 0 <= i < s.len() && eligible(s[i]) && forall|j: int|
                0 <= j < s.len() && eligible(#[trigger] s[j]) ==> s[j]->0 <= s[i]->0,
            None => forall|j: int| 0 <= j < s.len() ==> !eligible(#[trigger] s[j]),
        },
    decreases s.len(),
{
    if s.len() > 0 {
        let d = s.drop_last();
        lemma_strongest_pick_is_max(d);
        assert forall|j: int| 0 <= j < d.len() implies #[trigger] d[j] == s[j] by {}
        let p = strongest_pick(d);
        match strongest_pick(s) {
            Some(i) => {
                assert forall|j: int| 0 <= j < s.len() && eligible(#[trigger] s[j]) implies s[j]->0
                    <= s[i]->0 by {
                    if j < s.len() - 1 {
                        assert(d[j] == s[j]);
                    }
                    if let Some(q) = p {
                        assert(d[q] == s[q]);
                    }
                }
                if let Some(q) = p {
                    assert(d[q] == s[q]);
                }
            },
            None => {
                assert forall|j: int| 0 <= j < s.len() implies !eligible(#[trigger] s[j]) by {
                    if j < s.len() - 1 {
                        assert(d[j] == s[j]);
                    }
                }
            },
        }
    }
}

/// With no two titled candidates scoring the same, the name-only matcher
/// picks the same candidate whichever order the candidates come in.
pub proof fn lemma_strongest_pick_reversed(
    local: Seq<char>,
    cands: Seq<OrbitalAsset>,
    sims: Seq<u64>,
)
    requires
        cands.len() == sims.len(),
        forall|i: int, j: int|
            0 <= i < cands.len() && 0 <= j < cands.len() && i != j && #[trigger] title_scores(
                local,
                cands,
                sims,
            )[i] is Some && #[trigger] title_scores(local, cands, sims)[j] is Some ==> title_scores(
                local,
                cands,
                sims,
            )[i]->0 != title_scores(local, cands, sims)[j]->0,
    ensures
        title_scores(local, cands.reverse(), sims.reverse()) == title_scores(local, cands, sims).reverse(),
        match strongest_pick(title_scores(local, cands, sims)) {
            Some(i) => strongest_pick(title_scores(local, cands.reverse(), sims.reverse())) == Some(
                cands.len() - 1 - i,
            ) && cands.reverse()[cands.len() - 1 - i] == cands[i],
            None => strongest_pick(title_scores(local, cands.reverse(), sims.reverse())) is None,
        },
{
    let s = title_scores(local, cands, sims);
    let r = title_scores(local, cands.reverse(), sims.reverse());
    assert(r =~= s.reverse());
    let n = s.len();
    lemma_strongest_pick_is_max(s);
    lemma_strongest_pick_is_max(r);
    match strongest_pick(s) {
        Some(i) => {
            assert(r[n - 1 - i] == s[i]);
            match strongest_pick(r) {
                Some(k) => {
                    assert(r[k] == s[n - 1 - k]);
                    assert(s[n - 1 - k]->0 <= s[i]->0);
                    assert(s[i]->0 <= r[k]->0);
                    if n - 1 - k != i {
                        assert(s[n - 1 - k]->0 != s[i]->0);
                    }
                },
                None => {
                    assert(!eligible(r[n - 1 - i]));
                },
            }
        },
        None => {
            match strongest_pick(r) {
                Some(k) => {
                    assert(r[k] == s[n - 1 - k]);
                    assert(!eligible(s[n - 1 - k]));
                },
                None => {},
            }
        },
    }
}

impl AssetMatcher {
    /// The words of a name, lowercased with separators as spaces, and their
    /// join by single spaces.
    fn name_words_exec(name: &str) -> (r: (Vec<Vec<char>>, Vec<char>))
        ensures
            char_vecs(r.0@) == name_words(name@),
            r.1@ == clean_name_of(name@),
    {
        let lower = lowercase(name);
        let spaced = replace_separators(&chars_of(lower.as_str()));
        let ws = split_words(&spaced);
        let joined = join_chars(&ws, ' ');
        (ws, joined)
    }

    /// Lowercased, separators as spaces, whitespace runs collapsed to one space.
    pub fn clean_name(name: &str) -> (r: String)
        ensures
            r@ == clean_name_of(name@),
    {
        let (_, joined) = Self::name_words_exec(name);
        string_from_chars(&joined)
    }

    /// The blended similarity of two names and its strength; `jw` is the
    /// Jaro-Winkler similarity of their cleaned forms in millionths.
    pub fn calculate_similarity(&self, name1: &str, name2: &str, jw: u64) -> (r: (u64, MatchStrength))
        requires
            jw <= SCALE,
        ensures
            r.0 == name_similarity_score(name1@, name2@, jw as int),
            r.0 <= SCALE,
            r.1 == strength_of(r.0 as int),
    {
        let (w1, c1) = Self::name_words_exec(name1);
        let (w2, c2) = Self::name_words_exec(name2);
        if w1.len() == 0 || w2.len() == 0 {
            return (0, MatchStrength::NoMatch);
        }
        let s1 = string_from_chars(&c1);
        let s2 = string_from_chars(&c2);
        let d = levenshtein_distance(s1.as_str(), s2.as_str());
        proof {
            lemma_edit_distance_bound(s1@, s2@);
        }
        let m: usize = if c1.len() < c2.len() {
            c2.len()
        } else {
            c1.len()
        };
        assert(d <= m);
        let lev: u64 = if m == 0 {
            SCALE
        } else {
            let num: u128 = (m - d) as u128 * 1_000_000u128;
            let den: u128 = m as u128;
            let q: u128 = num / den;
            assert(q <= 1_000_000) by (nonlinear_arith)
                requires
                    q == num / den,
                    num == (den - d) * 1_000_000,
                    d <= den,
                    den > 0,
            ;
            q as u64
        };
        let base = (JARO_WINKLER_WEIGHT * jw + LEVENSHTEIN_WEIGHT * lev) / 10;
        let k0: usize = if w1.len() < w2.len() {
            w1.len()
        } else {
            w2.len()
        };
        let k: usize = if k0 < COMMON_PREFIX_WORDS {
            k0
        } else {
            COMMON_PREFIX_WORDS
        };
        let mut same = true;
        let mut j: usize = 0;
        assert(char_vecs(w1@).take(0) =~= char_vecs(w2@).take(0));
        while j < k
            invariant
                j <= k <= w1.len(),
                k <= w2.len(),
                same == (char_vecs(w1@).take(j as int) == char_vecs(w2@).take(j as int)),
            decreases k - j,
        {
            let eq = chars_equal(&w1[j], &w2[j]);
            proof {
                let a = char_vecs(w1@);
                let b = char_vecs(w2@);
                assert(a.take(j + 1) == a.take(j as int).push(a[j as int]));
                assert(b.take(j + 1) == b.take(j as int).push(b[j as int]));
                if a.take(j + 1) == b.take(j + 1) {
                    assert(a.take(j as int) == a.take(j + 1).drop_last());
                    assert(b.take(j as int) == b.take(j + 1).drop_last());
                    assert(a[j as int] == a.take(j + 1)[j as int]);
                }
            }
            same = same && eq;
            j += 1;
        }
        let with_bonus = if k > 0 && same {
            base + COMMON_PREFIX_BONUS
        } else {
            base
        };
        let score = if with_bonus > SCALE {
            SCALE
        } else {
            with_bonus
        };
        let strength = if score >= EXACT_MATCH_THRESHOLD {
            MatchStrength::Exact
        } else if score >= HIGH_CONFIDENCE_THRESHOLD {
            MatchStrength::High
        } else if score >= MEDIUM_CONFIDENCE_THRESHOLD {
            MatchStrength::Medium
        } else if score >= LOW_CONFIDENCE_THRESHOLD {
            MatchStrength::Low
        } else {
            MatchStrength::NoMatch
        };
        (score, strength)
    }

    /// The candidate whose title is most similar to the local name, if any
    /// scores at least a weak match; `sims[i]` is the Jaro-Winkler similarity
    /// of the cleaned local name and the cleaned title of candidate `i`.
    pub fn match_local_asset_to_fab_candidates(
        &self,
        local_asset_name: &str,
        fab_candidates: Vec<OrbitalAsset>,
        sims: &Vec<u64>,
    ) -> (r: Option<(OrbitalAsset, MatchStrength, u64)>)
        requires
            sims@.len() == fab_candidates@.len(),
            forall|i: int| 0 <= i < sims@.len() ==> #[trigger] sims@[i] <= SCALE,
        ensures
            match strongest_pick(title_scores(local_asset_name@, fab_candidates@, sims@)) {
                Some(i) => match r {
                    Some(picked) => picked.0 == fab_candidates@[i] && picked.2 == title_scores(
                        local_asset_name@,
                        fab_candidates@,
                        sims@,
                    )[i]->0 && picked.1 == strength_of(picked.2 as int),
                    None => false,
                },
                None => r is None,
            },
    {
        let mut fab_candidates = fab_candidates;
        let ghost scores = title_scores(local_asset_name@, fab_candidates@, sims@);
        let mut best: Option<usize> = None;
        let mut highest: u64 = 0;
        let mut best_strength = MatchStrength::NoMatch;
        let mut i: usize = 0;
        while i < fab_candidates.len()
            invariant
                i <= fab_candidates.len(),
                sims@.len() == fab_candidates@.len(),
                forall|q: int| 0 <= q < sims@.len() ==> #[trigger] sims@[q] <= SCALE,
                scores == title_scores(local_asset_name@, fab_candidates@, sims@),
                match best {
                    Some(b) => strongest_pick(scores.take(i as int)) == Some(b as int) && b < i
                        && highest == scores[b as int]->0 && best_strength == strength_of(
                        highest as int,
                    ),
                    None => strongest_pick(scores.take(i as int)) is None,
                },
            decreases fab_candidates.len() - i,
        {
            assert(scores.take(i + 1).drop_last() == scores.take(i as int));
            assert(scores.take(i + 1).last() == scores[i as int]);
            match &fab_candidates[i].title {
                Some(title) => {
                    let (score, strength) = self.calculate_similarity(
                        local_asset_name,
                        title.as_str(),
                        sims[i],
                    );
                    proof {
                        lemma_strongest_pick_bounds(scores.take(i as int));
                        match best {
                            Some(b) => {
                                assert(scores.take(i + 1)[b as int] == scores[b as int]);
                            },
                            None => {},
                        }
                    }
                    let beats = match best {
                        Some(_) => score > highest,
                        None => true,
                    };
                    if beats && score >= LOW_CONFIDENCE_THRESHOLD {
                        best = Some(i);
                        highest = score;
                        best_strength = strength;
                    }
                },
                None => {},
            }
            i += 1;
        }
        assert(scores.take(fab_candidates.len() as int) == scores);
        match best {
            Some(b) => {
                let chosen = fab_candidates.remove(b);
                Some((chosen, best_strength, highest))
            },
            None => None,
        }
    }
}

/// Whether two character vectors are equal.
fn chars_equal(a: &Vec<char>, b: &Vec<char>) -> (r: bool)
    ensures
        r == (a@ == b@),
{
    if a.len() != b.len() {
        return false;
    }
    let mut i: usize = 0;
    while i < a.len()
        invariant
            a.len() == b.len(),
            i <= a.len(),
            forall|q: int| 0 <= q < i ==> a@[q] == b@[q],
        decreases a.len() - i,
    {
        if a[i] != b[i] {
            return false;
        }
        i += 1;
    }
    assert(a@ =~= b@);
    true
}

} // verus!
