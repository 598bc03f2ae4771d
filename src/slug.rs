//! Guessing marketplace slugs from free-form folder names.
//!
//! Regular expressions come from the `regex` crate; what a replacement or a
//! match yields is named below, and the pipeline around them is verified.
use vstd::prelude::*;
use crate::matching::{utf8_len, utf8_length};
use crate::text::{chars_of, char_vecs, find, find_chars, join, join_chars, lower_of, lowercase, numeric_char, is_numeric_char, replace_separators, separators_to_spaces, split_words, string_from_chars, strs, trim, trim_chars, words_of};

verus! {

/// Whether `regex::Regex::new` accepts the pattern.
pub uninterp spec fn pattern_compiles(pattern: Seq<char>) -> bool;

/// What `Regex::replace_all` returns for a compiled pattern.
pub uninterp spec fn regex_replaced(pattern: Seq<char>, text: Seq<char>, rep: Seq<char>) -> Seq<
    char,
>;

/// What `Regex::is_match` returns for a compiled pattern.
pub uninterp spec fn regex_matches(pattern: Seq<char>, text: Seq<char>) -> bool;

/// Relies on `regex::Regex::new` and `Regex::replace_all`.
#[verifier::external_body]
fn regex_replace_all(pattern: &str, text: &str, rep: &str) -> (r: Option<String>)
    ensures
        r is Some <==> pattern_compiles(pattern@),
        r is Some ==> r->0@ == regex_replaced(pattern@, text@, rep@),
{
    let re = regex::Regex::new(pattern).ok()?;
    Some(re.replace_all(text, rep).into_owned())
}

/// Relies on `regex::Regex::new` and `Regex::is_match`.
#[verifier::external_body]
fn regex_is_match(pattern: &str, text: &str) -> (r: Option<bool>)
    ensures
        r is Some <==> pattern_compiles(pattern@),
        r is Some ==> r->0 == regex_matches(pattern@, text@),
{
    let re = regex::Regex::new(pattern).ok()?;
    Some(re.is_match(text))
}

/// The replacement, or the text itself if the pattern does not compile.
pub open spec fn replaced(pattern: Seq<char>, text: Seq<char>, rep: Seq<char>) -> Seq<char> {
    if pattern_compiles(pattern) {
        regex_replaced(pattern, text, rep)
    } else {
        text
    }
}

fn replace_or_keep(pattern: &str, text: String, rep: &str) -> (r: String)
    ensures
        r@ == replaced(pattern@, text@, rep@),
{
    match regex_replace_all(pattern, text.as_str(), rep) {
        Some(s) => s,
        None => text,
    }
}

pub const NOT_SLUG_OR_SPACE: &'static str = "[^a-z0-9\\s]";

pub const NOT_SLUG: &'static str = "[^a-z0-9-]";

pub const UE_TOKEN: &'static str = "ue\\d+(?:\\.\\d+)?";

pub const VOL_SUFFIX: &'static str = "\\bvol[\\s_-]*\\d+$";

pub const TRAILING_NUMBER: &'static str = "[\\s_-]*\\d+$";

pub const SEPARATOR_RUN: &'static str = "[\\s_-]+";

/// The version decorations that `remove_version_patterns` strips, in order:
/// parenthesised engine versions, `vN.N`, parenthesised numbers, `UEn.n`, and
/// trailing separators.
pub open spec fn version_patterns() -> Seq<Seq<char>> {
    seq![
        "\\([Uu]?[Ee]?\\s*\\d+(?:\\s*\\.\\s*\\d+)*\\s*\\)"@,
        "[vV]\\d+(?:\\.\\d+)*"@,
        "\\(\\s*\\d+(?:[\\s\\.]\\d+)*\\s*\\)"@,
        "[Uu][Ee]\\d+(?:\\.\\d+)*"@,
        "[\\s_-]+$"@,
    ]
}

/// Lowercase, separators to spaces, other punctuation dropped, words joined
/// with hyphens.
pub open spec fn slugify(name: Seq<char>) -> Seq<char> {
    join(words_of(replaced(NOT_SLUG_OR_SPACE@, separators_to_spaces(lower_of(name)), ""@)), '-')
}

pub fn folder_name_to_product_slug(name: &str) -> (r: String)
    ensures
        r@ == slugify(name@),
{
    let lower = lowercase(name);
    let spaced = string_from_chars(&replace_separators(&chars_of(lower.as_str())));
    let stripped = replace_or_keep(NOT_SLUG_OR_SPACE, spaced, "");
    let words = split_words(&chars_of(stripped.as_str()));
    string_from_chars(&join_chars(&words, '-'))
}

/// Lowercase; engine tokens such as `ue5.3` removed; a trailing number
/// removed unless it ends a `vol N` phrase; separator runs collapsed.
pub open spec fn normalized(raw: Seq<char>) -> Seq<char> {
    let s = replaced(UE_TOKEN@, lower_of(raw), ""@);
    let keep_number = pattern_compiles(VOL_SUFFIX@) && regex_matches(VOL_SUFFIX@, s);
    let s2 = if keep_number {
        s
    } else {
        replaced(TRAILING_NUMBER@, s, ""@)
    };
    trim(replaced(SEPARATOR_RUN@, s2, " "@))
}

pub fn normalize_name(raw: &str) -> (r: String)
    ensures
        r@ == normalized(raw@),
{
    let lower = lowercase(raw);
    let s = replace_or_keep(UE_TOKEN, lower, "");
    let keep_number = match regex_is_match(VOL_SUFFIX, s.as_str()) {
        Some(m) => m,
        None => false,
    };
    let s2 = if keep_number {
        s
    } else {
        replace_or_keep(TRAILING_NUMBER, s, "")
    };
    let s3 = replace_or_keep(SEPARATOR_RUN, s2, " ");
    string_from_chars(&trim_chars(&chars_of(s3.as_str())))
}

/// One version pattern's contribution: the trimmed remainder, when the
/// pattern compiles, the remainder is not empty, and something changed.
pub open spec fn stripped_by(pattern: Seq<char>, name: Seq<char>) -> Seq<Seq<char>> {
    if pattern_compiles(pattern) {
        let cleaned = trim(regex_replaced(pattern, name, ""@));
        if cleaned.len() > 0 && cleaned != name {
            seq![cleaned]
        } else {
            seq![]
        }
    } else {
        seq![]
    }
}

pub open spec fn stripped_by_all(ps: Seq<Seq<char>>, name: Seq<char>) -> Seq<Seq<char>>
    decreases ps.len(),
{
    if ps.len() == 0 {
        seq![]
    } else {
        stripped_by_all(ps.drop_last(), name) + stripped_by(ps.last(), name)
    }
}

/// The text before the first `(`, trimmed, when there is one and it is not empty.
pub open spec fn before_paren(name: Seq<char>) -> Seq<Seq<char>> {
    match find("("@, name) {
        Some(k) => {
            let b = trim(name.take(k));
            if b.len() > 0 {
                seq![b]
            } else {
                seq![]
            }
        },
        None => seq![],
    }
}

/// The name with each kind of version decoration removed.
pub open spec fn version_stripped(name: Seq<char>) -> Seq<Seq<char>> {
    stripped_by_all(version_patterns(), name) + before_paren(name)
}

fn version_pattern_list() -> (r: Vec<&'static str>)
    ensures
        crate::text::str_views(r@) == version_patterns(),
{
    let r = vec![
        "\\([Uu]?[Ee]?\\s*\\d+(?:\\s*\\.\\s*\\d+)*\\s*\\)",
        "[vV]\\d+(?:\\.\\d+)*",
        "\\(\\s*\\d+(?:[\\s\\.]\\d+)*\\s*\\)",
        "[Uu][Ee]\\d+(?:\\.\\d+)*",
        "[\\s_-]+$",
    ];
    assert(crate::text::str_views(r@) =~= version_patterns());
    r
}

pub fn remove_version_patterns(folder_name: &str) -> (r: Vec<String>)
    ensures
        strs(r@) == version_stripped(folder_name@),
{
    let patterns = version_pattern_list();
    let ghost ps = version_patterns();
    let target = String::from_str(folder_name);
    let mut out: Vec<String> = Vec::new();
    let mut i: usize = 0;
    while i < patterns.len()
        invariant
            i <= patterns.len(),
            ps == crate::text::str_views(patterns@),
            ps == version_patterns(),
            target@ == folder_name@,
            strs(out@) == stripped_by_all(ps.take(i as int), folder_name@),
        decreases patterns.len() - i,
    {
        assert(ps[i as int] == patterns@[i as int]@);
        assert(ps.take(i + 1).drop_last() == ps.take(i as int));
        let ghost before = strs(out@);
        match regex_replace_all(patterns[i], folder_name, "") {
            Some(rep) => {
                let cleaned = string_from_chars(&trim_chars(&chars_of(rep.as_str())));
                if !cleaned.as_str().is_empty() && !cleaned.eq(&target) {
                    let ghost c = cleaned@;
                    out.push(cleaned);
                    assert(strs(out@) =~= before + seq![c]);
                } else {
                    proof {
                        if cleaned@.len() > 0 {
                            assert(cleaned@ == folder_name@);
                        }
                    }
                    assert(before + Seq::<Seq<char>>::empty() =~= before);
                }
            },
            None => {
                assert(before + Seq::<Seq<char>>::empty() =~= before);
            },
        }
        i += 1;
    }
    assert(ps.take(patterns.len() as int) == ps);
    let ghost stripped = strs(out@);
    let name = chars_of(folder_name);
    let paren = chars_of("(");
    match find_chars(&name, &paren) {
        Some(k) => {
            proof {
                reveal_strlit("(");
                crate::text::lemma_find_in_bounds(paren@, name@);
            }
            let mut head: Vec<char> = Vec::new();
            let mut j: usize = 0;
            while j < k
                invariant
                    j <= k <= name.len(),
                    head@ == name@.take(j as int),
                decreases k - j,
            {
                head.push(name[j]);
                j += 1;
                assert(name@.take(j as int) == name@.take(j - 1).push(name@[j - 1]));
            }
            let b = trim_chars(&head);
            if b.len() > 0 {
                let bs = string_from_chars(&b);
                out.push(bs);
                assert(strs(out@) =~= stripped + seq![bs@]);
            } else {
                assert(stripped + Seq::<Seq<char>>::empty() =~= stripped);
            }
        },
        None => {
            assert(stripped + Seq::<Seq<char>>::empty() =~= stripped);
        },
    }
    out
}

/// Words that carry no identity in asset names.
pub open spec fn slug_stop_words() -> Seq<Seq<char>> {
    seq![
        "ue4"@,
        "ue5"@,
        "unreal"@,
        "engine"@,
        "pack"@,
        "asset"@,
        "assets"@,
        "v"@,
        "version"@,
    ]
}

/// Only numerals and points.
pub open spec fn all_numeric_or_dot(w: Seq<char>) -> bool {
    forall|i: int| 0 <= i < w.len() ==> numeric_char(#[trigger] w[i]) || w[i] == '.'
}

/// A word worth keeping: no stop word, not a bare number, not starting with
/// `v`, and longer than one byte (all judged on its lowercase form).
pub open spec fn main_word(w: Seq<char>) -> bool {
    let l = lower_of(w);
    &&& !slug_stop_words().contains(l)
    &&& !all_numeric_or_dot(l)
    &&& !(l.len() > 0 && l[0] == 'v')
    &&& utf8_len(l) > 1
}

pub open spec fn main_words_from(ws: Seq<Seq<char>>) -> Seq<Seq<char>>
    decreases ws.len(),
{
    if ws.len() == 0 {
        seq![]
    } else {
        let rest = main_words_from(ws.drop_last());
        if main_word(ws.last()) {
            rest.push(ws.last())
        } else {
            rest
        }
    }
}

/// Words joined by hyphens, lowercased, reduced to `[a-z0-9-]`.
pub open spec fn hyphen_slug(ws: Seq<Seq<char>>) -> Seq<char> {
    replaced(NOT_SLUG@, lower_of(join(ws, '-')), ""@)
}

/// The main words as one slug, then without the last word and without the
/// first word when there are at least two.
pub open spec fn additional_variations(name: Seq<char>) -> Seq<Seq<char>> {
    let ws = main_words_from(words_of(separators_to_spaces(name)));
    if ws.len() == 0 {
        seq![]
    } else if ws.len() == 1 {
        seq![hyphen_slug(ws)]
    } else {
        seq![hyphen_slug(ws), hyphen_slug(ws.drop_last()), hyphen_slug(ws.drop_first())]
    }
}

fn is_stop_word(l: &String) -> (r: bool)
    ensures
        r == slug_stop_words().contains(l@),
{
    let words = vec!["ue4", "ue5", "unreal", "engine", "pack", "asset", "assets", "v", "version"];
    assert(crate::text::str_views(words@) =~= slug_stop_words());
    let mut i: usize = 0;
    while i < words.len()
        invariant
            i <= words.len(),
            crate::text::str_views(words@) == slug_stop_words(),
            forall|j: int| 0 <= j < i ==> slug_stop_words()[j] != l@,
        decreases words.len() - i,
    {
        assert(slug_stop_words()[i as int] == words@[i as int]@);
        let w = String::from_str(words[i]);
        if w.eq(l) {
            return true;
        }
        i += 1;
    }
    false
}

fn is_main_word(w: &Vec<char>) -> (r: bool)
    ensures
        r == main_word(w@),
{
    let ws = string_from_chars(w);
    let lower = lowercase(ws.as_str());
    if is_stop_word(&lower) {
        return false;
    }
    let l = chars_of(lower.as_str());
    let mut all_num = true;
    let mut i: usize = 0;
    while i < l.len()
        invariant
            i <= l.len(),
            all_num == forall|q: int| 0 <= q < i ==> numeric_char(#[trigger] l@[q]) || l@[q] == '.',
        decreases l.len() - i,
    {
        let c = l[i];
        if !(is_numeric_char(c) || c == '.') {
            all_num = false;
        }
        i += 1;
    }
    if all_num {
        return false;
    }
    if l.len() > 0 && l[0] == 'v' {
        return false;
    }
    utf8_length(&l) > 1
}

fn hyphen_slug_exec(ws: &Vec<Vec<char>>) -> (r: String)
    ensures
        r@ == hyphen_slug(char_vecs(ws@)),
{
    let joined = string_from_chars(&join_chars(ws, '-'));
    let lower = lowercase(joined.as_str());
    replace_or_keep(NOT_SLUG, lower, "")
}

pub fn generate_additional_slug_variations(folder_name: &str) -> (r: Vec<String>)
    ensures
        strs(r@) == additional_variations(folder_name@),
{
    let spaced = replace_separators(&chars_of(folder_name));
    let words = split_words(&spaced);
    let ghost all = char_vecs(words@);
    let mut kept: Vec<Vec<char>> = Vec::new();
    let mut i: usize = 0;
    while i < words.len()
        invariant
            i <= words.len(),
            all == char_vecs(words@),
            char_vecs(kept@) == main_words_from(all.take(i as int)),
        decreases words.len() - i,
    {
        assert(all.take(i + 1).drop_last() == all.take(i as int));
        assert(all[i as int] == words@[i as int]@);
        if is_main_word(&words[i]) {
            let ghost before = char_vecs(kept@);
            let w = words[i].clone();
            kept.push(w);
            assert(char_vecs(kept@) =~= before.push(w@));
        }
        i += 1;
    }
    assert(all.take(words.len() as int) == all);
    let ghost m = char_vecs(kept@);
    let mut out: Vec<String> = Vec::new();
    if kept.len() == 0 {
        assert(strs(out@) =~= Seq::<Seq<char>>::empty());
        return out;
    }
    let full = hyphen_slug_exec(&kept);
    out.push(full);
    if kept.len() > 1 {
        let mut without_last = kept.clone();
        without_last.pop();
        assert(char_vecs(without_last@) =~= m.drop_last());
        let a = hyphen_slug_exec(&without_last);
        out.push(a);
        let mut without_first = kept;
        without_first.remove(0);
        assert(char_vecs(without_first@) =~= m.drop_first());
        let b = hyphen_slug_exec(&without_first);
        out.push(b);
        assert(strs(out@) =~= seq![full@, a@, b@]);
    } else {
        assert(strs(out@) =~= seq![full@]);
    }
    out
}

pub open spec fn slugify_all(cs: Seq<Seq<char>>) -> Seq<Seq<char>>
    decreases cs.len(),
{
    if cs.len() == 0 {
        seq![]
    } else {
        slugify_all(cs.drop_last()).push(slugify(cs.last()))
    }
}

/// Every candidate, in the order the stages produce them.
pub open spec fn slug_candidates(name: Seq<char>) -> Seq<Seq<char>> {
    seq![slugify(name), slugify(normalized(name))] + slugify_all(version_stripped(name))
        + additional_variations(name)
}

/// Non-empty entries, each kept at its first occurrence.
pub open spec fn dedup_nonempty(xs: Seq<Seq<char>>) -> Seq<Seq<char>>
    decreases xs.len(),
{
    if xs.len() == 0 {
        seq![]
    } else {
        let d = dedup_nonempty(xs.drop_last());
        if xs.last().len() > 0 && !d.contains(xs.last()) {
            d.push(xs.last())
        } else {
            d
        }
    }
}

/// The slug variations of a folder name, in first-seen order.
pub open spec fn slug_variations(name: Seq<char>) -> Seq<Seq<char>> {
    dedup_nonempty(slug_candidates(name))
}

/// Deduplication leaves no repeated and no empty entries.
pub proof fn lemma_dedup_nonempty_clean(xs: Seq<Seq<char>>)
    ensures
        dedup_nonempty(xs).no_duplicates(),
        forall|i: int| 0 <= i < dedup_nonempty(xs).len() ==> #[trigger] dedup_nonempty(xs)[i].len() > 0,
    decreases xs.len(),
{
    if xs.len() > 0 {
        lemma_dedup_nonempty_clean(xs.drop_last());
        let d = dedup_nonempty(xs.drop_last());
        if xs.last().len() > 0 && !d.contains(xs.last()) {
            let e = d.push(xs.last());
            assert forall|i: int, j: int| 0 <= i < e.len() && 0 <= j < e.len() && i != j implies e[i] != e[j] by {
                if i < d.len() && j < d.len() {
                } else if i == d.len() {
                    assert(e[j] == d[j]);
                } else {
                    assert(e[i] == d[i]);
                }
            }
            assert forall|i: int| 0 <= i < e.len() implies #[trigger] e[i].len() > 0 by {
                if i < d.len() {
                    assert(e[i] == d[i]);
                }
            }
        }
    }
}

/// Produces the candidate slugs of a folder name: the direct slug, the slug
/// of the normalised name, the slugs of the name with version decorations
/// removed, and the main-word variations; duplicates and empty strings are
/// dropped and first-seen order is kept.
pub fn generate_slug_variations(folder_name: &str) -> (r: Vec<String>)
    ensures
        strs(r@) == slug_variations(folder_name@),
        strs(r@).no_duplicates(),
        forall|i: int| 0 <= i < r@.len() ==> (#[trigger] r@[i])@.len() > 0,
{
    let mut cands: Vec<String> = Vec::new();
    cands.push(folder_name_to_product_slug(folder_name));
    let normalized_name = normalize_name(folder_name);
    cands.push(folder_name_to_product_slug(normalized_name.as_str()));
    let ghost head = strs(cands@);
    let stripped = remove_version_patterns(folder_name);
    let ghost sv = strs(stripped@);
    let mut i: usize = 0;
    while i < stripped.len()
        invariant
            i <= stripped.len(),
            sv == strs(stripped@),
            sv == version_stripped(folder_name@),
            head == seq![slugify(folder_name@), slugify(normalized(folder_name@))],
            strs(cands@) == head + slugify_all(sv.take(i as int)),
        decreases stripped.len() - i,
    {
        assert(sv.take(i + 1).drop_last() == sv.take(i as int));
        assert(sv[i as int] == stripped@[i as int]@);
        let ghost before = strs(cands@);
        let s = folder_name_to_product_slug(stripped[i].as_str());
        cands.push(s);
        assert(strs(cands@) =~= before.push(s@));
        i += 1;
    }
    assert(sv.take(stripped.len() as int) == sv);
    let extra = generate_additional_slug_variations(folder_name);
    let ghost ev = strs(extra@);
    let ghost base = strs(cands@);
    let mut k: usize = 0;
    while k < extra.len()
        invariant
            k <= extra.len(),
            ev == strs(extra@),
            strs(cands@) == base + ev.take(k as int),
        decreases extra.len() - k,
    {
        let ghost before = strs(cands@);
        let e = extra[k].clone();
        cands.push(e);
        assert(strs(cands@) =~= before.push(e@));
        assert(ev.take(k + 1) == ev.take(k as int).push(ev[k as int]));
        k += 1;
    }
    assert(ev.take(extra.len() as int) == ev);
    assert(strs(cands@) =~= slug_candidates(folder_name@));
    let ghost all = strs(cands@);
    let mut out: Vec<String> = Vec::new();
    let mut j: usize = 0;
    while j < cands.len()
        invariant
            j <= cands.len(),
            all == strs(cands@),
            strs(out@) == dedup_nonempty(all.take(j as int)),
        decreases cands.len() - j,
    {
        assert(all.take(j + 1).drop_last() == all.take(j as int));
        assert(all[j as int] == cands@[j as int]@);
        let ghost d = strs(out@);
        let c = &cands[j];
        let mut seen = false;
        let mut q: usize = 0;
        while q < out.len()
            invariant
                q <= out.len(),
                d == strs(out@),
                seen == exists|p: int| 0 <= p < q && d[p] == c@,
            decreases out.len() - q,
        {
            assert(d[q as int] == out@[q as int]@);
            if out[q].eq(c) {
                seen = true;
            }
            q += 1;
        }
        assert(seen == d.contains(c@));
        if !c.as_str().is_empty() && !seen {
            let cc = c.clone();
            out.push(cc);
            assert(strs(out@) =~= d.push(c@));
        } else {
            proof {
                if c@.len() > 0 {
                    assert(seen);
                }
            }
        }
        j += 1;
    }
    assert(all.take(cands.len() as int) == all);
    proof {
        lemma_dedup_nonempty_clean(all);
        assert forall|i: int| 0 <= i < out@.len() implies (#[trigger] out@[i])@.len() > 0 by {
            assert(strs(out@)[i] == out@[i]@);
        }
    }
    out
}

/// Separators replaced by spaces, nothing more: the query for full-text search.
pub fn clean_folder_name_for_search(folder_name: &str) -> (r: String)
    ensures
        r@ == separators_to_spaces(folder_name@),
{
    string_from_chars(&replace_separators(&chars_of(folder_name)))
}

/// Words that searches ignore.
pub open spec fn search_stop_words() -> Seq<Seq<char>> {
    seq!["pack"@, "asset"@, "and"@, "ue4"@, "ue5"@, "unreal"@, "engine"@]
}

pub open spec fn main_keywords_from(ws: Seq<Seq<char>>) -> Seq<Seq<char>>
    decreases ws.len(),
{
    if ws.len() == 0 {
        seq![]
    } else {
        let rest = main_keywords_from(ws.drop_last());
        if search_stop_words().contains(ws.last()) {
            rest
        } else {
            rest.push(ws.last())
        }
    }
}

/// The lowercase words of a cleaned name, stop words left out.
pub fn extract_main_keywords(cleaned_name: &str) -> (r: Vec<String>)
    ensures
        strs(r@) == main_keywords_from(words_of(lower_of(cleaned_name@))),
{
    let lower = lowercase(cleaned_name);
    let words = split_words(&chars_of(lower.as_str()));
    let ghost ws = char_vecs(words@);
    let stop = vec!["pack", "asset", "and", "ue4", "ue5", "unreal", "engine"];
    assert(crate::text::str_views(stop@) =~= search_stop_words());
    let mut out: Vec<String> = Vec::new();
    let mut i: usize = 0;
    while i < words.len()
        invariant
            i <= words.len(),
            ws == char_vecs(words@),
            ws == words_of(lower_of(cleaned_name@)),
            crate::text::str_views(stop@) == search_stop_words(),
            strs(out@) == main_keywords_from(ws.take(i as int)),
        decreases words.len() - i,
    {
        assert(ws.take(i + 1).drop_last() == ws.take(i as int));
        assert(ws[i as int] == words@[i as int]@);
        let w = string_from_chars(&words[i]);
        let mut is_stop = false;
        let mut k: usize = 0;
        while k < stop.len()
            invariant
                k <= stop.len(),
                crate::text::str_views(stop@) == search_stop_words(),
                is_stop == exists|q: int| 0 <= q < k && search_stop_words()[q] == w@,
            decreases stop.len() - k,
        {
            assert(search_stop_words()[k as int] == stop@[k as int]@);
            if String::from_str(stop[k]).eq(&w) {
                is_stop = true;
            }
            k += 1;
        }
        assert(is_stop == search_stop_words().contains(w@));
        if !is_stop {
            let ghost before = strs(out@);
            let ghost wv = w@;
            out.push(w);
            assert(strs(out@) =~= before.push(wv));
        }
        i += 1;
    }
    assert(ws.take(words.len() as int) == ws);
    out
}

/// The search query of a folder name and its main keywords.
pub fn test_folder_name_cleaning(folder_name: &str) -> (r: (String, Vec<String>))
    ensures
        r.0@ == separators_to_spaces(folder_name@),
        strs(r.1@) == main_keywords_from(words_of(lower_of(separators_to_spaces(folder_name@)))),
{
    let cleaned = clean_folder_name_for_search(folder_name);
    let keywords = extract_main_keywords(cleaned.as_str());
    (cleaned, keywords)
}

} // verus!
