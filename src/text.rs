//! Character-level string helpers shared by the slug generator, the parser
//! and the matching engine. Strings are modelled by their `Seq<char>` views.
use vstd::prelude::*;

verus! {

/// What `char::is_whitespace` answers (the Unicode `White_Space` property).
pub uninterp spec fn white_space(c: char) -> bool;

/// What `char::is_numeric` answers (Unicode general categories Nd, Nl, No).
pub uninterp spec fn numeric_char(c: char) -> bool;

/// What `char::is_alphanumeric` answers (Unicode `Alphabetic` or numeric).
pub uninterp spec fn alnum_char(c: char) -> bool;

/// What `str::to_lowercase` returns for a string.
pub uninterp spec fn lower_of(s: Seq<char>) -> Seq<char>;

pub open spec fn is_ascii_char(c: char) -> bool {
    (c as u32) < 128
}

pub open spec fn is_ascii_digit(c: char) -> bool {
    '0' <= c && c <= '9'
}

pub open spec fn is_ascii_lower(c: char) -> bool {
    'a' <= c && c <= 'z'
}

pub open spec fn is_ascii_alnum(c: char) -> bool {
    is_ascii_digit(c) || is_ascii_lower(c) || ('A' <= c && c <= 'Z')
}

/// Relies on `char::is_whitespace`; on ASCII it is the documented set of
/// space, tab, line feed, vertical tab, form feed and carriage return.
#[verifier::external_body]
pub fn is_whitespace_char(c: char) -> (r: bool)
    ensures
        r == white_space(c),
        is_ascii_char(c) ==> (r == (c == ' ' || c == '\t' || c == '\n' || c == '\x0B' || c
            == '\x0C' || c == '\r')),
{
    c.is_whitespace()
}

/// Relies on `char::is_numeric`; on ASCII only the ten digits are numeric.
#[verifier::external_body]
pub fn is_numeric_char(c: char) -> (r: bool)
    ensures
        r == numeric_char(c),
        is_ascii_char(c) ==> (r == is_ascii_digit(c)),
{
    c.is_numeric()
}

/// Relies on `char::is_alphanumeric`; on ASCII it is letters and digits.
#[verifier::external_body]
pub fn is_alphanumeric_char(c: char) -> (r: bool)
    ensures
        r == alnum_char(c),
        is_ascii_char(c) ==> (r == is_ascii_alnum(c)),
{
    c.is_alphanumeric()
}

/// Relies on `str::to_lowercase`: the result depends on the characters alone.
#[verifier::external_body]
pub fn lowercase(s: &str) -> (r: String)
    ensures
        r@ == lower_of(s@),
{
    s.to_lowercase()
}

/// Relies on `str::chars`: the characters of `s`, in order.
#[verifier::external_body]
pub fn chars_of(s: &str) -> (r: Vec<char>)
    ensures
        r@ == s@,
{
    s.chars().collect()
}

/// Relies on `String: FromIterator<char>`: the characters, in order.
#[verifier::external_body]
pub fn string_from_chars(v: &Vec<char>) -> (r: String)
    ensures
        r@ == v@,
{
    v.iter().collect()
}

/// The views of a sequence of strings.
pub open spec fn strs(v: Seq<String>) -> Seq<Seq<char>> {
    v.map_values(|s: String| s@)
}

/// The views of a sequence of character vectors.
pub open spec fn char_vecs(v: Seq<Vec<char>>) -> Seq<Seq<char>> {
    v.map_values(|w: Vec<char>| w@)
}

/// The views of a sequence of string slices.
pub open spec fn str_views(v: Seq<&str>) -> Seq<Seq<char>> {
    v.map_values(|s: &str| s@)
}

pub open spec fn is_separator(c: char) -> bool {
    c == '_' || c == '-'
}

/// Underscores and dashes become spaces.
pub open spec fn separators_to_spaces(s: Seq<char>) -> Seq<char> {
    s.map_values(|c: char| if is_separator(c) { ' ' } else { c })
}

/// Character classes that strings are trimmed by.
#[derive(Clone, Copy)]
pub enum TrimClass {
    Whitespace,
    NotNumeric,
    NotAlphanumeric,
}

pub open spec fn in_class(c: char, k: TrimClass) -> bool {
    match k {
        TrimClass::Whitespace => white_space(c),
        TrimClass::NotNumeric => !numeric_char(c),
        TrimClass::NotAlphanumeric => !alnum_char(c),
    }
}

pub fn class_has(c: char, k: TrimClass) -> (r: bool)
    ensures
        r == in_class(c, k),
{
    match k {
        TrimClass::Whitespace => is_whitespace_char(c),
        TrimClass::NotNumeric => !is_numeric_char(c),
        TrimClass::NotAlphanumeric => !is_alphanumeric_char(c),
    }
}

pub open spec fn strip_start(s: Seq<char>, k: TrimClass) -> Seq<char>
    decreases s.len(),
{
    if s.len() > 0 && in_class(s[0], k) {
        strip_start(s.drop_first(), k)
    } else {
        s
    }
}

pub open spec fn strip_end(s: Seq<char>, k: TrimClass) -> Seq<char>
    decreases s.len(),
{
    if s.len() > 0 && in_class(s.last(), k) {
        strip_end(s.drop_last(), k)
    } else {
        s
    }
}

/// `str::trim_matches` with a class: leading and trailing members removed.
pub open spec fn strip(s: Seq<char>, k: TrimClass) -> Seq<char> {
    strip_end(strip_start(s, k), k)
}

/// `str::trim`: leading and trailing whitespace removed.
pub open spec fn trim(s: Seq<char>) -> Seq<char> {
    strip(s, TrimClass::Whitespace)
}

/// State of a left-to-right split on whitespace: finished words, current word.
pub open spec fn split_state(s: Seq<char>) -> (Seq<Seq<char>>, Seq<char>)
    decreases s.len(),
{
    if s.len() == 0 {
        (seq![], seq![])
    } else {
        let st = split_state(s.drop_last());
        let c = s.last();
        if white_space(c) {
            if st.1.len() > 0 {
                (st.0.push(st.1), seq![])
            } else {
                st
            }
        } else {
            (st.0, st.1.push(c))
        }
    }
}

/// `str::split_whitespace`: the maximal runs of non-whitespace characters.
pub open spec fn words_of(s: Seq<char>) -> Seq<Seq<char>> {
    let st = split_state(s);
    if st.1.len() > 0 {
        st.0.push(st.1)
    } else {
        st.0
    }
}

/// The words joined with a separator character between each two.
pub open spec fn join(ws: Seq<Seq<char>>, sep: char) -> Seq<char>
    decreases ws.len(),
{
    if ws.len() == 0 {
        seq![]
    } else if ws.len() == 1 {
        ws[0]
    } else {
        join(ws.drop_last(), sep).push(sep) + ws.last()
    }
}

/// The first position at or after `i` where `needle` occurs in `hay`.
pub open spec fn find_from(needle: Seq<char>, hay: Seq<char>, i: int) -> Option<int>
    decreases hay.len() + 1 - i,
{
    if i < 0 || i + needle.len() > hay.len() {
        None
    } else if hay.subrange(i, i + needle.len()) == needle {
        Some(i)
    } else {
        find_from(needle, hay, i + 1)
    }
}

/// `str::find`: the first position where `needle` occurs in `hay`.
pub open spec fn find(needle: Seq<char>, hay: Seq<char>) -> Option<int> {
    find_from(needle, hay, 0)
}

/// State of a left-to-right split on delimiters: finished pieces, current piece.
pub open spec fn split_on_state(s: Seq<char>, delims: Seq<char>) -> (Seq<Seq<char>>, Seq<char>)
    decreases s.len(),
{
    if s.len() == 0 {
        (seq![], seq![])
    } else {
        let st = split_on_state(s.drop_last(), delims);
        if delims.contains(s.last()) {
            (st.0.push(st.1), seq![])
        } else {
            (st.0, st.1.push(s.last()))
        }
    }
}

/// `str::split` on a set of delimiter characters: empty pieces are kept.
pub open spec fn split_on(s: Seq<char>, delims: Seq<char>) -> Seq<Seq<char>> {
    let st = split_on_state(s, delims);
    st.0.push(st.1)
}

/// `needle` occurs in `hay` as a contiguous block (the empty needle always does).
pub open spec fn is_infix(needle: Seq<char>, hay: Seq<char>) -> bool {
    exists|i: int|
        0 <= i && i + needle.len() <= hay.len() && #[trigger] hay.subrange(i, i + needle.len())
            == needle
}

pub fn replace_separators(s: &Vec<char>) -> (r: Vec<char>)
    ensures
        r@ == separators_to_spaces(s@),
{
    let mut r: Vec<char> = Vec::new();
    let mut i: usize = 0;
    while i < s.len()
        invariant
            i <= s.len(),
            r@ == separators_to_spaces(s@.take(i as int)),
        decreases s.len() - i,
    {
        let c = s[i];
        let d = if c == '_' || c == '-' {
            ' '
        } else {
            c
        };
        r.push(d);
        i += 1;
        assert(s@.take(i as int) == s@.take(i - 1).push(c));
    }
    assert(s@.take(s.len() as int) == s@);
    r
}

proof fn lemma_strip_start_skip(s: Seq<char>, i: int, c: TrimClass)
    requires
        0 <= i <= s.len(),
        forall|k: int| 0 <= k < i ==> in_class(#[trigger] s[k], c),
    ensures
        strip_start(s, c) == strip_start(s.skip(i), c),
    decreases i,
{
    if i > 0 {
        assert(in_class(s[0], c));
        lemma_strip_start_skip(s.drop_first(), i - 1, c);
        assert(s.drop_first().skip(i - 1) == s.skip(i));
    } else {
        assert(s.skip(0) == s);
    }
}

proof fn lemma_strip_end_take(s: Seq<char>, j: int, c: TrimClass)
    requires
        0 <= j <= s.len(),
        forall|k: int| j <= k < s.len() ==> in_class(#[trigger] s[k], c),
    ensures
        strip_end(s, c) == strip_end(s.take(j), c),
    decreases s.len() - j,
{
    if j < s.len() {
        assert(in_class(s.last(), c));
        lemma_strip_end_take(s.drop_last(), j, c);
        assert(s.drop_last().take(j) == s.take(j));
    } else {
        assert(s.take(j) == s);
    }
}

/// `str::trim_matches` by a class, on a character vector.
pub fn strip_chars(s: &Vec<char>, c: TrimClass) -> (r: Vec<char>)
    ensures
        r@ == strip(s@, c),
{
    let n = s.len();
    let mut i: usize = 0;
    while i < n && class_has(s[i], c)
        invariant
            i <= n == s.len(),
            forall|k: int| 0 <= k < i ==> in_class(#[trigger] s@[k], c),
        decreases n - i,
    {
        i += 1;
    }
    proof {
        lemma_strip_start_skip(s@, i as int, c);
    }
    let ghost t = s@.skip(i as int);
    assert(i == n || !in_class(t[0], c));
    assert(strip_start(t, c) == t);
    let mut j: usize = n;
    while j > i && class_has(s[j - 1], c)
        invariant
            i <= j <= n == s.len(),
            forall|k: int| j <= k < n ==> in_class(#[trigger] s@[k], c),
        decreases j,
    {
        j -= 1;
    }
    let mut r: Vec<char> = Vec::new();
    let mut k: usize = i;
    while k < j
        invariant
            i <= k <= j <= n == s.len(),
            r@ == s@.subrange(i as int, k as int),
        decreases j - k,
    {
        r.push(s[k]);
        k += 1;
    }
    proof {
        lemma_strip_end_take(t, j - i, c);
        assert(t.take(j - i) == s@.subrange(i as int, j as int));
        let u = s@.subrange(i as int, j as int);
        assert(u.len() == 0 || !in_class(u.last(), c));
    }
    r
}

/// `str::trim` on a character vector.
pub fn trim_chars(s: &Vec<char>) -> (r: Vec<char>)
    ensures
        r@ == trim(s@),
{
    strip_chars(s, TrimClass::Whitespace)
}

/// `str::trim`.
pub fn trim_str(s: &str) -> (r: String)
    ensures
        r@ == trim(s@),
{
    let v = chars_of(s);
    let t = trim_chars(&v);
    string_from_chars(&t)
}

/// `str::split_whitespace` on a character vector.
pub fn split_words(s: &Vec<char>) -> (r: Vec<Vec<char>>)
    ensures
        char_vecs(r@) == words_of(s@),
{
    let mut done: Vec<Vec<char>> = Vec::new();
    let mut cur: Vec<char> = Vec::new();
    let mut i: usize = 0;
    while i < s.len()
        invariant
            i <= s.len(),
            (char_vecs(done@), cur@) == split_state(s@.take(i as int)),
        decreases s.len() - i,
    {
        let c = s[i];
        let ghost before = done@;
        assert(s@.take(i + 1).drop_last() == s@.take(i as int));
        if is_whitespace_char(c) {
            if cur.len() > 0 {
                let w = cur;
                cur = Vec::new();
                done.push(w);
                assert(char_vecs(done@) == before.map_values(
                    |w: Vec<char>| w@,
                ).push(w@));
            }
        } else {
            cur.push(c);
        }
        i += 1;
    }
    assert(s@.take(s.len() as int) == s@);
    if cur.len() > 0 {
        let ghost before = done@;
        let w = cur;
        done.push(w);
        assert(char_vecs(done@) == before.map_values(|w: Vec<char>| w@).push(
            w@,
        ));
    }
    done
}

/// The words joined with `sep` between each two.
pub fn join_chars(ws: &Vec<Vec<char>>, sep: char) -> (r: Vec<char>)
    ensures
        r@ == join(char_vecs(ws@), sep),
{
    let ghost m = char_vecs(ws@);
    let mut r: Vec<char> = Vec::new();
    let mut i: usize = 0;
    while i < ws.len()
        invariant
            i <= ws.len(),
            m == char_vecs(ws@),
            r@ == join(m.take(i as int), sep),
        decreases ws.len() - i,
    {
        assert(m.take(i + 1).drop_last() == m.take(i as int));
        if i > 0 {
            r.push(sep);
        }
        let w = &ws[i];
        let mut k: usize = 0;
        let ghost start = r@;
        while k < w.len()
            invariant
                k <= w.len(),
                r@ == start + w@.take(k as int),
            decreases w.len() - k,
        {
            r.push(w[k]);
            k += 1;
            assert(w@.take(k as int) == w@.take(k - 1).push(w[k - 1]));
        }
        assert(w@.take(w.len() as int) == w@);
        i += 1;
        if i == 1 {
            assert(start == Seq::<char>::empty());
            assert(r@ == m.take(1)[0]);
        }
    }
    assert(m.take(ws.len() as int) == m);
    r
}

/// `str::find` on character vectors.
pub fn find_chars(hay: &Vec<char>, needle: &Vec<char>) -> (r: Option<usize>)
    ensures
        match r {
            Some(i) => find(needle@, hay@) == Some(i as int),
            None => find(needle@, hay@) is None,
        },
{
    let n = hay.len();
    let m = needle.len();
    let mut i: usize = 0;
    while m <= n && i <= n - m
        invariant
            n == hay.len(),
            m == needle.len(),
            i <= n + 1,
            find(needle@, hay@) == find_from(needle@, hay@, i as int),
        decreases n + 1 - i,
    {
        let mut k: usize = 0;
        while k < m && hay[i + k] == needle[k]
            invariant
                k <= m,
                i + m <= n,
                n == hay.len(),
                m == needle.len(),
                forall|q: int| 0 <= q < k ==> hay@[i + q] == needle@[q],
            decreases m - k,
        {
            k += 1;
        }
        if k == m {
            assert(hay@.subrange(i as int, i + m) == needle@);
            return Some(i);
        }
        assert(hay@.subrange(i as int, i + m)[k as int] != needle@[k as int]);
        i += 1;
    }
    None
}

/// `str::split` on delimiter characters, on character vectors.
pub fn split_on_chars(s: &Vec<char>, delims: &Vec<char>) -> (r: Vec<Vec<char>>)
    ensures
        char_vecs(r@) == split_on(s@, delims@),
{
    let mut done: Vec<Vec<char>> = Vec::new();
    let mut cur: Vec<char> = Vec::new();
    let mut i: usize = 0;
    while i < s.len()
        invariant
            i <= s.len(),
            (char_vecs(done@), cur@) == split_on_state(
                s@.take(i as int),
                delims@,
            ),
        decreases s.len() - i,
    {
        let c = s[i];
        let ghost before = done@;
        assert(s@.take(i + 1).drop_last() == s@.take(i as int));
        let mut is_delim = false;
        let mut k: usize = 0;
        while k < delims.len()
            invariant
                k <= delims.len(),
                is_delim == exists|q: int| 0 <= q < k && delims@[q] == c,
            decreases delims.len() - k,
        {
            if delims[k] == c {
                is_delim = true;
            }
            k += 1;
        }
        assert(is_delim == delims@.contains(c));
        if is_delim {
            let w = cur;
            cur = Vec::new();
            done.push(w);
            assert(char_vecs(done@) == before.map_values(|w: Vec<char>| w@).push(
                w@,
            ));
        } else {
            cur.push(c);
        }
        i += 1;
    }
    assert(s@.take(s.len() as int) == s@);
    let ghost before = done@;
    let w = cur;
    done.push(w);
    assert(char_vecs(done@) == before.map_values(|w: Vec<char>| w@).push(w@));
    done
}

/// `str::starts_with` on character vectors.
pub fn starts_with_chars(s: &Vec<char>, p: &Vec<char>) -> (r: bool)
    ensures
        r == p@.is_prefix_of(s@),
{
    if p.len() > s.len() {
        return false;
    }
    let mut k: usize = 0;
    while k < p.len()
        invariant
            p.len() <= s.len(),
            k <= p.len(),
            forall|q: int| 0 <= q < k ==> s@[q] == p@[q],
        decreases p.len() - k,
    {
        if s[k] != p[k] {
            assert(s@.subrange(0, p.len() as int)[k as int] != p@[k as int]);
            return false;
        }
        k += 1;
    }
    assert(p@ =~= s@.subrange(0, p.len() as int));
    true
}

/// Appends the characters of `s`.
pub fn push_str_chars(out: &mut Vec<char>, s: &str)
    ensures
        final(out)@ == old(out)@ + s@,
{
    let cs = chars_of(s);
    let mut k: usize = 0;
    let ghost start = out@;
    while k < cs.len()
        invariant
            k <= cs.len(),
            cs@ == s@,
            out@ == start + cs@.take(k as int),
        decreases cs.len() - k,
    {
        out.push(cs[k]);
        k += 1;
        assert(cs@.take(k as int) == cs@.take(k - 1).push(cs@[k - 1]));
    }
    assert(cs@.take(cs.len() as int) == cs@);
}

/// A position that `find_from` reports has the whole needle after it.
pub proof fn lemma_find_from_in_bounds(needle: Seq<char>, hay: Seq<char>, i: int)
    ensures
        match find_from(needle, hay, i) {
            Some(j) => 0 <= i <= j && j + needle.len() <= hay.len(),
            None => true,
        },
    decreases hay.len() + 1 - i,
{
    if !(i < 0 || i + needle.len() > hay.len()) && hay.subrange(i, i + needle.len()) != needle {
        lemma_find_from_in_bounds(needle, hay, i + 1);
    }
}

/// A position that `find` reports has the whole needle after it.
pub proof fn lemma_find_in_bounds(needle: Seq<char>, hay: Seq<char>)
    ensures
        match find(needle, hay) {
            Some(j) => 0 <= j && j + needle.len() <= hay.len(),
            None => true,
        },
{
    lemma_find_from_in_bounds(needle, hay, 0);
}

proof fn lemma_infix_at(needle: Seq<char>, hay: Seq<char>, i: int)
    requires
        0 <= i && i + needle.len() <= hay.len(),
        hay.subrange(i, i + needle.len()) == needle,
    ensures
        is_infix(needle, hay),
{
}

/// `str::contains` for a string needle, on character vectors.
pub fn contains_chars(hay: &Vec<char>, needle: &Vec<char>) -> (r: bool)
    ensures
        r == is_infix(needle@, hay@),
{
    let n = hay.len();
    let m = needle.len();
    if m > n {
        return false;
    }
    let mut i: usize = 0;
    while i <= n - m
        invariant
            m <= n,
            n == hay.len(),
            m == needle.len(),
            i <= n - m + 1,
            forall|p: int| 0 <= p < i ==> #[trigger] hay@.subrange(p, p + m) != needle@,
        decreases n - m + 1 - i,
    {
        let mut k: usize = 0;
        while k < m && hay[i + k] == needle[k]
            invariant
                k <= m,
                i + m <= n,
                n == hay.len(),
                m == needle.len(),
                forall|q: int| 0 <= q < k ==> hay@[i + q] == needle@[q],
            decreases m - k,
        {
            k += 1;
        }
        if k == m {
            assert(hay@.subrange(i as int, i + m) == needle@);
            proof {
                lemma_infix_at(needle@, hay@, i as int);
            }
            return true;
        }
        assert(hay@.subrange(i as int, i + m)[k as int] != needle@[k as int]);
        i += 1;
    }
    assert forall|p: int| 0 <= p && p + m <= n implies #[trigger] hay@.subrange(p, p + m)
        != needle@ by {
        assert(p < i);
    }
    false
}

} // verus!
