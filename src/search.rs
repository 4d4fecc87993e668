use vstd::prelude::*;
use crate::text::{
    chars_of, count_occurrences, lines, lower_of, lowercase, occurrences, starts_with, string_of,
};
use crate::types::SearchResult;

verus! {

/// At most this many matching lines are kept per file.
pub const MAX_MATCHING_LINES: usize = 10;

/// A file handed to a search: its path, and its text, or `None` when it
/// could not be read (such a file is skipped).
#[derive(Clone, Debug)]
pub struct Document {
    pub path: String,
    pub content: Option<String>,
}

pub open spec fn sat(x: nat) -> nat {
    if x > u64::MAX {
        u64::MAX as nat
    } else {
        x
    }
}

/// The search terms of a query: its keywords in lower case, with empty ones
/// and repeats left out; each term stands where it first occurred.
pub open spec fn search_terms(keywords: Seq<Seq<char>>) -> Seq<Seq<char>>
    decreases keywords.len(),
{
    if keywords.len() == 0 {
        Seq::<Seq<char>>::empty()
    } else {
        let before = search_terms(keywords.drop_last());
        let k = lower_of(keywords.last());
        if k.len() == 0 || before.contains(k) {
            before
        } else {
            before.push(k)
        }
    }
}

/// How often the terms occur, all together, in one line (case-insensitively).
pub open spec fn line_hits(terms: Seq<Seq<char>>, line: Seq<char>) -> nat
    decreases terms.len(),
{
    if terms.len() == 0 {
        0
    } else {
        line_hits(terms.drop_last(), line) + occurrences(terms.last(), lower_of(line))
    }
}

/// How often one term occurs in a list of lines.
pub open spec fn term_total(t: Seq<char>, ls: Seq<Seq<char>>) -> nat
    decreases ls.len(),
{
    if ls.len() == 0 {
        0
    } else {
        term_total(t, ls.drop_last()) + occurrences(t, lower_of(ls.last()))
    }
}

/// How many of the terms occur at all.
pub open spec fn coverage(terms: Seq<Seq<char>>, ls: Seq<Seq<char>>) -> nat
    decreases terms.len(),
{
    if terms.len() == 0 {
        0
    } else {
        coverage(terms.drop_last(), ls) + if term_total(terms.last(), ls) > 0 {
            1nat
        } else {
            0nat
        }
    }
}

/// How often the terms occur, all together.
pub open spec fn match_total(terms: Seq<Seq<char>>, ls: Seq<Seq<char>>) -> nat
    decreases terms.len(),
{
    if terms.len() == 0 {
        0
    } else {
        match_total(terms.drop_last(), ls) + term_total(terms.last(), ls)
    }
}

/// The relevance of a text to the terms: the number of distinct terms that
/// occur times the number of occurrences, capped at `u64::MAX`. It grows
/// with both, and is zero exactly when no term occurs.
pub open spec fn relevance(terms: Seq<Seq<char>>, content: Seq<char>) -> nat {
    sat(coverage(terms, lines(content)) * match_total(terms, lines(content)))
}

/// The lines in which some term occurs, as (1-based line number, line).
pub open spec fn matching(terms: Seq<Seq<char>>, ls: Seq<Seq<char>>) -> Seq<(int, Seq<char>)>
    decreases ls.len(),
{
    if ls.len() == 0 {
        Seq::<(int, Seq<char>)>::empty()
    } else {
        let before = matching(terms, ls.drop_last());
        if line_hits(terms, ls.last()) > 0 {
            before.push((ls.len() as int, ls.last()))
        } else {
            before
        }
    }
}

/// The first `MAX_MATCHING_LINES` items of `s`.
pub open spec fn capped(s: Seq<(int, Seq<char>)>) -> Seq<(int, Seq<char>)> {
    if s.len() <= MAX_MATCHING_LINES {
        s
    } else {
        s.take(MAX_MATCHING_LINES as int)
    }
}

/// The index of the densest line: the first of those with the most hits.
pub open spec fn densest(terms: Seq<Seq<char>>, ls: Seq<Seq<char>>) -> int
    decreases ls.len(),
{
    if ls.len() == 0 {
        -1
    } else {
        let b = densest(terms, ls.drop_last());
        if b < 0 || sat(line_hits(terms, ls.last())) > sat(line_hits(terms, ls[b])) {
            ls.len() - 1
        } else {
            b
        }
    }
}

pub open spec fn lines_view(v: Seq<(usize, String)>) -> Seq<(int, Seq<char>)> {
    v.map_values(|p: (usize, String)| (p.0 as int, p.1@))
}

pub open spec fn terms_view(v: Seq<Vec<char>>) -> Seq<Seq<char>> {
    v.map_values(|t: Vec<char>| t@)
}

/// Whether `r` is the search result of the text `content` at `path`.
pub open spec fn result_fits(r: SearchResult, terms: Seq<Seq<char>>, path: Seq<char>, content: Seq<char>) -> bool {
    &&& r.file_path@ == path
    &&& r.relevance_score == relevance(terms, content)
    &&& lines_view(r.matching_lines@) == capped(matching(terms, lines(content)))
    &&& r.snippet@ == lines(content)[densest(terms, lines(content))]
}

proof fn lemma_densest_range(terms: Seq<Seq<char>>, ls: Seq<Seq<char>>)
    ensures
        ls.len() == 0 ==> densest(terms, ls) == -1,
        ls.len() > 0 ==> 0 <= densest(terms, ls) < ls.len(),
    decreases ls.len(),
{
    if ls.len() > 0 {
        lemma_densest_range(terms, ls.drop_last());
    }
}

/// Whether `a` equals `b`, character for character.
fn same_chars(a: &Vec<char>, b: &Vec<char>) -> (r: bool)
    ensures
        r == (a@ == b@),
{
    if a.len() != b.len() {
        return false;
    }
    let r = starts_with(a, b);
    assert(a@.subrange(0, b@.len() as int) =~= a@);
    r
}

/// The search terms of `keywords`.
pub fn terms_of(keywords: &Vec<String>) -> (r: Vec<Vec<char>>)
    ensures
        terms_view(r@) == search_terms(keywords@.map_values(|k: String| k@)),
{
    let ghost ks = keywords@.map_values(|k: String| k@);
    let mut out: Vec<Vec<char>> = Vec::new();
    let mut i: usize = 0;
    while i < keywords.len()
        invariant
            i <= keywords@.len(),
            ks == keywords@.map_values(|k: String| k@),
            terms_view(out@) == search_terms(ks.take(i as int)),
        decreases keywords@.len() - i,
    {
        assert(ks.take(i + 1).drop_last() =~= ks.take(i as int));
        assert(ks.take(i + 1).last() == keywords@[i as int]@);
        let low = lowercase(keywords[i].as_str());
        let k = chars_of(low.as_str());
        let mut seen = false;
        let mut j: usize = 0;
        while j < out.len()
            invariant
                j <= out@.len(),
                !seen ==> forall|m: int| 0 <= m < j ==> terms_view(out@)[m] != k@,
                seen ==> terms_view(out@).contains(k@),
            decreases out@.len() - j,
        {
            if same_chars(&out[j], &k) {
                assert(terms_view(out@)[j as int] == k@);
                seen = true;
            }
            j = j + 1;
        }
        if k.len() > 0 && !seen {
            let ghost before = out@;
            out.push(k);
            assert(terms_view(out@) =~= terms_view(before).push(k@));
        }
        i = i + 1;
    }
    assert(ks.take(keywords@.len() as int) =~= ks);
    out
}


proof fn lemma_sat_add(a: nat, b: nat)
    ensures
        sat(sat(a) + b) == sat(a + b),
{
}

proof fn lemma_match_total_covers(terms: Seq<Seq<char>>, ls: Seq<Seq<char>>)
    ensures
        match_total(terms, ls) > 0 ==> coverage(terms, ls) > 0,
        coverage(terms, ls) <= terms.len(),
    decreases terms.len(),
{
    if terms.len() > 0 {
        lemma_match_total_covers(terms.drop_last(), ls);
    }
}

proof fn lemma_sat_product(c: nat, t: nat)
    requires
        t > 0 ==> c > 0,
    ensures
        sat(c * sat(t)) == sat(c * t),
{
    if t > u64::MAX {
        assert(c * t >= t) by (nonlinear_arith)
            requires
                c >= 1,
        ;
        assert(c * (u64::MAX as nat) >= u64::MAX) by (nonlinear_arith)
            requires
                c >= 1,
        ;
    }
}

proof fn lemma_lines_push(s: Seq<char>, c: char)
    ensures
        lines(s.push(c)) == if c == '\n' {
            lines(s).push(Seq::<char>::empty())
        } else {
            lines(s).update(lines(s).len() - 1, lines(s).last().push(c))
        },
{
    assert(s.push(c).drop_last() =~= s);
}

/// Counts the hits of each term in one line: adds them to `totals`
/// (saturating) and returns the line's own count (saturating).
fn tally_line(terms: &Vec<Vec<char>>, line: &Vec<char>, totals: &mut Vec<u64>) -> (h: u64)
    requires
        old(totals)@.len() == terms@.len(),
    ensures
        h == sat(line_hits(terms_view(terms@), line@)),
        final(totals)@.len() == terms@.len(),
        forall|k: int| 0 <= k < terms@.len() ==> #[trigger] final(totals)@[k] == sat(
            (old(totals)@[k] + occurrences(terms@[k]@, lower_of(line@))) as nat,
        ),
{
    let text = string_of(line.as_slice());
    let low = lowercase(text.as_str());
    let lc = chars_of(low.as_str());
    let ghost tv = terms_view(terms@);
    let mut h: u64 = 0;
    let mut k: usize = 0;
    while k < terms.len()
        invariant
            k <= terms@.len(),
            tv == terms_view(terms@),
            lc@ == lower_of(line@),
            totals@.len() == terms@.len(),
            h == sat(line_hits(tv.take(k as int), line@)),
            forall|m: int| 0 <= m < k ==> #[trigger] totals@[m] == sat(
                (old(totals)@[m] + occurrences(terms@[m]@, lower_of(line@))) as nat,
            ),
            forall|m: int| k <= m < terms@.len() ==> #[trigger] totals@[m] == old(totals)@[m],
        decreases terms@.len() - k,
    {
        let o = count_occurrences(&terms[k], &lc);
        assert(tv.take(k + 1).drop_last() =~= tv.take(k as int));
        proof {
            lemma_sat_add(line_hits(tv.take(k as int), line@), o as nat);
        }
        h = h.saturating_add(o as u64);
        let t = totals[k].saturating_add(o as u64);
        totals.set(k, t);
        k = k + 1;
    }
    assert(tv.take(terms@.len() as int) =~= tv);
    h
}

/// The search result of one text: its relevance, its first matching lines,
/// and its densest line as snippet.
pub fn score_document(terms: &Vec<Vec<char>>, path: &String, content: &String) -> (r: SearchResult)
    requires
        content@.len() < usize::MAX,
    ensures
        result_fits(r, terms_view(terms@), path@, content@),
{
    let ghost tv = terms_view(terms@);
    let cs = chars_of(content.as_str());
    let mut totals: Vec<u64> = Vec::new();
    let mut k: usize = 0;
    while k < terms.len()
        invariant
            k <= terms@.len(),
            totals@.len() == k,
            forall|m: int| 0 <= m < k ==> totals@[m] == 0,
        decreases terms@.len() - k,
    {
        totals.push(0);
        k = k + 1;
    }
    let mut found: Vec<(usize, String)> = Vec::new();
    let mut best_hits: u64 = 0;
    let mut snippet = String::new();
    let mut cur: Vec<char> = Vec::new();
    let mut n: usize = 0;
    let ghost mut done: Seq<Seq<char>> = Seq::empty();
    let mut i: usize = 0;
    while i < cs.len()
        invariant
            tv == terms_view(terms@),
            cs@ == content@,
            cs@.len() < usize::MAX,
            i <= cs@.len(),
            n <= i,
            lines(cs@.take(i as int)) == done.push(cur@),
            done.len() == n,
            totals@.len() == terms@.len(),
            forall|m: int| 0 <= m < terms@.len() ==> #[trigger] totals@[m] == sat(term_total(tv[m], done)),
            lines_view(found@) == capped(matching(tv, done)),
            n > 0 ==> 0 <= densest(tv, done) < n && best_hits == sat(line_hits(tv, done[densest(tv, done)]))
                && snippet@ == done[densest(tv, done)],
        decreases cs@.len() - i,
    {
        proof {
            lemma_lines_push(cs@.take(i as int), cs@[i as int]);
            assert(cs@.take(i + 1) =~= cs@.take(i as int).push(cs@[i as int]));
        }
        if cs[i] == '\n' {
            let ghost old_totals = totals@;
            let h = tally_line(terms, &cur, &mut totals);
            proof {
                let nd = done.push(cur@);
                assert(nd.drop_last() =~= done);
                assert forall|m: int| 0 <= m < terms@.len() implies #[trigger] totals@[m] == sat(term_total(tv[m], nd)) by {
                    lemma_sat_add(term_total(tv[m], done), occurrences(tv[m], lower_of(cur@)));
                }
                lemma_densest_range(tv, done);
            }
            if h > 0 && found.len() < MAX_MATCHING_LINES {
                let text = string_of(cur.as_slice());
                let ghost before = found@;
                found.push((n + 1, text));
                assert(lines_view(found@) =~= lines_view(before).push(((n + 1) as int, cur@)));
            }
            if n == 0 || h > best_hits {
                best_hits = h;
                snippet = string_of(cur.as_slice());
            }
            proof {
                let nd = done.push(cur@);
                assert(nd.drop_last() =~= done);
                assert(nd.last() == cur@);
                assert(capped(matching(tv, nd)) =~= lines_view(found@));
                done = nd;
            }
            n = n + 1;
            cur = Vec::new();
        } else {
            cur.push(cs[i]);
        }
        i = i + 1;
    }
    assert(cs@.take(cs@.len() as int) =~= cs@);
    let h = tally_line(terms, &cur, &mut totals);
    proof {
        let nd = done.push(cur@);
        assert(nd.drop_last() =~= done);
        assert forall|m: int| 0 <= m < terms@.len() implies #[trigger] totals@[m] == sat(term_total(tv[m], nd)) by {
            lemma_sat_add(term_total(tv[m], done), occurrences(tv[m], lower_of(cur@)));
        }
        lemma_densest_range(tv, done);
    }
    if h > 0 && found.len() < MAX_MATCHING_LINES {
        let text = string_of(cur.as_slice());
        let ghost before = found@;
        found.push((n + 1, text));
        assert(lines_view(found@) =~= lines_view(before).push(((n + 1) as int, cur@)));
    }
    if n == 0 || h > best_hits {
        best_hits = h;
        snippet = string_of(cur.as_slice());
    }
    proof {
        let nd = done.push(cur@);
        assert(nd.drop_last() =~= done);
        assert(capped(matching(tv, nd)) =~= lines_view(found@));
        done = nd;
    }
    let ghost ls = lines(content@);
    let mut cov: u64 = 0;
    let mut total: u64 = 0;
    let mut k: usize = 0;
    while k < terms.len()
        invariant
            k <= terms@.len(),
            tv == terms_view(terms@),
            ls == done,
            totals@.len() == terms@.len(),
            forall|m: int| 0 <= m < terms@.len() ==> #[trigger] totals@[m] == sat(term_total(tv[m], ls)),
            cov == coverage(tv.take(k as int), ls),
            total == sat(match_total(tv.take(k as int), ls)),
        decreases terms@.len() - k,
    {
        assert(tv.take(k + 1).drop_last() =~= tv.take(k as int));
        proof {
            lemma_match_total_covers(tv.take(k as int), ls);
            lemma_sat_add(match_total(tv.take(k as int), ls), term_total(tv[k as int], ls));
            lemma_sat_add(term_total(tv[k as int], ls), match_total(tv.take(k as int), ls));
        }
        if totals[k] > 0 {
            cov = cov + 1;
        }
        total = total.saturating_add(totals[k]);
        k = k + 1;
    }
    assert(tv.take(terms@.len() as int) =~= tv);
    proof {
        lemma_match_total_covers(tv, ls);
        lemma_sat_product(cov as nat, match_total(tv, ls));
    }
    let score = match cov.checked_mul(total) {
        Some(p) => p,
        None => u64::MAX,
    };
    SearchResult { file_path: path.clone(), relevance_score: score, matching_lines: found, snippet }
}


/// Lexicographic order of paths, by code point.
pub open spec fn path_less(a: Seq<char>, b: Seq<char>) -> bool
    decreases a.len(),
{
    if a.len() == 0 {
        b.len() > 0
    } else if b.len() == 0 {
        false
    } else if a[0] != b[0] {
        a[0] < b[0]
    } else {
        path_less(a.drop_first(), b.drop_first())
    }
}

/// The ranking order of results: higher relevance first, then by path.
pub open spec fn ranked_before(a: SearchResult, b: SearchResult) -> bool {
    a.relevance_score > b.relevance_score || (a.relevance_score == b.relevance_score && path_less(
        a.file_path@,
        b.file_path@,
    ))
}

proof fn lemma_path_less_total(a: Seq<char>, b: Seq<char>)
    requires
        a != b,
    ensures
        path_less(a, b) || path_less(b, a),
    decreases a.len(),
{
    if a.len() == 0 && b.len() == 0 {
        assert(a =~= b);
    }
    if a.len() > 0 && b.len() > 0 && a[0] == b[0] {
        assert(a =~= seq![a[0]] + a.drop_first());
        assert(b =~= seq![b[0]] + b.drop_first());
        lemma_path_less_total(a.drop_first(), b.drop_first());
    }
}

proof fn lemma_path_less_skip(a: Seq<char>, b: Seq<char>, i: int)
    requires
        0 <= i < a.len(),
        i < b.len(),
        a[i] == b[i],
    ensures
        path_less(a.skip(i), b.skip(i)) == path_less(a.skip(i + 1), b.skip(i + 1)),
{
    assert(a.skip(i).drop_first() =~= a.skip(i + 1));
    assert(b.skip(i).drop_first() =~= b.skip(i + 1));
}

/// Whether path `a` comes before path `b`.
fn path_before(a: &String, b: &String) -> (r: bool)
    ensures
        r == path_less(a@, b@),
{
    let x = chars_of(a.as_str());
    let y = chars_of(b.as_str());
    let mut i: usize = 0;
    assert(x@.skip(0) =~= x@);
    assert(y@.skip(0) =~= y@);
    while i < x.len() && i < y.len() && x[i] == y[i]
        invariant
            i <= x@.len(),
            i <= y@.len(),
            path_less(x@, y@) == path_less(x@.skip(i as int), y@.skip(i as int)),
        decreases x@.len() - i,
    {
        proof {
            lemma_path_less_skip(x@, y@, i as int);
        }
        i = i + 1;
    }
    if i == x.len() {
        i < y.len()
    } else if i == y.len() {
        false
    } else {
        assert(x@.skip(i as int)[0] == x@[i as int]);
        assert(y@.skip(i as int)[0] == y@[i as int]);
        x[i] < y[i]
    }
}

/// Whether `a` ranks before `b`.
fn ranks_before(a: &SearchResult, b: &SearchResult) -> (r: bool)
    ensures
        r == ranked_before(*a, *b),
{
    a.relevance_score > b.relevance_score || (a.relevance_score == b.relevance_score && path_before(
        &a.file_path,
        &b.file_path,
    ))
}

pub open spec fn docs_distinct(docs: Seq<Document>) -> bool {
    forall|i: int, j: int|
        0 <= i < docs.len() && 0 <= j < docs.len() && i != j ==> (#[trigger] docs[i]).path@
            != (#[trigger] docs[j]).path@
}

/// Whether `r` is the result of one of the first `n` documents, and that
/// document is relevant.
pub open spec fn from_some_doc(r: SearchResult, terms: Seq<Seq<char>>, docs: Seq<Document>, n: int) -> bool {
    exists|j: int| 0 <= j < n && fits_doc(r, terms, #[trigger] docs[j])
}

/// Whether `r` is the result of the readable document `d`, and `d` is
/// relevant.
pub open spec fn fits_doc(r: SearchResult, terms: Seq<Seq<char>>, d: Document) -> bool {
    match d.content {
        Some(c) => result_fits(r, terms, d.path@, c@) && r.relevance_score > 0,
        None => false,
    }
}

/// Whether `d` could be read and is relevant to the terms.
pub open spec fn relevant_doc(terms: Seq<Seq<char>>, d: Document) -> bool {
    match d.content {
        Some(c) => relevance(terms, c@) > 0,
        None => false,
    }
}

/// Whether the text of `d`, if any, has fewer than `usize::MAX` characters.
pub open spec fn doc_fits_memory(d: Document) -> bool {
    match d.content {
        Some(c) => c@.len() < usize::MAX,
        None => true,
    }
}

/// Whether some result in `rs` is for `path`.
pub open spec fn has_result_for(rs: Seq<SearchResult>, path: Seq<char>) -> bool {
    exists|i: int| 0 <= i < rs.len() && (#[trigger] rs[i]).file_path@ == path
}

/// Whether results are in ranking order.
pub open spec fn is_ranked(rs: Seq<SearchResult>) -> bool {
    forall|i: int| 0 <= i < rs.len() - 1 ==> ranked_before(#[trigger] rs[i], rs[i + 1])
}

/// Searches the documents for the keywords. The result holds one entry per
/// readable document of positive relevance and nothing else, ranked by
/// relevance and then by path. An empty keyword list finds nothing.
#[verifier::rlimit(40)]
pub fn search(keywords: &Vec<String>, docs: &Vec<Document>) -> (r: Vec<SearchResult>)
    requires
        docs_distinct(docs@),
        forall|j: int| 0 <= j < docs@.len() ==> doc_fits_memory(#[trigger] docs@[j]),
    ensures
        is_ranked(r@),
        forall|i: int| 0 <= i < r@.len() ==> from_some_doc(#[trigger] r@[i], search_terms(keywords@.map_values(|k: String| k@)), docs@, docs@.len() as int),
        forall|j: int| 0 <= j < docs@.len() && relevant_doc(search_terms(keywords@.map_values(|k: String| k@)), #[trigger] docs@[j]) ==> has_result_for(r@, docs@[j].path@),
{
    let terms = terms_of(keywords);
    let ghost tv = terms_view(terms@);
    let mut out: Vec<SearchResult> = Vec::new();
    let mut d: usize = 0;
    while d < docs.len()
        invariant
            d <= docs@.len(),
            tv == terms_view(terms@),
            tv == search_terms(keywords@.map_values(|k: String| k@)),
            docs_distinct(docs@),
            forall|j: int| 0 <= j < docs@.len() ==> doc_fits_memory(#[trigger] docs@[j]),
            is_ranked(out@),
            forall|i: int| 0 <= i < out@.len() ==> from_some_doc(#[trigger] out@[i], tv, docs@, d as int),
            forall|j: int| 0 <= j < d && relevant_doc(tv, #[trigger] docs@[j]) ==> has_result_for(out@, docs@[j].path@),
        decreases docs@.len() - d,
    {
        let doc = &docs[d];
        match &doc.content {
            None => {},
            Some(c) => {
                let res = score_document(&terms, &doc.path, c);
                if res.relevance_score > 0 {
                    let mut p: usize = 0;
                    while p < out.len() && !ranks_before(&res, &out[p])
                        invariant
                            p <= out@.len(),
                            p > 0 ==> !ranked_before(res, out@[p - 1]),
                        decreases out@.len() - p,
                    {
                        p = p + 1;
                    }
                    proof {
                        if p > 0 {
                            let prev = out@[p - 1];
                            assert(from_some_doc(prev, tv, docs@, d as int));
                            let j = choose|j: int| 0 <= j < d && fits_doc(prev, tv, #[trigger] docs@[j]);
                            assert(docs@[j].path@ != docs@[d as int].path@);
                            lemma_path_less_total(prev.file_path@, res.file_path@);
                        }
                    }
                    let ghost before = out@;
                    out.insert(p, res);
                    proof {
                        let after = out@;
                        assert forall|i: int| 0 <= i < after.len() - 1 implies ranked_before(#[trigger] after[i], after[i + 1]) by {
                            if i < p - 1 {
                                assert(after[i] == before[i] && after[i + 1] == before[i + 1]);
                            } else if i == p - 1 {
                            } else if i == p {
                            } else {
                                assert(after[i] == before[i - 1] && after[i + 1] == before[i]);
                            }
                        }
                        assert forall|i: int| 0 <= i < after.len() implies from_some_doc(#[trigger] after[i], tv, docs@, d + 1) by {
                            if i < p {
                                assert(after[i] == before[i]);
                                assert(from_some_doc(before[i], tv, docs@, d as int));
                            } else if i == p {
                                assert(fits_doc(after[i], tv, docs@[d as int]));
                            } else {
                                assert(after[i] == before[i - 1]);
                                assert(from_some_doc(before[i - 1], tv, docs@, d as int));
                            }
                        }
                        assert forall|j: int| 0 <= j < d + 1 && relevant_doc(tv, #[trigger] docs@[j]) implies has_result_for(after, docs@[j].path@) by {
                            if j == d {
                                assert(after[p as int].file_path@ == docs@[j].path@);
                            } else {
                                assert(has_result_for(before, docs@[j].path@));
                                let i = choose|i: int| 0 <= i < before.len() && (#[trigger] before[i]).file_path@ == docs@[j].path@;
                                if i < p {
                                    assert(after[i] == before[i]);
                                } else {
                                    assert(after[i + 1] == before[i]);
                                }
                            }
                        }
                    }
                } else {
                    proof {
                        assert forall|i: int| 0 <= i < out@.len() implies from_some_doc(#[trigger] out@[i], tv, docs@, d + 1) by {
                            assert(from_some_doc(out@[i], tv, docs@, d as int));
                        }
                    }
                }
            },
        }
        proof {
            assert forall|i: int| 0 <= i < out@.len() implies from_some_doc(#[trigger] out@[i], tv, docs@, d + 1) by {
                if from_some_doc(out@[i], tv, docs@, d as int) {
                }
            }
        }
        d = d + 1;
    }
    out
}

} // verus!

verus! {

/// Adding a keyword to a query never lowers the relevance of a text: the
/// new keyword either repeats a term (nothing changes) or adds one, which can
/// only raise both the number of terms found and the number of hits.
pub proof fn lemma_more_keywords_never_lower(keywords: Seq<Seq<char>>, k: Seq<char>, content: Seq<char>)
    ensures
        relevance(search_terms(keywords.push(k)), content) >= relevance(search_terms(keywords), content),
{
    let ks = keywords.push(k);
    assert(ks.drop_last() =~= keywords);
    let t = search_terms(keywords);
    let ls = lines(content);
    if search_terms(ks) != t {
        let x = lower_of(k);
        let t2 = t.push(x);
        assert(t2.drop_last() =~= t);
        let c = coverage(t, ls);
        let m = match_total(t, ls);
        let c2 = coverage(t2, ls);
        let m2 = match_total(t2, ls);
        assert(c2 >= c && m2 >= m);
        assert(c2 * m2 >= c * m) by (nonlinear_arith)
            requires
                c2 >= c,
                m2 >= m,
        ;
    }
}

} // verus!

verus! {

/// The same law on search results: the result for a file under a query with
/// one more keyword scores at least as high as its result under the query.
pub proof fn lemma_result_never_lower(
    narrow: SearchResult,
    wide: SearchResult,
    keywords: Seq<Seq<char>>,
    k: Seq<char>,
    path: Seq<char>,
    content: Seq<char>,
)
    requires
        result_fits(narrow, search_terms(keywords), path, content),
        result_fits(wide, search_terms(keywords.push(k)), path, content),
    ensures
        wide.relevance_score >= narrow.relevance_score,
{
    lemma_more_keywords_never_lower(keywords, k, content);
}

} // verus!
