//! Search results and their construction from the records that the academic
//! search services return.
use vstd::prelude::*;
use vstd::string::StringExecFns;
use crate::text::{decimal_text, signed_decimal};
use crate::message::same_text;

verus! {

/// One hit of a web or academic search.
#[derive(Debug)]
pub struct SearchResult {
    pub title: String,
    pub url: String,
    pub snippet: String,
    pub source_type: Option<String>,
    pub authors: Option<Vec<String>>,
    pub publish_date: Option<String>,
    pub doi: Option<String>,
}

/// The hits of one search, with the query that produced them.
#[derive(Debug)]
pub struct SearchResponse {
    pub results: Vec<SearchResult>,
    pub query: String,
}

/// The body of a Crossref works query.
#[derive(Debug)]
pub struct CrossrefResponse {
    pub message: CrossrefMessage,
}

#[derive(Debug)]
pub struct CrossrefMessage {
    pub items: Vec<CrossrefWork>,
}

/// One work listed by Crossref.
#[derive(Debug)]
pub struct CrossrefWork {
    pub doi: String,
    pub title: Vec<String>,
    pub abstract_: Option<String>,
    pub author: Option<Vec<CrossrefAuthor>>,
    pub published: Option<CrossrefDate>,
}

#[derive(Debug)]
pub struct CrossrefAuthor {
    pub given: Option<String>,
    pub family: Option<String>,
}

/// A Crossref date: a list of `[year, month, day]` prefixes.
#[derive(Debug)]
pub struct CrossrefDate {
    pub date_parts: Vec<Vec<i32>>,
}

#[derive(Debug)]
pub struct Author {
    pub name: String,
}

#[derive(Debug)]
pub struct ExternalIds {
    pub doi: Option<String>,
}

/// One paper listed by Semantic Scholar.
#[derive(Debug)]
pub struct Paper {
    pub title: String,
    pub abstract_: Option<String>,
    pub url: Option<String>,
    pub year: Option<i32>,
    pub authors: Vec<Author>,
    pub external_ids: Option<ExternalIds>,
}

/// The body of a Semantic Scholar paper search.
#[derive(Debug)]
pub struct SemanticScholarResponse {
    pub data: Vec<Paper>,
}

/// The text of an optional string, empty when absent.
pub open spec fn text_or_empty(o: Option<String>) -> Seq<char> {
    match o {
        Some(s) => s@,
        None => Seq::empty(),
    }
}

/// Whether `o` is present exactly when `t` is, with the same text.
pub open spec fn opt_text_is(o: Option<String>, t: Option<Seq<char>>) -> bool {
    match (o, t) {
        (Some(s), Some(u)) => s@ == u,
        (None, None) => true,
        _ => false,
    }
}

/// Whether the strings `v` have the texts `t`, in order.
pub open spec fn texts_are(v: Seq<String>, t: Seq<Seq<char>>) -> bool {
    &&& v.len() == t.len()
    &&& forall|i: int| 0 <= i < v.len() ==> (#[trigger] v[i])@ == t[i]
}

/// The display name of a Crossref author: given and family name joined by a
/// space, or whichever of them is present.
pub open spec fn crossref_name(a: CrossrefAuthor) -> Option<Seq<char>> {
    match (a.given, a.family) {
        (Some(g), Some(f)) => Some(g@ + seq![' '] + f@),
        (None, Some(f)) => Some(f@),
        (Some(g), None) => Some(g@),
        (None, None) => None,
    }
}

/// The names of the Crossref authors that have one, in order.
pub open spec fn crossref_names(authors: Seq<CrossrefAuthor>) -> Seq<Seq<char>>
    decreases authors.len(),
{
    if authors.len() == 0 {
        Seq::empty()
    } else {
        match crossref_name(authors.last()) {
            Some(n) => crossref_names(authors.drop_last()).push(n),
            None => crossref_names(authors.drop_last()),
        }
    }
}

/// The year of a Crossref date as text: the first part of its first prefix.
pub open spec fn crossref_year(p: Option<CrossrefDate>) -> Option<Seq<char>> {
    match p {
        Some(d) => if d.date_parts@.len() > 0 && d.date_parts@[0]@.len() > 0 {
            Some(signed_decimal(d.date_parts@[0]@[0] as int))
        } else {
            None
        },
        None => None,
    }
}

/// Whether `r` is the search result that presents the Crossref work `w`.
pub open spec fn presents_crossref(r: SearchResult, w: CrossrefWork) -> bool {
    &&& r.title@ == (if w.title@.len() > 0 { w.title@[0]@ } else { Seq::empty() })
    &&& r.url@ == "https://doi.org/"@ + w.doi@
    &&& r.snippet@ == text_or_empty(w.abstract_)
    &&& opt_text_is(r.source_type, Some("crossref"@))
    &&& match w.author {
        Some(a) => r.authors matches Some(v) && texts_are(v@, crossref_names(a@)),
        None => r.authors is None,
    }
    &&& opt_text_is(r.publish_date, crossref_year(w.published))
    &&& opt_text_is(r.doi, Some(w.doi@))
}

/// Whether `r` is the search result that presents the Semantic Scholar paper `p`.
pub open spec fn presents_paper(r: SearchResult, p: Paper) -> bool {
    &&& r.title@ == p.title@
    &&& r.url@ == text_or_empty(p.url)
    &&& r.snippet@ == text_or_empty(p.abstract_)
    &&& opt_text_is(r.source_type, Some("academic"@))
    &&& r.authors matches Some(v) && v@.len() == p.authors@.len()
        && forall|i: int| 0 <= i < v@.len() ==> (#[trigger] v@[i])@ == p.authors@[i].name@
    &&& opt_text_is(r.publish_date, match p.year {
        Some(y) => Some(signed_decimal(y as int)),
        None => None,
    })
    &&& opt_text_is(r.doi, match p.external_ids {
        Some(ids) => match ids.doi {
            Some(d) => Some(d@),
            None => None,
        },
        None => None,
    })
}

fn copy_text(o: &Option<String>) -> (r: Option<String>)
    ensures
        r == *o,
{
    match o {
        Some(s) => Some(s.clone()),
        None => None,
    }
}

fn text_or_default(o: &Option<String>) -> (r: String)
    ensures
        r@ == text_or_empty(*o),
{
    match o {
        Some(s) => s.clone(),
        None => String::new(),
    }
}

fn crossref_author_name(a: &CrossrefAuthor) -> (r: Option<String>)
    ensures
        opt_text_is(r, crossref_name(*a)),
{
    match (&a.given, &a.family) {
        (Some(g), Some(f)) => {
            proof {
                reveal_strlit(" ");
            }
            let mut n = g.clone();
            n.append(" ");
            assert(" "@ =~= seq![' ']);
            n.append(f.as_str());
            Some(n)
        },
        (None, Some(f)) => Some(f.clone()),
        (Some(g), None) => Some(g.clone()),
        (None, None) => None,
    }
}

fn crossref_author_names(authors: &Vec<CrossrefAuthor>) -> (r: Vec<String>)
    ensures
        texts_are(r@, crossref_names(authors@)),
{
    let mut names: Vec<String> = Vec::new();
    let mut i: usize = 0;
    while i < authors.len()
        invariant
            i <= authors@.len(),
            texts_are(names@, crossref_names(authors@.take(i as int))),
        decreases authors@.len() - i,
    {
        assert(authors@.take(i + 1).drop_last() =~= authors@.take(i as int));
        match crossref_author_name(&authors[i]) {
            Some(n) => names.push(n),
            None => {},
        }
        i = i + 1;
    }
    assert(authors@.take(authors@.len() as int) =~= authors@);
    names
}

fn crossref_publish_year(p: &Option<CrossrefDate>) -> (r: Option<String>)
    ensures
        opt_text_is(r, crossref_year(*p)),
{
    match p {
        Some(d) => if d.date_parts.len() > 0 && d.date_parts[0].len() > 0 {
            Some(decimal_text(d.date_parts[0][0]))
        } else {
            None
        },
        None => None,
    }
}

/// The search results that present the works of a Crossref response, in order.
pub fn parse_crossref_results(response: CrossrefResponse) -> (r: Vec<SearchResult>)
    ensures
        r@.len() == response.message.items@.len(),
        forall|i: int| 0 <= i < r@.len() ==> presents_crossref(#[trigger] r@[i], response.message.items@[i]),
{
    let items = &response.message.items;
    let mut results: Vec<SearchResult> = Vec::new();
    let mut i: usize = 0;
    while i < items.len()
        invariant
            i <= items@.len(),
            results@.len() == i,
            forall|j: int| 0 <= j < i ==> presents_crossref(#[trigger] results@[j], items@[j]),
        decreases items@.len() - i,
    {
        let work = &items[i];
        let title = if work.title.len() > 0 { work.title[0].clone() } else { String::new() };
        let mut url = String::from_str("https://doi.org/");
        url.append(work.doi.as_str());
        let authors = match &work.author {
            Some(a) => Some(crossref_author_names(a)),
            None => None,
        };
        results.push(SearchResult {
            title,
            url,
            snippet: text_or_default(&work.abstract_),
            source_type: Some(String::from_str("crossref")),
            authors,
            publish_date: crossref_publish_year(&work.published),
            doi: Some(work.doi.clone()),
        });
        i = i + 1;
    }
    results
}

/// The search results that present the papers of a Semantic Scholar response,
/// in order.
pub fn parse_semantic_scholar_results(response: SemanticScholarResponse) -> (r: Vec<SearchResult>)
    ensures
        r@.len() == response.data@.len(),
        forall|i: int| 0 <= i < r@.len() ==> presents_paper(#[trigger] r@[i], response.data@[i]),
{
    let papers = &response.data;
    let mut results: Vec<SearchResult> = Vec::new();
    let mut i: usize = 0;
    while i < papers.len()
        invariant
            i <= papers@.len(),
            results@.len() == i,
            forall|j: int| 0 <= j < i ==> presents_paper(#[trigger] results@[j], papers@[j]),
        decreases papers@.len() - i,
    {
        let paper = &papers[i];
        let mut authors: Vec<String> = Vec::new();
        let mut k: usize = 0;
        while k < paper.authors.len()
            invariant
                k <= paper.authors@.len(),
                authors@.len() == k,
                forall|j: int| 0 <= j < k ==> (#[trigger] authors@[j])@ == paper.authors@[j].name@,
            decreases paper.authors@.len() - k,
        {
            authors.push(paper.authors[k].name.clone());
            k = k + 1;
        }
        let publish_date = match paper.year {
            Some(y) => Some(decimal_text(y)),
            None => None,
        };
        let doi = match &paper.external_ids {
            Some(ids) => copy_text(&ids.doi),
            None => None,
        };
        results.push(SearchResult {
            title: paper.title.clone(),
            url: text_or_default(&paper.url),
            snippet: text_or_default(&paper.abstract_),
            source_type: Some(String::from_str("academic")),
            authors: Some(authors),
            publish_date,
            doi,
        });
        i = i + 1;
    }
    results
}

/// How many results an academic search keeps.
pub const MAX_ACADEMIC_RESULTS: usize = 10;

/// Whether `a` comes before `b` or equals it, comparing character by
/// character (the order of their UTF-8 bytes).
pub open spec fn text_le(a: Seq<char>, b: Seq<char>) -> bool
    decreases a.len(),
{
    if a.len() == 0 {
        true
    } else if b.len() == 0 {
        false
    } else if a[0] != b[0] {
        (a[0] as u32) < (b[0] as u32)
    } else {
        text_le(a.drop_first(), b.drop_first())
    }
}

/// The publication date of a result as the sort key: absent dates come first.
pub open spec fn date_key(r: SearchResult) -> Option<Seq<char>> {
    match r.publish_date {
        Some(d) => Some(d@),
        None => None,
    }
}

/// Whether the key `a` is at most the key `b`.
pub open spec fn key_le(a: Option<Seq<char>>, b: Option<Seq<char>>) -> bool {
    match (a, b) {
        (None, _) => true,
        (Some(_), None) => false,
        (Some(x), Some(y)) => text_le(x, y),
    }
}

/// `x` placed into the newest-first list `s` after every entry that is at
/// least as recent.
pub open spec fn insert_by_date(s: Seq<SearchResult>, x: SearchResult) -> Seq<SearchResult>
    decreases s.len(),
{
    if s.len() == 0 || key_le(date_key(x), date_key(s.last())) {
        s.push(x)
    } else {
        insert_by_date(s.drop_last(), x).push(s.last())
    }
}

/// `s` sorted newest first; results with the same date keep their order.
pub open spec fn sorted_by_date(s: Seq<SearchResult>) -> Seq<SearchResult>
    decreases s.len(),
{
    if s.len() == 0 {
        s
    } else {
        insert_by_date(sorted_by_date(s.drop_last()), s.last())
    }
}

/// Whether two results carry the same DOI.
pub open spec fn same_doi(a: SearchResult, b: SearchResult) -> bool {
    a.doi is Some && b.doi is Some && a.doi->0@ == b.doi->0@
}

/// `s` without each result whose DOI repeats that of the result kept just
/// before it.
pub open spec fn dedup_by_doi(s: Seq<SearchResult>) -> Seq<SearchResult>
    decreases s.len(),
{
    if s.len() == 0 {
        s
    } else {
        let d = dedup_by_doi(s.drop_last());
        if d.len() > 0 && same_doi(s.last(), d.last()) {
            d
        } else {
            d.push(s.last())
        }
    }
}

/// The merged academic results: newest first, repeated DOIs dropped, at most ten.
pub open spec fn merged(s: Seq<SearchResult>) -> Seq<SearchResult> {
    let d = dedup_by_doi(sorted_by_date(s));
    if d.len() <= MAX_ACADEMIC_RESULTS {
        d
    } else {
        d.take(MAX_ACADEMIC_RESULTS as int)
    }
}

fn text_le_exec(a: &str, b: &str) -> (r: bool)
    ensures
        r == text_le(a@, b@),
{
    let n = a.unicode_len();
    let m = b.unicode_len();
    let mut i: usize = 0;
    assert(a@.skip(0) =~= a@ && b@.skip(0) =~= b@);
    while i < n && i < m && a.get_char(i) == b.get_char(i)
        invariant
            n == a@.len(),
            m == b@.len(),
            i <= n,
            i <= m,
            text_le(a@, b@) == text_le(a@.skip(i as int), b@.skip(i as int)),
        decreases n - i,
    {
        assert(a@.skip(i as int).drop_first() =~= a@.skip(i + 1));
        assert(b@.skip(i as int).drop_first() =~= b@.skip(i + 1));
        i = i + 1;
    }
    if i == n {
        true
    } else if i == m {
        false
    } else {
        (a.get_char(i) as u32) < (b.get_char(i) as u32)
    }
}

fn key_le_exec(a: &Option<String>, b: &Option<String>) -> (r: bool)
    ensures
        r == key_le(
            match a {
                Some(d) => Some(d@),
                None => None,
            },
            match b {
                Some(d) => Some(d@),
                None => None,
            },
        ),
{
    match (a, b) {
        (None, _) => true,
        (Some(_), None) => false,
        (Some(x), Some(y)) => text_le_exec(x.as_str(), y.as_str()),
    }
}

proof fn lemma_insert_at(s: Seq<SearchResult>, x: SearchResult, p: int)
    requires
        0 <= p <= s.len(),
        p == 0 || key_le(date_key(x), date_key(s[p - 1])),
        forall|j: int| p <= j < s.len() ==> !key_le(date_key(x), date_key(#[trigger] s[j])),
    ensures
        insert_by_date(s, x) == s.insert(p, x),
    decreases s.len(),
{
    if p == s.len() {
        assert(s.insert(p, x) =~= s.push(x));
    } else {
        assert(!key_le(date_key(x), date_key(s.last())));
        assert forall|j: int| p <= j < s.drop_last().len() implies !key_le(
            date_key(x),
            date_key(#[trigger] s.drop_last()[j]),
        ) by {
            assert(s.drop_last()[j] == s[j]);
        }
        if p > 0 {
            assert(s.drop_last()[p - 1] == s[p - 1]);
        }
        lemma_insert_at(s.drop_last(), x, p);
        assert(s.drop_last().insert(p, x).push(s.last()) =~= s.insert(p, x));
    }
}

fn same_doi_exec(a: &SearchResult, b: &SearchResult) -> (r: bool)
    ensures
        r == same_doi(*a, *b),
{
    match (&a.doi, &b.doi) {
        (Some(x), Some(y)) => same_text(x.as_str(), y.as_str()),
        _ => false,
    }
}

/// Merges the results of several academic sources: newest first (results
/// with the same date keep their order), each result dropped whose DOI
/// repeats that of the one kept before it, at most ten.
pub fn merge_academic_results(results: Vec<SearchResult>) -> (r: Vec<SearchResult>)
    ensures
        r@ == merged(results@),
{
    let ghost all = results@;
    let mut rest = results;
    let mut sorted: Vec<SearchResult> = Vec::new();
    let ghost mut done: int = 0;
    while rest.len() > 0
        invariant
            0 <= done <= all.len(),
            rest@ == all.skip(done),
            sorted@ == sorted_by_date(all.take(done)),
        decreases rest@.len(),
    {
        let x = rest.remove(0);
        assert(all.take(done + 1).drop_last() =~= all.take(done));
        assert(all.take(done + 1).last() == x);
        let mut p = sorted.len();
        while p > 0 && !key_le_exec(&x.publish_date, &sorted[p - 1].publish_date)
            invariant
                p <= sorted@.len(),
                forall|j: int| p <= j < sorted@.len() ==> !key_le(date_key(x), date_key(#[trigger] sorted@[j])),
            decreases p,
        {
            p = p - 1;
        }
        proof {
            lemma_insert_at(sorted@, x, p as int);
            done = done + 1;
            assert(rest@ =~= all.skip(done));
        }
        sorted.insert(p, x);
    }
    assert(all.take(done) =~= all);
    let ghost ordered = sorted@;
    let mut kept: Vec<SearchResult> = Vec::new();
    let ghost mut used: int = 0;
    let mut source = sorted;
    while source.len() > 0
        invariant
            0 <= used <= ordered.len(),
            source@ == ordered.skip(used),
            kept@ == dedup_by_doi(ordered.take(used)),
        decreases source@.len(),
    {
        let x = source.remove(0);
        assert(ordered.take(used + 1).drop_last() =~= ordered.take(used));
        assert(ordered.take(used + 1).last() == x);
        let n = kept.len();
        let repeat = n > 0 && same_doi_exec(&x, &kept[n - 1]);
        if !repeat {
            kept.push(x);
        }
        proof {
            used = used + 1;
            assert(source@ =~= ordered.skip(used));
        }
    }
    assert(ordered.take(used) =~= ordered);
    kept.truncate(MAX_ACADEMIC_RESULTS);
    kept
}

} // verus!
