//! The web tools: `WebFetch` reads a page and hands back its text, `WebSearch`
//! asks a search service and lists what it found.  Sending the requests,
//! keeping the caches and reading the clock are the application's work; this
//! module decides what an answer becomes and what each tool replies.

use vstd::prelude::*;
use crate::json::{JsonValue, member, as_text, json_str};
use crate::tool::{ToolError, ToolResult, PermissionCheckResult};
use crate::ask::opt_chars;
use crate::text::{lemma_seq_lt_total, lemma_seq_lt_transitive};
use crate::text::{chars_of, string_from, matches_at, lowercase, to_lowercase, seq_lt, chars_lt, join, join_chars, trim, trim_str, decimal, usize_to_decimal};
use crate::pointer::{replace_all, replace_all_chars};
use crate::rewind::texts;
use crate::text::{eq_chars, ends_with, has_suffix, split_on, split_chars, is_ws, is_whitespace, find_char_from, trim_chars, contains, contains_chars, slice_range, u64_to_string};
use crate::json::{all_digits, digits_value};

verus! {

/// One hit of a search.
#[derive(Debug)]
pub struct SearchResult {
    pub title: String,
    pub url: String,
    pub snippet: Option<String>,
    pub publish_date: Option<String>,
}

/// A search hit as plain text.
pub struct SearchResultView {
    pub title: Seq<char>,
    pub url: Seq<char>,
    pub snippet: Option<Seq<char>>,
    pub publish_date: Option<Seq<char>>,
}

impl View for SearchResult {
    type V = SearchResultView;

    open spec fn view(&self) -> SearchResultView {
        SearchResultView {
            title: self.title@,
            url: self.url@,
            snippet: opt_chars(self.snippet),
            publish_date: opt_chars(self.publish_date),
        }
    }
}

impl Clone for SearchResult {
    fn clone(&self) -> (r: Self)
        ensures
            r == *self,
    {
        SearchResult {
            title: self.title.clone(),
            url: self.url.clone(),
            snippet: match &self.snippet {
                Some(s) => Some(s.clone()),
                None => None,
            },
            publish_date: match &self.publish_date {
                Some(s) => Some(s.clone()),
                None => None,
            },
        }
    }
}

/// The input of `WebFetch`.
#[derive(Debug)]
pub struct WebFetchInput {
    /// The URL to read
    pub url: String,
    /// What to do with the page
    pub prompt: String,
}

/// The input of `WebSearch`.
#[derive(Debug)]
pub struct WebSearchInput {
    /// What to search for
    pub query: String,
    /// Only hits from these domains
    pub allowed_domains: Option<Vec<String>>,
    /// No hits from these domains
    pub blocked_domains: Option<Vec<String>>,
}

/// The hits of a list of results, in order.
pub open spec fn result_views(rs: Seq<SearchResult>) -> Seq<SearchResultView> {
    rs.map_values(|r: SearchResult| r@)
}

/// The text before the first occurrence of `sep` (the first piece that
/// `str::split` gives), or all of `s` where `sep` does not occur.
pub open spec fn head_before(s: Seq<char>, sep: Seq<char>) -> Seq<char>
    decreases s.len(),
{
    if sep.len() == 0 {
        seq![]
    } else if s.len() < sep.len() {
        s
    } else if s.take(sep.len() as int) == sep {
        seq![]
    } else {
        seq![s[0]] + head_before(s.skip(1), sep)
    }
}

/// The first `n` items (`Iterator::take`).
pub open spec fn first_n<A>(s: Seq<A>, n: nat) -> Seq<A> {
    if s.len() <= n {
        s
    } else {
        s.take(n as int)
    }
}

/// The items of a JSON array.
pub open spec fn array_items(v: Option<JsonValue>) -> Option<Seq<JsonValue>> {
    match v {
        Some(JsonValue::Array(items)) => Some(items@),
        _ => None,
    }
}

/// The three shapes of hit that the search services answer with.
#[derive(Debug, Clone, Copy, PartialEq, Eq, Structural)]
pub enum HitForm {
    /// A DuckDuckGo topic: `Text` and `FirstURL`; the title is the text up to " - "
    Topic,
    /// A Bing web page: `name`, `url`, `snippet`, `dateLastCrawled`
    Bing,
    /// A Google item: `title`, `link`, `snippet`
    Google,
}

/// The hit that one JSON entry of the given form holds, if it holds one.
pub open spec fn hit_of(form: HitForm, v: JsonValue) -> Option<SearchResultView> {
    match form {
        HitForm::Topic => match (as_text(member(v, "Text"@)), as_text(member(v, "FirstURL"@))) {
            (Some(t), Some(u)) => Some(
                SearchResultView { title: head_before(t, " - "@), url: u, snippet: Some(t), publish_date: None },
            ),
            _ => None,
        },
        HitForm::Bing => match (as_text(member(v, "name"@)), as_text(member(v, "url"@))) {
            (Some(t), Some(u)) => Some(
                SearchResultView {
                    title: t,
                    url: u,
                    snippet: as_text(member(v, "snippet"@)),
                    publish_date: as_text(member(v, "dateLastCrawled"@)),
                },
            ),
            _ => None,
        },
        HitForm::Google => match (as_text(member(v, "title"@)), as_text(member(v, "link"@))) {
            (Some(t), Some(u)) => Some(
                SearchResultView { title: t, url: u, snippet: as_text(member(v, "snippet"@)), publish_date: None },
            ),
            _ => None,
        },
    }
}

/// The hits of the entries that hold one, in order.
pub open spec fn hits(items: Seq<JsonValue>, form: HitForm) -> Seq<SearchResultView>
    decreases items.len(),
{
    if items.len() == 0 {
        seq![]
    } else {
        let rest = hits(items.drop_last(), form);
        match hit_of(form, items.last()) {
            Some(h) => rest.push(h),
            None => rest,
        }
    }
}

/// The hits of one DuckDuckGo related topic: the first three of its `Topics`
/// where it groups some, else its own.
pub open spec fn topic_hits(t: JsonValue) -> Seq<SearchResultView> {
    match array_items(member(t, "Topics"@)) {
        Some(sub) => hits(first_n(sub, 3), HitForm::Topic),
        None => match hit_of(HitForm::Topic, t) {
            Some(h) => seq![h],
            None => seq![],
        },
    }
}

/// The hits of a run of related topics, one topic after the other.
pub open spec fn topics_hits(ts: Seq<JsonValue>) -> Seq<SearchResultView>
    decreases ts.len(),
{
    if ts.len() == 0 {
        seq![]
    } else {
        topics_hits(ts.drop_last()) + topic_hits(ts.last())
    }
}

/// What a DuckDuckGo answer lists: the abstract first, where it has both a
/// text and a URL, then the hits of the first ten related topics.
pub open spec fn duckduckgo_hits(data: JsonValue) -> Seq<SearchResultView> {
    let related = match array_items(member(data, "RelatedTopics"@)) {
        Some(ts) => topics_hits(first_n(ts, 10)),
        None => seq![],
    };
    match (as_text(member(data, "Abstract"@)), as_text(member(data, "AbstractURL"@))) {
        (Some(a), Some(u)) => if a.len() > 0 && u.len() > 0 {
            seq![
                SearchResultView {
                    title: match as_text(member(data, "Heading"@)) {
                        Some(h) => h,
                        None => "DuckDuckGo Instant Answer"@,
                    },
                    url: u,
                    snippet: Some(a),
                    publish_date: None,
                },
            ] + related
        } else {
            related
        },
        _ => related,
    }
}

/// What a Bing answer lists: the hits of `webPages.value`.
pub open spec fn bing_hits(data: JsonValue) -> Seq<SearchResultView> {
    match member(data, "webPages"@) {
        Some(wp) => match array_items(member(wp, "value"@)) {
            Some(ps) => hits(ps, HitForm::Bing),
            None => seq![],
        },
        None => seq![],
    }
}

/// What a Google answer lists: the hits of `items`.
pub open spec fn google_hits(data: JsonValue) -> Seq<SearchResultView> {
    match array_items(member(data, "items"@)) {
        Some(items) => hits(items, HitForm::Google),
        None => seq![],
    }
}

fn owned_text(v: Option<&JsonValue>) -> (r: Option<String>)
    ensures
        opt_chars(r) == as_text(match v {
            Some(x) => Some(*x),
            None => None,
        }),
{
    match v {
        Some(JsonValue::String(s)) => Some(s.clone()),
        _ => None,
    }
}

/// The part of `s` before the first `sep` (all of `s` where it does not occur).
pub fn text_before(s: &str, sep: &str) -> (r: String)
    ensures
        r@ == head_before(s@, sep@),
{
    let v = chars_of(s);
    let p = chars_of(sep);
    if p.len() == 0 {
        return String::new();
    }
    let mut i: usize = 0;
    proof {
        assert(v@.skip(0) =~= v@);
        assert(v@.take(0) =~= Seq::<char>::empty());
    }
    while i < v.len() && !matches_at(v.as_slice(), p.as_slice(), i)
        invariant
            i <= v@.len(),
            p@ == sep@,
            v@ == s@,
            p@.len() > 0,
            head_before(v@, p@) == v@.take(i as int) + head_before(v@.skip(i as int), p@),
        decreases v@.len() - i,
    {
        proof {
            let t = v@.skip(i as int);
            if t.len() >= p@.len() {
                assert(t.take(p@.len() as int) =~= v@.subrange(i as int, i + p@.len()));
            }
            if t.len() < p@.len() {
                assert(head_before(t, p@) == t);
            }
            assert(t.skip(1) =~= v@.skip(i + 1));
            assert(v@.take(i + 1) =~= v@.take(i as int) + seq![v@[i as int]]);
        }
        if v.len() - i < p.len() {
            proof {
                let t = v@.skip(i as int);
                assert(v@.take(i as int) + t =~= v@);
            }
            return string_from(v.as_slice());
        }
        i = i + 1;
    }
    proof {
        let t = v@.skip(i as int);
        if i < v@.len() {
            assert(t.take(p@.len() as int) =~= v@.subrange(i as int, i + p@.len()));
        } else {
            assert(t.len() == 0);
        }
        assert(head_before(t, p@) == Seq::<char>::empty());
        assert(v@.take(i as int) + Seq::<char>::empty() =~= v@.take(i as int));
    }
    let r = crate::text::slice_range(v.as_slice(), 0, i);
    proof {
        assert(r@ =~= v@.take(i as int));
    }
    string_from(r.as_slice())
}

/// The hit that one JSON entry of the given form holds.
fn hit(form: HitForm, v: &JsonValue) -> (r: Option<SearchResult>)
    ensures
        match r {
            Some(x) => hit_of(form, *v) == Some(x@),
            None => hit_of(form, *v) is None,
        },
{
    match form {
        HitForm::Topic => match (owned_text(v.get("Text")), owned_text(v.get("FirstURL"))) {
            (Some(t), Some(u)) => {
                let title = text_before(t.as_str(), " - ");
                Some(SearchResult { title, url: u, snippet: Some(t), publish_date: None })
            },
            _ => None,
        },
        HitForm::Bing => match (owned_text(v.get("name")), owned_text(v.get("url"))) {
            (Some(t), Some(u)) => Some(
                SearchResult {
                    title: t,
                    url: u,
                    snippet: owned_text(v.get("snippet")),
                    publish_date: owned_text(v.get("dateLastCrawled")),
                },
            ),
            _ => None,
        },
        HitForm::Google => match (owned_text(v.get("title")), owned_text(v.get("link"))) {
            (Some(t), Some(u)) => Some(
                SearchResult { title: t, url: u, snippet: owned_text(v.get("snippet")), publish_date: None },
            ),
            _ => None,
        },
    }
}

/// The hits of the first `n` entries.
fn collect_hits(items: &Vec<JsonValue>, n: usize, form: HitForm) -> (r: Vec<SearchResult>)
    requires
        n <= items@.len(),
    ensures
        result_views(r@) == hits(items@.take(n as int), form),
{
    let mut r: Vec<SearchResult> = Vec::new();
    let mut i: usize = 0;
    proof {
        assert(result_views(r@) =~= Seq::<SearchResultView>::empty());
        assert(items@.take(0) =~= Seq::<JsonValue>::empty());
    }
    while i < n
        invariant
            i <= n <= items@.len(),
            result_views(r@) == hits(items@.take(i as int), form),
        decreases n - i,
    {
        proof {
            assert(items@.take(i + 1).drop_last() =~= items@.take(i as int));
            assert(items@.take(i + 1).last() == items@[i as int]);
        }
        match hit(form, &items[i]) {
            Some(h) => {
                let ghost before = r@;
                r.push(h);
                proof {
                    assert(result_views(r@) =~= result_views(before).push(h@));
                }
            },
            None => {},
        }
        i = i + 1;
    }
    r
}

/// The hits of one DuckDuckGo related topic.
fn topic_results(t: &JsonValue) -> (r: Vec<SearchResult>)
    ensures
        result_views(r@) == topic_hits(*t),
{
    match t.get("Topics") {
        Some(JsonValue::Array(sub)) => {
            let n: usize = if sub.len() < 3 {
                sub.len()
            } else {
                3
            };
            proof {
                if sub@.len() <= 3 {
                    assert(sub@.take(n as int) =~= sub@);
                }
            }
            collect_hits(sub, n, HitForm::Topic)
        },
        _ => {
            let mut r: Vec<SearchResult> = Vec::new();
            match hit(HitForm::Topic, t) {
                Some(h) => {
                    r.push(h);
                    proof {
                        assert(result_views(r@) =~= seq![h@]);
                    }
                },
                None => {
                    proof {
                        assert(result_views(r@) =~= Seq::<SearchResultView>::empty());
                    }
                },
            }
            r
        },
    }
}

proof fn lemma_views_concat(a: Seq<SearchResult>, b: Seq<SearchResult>)
    ensures
        result_views(a + b) == result_views(a) + result_views(b),
{
    assert(result_views(a + b) =~= result_views(a) + result_views(b));
}

/// What a DuckDuckGo Instant Answer lists: its abstract first (where it has a
/// text and a URL), then the hits of its first ten related topics, taking at
/// most three from a group.
pub fn duckduckgo_results(data: &JsonValue) -> (r: Vec<SearchResult>)
    ensures
        result_views(r@) == duckduckgo_hits(*data),
{
    let mut results: Vec<SearchResult> = Vec::new();
    proof {
        assert(result_views(results@) =~= Seq::<SearchResultView>::empty());
    }
    match data.get("RelatedTopics") {
        Some(JsonValue::Array(ts)) => {
            let n: usize = if ts.len() < 10 {
                ts.len()
            } else {
                10
            };
            let mut i: usize = 0;
            proof {
                assert(ts@.take(0) =~= Seq::<JsonValue>::empty());
            }
            while i < n
                invariant
                    i <= n <= ts@.len(),
                    result_views(results@) == topics_hits(ts@.take(i as int)),
                decreases n - i,
            {
                let mut part = topic_results(&ts[i]);
                let ghost before = results@;
                let ghost added = part@;
                results.append(&mut part);
                proof {
                    lemma_views_concat(before, added);
                    assert(ts@.take(i + 1).drop_last() =~= ts@.take(i as int));
                    assert(ts@.take(i + 1).last() == ts@[i as int]);
                }
                i = i + 1;
            }
            proof {
                if ts@.len() <= 10 {
                    assert(ts@.take(n as int) =~= ts@);
                }
            }
        },
        _ => {},
    }
    match (owned_text(data.get("Abstract")), owned_text(data.get("AbstractURL"))) {
        (Some(a), Some(u)) => {
            let ac = chars_of(a.as_str());
            let uc = chars_of(u.as_str());
            if ac.len() > 0 && uc.len() > 0 {
                let title = match owned_text(data.get("Heading")) {
                    Some(h) => h,
                    None => String::from_str("DuckDuckGo Instant Answer"),
                };
                let head = SearchResult { title, url: u, snippet: Some(a), publish_date: None };
                let ghost before = results@;
                results.insert(0, head);
                proof {
                    assert(result_views(results@) =~= seq![head@] + result_views(before));
                }
            }
        },
        _ => {},
    }
    results
}

/// What a Bing Web Search answer lists: each page of `webPages.value` that has
/// a `name` and a `url`.
pub fn bing_results(data: &JsonValue) -> (r: Vec<SearchResult>)
    ensures
        result_views(r@) == bing_hits(*data),
{
    let none: Vec<SearchResult> = Vec::new();
    proof {
        assert(result_views(none@) =~= Seq::<SearchResultView>::empty());
    }
    match data.get("webPages") {
        Some(wp) => match wp.get("value") {
            Some(JsonValue::Array(ps)) => {
                proof {
                    assert(ps@.take(ps@.len() as int) =~= ps@);
                }
                collect_hits(ps, ps.len(), HitForm::Bing)
            },
            _ => none,
        },
        None => none,
    }
}

/// What a Google Custom Search answer lists: each of its `items` that has a
/// `title` and a `link`.
pub fn google_results(data: &JsonValue) -> (r: Vec<SearchResult>)
    ensures
        result_views(r@) == google_hits(*data),
{
    let none: Vec<SearchResult> = Vec::new();
    proof {
        assert(result_views(none@) =~= Seq::<SearchResultView>::empty());
    }
    match data.get("items") {
        Some(JsonValue::Array(items)) => {
            proof {
                assert(items@.take(items@.len() as int) =~= items@);
            }
            collect_hits(items, items.len(), HitForm::Google)
        },
        _ => none,
    }
}

/// What `url::Url::parse` makes of `s`.  On success: the scheme, the host
/// (`host_str`) and the URL's text (`to_string`).  On failure: the text of
/// the parse error.
pub uninterp spec fn parsed_url(s: Seq<char>) -> Result<(Seq<char>, Option<Seq<char>>, Seq<char>), Seq<char>>;

/// The parts of a parsed URL that the tools read.
pub struct UrlParts {
    pub scheme: String,
    pub host: Option<String>,
    pub text: String,
}

/// Parses `s` with `url::Url::parse` and reads its scheme, its host and its
/// text.  The contract claims only that the result is the one `parsed_url`
/// names for `s`; what the url crate accepts and how it normalises is not
/// stated.
#[verifier::external_body]
fn parse_url(s: &str) -> (r: Result<UrlParts, String>)
    ensures
        match r {
            Ok(p) => parsed_url(s@) == Ok::<_, Seq<char>>((p.scheme@, opt_chars(p.host), p.text@)),
            Err(e) => parsed_url(s@) == Err::<(Seq<char>, Option<Seq<char>>, Seq<char>), _>(e@),
        },
{
    match url::Url::parse(s) {
        Ok(u) => {
            let host = u.host_str().map(|h| h.to_string());
            Ok(UrlParts { scheme: u.scheme().to_string(), host, text: u.to_string() })
        },
        Err(e) => Err(e.to_string()),
    }
}

/// What `url::Url::set_scheme(scheme)` makes of the URL written as `text`
/// (parsed with `url::Url::parse`), written out again with `to_string`; none
/// where the text does not parse or the change is refused.
pub uninterp spec fn url_with_scheme(text: Seq<char>, scheme: Seq<char>) -> Option<Seq<char>>;

/// Parses `text` with `url::Url::parse`, sets its scheme with `set_scheme`
/// and writes it out with `to_string`.  Used on the text that `parse_url`
/// gave, which the url crate reads back as the same URL.  The contract claims
/// only that the result is the one `url_with_scheme` names; when `set_scheme`
/// refuses a change is not stated.
#[verifier::external_body]
fn set_url_scheme(text: &str, scheme: &str) -> (r: Option<String>)
    ensures
        opt_chars(r) == url_with_scheme(text@, scheme@),
{
    match url::Url::parse(text) {
        Ok(mut u) => match u.set_scheme(scheme) {
            Ok(()) => Some(u.to_string()),
            Err(()) => None,
        },
        Err(_) => None,
    }
}

/// The domain of a URL as the search filters compare it: its host with each
/// "www." taken out; empty where the URL does not parse or has no host.
pub open spec fn domain_of(url: Seq<char>) -> Seq<char> {
    match parsed_url(url) {
        Ok(p) => replace_all(
            match p.1 {
                Some(h) => h,
                None => seq![],
            },
            "www."@,
            seq![],
        ),
        Err(_) => seq![],
    }
}

/// The domains of a filter list, as text.
pub open spec fn domain_list(o: Option<Vec<String>>) -> Option<Seq<Seq<char>>> {
    match o {
        Some(v) => Some(texts(v@)),
        None => None,
    }
}

/// The texts in lowercase.
pub open spec fn lowered(ds: Seq<Seq<char>>) -> Seq<Seq<char>> {
    ds.map_values(|d: Seq<char>| lowercase(d))
}

/// Whether a filter list lets a lowercased domain through: no list, or an
/// empty one, lets everything through; otherwise an allow list lets through
/// what it names and a block list what it does not, compared in lowercase.
pub open spec fn list_admits(list: Option<Seq<Seq<char>>>, domain: Seq<char>, allow: bool) -> bool {
    match list {
        Some(ds) => ds.len() == 0 || (lowered(ds).contains(domain) == allow),
        None => true,
    }
}

/// Whether a hit passes both filters.
pub open spec fn admits(h: SearchResultView, allowed: Option<Seq<Seq<char>>>, blocked: Option<Seq<Seq<char>>>) -> bool {
    let d = lowercase(domain_of(h.url));
    list_admits(allowed, d, true) && list_admits(blocked, d, false)
}

/// The hits that pass the filters, in order.
pub open spec fn admitted(hs: Seq<SearchResultView>, allowed: Option<Seq<Seq<char>>>, blocked: Option<Seq<Seq<char>>>) -> Seq<SearchResultView>
    decreases hs.len(),
{
    if hs.len() == 0 {
        seq![]
    } else {
        let rest = admitted(hs.drop_last(), allowed, blocked);
        if admits(hs.last(), allowed, blocked) {
            rest.push(hs.last())
        } else {
            rest
        }
    }
}

/// `s` with `x` put before the first item that sorts after it.
pub open spec fn insert_sorted(s: Seq<Seq<char>>, x: Seq<char>) -> Seq<Seq<char>>
    decreases s.len(),
{
    if s.len() == 0 {
        seq![x]
    } else if seq_lt(x, s[0]) {
        seq![x] + s
    } else {
        seq![s[0]] + insert_sorted(s.skip(1), x)
    }
}

/// The texts in ascending order (`[String]::sort`).
pub open spec fn sorted_texts(s: Seq<Seq<char>>) -> Seq<Seq<char>>
    decreases s.len(),
{
    if s.len() == 0 {
        seq![]
    } else {
        insert_sorted(sorted_texts(s.drop_last()), s.last())
    }
}

/// A filter list in the cache key: its domains sorted and joined by commas,
/// or nothing where there is no list.
pub open spec fn key_part(o: Option<Seq<Seq<char>>>) -> Seq<char> {
    match o {
        Some(ds) => join(sorted_texts(ds), ","@),
        None => seq![],
    }
}

/// The key under which a search is cached: the trimmed, lowercased query and
/// the two filter lists, separated by `|`.
pub open spec fn search_key(query: Seq<char>, allowed: Option<Seq<Seq<char>>>, blocked: Option<Seq<Seq<char>>>) -> Seq<char> {
    lowercase(trim(query)) + "|"@ + key_part(allowed) + "|"@ + key_part(blocked)
}

proof fn lemma_insert_at(s: Seq<Seq<char>>, x: Seq<char>, p: int)
    requires
        0 <= p <= s.len(),
        forall|j: int| 0 <= j < p ==> !seq_lt(x, #[trigger] s[j]),
        p == s.len() || seq_lt(x, s[p]),
    ensures
        insert_sorted(s, x) == s.take(p) + seq![x] + s.skip(p),
    decreases p,
{
    if p == 0 {
        assert(s.take(0) + seq![x] + s.skip(0) =~= seq![x] + s);
    } else {
        let t = s.skip(1);
        assert forall|j: int| 0 <= j < p - 1 implies !seq_lt(x, #[trigger] t[j]) by {
            assert(t[j] == s[j + 1]);
        }
        if p - 1 < t.len() {
            assert(t[p - 1] == s[p]);
        }
        lemma_insert_at(t, x, p - 1);
        assert(s.take(p) + seq![x] + s.skip(p) =~= seq![s[0]] + (t.take(p - 1) + seq![x] + t.skip(p - 1)));
    }
}

/// A filter list sorted and joined by commas.
fn sorted_joined(ds: &Vec<String>) -> (r: Vec<char>)
    ensures
        r@ == join(sorted_texts(texts(ds@)), ","@),
{
    let mut sorted: Vec<Vec<char>> = Vec::new();
    let mut i: usize = 0;
    proof {
        assert(texts(ds@).take(0) =~= Seq::<Seq<char>>::empty());
        assert(sorted@.map_values(|w: Vec<char>| w@) =~= Seq::<Seq<char>>::empty());
    }
    while i < ds.len()
        invariant
            i <= ds@.len(),
            sorted@.map_values(|w: Vec<char>| w@) == sorted_texts(texts(ds@).take(i as int)),
        decreases ds@.len() - i,
    {
        let x = chars_of(ds[i].as_str());
        let ghost s = sorted@.map_values(|w: Vec<char>| w@);
        let mut p: usize = 0;
        while p < sorted.len() && !chars_lt(x.as_slice(), sorted[p].as_slice())
            invariant
                p <= sorted@.len(),
                s == sorted@.map_values(|w: Vec<char>| w@),
                forall|j: int| 0 <= j < p ==> !seq_lt(x@, #[trigger] s[j]),
            decreases sorted@.len() - p,
        {
            p = p + 1;
        }
        proof {
            lemma_insert_at(s, x@, p as int);
            assert(texts(ds@).take(i + 1).drop_last() =~= texts(ds@).take(i as int));
            assert(texts(ds@).take(i + 1).last() == x@);
        }
        let ghost xv = x@;
        sorted.insert(p, x);
        proof {
            assert(sorted@.map_values(|w: Vec<char>| w@) =~= s.take(p as int) + seq![xv] + s.skip(p as int));
        }
        i = i + 1;
    }
    proof {
        assert(texts(ds@).take(ds@.len() as int) =~= texts(ds@));
    }
    let comma = chars_of(",");
    join_chars(&sorted, comma.as_slice())
}

/// The cache key of a search.
pub fn generate_search_cache_key(query: &str, allowed: &Option<Vec<String>>, blocked: &Option<Vec<String>>) -> (r: String)
    ensures
        r@ == search_key(query@, domain_list(*allowed), domain_list(*blocked)),
{
    let t = trim_str(query);
    let mut key = to_lowercase(t.as_str());
    key.append("|");
    match allowed {
        Some(ds) => {
            let j = sorted_joined(ds);
            let js = string_from(j.as_slice());
            key.append(js.as_str());
        },
        None => {},
    }
    key.append("|");
    match blocked {
        Some(ds) => {
            let j = sorted_joined(ds);
            let js = string_from(j.as_slice());
            key.append(js.as_str());
        },
        None => {},
    }
    proof {
        assert(key@ =~= search_key(query@, domain_list(*allowed), domain_list(*blocked)));
    }
    key
}

/// One hit as the search listing shows it: its number, a Markdown link, then
/// its snippet and its date where it has them, and a blank line.
pub open spec fn hit_block(i: nat, h: SearchResultView) -> Seq<char> {
    decimal(i + 1) + ". ["@ + h.title + "]("@ + h.url + ")\n"@ + opt_line("   "@, h.snippet) + opt_line(
        "   发布时间: "@,
        h.publish_date,
    ) + "\n"@
}

/// A line of the prefix and the text, where there is a text.
pub open spec fn opt_line(prefix: Seq<char>, o: Option<Seq<char>>) -> Seq<char> {
    match o {
        Some(t) => prefix + t + "\n"@,
        None => seq![],
    }
}

/// The numbered blocks of the hits, in order.
pub open spec fn hit_blocks(hs: Seq<SearchResultView>) -> Seq<char>
    decreases hs.len(),
{
    if hs.len() == 0 {
        seq![]
    } else {
        hit_blocks(hs.drop_last()) + hit_block((hs.len() - 1) as nat, hs.last())
    }
}

/// The source lines of the hits: one Markdown link each.
pub open spec fn source_lines(hs: Seq<SearchResultView>) -> Seq<char>
    decreases hs.len(),
{
    if hs.len() == 0 {
        seq![]
    } else {
        source_lines(hs.drop_last()) + "- ["@ + hs.last().title + "]("@ + hs.last().url + ")\n"@
    }
}

/// The listing of a search: the query, then either a line saying nothing was
/// found or the numbered hits followed by their sources.
pub open spec fn search_listing(hs: Seq<SearchResultView>, query: Seq<char>) -> Seq<char> {
    "搜索查询: \""@ + query + "\"\n\n"@ + if hs.len() == 0 {
        "未找到结果。\n"@
    } else {
        hit_blocks(hs) + "\n来源:\n"@ + source_lines(hs)
    }
}

/// Appends the block of hit number `i` (counting from zero).
fn append_hit_block(out: &mut String, i: usize, r: &SearchResult)
    requires
        i < usize::MAX,
    ensures
        final(out)@ == old(out)@ + hit_block(i as nat, r@),
{
    let num = usize_to_decimal(i + 1);
    let ns = string_from(num.as_slice());
    let ghost s0 = out@;
    out.append(ns.as_str());
    out.append(". [");
    out.append(r.title.as_str());
    out.append("](");
    out.append(r.url.as_str());
    out.append(")\n");
    let ghost s1 = out@;
    proof {
        assert(s1 =~= s0 + (decimal((i + 1) as nat) + ". ["@ + r.title@ + "]("@ + r.url@ + ")\n"@));
    }
    let sn = opt_line_text("   ", &r.snippet);
    out.append(sn.as_str());
    let dt = opt_line_text("   发布时间: ", &r.publish_date);
    out.append(dt.as_str());
    out.append("\n");
    proof {
        assert(out@ =~= old(out)@ + hit_block(i as nat, r@));
    }
}

/// The line of the prefix and the text, or nothing.
fn opt_line_text(prefix: &str, o: &Option<String>) -> (r: String)
    ensures
        r@ == opt_line(prefix@, opt_chars(*o)),
{
    match o {
        Some(t) => {
            let mut l = String::from_str(prefix);
            l.append(t.as_str());
            l.append("\n");
            l
        },
        None => String::new(),
    }
}

/// Whether a filter list lets `domain` (already lowercased) through.
fn list_lets_through(list: &Option<Vec<String>>, domain: &str, allow: bool) -> (r: bool)
    ensures
        r == list_admits(domain_list(*list), domain@, allow),
{
    match list {
        None => true,
        Some(ds) => {
            if ds.len() == 0 {
                return true;
            }
            let ghost low = lowered(texts(ds@));
            let dc = chars_of(domain);
            let mut j: usize = 0;
            while j < ds.len()
                invariant
                    j <= ds@.len(),
                    low == lowered(texts(ds@)),
                    domain_list(*list) == Some(texts(ds@)),
                    ds@.len() > 0,
                    dc@ == domain@,
                    forall|k: int| 0 <= k < j ==> low[k] != domain@,
                decreases ds@.len() - j,
            {
                let l = to_lowercase(ds[j].as_str());
                let lc = chars_of(l.as_str());
                if eq_chars(lc.as_slice(), dc.as_slice()) {
                    proof {
                        assert(low[j as int] == domain@);
                        assert(low.contains(domain@));
                    }
                    return allow;
                }
                j = j + 1;
            }
            proof {
                assert(!low.contains(domain@));
            }
            !allow
        },
    }
}

/// The search tool.
#[derive(Debug)]
pub struct WebSearchTool {}

impl WebSearchTool {
    /// The search tool; its client and cache live with the caller, so it
    /// holds nothing.
    pub fn new() -> (r: Self)
        ensures
            r == (WebSearchTool {}),
    {
        WebSearchTool {  }
    }

    /// The tool's name.
    pub fn name(&self) -> (r: &'static str)
        ensures
            r@ == "WebSearch"@,
    {
        "WebSearch"
    }

    /// The domain of a URL: its host with each "www." taken out, or empty where
    /// the URL does not parse.
    pub fn extract_domain(&self, url: &str) -> (r: String)
        ensures
            r@ == domain_of(url@),
    {
        match parse_url(url) {
            Ok(p) => {
                let h = match p.host {
                    Some(h) => chars_of(h.as_str()),
                    None => Vec::new(),
                };
                let pat = chars_of("www.");
                let rep: Vec<char> = Vec::new();
                let out = replace_all_chars(h.as_slice(), pat.as_slice(), rep.as_slice());
                proof {
                    assert(rep@ =~= Seq::<char>::empty());
                }
                string_from(out.as_slice())
            },
            Err(_) => String::new(),
        }
    }

    /// The results whose domains pass the filters, in order: with a non-empty
    /// allow list only the domains it names, with a non-empty block list all
    /// but those it names; domains compare in lowercase.
    pub fn apply_domain_filters(
        &self,
        results: Vec<SearchResult>,
        allowed: &Option<Vec<String>>,
        blocked: &Option<Vec<String>>,
    ) -> (r: Vec<SearchResult>)
        ensures
            result_views(r@) == admitted(result_views(results@), domain_list(*allowed), domain_list(*blocked)),
    {
        let ghost hs = result_views(results@);
        let mut out: Vec<SearchResult> = Vec::new();
        let mut i: usize = 0;
        proof {
            assert(hs.take(0) =~= Seq::<SearchResultView>::empty());
            assert(result_views(out@) =~= Seq::<SearchResultView>::empty());
        }
        while i < results.len()
            invariant
                i <= results@.len(),
                hs == result_views(results@),
                result_views(out@) == admitted(hs.take(i as int), domain_list(*allowed), domain_list(*blocked)),
            decreases results@.len() - i,
        {
            let d = self.extract_domain(results[i].url.as_str());
            let dl = to_lowercase(d.as_str());
            let keep = list_lets_through(allowed, dl.as_str(), true) && list_lets_through(blocked, dl.as_str(), false);
            proof {
                assert(hs.take(i + 1).drop_last() =~= hs.take(i as int));
                assert(hs.take(i + 1).last() == results@[i as int]@);
            }
            if keep {
                let c = results[i].clone();
                let ghost before = out@;
                out.push(c);
                proof {
                    assert(result_views(out@) =~= result_views(before).push(c@));
                }
            }
            i = i + 1;
        }
        proof {
            assert(hs.take(results@.len() as int) =~= hs);
        }
        out
    }

    /// The search listing in Markdown.
    pub fn format_search_results(&self, results: &[SearchResult], query: &str) -> (r: String)
        ensures
            r@ == search_listing(result_views(results@), query@),
    {
        let mut out = String::from_str("搜索查询: \"");
        out.append(query);
        out.append("\"\n\n");
        if results.len() == 0 {
            out.append("未找到结果。\n");
            return out;
        }
        let ghost hs = result_views(results@);
        let ghost head = out@;
        let mut i: usize = 0;
        proof {
            assert(hs.take(0) =~= Seq::<SearchResultView>::empty());
            assert(out@ =~= head + hit_blocks(hs.take(0)));
        }
        while i < results.len()
            invariant
                i <= results@.len(),
                hs == result_views(results@),
                out@ == head + hit_blocks(hs.take(i as int)),
            decreases results@.len() - i,
        {
            let ghost before = out@;
            append_hit_block(&mut out, i, &results[i]);
            proof {
                assert(hs.take(i + 1).drop_last() =~= hs.take(i as int));
                assert(hs.take(i + 1).last() == hs[i as int]);
            }
            i = i + 1;
        }
        out.append("\n来源:\n");
        let ghost head2 = out@;
        let mut k: usize = 0;
        proof {
            assert(out@ =~= head2 + source_lines(hs.take(0)));
        }
        while k < results.len()
            invariant
                k <= results@.len(),
                hs == result_views(results@),
                out@ == head2 + source_lines(hs.take(k as int)),
            decreases results@.len() - k,
        {
            let ghost before = out@;
            out.append("- [");
            out.append(results[k].title.as_str());
            out.append("](");
            out.append(results[k].url.as_str());
            out.append(")\n");
            proof {
                assert(hs.take(k + 1).drop_last() =~= hs.take(k as int));
                assert(hs.take(k + 1).last() == hs[k as int]);
                assert(out@ =~= before + "- ["@ + hs[k as int].title + "]("@ + hs[k as int].url + ")\n"@);
            }
            k = k + 1;
        }
        proof {
            assert(hs.take(results@.len() as int) =~= hs);
            assert(out@ =~= search_listing(hs, query@));
        }
        out
    }
}

/// What `WebSearch` says of itself.
pub const WEB_SEARCH_DESCRIPTION: &'static str = "允许模型搜索网络并使用结果来提供响应。\n提供超出模型知识截止日期的最新信息。\n返回格式化为搜索结果块的搜索结果信息，包括 Markdown 超链接。\n用于访问模型知识截止日期之外的信息。\n搜索在单个 API 调用中自动执行。";

/// The error of a search that names both an allow list and a block list.
pub const BOTH_FILTERS_MESSAGE: &'static str = "不能同时指定 allowed_domains 和 blocked_domains";

/// What follows the query when the search service found nothing.
pub const NO_RESULTS_SUFFIX: &'static str = "\"\n\n未找到结果。这可能是由于:\n1. 搜索查询过于具体或不常见\n2. DuckDuckGo Instant Answer API 覆盖范围有限\n3. 网络或 API 问题\n\n建议:\n- 尝试不同的搜索查询\n- 配置 Bing 或 Google Search API 以获得更好的结果:\n  * Bing: 设置 BING_SEARCH_API_KEY 环境变量\n  * Google: 设置 GOOGLE_SEARCH_API_KEY 和 GOOGLE_SEARCH_ENGINE_ID\n\n当前搜索提供商: DuckDuckGo Instant Answer API (免费)";

/// A filter list as the reply shows it: its domains joined by ", ", or the
/// word for no list.
pub open spec fn shown_list(o: Option<Seq<Seq<char>>>, absent: Seq<char>) -> Seq<char> {
    match o {
        Some(ds) => join(ds, ", "@),
        None => absent,
    }
}

/// The reply when the filters left none of the hits.
pub open spec fn filtered_out_text(query: Seq<char>, allowed: Option<Seq<Seq<char>>>, blocked: Option<Seq<Seq<char>>>) -> Seq<char> {
    "网络搜索: \""@ + query + "\"\n\n应用域名过滤器后未找到结果。\n\n应用的过滤器:\n- 允许的域名: "@
        + shown_list(allowed, "全部"@) + "\n- 阻止的域名: "@ + shown_list(blocked, "无"@)
        + "\n\n尝试调整您的域名过滤器或搜索查询。"@
}

/// The reply to a search that ran: the listing of the hits that passed the
/// filters; where none did, a note that the filters left nothing (if there
/// were hits) or that nothing was found.
pub open spec fn search_reply_text(
    query: Seq<char>,
    allowed: Option<Seq<Seq<char>>>,
    blocked: Option<Seq<Seq<char>>>,
    raw: Seq<SearchResultView>,
) -> Seq<char> {
    let kept = admitted(raw, allowed, blocked);
    if kept.len() > 0 {
        search_listing(kept, query)
    } else if raw.len() > 0 {
        filtered_out_text(query, allowed, blocked)
    } else {
        "网络搜索: \""@ + query + NO_RESULTS_SUFFIX@
    }
}

/// A successful tool result with exactly this output.
pub open spec fn succeeds_with(r: ToolResult, text: Seq<char>) -> bool {
    &&& r.success
    &&& r.output matches Some(o) && o@ == text
    &&& r.error is None
    &&& r.metadata@.len() == 0
}

/// A failed execution with exactly this message.
pub open spec fn fails_with(e: ToolError, text: Seq<char>) -> bool {
    e matches ToolError::ExecutionFailed(m) && m@ == text
}

fn shown_list_text(o: &Option<Vec<String>>, absent: &str) -> (r: String)
    ensures
        r@ == shown_list(domain_list(*o), absent@),
{
    match o {
        Some(ds) => {
            let mut ws: Vec<Vec<char>> = Vec::new();
            let mut i: usize = 0;
            proof {
                assert(ws@.map_values(|w: Vec<char>| w@) =~= texts(ds@).take(0));
            }
            while i < ds.len()
                invariant
                    i <= ds@.len(),
                    ws@.map_values(|w: Vec<char>| w@) == texts(ds@).take(i as int),
                decreases ds@.len() - i,
            {
                let c = chars_of(ds[i].as_str());
                let ghost before = ws@;
                ws.push(c);
                proof {
                    assert(ws@ =~= before.push(c));
                    assert(ws@.map_values(|w: Vec<char>| w@) =~= before.map_values(|w: Vec<char>| w@).push(c@));
                    assert(ws@.map_values(|w: Vec<char>| w@) =~= texts(ds@).take(i + 1));
                }
                i = i + 1;
            }
            proof {
                assert(texts(ds@).take(ds@.len() as int) =~= texts(ds@));
            }
            let sep = chars_of(", ");
            let j = join_chars(&ws, sep.as_slice());
            string_from(j.as_slice())
        },
        None => String::from_str(absent),
    }
}

impl WebSearchTool {
    /// What the tool says of itself.
    pub fn description(&self) -> (r: &'static str)
        ensures
            r@ == WEB_SEARCH_DESCRIPTION@,
    {
        WEB_SEARCH_DESCRIPTION
    }

    /// The JSON schema of the input: a required `query` string of at least two
    /// characters, and the two optional domain lists.
    pub fn input_schema(&self) -> (r: JsonValue)
        ensures
            r matches JsonValue::Object(es) && {
                &&& es@.len() == 3
                &&& es@[1].0@ == "properties"@
                &&& (es@[1].1 matches JsonValue::Object(ps) && ps@.len() == 3 && ps@[0].0@ == "query"@
                    && ps@[1].0@ == "allowed_domains"@ && ps@[2].0@ == "blocked_domains"@)
                &&& es@[2].0@ == "required"@
                &&& (es@[2].1 matches JsonValue::Array(rs) && rs@.len() == 1 && (rs@[0] matches JsonValue::String(k) && k@ == "query"@))
            },
    {
        let query = JsonValue::Object(vec![
            (String::from_str("type"), json_str("string")),
            (String::from_str("minLength"), JsonValue::Number(String::from_str("2"))),
            (String::from_str("description"), json_str("要使用的搜索查询")),
        ]);
        let allowed = JsonValue::Object(vec![
            (String::from_str("type"), json_str("array")),
            (String::from_str("items"), JsonValue::Object(vec![(String::from_str("type"), json_str("string"))])),
            (String::from_str("description"), json_str("仅包含来自这些域名的结果")),
        ]);
        let blocked = JsonValue::Object(vec![
            (String::from_str("type"), json_str("array")),
            (String::from_str("items"), JsonValue::Object(vec![(String::from_str("type"), json_str("string"))])),
            (String::from_str("description"), json_str("永远不包含来自这些域名的结果")),
        ]);
        JsonValue::Object(vec![
            (String::from_str("type"), json_str("object")),
            (String::from_str("properties"), JsonValue::Object(vec![
                (String::from_str("query"), query),
                (String::from_str("allowed_domains"), allowed),
                (String::from_str("blocked_domains"), blocked),
            ])),
            (String::from_str("required"), JsonValue::Array(vec![json_str("query")])),
        ])
    }

    /// Every search is allowed.
    pub fn check_permissions(&self) -> (r: PermissionCheckResult)
        ensures
            r.behavior == crate::tool::PermissionBehavior::Allow,
            r.message is None,
    {
        PermissionCheckResult::allow()
    }

    /// Refuses a search that names both an allow list and a block list.
    pub fn validate_input(&self, input: &WebSearchInput) -> (r: Result<(), ToolError>)
        ensures
            match r {
                Ok(()) => input.allowed_domains is None || input.blocked_domains is None,
                Err(e) => input.allowed_domains is Some && input.blocked_domains is Some && fails_with(e, BOTH_FILTERS_MESSAGE@),
            },
    {
        if input.allowed_domains.is_some() && input.blocked_domains.is_some() {
            return Err(ToolError::ExecutionFailed(String::from_str(BOTH_FILTERS_MESSAGE)));
        }
        Ok(())
    }

    /// The reply from the cache: the listing, then how many whole minutes ago
    /// the hits were fetched.
    pub fn cached_reply(&self, results: &[SearchResult], query: &str, age_secs: u64) -> (r: ToolResult)
        ensures
            succeeds_with(
                r,
                search_listing(result_views(results@), query@) + "\n\n_[缓存结果，来自 "@ + decimal((age_secs / 60) as nat)
                    + " 分钟前]_"@,
            ),
    {
        let mut out = self.format_search_results(results, query);
        out.append("\n\n_[缓存结果，来自 ");
        let mins = crate::text::u64_to_string(age_secs / 60);
        out.append(mins.as_str());
        out.append(" 分钟前]_");
        ToolResult::success(out.as_str())
    }

    /// The reply to a search that ran and what it leaves in the cache: where
    /// the service answered, the hits that pass the filters are cached (even
    /// none) and the reply lists them, or says why there are none; where it
    /// failed, nothing is cached and the error says why.
    pub fn search_reply(
        &self,
        query: &str,
        allowed: &Option<Vec<String>>,
        blocked: &Option<Vec<String>>,
        raw: Result<Vec<SearchResult>, String>,
    ) -> (r: (Result<ToolResult, ToolError>, Option<Vec<SearchResult>>))
        ensures
            match raw {
                Ok(rs) => {
                    &&& r.0 matches Ok(t) && succeeds_with(
                        t,
                        search_reply_text(query@, domain_list(*allowed), domain_list(*blocked), result_views(rs@)),
                    )
                    &&& r.1 matches Some(kept) && result_views(kept@) == admitted(
                        result_views(rs@),
                        domain_list(*allowed),
                        domain_list(*blocked),
                    )
                },
                Err(e) => {
                    &&& r.0 matches Err(err) && fails_with(err, "搜索失败: "@ + e@)
                    &&& r.1 is None
                },
            },
    {
        match raw {
            Ok(rs) => {
                let raw_count = rs.len();
                let ghost raw_views = result_views(rs@);
                let kept = self.apply_domain_filters(rs, allowed, blocked);
                let text = if kept.len() > 0 {
                    self.format_search_results(kept.as_slice(), query)
                } else if raw_count > 0 {
                    let mut t = String::from_str("网络搜索: \"");
                    t.append(query);
                    t.append("\"\n\n应用域名过滤器后未找到结果。\n\n应用的过滤器:\n- 允许的域名: ");
                    let a = shown_list_text(allowed, "全部");
                    t.append(a.as_str());
                    t.append("\n- 阻止的域名: ");
                    let b = shown_list_text(blocked, "无");
                    t.append(b.as_str());
                    t.append("\n\n尝试调整您的域名过滤器或搜索查询。");
                    t
                } else {
                    let mut t = String::from_str("网络搜索: \"");
                    t.append(query);
                    t.append(NO_RESULTS_SUFFIX);
                    t
                };
                proof {
                    assert(text@ =~= search_reply_text(query@, domain_list(*allowed), domain_list(*blocked), raw_views));
                }
                (Ok(ToolResult::success(text.as_str())), Some(kept))
            },
            Err(e) => {
                let mut m = String::from_str("搜索失败: ");
                m.append(e.as_str());
                (Err(ToolError::ExecutionFailed(m)), None)
            },
        }
    }
}

/// The value of one part of a dotted IPv4 address as `Ipv4Addr` reads it: one
/// to three decimal digits, no leading zero, at most 255.
pub open spec fn octet(p: Seq<char>) -> Option<nat> {
    if 1 <= p.len() <= 3 && all_digits(p) && !(p.len() > 1 && p[0] == '0') && digits_value(p) <= 255 {
        Some(digits_value(p))
    } else {
        None
    }
}

/// The four parts of a dotted IPv4 address, if `s` is one.
pub open spec fn ipv4_octets(s: Seq<char>) -> Option<Seq<nat>> {
    let parts = split_on(s, '.');
    if parts.len() == 4 && octet(parts[0]) is Some && octet(parts[1]) is Some && octet(parts[2]) is Some
        && octet(parts[3]) is Some {
        Some(seq![octet(parts[0])->0, octet(parts[1])->0, octet(parts[2])->0, octet(parts[3])->0])
    } else {
        None
    }
}

/// `s` is an IPv4 address in a private range (10/8, 172.16/12, 192.168/16),
/// the loopback range (127/8) or the link-local range (169.254/16).
pub open spec fn private_or_local(s: Seq<char>) -> bool {
    match ipv4_octets(s) {
        Some(o) => {
            ||| o[0] == 10
            ||| o[0] == 172 && 16 <= o[1] <= 31
            ||| o[0] == 192 && o[1] == 168
            ||| o[0] == 127
            ||| o[0] == 169 && o[1] == 254
        },
        None => false,
    }
}

/// The hosts that are never fetched, nor any of their subdomains.
pub open spec fn unsafe_domains() -> Seq<Seq<char>> {
    seq!["localhost"@, "127.0.0.1"@, "0.0.0.0"@, "::1"@, "169.254.169.254"@, "metadata.google.internal"@]
}

/// `h` is one of the unsafe hosts or a subdomain of one.
pub open spec fn unsafe_host(h: Seq<char>) -> bool {
    exists|k: int| 0 <= k < 6 && (h == #[trigger] unsafe_domains()[k] || has_suffix(h, "."@ + unsafe_domains()[k]))
}

/// Whether a URL's host may be fetched: it must have one, must not be an
/// unsafe host (compared in lowercase), and must not be a private, loopback
/// or link-local IPv4 address.
pub open spec fn host_safety(host: Option<Seq<char>>) -> Result<(), Seq<char>> {
    match host {
        None => Err("无效的主机名"@),
        Some(h) => if unsafe_host(lowercase(h)) {
            Err("域名 "@ + h + " 因安全原因被禁止访问"@)
        } else if private_or_local(lowercase(h)) {
            Err("私有 IP 地址 "@ + h + " 被禁止访问"@)
        } else {
            Ok(())
        },
    }
}

fn parse_octet(p: &Vec<char>) -> (r: Option<u32>)
    ensures
        match r {
            Some(n) => octet(p@) == Some(n as nat),
            None => octet(p@) is None,
        },
{
    let n = p.len();
    if n < 1 || n > 3 {
        return None;
    }
    if n > 1 && p[0] == '0' {
        return None;
    }
    let mut v: u32 = 0;
    let mut i: usize = 0;
    proof {
        assert(p@.take(0) =~= Seq::<char>::empty());
    }
    while i < n
        invariant
            n == p@.len(),
            1 <= n <= 3,
            i <= n,
            all_digits(p@.take(i as int)),
            v == digits_value(p@.take(i as int)),
            i == 0 ==> v == 0,
            i <= 1 ==> v < 10,
            i <= 2 ==> v < 100,
            v < 1000,
        decreases n - i,
    {
        let c = p[i];
        if c < '0' || c > '9' {
            proof {
                assert(!all_digits(p@));
            }
            return None;
        }
        proof {
            assert(p@.take(i + 1).drop_last() =~= p@.take(i as int));
            assert(p@.take(i + 1).last() == c);
        }
        v = v * 10 + (c as u32 - '0' as u32);
        i = i + 1;
    }
    proof {
        assert(p@.take(n as int) =~= p@);
    }
    if v > 255 {
        None
    } else {
        Some(v)
    }
}

fn unsafe_domain(k: usize) -> (r: &'static str)
    requires
        k < 6,
    ensures
        r@ == unsafe_domains()[k as int],
{
    if k == 0 {
        "localhost"
    } else if k == 1 {
        "127.0.0.1"
    } else if k == 2 {
        "0.0.0.0"
    } else if k == 3 {
        "::1"
    } else if k == 4 {
        "169.254.169.254"
    } else {
        "metadata.google.internal"
    }
}

/// The fetch tool.
#[derive(Debug)]
pub struct WebFetchTool {}

impl WebFetchTool {
    /// The fetch tool; its client and cache live with the caller, so it holds
    /// nothing.
    pub fn new() -> (r: Self)
        ensures
            r == (WebFetchTool {}),
    {
        WebFetchTool {  }
    }

    /// The tool's name.
    pub fn name(&self) -> (r: &'static str)
        ensures
            r@ == "WebFetch"@,
    {
        "WebFetch"
    }

    /// Whether `host` is a private, loopback or link-local IPv4 address.
    pub fn is_private_ip(&self, host: &str) -> (r: bool)
        ensures
            r == private_or_local(host@),
    {
        let v = chars_of(host);
        let parts = split_chars(v.as_slice(), '.');
        if parts.len() != 4 {
            return false;
        }
        let a = parse_octet(&parts[0]);
        let b = parse_octet(&parts[1]);
        let c = parse_octet(&parts[2]);
        let d = parse_octet(&parts[3]);
        match (a, b, c, d) {
            (Some(a), Some(b), Some(_), Some(_)) => {
                a == 10 || (a == 172 && 16 <= b && b <= 31) || (a == 192 && b == 168) || a == 127 || (a == 169 && b
                    == 254)
            },
            _ => false,
        }
    }

    /// Whether a URL's host may be fetched (see `host_safety`).
    pub fn check_domain_safety(&self, host: Option<&str>) -> (r: Result<(), String>)
        ensures
            match r {
                Ok(()) => host_safety(match host {
                    Some(h) => Some(h@),
                    None => None,
                }) is Ok,
                Err(e) => host_safety(match host {
                    Some(h) => Some(h@),
                    None => None,
                }) == Err::<(), Seq<char>>(e@),
            },
    {
        let h = match host {
            None => {
                return Err(String::from_str("无效的主机名"));
            },
            Some(h) => h,
        };
        let lower = to_lowercase(h);
        let lc = chars_of(lower.as_str());
        let mut k: usize = 0;
        while k < 6
            invariant
                k <= 6,
                host == Some(h),
                lc@ == lowercase(h@),
                forall|j: int| 0 <= j < k ==> !(lc@ == #[trigger] unsafe_domains()[j] || has_suffix(lc@, "."@ + unsafe_domains()[j])),
            decreases 6 - k,
        {
            let d = unsafe_domain(k);
            let dc = chars_of(d);
            let mut dotted = chars_of(".");
            let mut tail = chars_of(d);
            dotted.append(&mut tail);
            if eq_chars(lc.as_slice(), dc.as_slice()) || ends_with(lc.as_slice(), dotted.as_slice()) {
                proof {
                    assert(dotted@ =~= "."@ + unsafe_domains()[k as int]);
                    assert(unsafe_host(lowercase(h@)));
                }
                let mut m = String::from_str("域名 ");
                m.append(h);
                m.append(" 因安全原因被禁止访问");
                proof {
                    assert(m@ =~= "域名 "@ + h@ + " 因安全原因被禁止访问"@);
                }
                return Err(m);
            }
            proof {
                assert(dotted@ =~= "."@ + unsafe_domains()[k as int]);
            }
            k = k + 1;
        }
        proof {
            assert(!unsafe_host(lowercase(h@)));
        }
        if self.is_private_ip(lower.as_str()) {
            let mut m = String::from_str("私有 IP 地址 ");
            m.append(h);
            m.append(" 被禁止访问");
            proof {
                assert(m@ =~= "私有 IP 地址 "@ + h@ + " 被禁止访问"@);
            }
            return Err(m);
        }
        Ok(())
    }
}

/// The text with each tag (`<`, at least one character other than `>`, then
/// `>`) from position `i` on turned into one space.
pub open spec fn strip_tags_from(s: Seq<char>, i: int) -> Seq<char>
    decreases s.len() - i,
{
    if i < 0 || i >= s.len() {
        seq![]
    } else {
        match find_char_from(s, '>', i + 1) {
            Some(k) => if s[i] == '<' && i + 2 <= k && k < s.len() {
                seq![' '] + strip_tags_from(s, k + 1)
            } else {
                seq![s[i]] + strip_tags_from(s, i + 1)
            },
            None => seq![s[i]] + strip_tags_from(s, i + 1),
        }
    }
}

/// The text with each run of white space turned into one space.
pub open spec fn collapse_ws(s: Seq<char>) -> Seq<char>
    decreases s.len(),
{
    if s.len() == 0 {
        seq![]
    } else {
        let r = collapse_ws(s.drop_last());
        if !is_ws(s.last()) {
            r.push(s.last())
        } else if s.len() >= 2 && is_ws(s[s.len() - 2]) {
            r
        } else {
            r.push(' ')
        }
    }
}

/// The six HTML entities the fetch tool decodes, one after the other.
pub open spec fn decode_entities(s: Seq<char>) -> Seq<char> {
    replace_all(
        replace_all(
            replace_all(
                replace_all(replace_all(replace_all(s, "&nbsp;"@, " "@), "&amp;"@, "&"@), "&lt;"@, "<"@),
                "&gt;"@,
                ">"@,
            ),
            "&quot;"@,
            "\""@,
        ),
        "&#x27;"@,
        "'"@,
    )
}

/// The text of an HTML page: tags become spaces, white space collapses,
/// entities are decoded, and the ends are trimmed.
pub open spec fn html_text(s: Seq<char>) -> Seq<char> {
    trim(decode_entities(collapse_ws(strip_tags_from(s, 0))))
}

/// The page with its script and style tags renamed.
pub open spec fn rename_scripts(s: Seq<char>) -> Seq<char> {
    replace_all(
        replace_all(
            replace_all(replace_all(s, "<script"@, "<removed-script"@), "</script>"@, "</removed-script>"@),
            "<style"@,
            "<removed-style"@,
        ),
        "</style>"@,
        "</removed-style>"@,
    )
}

/// What the fetch tool makes of an HTML page.
pub open spec fn html_markdown(s: Seq<char>) -> Seq<char> {
    html_text(rename_scripts(s))
}

fn strip_tags(v: &[char]) -> (r: Vec<char>)
    ensures
        r@ == strip_tags_from(v@, 0),
{
    let mut out: Vec<char> = Vec::new();
    let mut i: usize = 0;
    while i < v.len()
        invariant
            i <= v@.len(),
            strip_tags_from(v@, 0) == out@ + strip_tags_from(v@, i as int),
        decreases v@.len() - i,
    {
        let mut k: usize = i + 1;
        if v[i] == '<' {
            while k < v.len() && v[k] != '>'
                invariant
                    i + 1 <= k <= v@.len(),
                    i < v@.len(),
                    find_char_from(v@, '>', k as int) == find_char_from(v@, '>', i + 1),
                decreases v@.len() - k,
            {
                k = k + 1;
            }
        }
        let ghost before = out@;
        if v[i] == '<' && k < v.len() && k >= i + 2 {
            out.push(' ');
            proof {
                assert(find_char_from(v@, '>', i + 1) == Some(k as int));
                assert(out@ + strip_tags_from(v@, k + 1) =~= before + strip_tags_from(v@, i as int));
            }
            i = k + 1;
        } else {
            out.push(v[i]);
            proof {
                if v[i as int] == '<' {
                    if k < v@.len() {
                        assert(find_char_from(v@, '>', i + 1) == Some(k as int));
                    } else {
                        assert(find_char_from(v@, '>', i + 1) is None);
                    }
                }
                assert(out@ + strip_tags_from(v@, i + 1) =~= before + strip_tags_from(v@, i as int));
            }
            i = i + 1;
        }
    }
    proof {
        assert(out@ + Seq::<char>::empty() =~= out@);
    }
    out
}

fn collapse_ws_chars(v: &[char]) -> (r: Vec<char>)
    ensures
        r@ == collapse_ws(v@),
{
    let mut out: Vec<char> = Vec::new();
    let mut i: usize = 0;
    proof {
        assert(v@.take(0) =~= Seq::<char>::empty());
    }
    while i < v.len()
        invariant
            i <= v@.len(),
            out@ == collapse_ws(v@.take(i as int)),
        decreases v@.len() - i,
    {
        proof {
            assert(v@.take(i + 1).drop_last() =~= v@.take(i as int));
            assert(v@.take(i + 1).last() == v@[i as int]);
            if i >= 1 {
                assert(v@.take(i + 1)[i - 1] == v@[i - 1]);
            }
        }
        let c = v[i];
        if !is_whitespace(c) {
            out.push(c);
        } else if i > 0 && is_whitespace(v[i - 1]) {
        } else {
            out.push(' ');
        }
        i = i + 1;
    }
    proof {
        assert(v@.take(v@.len() as int) =~= v@);
    }
    out
}

fn replace_text(v: Vec<char>, pat: &str, rep: &str) -> (r: Vec<char>)
    ensures
        r@ == replace_all(v@, pat@, rep@),
{
    let p = chars_of(pat);
    let q = chars_of(rep);
    replace_all_chars(v.as_slice(), p.as_slice(), q.as_slice())
}

/// Ceiling on a response body, in bytes.
pub const MAX_RESPONSE_SIZE: usize = 10485760;

/// How many bytes of content a reply shows before it cuts the text.
pub const MAX_SHOWN_LENGTH: usize = 100000;

/// What `WebFetch` says of itself.
pub const WEB_FETCH_DESCRIPTION: &'static str = "获取指定 URL 的内容并使用 AI 模型处理。\n输入 URL 和提示词，获取 URL 内容，将 HTML 转换为 Markdown，\n然后使用小型快速模型处理内容并返回模型对内容的响应。\n当需要检索和分析 Web 内容时使用此工具。";

/// The length of a text in UTF-8 bytes (`str::len`).
pub open spec fn byte_len(s: Seq<char>) -> nat {
    vstd::utf8::encode_utf8(s).len()
}

/// The pretty-printed form of a JSON text (`serde_json::to_string_pretty` of
/// what `serde_json::from_str` reads), where it is JSON.
pub uninterp spec fn pretty_json(s: Seq<char>) -> Option<Seq<char>>;

/// Re-prints a JSON text with `serde_json`.  The contract claims only that
/// the result is the one `pretty_json` names for `s`; the layout serde_json
/// chooses is not stated.
#[verifier::external_body]
fn pretty_json_text(s: &str) -> (r: Option<String>)
    ensures
        opt_chars(r) == pretty_json(s@),
{
    match serde_json::from_str::<serde_json::Value>(s) {
        Ok(v) => serde_json::to_string_pretty(&v).ok(),
        Err(_) => None,
    }
}

/// Whether a URL may be fetched: it must parse, and its host must be safe.
pub open spec fn fetch_target(url: Seq<char>) -> Result<(), Seq<char>> {
    match parsed_url(url) {
        Err(e) => Err("无效的 URL: "@ + e),
        Ok(p) => host_safety(p.1),
    }
}

/// The URL the tool fetches: an `http` URL is moved to `https`.
pub open spec fn resolved_url(url: Seq<char>) -> Result<Seq<char>, Seq<char>> {
    match parsed_url(url) {
        Err(e) => Err("无效的 URL: "@ + e),
        Ok(p) => if p.0 == "http"@ {
            match url_with_scheme(p.2, "https"@) {
                Some(u) => Ok(u),
                None => Err("无法将 HTTP URL 升级为 HTTPS"@),
            }
        } else {
            Ok(url)
        },
    }
}

/// A declared body length beyond the ceiling is refused.
pub open spec fn length_check(len: Option<u64>) -> Result<(), Seq<char>> {
    match len {
        Some(n) => if n > MAX_RESPONSE_SIZE {
            Err("响应体大小 ("@ + decimal(n as nat) + " 字节) 超过最大限制 ("@ + decimal(MAX_RESPONSE_SIZE as nat)
                + " 字节)"@)
        } else {
            Ok(())
        },
        None => Ok(()),
    }
}

/// What a body becomes: refused beyond the ceiling; an HTML page becomes its
/// text, JSON is pretty-printed where it parses, anything else stays.
pub open spec fn processed_body(body: Seq<char>, content_type: Seq<char>) -> Result<Seq<char>, Seq<char>> {
    if byte_len(body) > MAX_RESPONSE_SIZE {
        Err("内容大小 ("@ + decimal(byte_len(body)) + " 字节) 超过最大限制 ("@ + decimal(MAX_RESPONSE_SIZE as nat)
            + " 字节)"@)
    } else if contains(content_type, "text/html"@) {
        Ok(html_markdown(body))
    } else if contains(content_type, "application/json"@) {
        Ok(
            match pretty_json(body) {
                Some(p) => p,
                None => body,
            },
        )
    } else {
        Ok(body)
    }
}

/// The content a reply shows: beyond `MAX_SHOWN_LENGTH` bytes, its first
/// `MAX_SHOWN_LENGTH` characters and a note that it was cut.
pub open spec fn shown_content(content: Seq<char>) -> Seq<char> {
    if byte_len(content) > MAX_SHOWN_LENGTH {
        first_n(content, MAX_SHOWN_LENGTH as nat) + "...\n\n[内容已截断]"@
    } else {
        content
    }
}

/// The reply to a fetch.
pub open spec fn fetch_reply_text(url: Seq<char>, prompt: Seq<char>, content: Seq<char>, cached: bool) -> Seq<char> {
    "URL: "@ + url + "\n提示词: "@ + prompt + (if cached {
        "\n\n--- 内容 (缓存) ---\n"@
    } else {
        "\n\n--- 内容 ---\n"@
    }) + shown_content(content)
}

/// The reason phrase the fetch tool gives for an HTTP status.
pub open spec fn http_reason(code: u16) -> Seq<char> {
    if code == 404 {
        "Not Found"@
    } else if code == 403 {
        "Forbidden"@
    } else if code == 500 {
        "Internal Server Error"@
    } else {
        "Unknown Error"@
    }
}

fn http_reason_text(code: u16) -> (r: &'static str)
    ensures
        r@ == http_reason(code),
{
    if code == 404 {
        "Not Found"
    } else if code == 403 {
        "Forbidden"
    } else if code == 500 {
        "Internal Server Error"
    } else {
        "Unknown Error"
    }
}

impl WebFetchTool {
    /// What the tool says of itself.
    pub fn description(&self) -> (r: &'static str)
        ensures
            r@ == WEB_FETCH_DESCRIPTION@,
    {
        WEB_FETCH_DESCRIPTION
    }

    /// The JSON schema of the input: the required `url` and `prompt` strings.
    pub fn input_schema(&self) -> (r: JsonValue)
        ensures
            r matches JsonValue::Object(es) && {
                &&& es@.len() == 3
                &&& es@[1].0@ == "properties"@
                &&& (es@[1].1 matches JsonValue::Object(ps) && ps@.len() == 2 && ps@[0].0@ == "url"@ && ps@[1].0@
                    == "prompt"@)
                &&& es@[2].0@ == "required"@
                &&& (es@[2].1 matches JsonValue::Array(rs) && rs@.len() == 2 && (rs@[0] matches JsonValue::String(k)
                    && k@ == "url"@) && (rs@[1] matches JsonValue::String(k) && k@ == "prompt"@))
            },
    {
        let url = JsonValue::Object(vec![
            (String::from_str("type"), json_str("string")),
            (String::from_str("format"), json_str("uri")),
            (String::from_str("description"), json_str("要获取内容的 URL")),
        ]);
        let prompt = JsonValue::Object(vec![
            (String::from_str("type"), json_str("string")),
            (String::from_str("description"), json_str("用于处理获取内容的提示词")),
        ]);
        JsonValue::Object(vec![
            (String::from_str("type"), json_str("object")),
            (String::from_str("properties"), JsonValue::Object(vec![
                (String::from_str("url"), url),
                (String::from_str("prompt"), prompt),
            ])),
            (String::from_str("required"), JsonValue::Array(vec![json_str("url"), json_str("prompt")])),
        ])
    }

    /// Every fetch is allowed here; unsafe hosts are refused when it runs.
    pub fn check_permissions(&self) -> (r: PermissionCheckResult)
        ensures
            r.behavior == crate::tool::PermissionBehavior::Allow,
            r.message is None,
    {
        PermissionCheckResult::allow()
    }

    /// The text of an HTML page (see `html_text`).
    pub fn html_to_text(&self, html: &str) -> (r: String)
        ensures
            r@ == html_text(html@),
    {
        let v = chars_of(html);
        let a = strip_tags(v.as_slice());
        let b = collapse_ws_chars(a.as_slice());
        let c = replace_text(b, "&nbsp;", " ");
        let c = replace_text(c, "&amp;", "&");
        let c = replace_text(c, "&lt;", "<");
        let c = replace_text(c, "&gt;", ">");
        let c = replace_text(c, "&quot;", "\"");
        let c = replace_text(c, "&#x27;", "'");
        let t = trim_chars(c.as_slice());
        string_from(t.as_slice())
    }

    /// The text of an HTML page, its script and style tags renamed first.
    pub fn html_to_markdown(&self, html: &str) -> (r: String)
        ensures
            r@ == html_markdown(html@),
    {
        let v = chars_of(html);
        let c = replace_text(v, "<script", "<removed-script");
        let c = replace_text(c, "</script>", "</removed-script>");
        let c = replace_text(c, "<style", "<removed-style");
        let c = replace_text(c, "</style>", "</removed-style>");
        let s = string_from(c.as_slice());
        self.html_to_text(s.as_str())
    }

    /// Whether a URL may be fetched (see `fetch_target`).
    pub fn check_target(&self, url: &str) -> (r: Result<(), String>)
        ensures
            match r {
                Ok(()) => fetch_target(url@) is Ok,
                Err(e) => fetch_target(url@) == Err::<(), Seq<char>>(e@),
            },
    {
        match parse_url(url) {
            Err(e) => {
                let mut m = String::from_str("无效的 URL: ");
                m.append(e.as_str());
                Err(m)
            },
            Ok(p) => match &p.host {
                Some(h) => self.check_domain_safety(Some(h.as_str())),
                None => self.check_domain_safety(None),
            },
        }
    }

    /// The URL to fetch (see `resolved_url`).
    pub fn resolve_url(&self, url: &str) -> (r: Result<String, ToolError>)
        ensures
            match r {
                Ok(u) => resolved_url(url@) == Ok::<Seq<char>, Seq<char>>(u@),
                Err(e) => resolved_url(url@) matches Err(m) && fails_with(e, m),
            },
    {
        match parse_url(url) {
            Err(e) => {
                let mut m = String::from_str("无效的 URL: ");
                m.append(e.as_str());
                Err(ToolError::ExecutionFailed(m))
            },
            Ok(p) => {
                if crate::text::str_eq(p.scheme.as_str(), "http") {
                    match set_url_scheme(p.text.as_str(), "https") {
                        Some(u) => Ok(u),
                        None => Err(ToolError::ExecutionFailed(String::from_str("无法将 HTTP URL 升级为 HTTPS"))),
                    }
                } else {
                    Ok(String::from_str(url))
                }
            },
        }
    }

    /// Refuses a body whose declared length is beyond the ceiling.
    pub fn check_content_length(&self, len: Option<u64>) -> (r: Result<(), String>)
        ensures
            match r {
                Ok(()) => length_check(len) is Ok,
                Err(e) => length_check(len) == Err::<(), Seq<char>>(e@),
            },
    {
        match len {
            Some(n) => if n > MAX_RESPONSE_SIZE as u64 {
                let mut m = String::from_str("响应体大小 (");
                let ns = u64_to_string(n);
                m.append(ns.as_str());
                m.append(" 字节) 超过最大限制 (");
                let mx = u64_to_string(MAX_RESPONSE_SIZE as u64);
                m.append(mx.as_str());
                m.append(" 字节)");
                Err(m)
            } else {
                Ok(())
            },
            None => Ok(()),
        }
    }

    /// What a body becomes (see `processed_body`).
    pub fn process_body(&self, body: &str, content_type: &str) -> (r: Result<String, String>)
        ensures
            match r {
                Ok(t) => processed_body(body@, content_type@) == Ok::<Seq<char>, Seq<char>>(t@),
                Err(e) => processed_body(body@, content_type@) == Err::<Seq<char>, Seq<char>>(e@),
            },
    {
        let n = body.as_bytes().len();
        if n > MAX_RESPONSE_SIZE {
            let mut m = String::from_str("内容大小 (");
            let ns = u64_to_string(n as u64);
            m.append(ns.as_str());
            m.append(" 字节) 超过最大限制 (");
            let mx = u64_to_string(MAX_RESPONSE_SIZE as u64);
            m.append(mx.as_str());
            m.append(" 字节)");
            return Err(m);
        }
        let ct = chars_of(content_type);
        let html = chars_of("text/html");
        let json = chars_of("application/json");
        if contains_chars(ct.as_slice(), html.as_slice()) {
            Ok(self.html_to_markdown(body))
        } else if contains_chars(ct.as_slice(), json.as_slice()) {
            match pretty_json_text(body) {
                Some(p) => Ok(p),
                None => Ok(String::from_str(body)),
            }
        } else {
            Ok(String::from_str(body))
        }
    }

    /// The reply that shows fetched content (see `fetch_reply_text`).
    pub fn content_reply(&self, url: &str, prompt: &str, content: &str, cached: bool) -> (r: ToolResult)
        ensures
            succeeds_with(r, fetch_reply_text(url@, prompt@, content@, cached)),
    {
        let shown = if content.as_bytes().len() > MAX_SHOWN_LENGTH {
            let v = chars_of(content);
            let m = if v.len() < MAX_SHOWN_LENGTH {
                v.len()
            } else {
                MAX_SHOWN_LENGTH
            };
            let t = slice_range(v.as_slice(), 0, m);
            proof {
                if content@.len() <= MAX_SHOWN_LENGTH {
                    assert(t@ =~= content@);
                } else {
                    assert(t@ =~= content@.take(MAX_SHOWN_LENGTH as int));
                }
            }
            let mut s = string_from(t.as_slice());
            s.append("...\n\n[内容已截断]");
            s
        } else {
            String::from_str(content)
        };
        let mut out = String::from_str("URL: ");
        out.append(url);
        out.append("\n提示词: ");
        out.append(prompt);
        if cached {
            out.append("\n\n--- 内容 (缓存) ---\n");
        } else {
            out.append("\n\n--- 内容 ---\n");
        }
        out.append(shown.as_str());
        proof {
            assert(shown@ == shown_content(content@));
            assert(out@ =~= fetch_reply_text(url@, prompt@, content@, cached));
        }
        ToolResult::success(out.as_str())
    }

    /// What a fetch leaves in the cache: its content when it ran and the HTTP
    /// status is below 400; nothing otherwise.
    pub fn content_to_cache(&self, fetched: &Result<(String, String, u16), String>) -> (r: Option<String>)
        ensures
            match *fetched {
                Ok((content, _, status)) => if status < 400 {
                    r matches Some(c) && c@ == content@
                } else {
                    r is None
                },
                Err(_) => r is None,
            },
    {
        match fetched {
            Ok((content, _, status)) => if *status < 400 {
                Some(content.clone())
            } else {
                None
            },
            Err(_) => None,
        }
    }

    /// The reply to a fetch that ran: an HTTP status from 400 up is an error
    /// naming it; otherwise the content is shown; a fetch that failed is an
    /// error saying why.
    pub fn fetch_reply(&self, url: &str, prompt: &str, fetched: Result<(String, String, u16), String>) -> (r: Result<
        ToolResult,
        ToolError,
    >)
        ensures
            match fetched {
                Ok((content, _, status)) => if status >= 400 {
                    r matches Err(e) && fails_with(e, "HTTP 错误: "@ + decimal(status as nat) + " "@ + http_reason(status))
                } else {
                    r matches Ok(t) && succeeds_with(t, fetch_reply_text(url@, prompt@, content@, false))
                },
                Err(e) => r matches Err(err) && fails_with(err, "获取失败: "@ + e@),
            },
    {
        match fetched {
            Ok((content, _, status)) => {
                if status >= 400 {
                    let mut m = String::from_str("HTTP 错误: ");
                    let code = u64_to_string(status as u64);
                    m.append(code.as_str());
                    m.append(" ");
                    m.append(http_reason_text(status));
                    Err(ToolError::ExecutionFailed(m))
                } else {
                    Ok(self.content_reply(url, prompt, content.as_str(), false))
                }
            },
            Err(e) => {
                let mut m = String::from_str("获取失败: ");
                m.append(e.as_str());
                Err(ToolError::ExecutionFailed(m))
            },
        }
    }
}

/// A URL that passes the fetch check has a host, and that host, lowercased,
/// is neither one of the unsafe hosts nor a subdomain of one, nor a private,
/// loopback or link-local IPv4 address.
pub proof fn lemma_fetched_hosts_are_safe(url: Seq<char>)
    ensures
        fetch_target(url) is Ok ==> (parsed_url(url) matches Ok(p) && (p.1 matches Some(h) && !unsafe_host(lowercase(h))
            && !private_or_local(lowercase(h)))),
{
}

/// The hits a search keeps are hits it was given, in the same order, each of
/// them passing both filters; none is kept twice.
pub proof fn lemma_admitted_hits_pass(hs: Seq<SearchResultView>, allowed: Option<Seq<Seq<char>>>, blocked: Option<Seq<Seq<char>>>)
    ensures
        admitted(hs, allowed, blocked).len() <= hs.len(),
        forall|i: int| 0 <= i < admitted(hs, allowed, blocked).len() ==> admits(#[trigger] admitted(hs, allowed, blocked)[i], allowed, blocked),
        forall|i: int| 0 <= i < admitted(hs, allowed, blocked).len() ==> hs.contains(#[trigger] admitted(hs, allowed, blocked)[i]),
    decreases hs.len(),
{
    if hs.len() > 0 {
        let rest = hs.drop_last();
        lemma_admitted_hits_pass(rest, allowed, blocked);
        assert forall|i: int| 0 <= i < admitted(hs, allowed, blocked).len() implies hs.contains(#[trigger] admitted(hs, allowed, blocked)[i]) by {
            if i < admitted(rest, allowed, blocked).len() {
                let x = admitted(rest, allowed, blocked)[i];
                assert(rest.contains(x));
                let j = choose|j: int| 0 <= j < rest.len() && rest[j] == x;
                assert(hs[j] == x);
            } else {
                assert(hs[hs.len() - 1] == hs.last());
            }
        }
    }
}

/// A fetch reply never shows more than `MAX_SHOWN_LENGTH` characters of the
/// content, followed at most by the note that it was cut.
pub proof fn lemma_shown_content_is_bounded(content: Seq<char>)
    ensures
        shown_content(content).len() <= if content.len() < MAX_SHOWN_LENGTH { content.len() as int } else {
            MAX_SHOWN_LENGTH as int
        } + "...\n\n[内容已截断]"@.len(),
        shown_content(content) == content || byte_len(content) > MAX_SHOWN_LENGTH,
{
    lemma_bytes_at_least_chars(content);
}

/// A text has at least as many UTF-8 bytes as characters.
pub proof fn lemma_bytes_at_least_chars(s: Seq<char>)
    ensures
        byte_len(s) >= s.len(),
    decreases s.len(),
{
    if s.len() > 0 {
        lemma_bytes_at_least_chars(s.drop_first());
        assert(vstd::utf8::encode_utf8(s) == vstd::utf8::encode_scalar(s[0] as u32) + vstd::utf8::encode_utf8(s.drop_first()));
        assert(vstd::utf8::encode_scalar(s[0] as u32).len() >= 1);
    }
}

/// The texts are in ascending order.
pub open spec fn ascending(s: Seq<Seq<char>>) -> bool {
    forall|i: int, j: int| 0 <= i < j < s.len() ==> !seq_lt(#[trigger] s[j], #[trigger] s[i])
}

/// Where `insert_sorted` puts `x`: before the first item that sorts after it.
spec fn first_greater(s: Seq<Seq<char>>, x: Seq<char>) -> int
    decreases s.len(),
{
    if s.len() == 0 {
        0
    } else if seq_lt(x, s[0]) {
        0
    } else {
        1 + first_greater(s.skip(1), x)
    }
}

proof fn lemma_first_greater(s: Seq<Seq<char>>, x: Seq<char>)
    ensures
        0 <= first_greater(s, x) <= s.len(),
        forall|j: int| 0 <= j < first_greater(s, x) ==> !seq_lt(x, #[trigger] s[j]),
        first_greater(s, x) == s.len() || seq_lt(x, s[first_greater(s, x)]),
    decreases s.len(),
{
    if s.len() > 0 && !seq_lt(x, s[0]) {
        let t = s.skip(1);
        lemma_first_greater(t, x);
        assert forall|j: int| 0 <= j < first_greater(s, x) implies !seq_lt(x, #[trigger] s[j]) by {
            if j > 0 {
                assert(s[j] == t[j - 1]);
            }
        }
        if first_greater(t, x) < t.len() {
            assert(s[first_greater(s, x)] == t[first_greater(t, x)]);
        }
    }
}

proof fn lemma_insert_sorted_ascending(s: Seq<Seq<char>>, x: Seq<char>)
    requires
        ascending(s),
    ensures
        ascending(insert_sorted(s, x)),
        insert_sorted(s, x).to_multiset() == s.to_multiset().insert(x),
{
    broadcast use vstd::seq_lib::group_to_multiset_ensures;

    lemma_first_greater(s, x);
    let p = first_greater(s, x);
    lemma_insert_at(s, x, p);
    let t = insert_sorted(s, x);
    assert(t =~= s.insert(p, x));
    assert forall|i: int, j: int| 0 <= i < j < t.len() implies !seq_lt(#[trigger] t[j], #[trigger] t[i]) by {
        if j < p {
            assert(t[i] == s[i] && t[j] == s[j]);
        } else if j == p {
            assert(t[i] == s[i] && t[j] == x);
        } else if i < p {
            assert(t[i] == s[i] && t[j] == s[j - 1]);
        } else if i == p {
            assert(t[i] == x && t[j] == s[j - 1]);
            if seq_lt(s[j - 1], x) {
                lemma_seq_lt_total(x, s[p]);
                if j - 1 > p {
                    lemma_seq_lt_transitive(s[j - 1], x, s[p]);
                }
            }
        } else {
            assert(t[i] == s[i - 1] && t[j] == s[j - 1]);
        }
    }
}

proof fn lemma_sorted_texts(s: Seq<Seq<char>>)
    ensures
        ascending(sorted_texts(s)),
        sorted_texts(s).to_multiset() == s.to_multiset(),
    decreases s.len(),
{
    broadcast use vstd::seq_lib::group_to_multiset_ensures;

    if s.len() > 0 {
        lemma_sorted_texts(s.drop_last());
        lemma_insert_sorted_ascending(sorted_texts(s.drop_last()), s.last());
        assert(s =~= s.drop_last().push(s.last()));
    } else {
        assert(sorted_texts(s) =~= s);
    }
}

proof fn lemma_ascending_unique(r1: Seq<Seq<char>>, r2: Seq<Seq<char>>)
    requires
        ascending(r1),
        ascending(r2),
        r1.to_multiset() == r2.to_multiset(),
    ensures
        r1 == r2,
    decreases r1.len(),
{
    broadcast use vstd::seq_lib::group_to_multiset_ensures;

    assert(r1.len() == r1.to_multiset().len());
    assert(r2.len() == r2.to_multiset().len());
    if r1.len() == 0 {
        assert(r2.len() == 0);
        assert(r1 =~= r2);
    } else {
        let a = r1[0];
        let b = r2[0];
        assert(r1.contains(a));
        assert(r1.to_multiset().count(a) > 0);
        assert(r2.to_multiset().count(a) > 0);
        assert(r2.contains(a));
        let j = choose|j: int| 0 <= j < r2.len() && r2[j] == a;
        assert(r2.contains(b));
        assert(r2.to_multiset().count(b) > 0);
        assert(r1.to_multiset().count(b) > 0);
        assert(r1.contains(b));
        let k = choose|k: int| 0 <= k < r1.len() && r1[k] == b;
        if j > 0 {
            assert(!seq_lt(r2[j], r2[0]));
        }
        if k > 0 {
            assert(!seq_lt(r1[k], r1[0]));
        }
        lemma_seq_lt_total(a, b);
        assert(a == b);
        let t1 = r1.remove(0);
        let t2 = r2.remove(0);
        assert(t1.to_multiset() == t2.to_multiset());
        assert forall|i: int, j: int| 0 <= i < j < t1.len() implies !seq_lt(#[trigger] t1[j], #[trigger] t1[i]) by {
            assert(t1[i] == r1[i + 1] && t1[j] == r1[j + 1]);
        }
        assert forall|i: int, j: int| 0 <= i < j < t2.len() implies !seq_lt(#[trigger] t2[j], #[trigger] t2[i]) by {
            assert(t2[i] == r2[i + 1] && t2[j] == r2[j + 1]);
        }
        lemma_ascending_unique(t1, t2);
        assert(r1 =~= seq![a] + t1);
        assert(r2 =~= seq![b] + t2);
    }
}

/// Two filter lists name the same domains, each as often, in any order.
pub open spec fn same_domains(a: Option<Seq<Seq<char>>>, b: Option<Seq<Seq<char>>>) -> bool {
    match (a, b) {
        (None, None) => true,
        (Some(x), Some(y)) => x.to_multiset() == y.to_multiset(),
        _ => false,
    }
}

/// Two searches share one cache entry when their queries agree once trimmed
/// and lowercased and their filter lists hold the same domains, in whatever
/// order they were given.
pub proof fn lemma_cache_key_ignores_domain_order(
    q1: Seq<char>,
    q2: Seq<char>,
    a1: Option<Seq<Seq<char>>>,
    a2: Option<Seq<Seq<char>>>,
    b1: Option<Seq<Seq<char>>>,
    b2: Option<Seq<Seq<char>>>,
)
    requires
        lowercase(trim(q1)) == lowercase(trim(q2)),
        same_domains(a1, a2),
        same_domains(b1, b2),
    ensures
        search_key(q1, a1, b1) == search_key(q2, a2, b2),
{
    match (a1, a2) {
        (Some(x), Some(y)) => {
            lemma_sorted_texts(x);
            lemma_sorted_texts(y);
            lemma_ascending_unique(sorted_texts(x), sorted_texts(y));
        },
        _ => {},
    }
    match (b1, b2) {
        (Some(x), Some(y)) => {
            lemma_sorted_texts(x);
            lemma_sorted_texts(y);
            lemma_ascending_unique(sorted_texts(x), sorted_texts(y));
        },
        _ => {},
    }
}


/// The search services, in the order a search tries them.
#[derive(Debug, Clone, Copy, PartialEq, Eq, Structural)]
pub enum SearchService {
    Bing,
    Google,
    DuckDuckGo,
}

/// The first service a search asks: Bing when its key is set, else Google
/// when its key and engine id are set, else DuckDuckGo.
pub fn first_search_service(has_bing_key: bool, has_google_keys: bool) -> (r: SearchService)
    ensures
        has_bing_key ==> r == SearchService::Bing,
        !has_bing_key && has_google_keys ==> r == SearchService::Google,
        !has_bing_key && !has_google_keys ==> r == SearchService::DuckDuckGo,
{
    if has_bing_key {
        SearchService::Bing
    } else if has_google_keys {
        SearchService::Google
    } else {
        SearchService::DuckDuckGo
    }
}

/// The service a search asks after `failed` failed: Google (when its keys
/// are set) or DuckDuckGo after Bing, DuckDuckGo after Google; none after
/// DuckDuckGo, whose answer, failed or not, is the search's.
pub fn service_after_failure(failed: SearchService, has_google_keys: bool) -> (r: Option<SearchService>)
    ensures
        failed == SearchService::Bing && has_google_keys ==> r == Some(SearchService::Google),
        failed == SearchService::Bing && !has_google_keys ==> r == Some(SearchService::DuckDuckGo),
        failed == SearchService::Google ==> r == Some(SearchService::DuckDuckGo),
        failed == SearchService::DuckDuckGo ==> r is None,
{
    match failed {
        SearchService::Bing => if has_google_keys {
            Some(SearchService::Google)
        } else {
            Some(SearchService::DuckDuckGo)
        },
        SearchService::Google => Some(SearchService::DuckDuckGo),
        SearchService::DuckDuckGo => None,
    }
}

} // verus!


