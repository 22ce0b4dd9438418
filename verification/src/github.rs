//! GitHub: the pagination header, the conversion of search results into
//! issues, and the decisions taken while fetching the pages.

use vstd::prelude::*;
use vstd::string::StringSliceAdditionalSpecFns;
use crate::http::{is_success_status, percent_encoded, url_encode};
use crate::json::{json_flag_and_list_object, string_views, write_flag_and_list_object};
use crate::text::{
    chars_of, decimal, ends_with_chars, find_char, has_char, index_of_or_len,
    lemma_index_of_concat, lemma_index_of_or_len_bound, lemma_index_of_prefix, lemma_trim_unchanged, matches_at, opt_chars, push_decimal, remove_all,
    remove_all_chars, string_from_chars, trim, trim_bounds,
};

verus! {

/// What scanning a `Link` header for its `rel="next"` entry finds.
pub enum LinkScan {
    /// The URL between `<` and `>` of the first entry that ends with `rel="next"`.
    Found(Seq<char>),
    /// No entry names a next page.
    NotFound,
    /// The first entry that ends with `rel="next"` and holds both brackets
    /// has its first `>` before its first `<`.
    Malformed,
}

/// The characters of `rel="next"`.
pub open spec fn rel_next() -> Seq<char> {
    seq!['r', 'e', 'l', '=', '"', 'n', 'e', 'x', 't', '"']
}

/// What one comma-separated entry of a `Link` header says, once trimmed:
/// `Some(scan)` where it ends with `rel="next"` and holds both brackets.
pub open spec fn scan_link_part(part: Seq<char>) -> Option<LinkScan> {
    if rel_next().is_suffix_of(part) && has_char(part, '<') && has_char(part, '>') {
        let start = index_of_or_len(part, '<');
        let end = index_of_or_len(part, '>');
        if start < end {
            Some(LinkScan::Found(part.subrange(start + 1int, end as int)))
        } else {
            Some(LinkScan::Malformed)
        }
    } else {
        None
    }
}

/// Scans the comma-separated entries of a `Link` header in order, each one
/// trimmed, and stops at the first one that ends with `rel="next"` and holds
/// both brackets.
pub open spec fn scan_next_link(header: Seq<char>) -> LinkScan
    decreases header.len(),
{
    let i = index_of_or_len(header, ',');
    match scan_link_part(trim(header.subrange(0, i as int))) {
        Some(found) => found,
        None => if i < header.len() {
            scan_next_link(header.subrange(i + 1int, header.len() as int))
        } else {
            LinkScan::NotFound
        },
    }
}

/// What scanning a `Link` header for the next page gives.
pub enum NextLink {
    Found(String),
    NotFound,
    Malformed,
}

impl View for NextLink {
    type V = LinkScan;

    open spec fn view(&self) -> LinkScan {
        match self {
            NextLink::Found(u) => LinkScan::Found(u@),
            NextLink::NotFound => LinkScan::NotFound,
            NextLink::Malformed => LinkScan::Malformed,
        }
    }
}

/// Scans a `Link` header for the entry that names the next page.
pub fn scan_link_header(header: &str) -> (r: NextLink)
    ensures
        r@ == scan_next_link(header@),
{
    let v = chars_of(header);
    let pat: Vec<char> = vec!['r', 'e', 'l', '=', '"', 'n', 'e', 'x', 't', '"'];
    assert(pat@ =~= rel_next());
    let len = v.len();
    let mut pos: usize = 0;
    assert(v@.subrange(0, len as int) =~= v@);
    loop
        invariant
            v@ == header@,
            len == v.len(),
            pat@ == rel_next(),
            pos <= len,
            scan_next_link(header@) == scan_next_link(v@.subrange(pos as int, len as int)),
        decreases len - pos,
    {
        let ghost rest = v@.subrange(pos as int, len as int);
        let i = find_char(&v, pos, len, ',');
        assert(rest.subrange(0, i - pos) =~= v@.subrange(pos as int, i as int));
        let (a, b) = trim_bounds(&v, pos, i);
        let ghost part = v@.subrange(a as int, b as int);
        if ends_with_chars(&v, a, b, &pat) {
            let lt = find_char(&v, a, b, '<');
            let gt = find_char(&v, a, b, '>');
            if lt < b && gt < b {
                assert(trim(rest.subrange(0, i - pos)) == part);
                if lt < gt {
                    assert(part.subrange(lt - a + 1, gt - a) =~= v@.subrange(lt + 1, gt as int));
                    return NextLink::Found(string_from_chars(&v, lt + 1, gt));
                } else {
                    return NextLink::Malformed;
                }
            }
        }
        if i < len {
            assert(rest.subrange(i - pos + 1, rest.len() as int) =~= v@.subrange(i + 1, len as int));
            pos = i + 1;
        } else {
            return NextLink::NotFound;
        }
    }
}

/// The URL of the next page named by a `Link` header, or `None` where no
/// entry ends with `rel="next"`.
pub fn parse_next_link(header: &str) -> (r: Option<String>)
    requires
        !(scan_next_link(header@) is Malformed),
    ensures
        match scan_next_link(header@) {
            LinkScan::Found(url) => r is Some && r->0@ == url,
            _ => r is None,
        },
{
    match scan_link_header(header) {
        NextLink::Found(url) => Some(url),
        _ => None,
    }
}

/// The entry `<url>; rel="next"` of a `Link` header.
pub open spec fn next_entry(url: Seq<char>) -> Seq<char> {
    seq!['<'] + url + seq!['>', ';', ' '] + rel_next()
}

/// A `Link` header whose first entry is `<url>; rel="next"` names `url` as
/// the next page, whatever entries follow it, where the URL holds no `,`,
/// `<` or `>`.
pub proof fn lemma_first_entry_names_next(url: Seq<char>, rest: Seq<char>)
    requires
        !url.contains(','),
        !url.contains('<'),
        !url.contains('>'),
    ensures
        scan_next_link(next_entry(url)) == LinkScan::Found(url),
        scan_next_link(next_entry(url) + seq![','] + rest) == LinkScan::Found(url),
{
    let e = next_entry(url);
    let n = url.len();
    let before_comma = seq!['<'] + url + seq!['>', ';', ' '];
    assert(e =~= before_comma + rel_next());
    assert(!before_comma.contains(',')) by {
        if before_comma.contains(',') {
            let k = choose|k: int| 0 <= k < before_comma.len() && before_comma[k] == ',';
            if 1 <= k <= n {
                assert(url[k - 1] == ',');
            }
        }
    }
    lemma_index_of_concat(before_comma, rel_next(), ',');
    lemma_index_of_concat(rel_next(), Seq::empty(), ',');
    assert(rel_next() + Seq::<char>::empty() =~= rel_next());
    assert(index_of_or_len(e, ',') == e.len());
    let with_rest = e + seq![','] + rest;
    assert(with_rest =~= e + (seq![','] + rest));
    assert(!e.contains(',')) by {
        if e.contains(',') {
            let k = choose|k: int| 0 <= k < e.len() && e[k] == ',';
            if k < before_comma.len() {
                assert(before_comma[k] == ',');
            } else {
                assert(rel_next()[k - before_comma.len()] == ',');
            }
        }
    }
    lemma_index_of_concat(e, seq![','] + rest, ',');
    assert(index_of_or_len(with_rest, ',') == e.len());
    assert(e.subrange(0, e.len() as int) =~= e);
    assert(with_rest.subrange(0, e.len() as int) =~= e);
    lemma_trim_unchanged(e);
    assert(rel_next().is_suffix_of(e)) by {
        assert(e.subrange(e.len() - rel_next().len(), e.len() as int) =~= rel_next());
    }
    assert(index_of_or_len(e, '<') == 0);
    let upto_gt = seq!['<'] + url;
    assert(!upto_gt.contains('>')) by {
        if upto_gt.contains('>') {
            let k = choose|k: int| 0 <= k < upto_gt.len() && upto_gt[k] == '>';
            assert(url[k - 1] == '>');
        }
    }
    assert(e =~= upto_gt + (seq!['>', ';', ' '] + rel_next()));
    lemma_index_of_concat(upto_gt, seq!['>', ';', ' '] + rel_next(), '>');
    assert(index_of_or_len(e, '>') == n + 1);
    assert(e.subrange(1, n + 1int) =~= url);
}

/// Two `Link` headers joined by a comma: the joined header names the next
/// page that the first one names, or is malformed where the first one is;
/// where the first one names none, it gives what the second one gives.
pub proof fn lemma_scan_joined(h: Seq<char>, s: Seq<char>)
    ensures
        scan_next_link(h + seq![','] + s) == match scan_next_link(h) {
            LinkScan::NotFound => scan_next_link(s),
            first => first,
        },
    decreases h.len(),
{
    let joined = h + seq![','] + s;
    let i = index_of_or_len(h, ',');
    lemma_index_of_or_len_bound(h, ',');
    assert(joined =~= h + (seq![','] + s));
    if i < h.len() {
        lemma_index_of_prefix(h, seq![','] + s, ',');
        assert(joined.subrange(0, i as int) =~= h.subrange(0, i as int));
        let rest = h.subrange(i + 1int, h.len() as int);
        assert(joined.subrange(i + 1int, joined.len() as int) =~= rest + seq![','] + s);
        lemma_scan_joined(rest, s);
    } else {
        assert(!h.contains(',')) by {
            if h.contains(',') {
                let k = choose|k: int| 0 <= k < h.len() && h[k] == ',';
                assert(h[k] != ',');
            }
        }
        lemma_index_of_concat(h, seq![','] + s, ',');
        assert(joined.subrange(0, h.len() as int) =~= h);
        assert(h.subrange(0, h.len() as int) =~= h);
        assert(joined.subrange(h.len() + 1int, joined.len() as int) =~= s);
    }
}

/// A label of a search result.
#[derive(Clone, Debug)]
pub struct GitHubLabel {
    pub name: String,
}

/// One issue or pull request as the search API returns it.
#[derive(Clone, Debug)]
pub struct GitHubItem {
    pub number: u64,
    pub title: String,
    pub state: String,
    pub html_url: String,
    pub updated_at: String,
    pub body: Option<String>,
    pub repository_url: String,
    /// Whether the result carries `pull_request` data, that is, is a pull request.
    pub is_pull_request: bool,
    pub labels: Vec<GitHubLabel>,
}

/// An issue or pull request assigned to the user.
#[derive(Clone, Debug)]
pub struct GitHubIssue {
    pub identifier: String,
    pub number: u64,
    pub title: String,
    pub state: String,
    pub url: String,
    pub updated_at: String,
    pub body: Option<String>,
    pub repo: String,
    pub is_pr: bool,
    pub priority_label: String,
    pub source_metadata: String,
}

/// The names of the labels, in order.
pub open spec fn label_names(labels: Seq<GitHubLabel>) -> Seq<Seq<char>> {
    labels.map_values(|l: GitHubLabel| l.name@)
}

/// The first label name that starts with `priority/`, or the empty string.
pub open spec fn priority_label_of(names: Seq<Seq<char>>) -> Seq<char>
    decreases names.len(),
{
    if names.len() == 0 {
        Seq::empty()
    } else if "priority/"@.is_prefix_of(names[0]) {
        names[0]
    } else {
        priority_label_of(names.drop_first())
    }
}

/// The repository of a result: its API URL with every
/// `https://api.github.com/repos/` taken out.
pub open spec fn repo_of(repository_url: Seq<char>) -> Seq<char> {
    remove_all(repository_url, "https://api.github.com/repos/"@)
}

/// `issue` is what the conversion makes of `item`.
pub open spec fn issue_converted_from(issue: GitHubIssue, item: GitHubItem) -> bool {
    &&& issue.repo@ == repo_of(item.repository_url@)
    &&& issue.identifier@ == repo_of(item.repository_url@) + seq!['#'] + decimal(item.number as nat)
    &&& issue.number == item.number
    &&& issue.title@ == item.title@
    &&& issue.state@ == item.state@
    &&& issue.url@ == item.html_url@
    &&& issue.updated_at@ == item.updated_at@
    &&& opt_chars(issue.body) == opt_chars(item.body)
    &&& issue.is_pr == item.is_pull_request
    &&& issue.priority_label@ == priority_label_of(label_names(item.labels@))
    &&& issue.source_metadata@ == json_flag_and_list_object(
        "is_pr"@,
        item.is_pull_request,
        "labels"@,
        label_names(item.labels@),
    )
}

/// The first of `names` that starts with `priority/`, or the empty string.
fn first_priority_label(names: &Vec<String>) -> (r: String)
    ensures
        r@ == priority_label_of(string_views(names@)),
{
    let prefix = chars_of("priority/");
    let mut i: usize = 0;
    assert(names@.subrange(0, names.len() as int) =~= names@);
    while i < names.len()
        invariant
            i <= names.len(),
            prefix@ == "priority/"@,
            priority_label_of(string_views(names@)) == priority_label_of(
                string_views(names@.subrange(i as int, names.len() as int)),
            ),
        decreases names.len() - i,
    {
        let ghost rest = string_views(names@.subrange(i as int, names.len() as int));
        assert(rest[0] == names@[i as int]@);
        assert(rest.drop_first() =~= string_views(names@.subrange(i + 1, names.len() as int)));
        let v = chars_of(names[i].as_str());
        assert(v@.subrange(0, v.len() as int) =~= v@);
        if matches_at(&v, 0, &prefix) {
            return names[i].clone();
        }
        i = i + 1;
    }
    String::new()
}

/// Converts one search result into an issue.
pub fn convert_item(item: GitHubItem) -> (r: GitHubIssue)
    ensures
        issue_converted_from(r, item),
{
    let url_chars = chars_of(item.repository_url.as_str());
    let prefix = chars_of("https://api.github.com/repos/");
    let repo_chars = remove_all_chars(&url_chars, &prefix);
    let repo = string_from_chars(&repo_chars, 0, repo_chars.len());
    assert(repo_chars@.subrange(0, repo_chars.len() as int) =~= repo_chars@);
    let mut id_chars = repo_chars;
    id_chars.push('#');
    push_decimal(&mut id_chars, item.number);
    assert(id_chars@ =~= repo_of(item.repository_url@) + seq!['#'] + decimal(item.number as nat));
    let identifier = string_from_chars(&id_chars, 0, id_chars.len());
    assert(id_chars@.subrange(0, id_chars.len() as int) =~= id_chars@);
    let mut names: Vec<String> = Vec::new();
    let mut i: usize = 0;
    while i < item.labels.len()
        invariant
            i <= item.labels.len(),
            names.len() == i,
            forall|j: int| 0 <= j < i ==> names@[j]@ == item.labels@[j].name@,
        decreases item.labels.len() - i,
    {
        names.push(item.labels[i].name.clone());
        i = i + 1;
    }
    assert(string_views(names@) =~= label_names(item.labels@));
    let priority_label = first_priority_label(&names);
    let source_metadata = write_flag_and_list_object("is_pr", item.is_pull_request, "labels", &names);
    GitHubIssue {
        identifier,
        number: item.number,
        title: item.title,
        state: item.state,
        url: item.html_url,
        updated_at: item.updated_at,
        body: item.body,
        repo,
        is_pr: item.is_pull_request,
        priority_label,
        source_metadata,
    }
}

/// Converts search results into issues, in order.
pub fn convert_items(items: Vec<GitHubItem>) -> (r: Vec<GitHubIssue>)
    ensures
        r.len() == items.len(),
        forall|i: int| 0 <= i < items.len() ==> issue_converted_from(#[trigger] r@[i], items@[i]),
{
    let ghost all = items@;
    let mut r: Vec<GitHubIssue> = Vec::new();
    for item in it: items
        invariant
            it.seq() == all,
            r.len() == it.index(),
            forall|i: int| 0 <= i < r.len() ==> issue_converted_from(#[trigger] r@[i], all[i]),
    {
        r.push(convert_item(item));
    }
    r
}


/// The most issues that one fetch collects.
pub const MAX_RESULTS: usize = 500;

/// The search URL of the first page: open issues and pull requests
/// assigned to the user, most recently updated first, a hundred a page.
pub open spec fn search_url(query: Seq<char>) -> Seq<char> {
    "https://api.github.com/search/issues?q="@ + query + "&per_page=100&sort=updated&order=desc"@
}

/// The search query, URL-encoded.
pub open spec fn encoded_query() -> Seq<char> {
    percent_encoded("is:open assignee:@me".spec_bytes())
}

/// The URL of the first page of the search.
pub fn first_page_url() -> (r: String)
    ensures
        r@ == search_url(encoded_query()),
{
    let query = url_encode("is:open assignee:@me");
    let mut url = "https://api.github.com/search/issues?q=".to_owned();
    url.append(query.as_str());
    url.append("&per_page=100&sort=updated&order=desc");
    url
}

/// The value of the `Authorization` header for a token.
pub fn authorization(token: &str) -> (r: String)
    ensures
        r@ == "Bearer "@ + token@,
{
    let mut v = "Bearer ".to_owned();
    v.append(token);
    v
}

/// What happened to the request that the fetch asked for.
pub enum GitHubEvent {
    /// The request could not be sent; the error's text.
    SendFailed(String),
    /// The response arrived with this status code.
    Status(u16),
    /// The body of a response whose status is not a success, with the status as text.
    ErrorBody { status: String, body: String },
    /// The body of a successful response could not be read as search results.
    ParseFailed(String),
    /// The search results of a page, with the `Link` header where there was one.
    Page { items: Vec<GitHubItem>, link: Option<String> },
}

/// What the fetch asks for next.
pub enum GitHubAction {
    /// Send a request for this URL.
    Request(String),
    /// Read the body of the response as text; the status is not a success.
    ReadErrorBody,
    /// Read the body of the response as search results.
    ReadPage,
    /// The fetch is over, with these issues.
    Finished(Vec<GitHubIssue>),
    /// The fetch failed with this message.
    Failed(String),
}

/// `issues` are the conversions of `items`, one for one and in order.
pub open spec fn converted_all(issues: Seq<GitHubIssue>, items: Seq<GitHubItem>) -> bool {
    &&& issues.len() == items.len()
    &&& forall|i: int| 0 <= i < items.len() ==> issue_converted_from(#[trigger] issues[i], items[i])
}

/// The items that a fetch returns once it has seen `items`: all of them, or
/// the first [`MAX_RESULTS`].
pub open spec fn capped(items: Seq<GitHubItem>) -> Seq<GitHubItem> {
    if items.len() < MAX_RESULTS {
        items
    } else {
        items.take(MAX_RESULTS as int)
    }
}

/// A fetch returns at most [`MAX_RESULTS`] issues, the first ones of what it
/// has seen, and all of them where it has seen no more than that.
pub proof fn lemma_capped(items: Seq<GitHubItem>)
    ensures
        capped(items).len() <= MAX_RESULTS,
        capped(items).is_prefix_of(items),
        items.len() <= MAX_RESULTS ==> capped(items) == items,
{
    if items.len() == MAX_RESULTS {
        assert(items.take(MAX_RESULTS as int) =~= items);
    }
}

/// The message of a response whose status is not a success.
pub open spec fn api_error_message(status: Seq<char>, body: Seq<char>) -> Seq<char> {
    "GitHub API error "@ + status + ": "@ + body
}

/// The fetch of all issues and pull requests assigned to the user, one page
/// after the other, as far as the `Link` headers lead and at most
/// [`MAX_RESULTS`] issues. Its model is the search results seen so far.
pub struct GitHubFetch {
    issues: Vec<GitHubIssue>,
    seen: Ghost<Seq<GitHubItem>>,
}

impl View for GitHubFetch {
    type V = Seq<GitHubItem>;

    closed spec fn view(&self) -> Seq<GitHubItem> {
        self.seen@
    }
}

impl GitHubFetch {
    #[verifier::type_invariant]
    spec fn issues_of_seen(self) -> bool {
        &&& self.issues.len() < MAX_RESULTS
        &&& converted_all(self.issues@, self.seen@)
    }

    /// A fetch that has seen nothing yet, and the URL of its first request.
    pub fn start() -> (r: (GitHubFetch, String))
        ensures
            r.0@ == Seq::<GitHubItem>::empty(),
            r.1@ == search_url(encoded_query()),
    {
        (GitHubFetch { issues: Vec::new(), seen: Ghost(Seq::empty()) }, first_page_url())
    }

    /// How many search results the fetch has seen so far; fewer than [`MAX_RESULTS`].
    pub fn collected(&self) -> (r: usize)
        ensures
            r == self@.len(),
            r < MAX_RESULTS,
    {
        proof {
            use_type_invariant(self);
        }
        self.issues.len()
    }

    /// Takes in what happened to the last request and says what to do next.
    pub fn on_event(&mut self, event: GitHubEvent) -> (a: GitHubAction)
        requires
            event matches GitHubEvent::Page { items, link: Some(h) } ==> (old(self)@.len()
                + items.len() >= MAX_RESULTS || !(scan_next_link(h@) is Malformed)),
        ensures
            match event {
                GitHubEvent::SendFailed(e) => a matches GitHubAction::Failed(m) && m@ == e@,
                GitHubEvent::Status(code) => if 200 <= code <= 299 {
                    a is ReadPage
                } else {
                    a is ReadErrorBody
                },
                GitHubEvent::ErrorBody { status, body } => a matches GitHubAction::Failed(m)
                    && m@ == api_error_message(status@, body@),
                GitHubEvent::ParseFailed(e) => a matches GitHubAction::Failed(m) && m@ == e@,
                GitHubEvent::Page { items, link } => {
                    let all = old(self)@ + items@;
                    if all.len() >= MAX_RESULTS {
                        a matches GitHubAction::Finished(v) && converted_all(v@, capped(all))
                    } else {
                        match link {
                            Some(h) => match scan_next_link(h@) {
                                LinkScan::Found(url) => a matches GitHubAction::Request(u) && u@
                                    == url && final(self)@ == all,
                                _ => a matches GitHubAction::Finished(v) && converted_all(
                                    v@,
                                    capped(all),
                                ),
                            },
                            None => a matches GitHubAction::Finished(v) && converted_all(
                                v@,
                                capped(all),
                            ),
                        }
                    }
                },
            },
            !(event is Page) ==> final(self)@ == old(self)@,
            a matches GitHubAction::Finished(v) ==> v.len() <= MAX_RESULTS,
    {
        proof {
            use_type_invariant(&*self);
        }
        match event {
            GitHubEvent::SendFailed(e) => GitHubAction::Failed(e),
            GitHubEvent::Status(code) => if is_success_status(code) {
                GitHubAction::ReadPage
            } else {
                GitHubAction::ReadErrorBody
            },
            GitHubEvent::ErrorBody { status, body } => {
                let mut m = "GitHub API error ".to_owned();
                m.append(status.as_str());
                m.append(": ");
                m.append(body.as_str());
                GitHubAction::Failed(m)
            },
            GitHubEvent::ParseFailed(e) => GitHubAction::Failed(e),
            GitHubEvent::Page { items, link } => {
                let ghost all = self.seen@ + items@;
                let mut converted = convert_items(items);
                let ghost page = converted@;
                let mut taken = GitHubFetch { issues: Vec::new(), seen: Ghost(Seq::empty()) };
                std::mem::swap(&mut taken, self);
                proof {
                    use_type_invariant(&taken);
                }
                let GitHubFetch { issues: mut issues, seen: _ } = taken;
                let ghost before = issues@;
                issues.append(&mut converted);
                assert(converted_all(issues@, all)) by {
                    assert forall|i: int| 0 <= i < all.len() implies issue_converted_from(
                        #[trigger] issues@[i],
                        all[i],
                    ) by {
                        if i >= before.len() {
                            assert(issues@[i] == page[i - before.len()]);
                        }
                    }
                }
                if issues.len() >= MAX_RESULTS {
                    issues.truncate(MAX_RESULTS);
                    return GitHubAction::Finished(issues);
                }
                match link {
                    Some(h) => match scan_link_header(h.as_str()) {
                        NextLink::Found(url) => {
                            *self = GitHubFetch { issues, seen: Ghost(all) };
                            GitHubAction::Request(url)
                        },
                        _ => GitHubAction::Finished(issues),
                    },
                    None => GitHubAction::Finished(issues),
                }
            },
        }
    }
}

} // verus!
