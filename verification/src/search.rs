//! The paginated repository search, as a state machine.
//!
//! The search asks the provider for the repositories of a language, most
//! starred first, page after page, until it holds the requested number of
//! them or the provider names no further page. The caller sends each
//! request and hands the response back; every decision is taken here.

use vstd::prelude::*;
use vstd::string::StringExecFns;
use reqwest::header::HeaderMap;
use crate::error::SearchError;
use crate::github_api::{RepoInfo, ReposResponse};
use crate::headers::{extract_links_from_header_map, link_header_text};
use crate::link_header::{get_next_link, next_link};
use crate::web_address::{normalize_url, parsed_url};

verus! {

/// The only status that the pipeline accepts.
pub const HTTP_OK: u16 = 200;

/// A response to the request for one search page.
#[derive(Debug)]
pub struct PageResponse {
    /// Status code of the response.
    pub status: u16,
    /// Headers of the response.
    pub headers: HeaderMap,
    /// The decoded body, or `None` where it is no search page.
    pub body: Option<ReposResponse>,
}

/// What came of the request for one search page.
#[derive(Debug)]
pub enum SearchEvent {
    /// The request could not be sent or no response came back.
    NoResponse,
    /// The provider answered.
    Response(PageResponse),
}

/// Where the search stands.
#[derive(Debug)]
pub enum SearchState {
    /// The page at `url` is to be requested next.
    Fetching {
        /// Address of the next request.
        url: String,
        /// Repositories gathered so far.
        loaded: Vec<RepoInfo>,
        /// How many repositories are wanted.
        project_count: usize,
    },
    /// The search is over and these are its repositories.
    Finished {
        /// The repositories, most starred first.
        repos: Vec<RepoInfo>,
    },
    /// The search was abandoned.
    Failed {
        /// Why.
        error: SearchError,
    },
}

/// The mathematical content of a [`SearchState`].
pub enum SearchStateView {
    Fetching { url: Seq<char>, loaded: Seq<RepoInfo>, project_count: nat },
    Finished { repos: Seq<RepoInfo> },
    Failed { error: SearchError },
}

impl View for SearchState {
    type V = SearchStateView;

    open spec fn view(&self) -> SearchStateView {
        match *self {
            SearchState::Fetching { url, loaded, project_count } => SearchStateView::Fetching {
                url: url@,
                loaded: loaded@,
                project_count: project_count as nat,
            },
            SearchState::Finished { repos } => SearchStateView::Finished { repos: repos@ },
            SearchState::Failed { error } => SearchStateView::Failed { error },
        }
    }
}

/// The address of the first search request for `language`, before it is
/// read as a URL.
pub open spec fn search_address(language: Seq<char>) -> Seq<char> {
    "https://api.github.com/search/repositories?q=language:"@ + language
        + "&sort=stars&order=desc"@
}

/// The text of an address that may be absent.
pub open spec fn address_text(address: Option<String>) -> Option<Seq<char>> {
    match address {
        Some(text) => Some(text@),
        None => None,
    }
}

/// The state in which a search for `project_count` repositories begins,
/// given the address of its first request: abandoned where there is no
/// address, over where no repository is wanted, waiting for the first
/// page otherwise.
pub open spec fn first_state(address: Option<Seq<char>>, project_count: nat) -> SearchStateView {
    match address {
        None => SearchStateView::Failed { error: SearchError::InvalidSearchUrl },
        Some(url) => if project_count == 0 {
            SearchStateView::Finished { repos: Seq::empty() }
        } else {
            SearchStateView::Fetching { url, loaded: Seq::empty(), project_count }
        },
    }
}

/// The state in which a search for `project_count` repositories of
/// `language` begins.
pub open spec fn initial_state(language: Seq<char>, project_count: nat) -> SearchStateView {
    first_state(parsed_url(search_address(language)), project_count)
}

/// The state after a page was merged into `repos`: over when the count is
/// reached or no next page is named, waiting for the next page otherwise.
pub open spec fn state_after_page(
    repos: Seq<RepoInfo>,
    project_count: nat,
    next_page: Option<Seq<char>>,
) -> SearchStateView {
    if repos.len() >= project_count {
        SearchStateView::Finished { repos }
    } else {
        match next_page {
            Some(url) => SearchStateView::Fetching { url, loaded: repos, project_count },
            None => SearchStateView::Finished { repos },
        }
    }
}

/// The repositories held after a page is merged: those gathered so far,
/// then the items of the page, cut to the first `project_count`.
pub open spec fn merged(loaded: Seq<RepoInfo>, items: Seq<RepoInfo>, project_count: nat) -> Seq<
    RepoInfo,
> {
    if loaded.len() + items.len() <= project_count {
        loaded + items
    } else {
        (loaded + items).take(project_count as int)
    }
}

/// What a response is worth to the search: its `Link` header text and its
/// items, or the error that it stands for. The status is judged first,
/// then the header, then the body.
pub open spec fn read_page(response: PageResponse) -> Result<
    (Seq<char>, Seq<RepoInfo>),
    SearchError,
> {
    if response.status != HTTP_OK {
        Err(SearchError::Status(response.status))
    } else {
        match link_header_text(response.headers) {
            Err(error) => Err(error),
            Ok(links) => match response.body {
                None => Err(SearchError::MalformedBody),
                Some(page) => Ok((links, page.items@)),
            },
        }
    }
}

/// What an event is worth to the search.
pub open spec fn read_event(event: SearchEvent) -> Result<(Seq<char>, Seq<RepoInfo>), SearchError> {
    match event {
        SearchEvent::NoResponse => Err(SearchError::Transport),
        SearchEvent::Response(response) => read_page(response),
    }
}

/// The state that follows `state` when `event` comes in.
///
/// A search that is over or abandoned stays as it is. A search that waits
/// for a page fails on any error. Otherwise the page is merged; the search
/// is over when the count is reached or the page names no next page, and
/// goes on with the next page's address if it names one.
pub open spec fn next_state(state: SearchStateView, event: SearchEvent) -> SearchStateView {
    match state {
        SearchStateView::Fetching { url, loaded, project_count } => match read_event(event) {
            Err(error) => SearchStateView::Failed { error },
            Ok((links, items)) => state_after_page(
                merged(loaded, items, project_count),
                project_count,
                next_link(links),
            ),
        },
        _ => state,
    }
}

/// The state reached from `state` after the events came in, one by one.
pub open spec fn run_search(state: SearchStateView, events: Seq<SearchEvent>) -> SearchStateView
    decreases events.len(),
{
    if events.len() == 0 {
        state
    } else {
        run_search(next_state(state, events[0]), events.drop_first())
    }
}

/// The event is a page that the search accepts.
pub open spec fn is_page(event: SearchEvent) -> bool {
    read_event(event) is Ok
}

/// The items of a page.
pub open spec fn page_items(event: SearchEvent) -> Seq<RepoInfo> {
    read_event(event)->Ok_0.1
}

/// The page names a page that follows it.
pub open spec fn names_next_page(event: SearchEvent) -> bool {
    next_link(read_event(event)->Ok_0.0) is Some
}

/// The items of all the pages, in the order of the pages.
pub open spec fn all_items(pages: Seq<SearchEvent>) -> Seq<RepoInfo>
    decreases pages.len(),
{
    if pages.len() == 0 {
        Seq::empty()
    } else {
        page_items(pages[0]) + all_items(pages.drop_first())
    }
}

/// The state holds no more than `project_count` repositories, and a
/// search that still waits for a page holds fewer.
pub open spec fn within_bound(state: SearchStateView, project_count: nat) -> bool {
    match state {
        SearchStateView::Fetching { url, loaded, project_count: wanted } => wanted == project_count
            && loaded.len() < project_count,
        SearchStateView::Finished { repos } => repos.len() <= project_count,
        SearchStateView::Failed { error } => true,
    }
}

/// A search never holds more repositories than were asked for: it begins
/// within the bound, and every step keeps it there.
pub proof fn lemma_search_stays_within_bound(
    language: Seq<char>,
    project_count: nat,
    state: SearchStateView,
    event: SearchEvent,
)
    requires
        within_bound(state, project_count),
    ensures
        within_bound(initial_state(language, project_count), project_count),
        within_bound(next_state(state, event), project_count),
{
}

/// Once a search is over or abandoned, further events change nothing.
pub proof fn lemma_search_rests(state: SearchStateView, events: Seq<SearchEvent>)
    requires
        !(state is Fetching),
    ensures
        run_search(state, events) == state,
    decreases events.len(),
{
    if events.len() > 0 {
        lemma_search_rests(state, events.drop_first());
    }
}

/// The search returns the first items of its pages and no others.
///
/// Take a search that waits for a page with `loaded` in hand, and feed it
/// pages that it accepts, each but the last naming a next page. If these
/// pages fill the count, or the last names no next page, the search is
/// over, and it holds what was in hand followed by the items of the pages
/// in their order, cut to the count if there are more: as many as the
/// smaller of the count and the number available. A page that overshoots
/// gives its first items.
pub proof fn lemma_search_takes_first_items(
    url: Seq<char>,
    loaded: Seq<RepoInfo>,
    project_count: nat,
    pages: Seq<SearchEvent>,
)
    requires
        loaded.len() < project_count,
        pages.len() > 0,
        forall|i: int| 0 <= i < pages.len() ==> is_page(#[trigger] pages[i]),
        forall|i: int| 0 <= i < pages.len() - 1 ==> names_next_page(#[trigger] pages[i]),
        loaded.len() + all_items(pages).len() >= project_count || !names_next_page(pages.last()),
    ensures
        run_search(SearchStateView::Fetching { url, loaded, project_count }, pages)
            == (SearchStateView::Finished {
            repos: merged(loaded, all_items(pages), project_count),
        }),
        merged(loaded, all_items(pages), project_count).len() == if loaded.len() + all_items(
            pages,
        ).len() <= project_count {
            loaded.len() + all_items(pages).len()
        } else {
            project_count
        },
    decreases pages.len(),
{
    let state = SearchStateView::Fetching { url, loaded, project_count };
    let first = pages[0];
    let rest = pages.drop_first();
    let items = page_items(first);
    let repos = merged(loaded, items, project_count);
    assert(is_page(first));
    if repos.len() >= project_count {
        lemma_search_rests(SearchStateView::Finished { repos }, rest);
        assert(repos == merged(loaded, all_items(pages), project_count)) by {
            assert((loaded + items).take(project_count as int) == (loaded + (items + all_items(
                rest,
            ))).take(project_count as int));
            if loaded.len() + all_items(pages).len() <= project_count {
                assert(all_items(rest).len() == 0);
                assert(items + all_items(rest) == items);
            }
        }
    } else if rest.len() == 0 {
        assert(all_items(rest) == Seq::<RepoInfo>::empty());
        assert(items + all_items(rest) == items);
        assert(pages.last() == first);
    } else {
        assert(names_next_page(first));
        let next = next_link(read_event(first)->Ok_0.0)->Some_0;
        assert forall|i: int| 0 <= i < rest.len() implies is_page(#[trigger] rest[i]) by {
            assert(rest[i] == pages[i + 1]);
        }
        assert forall|i: int| 0 <= i < rest.len() - 1 implies names_next_page(
            #[trigger] rest[i],
        ) by {
            assert(rest[i] == pages[i + 1]);
        }
        assert(rest.last() == pages.last());
        assert(repos == loaded + items);
        lemma_search_takes_first_items(next, repos, project_count, rest);
        assert((loaded + items) + all_items(rest) == loaded + (items + all_items(rest)));
    }
}

/// A search begun for `project_count` repositories, more than none, and
/// fed the pages of the provider returns the first `project_count` items
/// of these pages, or all of them where they hold fewer.
pub proof fn lemma_search_result(language: Seq<char>, project_count: nat, pages: Seq<SearchEvent>)
    requires
        parsed_url(search_address(language)) is Some,
        project_count > 0,
        pages.len() > 0,
        forall|i: int| 0 <= i < pages.len() ==> is_page(#[trigger] pages[i]),
        forall|i: int| 0 <= i < pages.len() - 1 ==> names_next_page(#[trigger] pages[i]),
        all_items(pages).len() >= project_count || !names_next_page(pages.last()),
    ensures
        run_search(initial_state(language, project_count), pages) == (SearchStateView::Finished {
            repos: if all_items(pages).len() <= project_count {
                all_items(pages)
            } else {
                all_items(pages).take(project_count as int)
            },
        }),
{
    let url = parsed_url(search_address(language))->Some_0;
    lemma_search_takes_first_items(url, Seq::empty(), project_count, pages);
    assert(Seq::<RepoInfo>::empty() + all_items(pages) == all_items(pages));
}

/// Writes the address of the first search request for `language`: the
/// repositories of that language, sorted by stars, most starred first.
pub fn search_request_address(language: &str) -> (address: String)
    ensures
        address@ == search_address(language@),
{
    let mut address: String = String::from_str(
        "https://api.github.com/search/repositories?q=language:",
    );
    address.append(language);
    address.append("&sort=stars&order=desc");
    address
}

/// Begins a search for the `project_count` most starred repositories of
/// `language`.
///
/// The search fails at once where the address built from `language` is no
/// URL, is over at once where no repository is wanted, and otherwise asks
/// for the first page.
pub fn start_search(language: &str, project_count: usize) -> (state: SearchState)
    ensures
        state@ == initial_state(language@, project_count as nat),
{
    let address: String = search_request_address(language);
    begin_search(normalize_url(address.as_str()), project_count)
}

/// Begins a search for `project_count` repositories at the given address
/// of the first page.
///
/// Without an address the search is abandoned; with one, it is over at
/// once where no repository is wanted, and otherwise asks for that page.
pub fn begin_search(address: Option<String>, project_count: usize) -> (state: SearchState)
    ensures
        state@ == first_state(address_text(address), project_count as nat),
{
    match address {
        None => SearchState::Failed { error: SearchError::InvalidSearchUrl },
        Some(url) => {
            if project_count == 0 {
                SearchState::Finished { repos: Vec::new() }
            } else {
                SearchState::Fetching { url, loaded: Vec::new(), project_count }
            }
        },
    }
}

/// Decides how the search goes on once a page is merged into `repos`: it
/// is over when `repos` holds the count or the page named no next page,
/// and asks for `next_page` otherwise.
pub fn continue_search(repos: Vec<RepoInfo>, project_count: usize, next_page: Option<String>) -> (state:
    SearchState)
    ensures
        state@ == state_after_page(repos@, project_count as nat, address_text(next_page)),
{
    if repos.len() >= project_count {
        SearchState::Finished { repos }
    } else {
        match next_page {
            Some(url) => SearchState::Fetching { url, loaded: repos, project_count },
            None => SearchState::Finished { repos },
        }
    }
}

/// Judges a response: hands out the text of its `Link` header and its
/// items, or the error that it stands for.
pub fn check_page(response: PageResponse) -> (page: Result<(String, Vec<RepoInfo>), SearchError>)
    ensures
        page matches Ok((links, items)) ==> read_page(response) == Ok::<
            (Seq<char>, Seq<RepoInfo>),
            SearchError,
        >((links@, items@)),
        page matches Err(error) ==> read_page(response) == Err::<
            (Seq<char>, Seq<RepoInfo>),
            SearchError,
        >(error),
{
    if response.status != HTTP_OK {
        return Err(SearchError::Status(response.status));
    }
    match extract_links_from_header_map(&response.headers) {
        Err(error) => Err(error),
        Ok(links) => match response.body {
            None => Err(SearchError::MalformedBody),
            Some(page) => Ok((links, page.items)),
        },
    }
}

/// Adds the items of a page to the repositories gathered so far, and
/// keeps no more than `project_count` of the whole: where the page holds
/// too many, its first items are kept.
pub fn merge_page(loaded: Vec<RepoInfo>, items: Vec<RepoInfo>, project_count: usize) -> (repos:
    Vec<RepoInfo>)
    ensures
        repos@ == merged(loaded@, items@, project_count as nat),
{
    let mut repos: Vec<RepoInfo> = loaded;
    let mut rest: Vec<RepoInfo> = items;
    if repos.len() >= project_count {
        repos.truncate(project_count);
        proof {
            if loaded@.len() + items@.len() <= project_count {
                assert(items@.len() == 0);
                assert(loaded@ + items@ == loaded@);
                assert(loaded@.subrange(0, project_count as int) == loaded@);
            } else {
                assert(loaded@.subrange(0, project_count as int) == (loaded@ + items@).take(
                    project_count as int,
                ));
            }
        }
        return repos;
    }
    let room: usize = project_count - repos.len();
    if rest.len() > room {
        rest.truncate(room);
        proof {
            assert(loaded@ + items@.subrange(0, room as int) == (loaded@ + items@).take(
                project_count as int,
            ));
        }
    }
    repos.append(&mut rest);
    repos
}

/// Takes the search one step further with what came of the last request.
///
/// Call it while the state is `Fetching`, with the outcome of the request
/// for the state's address. In any other state the event is ignored.
pub fn search_step(state: SearchState, event: SearchEvent) -> (next: SearchState)
    ensures
        next@ == next_state(state@, event),
{
    match state {
        SearchState::Fetching { url, loaded, project_count } => {
            let page = match event {
                SearchEvent::NoResponse => Err(SearchError::Transport),
                SearchEvent::Response(response) => check_page(response),
            };
            match page {
                Err(error) => SearchState::Failed { error },
                Ok((links, items)) => {
                    let next_page: Option<String> = get_next_link(links.as_str());
                    let repos: Vec<RepoInfo> = merge_page(loaded, items, project_count);
                    continue_search(repos, project_count, next_page)
                },
            }
        },
        SearchState::Finished { repos } => SearchState::Finished { repos },
        SearchState::Failed { error } => SearchState::Failed { error },
    }
}

} // verus!
