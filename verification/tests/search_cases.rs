//! The paginated search, run over pages that a test hands in.

use bus_factor::{
    all_visible_ascii, begin_search, check_page, continue_search,
    extract_links_from_header_map, merge_page, search_request_address, search_step,
    start_search, PageResponse, RepoInfo, ReposResponse, SearchError, SearchEvent, SearchState,
    HTTP_OK,
};
use reqwest::header::{HeaderMap, HeaderValue};

const FIRST_URL: &str =
    "https://api.github.com/search/repositories?q=language:rust&sort=stars&order=desc";

fn repo(name: &str) -> RepoInfo {
    RepoInfo {
        name: String::from(name),
        contributors_url: format!("https://api.github.com/repos/{}/contributors", name),
    }
}

fn repos(from: usize, to: usize) -> Vec<RepoInfo> {
    let mut all = Vec::new();
    for i in from..to {
        all.push(repo(&format!("r{}", i)));
    }
    all
}

fn headers_with(link: &str) -> HeaderMap {
    let mut headers = HeaderMap::new();
    headers.insert("link", HeaderValue::from_str(link).unwrap());
    headers
}

fn next_to(page: usize) -> String {
    format!(
        "<https://api.example.com/search?page={}>; rel=\"next\", <https://api.example.com/search?page=34>; rel=\"last\"",
        page
    )
}

fn last_page_links() -> String {
    String::from("<https://api.example.com/search?page=1>; rel=\"first\", <https://api.example.com/search?page=33>; rel=\"prev\"")
}

fn page(link: &str, items: Vec<RepoInfo>) -> SearchEvent {
    SearchEvent::Response(PageResponse {
        status: 200,
        headers: headers_with(link),
        body: Some(ReposResponse { items }),
    })
}

/// Runs a search over the given events, as a caller would over responses,
/// and counts the requests that it asked for.
fn run(language: &str, project_count: usize, events: Vec<SearchEvent>) -> (SearchState, usize) {
    let mut state = start_search(language, project_count);
    let mut requests = 0;
    for event in events {
        if !matches!(state, SearchState::Fetching { .. }) {
            break;
        }
        requests += 1;
        state = search_step(state, event);
    }
    (state, requests)
}

fn finished(state: SearchState) -> Vec<RepoInfo> {
    match state {
        SearchState::Finished { repos } => repos,
        other => panic!("search is not finished: {:?}", other),
    }
}

fn failure(state: SearchState) -> SearchError {
    match state {
        SearchState::Failed { error } => error,
        other => panic!("search has not failed: {:?}", other),
    }
}

#[test]
fn status_ok_is_200() {
    assert_eq!(HTTP_OK, 200);
}

#[test]
fn search_begins_with_the_language_query() {
    match start_search("rust", 10) {
        SearchState::Fetching { url, loaded, project_count } => {
            assert_eq!(url, FIRST_URL);
            assert_eq!(loaded, Vec::<RepoInfo>::new());
            assert_eq!(project_count, 10);
        }
        other => panic!("unexpected state {:?}", other),
    }
}

#[test]
fn search_address_is_put_in_normal_form() {
    match start_search("c plus plus", 1) {
        SearchState::Fetching { url, .. } => assert_eq!(
            url,
            "https://api.github.com/search/repositories?q=language:c%20plus%20plus&sort=stars&order=desc"
        ),
        other => panic!("unexpected state {:?}", other),
    }
}

#[test]
fn search_for_no_repositories_is_over_at_once() {
    let (state, requests) = run("rust", 0, vec![page(&next_to(2), repos(0, 30))]);
    assert_eq!(requests, 0);
    assert_eq!(finished(state), Vec::<RepoInfo>::new());
}

#[test]
fn last_page_is_cut_to_the_count() {
    let events = vec![
        page(&next_to(2), repos(0, 3)),
        page(&next_to(3), repos(3, 6)),
        page(&next_to(4), repos(6, 9)),
    ];
    let (state, requests) = run("rust", 5, events);
    assert_eq!(requests, 2);
    assert_eq!(finished(state), repos(0, 5));
}

#[test]
fn first_page_alone_may_fill_the_count() {
    let (state, requests) = run("rust", 2, vec![page(&next_to(2), repos(0, 30)), page(&next_to(3), repos(30, 60))]);
    assert_eq!(requests, 1);
    assert_eq!(finished(state), repos(0, 2));
}

#[test]
fn exact_fit_stops_without_another_request() {
    let events = vec![
        page(&next_to(2), repos(0, 3)),
        page(&next_to(3), repos(3, 6)),
        page(&next_to(4), repos(6, 9)),
    ];
    let (state, requests) = run("rust", 6, events);
    assert_eq!(requests, 2);
    assert_eq!(finished(state), repos(0, 6));
}

#[test]
fn search_goes_on_with_the_next_link() {
    let state = start_search("rust", 10);
    match search_step(state, page(&next_to(2), repos(0, 3))) {
        SearchState::Fetching { url, loaded, project_count } => {
            assert_eq!(url, "https://api.example.com/search?page=2");
            assert_eq!(loaded, repos(0, 3));
            assert_eq!(project_count, 10);
        }
        other => panic!("unexpected state {:?}", other),
    }
}

#[test]
fn exhausted_results_end_the_search_below_the_count() {
    let events = vec![page(&next_to(2), repos(0, 3)), page(&last_page_links(), repos(3, 5))];
    let (state, requests) = run("rust", 100, events);
    assert_eq!(requests, 2);
    assert_eq!(finished(state), repos(0, 5));
}

#[test]
fn unparsable_link_text_ends_the_search() {
    let events = vec![page("<>; rel=\"next\"", repos(0, 3)), page(&next_to(3), repos(3, 6))];
    let (state, requests) = run("rust", 100, events);
    assert_eq!(requests, 1);
    assert_eq!(finished(state), repos(0, 3));
    let (state, _) = run("rust", 100, vec![page("", repos(0, 3))]);
    assert_eq!(finished(state), repos(0, 3));
}

#[test]
fn empty_page_with_next_link_goes_on() {
    let events = vec![page(&next_to(2), vec![]), page(&last_page_links(), repos(0, 2))];
    let (state, requests) = run("rust", 5, events);
    assert_eq!(requests, 2);
    assert_eq!(finished(state), repos(0, 2));
}

#[test]
fn missing_response_fails_the_search() {
    let events = vec![page(&next_to(2), repos(0, 3)), SearchEvent::NoResponse];
    let (state, _) = run("rust", 5, events);
    assert_eq!(failure(state), SearchError::Transport);
}

#[test]
fn other_status_fails_the_search() {
    let bad = SearchEvent::Response(PageResponse {
        status: 403,
        headers: headers_with(&next_to(2)),
        body: Some(ReposResponse { items: repos(0, 3) }),
    });
    let (state, _) = run("rust", 5, vec![bad]);
    assert_eq!(failure(state), SearchError::Status(403));
    let created = SearchEvent::Response(PageResponse {
        status: 201,
        headers: headers_with(&next_to(2)),
        body: Some(ReposResponse { items: repos(0, 3) }),
    });
    let (state, _) = run("rust", 5, vec![created]);
    assert_eq!(failure(state), SearchError::Status(201));
}

#[test]
fn missing_link_header_fails_the_search() {
    let bare = SearchEvent::Response(PageResponse {
        status: 200,
        headers: HeaderMap::new(),
        body: Some(ReposResponse { items: repos(0, 30) }),
    });
    let (state, _) = run("rust", 5, vec![bare]);
    assert_eq!(failure(state), SearchError::MissingLinkHeader);
}

#[test]
fn unreadable_link_header_fails_the_search() {
    let mut headers = HeaderMap::new();
    headers.insert("link", HeaderValue::from_bytes(b"<https://a.example/\xff>; rel=\"next\"").unwrap());
    let odd = SearchEvent::Response(PageResponse {
        status: 200,
        headers,
        body: Some(ReposResponse { items: repos(0, 30) }),
    });
    let (state, _) = run("rust", 5, vec![odd]);
    assert_eq!(failure(state), SearchError::UnreadableLinkHeader);
}

#[test]
fn undecodable_body_fails_the_search() {
    let odd = SearchEvent::Response(PageResponse {
        status: 200,
        headers: headers_with(&next_to(2)),
        body: None,
    });
    let (state, _) = run("rust", 5, vec![odd]);
    assert_eq!(failure(state), SearchError::MalformedBody);
}

#[test]
fn status_is_judged_before_header_and_header_before_body() {
    let all_wrong = PageResponse { status: 500, headers: HeaderMap::new(), body: None };
    assert_eq!(check_page(all_wrong), Err(SearchError::Status(500)));
    let two_wrong = PageResponse { status: 200, headers: HeaderMap::new(), body: None };
    assert_eq!(check_page(two_wrong), Err(SearchError::MissingLinkHeader));
    let good = PageResponse {
        status: 200,
        headers: headers_with("x"),
        body: Some(ReposResponse { items: repos(0, 2) }),
    };
    assert_eq!(check_page(good), Ok((String::from("x"), repos(0, 2))));
}

#[test]
fn failure_gives_no_partial_list() {
    let events = vec![page(&next_to(2), repos(0, 3)), SearchEvent::NoResponse, page(&next_to(3), repos(3, 6))];
    let mut state = start_search("rust", 5);
    for event in events {
        state = search_step(state, event);
    }
    assert_eq!(failure(state), SearchError::Transport);
}

#[test]
fn finished_search_ignores_further_events() {
    let state = SearchState::Finished { repos: repos(0, 2) };
    let state = search_step(state, page(&next_to(2), repos(2, 4)));
    let state = search_step(state, SearchEvent::NoResponse);
    assert_eq!(finished(state), repos(0, 2));
}

#[test]
fn merge_page_keeps_the_first_items() {
    assert_eq!(merge_page(repos(0, 2), repos(2, 5), 10), repos(0, 5));
    assert_eq!(merge_page(repos(0, 2), repos(2, 5), 5), repos(0, 5));
    assert_eq!(merge_page(repos(0, 2), repos(2, 5), 4), repos(0, 4));
    assert_eq!(merge_page(repos(0, 2), repos(2, 5), 2), repos(0, 2));
    assert_eq!(merge_page(repos(0, 2), repos(2, 5), 1), repos(0, 1));
    assert_eq!(merge_page(vec![], repos(0, 3), 0), Vec::<RepoInfo>::new());
    assert_eq!(merge_page(vec![], vec![], 3), Vec::<RepoInfo>::new());
}

#[test]
fn link_header_is_found_whatever_the_case_of_its_name() {
    let mut headers = HeaderMap::new();
    headers.insert("Link".parse::<reqwest::header::HeaderName>().unwrap(), HeaderValue::from_static("<https://a.example/2>; rel=\"next\""));
    headers.insert("content-type", HeaderValue::from_static("application/json"));
    assert_eq!(
        extract_links_from_header_map(&headers),
        Ok(String::from("<https://a.example/2>; rel=\"next\""))
    );
}

#[test]
fn first_link_header_is_the_one_read() {
    let mut headers = HeaderMap::new();
    headers.append("link", HeaderValue::from_static("first"));
    headers.append("link", HeaderValue::from_static("second"));
    assert_eq!(extract_links_from_header_map(&headers), Ok(String::from("first")));
}

#[test]
fn link_header_text_is_read_or_refused() {
    assert_eq!(extract_links_from_header_map(&HeaderMap::new()), Err(SearchError::MissingLinkHeader));
    assert_eq!(extract_links_from_header_map(&headers_with("")), Ok(String::new()));
    assert_eq!(extract_links_from_header_map(&headers_with("a\tb ~")), Ok(String::from("a\tb ~")));
    let mut headers = HeaderMap::new();
    headers.insert("link", HeaderValue::from_bytes(b"caf\xc3\xa9").unwrap());
    assert_eq!(extract_links_from_header_map(&headers), Err(SearchError::UnreadableLinkHeader));
}

#[test]
fn visible_ascii_is_told_from_other_bytes() {
    assert!(all_visible_ascii(&vec![]));
    assert!(all_visible_ascii(&vec![32, 9, 126, b'a']));
    assert!(!all_visible_ascii(&vec![b'a', 127]));
    assert!(!all_visible_ascii(&vec![31]));
    assert!(!all_visible_ascii(&vec![b'a', 128, b'b']));
    assert!(!all_visible_ascii(&vec![10]));
}

#[test]
fn search_errors_describe_themselves() {
    assert_eq!(SearchError::MissingLinkHeader.message(), "no \"link\" key in headers");
    assert_eq!(SearchError::InvalidSearchUrl.message(), "search address is not a valid URL");
    assert_eq!(SearchError::Transport.message(), "search request failed");
    assert_eq!(
        SearchError::Status(500).message(),
        "search request answered with an invalid status code"
    );
    assert_eq!(SearchError::UnreadableLinkHeader.message(), "\"link\" header is not visible ASCII");
    assert_eq!(SearchError::MalformedBody.message(), "search response body could not be decoded");
}

#[test]
fn search_address_is_written_around_the_language() {
    assert_eq!(search_request_address("rust"), FIRST_URL);
    assert_eq!(
        search_request_address(""),
        "https://api.github.com/search/repositories?q=language:&sort=stars&order=desc"
    );
    assert_eq!(
        search_request_address("c++ & co"),
        "https://api.github.com/search/repositories?q=language:c++ & co&sort=stars&order=desc"
    );
}

#[test]
fn search_without_an_address_is_abandoned() {
    assert_eq!(failure(begin_search(None, 5)), SearchError::InvalidSearchUrl);
    assert_eq!(failure(begin_search(None, 0)), SearchError::InvalidSearchUrl);
}

#[test]
fn search_with_an_address_waits_for_its_first_page() {
    match begin_search(Some(String::from("https://a.example/")), 3) {
        SearchState::Fetching { url, loaded, project_count } => {
            assert_eq!(url, "https://a.example/");
            assert_eq!(loaded, Vec::<RepoInfo>::new());
            assert_eq!(project_count, 3);
        }
        other => panic!("unexpected state {:?}", other),
    }
    assert_eq!(finished(begin_search(Some(String::from("https://a.example/")), 0)), Vec::<RepoInfo>::new());
}

#[test]
fn search_goes_on_only_below_the_count_and_with_a_next_page() {
    let next = || Some(String::from("https://a.example/2"));
    assert_eq!(finished(continue_search(repos(0, 3), 3, next())), repos(0, 3));
    assert_eq!(finished(continue_search(repos(0, 3), 2, next())), repos(0, 3));
    assert_eq!(finished(continue_search(repos(0, 3), 9, None)), repos(0, 3));
    match continue_search(repos(0, 3), 4, next()) {
        SearchState::Fetching { url, loaded, project_count } => {
            assert_eq!(url, "https://a.example/2");
            assert_eq!(loaded, repos(0, 3));
            assert_eq!(project_count, 4);
        }
        other => panic!("unexpected state {:?}", other),
    }
}
