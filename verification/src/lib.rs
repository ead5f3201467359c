//! Bus-factor analysis of the most-starred repositories of a language.
//!
//! The crate holds the decisions of the pipeline: reading the `Link` header
//! of a search page, bounding the repository list to the requested count
//! across pages, and classifying a repository by how much of its recorded
//! work belongs to a single contributor. Sending requests is left to the
//! caller, which feeds each response back as a plain value.

pub mod bus_factor;
pub mod contributors;
pub mod credentials;
pub mod error;
pub mod github_api;
pub mod headers;
pub mod link_header;
pub mod search;
pub mod web_address;

pub use crate::bus_factor::{
    bus_factor_of, get_bus_factor, reaches_threshold, sum_contributions, BusFactorResult,
    FetchedRepo, AMOUNT_OF_CONTRIBUTORS, BUS_FACTOR_THRESHOLD_DENOMINATOR,
    BUS_FACTOR_THRESHOLD_NUMERATOR,
};
pub use crate::contributors::{
    append_decimal, contributors_request_address, contributors_request_url, get_contributors,
    ContributorsResponse, FetchEvent,
};
pub use crate::credentials::{authorization_value, ACCEPT_MEDIA_TYPE, USER_AGENT};
pub use crate::error::{FetchError, SearchError};
pub use crate::github_api::{Contributor, RepoInfo, ReposResponse};
pub use crate::headers::{all_visible_ascii, extract_links_from_header_map};
pub use crate::link_header::{collect_chars, get_next_link, get_next_link_text};
pub use crate::search::{
    begin_search, check_page, continue_search, merge_page, search_request_address, search_step,
    start_search, PageResponse, SearchEvent, SearchState, HTTP_OK,
};
pub use crate::web_address::normalize_url;
