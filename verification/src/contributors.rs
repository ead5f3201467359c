//! The request for the contributors of one repository, and what its
//! response is worth.
//!
//! A failure here concerns the one repository only.

use vstd::prelude::*;
use vstd::string::StringExecFns;
use crate::error::FetchError;
use crate::github_api::{Contributor, RepoInfo};
use crate::search::HTTP_OK;
use crate::web_address::{normalize_url, parsed_url};

verus! {

/// A response to the request for the contributors of a repository.
#[derive(Debug)]
pub struct ContributorsResponse {
    /// Status code of the response.
    pub status: u16,
    /// The decoded body, most active contributor first, or `None` where
    /// it is no list of contributors.
    pub body: Option<Vec<Contributor>>,
}

/// What came of the request for the contributors of a repository.
#[derive(Debug)]
pub enum FetchEvent {
    /// The request could not be sent or no response came back.
    NoResponse,
    /// The provider answered.
    Response(ContributorsResponse),
}

/// The character of a decimal digit.
pub open spec fn digit_char(digit: nat) -> char {
    if digit == 0 {
        '0'
    } else if digit == 1 {
        '1'
    } else if digit == 2 {
        '2'
    } else if digit == 3 {
        '3'
    } else if digit == 4 {
        '4'
    } else if digit == 5 {
        '5'
    } else if digit == 6 {
        '6'
    } else if digit == 7 {
        '7'
    } else if digit == 8 {
        '8'
    } else {
        '9'
    }
}

/// The decimal numeral of `n`, without leading zeros.
pub open spec fn decimal(n: nat) -> Seq<char>
    decreases n,
{
    if n < 10 {
        seq![digit_char(n)]
    } else {
        decimal(n / 10).push(digit_char(n % 10))
    }
}

/// The address from which `amount` contributors of a repository are
/// asked, before it is read as a URL.
pub open spec fn contributors_address(contributors_url: Seq<char>, amount: nat) -> Seq<char> {
    contributors_url + "?per_page="@ + decimal(amount)
}

/// The numeral of a single digit.
fn digit_text(digit: usize) -> (text: &'static str)
    requires
        digit < 10,
    ensures
        text@ == seq![digit_char(digit as nat)],
{
    proof {
        reveal_strlit("0");
        reveal_strlit("1");
        reveal_strlit("2");
        reveal_strlit("3");
        reveal_strlit("4");
        reveal_strlit("5");
        reveal_strlit("6");
        reveal_strlit("7");
        reveal_strlit("8");
        reveal_strlit("9");
    }
    let text: &'static str = if digit == 0 {
        "0"
    } else if digit == 1 {
        "1"
    } else if digit == 2 {
        "2"
    } else if digit == 3 {
        "3"
    } else if digit == 4 {
        "4"
    } else if digit == 5 {
        "5"
    } else if digit == 6 {
        "6"
    } else if digit == 7 {
        "7"
    } else if digit == 8 {
        "8"
    } else {
        "9"
    };
    assert(text@ =~= seq![digit_char(digit as nat)]);
    text
}

/// Writes the decimal numeral of `n` at the end of `text`.
pub fn append_decimal(text: &mut String, n: usize)
    ensures
        final(text)@ == old(text)@ + decimal(n as nat),
    decreases n,
{
    if n >= 10 {
        append_decimal(text, n / 10);
    }
    text.append(digit_text(n % 10));
    proof {
        if n >= 10 {
            assert(old(text)@ + decimal((n / 10) as nat) + seq![digit_char((n % 10) as nat)]
                =~= old(text)@ + decimal(n as nat));
        }
    }
}

/// Writes the address from which the `amount` most active contributors
/// of `repo` are asked: the repository's contributors address followed by
/// `?per_page=` and the amount.
pub fn contributors_request_address(repo: &RepoInfo, amount: usize) -> (address: String)
    ensures
        address@ == contributors_address(repo.contributors_url@, amount as nat),
{
    let mut address: String = repo.contributors_url.clone();
    address.append("?per_page=");
    append_decimal(&mut address, amount);
    address
}

/// Builds the URL from which the `amount` most active contributors of
/// `repo` are asked: the address that [`contributors_request_address`]
/// writes, read as a URL. An address that is no URL is refused.
pub fn contributors_request_url(repo: &RepoInfo, amount: usize) -> (url: Result<String, FetchError>)
    ensures
        url matches Ok(address) ==> parsed_url(
            contributors_address(repo.contributors_url@, amount as nat),
        ) == Some(address@),
        url matches Err(error) ==> error == FetchError::InvalidUrl && parsed_url(
            contributors_address(repo.contributors_url@, amount as nat),
        ) is None,
{
    let address: String = contributors_request_address(repo, amount);
    match normalize_url(address.as_str()) {
        Some(url) => Ok(url),
        None => Err(FetchError::InvalidUrl),
    }
}

/// What the request for the contributors of a repository gave: the list,
/// or the reason why there is none. The status is judged before the body.
pub open spec fn fetched_contributors(event: FetchEvent) -> Result<Seq<Contributor>, FetchError> {
    match event {
        FetchEvent::NoResponse => Err(FetchError::Transport),
        FetchEvent::Response(response) => if response.status != HTTP_OK {
            Err(FetchError::Status(response.status))
        } else {
            match response.body {
                None => Err(FetchError::MalformedBody),
                Some(list) => Ok(list@),
            }
        },
    }
}

/// Judges what came of the request for the contributors of a repository:
/// hands out the contributors of a response with status 200 and a body
/// that is a list of them, and an error in every other case.
pub fn get_contributors(event: FetchEvent) -> (contributors: Result<Vec<Contributor>, FetchError>)
    ensures
        contributors matches Ok(list) ==> fetched_contributors(event) == Ok::<
            Seq<Contributor>,
            FetchError,
        >(list@),
        contributors matches Err(error) ==> fetched_contributors(event) == Err::<
            Seq<Contributor>,
            FetchError,
        >(error),
{
    match event {
        FetchEvent::NoResponse => Err(FetchError::Transport),
        FetchEvent::Response(response) => {
            if response.status != HTTP_OK {
                return Err(FetchError::Status(response.status));
            }
            match response.body {
                None => Err(FetchError::MalformedBody),
                Some(list) => Ok(list),
            }
        },
    }
}

} // verus!
