//! What the query client decides once a response envelope has arrived:
//! which server-reported errors to report, and whether the data is there.
//! Sending the request and decoding the envelope are the transport's work.

use vstd::prelude::*;

use crate::error::ScanError;
use crate::order::str_eq;

verus! {

/// The endpoint of the query API.
pub const GRAPHQL_URI: &'static str = "https://api.github.com/graphql";

/// How to reach the query API: the bearer token, extra headers for every
/// request, and the messages of server-reported errors not worth reporting.
#[derive(Debug, Clone)]
pub struct Querier {
    token: String,
    uri: String,
    headers: Vec<(String, String)>,
    error_filter: Option<Vec<String>>,
}

/// The message is one of `ignored`.
pub open spec fn is_ignored(ignored: Seq<String>, msg: Seq<char>) -> bool {
    exists|i: int| 0 <= i < ignored.len() && ignored[i]@ == msg
}

/// The messages that survive the filter, in order: all of them where there
/// is no filter.
pub open spec fn reported_errors(msgs: Seq<String>, filter: Option<Vec<String>>) -> Seq<Seq<char>>
    decreases msgs.len(),
{
    if msgs.len() == 0 {
        Seq::empty()
    } else {
        let rest = reported_errors(msgs.drop_last(), filter);
        match filter {
            Some(ignored) => if is_ignored(ignored@, msgs.last()@) {
                rest
            } else {
                rest.push(msgs.last()@)
            },
            None => rest.push(msgs.last()@),
        }
    }
}

impl Querier {
    pub closed spec fn token_view(&self) -> Seq<char> {
        self.token@
    }

    pub closed spec fn uri_view(&self) -> Seq<char> {
        self.uri@
    }

    pub closed spec fn headers_view(&self) -> Seq<(String, String)> {
        self.headers@
    }

    pub closed spec fn filter_view(&self) -> Option<Vec<String>> {
        self.error_filter
    }

    /// A client of the query API that authenticates with `token`.
    pub fn new(token: &str) -> (r: Querier)
        ensures
            r.token_view() == token@,
            r.uri_view() == GRAPHQL_URI@,
            r.headers_view().len() == 0,
            r.filter_view() is None,
    {
        Querier { token: token.to_owned(), uri: GRAPHQL_URI.to_owned(), headers: Vec::new(), error_filter: None }
    }

    /// The same client, sending one more header with every request.
    pub fn header(self, name: &str, value: &str) -> (r: Querier)
        ensures
            r.token_view() == self.token_view(),
            r.uri_view() == self.uri_view(),
            r.headers_view().len() == self.headers_view().len() + 1,
            r.headers_view().drop_last() == self.headers_view(),
            r.headers_view().last().0@ == name@,
            r.headers_view().last().1@ == value@,
            r.filter_view() == self.filter_view(),
    {
        let mut q = self;
        let ghost before = q.headers@;
        q.headers.push((name.to_owned(), value.to_owned()));
        assert(q.headers@.drop_last() =~= before);
        q
    }

    /// The same client, not reporting server errors whose message is one of
    /// `ignored`.
    pub fn error_filter(self, ignored: Vec<String>) -> (r: Querier)
        ensures
            r.token_view() == self.token_view(),
            r.uri_view() == self.uri_view(),
            r.headers_view() == self.headers_view(),
            r.filter_view() == Some(ignored),
    {
        Querier { error_filter: Some(ignored), ..self }
    }

    /// The bearer token.
    pub fn token(&self) -> (r: &str)
        ensures
            r@ == self.token_view(),
    {
        self.token.as_str()
    }

    /// The endpoint.
    pub fn uri(&self) -> (r: &str)
        ensures
            r@ == self.uri_view(),
    {
        self.uri.as_str()
    }

    /// The extra headers, in the order they were added.
    pub fn headers(&self) -> (r: &Vec<(String, String)>)
        ensures
            r@ == self.headers_view(),
    {
        &self.headers
    }

    /// The messages of the server-reported errors that are to be reported,
    /// in order.
    pub fn filter_errs(&self, messages: &Vec<String>) -> (r: Vec<String>)
        ensures
            r@.map_values(|s: String| s@) == reported_errors(messages@, self.filter_view()),
    {
        let mut kept: Vec<String> = Vec::new();
        let mut i: usize = 0;
        while i < messages.len()
            invariant
                i <= messages@.len(),
                kept@.map_values(|s: String| s@) == reported_errors(messages@.subrange(0, i as int), self.error_filter),
            decreases messages@.len() - i,
        {
            let ghost next = messages@.subrange(0, i + 1);
            assert(next.drop_last() =~= messages@.subrange(0, i as int));
            let ghost before = kept@;
            let msg = &messages[i];
            let keep = match &self.error_filter {
                None => true,
                Some(ignored) => !contains_str(ignored, msg.as_str()),
            };
            if keep {
                kept.push(msg.clone());
                assert(kept@.map_values(|s: String| s@) =~= before.map_values(|s: String| s@).push(msg@));
            }
            i = i + 1;
        }
        assert(messages@.subrange(0, messages@.len() as int) =~= messages@);
        kept
    }
}

/// `msg` is one of `list`.
pub fn contains_str(list: &Vec<String>, msg: &str) -> (r: bool)
    ensures
        r == is_ignored(list@, msg@),
{
    let mut i: usize = 0;
    while i < list.len()
        invariant
            i <= list@.len(),
            forall|j: int| 0 <= j < i ==> list@[j]@ != msg@,
        decreases list@.len() - i,
    {
        if str_eq(list[i].as_str(), msg) {
            return true;
        }
        i = i + 1;
    }
    false
}

/// The data of a response envelope; an envelope without data fails the
/// scan, whatever errors came with it.
pub fn take_data<T>(data: Option<T>) -> (r: Result<T, ScanError>)
    ensures
        data matches Some(d) ==> r == Ok::<T, ScanError>(d),
        data is None ==> r == Err::<T, ScanError>(ScanError::MissingData),
{
    match data {
        Some(d) => Ok(d),
        None => Err(ScanError::MissingData),
    }
}

/// The organization of the data; data that names none fails the scan.
pub fn take_organization<T>(organization: Option<T>) -> (r: Result<T, ScanError>)
    ensures
        organization matches Some(o) ==> r == Ok::<T, ScanError>(o),
        organization is None ==> r == Err::<T, ScanError>(ScanError::MissingOrganization),
{
    match organization {
        Some(o) => Ok(o),
        None => Err(ScanError::MissingOrganization),
    }
}

} // verus!
