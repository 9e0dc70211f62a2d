//! A small client library for Jira's REST API, centred on a verified
//! JQL (Jira Query Language) builder.
//!
//! The `jql` module constructs search queries as an abstract syntax tree
//! and renders them to the exact textual form the search endpoint expects;
//! every serializer is proved against a spec-level model of its output. The
//! `util` module reads strings out of the raw JSON trees the API returns.
//! This crate performs no I/O itself: an HTTP layer around it builds
//! requests from the values computed here — the serialized query, the
//! `Authorization` header value, the next page offset — and hands raw
//! result records back.

use base64::Engine;
use vstd::prelude::*;
use vstd::string::StringExecFns;

use crate::util::JsonValue;

pub mod jql;
pub mod util;

verus! {

/// Represents a field in Jira, as returned by a get-fields request. Some
/// critical data (story points, for example) lives in custom fields, so
/// integrations list the fields and match the ones they need by name.
#[derive(Debug)]
pub struct Field {
    pub id: String,
    pub name: String,
}

/// Represents an issue in Jira, as returned by a search request: its
/// identifier, its key, and the requested fields as raw JSON values in the
/// order the response listed them.
#[derive(Debug)]
pub struct SearchIssue {
    pub id: String,
    pub key: String,
    pub fields: Vec<(String, JsonValue)>,
}

/// The status category name carried inside an issue's `status` field, when
/// the search was asked for that field and it has the expected shape.
pub open spec fn spec_status_category(issue: SearchIssue) -> Option<Seq<char>> {
    match util::entries_lookup(issue.fields@, "status"@) {
        Some(status_obj) => util::string_at_path(status_obj, seq!["statusCategory"@, "name"@]),
        None => None,
    }
}

impl SearchIssue {
    /// Returns the statusCategory name from the status field in an issue
    /// result.
    ///
    /// For this to appear in the list of fields, Jira requires the
    /// `"status"` field to be passed into the search request body. Fields
    /// make no guarantees about their typing, so this reaches into the JSON
    /// object directly; if it returns `None` when a value is expected,
    /// check that the search request asked for the status field.
    pub fn status_category(&self) -> (r: Option<String>)
        ensures
            r.deep_view() == spec_status_category(*self),
    {
        match util::entries_get(&self.fields, "status") {
            Some(status_obj) => {
                let mut path: Vec<&str> = Vec::new();
                path.push("statusCategory");
                path.push("name");
                proof {
                    assert(path.deep_view() =~= seq!["statusCategory"@, "name"@]);
                }
                util::get_string_in_json(status_obj, &path)
            },
            None => None,
        }
    }
}

/// One edit to an issue's label list.
#[derive(Debug)]
pub enum IssueEditUpdateLabel {
    Add(String),
}

impl Clone for IssueEditUpdateLabel {
    /// A copy is indistinguishable from the original.
    fn clone(&self) -> (r: Self)
        ensures
            r == *self,
    {
        match self {
            IssueEditUpdateLabel::Add(label) => IssueEditUpdateLabel::Add(label.clone()),
        }
    }
}

/// The label edits to apply to an issue, in order.
#[derive(Debug)]
pub struct IssueEditUpdate {
    pub labels: Vec<IssueEditUpdateLabel>,
}

impl Clone for IssueEditUpdate {
    /// A copy holds exactly the original's edits, in the same order.
    fn clone(&self) -> (r: Self)
        ensures
            r.labels@ == self.labels@,
    {
        let mut labels: Vec<IssueEditUpdateLabel> = Vec::new();
        let mut i: usize = 0;
        while i < self.labels.len()
            invariant
                i <= self.labels@.len(),
                labels@ =~= self.labels@.take(i as int),
            decreases self.labels@.len() - i,
        {
            labels.push(self.labels[i].clone());
            i = i + 1;
        }
        proof {
            assert(labels@ =~= self.labels@);
        }
        IssueEditUpdate { labels }
    }
}

/// The body of an issue-edit request: for now only the `update` member.
#[derive(Debug)]
pub struct IssueEditRequest {
    pub update: IssueEditUpdate,
}

impl Clone for IssueEditRequest {
    /// A copy holds exactly the original's edits, in the same order.
    fn clone(&self) -> (r: Self)
        ensures
            r.update.labels@ == self.update.labels@,
    {
        IssueEditRequest { update: self.update.clone() }
    }
}

/// The URL-safe, padded base64 rendering of a string's UTF-8 bytes, as
/// `base64`'s `engine::general_purpose::URL_SAFE` engine encodes it. The
/// result is a function of the input characters alone.
pub uninterp spec fn b64_of(s: Seq<char>) -> Seq<char>;

/// Relies on `base64`'s `Engine::encode` with the `URL_SAFE` general
/// purpose engine: encodes the string's bytes, and nothing besides its
/// contents enters the result.
#[verifier::external_body]
fn b64_url_encode(s: &str) -> (r: String)
    ensures
        r@ == b64_of(s@),
{
    base64::engine::general_purpose::URL_SAFE.encode(s)
}

/// The value of the `Authorization` header that Jira's basic
/// authentication convention asks for: `Basic `, then the base64 rendering
/// of `username:token`.
pub fn basic_auth_value(username: &str, token: &str) -> (r: String)
    ensures
        r@ == "Basic "@ + b64_of(username@ + ":"@ + token@),
{
    let mut credentials = username.to_owned();
    credentials.append(":");
    credentials.append(token);
    let encoded = b64_url_encode(credentials.as_str());
    let mut r = "Basic ".to_owned();
    r.append(encoded.as_str());
    r
}

/// The base URL every request path is appended to: the instance URL
/// followed by the REST API prefix.
pub fn api_base_url(url: &str) -> (r: String)
    ensures
        r@ == url@ + "/rest/api/3"@,
{
    let mut r = url.to_owned();
    r.append("/rest/api/3");
    r
}

/// The paging decision of a search that fetches every page: after a page
/// that began at `start_at`, asked for `max_results` records and got
/// `returned` back, either the result set is exhausted — the page came back
/// short — and `None` says to stop, or `Some` carries the offset the next
/// page begins at.
pub fn next_page_start(start_at: u64, max_results: u64, returned: u64) -> (r: Option<u64>)
    requires
        start_at + returned <= u64::MAX,
    ensures
        r is Some <==> returned >= max_results,
        r is Some ==> r->0 == start_at + returned,
{
    if returned < max_results {
        None
    } else {
        Some(start_at + returned)
    }
}

} // verus!
