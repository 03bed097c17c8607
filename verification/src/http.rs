//! Where the service is reached: its address, the key and the organisation
//! of the caller, and what a query sends there.

use vstd::prelude::*;
use vstd::string::*;
use crate::json::{member_models, JsonModel, JsonValue};
use crate::text::{
    replace, replaced, strip_leading, strip_trailing, trim_end_matches, trim_start_matches,
    view_of,
};

verus! {

/// The address of the service that is used where none is given.
pub open spec fn default_api_url() -> Seq<char> {
    "https://api.braintrust.dev"@
}

/// The address of the service: the one that the login gave, else the one
/// that the caller gave, else the default.
pub open spec fn spec_resolve_api_url(
    from_login: Option<Seq<char>>,
    from_args: Option<Seq<char>>,
) -> Seq<char> {
    match from_login {
        Some(url) => url,
        None => match from_args {
            Some(url) => url,
            None => default_api_url(),
        },
    }
}

/// The address of the service: the one that the login gave, else the one
/// that the caller gave, else the default.
pub fn resolve_api_url(from_login: Option<&str>, from_args: Option<&str>) -> (url: String)
    ensures
        url@ == spec_resolve_api_url(view_of(from_login), view_of(from_args)),
{
    match from_login {
        Some(url) => url.to_owned(),
        None => match from_args {
            Some(url) => url.to_owned(),
            None => "https://api.braintrust.dev".to_owned(),
        },
    }
}

/// The address of the web application that belongs to the service at
/// `api_url`: the host `api` gives way to `www`.
pub open spec fn derived_app_url(api_url: Seq<char>) -> Seq<char> {
    replaced(
        replaced(api_url, "api.braintrust"@, "www.braintrust"@),
        "api.braintrustdata"@,
        "www.braintrustdata"@,
    )
}

/// The address of the web application: the one that the caller gave, else
/// the one derived from the address of the service.
pub fn resolve_app_url(from_args: Option<&str>, api_url: &str) -> (url: String)
    ensures
        url@ == match from_args {
            Some(u) => u@,
            None => derived_app_url(api_url@),
        },
{
    match from_args {
        Some(url) => url.to_owned(),
        None => {
            let first = replace(api_url, "api.braintrust", "www.braintrust");
            replace(first.as_str(), "api.braintrustdata", "www.braintrustdata")
        },
    }
}

/// What a client of the service knows.
#[derive(Debug, Clone)]
pub struct ApiClient {
    base_url: String,
    api_key: String,
    org_name: String,
}

/// The model of an [`ApiClient`].
pub struct ApiClientView {
    pub base_url: Seq<char>,
    pub api_key: Seq<char>,
    pub org_name: Seq<char>,
}

impl View for ApiClient {
    type V = ApiClientView;

    closed spec fn view(&self) -> ApiClientView {
        ApiClientView {
            base_url: self.base_url@,
            api_key: self.api_key@,
            org_name: self.org_name@,
        }
    }
}

/// The address of `path` under `base_url`, with one slash between them.
pub open spec fn url_under(base_url: Seq<char>, path: Seq<char>) -> Seq<char> {
    base_url + "/"@ + strip_leading(path, '/')
}

/// The text of a request that failed with the given status and answer.
pub open spec fn spec_failure_message(what: Seq<char>, status: Seq<char>, body: Seq<char>) -> Seq<
    char,
> {
    what + " ("@ + status + "): "@ + body
}

/// The text of a request that failed with the given status and answer.
pub fn failure_message(what: &str, status: &str, body: &str) -> (message: String)
    ensures
        message@ == spec_failure_message(what@, status@, body@),
{
    let mut message = what.to_owned();
    message.push_str(" (");
    message.push_str(status);
    message.push_str("): ");
    message.push_str(body);
    message
}

impl ApiClient {
    /// A client for the service at `api_url`; slashes at the end of the
    /// address are dropped.
    pub fn new(api_url: &str, api_key: &str, org_name: &str) -> (client: ApiClient)
        ensures
            client@ == (ApiClientView {
                base_url: strip_trailing(api_url@, '/'),
                api_key: api_key@,
                org_name: org_name@,
            }),
    {
        ApiClient {
            base_url: trim_end_matches(api_url, '/').to_owned(),
            api_key: api_key.to_owned(),
            org_name: org_name.to_owned(),
        }
    }

    /// The address of `path` at the service.
    pub fn url(&self, path: &str) -> (url: String)
        ensures
            url@ == url_under(self@.base_url, path@),
    {
        let path = trim_start_matches(path, '/');
        let mut url = self.base_url.clone();
        url.push_str("/");
        url.push_str(path);
        url
    }

    /// The address to which queries are sent.
    pub fn query_url(&self) -> (url: String)
        ensures
            url@ == url_under(self@.base_url, "/btql"@),
    {
        self.url("/btql")
    }

    /// The address of the service, without a slash at its end.
    pub fn base_url(&self) -> (url: &str)
        ensures
            url@ == self@.base_url,
    {
        self.base_url.as_str()
    }

    /// The organisation of the caller.
    pub fn org_name(&self) -> (name: &str)
        ensures
            name@ == self@.org_name,
    {
        self.org_name.as_str()
    }

    /// The key of the caller.
    pub fn api_key(&self) -> (key: &str)
        ensures
            key@ == self@.api_key,
    {
        self.api_key.as_str()
    }
}

/// What is sent for a query: the text of the query, and the format in which
/// the answer is wanted.
pub open spec fn spec_query_body(query: Seq<char>) -> JsonModel {
    JsonModel::Object(
        seq![
            ("query"@, JsonModel::String(query)),
            ("fmt"@, JsonModel::String("json"@)),
        ],
    )
}

/// What is sent for a query.
pub fn query_body(query: &str) -> (body: JsonValue)
    ensures
        body@ == spec_query_body(query@),
{
    let mut entries: Vec<(String, JsonValue)> = Vec::new();
    entries.push(("query".to_owned(), JsonValue::String(query.to_owned())));
    entries.push(("fmt".to_owned(), JsonValue::String("json".to_owned())));
    assert(member_models(entries@) =~= seq![
        ("query"@, JsonModel::String(query@)),
        ("fmt"@, JsonModel::String("json"@)),
    ]);
    JsonValue::Object(entries)
}

/// The headers that go with a query: the organisation of the caller, if it
/// has a name.
pub open spec fn spec_query_headers(org_name: Seq<char>) -> Seq<(Seq<char>, Seq<char>)> {
    if org_name.len() == 0 {
        Seq::empty()
    } else {
        seq![("x-bt-org-name"@, org_name)]
    }
}

/// The headers of a list of pairs of strings.
pub open spec fn header_texts(headers: Seq<(String, String)>) -> Seq<(Seq<char>, Seq<char>)> {
    Seq::new(headers.len(), |i: int| (headers[i].0@, headers[i].1@))
}

/// The headers that go with a query.
pub fn query_headers(org_name: &str) -> (headers: Vec<(String, String)>)
    ensures
        header_texts(headers@) == spec_query_headers(org_name@),
{
    let mut headers: Vec<(String, String)> = Vec::new();
    if !org_name.is_empty() {
        headers.push(("x-bt-org-name".to_owned(), org_name.to_owned()));
    }
    headers
}

} // verus!
