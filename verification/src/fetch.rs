//! Fetching one issue: which request is made, and what takes the URL's place
//! once the API has answered, or has not.
//!
//! The library sends nothing itself. [`fetch_github_issue`] is handed the
//! function that carries a request out, and calls it at most once.

use crate::issue::{card_html, format_issue, GitHubIssue, IssueView};
use reqwest::header::HeaderValue;
use reqwest::StatusCode;
use vstd::prelude::*;
use vstd::utf8::encode_utf8;

verus! {

/// The plain link to an issue. It stands in for the card whenever the card
/// cannot be had.
pub open spec fn issue_link(owner: Seq<char>, repo: Seq<char>, number: Seq<char>) -> Seq<char> {
    "https://github.com/"@ + owner + "/"@ + repo + "/issues/"@ + number
}

/// The address of an issue in the REST API.
pub open spec fn api_url(owner: Seq<char>, repo: Seq<char>, number: Seq<char>) -> Seq<char> {
    "https://api.github.com/repos/"@ + owner + "/"@ + repo + "/issues/"@ + number
}

/// The value of the authorization header that carries `token`.
pub open spec fn authorization_value(token: Seq<char>) -> Seq<char> {
    "token "@ + token
}

/// The name under which every request identifies its sender.
pub open spec fn user_agent() -> Seq<char> {
    "mdbook-preprocessor"@
}

/// Whether a byte may occur in the value of an HTTP header: no control
/// character but the tab.
pub open spec fn header_byte_allowed(b: u8) -> bool {
    (b >= 32 && b != 127) || b == 9
}

/// Whether a text can be the value of an HTTP header: every byte of its UTF-8
/// encoding is allowed.
pub open spec fn header_value_allowed(value: Seq<char>) -> bool {
    forall|i: int|
        0 <= i < encode_utf8(value).len() ==> header_byte_allowed(#[trigger] encode_utf8(value)[i])
}

/// Whether an HTTP status code reports success.
pub open spec fn status_is_success(status: u16) -> bool {
    200 <= status < 300
}

/// A request to the REST API: a GET of `url` with the two headers.
#[derive(Debug, PartialEq, Eq)]
pub struct ApiRequest {
    pub url: String,
    pub user_agent: String,
    /// Absent where the credential cannot be written into a header; the
    /// request is then made without authorization.
    pub authorization: Option<String>,
}

/// The mathematical content of an [`ApiRequest`].
pub struct RequestView {
    pub url: Seq<char>,
    pub user_agent: Seq<char>,
    pub authorization: Option<Seq<char>>,
}

impl View for ApiRequest {
    type V = RequestView;

    open spec fn view(&self) -> RequestView {
        RequestView {
            url: self.url@,
            user_agent: self.user_agent@,
            authorization: match self.authorization {
                Some(value) => Some(value@),
                None => None,
            },
        }
    }
}

/// What came of a request.
#[derive(Debug, PartialEq, Eq)]
pub enum ApiReply {
    /// No response arrived.
    Failed,
    /// A response arrived, with this status code. `issue` is what its body
    /// describes, and is absent where the body has not the shape of an issue.
    Answered { status: u16, issue: Option<GitHubIssue> },
}

/// The mathematical content of an [`ApiReply`].
pub enum ReplyView {
    Failed,
    Answered { status: u16, issue: Option<IssueView> },
}

impl View for ApiReply {
    type V = ReplyView;

    open spec fn view(&self) -> ReplyView {
        match self {
            ApiReply::Failed => ReplyView::Failed,
            ApiReply::Answered { status, issue } => ReplyView::Answered {
                status: *status,
                issue: match issue {
                    Some(issue) => Some(issue@),
                    None => None,
                },
            },
        }
    }
}

/// The request that asks for the issue `number` of `owner`/`repo` with the
/// credential `token`.
pub open spec fn request_for(
    owner: Seq<char>,
    repo: Seq<char>,
    number: Seq<char>,
    token: Seq<char>,
) -> RequestView {
    RequestView {
        url: api_url(owner, repo, number),
        user_agent: user_agent(),
        authorization: if header_value_allowed(authorization_value(token)) {
            Some(authorization_value(token))
        } else {
            None
        },
    }
}

/// What takes the URL's place after `reply`: the card where a successful
/// response described the issue, the plain link in every other case.
pub open spec fn rendered(
    reply: ReplyView,
    owner: Seq<char>,
    repo: Seq<char>,
    number: Seq<char>,
) -> Seq<char> {
    match reply {
        ReplyView::Answered { status, issue: Some(issue) } if status_is_success(status) => card_html(
            issue,
            owner,
            repo,
        ),
        _ => issue_link(owner, repo, number),
    }
}

/// A response renders as the card exactly where its status reports success
/// and its body described an issue. Every other response, one with a status
/// such as 404 among them, renders as the plain link, and so does a request
/// that no response came to.
pub proof fn lemma_rendered(
    status: u16,
    issue: Option<IssueView>,
    owner: Seq<char>,
    repo: Seq<char>,
    number: Seq<char>,
)
    ensures
        rendered(ReplyView::Failed, owner, repo, number) == issue_link(owner, repo, number),
        rendered(ReplyView::Answered { status, issue }, owner, repo, number) == (if status_is_success(
            status,
        ) && issue is Some {
            card_html(issue->0, owner, repo)
        } else {
            issue_link(owner, repo, number)
        }),
{
}

/// Whether `value` can be the value of an HTTP header.
///
/// Calls `reqwest::header::HeaderValue::from_str` and reports whether it
/// accepted the text. That function goes through the bytes of the text and
/// rejects it if one of them is a control character other than the tab;
/// bytes above 127 pass.
#[verifier::external_body]
fn header_value_accepts(value: &str) -> (ok: bool)
    ensures
        ok == header_value_allowed(value@),
{
    HeaderValue::from_str(value).is_ok()
}

/// Whether the status code `status` reports success.
///
/// Calls `reqwest::StatusCode::from_u16` and, on the code that it made,
/// `StatusCode::is_success`. The first accepts the codes from 100 to 999,
/// the second holds of those from 200 to 299.
#[verifier::external_body]
fn status_code_is_success(status: u16) -> (ok: bool)
    ensures
        ok == status_is_success(status),
{
    match StatusCode::from_u16(status) {
        Ok(code) => code.is_success(),
        Err(_) => false,
    }
}

/// The plain link to the issue `number` of `owner`/`repo`.
pub fn fallback_link(owner: &str, repo: &str, number: &str) -> (link: String)
    ensures
        link@ == issue_link(owner@, repo@, number@),
{
    let mut link = String::new();
    link.append("https://github.com/");
    link.append(owner);
    link.append("/");
    link.append(repo);
    link.append("/issues/");
    link.append(number);
    assert(link@ =~= issue_link(owner@, repo@, number@));
    link
}

/// The request that asks for the issue `number` of `owner`/`repo` with the
/// credential `token`.
pub fn api_request(owner: &str, repo: &str, number: &str, token: &str) -> (request: ApiRequest)
    ensures
        request@ == request_for(owner@, repo@, number@, token@),
{
    let mut url = String::new();
    url.append("https://api.github.com/repos/");
    url.append(owner);
    url.append("/");
    url.append(repo);
    url.append("/issues/");
    url.append(number);
    assert(url@ =~= api_url(owner@, repo@, number@));
    let mut value = String::new();
    value.append("token ");
    value.append(token);
    assert(value@ =~= authorization_value(token@));
    let authorization = if header_value_accepts(value.as_str()) {
        Some(value)
    } else {
        None
    };
    ApiRequest { url, user_agent: String::from_str("mdbook-preprocessor"), authorization }
}

/// What takes the URL's place after `reply`.
pub fn render_reply(reply: ApiReply, owner: &str, repo: &str, number: &str) -> (html: String)
    ensures
        html@ == rendered(reply@, owner@, repo@, number@),
{
    match reply {
        ApiReply::Answered { status, issue: Some(issue) } => {
            if status_code_is_success(status) {
                format_issue(issue, owner, repo)
            } else {
                fallback_link(owner, repo, number)
            }
        },
        _ => fallback_link(owner, repo, number),
    }
}

/// The credential as a text, if there is one.
pub open spec fn token_view(token: Option<&str>) -> Option<Seq<char>> {
    match token {
        Some(t) => Some(t@),
        None => None,
    }
}

/// Whether `html` can be what a fetch of the issue `number` of `owner`/`repo`
/// returns: without a credential the plain link; with one, what is rendered
/// from a reply that `send` may give to the request of [`request_for`].
pub open spec fn fetched<F: Fn(ApiRequest) -> ApiReply>(
    send: &F,
    owner: Seq<char>,
    repo: Seq<char>,
    number: Seq<char>,
    token: Option<Seq<char>>,
    html: Seq<char>,
) -> bool {
    match token {
        None => html == issue_link(owner, repo, number),
        Some(t) => exists|request: ApiRequest, reply: ApiReply|
            request@ == request_for(owner, repo, number, t) && call_ensures(
                *send,
                (request,),
                reply,
            ) && html == rendered(reply@, owner, repo, number),
    }
}

/// Without a credential a fetch returns the plain link and nothing else,
/// whatever `send` would do.
pub proof fn lemma_fetched_without_credential<F: Fn(ApiRequest) -> ApiReply>(
    send: &F,
    owner: Seq<char>,
    repo: Seq<char>,
    number: Seq<char>,
    html: Seq<char>,
)
    ensures
        fetched(send, owner, repo, number, None, html) <==> html == issue_link(owner, repo, number),
{
}

/// Whatever a fetch returns is the plain link or the card of some issue.
pub proof fn lemma_fetched_is_link_or_card<F: Fn(ApiRequest) -> ApiReply>(
    send: &F,
    owner: Seq<char>,
    repo: Seq<char>,
    number: Seq<char>,
    token: Option<Seq<char>>,
    html: Seq<char>,
)
    requires
        fetched(send, owner, repo, number, token, html),
    ensures
        html == issue_link(owner, repo, number) || exists|issue: IssueView|
            html == card_html(issue, owner, repo),
{
    if let Some(t) = token {
        let (request, reply) = choose|request: ApiRequest, reply: ApiReply|
            request@ == request_for(owner, repo, number, t) && call_ensures(
                *send,
                (request,),
                reply,
            ) && html == rendered(reply@, owner, repo, number);
        if html != issue_link(owner, repo, number) {
            assert(reply@ is Answered);
            assert(html == card_html(reply@->issue->0, owner, repo));
        }
    }
}

/// Fetches the issue `number` of `owner`/`repo` and returns what takes the
/// place of its URL.
///
/// Without a credential nothing is sent and the plain link is returned. With
/// one, `send` is called once, with the request of [`request_for`], and its
/// reply is rendered. No failure reaches the caller.
pub fn fetch_github_issue<F: Fn(ApiRequest) -> ApiReply>(
    owner: &str,
    repo: &str,
    number: &str,
    token: Option<&str>,
    send: &F,
) -> (html: String)
    requires
        token matches Some(t) ==> forall|request: ApiRequest|
            request@ == request_for(owner@, repo@, number@, t@) ==> call_requires(*send, (request,)),
    ensures
        fetched(send, owner@, repo@, number@, token_view(token), html@),
        token is None ==> html@ == issue_link(owner@, repo@, number@),
{
    match token {
        None => fallback_link(owner, repo, number),
        Some(t) => {
            let request = api_request(owner, repo, number, t);
            let ghost sent = request;
            let reply = send(request);
            let ghost got = reply;
            let html = render_reply(reply, owner, repo, number);
            assert(call_ensures(*send, (sent,), got));
            html
        },
    }
}

} // verus!
