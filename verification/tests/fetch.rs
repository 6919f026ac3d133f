use gh_issue_preview::fetch::{
    api_request, fallback_link, fetch_github_issue, render_reply, ApiReply, ApiRequest,
};
use gh_issue_preview::issue::{format_issue, GitHubIssue, GitHubLabel};
use std::cell::RefCell;

fn sample_issue(state: &str, labels: Vec<GitHubLabel>) -> GitHubIssue {
    GitHubIssue {
        title: "Crash on start".to_string(),
        html_url: "https://github.com/octo/cat/issues/5".to_string(),
        number: 5,
        state: state.to_string(),
        labels,
    }
}

fn answered(status: u16, issue: Option<GitHubIssue>) -> ApiReply {
    ApiReply::Answered { status, issue }
}

#[test]
fn fallback_link_shape() {
    assert_eq!(fallback_link("octo", "cat", "5"), "https://github.com/octo/cat/issues/5");
    assert_eq!(fallback_link("a-b", "c_d", "0045"), "https://github.com/a-b/c_d/issues/0045");
    assert_eq!(fallback_link("", "", ""), "https://github.com///issues/");
}

#[test]
fn request_names_the_issue_and_the_sender() {
    let request = api_request("octo", "cat", "5", "s3cr3t");
    assert_eq!(request.url, "https://api.github.com/repos/octo/cat/issues/5");
    assert_eq!(request.user_agent, "mdbook-preprocessor");
    assert_eq!(request.authorization, Some("token s3cr3t".to_string()));
}

#[test]
fn request_keeps_the_number_as_written() {
    let request = api_request("o", "r", "007", "t");
    assert_eq!(request.url, "https://api.github.com/repos/o/r/issues/007");
}

#[test]
fn credential_that_no_header_can_hold_is_left_out() {
    for token in ["line\nbreak", "carriage\rreturn", "nul\0", "bell\u{7}", "del\u{7f}", "\u{1b}[0m"] {
        let request = api_request("o", "r", "1", token);
        assert_eq!(request.authorization, None);
        assert_eq!(request.url, "https://api.github.com/repos/o/r/issues/1");
        assert_eq!(request.user_agent, "mdbook-preprocessor");
    }
}

#[test]
fn credential_with_tab_or_bytes_above_ascii_is_kept() {
    for token in ["", "a b", "a\tb", "~!@#$%^&*()", "caf\u{e9}", "\u{20ac}\u{1f600}"] {
        let request = api_request("o", "r", "1", token);
        assert_eq!(request.authorization, Some(format!("token {}", token)));
    }
}

#[test]
fn successful_response_renders_the_card() {
    let html = render_reply(answered(200, Some(sample_issue("open", vec![]))), "octo", "cat", "5");
    assert_eq!(html, format_issue(sample_issue("open", vec![]), "octo", "cat"));
    assert!(html.starts_with("<a href=\"https://github.com/octo/cat/issues/5\""));
}

#[test]
fn every_status_from_200_to_299_is_a_success() {
    for status in [200u16, 201, 204, 226, 250, 299] {
        let html = render_reply(answered(status, Some(sample_issue("open", vec![]))), "o", "r", "5");
        assert_eq!(html, format_issue(sample_issue("open", vec![]), "o", "r"));
    }
}

#[test]
fn not_found_renders_the_plain_link() {
    let html = render_reply(answered(404, Some(sample_issue("open", vec![]))), "octo", "cat", "5");
    assert_eq!(html, "https://github.com/octo/cat/issues/5");
    let html = render_reply(answered(404, None), "octo", "cat", "5");
    assert_eq!(html, "https://github.com/octo/cat/issues/5");
}

#[test]
fn every_other_status_renders_the_plain_link() {
    for status in [0u16, 1, 99, 100, 101, 199, 300, 301, 304, 400, 401, 403, 429, 500, 503, 999, 1000, 65535] {
        let html = render_reply(answered(status, Some(sample_issue("open", vec![]))), "o", "r", "9");
        assert_eq!(html, "https://github.com/o/r/issues/9");
    }
}

#[test]
fn body_of_another_shape_renders_the_plain_link() {
    assert_eq!(render_reply(answered(200, None), "o", "r", "9"), "https://github.com/o/r/issues/9");
}

#[test]
fn failed_request_renders_the_plain_link() {
    assert_eq!(render_reply(ApiReply::Failed, "o", "r", "9"), "https://github.com/o/r/issues/9");
}

#[test]
fn without_credential_nothing_is_sent() {
    let calls = RefCell::new(0);
    let send = |_request: ApiRequest| {
        *calls.borrow_mut() += 1;
        answered(200, Some(sample_issue("open", vec![])))
    };
    let html = fetch_github_issue("octo", "cat", "5", None, &send);
    assert_eq!(html, "https://github.com/octo/cat/issues/5");
    assert_eq!(*calls.borrow(), 0);
}

#[test]
fn without_credential_the_link_keeps_the_number_as_written() {
    let send = |_request: ApiRequest| ApiReply::Failed;
    assert_eq!(
        fetch_github_issue("a-b", "c_d", "0045", None, &send),
        "https://github.com/a-b/c_d/issues/0045"
    );
}

#[test]
fn with_credential_one_request_is_sent() {
    let seen: RefCell<Vec<ApiRequest>> = RefCell::new(Vec::new());
    let send = |request: ApiRequest| {
        seen.borrow_mut().push(request);
        answered(200, Some(sample_issue("open", vec![])))
    };
    let html = fetch_github_issue("octo", "cat", "5", Some("s3cr3t"), &send);
    assert_eq!(html, format_issue(sample_issue("open", vec![]), "octo", "cat"));
    let seen = seen.into_inner();
    assert_eq!(seen.len(), 1);
    assert_eq!(seen[0], api_request("octo", "cat", "5", "s3cr3t"));
    assert_eq!(seen[0].url, "https://api.github.com/repos/octo/cat/issues/5");
    assert_eq!(seen[0].authorization, Some("token s3cr3t".to_string()));
}

#[test]
fn open_response_shows_the_open_marks() {
    let send = |_request: ApiRequest| answered(200, Some(sample_issue("open", vec![])));
    let html = fetch_github_issue("octo", "cat", "5", Some("t"), &send);
    assert!(html.contains("<span class=\"gh-status-open\">\u{2299}</span>"));
    assert!(!html.contains("gh-status-closed"));
    assert!(!html.contains('\u{2713}'));
}

#[test]
fn closed_response_shows_the_closed_marks() {
    let send = |_request: ApiRequest| answered(200, Some(sample_issue("closed", vec![])));
    let html = fetch_github_issue("octo", "cat", "5", Some("t"), &send);
    assert!(html.contains("<span class=\"gh-status-closed\">\u{2713}</span>"));
    assert!(!html.contains("gh-status-open"));
    assert!(!html.contains('\u{2299}'));
}

#[test]
fn response_without_labels_has_an_empty_container() {
    let send = |_request: ApiRequest| answered(200, Some(sample_issue("open", vec![])));
    let html = fetch_github_issue("octo", "cat", "5", Some("t"), &send);
    assert!(html.contains("<div class=\"gh-labels\"></div>"));
}

#[test]
fn response_with_labels_lists_them() {
    let send = |_request: ApiRequest| {
        answered(
            200,
            Some(sample_issue(
                "open",
                vec![GitHubLabel { name: "bug".to_string(), color: "d73a4a".to_string() }],
            )),
        )
    };
    let html = fetch_github_issue("octo", "cat", "5", Some("t"), &send);
    assert!(html.contains(
        "<div class=\"gh-labels\"><span class=\"gh-label\" \
         style=\"border-color:#d73a4a;color:#d73a4a\">bug</span></div>"
    ));
}

#[test]
fn not_found_response_falls_back_to_the_link() {
    let send = |_request: ApiRequest| answered(404, None);
    let html = fetch_github_issue("octo", "cat", "5", Some("t"), &send);
    assert_eq!(html, "https://github.com/octo/cat/issues/5");
}

#[test]
fn rate_limit_and_network_failure_fall_back_alike() {
    let forbidden = |_request: ApiRequest| answered(403, None);
    let too_many = |_request: ApiRequest| answered(429, Some(sample_issue("open", vec![])));
    let down = |_request: ApiRequest| ApiReply::Failed;
    let link = "https://github.com/octo/cat/issues/5";
    assert_eq!(fetch_github_issue("octo", "cat", "5", Some("t"), &forbidden), link);
    assert_eq!(fetch_github_issue("octo", "cat", "5", Some("t"), &too_many), link);
    assert_eq!(fetch_github_issue("octo", "cat", "5", Some("t"), &down), link);
}

#[test]
fn card_shows_the_number_of_the_record_not_of_the_url() {
    let send = |_request: ApiRequest| answered(200, Some(sample_issue("open", vec![])));
    let html = fetch_github_issue("octo", "cat", "0005", Some("t"), &send);
    assert!(html.ends_with("octo/cat <span style=\"opacity:0.5\">#5</span></div></a>"));
}

#[test]
fn unusable_credential_still_sends_the_request() {
    let seen: RefCell<Vec<ApiRequest>> = RefCell::new(Vec::new());
    let send = |request: ApiRequest| {
        seen.borrow_mut().push(request);
        answered(401, None)
    };
    let html = fetch_github_issue("octo", "cat", "5", Some("bad\ntoken"), &send);
    assert_eq!(html, "https://github.com/octo/cat/issues/5");
    let seen = seen.into_inner();
    assert_eq!(seen.len(), 1);
    assert_eq!(seen[0].authorization, None);
}
