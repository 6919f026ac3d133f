//! Finding GitHub issue URLs in a text.
//!
//! The search itself is the `regex` crate's. What it reports is checked against
//! the text before anything is cut out of it.

use crate::text::{slice, span_fits, text_slice};
use regex::Regex;
use vstd::prelude::*;

verus! {

/// The groups of one match: for each group of the pattern, in the pattern's
/// order and starting with the match as a whole, the range of bytes that it
/// matched, if it took part in the match.
pub type Groups = Seq<Option<(usize, usize)>>;

/// What `regex` finds for a pattern in a text: `None` where it does not accept
/// the pattern, else the groups of each match, one match after the other from
/// left to right, none overlapping another.
pub uninterp spec fn regex_capture_spans(pattern: Seq<char>, haystack: Seq<char>) -> Option<
    Seq<Groups>,
>;

/// Searches `haystack` for `pattern`.
///
/// Compiles the pattern with `regex::Regex::new` and walks the matches that
/// `Regex::captures_iter` yields. Each match is handed out as the byte ranges
/// (`Match::start`, `Match::end`) of its groups, as `Captures::get` gives
/// them for the indices below `Captures::len`. The result is `None` where
/// `Regex::new` returns an error.
#[verifier::external_body]
fn regex_captures(pattern: &str, haystack: &str) -> (found: Option<Vec<Vec<Option<(usize, usize)>>>>)
    ensures
        found.deep_view() == regex_capture_spans(pattern@, haystack@),
{
    let regex = Regex::new(pattern).ok()?;
    let found = regex.captures_iter(haystack).map(
        |captures| (0..captures.len()).map(
            |i| captures.get(i).map(|group| (group.start(), group.end())),
        ).collect(),
    ).collect();
    Some(found)
}

/// The pattern of an issue URL: `http` or `https`, the host `github.com`, an
/// owner and a repository made of word characters and hyphens, `issues`, and
/// a number made of digits. Owner, repository and number are its three
/// groups.
pub open spec fn issue_url_pattern() -> Seq<char> {
    "https?://github\\.com/([\\w-]+)/([\\w-]+)/issues/(\\d+)"@
}

/// Why a text could not be searched.
#[derive(Debug, Clone, Copy, PartialEq, Eq, Structural)]
pub enum ScanError {
    /// The pattern of an issue URL was not accepted.
    PatternRejected,
    /// A match was reported that lacks one of the three groups, or whose
    /// ranges do not lie in the text as those of a match do.
    MalformedMatch,
}

/// An issue URL found in a text: where it stands, and what it names. The
/// three parts are taken as they are written in the text.
#[derive(Debug, PartialEq, Eq)]
pub struct IssueUrl {
    /// The first byte of the URL in the text.
    pub start: usize,
    /// The byte after the last one of the URL.
    pub end: usize,
    pub owner: String,
    pub repo: String,
    pub number: String,
}

/// The mathematical content of an [`IssueUrl`].
pub struct IssueUrlView {
    pub start: int,
    pub end: int,
    pub owner: Seq<char>,
    pub repo: Seq<char>,
    pub number: Seq<char>,
}

impl View for IssueUrl {
    type V = IssueUrlView;

    open spec fn view(&self) -> IssueUrlView {
        IssueUrlView {
            start: self.start as int,
            end: self.end as int,
            owner: self.owner@,
            repo: self.repo@,
            number: self.number@,
        }
    }
}

/// The contents of a list of issue URLs.
pub open spec fn url_views(urls: Seq<IssueUrl>) -> Seq<IssueUrlView> {
    Seq::new(urls.len(), |i: int| urls[i]@)
}

/// The first byte of a group, 0 where the group took no part in its match.
pub open spec fn group_start(group: Option<(usize, usize)>) -> int {
    match group {
        Some(span) => span.0 as int,
        None => 0,
    }
}

/// The byte after the last one of a group, 0 where the group took no part in
/// its match.
pub open spec fn group_end(group: Option<(usize, usize)>) -> int {
    match group {
        Some(span) => span.1 as int,
        None => 0,
    }
}

/// Whether a group took part in its match and lies in `text`.
pub open spec fn group_fits(text: Seq<char>, group: Option<(usize, usize)>) -> bool {
    group is Some && span_fits(text, group_start(group), group_end(group))
}

/// The part of `text` that a group matched.
pub open spec fn group_text(text: Seq<char>, group: Option<(usize, usize)>) -> Seq<char>
    recommends
        group_fits(text, group),
{
    text_slice(text, group_start(group), group_end(group))
}

/// Whether a match has the whole and the three groups of an issue URL, each
/// lying in `text`.
pub open spec fn match_fits(text: Seq<char>, groups: Groups) -> bool {
    &&& groups.len() >= 4
    &&& group_fits(text, groups[0])
    &&& group_fits(text, groups[1])
    &&& group_fits(text, groups[2])
    &&& group_fits(text, groups[3])
}

/// Whether every match is one of an issue URL in `text` and begins where the
/// match before it has ended, or later.
pub open spec fn matches_fit(text: Seq<char>, found: Seq<Groups>) -> bool {
    &&& forall|i: int| 0 <= i < found.len() ==> match_fits(text, #[trigger] found[i])
    &&& forall|i: int|
        0 < i < found.len() ==> group_end((#[trigger] found[i - 1])[0]) <= group_start(
            (#[trigger] found[i])[0],
        )
}

/// The issue URL that a match stands for.
pub open spec fn issue_url_of(text: Seq<char>, groups: Groups) -> IssueUrlView
    recommends
        match_fits(text, groups),
{
    IssueUrlView {
        start: group_start(groups[0]),
        end: group_end(groups[0]),
        owner: group_text(text, groups[1]),
        repo: group_text(text, groups[2]),
        number: group_text(text, groups[3]),
    }
}

/// The issue URLs that a list of matches stands for.
pub open spec fn issue_urls_of(text: Seq<char>, found: Seq<Groups>) -> Seq<IssueUrlView>
    recommends
        matches_fit(text, found),
{
    Seq::new(found.len(), |i: int| issue_url_of(text, found[i]))
}

/// The issue URLs of `text`, or why they cannot be had.
pub open spec fn scanned(text: Seq<char>) -> Result<Seq<IssueUrlView>, ScanError> {
    match regex_capture_spans(issue_url_pattern(), text) {
        None => Err(ScanError::PatternRejected),
        Some(found) => if matches_fit(text, found) {
            Ok(issue_urls_of(text, found))
        } else {
            Err(ScanError::MalformedMatch)
        },
    }
}

/// Whether the ranges of `urls` lie in `text` one after the other, each
/// between two characters at both ends.
pub open spec fn urls_placed(text: Seq<char>, urls: Seq<IssueUrlView>) -> bool {
    &&& forall|i: int| 0 <= i < urls.len() ==> span_fits(text, (#[trigger] urls[i]).start, urls[i].end)
    &&& forall|i: int| 0 < i < urls.len() ==> (#[trigger] urls[i - 1]).end <= (#[trigger] urls[i]).start
}

/// The issue URLs that matches in `text` stand for lie in it one after the
/// other.
pub proof fn lemma_urls_of_matches_placed(text: Seq<char>, found: Seq<Groups>)
    requires
        matches_fit(text, found),
    ensures
        urls_placed(text, issue_urls_of(text, found)),
{
    let urls = issue_urls_of(text, found);
    assert forall|i: int| 0 <= i < urls.len() implies span_fits(
        text,
        (#[trigger] urls[i]).start,
        urls[i].end,
    ) by {
        assert(match_fits(text, found[i]));
    }
    assert forall|i: int| 0 < i < urls.len() implies (#[trigger] urls[i - 1]).end
        <= (#[trigger] urls[i]).start by {
        assert(group_end(found[i - 1][0]) <= group_start(found[i][0]));
    }
}

/// The issue URLs of a text that was searched lie in it one after the other.
pub proof fn lemma_scanned_urls_placed(text: Seq<char>)
    ensures
        scanned(text) matches Ok(urls) ==> urls_placed(text, urls),
{
    if let Some(found) = regex_capture_spans(issue_url_pattern(), text) {
        if matches_fit(text, found) {
            lemma_urls_of_matches_placed(text, found);
        }
    }
}

/// The part of `text` that a group matched, if the group took part in its
/// match and lies in the text.
fn read_group<'a>(text: &'a str, group: &Option<(usize, usize)>) -> (part: Option<&'a str>)
    ensures
        part is Some <==> group_fits(text@, *group),
        part matches Some(p) ==> p@ == group_text(text@, *group),
{
    match group {
        Some(span) => slice(text, span.0, span.1),
        None => None,
    }
}

/// The issue URL that one match stands for, if the match has the groups of
/// one and they lie in `text`.
fn read_match(text: &str, groups: &Vec<Option<(usize, usize)>>) -> (url: Option<IssueUrl>)
    ensures
        url is Some <==> match_fits(text@, groups.deep_view()),
        url matches Some(u) ==> u@ == issue_url_of(text@, groups.deep_view()),
{
    proof {
        lemma_groups_view(groups);
    }
    if groups.len() < 4 {
        return None;
    }
    let whole = match &groups[0] {
        Some(span) => *span,
        None => {
            return None;
        },
    };
    if slice(text, whole.0, whole.1).is_none() {
        return None;
    }
    let owner = match read_group(text, &groups[1]) {
        Some(part) => String::from_str(part),
        None => {
            return None;
        },
    };
    let repo = match read_group(text, &groups[2]) {
        Some(part) => String::from_str(part),
        None => {
            return None;
        },
    };
    let number = match read_group(text, &groups[3]) {
        Some(part) => String::from_str(part),
        None => {
            return None;
        },
    };
    Some(IssueUrl { start: whole.0, end: whole.1, owner, repo, number })
}

/// The contents of a list of groups are the groups themselves.
proof fn lemma_groups_view(groups: &Vec<Option<(usize, usize)>>)
    ensures
        groups.deep_view() == groups@,
{
    assert(groups.deep_view() =~= groups@) by {
        assert forall|i: int| 0 <= i < groups@.len() implies groups.deep_view()[i] == groups@[i] by {
            assert(groups.deep_view()[i] == groups@[i].deep_view());
        }
    }
}

/// The issue URLs that a list of matches in `text` stands for.
///
/// The result is `None` unless every match has the whole and the three groups
/// of an issue URL, all lying in the text, and the matches follow one another
/// without overlap.
pub fn read_matches(text: &str, found: &Vec<Vec<Option<(usize, usize)>>>) -> (urls: Option<
    Vec<IssueUrl>,
>)
    ensures
        urls is Some <==> matches_fit(text@, found.deep_view()),
        urls matches Some(list) ==> url_views(list@) == issue_urls_of(text@, found.deep_view()),
{
    let ghost all = found.deep_view();
    let mut urls: Vec<IssueUrl> = Vec::new();
    let mut last: usize = 0;
    let mut i: usize = 0;
    while i < found.len()
        invariant
            i <= found.len(),
            all == found.deep_view(),
            all.len() == found.len(),
            urls.len() == i,
            matches_fit(text@, all.take(i as int)),
            url_views(urls@) == issue_urls_of(text@, all.take(i as int)),
            i > 0 ==> last == group_end(all[i - 1][0]),
        decreases found.len() - i,
    {
        assert(all[i as int] == found@[i as int].deep_view());
        let url = match read_match(text, &found[i]) {
            Some(url) => url,
            None => {
                return None;
            },
        };
        if i > 0 && url.start < last {
            assert(!(group_end(all[i - 1][0]) <= group_start(all[i as int][0])));
            return None;
        }
        last = url.end;
        let ghost before = urls@;
        urls.push(url);
        proof {
            let next = all.take(i as int + 1);
            let prev = all.take(i as int);
            assert forall|k: int| 0 <= k < next.len() implies match_fits(text@, #[trigger] next[k]) by {
                if k < i {
                    assert(next[k] == prev[k]);
                }
            }
            assert forall|k: int| 0 < k < next.len() implies group_end((#[trigger] next[k - 1])[0])
                <= group_start((#[trigger] next[k])[0]) by {
                if k < i {
                    assert(next[k] == prev[k]);
                    assert(next[k - 1] == prev[k - 1]);
                }
            }
            assert(url_views(urls@) =~= issue_urls_of(text@, next)) by {
                assert forall|k: int| 0 <= k < urls@.len() implies url_views(urls@)[k]
                    == issue_urls_of(text@, next)[k] by {
                    if k < i {
                        assert(urls@[k] == before[k]);
                        assert(url_views(before)[k] == issue_urls_of(text@, prev)[k]);
                    }
                }
            }
        }
        i += 1;
    }
    assert(all.take(i as int) =~= all);
    Some(urls)
}

/// The issue URLs of `text`, from left to right.
pub fn find_issue_urls(text: &str) -> (urls: Result<Vec<IssueUrl>, ScanError>)
    ensures
        match scanned(text@) {
            Ok(views) => urls matches Ok(list) && url_views(list@) == views,
            Err(e) => urls matches Err(reason) && reason == e,
        },
{
    let found = match regex_captures(
        "https?://github\\.com/([\\w-]+)/([\\w-]+)/issues/(\\d+)",
        text,
    ) {
        Some(found) => found,
        None => {
            return Err(ScanError::PatternRejected);
        },
    };
    match read_matches(text, &found) {
        Some(urls) => Ok(urls),
        None => Err(ScanError::MalformedMatch),
    }
}

} // verus!
