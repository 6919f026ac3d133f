//! The issue record that the GitHub REST API returns, and the HTML card that
//! is drawn from it.

use crate::text::{decimal, push_decimal, str_eq};
use vstd::prelude::*;

verus! {

/// A label attached to an issue.
#[derive(Debug, PartialEq, Eq)]
pub struct GitHubLabel {
    pub name: String,
    /// Six hexadecimal digits, as the API sends them; not validated.
    pub color: String,
}

/// An issue as the API describes it.
#[derive(Debug, PartialEq, Eq)]
pub struct GitHubIssue {
    pub title: String,
    pub html_url: String,
    pub number: u32,
    pub state: String,
    pub labels: Vec<GitHubLabel>,
}

/// The mathematical content of a [`GitHubLabel`].
pub struct LabelView {
    pub name: Seq<char>,
    pub color: Seq<char>,
}

/// The mathematical content of a [`GitHubIssue`].
pub struct IssueView {
    pub title: Seq<char>,
    pub html_url: Seq<char>,
    pub number: nat,
    pub state: Seq<char>,
    pub labels: Seq<LabelView>,
}

impl View for GitHubLabel {
    type V = LabelView;

    open spec fn view(&self) -> LabelView {
        LabelView { name: self.name@, color: self.color@ }
    }
}

impl View for GitHubIssue {
    type V = IssueView;

    open spec fn view(&self) -> IssueView {
        IssueView {
            title: self.title@,
            html_url: self.html_url@,
            number: self.number as nat,
            state: self.state@,
            labels: Seq::new(self.labels@.len(), |i: int| self.labels@[i]@),
        }
    }
}

/// Whether a state string denotes an open issue. Every other state is drawn
/// as closed.
pub open spec fn is_open(state: Seq<char>) -> bool {
    state == "open"@
}

/// The glyph shown in front of the title.
pub open spec fn status_icon(state: Seq<char>) -> Seq<char> {
    if is_open(state) {
        "\u{2299}"@
    } else {
        "\u{2713}"@
    }
}

/// The CSS class of the element that holds the glyph.
pub open spec fn status_class(state: Seq<char>) -> Seq<char> {
    if is_open(state) {
        "gh-status-open"@
    } else {
        "gh-status-closed"@
    }
}

/// The inline element drawn for one label: its color is both border and text
/// color, its name is the text. Nothing is escaped.
pub open spec fn label_html(label: LabelView) -> Seq<char> {
    "<span class=\"gh-label\" style=\"border-color:#"@ + label.color + ";color:#"@ + label.color
        + "\">"@ + label.name + "</span>"@
}

/// The elements of all labels, in the order of the labels.
pub open spec fn labels_html(labels: Seq<LabelView>) -> Seq<char>
    decreases labels.len(),
{
    if labels.len() == 0 {
        Seq::empty()
    } else {
        labels_html(labels.drop_last()) + label_html(labels.last())
    }
}

/// The card up to the labels: the opening of the link to the issue, the
/// header with the status glyph and the title, and the opening of the element
/// that holds the labels.
pub open spec fn card_head(issue: IssueView) -> Seq<char> {
    "<a href=\""@ + issue.html_url
        + "\" target=\"_blank\" class=\"gh-issue-card\"><div class=\"gh-header\"><span class=\""@
        + status_class(issue.state) + "\">"@ + status_icon(issue.state)
        + "</span><span class=\"gh-title-text\">"@ + issue.title
        + "</span></div><div class=\"gh-labels\">"@
}

/// The card behind the labels: the end of the element that holds them, the
/// line that names the repository and, set back, the issue number, and the
/// end of the link.
pub open spec fn card_tail(number: nat, owner: Seq<char>, repo: Seq<char>) -> Seq<char> {
    "</div><div class=\"gh-meta\">"@ + owner + "/"@ + repo + " <span style=\"opacity:0.5\">#"@
        + decimal(number) + "</span></div></a>"@
}

/// The card of an issue: a link to the issue that opens in a new tab and
/// holds a header (status glyph and title), the labels, and a line that names
/// the repository and the issue number. Title, label names, owner and
/// repository are inserted as they are.
pub open spec fn card_html(issue: IssueView, owner: Seq<char>, repo: Seq<char>) -> Seq<char> {
    card_head(issue) + labels_html(issue.labels) + card_tail(issue.number, owner, repo)
}

/// An open issue is drawn with the open glyph and class, every other issue
/// with the closed ones, and the two pairs have nothing in common.
pub proof fn lemma_status_marks(state: Seq<char>)
    ensures
        state == "open"@ ==> status_class(state) == "gh-status-open"@ && status_icon(state)
            == "\u{2299}"@,
        state != "open"@ ==> status_class(state) == "gh-status-closed"@ && status_icon(state)
            == "\u{2713}"@,
        "gh-status-open"@ != "gh-status-closed"@,
        "\u{2299}"@ != "\u{2713}"@,
{
    reveal_strlit("gh-status-open");
    reveal_strlit("gh-status-closed");
    reveal_strlit("\u{2299}");
    reveal_strlit("\u{2713}");
    assert("gh-status-open"@.len() != "gh-status-closed"@.len());
    assert("\u{2299}"@[0] != "\u{2713}"@[0]);
}

/// The card of an issue without labels holds the element for the labels, with
/// nothing in it.
pub proof fn lemma_no_labels(issue: IssueView, owner: Seq<char>, repo: Seq<char>)
    requires
        issue.labels.len() == 0,
    ensures
        labels_html(issue.labels) == Seq::<char>::empty(),
        card_html(issue, owner, repo) == card_head(issue) + card_tail(issue.number, owner, repo),
{
    assert(card_html(issue, owner, repo) =~= card_head(issue) + card_tail(
        issue.number,
        owner,
        repo,
    ));
}

/// Appends the element of one label to `out`.
fn push_label(out: &mut String, label: &GitHubLabel)
    ensures
        final(out)@ == old(out)@ + label_html(label@),
{
    out.append("<span class=\"gh-label\" style=\"border-color:#");
    out.append(label.color.as_str());
    out.append(";color:#");
    out.append(label.color.as_str());
    out.append("\">");
    out.append(label.name.as_str());
    out.append("</span>");
    assert(out@ =~= old(out)@ + label_html(label@));
}

/// Appends the elements of all labels to `out`.
fn push_labels(out: &mut String, issue: &GitHubIssue)
    ensures
        final(out)@ == old(out)@ + labels_html(issue@.labels),
{
    let ghost labels = issue@.labels;
    let mut i: usize = 0;
    assert(labels.take(0) =~= Seq::<LabelView>::empty());
    assert(out@ =~= old(out)@ + labels_html(labels.take(0)));
    while i < issue.labels.len()
        invariant
            i <= issue.labels.len(),
            labels == issue@.labels,
            labels.len() == issue.labels.len(),
            out@ == old(out)@ + labels_html(labels.take(i as int)),
        decreases issue.labels.len() - i,
    {
        let ghost before = out@;
        push_label(out, &issue.labels[i]);
        proof {
            let next = labels.take(i as int + 1);
            assert(next.drop_last() =~= labels.take(i as int));
            assert(next.last() == issue.labels@[i as int]@);
            assert(out@ =~= old(out)@ + labels_html(next));
        }
        i += 1;
    }
    assert(labels.take(i as int) =~= labels);
}

/// Draws the card of `issue`, which belongs to the repository `owner`/`repo`.
pub fn format_issue(issue: GitHubIssue, owner: &str, repo: &str) -> (html: String)
    ensures
        html@ == card_html(issue@, owner@, repo@),
{
    let open = str_eq(issue.state.as_str(), "open");
    let icon = if open {
        "\u{2299}"
    } else {
        "\u{2713}"
    };
    let class = if open {
        "gh-status-open"
    } else {
        "gh-status-closed"
    };
    let mut html = String::new();
    html.append("<a href=\"");
    html.append(issue.html_url.as_str());
    html.append(
        "\" target=\"_blank\" class=\"gh-issue-card\"><div class=\"gh-header\"><span class=\"",
    );
    html.append(class);
    html.append("\">");
    html.append(icon);
    html.append("</span><span class=\"gh-title-text\">");
    html.append(issue.title.as_str());
    html.append("</span></div><div class=\"gh-labels\">");
    push_labels(&mut html, &issue);
    html.append("</div><div class=\"gh-meta\">");
    html.append(owner);
    html.append("/");
    html.append(repo);
    html.append(" <span style=\"opacity:0.5\">#");
    push_decimal(&mut html, issue.number);
    html.append("</span></div></a>");
    assert(html@ =~= card_html(issue@, owner@, repo@));
    html
}

} // verus!
