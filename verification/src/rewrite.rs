//! Rewriting a text: every issue URL in it gives way to what was fetched for
//! it.

use crate::fetch::{fetch_github_issue, fetched, token_view, ApiReply, ApiRequest};
use crate::scan::{
    find_issue_urls, lemma_scanned_urls_placed, scanned, url_views, urls_placed, IssueUrl,
    IssueUrlView, ScanError,
};
use crate::text::{lemma_slice_whole, lemma_slices_join, slice, span_fits, text_slice};
use vstd::prelude::*;
use vstd::string::StringSliceAdditionalSpecFns;
use vstd::utf8::encode_utf8;

verus! {

/// The contents of a list of strings.
pub open spec fn string_views(strings: Seq<String>) -> Seq<Seq<char>> {
    Seq::new(strings.len(), |i: int| strings[i]@)
}

/// Where the text in front of the URL `i` begins: at the end of the URL before
/// it, or at the beginning of the text. For `i` the number of URLs, this is
/// where the text behind the last URL begins.
pub open spec fn gap_start(urls: Seq<IssueUrlView>, i: int) -> int {
    if i == 0 {
        0
    } else {
        urls[i - 1].end
    }
}

/// The rewritten text up to the end of what replaces the URL `n - 1`.
pub open spec fn spliced_prefix(
    text: Seq<char>,
    urls: Seq<IssueUrlView>,
    replacements: Seq<Seq<char>>,
    n: nat,
) -> Seq<char>
    decreases n,
{
    if n == 0 {
        Seq::empty()
    } else {
        spliced_prefix(text, urls, replacements, (n - 1) as nat) + text_slice(
            text,
            gap_start(urls, n - 1),
            urls[n - 1].start,
        ) + replacements[n - 1]
    }
}

/// The text in which each of `urls` has given way to the replacement of the
/// same index, and nothing else has changed.
pub open spec fn spliced(
    text: Seq<char>,
    urls: Seq<IssueUrlView>,
    replacements: Seq<Seq<char>>,
) -> Seq<char>
    recommends
        urls_placed(text, urls),
        replacements.len() == urls.len(),
{
    spliced_prefix(text, urls, replacements, urls.len()) + text_slice(
        text,
        gap_start(urls, urls.len() as int),
        encode_utf8(text).len() as int,
    )
}

/// A text without issue URLs is left as it is.
pub proof fn lemma_nothing_to_splice(text: Seq<char>)
    ensures
        spliced(text, Seq::empty(), Seq::empty()) == text,
{
    lemma_slice_whole(text);
    assert(spliced(text, Seq::empty(), Seq::empty()) =~= text);
}

/// The rewritten text up to the end of a replacement is the beginning of the
/// rewritten text up to the end of any later one.
proof fn lemma_prefix_extends(
    text: Seq<char>,
    urls: Seq<IssueUrlView>,
    replacements: Seq<Seq<char>>,
    n: nat,
    m: nat,
)
    requires
        n <= m,
    ensures
        spliced_prefix(text, urls, replacements, n).is_prefix_of(
            spliced_prefix(text, urls, replacements, m),
        ),
    decreases m,
{
    let upto_n = spliced_prefix(text, urls, replacements, n);
    let upto_m = spliced_prefix(text, urls, replacements, m);
    if n == m {
        assert(upto_m.subrange(0, upto_n.len() as int) =~= upto_n);
    } else {
        lemma_prefix_extends(text, urls, replacements, n, (m - 1) as nat);
        let before = spliced_prefix(text, urls, replacements, (m - 1) as nat);
        assert(upto_m.subrange(0, upto_n.len() as int) =~= before.subrange(0, upto_n.len() as int));
    }
}

/// Each replacement stands in the rewritten text where its URL stood: the
/// rewritten text begins with what the text before the URL was rewritten to,
/// and goes on with the replacement.
pub proof fn lemma_replacement_in_place(
    text: Seq<char>,
    urls: Seq<IssueUrlView>,
    replacements: Seq<Seq<char>>,
    i: int,
)
    requires
        0 <= i < urls.len(),
    ensures
        (spliced_prefix(text, urls, replacements, i as nat) + text_slice(
            text,
            gap_start(urls, i),
            urls[i].start,
        ) + replacements[i]).is_prefix_of(spliced(text, urls, replacements)),
{
    let upto = spliced_prefix(text, urls, replacements, (i + 1) as nat);
    let all = spliced_prefix(text, urls, replacements, urls.len());
    let whole = spliced(text, urls, replacements);
    lemma_prefix_extends(text, urls, replacements, (i + 1) as nat, urls.len());
    assert(whole.subrange(0, upto.len() as int) =~= all.subrange(0, upto.len() as int));
}

/// Where every URL gives way to its own text, the rewritten text up to the
/// end of a URL is the text up to there.
proof fn lemma_splice_own_text_prefix(
    text: Seq<char>,
    urls: Seq<IssueUrlView>,
    replacements: Seq<Seq<char>>,
    n: nat,
)
    requires
        urls_placed(text, urls),
        replacements.len() == urls.len(),
        forall|i: int|
            0 <= i < urls.len() ==> #[trigger] replacements[i] == text_slice(
                text,
                urls[i].start,
                urls[i].end,
            ),
        n <= urls.len(),
    ensures
        span_fits(text, 0, gap_start(urls, n as int)),
        spliced_prefix(text, urls, replacements, n) == text_slice(text, 0, gap_start(urls, n as int)),
    decreases n,
{
    if n == 0 {
        lemma_slice_whole(text);
        vstd::utf8::encode_utf8_decode_utf8(Seq::<char>::empty());
        assert(encode_utf8(text).subrange(0, 0) =~= encode_utf8(Seq::<char>::empty()));
    } else {
        let k = (n - 1) as int;
        lemma_splice_own_text_prefix(text, urls, replacements, (n - 1) as nat);
        lemma_gap_fits(text, urls, k);
        assert(span_fits(text, urls[k].start, urls[k].end));
        assert(replacements[k] == text_slice(text, urls[k].start, urls[k].end));
        lemma_slices_join(text, 0, gap_start(urls, k), urls[k].start);
        lemma_slices_join(text, 0, urls[k].start, urls[k].end);
    }
}

/// Where every URL gives way to its own text, as it does when an `https` URL
/// is answered by the plain link, rewriting leaves the text as it is.
pub proof fn lemma_splice_own_text(
    text: Seq<char>,
    urls: Seq<IssueUrlView>,
    replacements: Seq<Seq<char>>,
)
    requires
        urls_placed(text, urls),
        replacements.len() == urls.len(),
        forall|i: int|
            0 <= i < urls.len() ==> #[trigger] replacements[i] == text_slice(
                text,
                urls[i].start,
                urls[i].end,
            ),
    ensures
        spliced(text, urls, replacements) == text,
{
    lemma_splice_own_text_prefix(text, urls, replacements, urls.len());
    lemma_gap_fits(text, urls, urls.len() as int);
    lemma_slices_join(text, 0, gap_start(urls, urls.len() as int), encode_utf8(text).len() as int);
    lemma_slice_whole(text);
}

/// Whether the ranges of `urls` lie in `text` one after the other, each
/// between two characters at both ends.
pub fn urls_are_placed(text: &str, urls: &Vec<IssueUrl>) -> (placed: bool)
    ensures
        placed == urls_placed(text@, url_views(urls@)),
{
    let ghost views = url_views(urls@);
    let mut last: usize = 0;
    let mut i: usize = 0;
    while i < urls.len()
        invariant
            i <= urls.len(),
            views == url_views(urls@),
            urls_placed(text@, views.take(i as int)),
            last == gap_start(views, i as int),
        decreases urls.len() - i,
    {
        let url = &urls[i];
        assert(views[i as int] == url@);
        if slice(text, url.start, url.end).is_none() {
            return false;
        }
        if url.start < last {
            assert(!(views[i - 1].end <= views[i as int].start));
            return false;
        }
        proof {
            let next = views.take(i as int + 1);
            let prev = views.take(i as int);
            assert forall|k: int| 0 <= k < next.len() implies span_fits(
                text@,
                (#[trigger] next[k]).start,
                next[k].end,
            ) by {
                if k < i {
                    assert(next[k] == prev[k]);
                }
            }
            assert forall|k: int| 0 < k < next.len() implies (#[trigger] next[k - 1]).end
                <= (#[trigger] next[k]).start by {
                if k < i {
                    assert(next[k] == prev[k]);
                    assert(next[k - 1] == prev[k - 1]);
                }
            }
        }
        last = url.end;
        i += 1;
    }
    assert(views.take(i as int) =~= views);
    true
}

/// The end of every URL is a position at which the text behind it can be cut
/// off.
proof fn lemma_gap_fits(text: Seq<char>, urls: Seq<IssueUrlView>, i: int)
    requires
        urls_placed(text, urls),
        0 <= i <= urls.len(),
    ensures
        span_fits(text, gap_start(urls, i), encode_utf8(text).len() as int),
        i < urls.len() ==> span_fits(text, gap_start(urls, i), urls[i].start),
{
    lemma_slice_whole(text);
    if i > 0 {
        assert(span_fits(text, urls[i - 1].start, urls[i - 1].end));
    }
    if i < urls.len() {
        assert(span_fits(text, urls[i].start, urls[i].end));
    }
}

/// Puts `replacements` in the place of `urls` in `text`.
///
/// The result is `None` unless there is one replacement for each URL and the
/// ranges of the URLs lie in the text one after the other.
pub fn splice(text: &str, urls: &Vec<IssueUrl>, replacements: &Vec<String>) -> (rewritten: Option<
    String,
>)
    ensures
        rewritten is Some <==> urls_placed(text@, url_views(urls@)) && replacements.len()
            == urls.len(),
        rewritten matches Some(new_text) ==> new_text@ == spliced(
            text@,
            url_views(urls@),
            string_views(replacements@),
        ),
{
    if replacements.len() != urls.len() || !urls_are_placed(text, urls) {
        return None;
    }
    let ghost views = url_views(urls@);
    let ghost inserts = string_views(replacements@);
    let mut out = String::new();
    let mut last: usize = 0;
    let mut i: usize = 0;
    while i < urls.len()
        invariant
            i <= urls.len(),
            replacements.len() == urls.len(),
            views == url_views(urls@),
            inserts == string_views(replacements@),
            urls_placed(text@, views),
            last == gap_start(views, i as int),
            out@ == spliced_prefix(text@, views, inserts, i as nat),
        decreases urls.len() - i,
    {
        let url = &urls[i];
        proof {
            assert(views[i as int] == url@);
            assert(inserts[i as int] == replacements@[i as int]@);
            lemma_gap_fits(text@, views, i as int);
        }
        let gap = slice(text, last, url.start).unwrap();
        out.append(gap);
        out.append(replacements[i].as_str());
        last = url.end;
        i += 1;
    }
    proof {
        lemma_gap_fits(text@, views, i as int);
    }
    let rest = slice(text, last, text.as_bytes().len()).unwrap();
    out.append(rest);
    Some(out)
}

/// Whether each of `replacements` can be what a fetch returns for the URL of
/// the same index.
pub open spec fn all_fetched<F: Fn(ApiRequest) -> ApiReply>(
    send: &F,
    urls: Seq<IssueUrlView>,
    token: Option<Seq<char>>,
    replacements: Seq<Seq<char>>,
) -> bool {
    &&& replacements.len() == urls.len()
    &&& forall|i: int|
        0 <= i < urls.len() ==> fetched(
            send,
            urls[i].owner,
            urls[i].repo,
            urls[i].number,
            token,
            #[trigger] replacements[i],
        )
}

/// Whether `new_text` can be what rewriting `text` gives: each issue URL of
/// `text` has given way to what a fetch may return for it, and nothing else
/// has changed.
pub open spec fn content_rewritten<F: Fn(ApiRequest) -> ApiReply>(
    send: &F,
    token: Option<Seq<char>>,
    text: Seq<char>,
    new_text: Seq<char>,
) -> bool {
    scanned(text) matches Ok(urls) && exists|replacements: Seq<Seq<char>>|
        all_fetched(send, urls, token, replacements) && new_text == spliced(
            text,
            urls,
            replacements,
        )
}

/// A text in which the search finds no issue URL is rewritten to itself.
pub proof fn lemma_without_urls_unchanged<F: Fn(ApiRequest) -> ApiReply>(
    send: &F,
    token: Option<Seq<char>>,
    text: Seq<char>,
    new_text: Seq<char>,
)
    ensures
        content_rewritten(send, token, text, new_text) && scanned(text) == Ok::<
            Seq<IssueUrlView>,
            ScanError,
        >(Seq::empty()) ==> new_text == text,
{
    if content_rewritten(send, token, text, new_text) && scanned(text) == Ok::<
        Seq<IssueUrlView>,
        ScanError,
    >(Seq::empty()) {
        let replacements = choose|replacements: Seq<Seq<char>>|
            all_fetched(send, Seq::<IssueUrlView>::empty(), token, replacements) && new_text
                == spliced(text, Seq::<IssueUrlView>::empty(), replacements);
        assert(replacements =~= Seq::<Seq<char>>::empty());
        lemma_nothing_to_splice(text);
    }
}

/// Rewrites `text`: each issue URL in it is fetched, from left to right, and
/// gives way to what the fetch returned.
///
/// The text fails to be rewritten only where it cannot be searched; nothing
/// is fetched then.
pub fn rewrite_content<F: Fn(ApiRequest) -> ApiReply>(
    text: &str,
    token: Option<&str>,
    send: &F,
) -> (result: Result<String, ScanError>)
    requires
        token is Some ==> forall|request: ApiRequest| call_requires(*send, (request,)),
    ensures
        match scanned(text@) {
            Ok(urls) => result matches Ok(new_text) && content_rewritten(
                send,
                token_view(token),
                text@,
                new_text@,
            ) && (urls.len() == 0 ==> new_text@ == text@),
            Err(e) => result matches Err(reason) && reason == e,
        },
{
    let urls = match find_issue_urls(text) {
        Ok(urls) => urls,
        Err(e) => {
            return Err(e);
        },
    };
    let ghost views = url_views(urls@);
    let mut replacements: Vec<String> = Vec::new();
    let mut i: usize = 0;
    while i < urls.len()
        invariant
            i <= urls.len(),
            views == url_views(urls@),
            token is Some ==> forall|request: ApiRequest| call_requires(*send, (request,)),
            all_fetched(send, views.take(i as int), token_view(token), string_views(replacements@)),
        decreases urls.len() - i,
    {
        let url = &urls[i];
        let html = fetch_github_issue(
            url.owner.as_str(),
            url.repo.as_str(),
            url.number.as_str(),
            token,
            send,
        );
        let ghost before = string_views(replacements@);
        replacements.push(html);
        proof {
            let now = string_views(replacements@);
            let next = views.take(i as int + 1);
            assert(views[i as int] == url@);
            assert forall|k: int| 0 <= k < next.len() implies fetched(
                send,
                next[k].owner,
                next[k].repo,
                next[k].number,
                token_view(token),
                #[trigger] now[k],
            ) by {
                if k < i {
                    assert(now[k] == before[k]);
                    assert(next[k] == views.take(i as int)[k]);
                }
            }
        }
        i += 1;
    }
    proof {
        assert(views.take(i as int) =~= views);
        lemma_scanned_urls_placed(text@);
        if views.len() == 0 {
            lemma_nothing_to_splice(text@);
            assert(views =~= Seq::<IssueUrlView>::empty());
            assert(string_views(replacements@) =~= Seq::<Seq<char>>::empty());
        }
    }
    let new_text = splice(text, &urls, &replacements).unwrap();
    Ok(new_text)
}

} // verus!
