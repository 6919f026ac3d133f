//! The book, and the preprocessor that rewrites its chapters.

use crate::fetch::{token_view, ApiReply, ApiRequest};
use crate::rewrite::{content_rewritten, lemma_without_urls_unchanged, rewrite_content};
use crate::scan::{scanned, IssueUrlView, ScanError};
use vstd::prelude::*;

verus! {

/// One item of a book.
#[derive(Debug, PartialEq, Eq)]
pub enum BookItem {
    /// A chapter, which may hold further items.
    Chapter(Chapter),
    /// A separator between sections.
    Separator,
    /// The title of a part.
    PartTitle(String),
}

/// A chapter: its text, and the items nested in it.
#[derive(Debug, PartialEq, Eq)]
pub struct Chapter {
    pub name: String,
    pub content: String,
    pub sub_items: Vec<BookItem>,
}

/// A book: its items, in their order.
#[derive(Debug, PartialEq, Eq)]
pub struct Book {
    pub sections: Vec<BookItem>,
}

/// The first reason, in the order in which the chapters are rewritten, for
/// which the text of a chapter of `item` cannot be searched. The chapters
/// nested in a chapter come before the chapter itself.
pub open spec fn item_error(item: BookItem) -> Option<ScanError>
    decreases item, 0nat,
{
    match item {
        BookItem::Chapter(chapter) => match error_among(chapter.sub_items@, chapter.sub_items@.len()) {
            Some(e) => Some(e),
            None => match scanned(chapter.content@) {
                Err(e) => Some(e),
                Ok(_) => None,
            },
        },
        _ => None,
    }
}

/// The first reason for which the text of a chapter of the first `n` of
/// `items` cannot be searched.
pub open spec fn error_among(items: Seq<BookItem>, n: nat) -> Option<ScanError>
    decreases items, n,
{
    if n == 0 || n > items.len() {
        None
    } else {
        match error_among(items, (n - 1) as nat) {
            Some(e) => Some(e),
            None => item_error(items[n - 1]),
        }
    }
}

/// The first reason for which the text of a chapter of `items` cannot be
/// searched.
pub open spec fn items_error(items: Seq<BookItem>) -> Option<ScanError> {
    error_among(items, items.len())
}

/// Whether `new_item` can be what rewriting `old_item` gives: a chapter keeps
/// its name, its text is rewritten and so are the items nested in it; any
/// other item is left as it is.
pub open spec fn item_rewritten<F: Fn(ApiRequest) -> ApiReply>(
    send: &F,
    token: Option<Seq<char>>,
    old_item: BookItem,
    new_item: BookItem,
) -> bool
    decreases old_item,
{
    match old_item {
        BookItem::Chapter(before) => {
            &&& new_item matches BookItem::Chapter(after)
            &&& after.name@ == before.name@
            &&& content_rewritten(send, token, before.content@, after.content@)
            &&& after.sub_items@.len() == before.sub_items@.len()
            &&& forall|i: int|
                0 <= i < before.sub_items@.len() ==> item_rewritten(
                    send,
                    token,
                    #[trigger] before.sub_items@[i],
                    after.sub_items@[i],
                )
        },
        BookItem::Separator => new_item is Separator,
        BookItem::PartTitle(before) => new_item matches BookItem::PartTitle(after) && after@
            == before@,
    }
}

/// Whether `new_items` can be what rewriting `old_items` gives: the same
/// number of items, each rewritten in its place.
pub open spec fn items_rewritten<F: Fn(ApiRequest) -> ApiReply>(
    send: &F,
    token: Option<Seq<char>>,
    old_items: Seq<BookItem>,
    new_items: Seq<BookItem>,
) -> bool {
    &&& new_items.len() == old_items.len()
    &&& forall|i: int|
        0 <= i < old_items.len() ==> item_rewritten(send, token, #[trigger] old_items[i], new_items[i])
}

/// Rewrites one item: the items nested in a chapter first, then the text of
/// the chapter itself.
fn rewrite_item<F: Fn(ApiRequest) -> ApiReply>(
    item: &BookItem,
    token: Option<&str>,
    send: &F,
) -> (result: Result<BookItem, ScanError>)
    requires
        token is Some ==> forall|request: ApiRequest| call_requires(*send, (request,)),
    ensures
        match item_error(*item) {
            Some(e) => result == Err::<BookItem, ScanError>(e),
            None => result matches Ok(new_item) && item_rewritten(
                send,
                token_view(token),
                *item,
                new_item,
            ),
        },
    decreases *item, 0nat,
{
    match item {
        BookItem::Chapter(chapter) => {
            let sub_items = match rewrite_items(&chapter.sub_items, token, send) {
                Ok(sub_items) => sub_items,
                Err(e) => {
                    return Err(e);
                },
            };
            let content = match rewrite_content(chapter.content.as_str(), token, send) {
                Ok(content) => content,
                Err(e) => {
                    return Err(e);
                },
            };
            Ok(BookItem::Chapter(Chapter { name: chapter.name.clone(), content, sub_items }))
        },
        BookItem::Separator => Ok(BookItem::Separator),
        BookItem::PartTitle(title) => Ok(BookItem::PartTitle(title.clone())),
    }
}

/// Rewrites a list of items, one after the other.
fn rewrite_items<F: Fn(ApiRequest) -> ApiReply>(
    items: &Vec<BookItem>,
    token: Option<&str>,
    send: &F,
) -> (result: Result<Vec<BookItem>, ScanError>)
    requires
        token is Some ==> forall|request: ApiRequest| call_requires(*send, (request,)),
    ensures
        match items_error(items@) {
            Some(e) => result == Err::<Vec<BookItem>, ScanError>(e),
            None => result matches Ok(new_items) && items_rewritten(
                send,
                token_view(token),
                items@,
                new_items@,
            ),
        },
    decreases *items, 1nat,
{
    let mut new_items: Vec<BookItem> = Vec::new();
    let mut i: usize = 0;
    while i < items.len()
        invariant
            i <= items.len(),
            new_items.len() == i,
            token is Some ==> forall|request: ApiRequest| call_requires(*send, (request,)),
            error_among(items@, i as nat) is None,
            forall|k: int|
                0 <= k < i ==> item_rewritten(
                    send,
                    token_view(token),
                    #[trigger] items@[k],
                    new_items@[k],
                ),
        decreases items.len() - i,
    {
        let new_item = match rewrite_item(&items[i], token, send) {
            Ok(new_item) => new_item,
            Err(e) => {
                proof {
                    lemma_error_stays(items@, i as nat + 1, items@.len());
                }
                return Err(e);
            },
        };
        new_items.push(new_item);
        i += 1;
    }
    Ok(new_items)
}

/// A chapter in whose text the search finds no issue URL keeps its text.
pub proof fn lemma_chapter_without_urls_unchanged<F: Fn(ApiRequest) -> ApiReply>(
    send: &F,
    token: Option<Seq<char>>,
    before: Chapter,
    new_item: BookItem,
)
    ensures
        item_rewritten(send, token, BookItem::Chapter(before), new_item) && scanned(before.content@)
            == Ok::<Seq<IssueUrlView>, ScanError>(Seq::empty()) ==> (new_item matches BookItem::Chapter(
            after,
        ) && after.content@ == before.content@),
{
    if let BookItem::Chapter(after) = new_item {
        lemma_without_urls_unchanged(send, token, before.content@, after.content@);
    }
}

/// An error among the first `n` items is the error of every longer run of
/// the items.
proof fn lemma_error_stays(items: Seq<BookItem>, n: nat, m: nat)
    requires
        n <= m <= items.len(),
        error_among(items, n) is Some,
    ensures
        error_among(items, m) == error_among(items, n),
    decreases m,
{
    if n < m {
        lemma_error_stays(items, n, (m - 1) as nat);
    }
}

/// The preprocessor that puts a card in the place of every GitHub issue URL
/// of a book.
pub struct GitHubIssuePreprocessor;

impl GitHubIssuePreprocessor {
    /// The name under which the preprocessor is known.
    pub fn name(&self) -> (name: &'static str)
        ensures
            name@ == "gh-issue-preview-preprocessor"@,
    {
        "gh-issue-preview-preprocessor"
    }

    /// Rewrites the text of every chapter of `book`, the chapters nested in a
    /// chapter before the chapter itself, and leaves everything else as it
    /// is. `token` is the credential for the API, `send` carries a request
    /// out.
    ///
    /// The run fails where the text of a chapter cannot be searched, with
    /// the reason of the first such chapter; no chapter after it is looked
    /// at.
    pub fn run<F: Fn(ApiRequest) -> ApiReply>(
        &self,
        book: Book,
        token: Option<&str>,
        send: &F,
    ) -> (result: Result<Book, ScanError>)
        requires
            token is Some ==> forall|request: ApiRequest| call_requires(*send, (request,)),
        ensures
            match items_error(book.sections@) {
                Some(e) => result == Err::<Book, ScanError>(e),
                None => result matches Ok(new_book) && items_rewritten(
                    send,
                    token_view(token),
                    book.sections@,
                    new_book.sections@,
                ),
            },
    {
        match rewrite_items(&book.sections, token, send) {
            Ok(sections) => Ok(Book { sections }),
            Err(e) => Err(e),
        }
    }
}

} // verus!
