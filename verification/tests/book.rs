use gh_issue_preview::book::{Book, BookItem, Chapter, GitHubIssuePreprocessor};
use gh_issue_preview::fetch::{ApiReply, ApiRequest};
use gh_issue_preview::issue::{format_issue, GitHubIssue};
use std::cell::RefCell;

fn chapter(name: &str, content: &str, sub_items: Vec<BookItem>) -> BookItem {
    BookItem::Chapter(Chapter { name: name.to_string(), content: content.to_string(), sub_items })
}

fn plain_issue(number: u32) -> GitHubIssue {
    GitHubIssue {
        title: "A title".to_string(),
        html_url: "https://tracker.example/i".to_string(),
        number,
        state: "closed".to_string(),
        labels: vec![],
    }
}

fn refuse(_request: ApiRequest) -> ApiReply {
    panic!("nothing is to be sent")
}

#[test]
fn preprocessor_name() {
    assert_eq!(GitHubIssuePreprocessor.name(), "gh-issue-preview-preprocessor");
}

#[test]
fn empty_book_stays_empty() {
    let result = GitHubIssuePreprocessor.run(Book { sections: vec![] }, Some("t"), &refuse);
    assert_eq!(result, Ok(Book { sections: vec![] }));
}

#[test]
fn book_without_urls_comes_back_unchanged() {
    let sections = || {
        vec![
            BookItem::PartTitle("Part I".to_string()),
            chapter(
                "Intro",
                "# Intro\n\nWords \u{e9}\u{20ac}.\n",
                vec![chapter("Nested", "nested text", vec![BookItem::Separator])],
            ),
            BookItem::Separator,
            chapter("Empty", "", vec![]),
        ]
    };
    let result = GitHubIssuePreprocessor.run(Book { sections: sections() }, Some("t"), &refuse);
    assert_eq!(result, Ok(Book { sections: sections() }));
    let result = GitHubIssuePreprocessor.run(Book { sections: sections() }, None, &refuse);
    assert_eq!(result, Ok(Book { sections: sections() }));
}

#[test]
fn only_the_text_of_chapters_is_rewritten() {
    let url = "http://github.com/o/r/issues/1";
    let book = Book {
        sections: vec![
            BookItem::PartTitle(url.to_string()),
            chapter(url, url, vec![BookItem::PartTitle(url.to_string()), BookItem::Separator]),
            BookItem::Separator,
        ],
    };
    let link = "https://github.com/o/r/issues/1";
    assert_eq!(
        GitHubIssuePreprocessor.run(book, None, &refuse),
        Ok(Book {
            sections: vec![
                BookItem::PartTitle(url.to_string()),
                chapter(url, link, vec![BookItem::PartTitle(url.to_string()), BookItem::Separator]),
                BookItem::Separator,
            ],
        })
    );
}

#[test]
fn nested_chapters_are_rewritten_too() {
    let send = |request: ApiRequest| {
        let number: u32 = request.url.rsplit('/').next().unwrap().parse().unwrap();
        ApiReply::Answered { status: 200, issue: Some(plain_issue(number)) }
    };
    let book = Book {
        sections: vec![chapter(
            "Outer",
            "outer https://github.com/o/r/issues/1",
            vec![chapter(
                "Middle",
                "middle https://github.com/o/r/issues/2",
                vec![chapter("Inner", "inner https://github.com/o/r/issues/3", vec![])],
            )],
        )],
    };
    let card = |number: u32| format_issue(plain_issue(number), "o", "r");
    assert_eq!(
        GitHubIssuePreprocessor.run(book, Some("t"), &send),
        Ok(Book {
            sections: vec![chapter(
                "Outer",
                &format!("outer {}", card(1)),
                vec![chapter(
                    "Middle",
                    &format!("middle {}", card(2)),
                    vec![chapter("Inner", &format!("inner {}", card(3)), vec![])],
                )],
            )],
        })
    );
}

#[test]
fn nested_chapters_are_fetched_before_the_chapter_that_holds_them() {
    let seen: RefCell<Vec<String>> = RefCell::new(Vec::new());
    let send = |request: ApiRequest| {
        seen.borrow_mut().push(request.url);
        ApiReply::Failed
    };
    let address = |number: u32| format!("https://github.com/o/r/issues/{}", number);
    let both = |a: u32, b: u32| format!("{} {}", address(a), address(b));
    let sections = || {
        vec![
            chapter(
                "1",
                &both(5, 6),
                vec![
                    chapter("1.1", &both(1, 2), vec![]),
                    BookItem::Separator,
                    chapter("1.2", &address(4), vec![chapter("1.2.1", &address(3), vec![])]),
                ],
            ),
            BookItem::PartTitle("II".to_string()),
            chapter("2", &address(7), vec![]),
        ]
    };
    let result = GitHubIssuePreprocessor.run(Book { sections: sections() }, Some("t"), &send);
    assert_eq!(result, Ok(Book { sections: sections() }));
    let expected: Vec<String> = (1..=7)
        .map(|number| format!("https://api.github.com/repos/o/r/issues/{}", number))
        .collect();
    assert_eq!(seen.into_inner(), expected);
}

#[test]
fn without_credential_a_book_is_rewritten_without_sending() {
    let book = Book {
        sections: vec![
            chapter("a", "x http://github.com/o/r/issues/1 y", vec![]),
            chapter("b", "https://github.com/o/r/issues/2", vec![]),
        ],
    };
    assert_eq!(
        GitHubIssuePreprocessor.run(book, None, &refuse),
        Ok(Book {
            sections: vec![
                chapter("a", "x https://github.com/o/r/issues/1 y", vec![]),
                chapter("b", "https://github.com/o/r/issues/2", vec![]),
            ],
        })
    );
}
