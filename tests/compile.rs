use liked_export::args::OutputFormat;
use liked_export::compile::{
    compile_liked_tweets, compile_twitter_exports, compile_twitter_exports_for_username,
    order_pages, output_file_name, CompileError, LikedTweets,
};
use liked_export::dumps::to_markdown;
use liked_export::model::{
    TwitLikeDatum, TwitLikeEntities, TwitLikeMeta, TwitLikeResponse, TwitLikeUrl, TwitUserDatum,
};
use liked_export::registry::UserIdLookup;

fn user(id: &str) -> TwitUserDatum {
    TwitUserDatum {
        created_at: None,
        id: id.to_owned(),
        name: format!("Name{id}"),
        username: format!("handle{id}"),
        url: Some(format!("https://example.com/{id}")),
    }
}

fn item(id: &str, author: &str, created_at: &str) -> TwitLikeDatum {
    TwitLikeDatum {
        id: id.to_owned(),
        author_id: author.to_owned(),
        text: format!("text {id}"),
        entities: None,
        created_at: created_at.to_owned(),
        user: None,
    }
}

fn page(index: u64, items: Vec<TwitLikeDatum>) -> TwitLikeResponse {
    TwitLikeResponse {
        id: None,
        index: Some(index),
        user: Some(user("owner")),
        data: Some(items),
        meta: Some(TwitLikeMeta { result_count: 0, next_token: None, previous_token: None }),
    }
}

fn registry(ids: &[&str]) -> UserIdLookup {
    let mut reg = UserIdLookup::new();
    for id in ids {
        reg.insert(id.to_string(), Some(user(id)));
    }
    reg
}

#[test]
fn sort_by_date_puts_newest_first() {
    let mut liked = LikedTweets::new();
    liked.tweets = vec![
        item("1", "a", "2022-01-01T00:00:00.000Z"),
        item("2", "a", "2022-03-01T00:00:00.000Z"),
        item("3", "a", "2022-02-01T00:00:00.000Z"),
    ];
    liked.sort_by_date().unwrap();
    let dates: Vec<&str> = liked.tweets.iter().map(|t| t.created_at.as_str()).collect();
    assert_eq!(
        dates,
        vec!["2022-03-01T00:00:00.000Z", "2022-02-01T00:00:00.000Z", "2022-01-01T00:00:00.000Z"]
    );
}

#[test]
fn sort_by_date_keeps_order_within_a_day() {
    let mut liked = LikedTweets::new();
    liked.tweets = vec![
        item("1", "a", "2022-01-01T01:00:00Z"),
        item("2", "a", "2022-01-02T00:00:00Z"),
        item("3", "a", "2022-01-01T23:00:00Z"),
    ];
    liked.sort_by_date().unwrap();
    let ids: Vec<&str> = liked.tweets.iter().map(|t| t.id.as_str()).collect();
    assert_eq!(ids, vec!["2", "1", "3"]);
}

#[test]
fn sort_by_date_leaves_items_when_a_date_is_bad() {
    let mut liked = LikedTweets::new();
    liked.tweets = vec![item("1", "a", "2022-01-01T00:00:00Z"), item("2", "a", "soon")];
    assert!(liked.sort_by_date().is_err());
    assert_eq!(liked.tweets[0].id, "1");
}

#[test]
fn pages_are_ordered_by_position() {
    let pages = vec![page(2, vec![]), page(0, vec![]), page(1, vec![])];
    let ordered = order_pages(pages);
    let idx: Vec<u64> = ordered.iter().map(|p| p.index.unwrap()).collect();
    assert_eq!(idx, vec![0, 1, 2]);
}

#[test]
fn compile_merges_pages_attaches_authors_and_sorts() {
    let pages = vec![
        page(1, vec![item("c", "y", "2022-01-01T00:00:00Z"), item("d", "x", "2021-06-01T00:00:00Z")]),
        page(0, vec![item("a", "x", "2022-01-01T00:00:00Z"), item("b", "y", "2022-02-01T00:00:00Z")]),
    ];
    let reg = registry(&["x", "y"]);
    let liked = compile_liked_tweets("owner", pages, &reg).unwrap();
    let ids: Vec<&str> = liked.tweets.iter().map(|t| t.id.as_str()).collect();
    assert_eq!(ids, vec!["b", "a", "c", "d"]);
    assert_eq!(liked.tweets[0].user, Some(user("y")));
    assert_eq!(liked.user, Some(user("owner")));
}

#[test]
fn compile_without_pages_reports_no_pages() {
    let reg = registry(&[]);
    assert_eq!(
        compile_liked_tweets("owner", vec![], &reg),
        Err(CompileError::NoPagesFound("owner".to_owned()))
    );
}

#[test]
fn compile_with_unresolved_author_fails() {
    let mut reg = registry(&["x"]);
    reg.insert("z".to_owned(), None);
    let pages = vec![page(0, vec![item("a", "x", "2022-01-01T00:00:00Z"), item("b", "z", "2022-01-01T00:00:00Z")])];
    assert_eq!(
        compile_liked_tweets("owner", pages, &reg),
        Err(CompileError::UnresolvedAuthor("z".to_owned()))
    );
}

#[test]
fn compile_with_bad_timestamp_fails() {
    let reg = registry(&["x"]);
    let pages = vec![page(0, vec![item("a", "x", "not a date")])];
    assert_eq!(
        compile_liked_tweets("owner", pages, &reg),
        Err(CompileError::DateParseFailure("not a date".to_owned()))
    );
}

#[test]
fn output_names() {
    assert_eq!(output_file_name("u", &OutputFormat::JSON, None), "liked_tweets-u.json");
    assert_eq!(output_file_name("u", &OutputFormat::Markdown, None), "liked_tweets-u.md");
    assert_eq!(output_file_name("u", &OutputFormat::Markdown, Some("out.txt")), "out.txt");
    let reg = registry(&["x"]);
    let done = compile_twitter_exports_for_username(
        "u",
        &OutputFormat::Markdown,
        None,
        vec![page(0, vec![item("a", "x", "2022-01-01T00:00:00Z")])],
        &reg,
    )
    .unwrap();
    assert_eq!(done.path, "liked_tweets-u.md");
    assert_eq!(done.collection.tweets.len(), 1);
    let json = compile_twitter_exports("u", vec![page(0, vec![])], &reg).unwrap();
    assert_eq!(json.path, "liked_tweets-u.json");
}

#[test]
fn markdown_blocks() {
    let mut d = item("a", "x", "2022-01-01T00:00:00Z");
    d.user = Some(user("x"));
    d.entities = Some(TwitLikeEntities {
        urls: Some(vec![TwitLikeUrl {
            url: "https://t.co/1".to_owned(),
            expanded_url: "https://example.org/page".to_owned(),
            display_url: "example.org/page".to_owned(),
        }]),
    });
    let plain = item("b", "y", "2022-01-02T00:00:00Z");
    let liked = LikedTweets { user: None, tweets: vec![d, plain] };
    assert_eq!(
        to_markdown(&liked),
        "[Namex](https://example.com/x) id(x)<br>\n*2022-01-01T00:00:00Z*<br>\ntext a<br>\n - [example.org/page](https://example.org/page)\n\n*2022-01-02T00:00:00Z*<br>\ntext b<br>\n\n"
    );
}
