use liked_export::cache::{get_cache_directory_path, get_cache_file_path, is_page_file_for, page_identity};
use liked_export::date::CalendarDate;
use liked_export::export::{
    owner_lookup_url, plan_resolution, select_owner, ExportError, ExportSession, PageDecision,
    StopReason,
};
use liked_export::model::{TwitLikeDatum, TwitLikeMeta, TwitLikeResponse, TwitUserDatum, TwitUserResponse};
use liked_export::registry::UserIdLookup;
use liked_export::text::decimal;

fn owner() -> TwitUserDatum {
    TwitUserDatum {
        created_at: None,
        id: "77".to_owned(),
        name: "Owner".to_owned(),
        username: "owner".to_owned(),
        url: None,
    }
}

fn item(id: &str, author: &str, created_at: &str) -> TwitLikeDatum {
    TwitLikeDatum {
        id: id.to_owned(),
        author_id: author.to_owned(),
        text: format!("text {id}"),
        entities: None,
        created_at: created_at.to_owned(),
        user: None,
    }
}

fn page(items: Vec<TwitLikeDatum>, next: Option<&str>) -> TwitLikeResponse {
    TwitLikeResponse {
        id: None,
        index: None,
        user: None,
        data: Some(items),
        meta: Some(TwitLikeMeta {
            result_count: 0,
            next_token: next.map(|s| s.to_owned()),
            previous_token: None,
        }),
    }
}

fn date(year: i32, month: u32, day: u32) -> CalendarDate {
    CalendarDate { year, month, day }
}

#[test]
fn decimal_numbers() {
    assert_eq!(decimal(0), "0");
    assert_eq!(decimal(7), "7");
    assert_eq!(decimal(120), "120");
    assert_eq!(decimal(u64::MAX), "18446744073709551615");
}

#[test]
fn head_page_identity_uses_head() {
    assert_eq!(page_identity("owner", 0, None), "likes-owner-0-head.json");
    assert_eq!(page_identity("owner", 12, Some("tok")), "likes-owner-12-tok.json");
}

#[test]
fn cache_paths_and_page_files() {
    assert_eq!(get_cache_directory_path("/home/u"), "/home/u/.cache");
    assert_eq!(get_cache_file_path("/home/u/.cache", "x.json"), "/home/u/.cache/x.json");
    assert!(is_page_file_for("likes-owner-3-tok.json", "owner"));
    assert!(!is_page_file_for("likes-owner2-3-tok.json", "owner"));
    assert!(!is_page_file_for("user_id_lookup.json", "owner"));
}

#[test]
fn owner_lookup() {
    assert_eq!(
        owner_lookup_url("matsuzine"),
        "https://api.twitter.com/2/users/by?usernames=matsuzine&user.fields=id,description,name,username,url,profile_image_url"
    );
    let empty = TwitUserResponse { data: vec![] };
    assert_eq!(select_owner(&empty), Err(ExportError::UserNotFound));
    let found = TwitUserResponse { data: vec![owner()] };
    assert_eq!(select_owner(&found), Ok(owner()));
}

#[test]
fn harvest_runs_until_a_page_without_cursor() {
    let pages = vec![
        page(vec![item("1", "a", "2022-05-01T00:00:00.000Z")], Some("c1")),
        page(vec![item("2", "b", "2022-04-01T00:00:00.000Z")], Some("c2")),
        page(vec![item("3", "a", "2022-03-01T00:00:00.000Z")], None),
    ];
    let mut session = ExportSession::new(owner(), None, date(2000, 1, 1));
    let mut identities: Vec<String> = Vec::new();
    let mut urls: Vec<String> = Vec::new();
    let mut outcome = None;
    for mut p in pages {
        urls.push(session.page_url());
        session.stamp(&mut p);
        identities.push(p.cache_identity().unwrap());
        assert_eq!(p.cache_identity().unwrap(), session.page_identity());
        match session.decide(&mut p).unwrap() {
            PageDecision::Continue => {}
            PageDecision::Stop(reason) => {
                outcome = Some(reason);
                break;
            }
        }
    }
    assert_eq!(outcome, Some(StopReason::Exhausted));
    assert_eq!(
        identities,
        vec![
            "likes-owner-0-head.json".to_owned(),
            "likes-owner-1-c1.json".to_owned(),
            "likes-owner-2-c2.json".to_owned(),
        ]
    );
    assert!(urls[1].contains("&pagination_token=c1&"));
    assert!(!urls[0].contains("pagination_token"));
}

#[test]
fn date_bound_stops_after_the_crossing_page() {
    let mut session = ExportSession::new(owner(), Some("start".to_owned()), date(2022, 1, 1));
    let mut p = page(
        vec![
            item("1", "a", "2022-01-05T00:00:00.000Z"),
            item("2", "a", "2021-12-31T23:00:00.000Z"),
        ],
        Some("more"),
    );
    session.stamp(&mut p);
    assert_eq!(p.cache_identity().unwrap(), "likes-owner-0-start.json");
    assert_eq!(session.decide(&mut p), Ok(PageDecision::Stop(StopReason::DateBoundReached)));
    assert_eq!(session.index, 0);
    assert_eq!(session.cursor, Some("start".to_owned()));
}

#[test]
fn page_on_the_bound_day_continues() {
    let mut session = ExportSession::new(owner(), None, date(2022, 1, 1));
    let mut p = page(vec![item("1", "a", "2022-01-01T00:00:00.000Z")], Some("next"));
    assert_eq!(session.decide(&mut p), Ok(PageDecision::Continue));
    assert_eq!(session.index, 1);
    assert_eq!(session.cursor, Some("next".to_owned()));
}

#[test]
fn bad_timestamp_is_fatal_only_when_a_next_page_exists() {
    let mut session = ExportSession::new(owner(), None, date(2022, 1, 1));
    let mut last = page(vec![item("1", "a", "yesterday")], None);
    assert_eq!(session.decide(&mut last), Ok(PageDecision::Stop(StopReason::Exhausted)));
    let mut more = page(vec![item("1", "a", "yesterday")], Some("n"));
    assert_eq!(
        session.decide(&mut more),
        Err(ExportError::DateParseFailure("yesterday".to_owned()))
    );
}

#[test]
fn empty_or_missing_items_never_reach_the_bound() {
    let mut p = TwitLikeResponse { id: None, index: None, user: None, data: None, meta: None };
    assert_eq!(p.has_tweets_older_than(&date(2022, 1, 1)), Ok(false));
    assert_eq!(p.data, Some(vec![]));
    assert!(!p.has_next_token());
    assert_eq!(p.next_token(), None);
}

#[test]
fn resolution_plan_for_a_page() {
    let mut reg = UserIdLookup::new();
    let p = page(vec![item("1", "a", "2022-01-01T00:00:00Z"), item("2", "b", "2022-01-01T00:00:00Z")], None);
    let (missing, urls) = plan_resolution(&mut reg, &p);
    assert_eq!(missing, vec!["a".to_owned(), "b".to_owned()]);
    assert_eq!(urls, vec!["https://api.twitter.com/2/users?ids=a,b&user.fields=id,profile_image_url,url,username".to_owned()]);
}

#[test]
fn calendar_order() {
    assert!(date(2021, 12, 31).is_before(&date(2022, 1, 1)));
    assert!(!date(2022, 1, 1).is_before(&date(2022, 1, 1)));
    assert_eq!(date(2022, 3, 1).ordinal_value(), 20220301);
}

#[test]
fn timestamps_parse_to_their_local_date() {
    let d = item("1", "a", "2022-03-01T23:30:00-05:00");
    assert_eq!(d.created_at_datetime().unwrap(), date(2022, 3, 1));
    let bad = item("1", "a", "2022-03-01");
    assert!(bad.created_at_datetime().is_err());
}
