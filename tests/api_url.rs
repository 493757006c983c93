use liked_export::api_url::{
    create_url_users_by_ids, create_url_users_by_username, create_url_users_liked_tweets,
    TwitApiUrl, TwitUrlFormatErrors,
};

#[test]
fn liked_tweets_url_of_head_page() {
    assert_eq!(
        TwitApiUrl::users_liked_tweets_url("1446894253", None),
        "https://api.twitter.com/2/users/1446894253/liked_tweets?tweet.fields=created_at,lang,author_id,attachments,entities&max_results=100"
    );
}

#[test]
fn liked_tweets_url_with_cursor() {
    assert_eq!(
        create_url_users_liked_tweets("42", &Some("abc".to_owned())),
        "https://api.twitter.com/2/users/42/liked_tweets?tweet.fields=created_at,lang,author_id,attachments,entities&pagination_token=abc&max_results=100"
    );
}

#[test]
fn username_lookup_url_joins_handles() {
    let url = TwitApiUrl::users_by_username_url(&["TwitterDev", "TwitterAPI"]).ok().unwrap();
    assert_eq!(
        url,
        "https://api.twitter.com/2/users/by?usernames=TwitterDev,TwitterAPI&user.fields=id,description,name,username,url,profile_image_url"
    );
    assert_eq!(create_url_users_by_username(&["TwitterDev", "TwitterAPI"]).ok().unwrap(), url);
}

#[test]
fn handle_lookup_guard_rejects_zero_and_101_handles() {
    let none: [&str; 0] = [];
    assert!(matches!(
        TwitApiUrl::users_by_username_url(&none),
        Err(TwitUrlFormatErrors::NotAtMinimum(_))
    ));
    let many: Vec<&str> = vec!["h"; 101];
    assert!(matches!(
        TwitApiUrl::users_by_username_url(&many),
        Err(TwitUrlFormatErrors::ExceedsLimit(_))
    ));
    let hundred: Vec<&str> = vec!["h"; 100];
    assert!(TwitApiUrl::users_by_username_url(&hundred).is_ok());
}

#[test]
fn id_lookup_url_and_bounds() {
    let ids = vec!["3107896458".to_owned(), "823083".to_owned()];
    assert_eq!(
        TwitApiUrl::users_by_ids_url(&ids).ok().unwrap(),
        "https://api.twitter.com/2/users?ids=3107896458,823083&user.fields=id,profile_image_url,url,username"
    );
    let none: Vec<String> = Vec::new();
    assert!(matches!(create_url_users_by_ids(&none), Err(TwitUrlFormatErrors::NotAtMinimum(_))));
    let many: Vec<String> = (0..101).map(|i| i.to_string()).collect();
    assert!(matches!(create_url_users_by_ids(&many), Err(TwitUrlFormatErrors::ExceedsLimit(_))));
}
