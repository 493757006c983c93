//! Addresses of the three service calls: a page of liked items, and the
//! lookup of accounts by handle or by id, at most 100 of them at a time.

use crate::text::{join_spec, join_strings, join_strs, str_views, string_views};
use vstd::prelude::*;

verus! {

/// The largest number of handles or ids that one lookup may carry.
pub const MAX_LOOKUP_BATCH: usize = 100;

/// Why a lookup address was not built.
#[derive(Debug, PartialEq, Eq)]
pub enum TwitUrlFormatErrors {
    /// More than 100 handles or ids.
    ExceedsLimit(String),
    /// No handle or id at all.
    NotAtMinimum(String),
}

/// The address of a page of liked items of `user_id`, after `next_token`.
pub open spec fn liked_url_spec(user_id: Seq<char>, next_token: Option<Seq<char>>) -> Seq<char> {
    "https://api.twitter.com/2/users/"@ + user_id + "/liked_tweets?"@
        + "tweet.fields=created_at,lang,author_id,attachments,entities"@ + match next_token {
        Some(t) => "&pagination_token="@ + t,
        None => Seq::empty(),
    } + "&max_results=100"@
}

/// The address of a lookup of the comma-joined `handles`.
pub open spec fn by_username_url_spec(handles: Seq<Seq<char>>) -> Seq<char> {
    "https://api.twitter.com/2/users/by?usernames="@ + join_spec(handles, ","@)
        + "&user.fields=id,description,name,username,url,profile_image_url"@
}

/// The address of a lookup of the comma-joined `ids`.
pub open spec fn by_ids_url_spec(ids: Seq<Seq<char>>) -> Seq<char> {
    "https://api.twitter.com/2/users?ids="@ + join_spec(ids, ","@)
        + "&user.fields=id,profile_image_url,url,username"@
}

/// What a lookup of `n` handles or ids gives: the address, or the bound it breaks.
pub open spec fn lookup_result_ok(r: Result<String, TwitUrlFormatErrors>, n: int, url: Seq<char>) -> bool {
    &&& (r is Ok <==> 1 <= n <= 100)
    &&& r is Err ==> (r->Err_0 is ExceedsLimit <==> n > 100)
    &&& r is Err ==> (r->Err_0 is NotAtMinimum <==> n < 1)
    &&& r is Ok ==> r->Ok_0@ == url
}

/// Builders of the service's addresses.
pub struct TwitApiUrl {}

impl TwitApiUrl {
    /// The address of a page of items liked by `user_id`; `next_token`, when
    /// given, selects the page after the one that returned it.
    pub fn users_liked_tweets_url(user_id: &str, next_token: Option<&str>) -> (r: String)
        ensures
            r@ == liked_url_spec(
                user_id@,
                match next_token {
                    Some(t) => Some(t@),
                    None => None,
                },
            ),
    {
        let mut url = String::from_str("https://api.twitter.com/2/users/");
        url.append(user_id);
        url.append("/liked_tweets?");
        url.append("tweet.fields=created_at,lang,author_id,attachments,entities");
        match next_token {
            Some(t) => {
                url.append("&pagination_token=");
                url.append(t);
            },
            None => {},
        }
        url.append("&max_results=100");
        assert(url@ =~= liked_url_spec(
            user_id@,
            match next_token {
                Some(t) => Some(t@),
                None => None,
            },
        ));
        url
    }

    /// The address of a lookup of 1 to 100 accounts by handle.
    pub fn users_by_username_url(usernames: &[&str]) -> (r: Result<String, TwitUrlFormatErrors>)
        ensures
            lookup_result_ok(r, usernames@.len() as int, by_username_url_spec(str_views(usernames@))),
    {
        if usernames.len() > MAX_LOOKUP_BATCH {
            return Err(
                TwitUrlFormatErrors::ExceedsLimit(
                    String::from_str("Number of usernames is limited to 100"),
                ),
            );
        } else if usernames.len() < 1 {
            return Err(
                TwitUrlFormatErrors::NotAtMinimum(
                    String::from_str("At least 1 username is required"),
                ),
            );
        }
        let joined = join_strs(usernames, ",");
        let mut url = String::from_str("https://api.twitter.com/2/users/by?usernames=");
        url.append(joined.as_str());
        url.append("&user.fields=id,description,name,username,url,profile_image_url");
        assert(url@ =~= by_username_url_spec(str_views(usernames@)));
        Ok(url)
    }

    /// The address of a lookup of 1 to 100 accounts by id.
    pub fn users_by_ids_url(user_ids: &[String]) -> (r: Result<String, TwitUrlFormatErrors>)
        ensures
            lookup_result_ok(r, user_ids@.len() as int, by_ids_url_spec(string_views(user_ids@))),
    {
        if user_ids.len() > MAX_LOOKUP_BATCH {
            return Err(
                TwitUrlFormatErrors::ExceedsLimit(
                    String::from_str("Number of user_ids is limited to 100"),
                ),
            );
        } else if user_ids.len() < 1 {
            return Err(
                TwitUrlFormatErrors::NotAtMinimum(
                    String::from_str("At least 1 username is required"),
                ),
            );
        }
        let joined = join_strings(user_ids, ",");
        let mut url = String::from_str("https://api.twitter.com/2/users?ids=");
        url.append(joined.as_str());
        url.append("&user.fields=id,profile_image_url,url,username");
        assert(url@ =~= by_ids_url_spec(string_views(user_ids@)));
        Ok(url)
    }
}

/// The address of a page of items liked by `user_id`, after `next_token`.
pub fn create_url_users_liked_tweets(user_id: &str, next_token: &Option<String>) -> (r: String)
    ensures
        r@ == liked_url_spec(
            user_id@,
            match next_token {
                Some(t) => Some(t@),
                None => None,
            },
        ),
{
    match next_token {
        Some(t) => TwitApiUrl::users_liked_tweets_url(user_id, Some(t.as_str())),
        None => TwitApiUrl::users_liked_tweets_url(user_id, None),
    }
}

/// The address of a lookup of 1 to 100 accounts by handle.
pub fn create_url_users_by_username(usernames: &[&str]) -> (r: Result<String, TwitUrlFormatErrors>)
    ensures
        lookup_result_ok(r, usernames@.len() as int, by_username_url_spec(str_views(usernames@))),
{
    TwitApiUrl::users_by_username_url(usernames)
}

/// The address of a lookup of 1 to 100 accounts by id.
pub fn create_url_users_by_ids(user_ids: &[String]) -> (r: Result<String, TwitUrlFormatErrors>)
    ensures
        lookup_result_ok(r, user_ids@.len() as int, by_ids_url_spec(string_views(user_ids@))),
{
    TwitApiUrl::users_by_ids_url(user_ids)
}

} // verus!
