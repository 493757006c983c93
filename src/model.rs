//! The records exchanged with the service and kept in the page cache.

use crate::date::{parse_rfc3339_date, rfc3339_local_date, CalendarDate};
use vstd::prelude::*;

verus! {

/// A copy of an optional string.
pub fn clone_opt_string(s: &Option<String>) -> (r: Option<String>)
    ensures
        r == *s,
{
    match s {
        Some(v) => Some(v.clone()),
        None => None,
    }
}

/// The reply of a user lookup: one record per account found.
#[derive(Debug)]
pub struct TwitUserResponse {
    pub data: Vec<TwitUserDatum>,
}

/// An account of the service.
#[derive(Debug, PartialEq, Eq)]
pub struct TwitUserDatum {
    pub created_at: Option<String>,
    pub id: String,
    pub name: String,
    pub username: String,
    pub url: Option<String>,
}

impl Clone for TwitUserDatum {
    fn clone(&self) -> (r: Self)
        ensures
            r == *self,
    {
        TwitUserDatum {
            created_at: clone_opt_string(&self.created_at),
            id: self.id.clone(),
            name: self.name.clone(),
            username: self.username.clone(),
            url: clone_opt_string(&self.url),
        }
    }
}

/// One page of liked items, stamped with where it stands in the harvest.
#[derive(Debug, PartialEq, Eq)]
pub struct TwitLikeResponse {
    /// The cursor this page was fetched with; none for the head page.
    pub id: Option<String>,
    /// The page's position in the harvest, counted from 0.
    pub index: Option<u64>,
    /// The account whose likes these are.
    pub user: Option<TwitUserDatum>,
    /// The liked items, newest first.
    pub data: Option<Vec<TwitLikeDatum>>,
    /// Paging data of this page.
    pub meta: Option<TwitLikeMeta>,
}

/// Paging data of one page.
#[derive(Debug, PartialEq, Eq)]
pub struct TwitLikeMeta {
    pub result_count: u32,
    pub next_token: Option<String>,
    pub previous_token: Option<String>,
}

/// One liked item.
#[derive(Debug, PartialEq, Eq)]
pub struct TwitLikeDatum {
    pub id: String,
    pub author_id: String,
    pub text: String,
    pub entities: Option<TwitLikeEntities>,
    /// RFC 3339 timestamp.
    pub created_at: String,
    /// The resolved author, attached when the collection is compiled.
    pub user: Option<TwitUserDatum>,
}

/// Entities of an item.
#[derive(Debug, PartialEq, Eq)]
pub struct TwitLikeEntities {
    pub urls: Option<Vec<TwitLikeUrl>>,
}

/// A link of an item, in short, expanded and displayed form.
#[derive(Debug, PartialEq, Eq)]
pub struct TwitLikeUrl {
    pub url: String,
    pub expanded_url: String,
    pub display_url: String,
}

/// The liked items of a page, none standing for an empty page.
pub open spec fn page_items(page: TwitLikeResponse) -> Seq<TwitLikeDatum> {
    match page.data {
        Some(d) => d@,
        None => Seq::empty(),
    }
}

/// The cursor of the page after this one, if the service gave one.
pub open spec fn spec_next_token(page: TwitLikeResponse) -> Option<Seq<char>> {
    match page.meta {
        Some(m) => match m.next_token {
            Some(t) => Some(t@),
            None => None,
        },
        None => None,
    }
}

/// What the oldest item of a page says of a date bound: `Ok(true)` when it
/// lies strictly before `bound`, `Err(())` when its timestamp does not parse.
pub open spec fn spec_oldest_before(items: Seq<TwitLikeDatum>, bound: CalendarDate) -> Result<
    bool,
    (),
> {
    if items.len() == 0 {
        Ok(false)
    } else {
        match rfc3339_local_date(items.last().created_at@) {
            None => Err(()),
            Some(t) => Ok(
                t.0 < bound.year || (t.0 == bound.year && (t.1 < bound.month || (t.1
                    == bound.month && t.2 < bound.day))),
            ),
        }
    }
}

impl TwitLikeResponse {
    /// `true` if the service has another page after this one.
    pub fn has_next_token(&self) -> (r: bool)
        ensures
            r == spec_next_token(*self) is Some,
    {
        match &self.meta {
            None => false,
            Some(meta) => meta.next_token.is_some(),
        }
    }

    /// The cursor of the next page.
    pub fn next_token(&self) -> (r: Option<String>)
        ensures
            r is Some == spec_next_token(*self) is Some,
            r is Some ==> r->0@ == spec_next_token(*self)->0,
    {
        if let Some(meta) = &self.meta {
            if let Some(next_token) = &meta.next_token {
                return Some(next_token.clone());
            }
        }
        None
    }

    /// Whether the oldest item of the page (the last; the service sends
    /// newest first) was created strictly before `not_before`. A page
    /// without items has none; a missing item list becomes an empty one.
    pub fn has_tweets_older_than(&mut self, not_before: &CalendarDate) -> (r: Result<
        bool,
        DateParseError,
    >)
        ensures
            final(self).id == old(self).id,
            final(self).index == old(self).index,
            final(self).user == old(self).user,
            final(self).meta == old(self).meta,
            final(self).data is Some,
            page_items(*final(self)) == page_items(*old(self)),
            r is Ok <==> spec_oldest_before(page_items(*old(self)), *not_before) is Ok,
            r is Ok ==> r->Ok_0 == spec_oldest_before(page_items(*old(self)), *not_before)->Ok_0,
    {
        if self.data.is_none() {
            self.data = Some(Vec::new());
            assert(page_items(*self) =~= page_items(*old(self)));
            return Ok(false);
        }
        match &self.data {
            Some(data) => {
                if data.len() == 0 {
                    return Ok(false);
                }
                let oldest = data[data.len() - 1].created_at_datetime();
                match oldest {
                    Ok(d) => Ok(d.is_before(not_before)),
                    Err(e) => Err(e),
                }
            },
            None => Ok(false),
        }
    }
}

/// A timestamp that is not RFC 3339.
#[derive(Debug, PartialEq, Eq)]
pub struct DateParseError {
    pub text: String,
}

impl TwitLikeDatum {
    /// The calendar date of the item's timestamp.
    pub fn created_at_datetime(&self) -> (r: Result<CalendarDate, DateParseError>)
        ensures
            r is Ok <==> rfc3339_local_date(self.created_at@) is Some,
            r is Ok ==> r->Ok_0.wf() && r->Ok_0.triple() == rfc3339_local_date(
                self.created_at@,
            )->0,
            r is Err ==> r->Err_0.text == self.created_at,
    {
        match parse_rfc3339_date(self.created_at.as_str()) {
            Some(d) => Ok(d),
            None => Err(DateParseError { text: self.created_at.clone() }),
        }
    }
}

} // verus!
