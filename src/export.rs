//! The decisions of a harvest, as a state machine: the caller performs each
//! call to the service and hands the result back; the session says what the
//! next call is, under which identity a page is cached, and whether to go on.

use crate::api_url::{by_ids_url_spec, by_username_url_spec, liked_url_spec, TwitApiUrl};
use crate::cache::{lemma_identity_distinct, page_identity, page_identity_spec};
use crate::date::CalendarDate;
use crate::model::{
    clone_opt_string, page_items, spec_next_token, spec_oldest_before, TwitLikeResponse,
    TwitUserDatum, TwitUserResponse,
};
use crate::registry::{author_ids, note_spec, UserIdLookup};
use crate::resolver::{batch_count, batch_spec, lookup_urls_for_ids};
use crate::text::{str_views, string_views};
use vstd::prelude::*;

verus! {

/// Why a harvest stopped short.
#[derive(Debug, PartialEq, Eq)]
pub enum ExportError {
    /// No bearer token was configured.
    AuthMissing,
    /// The handle lookup found no account.
    UserNotFound,
    /// The service answered a call with a failure.
    HttpFailure(String),
    /// The cache could not be read or written.
    IoFailure(String),
    /// A timestamp from the service is not RFC 3339.
    DateParseFailure(String),
    /// The page count no longer fits a page position.
    PageIndexOverflow,
}

/// Why a harvest ended well.
#[derive(Clone, Copy, Debug, PartialEq, Eq, Structural)]
pub enum StopReason {
    /// The last page had no cursor to a next one.
    Exhausted,
    /// The oldest item of the last page lies before the date bound.
    DateBoundReached,
}

/// What follows a cached page.
#[derive(Clone, Copy, Debug, PartialEq, Eq, Structural)]
pub enum PageDecision {
    /// The harvest is over.
    Stop(StopReason),
    /// Fetch the next page, after a pause.
    Continue,
}

/// The decision after `page`, with `not_before` as the date bound; none
/// where the timestamp that decides does not parse. The cursor is looked at
/// first: a page without one ends the harvest whatever its dates.
pub open spec fn decision_spec(page: TwitLikeResponse, not_before: CalendarDate) -> Option<
    PageDecision,
> {
    match spec_next_token(page) {
        None => Some(PageDecision::Stop(StopReason::Exhausted)),
        Some(_) => match spec_oldest_before(page_items(page), not_before) {
            Err(_) => None,
            Ok(true) => Some(PageDecision::Stop(StopReason::DateBoundReached)),
            Ok(false) => Some(PageDecision::Continue),
        },
    }
}

/// The optional view of an optional string.
pub open spec fn opt_view(s: Option<String>) -> Option<Seq<char>> {
    match s {
        Some(v) => Some(v@),
        None => None,
    }
}

/// The address of the lookup of the harvested account's handle. One handle
/// is within the lookup's bounds, so the address is always built.
pub fn owner_lookup_url(handle: &str) -> (r: String)
    ensures
        r@ == by_username_url_spec(seq![handle@]),
{
    let handles: [&str; 1] = [handle];
    let url = TwitApiUrl::users_by_username_url(&handles);
    assert(str_views(handles@) =~= seq![handle@]);
    match url {
        Ok(u) => u,
        Err(_) => {
            assert(false);
            String::new()
        },
    }
}

/// The harvested account: the first record of the handle lookup's reply.
pub fn select_owner(reply: &TwitUserResponse) -> (r: Result<TwitUserDatum, ExportError>)
    ensures
        reply.data@.len() == 0 ==> r == Err::<TwitUserDatum, ExportError>(ExportError::UserNotFound),
        reply.data@.len() > 0 ==> r == Ok::<TwitUserDatum, ExportError>(reply.data@[0]),
{
    if reply.data.len() == 0 {
        Err(ExportError::UserNotFound)
    } else {
        Ok(reply.data[0].clone())
    }
}

/// Notes the authors of `page` in `registry`, and gives the ids still
/// unresolved with the lookups that resolve them: one address per run of
/// 100 ids.
pub fn plan_resolution(registry: &mut UserIdLookup, page: &TwitLikeResponse) -> (r: (
    Vec<String>,
    Vec<String>,
))
    requires
        old(registry).wf(),
    ensures
        final(registry).wf(),
        final(registry)@ == note_spec(old(registry)@, author_ids(page_items(*page))),
        string_views(r.0@).no_duplicates(),
        forall|k: Seq<char>|
            string_views(r.0@).contains(k) <==> (final(registry)@.contains_key(k)
                && final(registry)@[k] is None),
        r.1@.len() == batch_count(r.0@.len() as int),
        forall|j: int|
            0 <= j < r.1@.len() ==> #[trigger] r.1@[j]@ == by_ids_url_spec(
                string_views(batch_spec(r.0@, j)),
            ),
{
    match &page.data {
        Some(items) => registry.note_authors(items.as_slice()),
        None => {
            let empty: Vec<crate::model::TwitLikeDatum> = Vec::new();
            registry.note_authors(empty.as_slice());
            assert(author_ids(empty@) =~= author_ids(page_items(*page)));
        },
    }
    let missing = registry.missing_ids();
    let urls = lookup_urls_for_ids(missing.as_slice());
    (missing, urls)
}

/// The state of a harvest between two pages.
#[derive(Debug)]
pub struct ExportSession {
    /// The account whose likes are harvested.
    pub owner: TwitUserDatum,
    /// The cursor of the next page to fetch; none for the head page.
    pub cursor: Option<String>,
    /// The position of the next page, counted from 0.
    pub index: u64,
    /// Items created before this day end the harvest.
    pub not_before: CalendarDate,
}

impl ExportSession {
    /// A harvest of `owner`'s likes from `start_cursor` (none: from the
    /// newest), down to `not_before`.
    pub fn new(owner: TwitUserDatum, start_cursor: Option<String>, not_before: CalendarDate) -> (r:
        ExportSession)
        ensures
            r.owner == owner,
            r.cursor == start_cursor,
            r.index == 0,
            r.not_before == not_before,
    {
        ExportSession { owner, cursor: start_cursor, index: 0, not_before }
    }

    /// The address of the next page.
    pub fn page_url(&self) -> (r: String)
        ensures
            r@ == liked_url_spec(self.owner.id@, opt_view(self.cursor)),
    {
        match &self.cursor {
            Some(c) => TwitApiUrl::users_liked_tweets_url(self.owner.id.as_str(), Some(c.as_str())),
            None => TwitApiUrl::users_liked_tweets_url(self.owner.id.as_str(), None),
        }
    }

    /// Stamps a fetched page with its account, cursor and position.
    pub fn stamp(&self, page: &mut TwitLikeResponse)
        ensures
            final(page).user == Some(self.owner),
            final(page).id == self.cursor,
            final(page).index == Some(self.index),
            final(page).data == old(page).data,
            final(page).meta == old(page).meta,
    {
        page.user = Some(self.owner.clone());
        page.id = clone_opt_string(&self.cursor);
        page.index = Some(self.index);
    }

    /// The cache identity of the next page.
    pub fn page_identity(&self) -> (r: String)
        ensures
            r@ == page_identity_spec(self.owner.username@, self.index as nat, opt_view(self.cursor)),
    {
        match &self.cursor {
            Some(c) => page_identity(self.owner.username.as_str(), self.index, Some(c.as_str())),
            None => page_identity(self.owner.username.as_str(), self.index, None),
        }
    }

    /// Decides, after `page` has been cached, whether the harvest goes on;
    /// if it does, the session moves to the next page's cursor and position.
    pub fn decide(&mut self, page: &mut TwitLikeResponse) -> (r: Result<PageDecision, ExportError>)
        ensures
            page_items(*final(page)) == page_items(*old(page)),
            spec_next_token(*final(page)) == spec_next_token(*old(page)),
            final(self).owner == old(self).owner,
            final(self).not_before == old(self).not_before,
            decision_spec(*old(page), old(self).not_before) is None ==> r matches Err(
                ExportError::DateParseFailure(_),
            ),
            decision_spec(*old(page), old(self).not_before) == Some(PageDecision::Stop(
                StopReason::Exhausted,
            )) ==> r == Ok::<PageDecision, ExportError>(PageDecision::Stop(StopReason::Exhausted)),
            decision_spec(*old(page), old(self).not_before) == Some(PageDecision::Stop(
                StopReason::DateBoundReached,
            )) ==> r == Ok::<PageDecision, ExportError>(
                PageDecision::Stop(StopReason::DateBoundReached),
            ),
            decision_spec(*old(page), old(self).not_before) == Some(PageDecision::Continue) ==> (
            if old(self).index == u64::MAX {
                r == Err::<PageDecision, ExportError>(ExportError::PageIndexOverflow)
            } else {
                r == Ok::<PageDecision, ExportError>(PageDecision::Continue)
            }),
            r == Ok::<PageDecision, ExportError>(PageDecision::Continue) ==> final(self).index
                == old(self).index + 1 && opt_view(final(self).cursor) == spec_next_token(
                *old(page),
            ),
            r != Ok::<PageDecision, ExportError>(PageDecision::Continue) ==> final(self).index
                == old(self).index && final(self).cursor == old(self).cursor,
    {
        if !page.has_next_token() {
            return Ok(PageDecision::Stop(StopReason::Exhausted));
        }
        let bound = self.not_before;
        match page.has_tweets_older_than(&bound) {
            Err(e) => Err(ExportError::DateParseFailure(e.text)),
            Ok(true) => Ok(PageDecision::Stop(StopReason::DateBoundReached)),
            Ok(false) => {
                if self.index == u64::MAX {
                    return Err(ExportError::PageIndexOverflow);
                }
                self.cursor = page.next_token();
                self.index = self.index + 1;
                Ok(PageDecision::Continue)
            },
        }
    }
}

/// The cursor with which page `k` of a harvest is fetched: the start cursor
/// for the first page, then the cursor that the page before it gave.
pub open spec fn cursor_of_page(
    start: Option<Seq<char>>,
    pages: Seq<TwitLikeResponse>,
    k: int,
) -> Option<Seq<char>> {
    if k == 0 {
        start
    } else {
        spec_next_token(pages[k - 1])
    }
}

/// A harvest whose pages all lead on, but the last, which has no cursor to
/// a next page, goes on after each page and stops after the last one,
/// exhausted; and page `k`, fetched with the cursor the page before gave,
/// is cached under `likes-{handle}-{k}-{cursor or head}.json`, an identity
/// that no other page of the harvest shares. (The pages before the last
/// must not reach the date bound: such a page ends the harvest early.)
pub proof fn lemma_harvest_until_exhausted(
    handle: Seq<char>,
    start: Option<Seq<char>>,
    pages: Seq<TwitLikeResponse>,
    not_before: CalendarDate,
)
    requires
        pages.len() >= 1,
        forall|k: int|
            0 <= k < pages.len() - 1 ==> spec_next_token(#[trigger] pages[k]) is Some
                && spec_oldest_before(page_items(pages[k]), not_before) == Ok::<bool, ()>(false),
        spec_next_token(pages.last()) is None,
    ensures
        forall|k: int|
            0 <= k < pages.len() - 1 ==> decision_spec(#[trigger] pages[k], not_before) == Some(
                PageDecision::Continue,
            ),
        decision_spec(pages.last(), not_before) == Some(PageDecision::Stop(StopReason::Exhausted)),
        forall|j: int, k: int|
            0 <= j < k < pages.len() ==> #[trigger] page_identity_spec(
                handle,
                j as nat,
                cursor_of_page(start, pages, j),
            ) != #[trigger] page_identity_spec(handle, k as nat, cursor_of_page(start, pages, k)),
{
    assert forall|j: int, k: int| 0 <= j < k < pages.len() implies #[trigger] page_identity_spec(
        handle,
        j as nat,
        cursor_of_page(start, pages, j),
    ) != #[trigger] page_identity_spec(handle, k as nat, cursor_of_page(start, pages, k)) by {
        lemma_identity_distinct(
            handle,
            j as nat,
            k as nat,
            cursor_of_page(start, pages, j),
            cursor_of_page(start, pages, k),
        );
    }
}

} // verus!
