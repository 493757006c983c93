//! Compiling the cached pages of an account into one collection: pages in
//! harvest order, each item with its resolved author, newest item first.

use crate::args::OutputFormat;
use crate::date::rfc3339_local_date;
use crate::model::{page_items, DateParseError, TwitLikeDatum, TwitLikeResponse, TwitUserDatum};
use crate::order::{permuted, stable_desc_order, stable_sort_desc};
use crate::registry::UserIdLookup;
use vstd::prelude::*;

verus! {

/// Why a collection could not be compiled.
#[derive(Debug, PartialEq, Eq)]
pub enum CompileError {
    /// No cached page of the account (the handle it holds) was found; run
    /// an export first.
    NoPagesFound(String),
    /// An item's author has no resolved account in the registry.
    UnresolvedAuthor(String),
    /// An item's timestamp is not RFC 3339.
    DateParseFailure(String),
}

/// The liked items of an account, with their authors, newest first.
#[derive(Debug, PartialEq, Eq)]
pub struct LikedTweets {
    /// The account who liked the items.
    pub user: Option<TwitUserDatum>,
    /// The liked items.
    pub tweets: Vec<TwitLikeDatum>,
}

/// The sort key of an item: its calendar date as `year * 10000 + month *
/// 100 + day`.
pub open spec fn date_key_spec(d: TwitLikeDatum) -> i128 {
    let t = rfc3339_local_date(d.created_at@)->0;
    (t.0 * 10000 + t.1 * 100 + t.2) as i128
}

/// The sort keys of a sequence of items.
pub open spec fn item_date_keys(items: Seq<TwitLikeDatum>) -> Seq<i128> {
    Seq::new(items.len(), |i: int| date_key_spec(items[i]))
}

/// Every item's timestamp is RFC 3339.
pub open spec fn all_dates_parse(items: Seq<TwitLikeDatum>) -> bool {
    forall|i: int| 0 <= i < items.len() ==> (#[trigger] rfc3339_local_date(items[i].created_at@)) is Some
}

/// The items of the pages, page after page.
pub open spec fn flat_items(pages: Seq<TwitLikeResponse>) -> Seq<TwitLikeDatum>
    decreases pages.len(),
{
    if pages.len() == 0 {
        Seq::empty()
    } else {
        flat_items(pages.drop_last()) + page_items(pages.last())
    }
}

/// The author of every item has a resolved account in `reg`.
pub open spec fn all_authors_resolved(
    items: Seq<TwitLikeDatum>,
    reg: Map<Seq<char>, Option<TwitUserDatum>>,
) -> bool {
    forall|i: int|
        0 <= i < items.len() ==> reg.contains_key(#[trigger] items[i].author_id@) && reg[items[i].author_id@] is Some
}

/// Item `i` is the first whose author has no resolved account in `reg`.
pub open spec fn first_unresolved(
    items: Seq<TwitLikeDatum>,
    reg: Map<Seq<char>, Option<TwitUserDatum>>,
    i: int,
) -> bool {
    &&& 0 <= i < items.len()
    &&& !(reg.contains_key(items[i].author_id@) && reg[items[i].author_id@] is Some)
    &&& all_authors_resolved(items.subrange(0, i), reg)
}

/// Item `i` is the first whose timestamp is not RFC 3339.
pub open spec fn first_bad_date(items: Seq<TwitLikeDatum>, i: int) -> bool {
    &&& 0 <= i < items.len()
    &&& rfc3339_local_date(items[i].created_at@) is None
    &&& all_dates_parse(items.subrange(0, i))
}

/// The item with its author's account from `reg` attached.
pub open spec fn with_author(d: TwitLikeDatum, reg: Map<Seq<char>, Option<TwitUserDatum>>) -> TwitLikeDatum {
    TwitLikeDatum { user: reg[d.author_id@], ..d }
}

/// The items with their authors attached.
pub open spec fn attached(items: Seq<TwitLikeDatum>, reg: Map<Seq<char>, Option<TwitUserDatum>>) -> Seq<
    TwitLikeDatum,
> {
    items.map_values(|d: TwitLikeDatum| with_author(d, reg))
}

impl Default for LikedTweets {
    fn default() -> (r: LikedTweets)
        ensures
            r.user is None,
            r.tweets@.len() == 0,
    {
        LikedTweets::new()
    }
}

impl LikedTweets {
    /// An empty collection.
    pub fn new() -> (r: LikedTweets)
        ensures
            r.user is None,
            r.tweets@.len() == 0,
    {
        LikedTweets { user: None, tweets: Vec::new() }
    }

    /// Sorts the items by calendar date, newest first; items of the same
    /// day keep their order. Where a timestamp does not parse, nothing moves.
    pub fn sort_by_date(&mut self) -> (r: Result<(), DateParseError>)
        ensures
            r is Ok <==> all_dates_parse(old(self).tweets@),
            r is Err ==> *final(self) == *old(self),
            r is Err ==> exists|i: int|
                first_bad_date(old(self).tweets@, i) && r->Err_0.text == old(self).tweets@[i].created_at,
            final(self).user == old(self).user,
            r is Ok ==> exists|perm: Seq<int>|
                stable_desc_order(item_date_keys(old(self).tweets@), perm) && permuted(
                    old(self).tweets@,
                    perm,
                    final(self).tweets@,
                ),
    {
        let mut keys: Vec<i128> = Vec::new();
        let mut i: usize = 0;
        while i < self.tweets.len()
            invariant
                i <= self.tweets@.len(),
                keys@.len() == i,
                forall|j: int| 0 <= j < i ==> (#[trigger] rfc3339_local_date(self.tweets@[j].created_at@)) is Some,
                forall|j: int| 0 <= j < i ==> keys@[j] == date_key_spec(#[trigger] self.tweets@[j]),
            decreases self.tweets@.len() - i,
        {
            match self.tweets[i].created_at_datetime() {
                Ok(d) => {
                    let v = d.ordinal_value();
                    keys.push(v as i128);
                },
                Err(e) => {
                    assert(self.tweets@.subrange(0, i as int).len() == i);
                    assert forall|j: int| 0 <= j < i implies (#[trigger] rfc3339_local_date(
                        self.tweets@.subrange(0, i as int)[j].created_at@,
                    )) is Some by {
                        assert(self.tweets@.subrange(0, i as int)[j] == self.tweets@[j]);
                    }
                    assert(first_bad_date(self.tweets@, i as int));
                    return Err(e);
                },
            }
            i = i + 1;
        }
        assert(keys@ =~= item_date_keys(self.tweets@));
        let mut items: Vec<TwitLikeDatum> = Vec::new();
        core::mem::swap(&mut items, &mut self.tweets);
        self.tweets = stable_sort_desc(items, keys);
        Ok(())
    }
}

/// The sort key of a page: its position, negated so that the largest key
/// is the first page; a page without a position counts as the first.
pub open spec fn page_key_spec(p: TwitLikeResponse) -> i128 {
    match p.index {
        Some(i) => (-(i as int)) as i128,
        None => 0,
    }
}

/// The sort keys of a sequence of pages.
pub open spec fn page_keys(pages: Seq<TwitLikeResponse>) -> Seq<i128> {
    Seq::new(pages.len(), |i: int| page_key_spec(pages[i]))
}

/// The pages in the order `perm` gives.
pub open spec fn reordered<T>(items: Seq<T>, perm: Seq<int>) -> Seq<T> {
    Seq::new(perm.len(), |i: int| items[perm[i]])
}

/// The account of the first page that names one.
pub open spec fn first_user_spec(pages: Seq<TwitLikeResponse>) -> Option<TwitUserDatum>
    decreases pages.len(),
{
    if pages.len() == 0 {
        None
    } else if pages[0].user is Some {
        pages[0].user
    } else {
        first_user_spec(pages.drop_first())
    }
}

/// Puts the pages in harvest order, by position; pages at the same
/// position keep their order.
pub fn order_pages(pages: Vec<TwitLikeResponse>) -> (r: Vec<TwitLikeResponse>)
    ensures
        exists|perm: Seq<int>| stable_desc_order(page_keys(pages@), perm) && permuted(pages@, perm, r@),
{
    let mut keys: Vec<i128> = Vec::new();
    let mut i: usize = 0;
    while i < pages.len()
        invariant
            i <= pages@.len(),
            keys@.len() == i,
            forall|j: int| 0 <= j < i ==> keys@[j] == page_key_spec(#[trigger] pages@[j]),
        decreases pages@.len() - i,
    {
        let k: i128 = match pages[i].index {
            Some(x) => -(x as i128),
            None => 0,
        };
        keys.push(k);
        i = i + 1;
    }
    assert(keys@ =~= page_keys(pages@));
    stable_sort_desc(pages, keys)
}

/// The account of the first page that names one.
pub fn first_user(pages: &Vec<TwitLikeResponse>) -> (r: Option<TwitUserDatum>)
    ensures
        r == first_user_spec(pages@),
{
    let mut i: usize = 0;
    assert(pages@.subrange(0, pages@.len() as int) =~= pages@);
    while i < pages.len()
        invariant
            i <= pages@.len(),
            forall|j: int| 0 <= j < i ==> pages@[j].user is None,
            first_user_spec(pages@) == first_user_spec(pages@.subrange(i as int, pages@.len() as int)),
        decreases pages@.len() - i,
    {
        let ghost rest = pages@.subrange(i as int, pages@.len() as int);
        match &pages[i].user {
            Some(u) => {
                return Some(u.clone());
            },
            None => {},
        }
        assert(rest.drop_first() =~= pages@.subrange(i + 1, pages@.len() as int));
        i = i + 1;
    }
    None
}

/// Appends `items`, each with its author's account from `registry`;
/// stops at the first item whose author is not resolved.
fn attach_page(items: Vec<TwitLikeDatum>, registry: &UserIdLookup, out: &mut Vec<TwitLikeDatum>) -> (r:
    Result<(), CompileError>)
    requires
        registry.wf(),
    ensures
        r is Ok <==> all_authors_resolved(items@, registry@),
        r is Ok ==> final(out)@ == old(out)@ + attached(items@, registry@),
        r is Err ==> exists|i: int|
            first_unresolved(items@, registry@, i) && r->Err_0 == CompileError::UnresolvedAuthor(
                items@[i].author_id,
            ),
{
    let ghost all = items@;
    let ghost start = out@;
    let n = items.len();
    let mut rest = items;
    let mut i: usize = 0;
    while i < n
        invariant
            n == all.len(),
            all == items@,
            i <= n,
            rest@ == all.subrange(i as int, n as int),
            registry.wf(),
            all_authors_resolved(all.subrange(0, i as int), registry@),
            out@ == start + attached(all.subrange(0, i as int), registry@),
        decreases n - i,
    {
        let mut d = rest.remove(0);
        assert(d == all[i as int]);
        assert(rest@ =~= all.subrange(i + 1, n as int));
        match registry.resolved(d.author_id.as_str()) {
            Some(u) => {
                d.user = Some(u);
                out.push(d);
                assert(attached(all.subrange(0, i + 1), registry@) =~= attached(
                    all.subrange(0, i as int),
                    registry@,
                ).push(with_author(all[i as int], registry@)));
                assert forall|j: int| 0 <= j < i + 1 implies registry@.contains_key(
                    #[trigger] all.subrange(0, i + 1)[j].author_id@,
                ) && registry@[all.subrange(0, i + 1)[j].author_id@] is Some by {
                    if j < i {
                        assert(all.subrange(0, i + 1)[j] == all.subrange(0, i as int)[j]);
                    }
                }
            },
            None => {
                assert(all[i as int].author_id@ == d.author_id@);
                assert(!(registry@.contains_key(all[i as int].author_id@)
                    && registry@[all[i as int].author_id@] is Some));
                assert(!all_authors_resolved(all, registry@));
                assert(first_unresolved(all, registry@, i as int));
                return Err(CompileError::UnresolvedAuthor(d.author_id));
            },
        }
        i = i + 1;
    }
    assert(all.subrange(0, n as int) =~= all);
    Ok(())
}

/// The items of all pages, page after page, each with its author's account
/// from `registry`.
pub fn attach_authors(pages: Vec<TwitLikeResponse>, registry: &UserIdLookup) -> (r: Result<
    Vec<TwitLikeDatum>,
    CompileError,
>)
    requires
        registry.wf(),
    ensures
        r is Ok <==> all_authors_resolved(flat_items(pages@), registry@),
        r is Ok ==> r->Ok_0@ == attached(flat_items(pages@), registry@),
        r is Err ==> exists|i: int|
            first_unresolved(flat_items(pages@), registry@, i) && r->Err_0
                == CompileError::UnresolvedAuthor(flat_items(pages@)[i].author_id),
{
    let ghost all = pages@;
    let n = pages.len();
    let mut rest = pages;
    let mut out: Vec<TwitLikeDatum> = Vec::new();
    let mut p: usize = 0;
    while p < n
        invariant
            n == all.len(),
            all == pages@,
            p <= n,
            rest@ == all.subrange(p as int, n as int),
            registry.wf(),
            all_authors_resolved(flat_items(all.subrange(0, p as int)), registry@),
            out@ == attached(flat_items(all.subrange(0, p as int)), registry@),
        decreases n - p,
    {
        let page = rest.remove(0);
        assert(page == all[p as int]);
        assert(rest@ =~= all.subrange(p + 1, n as int));
        let ghost before = flat_items(all.subrange(0, p as int));
        assert(all.subrange(0, p + 1).drop_last() =~= all.subrange(0, p as int));
        assert(flat_items(all.subrange(0, p + 1)) == before + page_items(page));
        let items = match page.data {
            Some(d) => d,
            None => Vec::new(),
        };
        assert(items@ =~= page_items(page));
        let res = attach_page(items, registry, &mut out);
        match res {
            Ok(()) => {
                assert(attached(before + page_items(page), registry@) =~= attached(before, registry@)
                    + attached(page_items(page), registry@));
                assert forall|j: int| 0 <= j < (before + page_items(page)).len() implies registry@.contains_key(
                    #[trigger] (before + page_items(page))[j].author_id@,
                ) && registry@[(before + page_items(page))[j].author_id@] is Some by {
                    if j >= before.len() {
                        assert((before + page_items(page))[j] == page_items(page)[j - before.len()]);
                    }
                }
            },
            Err(e) => {
                proof {
                    let items = page_items(all[p as int]);
                    let j = choose|j: int|
                        first_unresolved(items, registry@, j) && e == CompileError::UnresolvedAuthor(
                            items[j].author_id,
                        );
                    lemma_flat_items_first_unresolved(all, p as int, j, registry@);
                }
                return Err(e);
            },
        }
        p = p + 1;
    }
    assert(all.subrange(0, n as int) =~= all);
    Ok(out)
}

/// The items of each page stand, in order, within the items of all pages.
proof fn lemma_flat_items_split(pages: Seq<TwitLikeResponse>, p: int)
    requires
        0 <= p <= pages.len(),
    ensures
        flat_items(pages) == flat_items(pages.subrange(0, p)) + flat_items(
            pages.subrange(p, pages.len() as int),
        ),
    decreases pages.len() - p,
{
    if p < pages.len() {
        lemma_flat_items_split(pages, p + 1);
        lemma_flat_items_head(pages.subrange(p, pages.len() as int));
        assert(pages.subrange(0, p + 1).drop_last() =~= pages.subrange(0, p));
        assert(pages.subrange(p, pages.len() as int).drop_first() =~= pages.subrange(
            p + 1,
            pages.len() as int,
        ));
        assert(flat_items(pages.subrange(0, p + 1)) == flat_items(pages.subrange(0, p))
            + page_items(pages[p]));
    } else {
        assert(pages.subrange(0, p) =~= pages);
        assert(flat_items(pages.subrange(p, pages.len() as int)) =~= Seq::empty());
    }
}

proof fn lemma_flat_items_head(pages: Seq<TwitLikeResponse>)
    requires
        pages.len() > 0,
    ensures
        flat_items(pages) == page_items(pages[0]) + flat_items(pages.drop_first()),
    decreases pages.len(),
{
    if pages.len() == 1 {
        assert(pages.drop_last() =~= Seq::<TwitLikeResponse>::empty());
        assert(flat_items(pages.drop_last()) =~= Seq::empty());
        assert(flat_items(pages.drop_first()) =~= Seq::empty());
        assert(flat_items(pages) =~= page_items(pages[0]));
    } else {
        lemma_flat_items_head(pages.drop_last());
        assert(pages.drop_last().drop_first() =~= pages.drop_first().drop_last());
        assert(pages.drop_first().last() == pages.last());
        assert(flat_items(pages) =~= page_items(pages[0]) + flat_items(pages.drop_first()));
    }
}

proof fn lemma_flat_items_first_unresolved(
    pages: Seq<TwitLikeResponse>,
    p: int,
    j: int,
    reg: Map<Seq<char>, Option<TwitUserDatum>>,
)
    requires
        0 <= p < pages.len(),
        all_authors_resolved(flat_items(pages.subrange(0, p)), reg),
        first_unresolved(page_items(pages[p]), reg, j),
    ensures
        first_unresolved(flat_items(pages), reg, flat_items(pages.subrange(0, p)).len() + j),
        flat_items(pages)[flat_items(pages.subrange(0, p)).len() + j] == page_items(pages[p])[j],
{
    lemma_flat_items_split(pages, p);
    let tail = pages.subrange(p, pages.len() as int);
    lemma_flat_items_head(tail);
    let before = flat_items(pages.subrange(0, p));
    let items = page_items(pages[p]);
    let flat = flat_items(pages);
    let at = before.len() + j;
    assert(flat == before + (items + flat_items(tail.drop_first())));
    assert(flat[at] == items[j]);
    assert(flat.subrange(0, at) =~= before + items.subrange(0, j));
    assert forall|k: int| 0 <= k < at implies reg.contains_key(
        #[trigger] flat.subrange(0, at)[k].author_id@,
    ) && reg[flat.subrange(0, at)[k].author_id@] is Some by {
        if k < before.len() {
            assert(flat.subrange(0, at)[k] == before[k]);
        } else {
            assert(flat.subrange(0, at)[k] == items.subrange(0, j)[k - before.len()]);
        }
    }
}

/// Compiles cached pages: pages in harvest order, their items each with its
/// author's account from `registry`, then sorted newest first; the account
/// is that of the first page that names one.
pub fn compile_liked_tweets(
    username: &str,
    pages: Vec<TwitLikeResponse>,
    registry: &UserIdLookup,
) -> (r: Result<LikedTweets, CompileError>)
    requires
        registry.wf(),
    ensures
        pages@.len() == 0 ==> (r matches Err(CompileError::NoPagesFound(h)) && h@ == username@),
        pages@.len() > 0 ==> exists|pp: Seq<int>|
            {
                &&& stable_desc_order(page_keys(pages@), pp)
                &&& #[trigger] compiled_from(reordered(pages@, pp), registry@, r)
            },
{
    if pages.len() == 0 {
        return Err(CompileError::NoPagesFound(String::from_str(username)));
    }
    let ghost orig = pages@;
    let ordered = order_pages(pages);
    let ghost pp = choose|pp: Seq<int>| stable_desc_order(page_keys(orig), pp) && permuted(orig, pp, ordered@);
    assert(ordered@ =~= reordered(orig, pp));
    let user = first_user(&ordered);
    let items = match attach_authors(ordered, registry) {
        Ok(items) => items,
        Err(e) => {
            let r = Err(e);
            assert(compiled_from(reordered(orig, pp), registry@, r));
            return r;
        },
    };
    let mut liked = LikedTweets { user, tweets: items };
    match liked.sort_by_date() {
        Ok(()) => {},
        Err(e) => {
            let ghost flat = flat_items(reordered(orig, pp));
            proof {
                let att = attached(flat, registry@);
                let i = choose|i: int| first_bad_date(att, i) && e.text == att[i].created_at;
                assert(att[i].created_at == flat[i].created_at);
                assert forall|k: int| 0 <= k < i implies (#[trigger] rfc3339_local_date(
                    flat.subrange(0, i)[k].created_at@,
                )) is Some by {
                    assert(flat.subrange(0, i)[k] == flat[k]);
                    assert(att.subrange(0, i)[k] == att[k]);
                    assert(att[k].created_at == flat[k].created_at);
                }
                assert(first_bad_date(flat, i));
            }
            let r = Err(CompileError::DateParseFailure(e.text));
            assert(compiled_from(reordered(orig, pp), registry@, r));
            return r;
        },
    }
    proof {
        let flat = flat_items(reordered(orig, pp));
        let att = attached(flat, registry@);
        assert(item_date_keys(att) =~= item_date_keys(flat)) by {
            assert forall|i: int| 0 <= i < att.len() implies att[i].created_at == flat[i].created_at by {}
        }
        assert forall|i: int| 0 <= i < flat.len() implies (#[trigger] rfc3339_local_date(flat[i].created_at@)) is Some by {
            assert(att[i].created_at == flat[i].created_at);
            assert(rfc3339_local_date(att[i].created_at@) is Some);
        }
        assert(compiled_from(reordered(orig, pp), registry@, Ok(liked)));
    }
    Ok(liked)
}

/// `r` is what compiling `ordered`, pages already in harvest order, gives:
/// an unresolved author, else a timestamp that does not parse, else the
/// collection of their items with authors attached, newest first.
pub open spec fn compiled_from(
    ordered: Seq<TwitLikeResponse>,
    reg: Map<Seq<char>, Option<TwitUserDatum>>,
    r: Result<LikedTweets, CompileError>,
) -> bool {
    let flat = flat_items(ordered);
    if !all_authors_resolved(flat, reg) {
        exists|i: int|
            first_unresolved(flat, reg, i) && r == Err::<LikedTweets, CompileError>(
                CompileError::UnresolvedAuthor(flat[i].author_id),
            )
    } else if !all_dates_parse(flat) {
        exists|i: int|
            first_bad_date(flat, i) && r == Err::<LikedTweets, CompileError>(
                CompileError::DateParseFailure(flat[i].created_at),
            )
    } else {
        &&& r is Ok
        &&& r->Ok_0.user == first_user_spec(ordered)
        &&& exists|ip: Seq<int>|
            stable_desc_order(item_date_keys(flat), ip) && permuted(
                attached(flat, reg),
                ip,
                r->Ok_0.tweets@,
            )
    }
}

/// The default name of a compiled document of `username`.
pub open spec fn default_output_name(username: Seq<char>, format: OutputFormat) -> Seq<char> {
    "liked_tweets-"@ + username + match format {
        OutputFormat::JSON => ".json"@,
        OutputFormat::Markdown => ".md"@,
    }
}

/// The name of the compiled document: `filename` if given, else
/// `liked_tweets-{username}` with the format's extension.
pub fn output_file_name(username: &str, format: &OutputFormat, filename: Option<&str>) -> (r: String)
    ensures
        r@ == match filename {
            Some(f) => f@,
            None => default_output_name(username@, *format),
        },
{
    match filename {
        Some(f) => String::from_str(f),
        None => {
            let mut s = String::from_str("liked_tweets-");
            s.append(username);
            match format {
                OutputFormat::JSON => s.append(".json"),
                OutputFormat::Markdown => s.append(".md"),
            }
            s
        },
    }
}

/// A compiled collection and the name of the document to write it to.
#[derive(Debug, PartialEq, Eq)]
pub struct CompiledExport {
    pub path: String,
    pub collection: LikedTweets,
}

/// The collection of a compiled export, or its error.
pub open spec fn collection_of(r: Result<CompiledExport, CompileError>) -> Result<LikedTweets, CompileError> {
    match r {
        Ok(c) => Ok(c.collection),
        Err(e) => Err(e),
    }
}

/// Compiles the cached pages of `username` and names the document that
/// receives them: `filename` if given, else `liked_tweets-{username}` with
/// the format's extension.
pub fn compile_twitter_exports_for_username(
    username: &str,
    format: &OutputFormat,
    filename: Option<&str>,
    pages: Vec<TwitLikeResponse>,
    registry: &UserIdLookup,
) -> (r: Result<CompiledExport, CompileError>)
    requires
        registry.wf(),
    ensures
        pages@.len() == 0 ==> (r matches Err(CompileError::NoPagesFound(h)) && h@ == username@),
        pages@.len() > 0 ==> exists|pp: Seq<int>|
            {
                &&& stable_desc_order(page_keys(pages@), pp)
                &&& #[trigger] compiled_from(
                    reordered(pages@, pp),
                    registry@,
                    collection_of(r),
                )
            },
        r is Ok ==> r->Ok_0.path@ == match filename {
            Some(f) => f@,
            None => default_output_name(username@, *format),
        },
{
    let path = output_file_name(username, format, filename);
    match compile_liked_tweets(username, pages, registry) {
        Ok(collection) => Ok(CompiledExport { path, collection }),
        Err(e) => Err(e),
    }
}

/// Compiles the cached pages of `username` for a structured document named
/// `liked_tweets-{username}.json`.
pub fn compile_twitter_exports(
    username: &str,
    pages: Vec<TwitLikeResponse>,
    registry: &UserIdLookup,
) -> (r: Result<CompiledExport, CompileError>)
    requires
        registry.wf(),
    ensures
        pages@.len() == 0 ==> (r matches Err(CompileError::NoPagesFound(h)) && h@ == username@),
        pages@.len() > 0 ==> exists|pp: Seq<int>|
            {
                &&& stable_desc_order(page_keys(pages@), pp)
                &&& #[trigger] compiled_from(
                    reordered(pages@, pp),
                    registry@,
                    collection_of(r),
                )
            },
        r is Ok ==> r->Ok_0.path@ == default_output_name(username@, OutputFormat::JSON),
{
    compile_twitter_exports_for_username(username, &OutputFormat::JSON, None, pages, registry)
}

} // verus!
