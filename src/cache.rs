//! Names in the page cache: where the registry and each page are kept, and
//! which cached files belong to an account.

use crate::model::TwitLikeResponse;
use crate::registry::UserIdLookup;
use crate::text::{decimal, decimal_spec, is_digit, lemma_decimal_injective, lemma_decimal_shape};
use vstd::prelude::*;

verus! {

/// Name of the cache directory, under the working directory.
pub const CACHE_DIRNAME: &'static str = ".cache";

/// Name of the registry's file in the cache directory.
pub const USER_LOOKUP_FILENAME: &'static str = "user_id_lookup.json";

/// Why cached data could not be loaded.
#[derive(Debug, PartialEq, Eq)]
pub enum CacheLoadError {
    /// The cache directory could not be determined.
    InvalidDefaultPath(String),
    /// A cached file could not be read or decoded.
    File,
    /// No cached page holds items of the account.
    NoTweets(String),
}

/// The cursor component of a page's identity: the cursor, or `head` for
/// the page fetched without one.
pub open spec fn cursor_component(cursor: Option<Seq<char>>) -> Seq<char> {
    match cursor {
        Some(c) => c,
        None => "head"@,
    }
}

/// The file prefix shared by all cached pages of `handle`.
pub open spec fn page_prefix_spec(handle: Seq<char>) -> Seq<char> {
    "likes-"@ + handle + "-"@
}

/// The cache identity of page `index` of `handle`, fetched with `cursor`:
/// `likes-{handle}-{index}-{cursor or head}.json`.
pub open spec fn page_identity_spec(handle: Seq<char>, index: nat, cursor: Option<Seq<char>>) -> Seq<
    char,
> {
    page_prefix_spec(handle) + decimal_spec(index) + "-"@ + cursor_component(cursor) + ".json"@
}

/// Pages at distinct positions have distinct cache identities, whatever
/// their cursors.
pub proof fn lemma_identity_distinct(
    handle: Seq<char>,
    j: nat,
    k: nat,
    cj: Option<Seq<char>>,
    ck: Option<Seq<char>>,
)
    requires
        j != k,
    ensures
        page_identity_spec(handle, j, cj) != page_identity_spec(handle, k, ck),
{
    if page_identity_spec(handle, j, cj) == page_identity_spec(handle, k, ck) {
        let dj = decimal_spec(j);
        let dk = decimal_spec(k);
        let p = page_prefix_spec(handle).len() as int;
        if dj.len() == dk.len() {
            assert(dj =~= page_identity_spec(handle, j, cj).subrange(p, p + dj.len() as int));
            assert(dk =~= page_identity_spec(handle, k, ck).subrange(p, p + dk.len() as int));
            lemma_decimal_injective(j, k);
        } else if dj.len() < dk.len() {
            lemma_identity_position(handle, j, k, cj, ck);
        } else {
            lemma_identity_position(handle, k, j, ck, cj);
        }
    }
}

/// Past the prefix, an identity holds the position's digits and then `-`;
/// a longer number has a digit where a shorter one has that `-`.
proof fn lemma_identity_position(
    handle: Seq<char>,
    j: nat,
    k: nat,
    cj: Option<Seq<char>>,
    ck: Option<Seq<char>>,
)
    requires
        decimal_spec(j).len() < decimal_spec(k).len(),
    ensures
        page_identity_spec(handle, j, cj) != page_identity_spec(handle, k, ck),
{
    reveal_strlit("-");
    let dj = decimal_spec(j);
    let dk = decimal_spec(k);
    let p = page_prefix_spec(handle);
    let sj = page_identity_spec(handle, j, cj);
    let sk = page_identity_spec(handle, k, ck);
    let at = (p.len() + dj.len()) as int;
    lemma_decimal_shape(k);
    assert(sj[at] == '-');
    assert(sk[at] == dk[dj.len() as int]);
    assert(is_digit(dk[dj.len() as int]));
}

/// The head page, fetched without a cursor, has `head` as the cursor
/// component of its identity; any other page has the cursor it was fetched
/// with.
pub proof fn lemma_cursor_component(handle: Seq<char>, index: nat, cursor: Option<Seq<char>>)
    ensures
        cursor is None ==> page_identity_spec(handle, index, cursor) == page_prefix_spec(handle)
            + decimal_spec(index) + "-"@ + "head"@ + ".json"@,
        cursor is Some ==> page_identity_spec(handle, index, cursor) == page_prefix_spec(handle)
            + decimal_spec(index) + "-"@ + cursor->0 + ".json"@,
{
}

/// `dir` joined with `name` by a path separator.
pub open spec fn path_join_spec(dir: Seq<char>, name: Seq<char>) -> Seq<char> {
    dir + "/"@ + name
}

/// The file prefix shared by all cached pages of `handle`.
pub fn page_prefix(handle: &str) -> (r: String)
    ensures
        r@ == page_prefix_spec(handle@),
{
    let mut s = String::from_str("likes-");
    s.append(handle);
    s.append("-");
    s
}

/// The cache identity of page `index` of `handle`, fetched with `cursor`.
pub fn page_identity(handle: &str, index: u64, cursor: Option<&str>) -> (r: String)
    ensures
        r@ == page_identity_spec(
            handle@,
            index as nat,
            match cursor {
                Some(c) => Some(c@),
                None => None,
            },
        ),
{
    let mut s = page_prefix(handle);
    let digits = decimal(index);
    s.append(digits.as_str());
    s.append("-");
    match cursor {
        Some(c) => s.append(c),
        None => s.append("head"),
    }
    s.append(".json");
    s
}

/// The path of `filename` in the cache directory `cache_dir`.
pub fn get_cache_file_path(cache_dir: &str, filename: &str) -> (r: String)
    ensures
        r@ == path_join_spec(cache_dir@, filename@),
{
    let mut s = String::from_str(cache_dir);
    s.append("/");
    s.append(filename);
    s
}

/// The cache directory under the working directory `cwd`.
pub fn get_cache_directory_path(cwd: &str) -> (r: String)
    ensures
        r@ == path_join_spec(cwd@, CACHE_DIRNAME@),
{
    get_cache_file_path(cwd, CACHE_DIRNAME)
}

/// Whether `s` begins with `prefix`.
pub fn has_prefix(s: &str, prefix: &str) -> (r: bool)
    ensures
        r == (prefix@.len() <= s@.len() && s@.subrange(0, prefix@.len() as int) == prefix@),
{
    let n = s.unicode_len();
    let m = prefix.unicode_len();
    if m > n {
        return false;
    }
    let mut i: usize = 0;
    while i < m
        invariant
            m == prefix@.len(),
            n == s@.len(),
            m <= n,
            i <= m,
            forall|j: int| 0 <= j < i ==> s@[j] == prefix@[j],
        decreases m - i,
    {
        if s.get_char(i) != prefix.get_char(i) {
            assert(s@.subrange(0, m as int)[i as int] != prefix@[i as int]);
            return false;
        }
        i = i + 1;
    }
    assert(s@.subrange(0, m as int) =~= prefix@);
    true
}

/// Whether the cached file `file_name` is a page of `handle`.
pub fn is_page_file_for(file_name: &str, handle: &str) -> (r: bool)
    ensures
        r == (page_prefix_spec(handle@).len() <= file_name@.len() && file_name@.subrange(
            0,
            page_prefix_spec(handle@).len() as int,
        ) == page_prefix_spec(handle@)),
{
    let prefix = page_prefix(handle);
    has_prefix(file_name, prefix.as_str())
}

impl UserIdLookup {
    /// The path of the registry's file in the cache directory `cache_dir`.
    pub fn fs_full_path(cache_dir: &str) -> (r: String)
        ensures
            r@ == path_join_spec(cache_dir@, USER_LOOKUP_FILENAME@),
    {
        get_cache_file_path(cache_dir, USER_LOOKUP_FILENAME)
    }
}

impl TwitLikeResponse {
    /// The cache identity of this page, from its account's handle, its
    /// position and its cursor; none until the page has been stamped with
    /// an account and a position.
    pub fn cache_identity(&self) -> (r: Option<String>)
        ensures
            r is Some <==> self.user is Some && self.index is Some,
            r is Some ==> r->0@ == page_identity_spec(
                self.user->0.username@,
                self.index->0 as nat,
                match self.id {
                    Some(c) => Some(c@),
                    None => None,
                },
            ),
    {
        match (&self.user, self.index) {
            (Some(user), Some(index)) => {
                let cursor = match &self.id {
                    Some(c) => Some(c.as_str()),
                    None => None,
                };
                Some(page_identity(user.username.as_str(), index, cursor))
            },
            _ => None,
        }
    }
}

} // verus!
