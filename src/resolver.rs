//! Splitting the unresolved author ids into lookups of at most 100 ids.

use crate::api_url::{by_ids_url_spec, TwitApiUrl, MAX_LOOKUP_BATCH};
use crate::text::string_views;
use vstd::prelude::*;

verus! {

/// The number of lookups that `n` ids take.
pub open spec fn batch_count(n: int) -> int {
    (n + 99) / 100
}

/// The ids of lookup `j`: the `j`-th run of 100, the last one shorter.
pub open spec fn batch_spec<T>(ids: Seq<T>, j: int) -> Seq<T> {
    ids.subrange(
        100 * j,
        if 100 * j + 100 <= ids.len() {
            100 * j + 100
        } else {
            ids.len() as int
        },
    )
}

/// Splits `ids` into runs of 100, in order, the last one holding the rest.
/// No run is empty, and together they hold `ids` exactly.
pub fn batch_ids(ids: &[String]) -> (r: Vec<Vec<String>>)
    ensures
        r@.len() == batch_count(ids@.len() as int),
        forall|j: int| 0 <= j < r@.len() ==> #[trigger] r@[j]@ == batch_spec(ids@, j),
        forall|j: int| 0 <= j < r@.len() ==> 1 <= #[trigger] r@[j]@.len() <= 100,
{
    let n = ids.len();
    let count: usize = n / MAX_LOOKUP_BATCH + if n % MAX_LOOKUP_BATCH == 0 {
        0
    } else {
        1
    };
    assert(count == batch_count(n as int));
    let mut out: Vec<Vec<String>> = Vec::new();
    let mut j: usize = 0;
    while j < count
        invariant
            j <= count,
            count == batch_count(n as int),
            n == ids@.len(),
            out@.len() == j,
            forall|k: int| 0 <= k < j ==> #[trigger] out@[k]@ == batch_spec(ids@, k),
        decreases count - j,
    {
        let start: usize = j * MAX_LOOKUP_BATCH;
        let end: usize = if n - start > MAX_LOOKUP_BATCH {
            start + MAX_LOOKUP_BATCH
        } else {
            n
        };
        let mut chunk: Vec<String> = Vec::new();
        let mut i: usize = start;
        while i < end
            invariant
                start <= i <= end <= n,
                n == ids@.len(),
                chunk@ == ids@.subrange(start as int, i as int),
            decreases end - i,
        {
            chunk.push(ids[i].clone());
            assert(chunk@ =~= ids@.subrange(start as int, i + 1));
            i = i + 1;
        }
        assert(chunk@ == batch_spec(ids@, j as int));
        out.push(chunk);
        j = j + 1;
    }
    out
}

/// The lookup addresses for `ids`, one per run of 100 ids. Every run holds
/// 1 to 100 ids, so each address is built.
pub fn lookup_urls_for_ids(ids: &[String]) -> (r: Vec<String>)
    ensures
        r@.len() == batch_count(ids@.len() as int),
        forall|j: int|
            0 <= j < r@.len() ==> #[trigger] r@[j]@ == by_ids_url_spec(
                string_views(batch_spec(ids@, j)),
            ),
{
    let batches = batch_ids(ids);
    let mut out: Vec<String> = Vec::new();
    let mut j: usize = 0;
    while j < batches.len()
        invariant
            j <= batches@.len(),
            batches@.len() == batch_count(ids@.len() as int),
            forall|k: int| 0 <= k < batches@.len() ==> #[trigger] batches@[k]@ == batch_spec(ids@, k),
            forall|k: int| 0 <= k < batches@.len() ==> 1 <= #[trigger] batches@[k]@.len() <= 100,
            out@.len() == j,
            forall|k: int|
                0 <= k < j ==> #[trigger] out@[k]@ == by_ids_url_spec(string_views(batch_spec(ids@, k))),
        decreases batches@.len() - j,
    {
        let url = TwitApiUrl::users_by_ids_url(batches[j].as_slice());
        assert(batches@[j as int]@.len() >= 1);
        match url {
            Ok(u) => {
                assert(string_views(batches@[j as int]@) == string_views(batch_spec(ids@, j as int)));
                out.push(u);
            },
            Err(_) => {
                assert(false);
            },
        }
        j = j + 1;
    }
    out
}

} // verus!
