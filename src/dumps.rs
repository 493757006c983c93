//! The rendered form of a compiled collection: one block per item.

use crate::compile::LikedTweets;
use crate::model::{TwitLikeDatum, TwitLikeUrl};
use vstd::prelude::*;

verus! {

/// The bulleted lines of an item's links.
pub open spec fn md_links(urls: Seq<TwitLikeUrl>) -> Seq<char>
    decreases urls.len(),
{
    if urls.len() == 0 {
        Seq::empty()
    } else {
        md_links(urls.drop_last()) + " - ["@ + urls.last().display_url@ + "]("@
            + urls.last().expanded_url@ + ")\n"@
    }
}

/// The links of an item, none where it has no entities or no links.
pub open spec fn item_urls(d: TwitLikeDatum) -> Seq<TwitLikeUrl> {
    match d.entities {
        Some(e) => match e.urls {
            Some(u) => u@,
            None => Seq::empty(),
        },
        None => Seq::empty(),
    }
}

/// The author line of an item, where its author is attached.
pub open spec fn md_author(d: TwitLikeDatum) -> Seq<char> {
    match d.user {
        Some(u) => "["@ + u.name@ + "]("@ + match u.url {
            Some(l) => l@,
            None => Seq::empty(),
        } + ") id("@ + d.author_id@ + ")<br>\n"@,
        None => Seq::empty(),
    }
}

/// The block of one item: author line, italic timestamp, text, links and
/// one blank separator line.
pub open spec fn md_item(d: TwitLikeDatum) -> Seq<char> {
    md_author(d) + "*"@ + d.created_at@ + "*<br>\n"@ + d.text@ + "<br>\n"@ + md_links(item_urls(d))
        + "\n"@
}

/// The blocks of a sequence of items, in order.
pub open spec fn markdown_spec(items: Seq<TwitLikeDatum>) -> Seq<char>
    decreases items.len(),
{
    if items.len() == 0 {
        Seq::empty()
    } else {
        markdown_spec(items.drop_last()) + md_item(items.last())
    }
}

fn append_links(out: &mut String, urls: &Vec<TwitLikeUrl>)
    ensures
        final(out)@ == old(out)@ + md_links(urls@),
{
    let ghost start = out@;
    let mut i: usize = 0;
    while i < urls.len()
        invariant
            i <= urls@.len(),
            out@ == start + md_links(urls@.subrange(0, i as int)),
        decreases urls@.len() - i,
    {
        assert(urls@.subrange(0, i + 1).drop_last() =~= urls@.subrange(0, i as int));
        out.append(" - [");
        out.append(urls[i].display_url.as_str());
        out.append("](");
        out.append(urls[i].expanded_url.as_str());
        out.append(")\n");
        i = i + 1;
        assert(out@ =~= start + md_links(urls@.subrange(0, i as int)));
    }
    assert(urls@.subrange(0, urls@.len() as int) =~= urls@);
}

fn append_item(out: &mut String, d: &TwitLikeDatum)
    ensures
        final(out)@ == old(out)@ + md_item(*d),
{
    let ghost start = out@;
    match &d.user {
        Some(u) => {
            out.append("[");
            out.append(u.name.as_str());
            out.append("](");
            match &u.url {
                Some(l) => out.append(l.as_str()),
                None => {},
            }
            out.append(") id(");
            out.append(d.author_id.as_str());
            out.append(")<br>\n");
        },
        None => {},
    }
    assert(out@ =~= start + md_author(*d));
    out.append("*");
    out.append(d.created_at.as_str());
    out.append("*<br>\n");
    out.append(d.text.as_str());
    out.append("<br>\n");
    let ghost mid = out@;
    match &d.entities {
        Some(e) => match &e.urls {
            Some(urls) => append_links(out, urls),
            None => {},
        },
        None => {},
    }
    assert(out@ =~= mid + md_links(item_urls(*d)));
    out.append("\n");
    assert(out@ =~= start + md_item(*d));
}

/// Renders the collection: for each item, the author as a link with the
/// author id, the italic timestamp, the text, a bulleted list of its links
/// and a blank separator.
pub fn to_markdown(liked_tweets: &LikedTweets) -> (r: String)
    ensures
        r@ == markdown_spec(liked_tweets.tweets@),
{
    let items = &liked_tweets.tweets;
    let mut out = String::new();
    let mut i: usize = 0;
    while i < items.len()
        invariant
            i <= items@.len(),
            out@ == markdown_spec(items@.subrange(0, i as int)),
        decreases items@.len() - i,
    {
        assert(items@.subrange(0, i + 1).drop_last() =~= items@.subrange(0, i as int));
        append_item(&mut out, &items[i]);
        i = i + 1;
    }
    assert(items@.subrange(0, items@.len() as int) =~= items@);
    out
}

} // verus!
