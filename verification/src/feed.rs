//! A fetched feed: its items, newest first, and which of them are new.

use vstd::prelude::*;
use vstd::string::*;
use crate::body::{is_readable, readable};
use crate::error::Error;
use crate::text::str_eq;

verus! {

/// One entry of a feed.
#[derive(Debug, PartialEq, Eq)]
pub struct FeedItem {
    /// The identifier that the feed gives the item, if it gives one.
    pub id: Option<String>,
    /// The description of the item: markup that refers to an image.
    pub content: Option<String>,
}

/// A [`FeedItem`] with its strings as sequences of characters.
pub struct FeedItemView {
    pub id: Option<Seq<char>>,
    pub content: Option<Seq<char>>,
}

impl View for FeedItem {
    type V = FeedItemView;

    open spec fn view(&self) -> FeedItemView {
        FeedItemView { id: self.id.deep_view(), content: self.content.deep_view() }
    }
}

impl Clone for FeedItem {
    fn clone(&self) -> (copy: Self)
        ensures
            copy@ == self@,
    {
        FeedItem {
            id: match &self.id {
                Some(id) => Some(id.clone()),
                None => None,
            },
            content: match &self.content {
                Some(content) => Some(content.clone()),
                None => None,
            },
        }
    }
}

impl DeepView for FeedItem {
    type V = FeedItemView;

    open spec fn deep_view(&self) -> FeedItemView {
        self@
    }
}

/// What the `rss` crate reads from `bytes`: nothing where they are no RSS
/// channel, else the items of the channel in the order in which the channel
/// gives them, each with the value of its GUID and with its description.
pub uninterp spec fn rss_items(bytes: Seq<u8>) -> Option<Seq<FeedItemView>>;

/// Reads a channel with `rss::Channel::read_from` and takes from each of its
/// items, in order, `guid().value()` as the identifier and `description()` as
/// the content; an error of the crate becomes nothing.
///
/// The crate does not come back from every body. It unwraps what it parses
/// of the texts of the elements `updatePeriod` and `updateFrequency` of the
/// syndication module; it reads the elements inside an element with a
/// prefix by calling itself, one call deeper for each level; and the reader
/// beneath it counts the depth of skipped elements in 32 bits. The `requires`
/// leaves out every body that holds one of the two names, in which a tag
/// that may open a prefixed element is followed by anything but the end of
/// that element, or that is too long for the counter to hold its depth. For the bodies that remain the contract says no more than
/// that the outcome is the one that [`rss_items`] names: the bytes alone
/// decide what is read.
#[verifier::external_body]
fn read_channel(bytes: &[u8]) -> (read: Option<Vec<FeedItem>>)
    requires
        readable(bytes@),
    ensures
        read.deep_view() == rss_items(bytes@),
{
    let channel = rss::Channel::read_from(bytes).ok()?;
    Some(
        channel.items().iter().map(
            |item|
                FeedItem {
                    id: item.guid().map(|guid| guid.value().to_string()),
                    content: item.description().map(|text| text.to_string()),
                },
        ).collect(),
    )
}

/// The items of the feed that `bytes` are: those that the `rss` crate reads
/// from them, or nothing where the bytes are not handed to it or are no feed.
pub open spec fn spec_feed(bytes: Seq<u8>) -> Option<Seq<FeedItemView>> {
    if readable(bytes) {
        rss_items(bytes)
    } else {
        None
    }
}

/// Reads the items of a feed from the body of the answer that brought it. A
/// body that is not handed to the reader is no feed.
pub fn parse_feed(bytes: &[u8]) -> (parsed: Result<Vec<FeedItem>, Error>)
    ensures
        parsed is Ok <==> spec_feed(bytes@) is Some,
        parsed matches Ok(items) ==> Some(items.deep_view()) == spec_feed(bytes@),
        parsed matches Err(e) ==> e == Error::RssError,
{
    if !is_readable(bytes) {
        return Err(Error::RssError);
    }
    match read_channel(bytes) {
        Some(items) => Ok(items),
        None => Err(Error::RssError),
    }
}

/// Whether `item` is the one that `marker` remembers. An item without an
/// identifier is never that one, and an empty marker remembers none.
pub open spec fn is_marked(item: FeedItemView, marker: Seq<char>) -> bool {
    marker.len() > 0 && item.id == Some(marker)
}

/// The number of items at the front of `items` that come before the first one
/// that `marker` remembers: all of them if there is none.
pub open spec fn window_len(items: Seq<FeedItemView>, marker: Seq<char>) -> nat
    decreases items.len(),
{
    if items.len() == 0 || is_marked(items[0], marker) {
        0
    } else {
        1 + window_len(items.drop_first(), marker)
    }
}

/// The new items of a feed: those in front of the first one that `marker`
/// remembers.
pub open spec fn window(items: Seq<FeedItemView>, marker: Seq<char>) -> Seq<FeedItemView> {
    items.take(window_len(items, marker) as int)
}

/// The window never reaches past the feed.
pub proof fn lemma_window_len_bound(items: Seq<FeedItemView>, marker: Seq<char>)
    ensures
        window_len(items, marker) <= items.len(),
    decreases items.len(),
{
    if items.len() > 0 && !is_marked(items[0], marker) {
        lemma_window_len_bound(items.drop_first(), marker);
    }
}

/// The window ends exactly in front of the first remembered item: if none of
/// the first `n` items is remembered and the one after them is, or the feed
/// ends there, the window has `n` items.
pub proof fn lemma_window_len_is(items: Seq<FeedItemView>, marker: Seq<char>, n: int)
    requires
        0 <= n <= items.len(),
        forall|i: int| 0 <= i < n ==> !is_marked(#[trigger] items[i], marker),
        n < items.len() ==> is_marked(items[n], marker),
    ensures
        window_len(items, marker) == n,
    decreases items.len(),
{
    if n > 0 {
        lemma_window_len_is(items.drop_first(), marker, n - 1);
    }
}

/// A feed whose item at place `k` carries the marker, with no earlier item
/// that does, has as its new items exactly the `k` items in front of it.
pub proof fn lemma_window_before_marker(items: Seq<FeedItemView>, marker: Seq<char>, k: int)
    requires
        marker.len() > 0,
        0 <= k < items.len(),
        items[k].id == Some(marker),
        forall|i: int| 0 <= i < k ==> (#[trigger] items[i]).id != Some(marker),
    ensures
        window_len(items, marker) == k,
        window(items, marker) == items.take(k),
{
    lemma_window_len_is(items, marker, k);
}

/// With an empty marker, as before the first download, every item is new.
pub proof fn lemma_window_without_marker(items: Seq<FeedItemView>)
    ensures
        window_len(items, Seq::<char>::empty()) == items.len(),
        window(items, Seq::<char>::empty()) == items,
{
    lemma_window_len_is(items, Seq::<char>::empty(), items.len() as int);
}

/// Counts the new items of a feed: the items in front of the first one whose
/// identifier is `marker`.
pub fn count_new(items: &Vec<FeedItem>, marker: &str) -> (n: usize)
    ensures
        n == window_len(items.deep_view(), marker@),
        n <= items.len(),
{
    let ghost feed = items.deep_view();
    if marker.is_empty() {
        proof {
            lemma_window_len_is(feed, marker@, feed.len() as int);
        }
        return items.len();
    }
    let mut n: usize = 0;
    while n < items.len()
        invariant
            0 <= n <= items.len(),
            feed == items.deep_view(),
            marker@.len() > 0,
            forall|i: int| 0 <= i < n ==> !is_marked(#[trigger] feed[i], marker@),
        ensures
            0 <= n <= items.len(),
            forall|i: int| 0 <= i < n ==> !is_marked(#[trigger] feed[i], marker@),
            n < items.len() ==> is_marked(feed[n as int], marker@),
        decreases items.len() - n,
    {
        let found = match &items[n].id {
            Some(id) => str_eq(id.as_str(), marker),
            None => false,
        };
        if found {
            break;
        }
        n = n + 1;
    }
    proof {
        lemma_window_len_is(feed, marker@, n as int);
    }
    n
}

} // verus!
