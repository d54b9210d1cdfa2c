//! The state of one board and the cycle that brings it up to date.
//!
//! A cycle fetches the feed, finds the new items, downloads the newest of
//! them alone and then the others side by side, and moves the marker of the
//! board to the newest. Fetching, downloading and writing to disk are the
//! caller's: a [`Cycle`] says what to do next and is told what came of it.

use vstd::prelude::*;
use vstd::string::*;
use crate::download::{download_pin, spec_begin, spec_url_base_of, Download, DownloadView};
use crate::error::Error;
use crate::feed::{
    count_new, lemma_window_len_bound, parse_feed, spec_feed, window, FeedItem, FeedItemView,
};
use crate::text::{ends_with, starts_with, str_eq};

verus! {

/// The state of a board: its owner, its name, the address of its feed, its
/// directory on disk, and the identifier of the newest item that was
/// downloaded.
#[derive(Debug, PartialEq, Eq)]
pub struct Cushion {
    user: String,
    board: String,
    url: String,
    path: String,
    latest_download: String,
}

/// A [`Cushion`] with its strings as sequences of characters.
pub struct CushionView {
    pub user: Seq<char>,
    pub board: Seq<char>,
    pub url: Seq<char>,
    pub path: Seq<char>,
    pub latest_download: Seq<char>,
}

impl DeepView for Cushion {
    type V = CushionView;

    open spec fn deep_view(&self) -> CushionView {
        self@
    }
}

impl View for Cushion {
    type V = CushionView;

    closed spec fn view(&self) -> CushionView {
        CushionView {
            user: self.user@,
            board: self.board@,
            url: self.url@,
            path: self.path@,
            latest_download: self.latest_download@,
        }
    }
}

impl Clone for Cushion {
    fn clone(&self) -> (copy: Self)
        ensures
            copy@ == self@,
    {
        Cushion::restore(
            self.user.clone(),
            self.board.clone(),
            self.url.clone(),
            self.path.clone(),
            self.latest_download.clone(),
        )
    }
}

/// The address of the feed of a board: `url` itself where it is the full
/// address of a feed, else the feed of the board `url` of `user`.
pub open spec fn spec_feed_url(user: Seq<char>, url: Seq<char>) -> Seq<char> {
    if "https://www.pinterest"@.is_prefix_of(url) && ".rss"@.is_suffix_of(url) {
        url
    } else {
        "https://www.pinterest.com/"@ + user + "/"@ + url + ".rss"@
    }
}

/// The address of the feed of a board, from the full address of the feed or
/// from the last path segment of the address of the board.
pub fn feed_url(user: &str, url: &str) -> (feed: String)
    ensures
        feed@ == spec_feed_url(user@, url@),
{
    if starts_with(url, "https://www.pinterest") && ends_with(url, ".rss") {
        String::from_str(url)
    } else {
        let mut feed = String::from_str("https://www.pinterest.com/");
        feed.append(user);
        feed.append("/");
        feed.append(url);
        feed.append(".rss");
        feed
    }
}

impl Cushion {
    /// A new cushion for the board `board` of `user`, kept in the directory
    /// `path`. `url` is the address of its feed or the last path segment of
    /// the address of the board. Nothing has been downloaded yet.
    pub fn new(path: String, user: String, board: String, url: String) -> (cushion: Cushion)
        ensures
            cushion@ == (CushionView {
                user: user@,
                board: board@,
                url: spec_feed_url(user@, url@),
                path: path@,
                latest_download: Seq::<char>::empty(),
            }),
    {
        let url = feed_url(user.as_str(), url.as_str());
        Cushion { user, board, url, path, latest_download: String::new() }
    }

    /// The cushion that was saved with these fields.
    pub fn restore(
        user: String,
        board: String,
        url: String,
        path: String,
        latest_download: String,
    ) -> (cushion: Cushion)
        ensures
            cushion@ == (CushionView {
                user: user@,
                board: board@,
                url: url@,
                path: path@,
                latest_download: latest_download@,
            }),
    {
        Cushion { user, board, url, path, latest_download }
    }

    /// The owner of the board.
    pub fn user(&self) -> (user: &str)
        ensures
            user@ == self@.user,
    {
        self.user.as_str()
    }

    /// The name of the board.
    pub fn _board(&self) -> (board: &str)
        ensures
            board@ == self@.board,
    {
        self.board.as_str()
    }

    /// The address of the feed of the board.
    pub fn url(&self) -> (url: &str)
        ensures
            url@ == self@.url,
    {
        self.url.as_str()
    }

    /// The directory of the board on disk.
    pub fn path(&self) -> (path: &str)
        ensures
            path@ == self@.path,
    {
        self.path.as_str()
    }

    /// The identifier of the newest item that was downloaded: empty before
    /// the first download.
    pub fn latest_download(&self) -> (marker: &str)
        ensures
            marker@ == self@.latest_download,
    {
        self.latest_download.as_str()
    }
}

/// No two of the cushions are kept in the same directory.
pub open spec fn distinct_paths(cushions: Seq<CushionView>) -> bool {
    forall|i: int, j: int|
        0 <= i < j < cushions.len() ==> (#[trigger] cushions[i]).path != (
        #[trigger] cushions[j]).path
}

/// Whether each of the cushions has a directory to itself, as it must while
/// their boards are polled side by side.
pub fn exclusive(cushions: &Vec<Cushion>) -> (alone: Result<(), Error>)
    ensures
        alone is Ok <==> distinct_paths(cushions.deep_view()),
        alone matches Err(e) ==> e == Error::ConfigError,
{
    let ghost all = cushions.deep_view();
    let mut j: usize = 0;
    while j < cushions.len()
        invariant
            0 <= j <= cushions.len(),
            all == cushions.deep_view(),
            forall|a: int, b: int|
                0 <= a < b < j ==> (#[trigger] all[a]).path != (#[trigger] all[b]).path,
        decreases cushions.len() - j,
    {
        let mut i: usize = 0;
        while i < j
            invariant
                0 <= i <= j < cushions.len(),
                all == cushions.deep_view(),
                forall|a: int| 0 <= a < i ==> (#[trigger] all[a]).path != all[j as int].path,
            decreases j - i,
        {
            assert(all[i as int] == cushions@[i as int]@);
            assert(all[j as int] == cushions@[j as int]@);
            if str_eq(cushions[i].path(), cushions[j].path()) {
                return Err(Error::ConfigError);
            }
            i = i + 1;
        }
        j = j + 1;
    }
    Ok(())
}

/// What a [`Cycle`] is told.
#[derive(Debug, PartialEq, Eq)]
pub enum Event {
    /// The feed was fetched and read: its items, newest first.
    Feed(Vec<FeedItem>),
    /// The feed could not be fetched, or what came is no feed.
    NoFeed(Error),
    /// One of the downloads that were asked for came to its end: whether a
    /// file was saved, or why the download failed.
    Outcome(Result<bool, Error>),
}

/// An [`Event`] with its items in their views.
pub enum EventView {
    Feed(Seq<FeedItemView>),
    NoFeed(Error),
    Outcome(Result<bool, Error>),
}

impl View for Event {
    type V = EventView;

    open spec fn view(&self) -> EventView {
        match self {
            Event::Feed(items) => EventView::Feed(items.deep_view()),
            Event::NoFeed(e) => EventView::NoFeed(*e),
            Event::Outcome(r) => EventView::Outcome(*r),
        }
    }
}

/// What a [`Cycle`] asks its caller to do.
#[derive(Debug, PartialEq, Eq)]
pub enum Action {
    /// Fetch the feed at this address and tell what came.
    Fetch { url: String },
    /// Start the download of each of these items, all at once, and tell the
    /// outcome of each as it ends.
    Download { items: Vec<FeedItem> },
    /// Start nothing: outcomes are still awaited, or the cycle is over.
    Wait,
    /// The cycle ended with this many files saved, or with this error. Save
    /// the cushion where `persist` is set.
    Finish { outcome: Result<usize, Error>, persist: bool },
}

/// An [`Action`] with its strings and items in their views.
pub enum ActionView {
    Fetch { url: Seq<char> },
    Download { items: Seq<FeedItemView> },
    Wait,
    Finish { outcome: Result<nat, Error>, persist: bool },
}

impl View for Action {
    type V = ActionView;

    open spec fn view(&self) -> ActionView {
        match self {
            Action::Fetch { url } => ActionView::Fetch { url: url@ },
            Action::Download { items } => ActionView::Download { items: items.deep_view() },
            Action::Wait => ActionView::Wait,
            Action::Finish { outcome, persist } => ActionView::Finish {
                outcome: match outcome {
                    Ok(n) => Ok(*n as nat),
                    Err(e) => Err(*e),
                },
                persist: *persist,
            },
        }
    }
}

#[derive(Debug)]
enum Phase {
    Fetching,
    Boundary { marker: String, rest: Vec<FeedItem> },
    Remainder { pending: usize, downloaded: usize, advanced: bool },
    Finished,
}

/// One pass over the feed of a board, from the fetch to its end.
#[derive(Debug)]
pub struct Cycle {
    phase: Phase,
}

/// The state of a [`Cycle`].
pub enum CycleView {
    /// The feed is being fetched.
    Fetching,
    /// The newest of the new items is being downloaded. `marker` is its
    /// identifier, `rest` are the other new items.
    Boundary { marker: Seq<char>, rest: Seq<FeedItemView> },
    /// The other new items are being downloaded: `pending` outcomes are
    /// awaited, `downloaded` files were saved so far, and `advanced` tells
    /// whether the newest item moved the marker.
    Remainder { pending: nat, downloaded: nat, advanced: bool },
    /// The cycle is over.
    Finished,
}

impl View for Cycle {
    type V = CycleView;

    closed spec fn view(&self) -> CycleView {
        match self.phase {
            Phase::Fetching => CycleView::Fetching,
            Phase::Boundary { marker, rest } => CycleView::Boundary {
                marker: marker@,
                rest: rest.deep_view(),
            },
            Phase::Remainder { pending, downloaded, advanced } => CycleView::Remainder {
                pending: pending as nat,
                downloaded: downloaded as nat,
                advanced,
            },
            Phase::Finished => CycleView::Finished,
        }
    }
}

/// The event that the answer to a fetch stands for. An answer without a
/// success status brings no feed; the body of another answer is a feed with
/// its items, or it is no feed.
pub open spec fn spec_fetched(success: bool, body: Seq<u8>) -> EventView {
    if !success {
        EventView::NoFeed(Error::RemoteError)
    } else {
        match spec_feed(body) {
            Some(items) => EventView::Feed(items),
            None => EventView::NoFeed(Error::RssError),
        }
    }
}

/// The marker that an item leaves behind: its identifier, or the empty
/// marker where it has none.
pub open spec fn marker_of(item: FeedItemView) -> Seq<char> {
    match item.id {
        Some(id) => id,
        None => Seq::<char>::empty(),
    }
}

/// The number of files that an outcome stands for.
pub open spec fn saved(outcome: Result<bool, Error>) -> nat {
    if outcome == Ok::<bool, Error>(true) {
        1
    } else {
        0
    }
}

/// A cushion, a cycle on it, and what the cycle asks for.
pub struct Next {
    pub cushion: CushionView,
    pub cycle: CycleView,
    pub action: ActionView,
}

/// How a cycle ends: with this many files saved. The cushion is to be saved
/// where a file was saved or the marker moved.
pub open spec fn spec_finish(cushion: CushionView, downloaded: nat, advanced: bool) -> Next {
    Next {
        cushion,
        cycle: CycleView::Finished,
        action: ActionView::Finish { outcome: Ok(downloaded), persist: downloaded >= 1 || advanced },
    }
}

/// What follows on `event` for `cushion` and a cycle in state `cycle`.
///
/// * While the feed is fetched: a feed without new items ends the cycle with
///   no file saved and nothing to persist; a feed with new items sends the
///   newest of them off alone; no feed ends the cycle with the error.
/// * While the newest item is downloaded: its outcome, whatever it is, moves
///   the marker to that item, and sends the other new items off together, or
///   ends the cycle where there are none.
/// * While the others are downloaded: each outcome is counted, and the last
///   one ends the cycle.
/// * An event that the cycle does not await changes nothing.
pub open spec fn spec_update(cushion: CushionView, cycle: CycleView, event: EventView) -> Next {
    match (cycle, event) {
        (CycleView::Fetching, EventView::Feed(items)) => {
            let fresh = window(items, cushion.latest_download);
            if fresh.len() == 0 {
                Next {
                    cushion,
                    cycle: CycleView::Finished,
                    action: ActionView::Finish { outcome: Ok(0), persist: false },
                }
            } else {
                Next {
                    cushion,
                    cycle: CycleView::Boundary {
                        marker: marker_of(fresh[0]),
                        rest: fresh.subrange(1, fresh.len() as int),
                    },
                    action: ActionView::Download { items: fresh.subrange(0, 1) },
                }
            }
        },
        (CycleView::Fetching, EventView::NoFeed(e)) => Next {
            cushion,
            cycle: CycleView::Finished,
            action: ActionView::Finish { outcome: Err(e), persist: false },
        },
        (CycleView::Boundary { marker, rest }, EventView::Outcome(outcome)) => {
            let advanced = marker != cushion.latest_download;
            let moved = CushionView { latest_download: marker, ..cushion };
            if rest.len() == 0 {
                spec_finish(moved, saved(outcome), advanced)
            } else {
                Next {
                    cushion: moved,
                    cycle: CycleView::Remainder {
                        pending: rest.len(),
                        downloaded: saved(outcome),
                        advanced,
                    },
                    action: ActionView::Download { items: rest },
                }
            }
        },
        (CycleView::Remainder { pending, downloaded, advanced }, EventView::Outcome(outcome)) => {
            if pending <= 1 {
                spec_finish(cushion, downloaded + saved(outcome), advanced)
            } else {
                Next {
                    cushion,
                    cycle: CycleView::Remainder {
                        pending: (pending - 1) as nat,
                        downloaded: downloaded + saved(outcome),
                        advanced,
                    },
                    action: ActionView::Wait,
                }
            }
        },
        _ => Next { cushion, cycle, action: ActionView::Wait },
    }
}

impl Event {
    /// The event that the answer to a fetch stands for: `success` tells
    /// whether it came with a success status, `body` is what it carried.
    pub fn fetched(success: bool, body: &[u8]) -> (event: Event)
        ensures
            event@ == spec_fetched(success, body@),
    {
        if !success {
            return Event::NoFeed(Error::RemoteError);
        }
        match parse_feed(body) {
            Ok(items) => Event::Feed(items),
            Err(e) => Event::NoFeed(e),
        }
    }
}

impl Cycle {
    #[verifier::type_invariant]
    spec fn counts_fit(self) -> bool {
        match self.phase {
            Phase::Boundary { marker, rest } => rest.len() < usize::MAX,
            Phase::Remainder { pending, downloaded, advanced } => pending >= 1 && pending
                + downloaded <= usize::MAX,
            _ => true,
        }
    }

    /// Whether the cycle is over.
    pub fn is_finished(&self) -> (over: bool)
        ensures
            over == (self@ is Finished),
    {
        match self.phase {
            Phase::Finished => true,
            _ => false,
        }
    }
}

impl Cushion {
    /// Begins a cycle: the feed is to be fetched.
    pub fn begin(&self) -> (start: (Cycle, Action))
        ensures
            start.0@ == CycleView::Fetching,
            start.1@ == (ActionView::Fetch { url: self@.url }),
    {
        (Cycle { phase: Phase::Fetching }, Action::Fetch { url: self.url.clone() })
    }

    /// Begins the download of `item` into the directory of the board. An
    /// item without a description fails at once.
    pub fn download(&self, item: &FeedItem) -> (d: Download)
        ensures
            d@ == match item@.content {
                Some(content) => spec_begin(spec_url_base_of(content)),
                None => DownloadView::Finished { outcome: Err(Error::MissingDescriptionError) },
            },
    {
        match &item.content {
            Some(content) => download_pin(content.as_str()),
            None => Download::Finished { outcome: Err(Error::MissingDescriptionError) },
        }
    }

    /// Updates the cushion and the cycle with what happened, and says what
    /// is to be done next. The marker moves when the outcome of the newest
    /// new item comes in, and at no other time.
    pub fn update(&mut self, cycle: Cycle, event: Event) -> (next: (Cycle, Action))
        ensures
            final(self)@ == spec_update(old(self)@, cycle@, event@).cushion,
            next.0@ == spec_update(old(self)@, cycle@, event@).cycle,
            next.1@ == spec_update(old(self)@, cycle@, event@).action,
    {
        proof {
            use_type_invariant(&cycle);
        }
        match cycle.phase {
            Phase::Fetching => match event {
                Event::Feed(items) => {
                    let ghost feed = items.deep_view();
                    let n = count_new(&items, self.latest_download.as_str());
                    if n == 0 {
                        (
                            Cycle { phase: Phase::Finished },
                            Action::Finish { outcome: Ok(0), persist: false },
                        )
                    } else {
                        let mut first = items;
                        first.truncate(n);
                        let rest = first.split_off(1);
                        let marker = match &first[0].id {
                            Some(id) => id.clone(),
                            None => String::new(),
                        };
                        proof {
                            let fresh = window(feed, self@.latest_download);
                            assert(first.deep_view() =~= fresh.subrange(0, 1));
                            assert(rest.deep_view() =~= fresh.subrange(1, fresh.len() as int));
                        }
                        (
                            Cycle { phase: Phase::Boundary { marker, rest } },
                            Action::Download { items: first },
                        )
                    }
                },
                Event::NoFeed(e) => (
                    Cycle { phase: Phase::Finished },
                    Action::Finish { outcome: Err(e), persist: false },
                ),
                Event::Outcome(_) => (Cycle { phase: Phase::Fetching }, Action::Wait),
            },
            Phase::Boundary { marker, rest } => match event {
                Event::Outcome(outcome) => {
                    let downloaded: usize = match outcome {
                        Ok(true) => 1,
                        _ => 0,
                    };
                    let advanced = !str_eq(marker.as_str(), self.latest_download.as_str());
                    self.latest_download = marker;
                    if rest.len() == 0 {
                        (
                            Cycle { phase: Phase::Finished },
                            Action::Finish {
                                outcome: Ok(downloaded),
                                persist: downloaded >= 1 || advanced,
                            },
                        )
                    } else {
                        (
                            Cycle {
                                phase: Phase::Remainder { pending: rest.len(), downloaded, advanced },
                            },
                            Action::Download { items: rest },
                        )
                    }
                },
                _ => (Cycle { phase: Phase::Boundary { marker, rest } }, Action::Wait),
            },
            Phase::Remainder { pending, downloaded, advanced } => match event {
                Event::Outcome(outcome) => {
                    let downloaded: usize = match outcome {
                        Ok(true) => downloaded + 1,
                        _ => downloaded,
                    };
                    if pending <= 1 {
                        (
                            Cycle { phase: Phase::Finished },
                            Action::Finish {
                                outcome: Ok(downloaded),
                                persist: downloaded >= 1 || advanced,
                            },
                        )
                    } else {
                        (
                            Cycle {
                                phase: Phase::Remainder {
                                    pending: pending - 1,
                                    downloaded,
                                    advanced,
                                },
                            },
                            Action::Wait,
                        )
                    }
                },
                _ => (Cycle { phase: Phase::Remainder { pending, downloaded, advanced } }, Action::Wait),
            },
            Phase::Finished => (Cycle { phase: Phase::Finished }, Action::Wait),
        }
    }
}

/// What has become of `start` once these outcomes of downloads have come in,
/// in this order.
pub open spec fn spec_outcomes(start: Next, outcomes: Seq<Result<bool, Error>>) -> Next
    decreases outcomes.len(),
{
    if outcomes.len() == 0 {
        start
    } else {
        let before = spec_outcomes(start, outcomes.drop_last());
        spec_update(before.cushion, before.cycle, EventView::Outcome(outcomes.last()))
    }
}

/// Where a cycle on `cushion` stands once the feed has come with `items` and
/// these outcomes of downloads have come in, in this order.
pub open spec fn spec_cycle(
    cushion: CushionView,
    items: Seq<FeedItemView>,
    outcomes: Seq<Result<bool, Error>>,
) -> Next {
    spec_outcomes(spec_update(cushion, CycleView::Fetching, EventView::Feed(items)), outcomes)
}

/// The number of files that these outcomes stand for.
pub open spec fn count_saved(outcomes: Seq<Result<bool, Error>>) -> nat
    decreases outcomes.len(),
{
    if outcomes.len() == 0 {
        0
    } else {
        count_saved(outcomes.drop_last()) + saved(outcomes.last())
    }
}

/// `cushion` with its marker on the newest item of `items`.
pub open spec fn spec_moved(cushion: CushionView, items: Seq<FeedItemView>) -> CushionView {
    CushionView { latest_download: marker_of(items[0]), ..cushion }
}

/// The course of a cycle, outcome by outcome. With `n` new items: before the
/// first outcome the newest item is out alone; from the first outcome on the
/// marker is on the newest item; up to the `n`-th the outcomes are counted;
/// the `n`-th ends the cycle; what comes after it changes nothing. Without
/// new items the cycle is over as soon as the feed has come.
pub proof fn lemma_cycle_course(
    cushion: CushionView,
    items: Seq<FeedItemView>,
    outcomes: Seq<Result<bool, Error>>,
)
    ensures
        ({
            let fresh = window(items, cushion.latest_download);
            let n = fresh.len();
            let k = outcomes.len();
            let now = spec_cycle(cushion, items, outcomes);
            let moved = spec_moved(cushion, items);
            let advanced = marker_of(items[0]) != cushion.latest_download;
            &&& n <= items.len()
            &&& n >= 1 ==> fresh[0] == items[0]
            &&& n == 0 ==> now.cushion == cushion && now.cycle is Finished
            &&& n == 0 && k == 0 ==> now.action == (ActionView::Finish {
                outcome: Ok(0),
                persist: false,
            })
            &&& n == 0 && k >= 1 ==> now.action is Wait
            &&& n >= 1 && k == 0 ==> now == (Next {
                cushion,
                cycle: CycleView::Boundary {
                    marker: marker_of(items[0]),
                    rest: fresh.subrange(1, n as int),
                },
                action: ActionView::Download { items: fresh.subrange(0, 1) },
            })
            &&& n >= 1 && 1 <= k < n ==> now.cushion == moved && now.cycle == (
            CycleView::Remainder {
                pending: (n - k) as nat,
                downloaded: count_saved(outcomes),
                advanced,
            })
            &&& n >= 2 && k == 1 ==> now.action == (ActionView::Download {
                items: fresh.subrange(1, n as int),
            })
            &&& n >= 1 && 1 < k < n ==> now.action is Wait
            &&& n >= 1 && k == n ==> now == spec_finish(moved, count_saved(outcomes), advanced)
            &&& n >= 1 && k > n ==> now.cushion == moved && now.cycle is Finished && now.action is Wait
        }),
    decreases outcomes.len(),
{
    lemma_window_len_bound(items, cushion.latest_download);
    if outcomes.len() > 0 {
        lemma_cycle_course(cushion, items, outcomes.drop_last());
        if outcomes.len() == 1 {
        }
    }
}

/// A feed without new items ends the cycle at once: no download is asked
/// for, no file is counted, nothing is to be saved, and the cushion stays as
/// it is, whatever the cycle is told afterwards.
pub proof fn lemma_empty_window_changes_nothing(
    cushion: CushionView,
    items: Seq<FeedItemView>,
    outcomes: Seq<Result<bool, Error>>,
)
    requires
        window(items, cushion.latest_download).len() == 0,
    ensures
        spec_cycle(cushion, items, Seq::empty()) == (Next {
            cushion,
            cycle: CycleView::Finished,
            action: ActionView::Finish { outcome: Ok(0), persist: false },
        }),
        spec_cycle(cushion, items, outcomes).cushion == cushion,
        !(spec_cycle(cushion, items, outcomes).action is Download),
{
    lemma_cycle_course(cushion, items, Seq::empty());
    lemma_cycle_course(cushion, items, outcomes);
}

/// A cycle that has the outcome of each of its new items ends with the
/// number of files saved, the first outcome being that of the newest item;
/// the marker is on the newest item whatever the outcomes were; and the
/// cushion is to be saved where a file was saved or the marker moved.
pub proof fn lemma_complete_cycle(
    cushion: CushionView,
    items: Seq<FeedItemView>,
    outcomes: Seq<Result<bool, Error>>,
)
    requires
        outcomes.len() >= 1,
        outcomes.len() == window(items, cushion.latest_download).len(),
    ensures
        spec_cycle(cushion, items, outcomes) == (Next {
            cushion: spec_moved(cushion, items),
            cycle: CycleView::Finished,
            action: ActionView::Finish {
                outcome: Ok(count_saved(outcomes)),
                persist: count_saved(outcomes) >= 1 || marker_of(items[0])
                    != cushion.latest_download,
            },
        }),
{
    lemma_cycle_course(cushion, items, outcomes);
}

/// Where a cycle ends with at least one file saved, the cushion is to be
/// saved, and its marker is the identifier of the newest item of the feed,
/// whatever came of the download of that item. Nothing else of it changed.
pub proof fn lemma_marker_after_cycle(
    cushion: CushionView,
    items: Seq<FeedItemView>,
    outcomes: Seq<Result<bool, Error>>,
    downloaded: nat,
    persist: bool,
)
    requires
        spec_cycle(cushion, items, outcomes).action == (ActionView::Finish {
            outcome: Ok(downloaded),
            persist,
        }),
        downloaded >= 1,
    ensures
        persist,
        items.len() >= 1,
        spec_cycle(cushion, items, outcomes).cushion == spec_moved(cushion, items),
{
    lemma_cycle_course(cushion, items, outcomes);
}

/// The marker moves to nothing but the identifier of the newest item of the
/// feed that was fetched, and whenever it moved by the end of a cycle the
/// cushion is to be saved, also where no file was saved.
pub proof fn lemma_marker_moves_to_newest(
    cushion: CushionView,
    items: Seq<FeedItemView>,
    outcomes: Seq<Result<bool, Error>>,
)
    ensures
        spec_cycle(cushion, items, outcomes).cushion == cushion || spec_cycle(
            cushion,
            items,
            outcomes,
        ).cushion == spec_moved(cushion, items),
        spec_cycle(cushion, items, outcomes).action matches ActionView::Finish { persist, .. }
            ==> (persist || spec_cycle(cushion, items, outcomes).cushion == cushion),
{
    lemma_cycle_course(cushion, items, outcomes);
}

} // verus!
