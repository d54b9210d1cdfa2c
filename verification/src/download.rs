//! Locating and fetching the full-size image behind a feed item.
//!
//! A feed item shows a thumbnail. The full-size image lies under a sibling
//! address whose file extension is unknown, so the extensions are tried one
//! after the other. The network and the disk are the caller's: a [`Download`] says what
//! to do next and is told what came of it.

use vstd::prelude::*;
use vstd::string::*;
use crate::error::Error;
use crate::text::{after_last, last_segment};

verus! {

/// The file formats a full-size image is most commonly stored in.
#[derive(Clone, Copy, Debug, PartialEq, Eq, Structural)]
pub enum Extension {
    Jpg,
    Jpeg,
    Png,
    Webm,
    Tiff,
    Gif,
    Jfif,
    Jiff,
}

/// The extensions in the order in which they are tried.
pub open spec fn extensions() -> Seq<Extension> {
    seq![
        Extension::Jpg,
        Extension::Jpeg,
        Extension::Png,
        Extension::Webm,
        Extension::Tiff,
        Extension::Gif,
        Extension::Jfif,
        Extension::Jiff,
    ]
}

impl Extension {
    /// The extension as it is written at the end of a file name.
    pub open spec fn spec_str(self) -> Seq<char> {
        match self {
            Extension::Jpg => "jpg"@,
            Extension::Jpeg => "jpeg"@,
            Extension::Png => "png"@,
            Extension::Webm => "webm"@,
            Extension::Tiff => "tiff"@,
            Extension::Gif => "gif"@,
            Extension::Jfif => "jfif"@,
            Extension::Jiff => "jiff"@,
        }
    }

    /// The place of the extension in the order of trial, from 0.
    pub open spec fn rank(self) -> int {
        match self {
            Extension::Jpg => 0,
            Extension::Jpeg => 1,
            Extension::Png => 2,
            Extension::Webm => 3,
            Extension::Tiff => 4,
            Extension::Gif => 5,
            Extension::Jfif => 6,
            Extension::Jiff => 7,
        }
    }

    /// The extension that is tried after this one, if any is left.
    pub open spec fn spec_next(self) -> Option<Extension> {
        if self.rank() + 1 < extensions().len() {
            Some(extensions()[self.rank() + 1])
        } else {
            None
        }
    }

    /// The extension as it is written at the end of a file name.
    pub fn as_str(self) -> (s: &'static str)
        ensures
            s@ == self.spec_str(),
    {
        match self {
            Extension::Jpg => "jpg",
            Extension::Jpeg => "jpeg",
            Extension::Png => "png",
            Extension::Webm => "webm",
            Extension::Tiff => "tiff",
            Extension::Gif => "gif",
            Extension::Jfif => "jfif",
            Extension::Jiff => "jiff",
        }
    }

    /// The extension as an owned string.
    pub fn to_string(&self) -> (s: String)
        ensures
            s@ == self.spec_str(),
    {
        String::from_str(self.as_str())
    }

    /// The extension that is tried after this one, if any is left.
    pub fn next(self) -> (following: Option<Extension>)
        ensures
            following == self.spec_next(),
    {
        match self {
            Extension::Jpg => Some(Extension::Jpeg),
            Extension::Jpeg => Some(Extension::Png),
            Extension::Png => Some(Extension::Webm),
            Extension::Webm => Some(Extension::Tiff),
            Extension::Tiff => Some(Extension::Gif),
            Extension::Gif => Some(Extension::Jfif),
            Extension::Jfif => Some(Extension::Jiff),
            Extension::Jiff => None,
        }
    }
}

/// Every extension stands in the order of trial exactly once, at its rank.
pub proof fn lemma_extension_order(ext: Extension)
    ensures
        0 <= ext.rank() < extensions().len(),
        extensions()[ext.rank()] == ext,
        forall|i: int| 0 <= i < extensions().len() ==> (#[trigger] extensions()[i]).rank() == i,
{
}

/// What an image reference in a feed item looks like: the host, a size
/// directory, and the path of the image up to the dot before its extension.
pub const ASSET_PATTERN: &'static str = r#"(?m)img src="(https://i.pinimg.com)/\S*?/(\S*\.).*""#;

/// What the `regex` crate finds when it searches `text` for the leftmost match
/// of `pattern`: nothing where the pattern is no regular expression or the
/// text holds no match, else the text of each capture group in the order of
/// the opening brackets, group 0 being the whole match and an absent entry
/// standing for a group that took no part in the match.
pub uninterp spec fn regex_groups(pattern: Seq<char>, text: Seq<char>) -> Option<
    Seq<Option<Seq<char>>>,
>;

/// Compiles `pattern` with `regex::Regex::new` and searches `text` with
/// `Regex::captures`. The contract says no more than that the outcome is
/// the one that [`regex_groups`] names: what the search yields is decided by
/// the pattern and the text alone.
#[verifier::external_body]
fn capture_groups(pattern: &str, text: &str) -> (groups: Option<Vec<Option<String>>>)
    ensures
        groups.deep_view() == regex_groups(pattern@, text@),
{
    let re = regex::Regex::new(pattern).ok()?;
    let caps = re.captures(text)?;
    Some(caps.iter().map(|m| m.map(|g| g.as_str().to_string())).collect())
}

/// The base address that the capture groups of [`ASSET_PATTERN`] stand for:
/// the host, the directory of the full-size images, and the path up to the
/// dot.
pub open spec fn spec_url_base(groups: Seq<Option<Seq<char>>>) -> Option<Seq<char>> {
    if groups.len() >= 3 && groups[1] is Some && groups[2] is Some {
        Some(groups[1]->0 + "/originals/"@ + groups[2]->0)
    } else {
        None
    }
}

/// The base address of the full-size image that `descr` refers to, if it
/// refers to one.
pub open spec fn spec_url_base_of(descr: Seq<char>) -> Option<Seq<char>> {
    match regex_groups(ASSET_PATTERN@, descr) {
        Some(groups) => spec_url_base(groups),
        None => None,
    }
}

/// Builds the base address of the full-size image from the capture groups of
/// a match of [`ASSET_PATTERN`]. Groups that do not hold a host and a path give
/// nothing.
pub fn url_base_from_groups(groups: &Vec<Option<String>>) -> (base: Option<String>)
    ensures
        base.deep_view() == spec_url_base(groups.deep_view()),
{
    if groups.len() < 3 {
        return None;
    }
    match (&groups[1], &groups[2]) {
        (Some(host), Some(path)) => {
            let mut base = String::from_str(host.as_str());
            base.append("/originals/");
            base.append(path.as_str());
            Some(base)
        },
        _ => None,
    }
}

/// Normalises the description of a feed item into the address of the
/// full-size image without its file extension. Gives nothing if the
/// description refers to no image.
pub fn url_base_from_description(descr: &str) -> (base: Option<String>)
    ensures
        base.deep_view() == spec_url_base_of(descr@),
        regex_groups(ASSET_PATTERN@, descr@) is None ==> base is None,
{
    match capture_groups(ASSET_PATTERN, descr) {
        Some(groups) => url_base_from_groups(&groups),
        None => None,
    }
}

/// Extraction is a function of the description alone: equal descriptions
/// give equal results, and a description without a match gives nothing.
pub proof fn lemma_extraction_is_pure(a: Seq<char>, b: Seq<char>)
    ensures
        a == b ==> spec_url_base_of(a) == spec_url_base_of(b),
        regex_groups(ASSET_PATTERN@, a) is None ==> spec_url_base_of(a) is None,
{
}

/// Appends the file extension `ext` to a base address that ends in a dot.
pub fn url_base_with_extension(base: &str, ext: Extension) -> (url: String)
    ensures
        url@ == base@ + ext.spec_str(),
{
    let mut url = String::from_str(base);
    url.append(ext.as_str());
    url
}

/// The name under which an address is saved: its last path segment.
pub fn file_name_of(url: &str) -> (name: String)
    ensures
        name@ == last_segment(url@, '/'),
{
    String::from_str(after_last(url, '/'))
}

/// What came of the last thing a [`Download`] asked for.
#[derive(Clone, Copy, Debug, PartialEq, Eq, Structural)]
pub enum Reply {
    /// The server answered the request with a success status.
    Found,
    /// The server answered the request with another status.
    Refused,
    /// The request did not get through.
    Unreachable,
    /// The body was written to the file.
    Saved,
    /// Reading the body or writing the file failed.
    Failed(Error),
}

/// The download of one image, from the first request to its end.
#[derive(Debug, PartialEq, Eq)]
pub enum Download {
    /// A request for `base` with `ext` appended is under way.
    Probing { base: String, ext: Extension },
    /// The image was found and is being written to a file of this name.
    Saving { file_name: String },
    /// The download is over: whether a file was saved, or why it failed.
    Finished { outcome: Result<bool, Error> },
}

/// A [`Download`] with its strings as sequences of characters.
pub enum DownloadView {
    Probing { base: Seq<char>, ext: Extension },
    Saving { file_name: Seq<char> },
    Finished { outcome: Result<bool, Error> },
}

impl View for Download {
    type V = DownloadView;

    open spec fn view(&self) -> DownloadView {
        match self {
            Download::Probing { base, ext } => DownloadView::Probing { base: base@, ext: *ext },
            Download::Saving { file_name } => DownloadView::Saving { file_name: file_name@ },
            Download::Finished { outcome } => DownloadView::Finished { outcome: *outcome },
        }
    }
}

/// What a [`Download`] asks its caller to do.
#[derive(Debug, PartialEq, Eq)]
pub enum Request {
    /// Send a GET request to this address.
    Get { url: String },
    /// Write the body of the last answer to a file of this name.
    Save { file_name: String },
    /// Nothing more: the download ended with this outcome.
    Finish { outcome: Result<bool, Error> },
}

/// A [`Request`] with its strings as sequences of characters.
pub enum RequestView {
    Get { url: Seq<char> },
    Save { file_name: Seq<char> },
    Finish { outcome: Result<bool, Error> },
}

impl View for Request {
    type V = RequestView;

    open spec fn view(&self) -> RequestView {
        match self {
            Request::Get { url } => RequestView::Get { url: url@ },
            Request::Save { file_name } => RequestView::Save { file_name: file_name@ },
            Request::Finish { outcome } => RequestView::Finish { outcome: *outcome },
        }
    }
}

/// Where a download begins: with the first extension if there is a base
/// address, at its end without a file if there is none.
pub open spec fn spec_begin(base: Option<Seq<char>>) -> DownloadView {
    match base {
        Some(base) => DownloadView::Probing { base, ext: Extension::Jpg },
        None => DownloadView::Finished { outcome: Ok(false) },
    }
}

/// What a download asks for in each of its states.
pub open spec fn spec_request(d: DownloadView) -> RequestView {
    match d {
        DownloadView::Probing { base, ext } => RequestView::Get { url: base + ext.spec_str() },
        DownloadView::Saving { file_name } => RequestView::Save { file_name },
        DownloadView::Finished { outcome } => RequestView::Finish { outcome },
    }
}

/// The state that follows `d` on `reply`. The first success status ends the
/// probing; any other answer to a request moves on to the next extension,
/// and ends the download without a file when none is left. A reply that does
/// not answer what the download asked for changes nothing.
pub open spec fn spec_step(d: DownloadView, reply: Reply) -> DownloadView {
    match d {
        DownloadView::Probing { base, ext } => match reply {
            Reply::Found => DownloadView::Saving {
                file_name: last_segment(base + ext.spec_str(), '/'),
            },
            Reply::Refused | Reply::Unreachable => match ext.spec_next() {
                Some(next) => DownloadView::Probing { base, ext: next },
                None => DownloadView::Finished { outcome: Ok(false) },
            },
            _ => d,
        },
        DownloadView::Saving { file_name } => match reply {
            Reply::Saved => DownloadView::Finished { outcome: Ok(true) },
            Reply::Failed(e) => DownloadView::Finished { outcome: Err(e) },
            _ => d,
        },
        DownloadView::Finished { outcome } => d,
    }
}

/// The state that `d` is in after `replies`, taken in order.
pub open spec fn spec_run(d: DownloadView, replies: Seq<Reply>) -> DownloadView
    decreases replies.len(),
{
    if replies.len() == 0 {
        d
    } else {
        spec_step(spec_run(d, replies.drop_last()), replies.last())
    }
}

impl Download {
    /// Begins the download of the image at `base`, or ends it at once,
    /// without a file, where there is no image to get.
    pub fn begin(base: Option<String>) -> (d: Download)
        ensures
            d@ == spec_begin(base.deep_view()),
    {
        match base {
            Some(base) => Download::Probing { base, ext: Extension::Jpg },
            None => Download::Finished { outcome: Ok(false) },
        }
    }

    /// What the caller is to do now.
    pub fn request(&self) -> (r: Request)
        ensures
            r@ == spec_request(self@),
    {
        match self {
            Download::Probing { base, ext } => Request::Get {
                url: url_base_with_extension(base.as_str(), *ext),
            },
            Download::Saving { file_name } => Request::Save { file_name: file_name.clone() },
            Download::Finished { outcome } => Request::Finish { outcome: *outcome },
        }
    }

    /// Takes in what came of the last request and moves on.
    pub fn step(self, reply: Reply) -> (d: Download)
        ensures
            d@ == spec_step(self@, reply),
    {
        match self {
            Download::Probing { base, ext } => match reply {
                Reply::Found => {
                    let url = url_base_with_extension(base.as_str(), ext);
                    Download::Saving { file_name: file_name_of(url.as_str()) }
                },
                Reply::Refused | Reply::Unreachable => match ext.next() {
                    Some(next) => Download::Probing { base, ext: next },
                    None => Download::Finished { outcome: Ok(false) },
                },
                _ => Download::Probing { base, ext },
            },
            Download::Saving { file_name } => match reply {
                Reply::Saved => Download::Finished { outcome: Ok(true) },
                Reply::Failed(e) => Download::Finished { outcome: Err(e) },
                _ => Download::Saving { file_name },
            },
            Download::Finished { outcome } => Download::Finished { outcome },
        }
    }
}

/// Begins the download of the image that `pin_description`, the description
/// of a feed item, refers to. A description that refers to no image ends the
/// download at once, without a file and without a request.
pub fn download_pin(pin_description: &str) -> (d: Download)
    ensures
        d@ == spec_begin(spec_url_base_of(pin_description@)),
{
    Download::begin(url_base_from_description(pin_description))
}

/// A download that is over stays over, whatever it is told.
pub proof fn lemma_finished_is_final(d: DownloadView, replies: Seq<Reply>)
    requires
        d is Finished,
    ensures
        spec_run(d, replies) == d,
    decreases replies.len(),
{
    if replies.len() > 0 {
        lemma_finished_is_final(d, replies.drop_last());
    }
}

/// Probing stops at the first success: once a request was answered with a
/// success status, nothing that follows makes the download send another.
pub proof fn lemma_found_ends_probing(d: DownloadView, replies: Seq<Reply>)
    requires
        d is Probing,
    ensures
        !(spec_run(spec_step(d, Reply::Found), replies) is Probing),
        !(spec_request(spec_run(spec_step(d, Reply::Found), replies)) is Get),
    decreases replies.len(),
{
    if replies.len() > 0 {
        lemma_found_ends_probing(d, replies.drop_last());
    }
}

/// The extensions are tried in their order: after `k` requests that found
/// nothing the download asks for the extension of rank `k`, and after as
/// many as there are extensions it ends without a file.
pub proof fn lemma_probing_order(base: Seq<char>, replies: Seq<Reply>)
    requires
        replies.len() <= extensions().len(),
        forall|i: int|
            0 <= i < replies.len() ==> replies[i] == Reply::Refused || replies[i]
                == Reply::Unreachable,
    ensures
        replies.len() < extensions().len() ==> spec_run(spec_begin(Some(base)), replies) == (
        DownloadView::Probing { base, ext: extensions()[replies.len() as int] }),
        replies.len() == extensions().len() ==> spec_run(spec_begin(Some(base)), replies) == (
        DownloadView::Finished { outcome: Ok(false) }),
    decreases replies.len(),
{
    if replies.len() > 0 {
        lemma_probing_order(base, replies.drop_last());
    }
}

} // verus!
