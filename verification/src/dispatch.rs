//! The course of one request, as a chain of decisions.
//!
//! The library reads no file and writes to no socket. Each function here
//! takes what the caller found out last and answers with what to do next:
//! look something up, send a response, or drop the request. A request runs
//! through `handle_request`, then `dispatch`, then `list_dir` or `send_file`.

use vstd::prelude::*;
use crate::classify::{classify, kind_of, EntryKind, Metadata};
use crate::config::ServerConfig;
use crate::listing::{listed, listing_html, render_listing, DirEntry};
use crate::resolve::{resolved, url_to_path};
use crate::response::{
    page_response, respond_with_page, respond_with_stream, stream_response, BodyView, HeaderView,
    OutgoingResponse, ResponseView,
};

verus! {

/// A protocol version, such as 1.1.
#[derive(Clone, Copy, Debug, PartialEq, Eq, Structural)]
pub struct HttpVersion {
    pub major: u8,
    pub minor: u8,
}

/// One request as the transport read it. Only the URL decides how the request
/// is answered: every method and every version is served alike.
#[derive(Clone, Debug, PartialEq, Eq)]
pub struct IncomingRequest {
    /// The URL as it was sent, with whatever `..` or empty segments it holds.
    pub url_path: String,
    /// The method, such as `GET`.
    pub method: String,
    /// The protocol version.
    pub http_version: HttpVersion,
}

/// What the caller is to do next for a request.
#[derive(Clone, Debug, PartialEq, Eq)]
pub enum Action<B> {
    /// Read the metadata of the path and hand it to `dispatch`.
    ReadMetadata { path: String },
    /// List the directory at the path and hand its children to `list_dir`.
    ReadDirectory { path: String },
    /// Open the file at the path and hand it to `send_file`.
    OpenFile { path: String },
    /// Send the response. The request is done.
    Respond { response: OutgoingResponse<B> },
    /// Send nothing. The request is done.
    Drop,
}

/// An action with its texts as sequences.
pub enum ActionView<B> {
    ReadMetadata { path: Seq<char> },
    ReadDirectory { path: Seq<char> },
    OpenFile { path: Seq<char> },
    Respond { response: ResponseView<B> },
    Drop,
}

impl<B> View for Action<B> {
    type V = ActionView<B>;

    open spec fn view(&self) -> ActionView<B> {
        match *self {
            Action::ReadMetadata { path } => ActionView::ReadMetadata { path: path@ },
            Action::ReadDirectory { path } => ActionView::ReadDirectory { path: path@ },
            Action::OpenFile { path } => ActionView::OpenFile { path: path@ },
            Action::Respond { response } => ActionView::Respond { response: response@ },
            Action::Drop => ActionView::Drop,
        }
    }
}

/// The first step for a request: its target's metadata is wanted.
pub open spec fn first_step<B>(root: Seq<char>, url: Seq<char>) -> ActionView<B> {
    ActionView::ReadMetadata { path: resolved(root, url) }
}

/// The step after the target's metadata is known. A directory is listed;
/// anything else is opened as a file, a missing target too.
pub open spec fn step_after_metadata<B>(path: Seq<char>, metadata: Option<Metadata>) -> ActionView<
    B,
> {
    match kind_of(metadata) {
        EntryKind::Directory => ActionView::ReadDirectory { path },
        EntryKind::File | EntryKind::Missing => ActionView::OpenFile { path },
    }
}

/// The step after a directory was listed: its page is sent, with no items if
/// the listing failed.
pub open spec fn step_after_listing<B>(
    root: Seq<char>,
    children: Option<Vec<Option<DirEntry>>>,
) -> ActionView<B> {
    ActionView::Respond { response: page_response(listing_html(root, listed(children))) }
}

/// The step after a file was opened: its contents are sent, or nothing if it
/// could not be opened.
pub open spec fn step_after_open<B>(opened: Option<B>) -> ActionView<B> {
    match opened {
        Some(stream) => ActionView::Respond { response: stream_response(stream) },
        None => ActionView::Drop,
    }
}

/// Takes up a request: resolves its URL and asks for the target's metadata.
/// Neither the method nor the version is looked at.
pub fn handle_request<B>(config: &ServerConfig, request: &IncomingRequest) -> (next: Action<B>)
    ensures
        next@ == first_step::<B>(config.root_directory@, request.url_path@),
{
    Action::ReadMetadata { path: url_to_path(config, request.url_path.as_str()) }
}

/// Chooses between listing and streaming once the target's metadata is
/// known; `None` stands for metadata that could not be read.
pub fn dispatch<B>(path: String, metadata: Option<Metadata>) -> (next: Action<B>)
    ensures
        next@ == step_after_metadata::<B>(path@, metadata),
{
    match classify(metadata) {
        EntryKind::Directory => Action::ReadDirectory { path },
        EntryKind::File | EntryKind::Missing => Action::OpenFile { path },
    }
}

/// Answers a request for a directory with its listing. `None` stands for a
/// directory that could not be listed, a `None` among the children for a
/// child that could not be read.
pub fn list_dir<B>(config: &ServerConfig, children: Option<Vec<Option<DirEntry>>>) -> (next: Action<
    B,
>)
    ensures
        next@ == step_after_listing::<B>(config.root_directory@, children),
{
    let page = render_listing(config, &children);
    Action::Respond { response: respond_with_page(page) }
}

/// Answers a request for a file with its contents, or drops the request if
/// the file could not be opened, for which `None` stands.
pub fn send_file<B>(opened: Option<B>) -> (next: Action<B>)
    ensures
        next@ == step_after_open(opened),
{
    match opened {
        Some(stream) => Action::Respond { response: respond_with_stream(stream) },
        None => Action::Drop,
    }
}

/// How a request ends, given what the caller finds on the way: the target's
/// metadata, the directory's children, the opened file.
pub open spec fn outcome<B>(
    root: Seq<char>,
    url: Seq<char>,
    metadata: Option<Metadata>,
    children: Option<Vec<Option<DirEntry>>>,
    opened: Option<B>,
) -> ActionView<B> {
    match step_after_metadata::<B>(resolved(root, url), metadata) {
        ActionView::ReadDirectory { .. } => step_after_listing(root, children),
        _ => step_after_open(opened),
    }
}

/// Every request ends with a response or is dropped.
pub proof fn lemma_request_ends<B>(
    root: Seq<char>,
    url: Seq<char>,
    metadata: Option<Metadata>,
    children: Option<Vec<Option<DirEntry>>>,
    opened: Option<B>,
)
    ensures
        outcome(root, url, metadata, children, opened) is Respond || outcome(
            root,
            url,
            metadata,
            children,
            opened,
        ) is Drop,
{
}

/// A target that is there, is no directory and can be opened is answered
/// with status 200, the content type `application/octet-stream` and the
/// opened contents as the body.
pub proof fn lemma_file_is_sent<B>(
    root: Seq<char>,
    url: Seq<char>,
    metadata: Metadata,
    children: Option<Vec<Option<DirEntry>>>,
    stream: B,
)
    requires
        !metadata.is_dir,
    ensures
        outcome(root, url, Some(metadata), children, Some(stream)) == (ActionView::Respond {
            response: ResponseView {
                status: 200,
                headers: seq![
                    HeaderView { field: "Content-Type"@, value: "application/octet-stream"@ },
                ],
                body: BodyView::Stream(stream),
            },
        }),
{
}

/// A target that is a directory is answered with status 200, the content
/// type `text/html` and the listing of its children as the body, whether or
/// not the children could be read.
pub proof fn lemma_directory_is_listed<B>(
    root: Seq<char>,
    url: Seq<char>,
    metadata: Metadata,
    children: Option<Vec<Option<DirEntry>>>,
    opened: Option<B>,
)
    requires
        metadata.is_dir,
    ensures
        outcome(root, url, Some(metadata), children, opened) == (ActionView::Respond {
            response: ResponseView {
                status: 200,
                headers: seq![HeaderView { field: "Content-Type"@, value: "text/html"@ }],
                body: BodyView::<B>::Html(listing_html(root, listed(children))),
            },
        }),
{
}

/// A request is dropped if and only if its target is not a directory and
/// could not be opened. This is so whether the target's metadata named a file
/// or could not be read: a missing target gets no response and no error
/// status.
pub proof fn lemma_dropped_iff_unopened<B>(
    root: Seq<char>,
    url: Seq<char>,
    metadata: Option<Metadata>,
    children: Option<Vec<Option<DirEntry>>>,
    opened: Option<B>,
)
    ensures
        outcome(root, url, metadata, children, opened) is Drop <==> kind_of(metadata)
            != EntryKind::Directory && opened is None,
        metadata is None && opened is None ==> outcome(root, url, metadata, children, opened)
            == ActionView::<B>::Drop,
{
}

} // verus!
