//! The file server's handling of one request: which path a request names,
//! what has to be read for it, and what is sent back.
//!
//! Reading a directory or a file is left to the caller. A request is handled
//! in two calls: `file_handler` says what to read, if anything, and `respond`
//! turns what was read into the response.

use vstd::prelude::*;
use vstd::utf8::decode_utf8;
use vstd::utf8::encode_utf8;
use crate::process::brackets::is_well_bracketed;
use crate::process::brackets::lemma_listing_is_well_bracketed;
use crate::process::listing::address_text;
use crate::process::listing::all_well_formed;
use crate::process::listing::entry_views;
use crate::process::listing::link_to;
use crate::process::listing::listing_markup;
use crate::process::listing::render_html;
use crate::process::listing::FilePath;
use crate::process::listing::FilePathView;
use crate::process::listing::LINK_SCHEME;
use crate::process::markup::lemma_link_is_valid;
use crate::process::markup::lemma_one_item_per_entry;
use crate::text::escape::lemma_percent_encode_round_trip;
use crate::text::escape::percent_decode;
use crate::text::escape::percent_encode;
use crate::text::occurrences::contains_text;
use crate::text::occurrences::occurrences;
use crate::text::occurrences::occurs_at;
use crate::text::paths::join;
use crate::text::paths::join_paths;
use crate::text::paths::lemma_join_is_associative;
use crate::utils::path_exists;
use crate::utils::path_is_dir;

verus! {

/// The status of a response that carries what was asked for.
pub const STATUS_OK: u16 = 200;

/// The status of a response to a request that names nothing.
pub const STATUS_NOT_FOUND: u16 = 404;

/// The status of a response to a request whose target could not be read.
pub const STATUS_SERVER_ERROR: u16 = 500;

/// What follows the path in the answer to a request that names nothing.
pub const NOT_FOUND_SUFFIX: &'static str = " not found";

/// What every request is handled against: the directory that is served and
/// the port on which the server listens, on all interfaces.
#[derive(Debug)]
pub struct HttpServeState {
    /// The directory that is served.
    pub path: String,
    /// The port on which the server listens.
    pub port: u16,
}

/// The state of a server, as a mathematical value.
pub struct HttpServeStateView {
    /// The directory that is served.
    pub path: Seq<char>,
    /// The port on which the server listens.
    pub port: u16,
}

impl View for HttpServeState {
    type V = HttpServeStateView;

    open spec fn view(&self) -> HttpServeStateView {
        HttpServeStateView { path: self.path@, port: self.port }
    }
}

/// A response, as a mathematical value.
pub enum ResponseView {
    /// An HTML document.
    HtmlBody { status: u16, payload: Seq<char> },
    /// A text that is passed on as it is.
    TextBody { status: u16, payload: Seq<char> },
}

/// A response: a status and a payload that is either an HTML document or a
/// text that is passed on as it is.
#[derive(Debug)]
pub enum Response {
    /// An HTML document.
    HtmlBody { status: u16, payload: String },
    /// A text that is passed on as it is.
    TextBody { status: u16, payload: String },
}

impl View for Response {
    type V = ResponseView;

    open spec fn view(&self) -> ResponseView {
        match self {
            Response::HtmlBody { status, payload } => ResponseView::HtmlBody {
                status: *status,
                payload: payload@,
            },
            Response::TextBody { status, payload } => ResponseView::TextBody {
                status: *status,
                payload: payload@,
            },
        }
    }
}

impl ResponseView {
    /// The status of the response.
    pub open spec fn status(self) -> u16 {
        match self {
            ResponseView::HtmlBody { status, .. } => status,
            ResponseView::TextBody { status, .. } => status,
        }
    }

    /// The payload of the response.
    pub open spec fn payload(self) -> Seq<char> {
        match self {
            ResponseView::HtmlBody { payload, .. } => payload,
            ResponseView::TextBody { payload, .. } => payload,
        }
    }
}

impl Response {
    /// The status of the response.
    pub fn status(&self) -> (status: u16)
        ensures
            status == self@.status(),
    {
        match self {
            Response::HtmlBody { status, .. } => *status,
            Response::TextBody { status, .. } => *status,
        }
    }

    /// The payload of the response.
    pub fn payload(&self) -> (payload: &str)
        ensures
            payload@ == self@.payload(),
    {
        match self {
            Response::HtmlBody { payload, .. } => payload.as_str(),
            Response::TextBody { payload, .. } => payload.as_str(),
        }
    }

    /// Whether the payload is an HTML document.
    pub fn is_html(&self) -> (html: bool)
        ensures
            html == (self@ is HtmlBody),
    {
        match self {
            Response::HtmlBody { .. } => true,
            Response::TextBody { .. } => false,
        }
    }
}

/// What was found at the path of a request, as a mathematical value.
pub enum ResolvedTargetView {
    /// Nothing stands at the path.
    NotFound,
    /// A directory, with the names of its children in the order in which
    /// they were enumerated.
    Directory(Seq<Seq<char>>),
    /// A file, with its content.
    File(Seq<char>),
    /// Something that could not be read, with the cause.
    ReadError(Seq<char>),
}

/// What was found at the path of a request.
#[derive(Debug)]
pub enum ResolvedTarget {
    /// Nothing stands at the path.
    NotFound,
    /// A directory, with the names of its children in the order in which
    /// they were enumerated.
    Directory(Vec<String>),
    /// A file, with its content.
    File(String),
    /// Something that could not be read, with the cause.
    ReadError(String),
}

/// The texts of a sequence of strings.
pub open spec fn texts(strings: Seq<String>) -> Seq<Seq<char>> {
    strings.map_values(|s: String| s@)
}

impl View for ResolvedTarget {
    type V = ResolvedTargetView;

    open spec fn view(&self) -> ResolvedTargetView {
        match self {
            ResolvedTarget::NotFound => ResolvedTargetView::NotFound,
            ResolvedTarget::Directory(names) => ResolvedTargetView::Directory(texts(names@)),
            ResolvedTarget::File(content) => ResolvedTargetView::File(content@),
            ResolvedTarget::ReadError(cause) => ResolvedTargetView::ReadError(cause@),
        }
    }
}

/// What is to be done next for a request, as a mathematical value.
pub enum StepView {
    /// The request is answered.
    Respond(ResponseView),
    /// The children of the directory at this path are to be enumerated.
    ListDirectory(Seq<char>),
    /// The file at this path is to be read.
    ReadFile(Seq<char>),
}

/// What is to be done next for a request.
#[derive(Debug)]
pub enum Step {
    /// The request is answered.
    Respond(Response),
    /// The children of the directory at this path are to be enumerated.
    ListDirectory(String),
    /// The file at this path is to be read.
    ReadFile(String),
}

impl View for Step {
    type V = StepView;

    open spec fn view(&self) -> StepView {
        match self {
            Step::Respond(response) => StepView::Respond(response@),
            Step::ListDirectory(path) => StepView::ListDirectory(path@),
            Step::ReadFile(path) => StepView::ReadFile(path@),
        }
    }
}

/// The entries of the listing that answers `request`, one for each child and
/// in the children's order. Each link asks for the request's path with the
/// child's name adjoined.
pub open spec fn entries_of(port: u16, request: Seq<char>, names: Seq<Seq<char>>) -> Seq<
    FilePathView,
> {
    Seq::new(
        names.len(),
        |i: int| FilePathView { path: link_to(port, request, names[i]), name: names[i] },
    )
}

/// The path that a request names: the request's path adjoined to the served
/// directory. Segments `.` and `..` are not treated specially, and an
/// absolute request path replaces the served directory.
pub open spec fn target_of(root: Seq<char>, request: Seq<char>) -> Seq<char> {
    join(root, request)
}

/// The response to `request`, given what was found at the path it names.
pub open spec fn response_for(
    state: HttpServeStateView,
    request: Seq<char>,
    resolved: ResolvedTargetView,
) -> ResponseView {
    match resolved {
        ResolvedTargetView::NotFound => ResponseView::TextBody {
            status: STATUS_NOT_FOUND,
            payload: target_of(state.path, request) + NOT_FOUND_SUFFIX@,
        },
        ResolvedTargetView::Directory(names) => ResponseView::HtmlBody {
            status: STATUS_OK,
            payload: listing_markup(entries_of(state.port, request, names)),
        },
        ResolvedTargetView::File(content) => ResponseView::TextBody {
            status: STATUS_OK,
            payload: content,
        },
        ResolvedTargetView::ReadError(cause) => ResponseView::TextBody {
            status: STATUS_SERVER_ERROR,
            payload: cause,
        },
    }
}

/// What is to be done first for `request`, once the file system has said
/// whether anything stands at the path it names and whether that is a
/// directory.
pub open spec fn first_step(
    state: HttpServeStateView,
    request: Seq<char>,
    exists: bool,
    is_dir: bool,
) -> StepView {
    if !exists {
        StepView::Respond(response_for(state, request, ResolvedTargetView::NotFound))
    } else if is_dir {
        StepView::ListDirectory(target_of(state.path, request))
    } else {
        StepView::ReadFile(target_of(state.path, request))
    }
}

/// Builds the entries of the listing that answers `request` from the names of
/// the directory's children.
pub fn entries_for(port: u16, request: &str, names: &Vec<String>) -> (entries: Vec<FilePath>)
    ensures
        entry_views(entries@) == entries_of(port, request@, texts(names@)),
{
    let mut entries: Vec<FilePath> = Vec::new();
    let mut i: usize = 0;
    while i < names.len()
        invariant
            i <= names.len(),
            entries@.len() == i,
            forall|j: int|
                0 <= j < i ==> (#[trigger] entries@[j])@ == entries_of(
                    port,
                    request@,
                    texts(names@),
                )[j],
        decreases names.len() - i,
    {
        let entry = FilePath::new(port, request, names[i].as_str());
        entries.push(entry);
        i += 1;
    }
    assert(entry_views(entries@) =~= entries_of(port, request@, texts(names@)));
    entries
}

/// Answers the request for `path`, given what was found at the path it
/// names: a missing target with the path that was looked up, a directory
/// with its listing, a file with its content, a failed read with its cause.
pub fn respond(state: &HttpServeState, path: &str, resolved: ResolvedTarget) -> (response:
    Response)
    ensures
        response@ == response_for(state@, path@, resolved@),
{
    match resolved {
        ResolvedTarget::NotFound => {
            let mut payload = join_paths(state.path.as_str(), path);
            payload.append(NOT_FOUND_SUFFIX);
            Response::TextBody { status: STATUS_NOT_FOUND, payload }
        },
        ResolvedTarget::Directory(names) => {
            let entries = entries_for(state.port, path, &names);
            let payload = render_html(entries);
            Response::HtmlBody { status: STATUS_OK, payload }
        },
        ResolvedTarget::File(content) => Response::TextBody { status: STATUS_OK, payload: content },
        ResolvedTarget::ReadError(cause) => Response::TextBody {
            status: STATUS_SERVER_ERROR,
            payload: cause,
        },
    }
}

/// Decides what is to be done first for the request for `path`, once the
/// file system has said whether anything stands at the path it names and
/// whether that is a directory.
pub fn plan(state: &HttpServeState, path: &str, exists: bool, is_dir: bool) -> (step: Step)
    ensures
        step@ == first_step(state@, path@, exists, is_dir),
{
    if !exists {
        Step::Respond(respond(state, path, ResolvedTarget::NotFound))
    } else if is_dir {
        Step::ListDirectory(join_paths(state.path.as_str(), path))
    } else {
        Step::ReadFile(join_paths(state.path.as_str(), path))
    }
}

/// Takes up a request: resolves the path it names against the served
/// directory, asks the file system what stands there, and says what is to be
/// done next. Which of the three steps comes back is for the file system to
/// decide; each is the one that `first_step` gives for some answer.
pub fn file_handler(state: &HttpServeState, path: &str) -> (step: Step)
    ensures
        ({
            ||| step@ == first_step(state@, path@, false, false)
            ||| step@ == first_step(state@, path@, true, true)
            ||| step@ == first_step(state@, path@, true, false)
        }),
{
    let target = join_paths(state.path.as_str(), path);
    let exists = path_exists(target.as_str());
    let is_dir = exists && path_is_dir(target.as_str());
    plan(state, path, exists, is_dir)
}

/// A request that resolves to a file that could be read is answered with
/// status 200 and the file's content, unchanged.
pub proof fn lemma_file_is_served_unchanged(
    state: HttpServeStateView,
    request: Seq<char>,
    content: Seq<char>,
)
    ensures
        response_for(state, request, ResolvedTargetView::File(content)) == (ResponseView::TextBody {
            status: 200,
            payload: content,
        }),
{
}

/// A request that resolves to a directory that could be enumerated is
/// answered with status 200 and an HTML page that holds one list item for
/// each child: the opening and the closing tag of a list item each stand in
/// it as often as the directory has children, and every tag and attribute
/// value in it is closed, whatever the children's names hold.
pub proof fn lemma_directory_is_listed(
    state: HttpServeStateView,
    request: Seq<char>,
    names: Seq<Seq<char>>,
)
    ensures
        response_for(state, request, ResolvedTargetView::Directory(names)) is HtmlBody,
        response_for(state, request, ResolvedTargetView::Directory(names)).status() == 200,
        response_for(state, request, ResolvedTargetView::Directory(names)).payload()
            == listing_markup(entries_of(state.port, request, names)),
        all_well_formed(entries_of(state.port, request, names)),
        occurrences(
            response_for(state, request, ResolvedTargetView::Directory(names)).payload(),
            "<li>"@,
        ) == names.len(),
        occurrences(
            response_for(state, request, ResolvedTargetView::Directory(names)).payload(),
            "</li>"@,
        ) == names.len(),
        is_well_bracketed(
            response_for(state, request, ResolvedTargetView::Directory(names)).payload(),
        ),
{
    let entries = entries_of(state.port, request, names);
    assert forall|i: int| 0 <= i < entries.len() implies (#[trigger] entries[i])
        .is_well_formed() by {
        lemma_link_is_valid(state.port, request, names[i]);
    }
    lemma_one_item_per_entry(entries);
    lemma_listing_is_well_bracketed(entries);
}

/// The links of a listing lead back to the children, whatever directory is
/// served. The link to a child holds, behind the server's address, the
/// encoded path of the request with the child's name adjoined; that path is
/// what the encoded one decodes to, a request for it is looked up where the
/// child stands in the listed directory, and the served directory is no part
/// of it.
pub proof fn lemma_link_leads_to_child(
    state: HttpServeStateView,
    request: Seq<char>,
    names: Seq<Seq<char>>,
    i: int,
)
    requires
        0 <= i < names.len(),
    ensures
        entries_of(state.port, request, names)[i].name == names[i],
        entries_of(state.port, request, names)[i].path == LINK_SCHEME@ + address_text(state.port)
            + seq!['/'] + percent_encode(encode_utf8(join(request, names[i]))),
        percent_decode(percent_encode(encode_utf8(join(request, names[i])))) == encode_utf8(
            join(request, names[i]),
        ),
        decode_utf8(encode_utf8(join(request, names[i]))) == join(request, names[i]),
        target_of(state.path, join(request, names[i])) == join(
            target_of(state.path, request),
            names[i],
        ),
{
    lemma_percent_encode_round_trip(encode_utf8(join(request, names[i])));
    vstd::utf8::encode_utf8_decode_utf8(join(request, names[i]));
    lemma_join_is_associative(state.path, request, names[i]);
}

/// A request that resolves to nothing is answered with status 404 and a text
/// that holds the request's path: the path that was looked up, which ends
/// with the request's path, and the fixed words after it.
pub proof fn lemma_missing_target_is_named(state: HttpServeStateView, request: Seq<char>)
    ensures
        response_for(state, request, ResolvedTargetView::NotFound) is TextBody,
        response_for(state, request, ResolvedTargetView::NotFound).status() == 404,
        response_for(state, request, ResolvedTargetView::NotFound).payload() == target_of(
            state.path,
            request,
        ) + NOT_FOUND_SUFFIX@,
        contains_text(
            response_for(state, request, ResolvedTargetView::NotFound).payload(),
            request,
        ),
{
    let target = target_of(state.path, request);
    let payload = target + NOT_FOUND_SUFFIX@;
    let at = target.len() - request.len();
    assert(payload.subrange(at, at + request.len()) == request);
    assert(occurs_at(payload, request, at));
}

/// Handling a request is a function of the request and of what the file
/// system answers: two requests for the same path, against the same served
/// directory and port and with the same answers from the file system, take
/// the same first step and get the same response.
pub proof fn lemma_same_answers_same_response(
    state: HttpServeStateView,
    request: Seq<char>,
    first_exists: bool,
    first_is_dir: bool,
    first_found: ResolvedTargetView,
    second_exists: bool,
    second_is_dir: bool,
    second_found: ResolvedTargetView,
)
    requires
        first_exists == second_exists,
        first_is_dir == second_is_dir,
        first_found == second_found,
    ensures
        first_step(state, request, first_exists, first_is_dir) == first_step(
            state,
            request,
            second_exists,
            second_is_dir,
        ),
        response_for(state, request, first_found) == response_for(state, request, second_found),
{
}

/// Every request ends in one of three ways: with status 200 where the
/// target was read, with status 404 where nothing stands at the path, and
/// with status 500 where reading failed.
pub proof fn lemma_one_of_three_outcomes(
    state: HttpServeStateView,
    request: Seq<char>,
    resolved: ResolvedTargetView,
)
    ensures
        response_for(state, request, resolved).status() == 200 <==> resolved is File
            || resolved is Directory,
        response_for(state, request, resolved).status() == 404 <==> resolved is NotFound,
        response_for(state, request, resolved).status() == 500 <==> resolved is ReadError,
        response_for(state, request, resolved) is HtmlBody <==> resolved is Directory,
{
}

/// A request is answered without a read where nothing stands at its path,
/// and only there; a directory is enumerated and anything else is read, at
/// the path that was looked up.
pub proof fn lemma_first_step_cases(
    state: HttpServeStateView,
    request: Seq<char>,
    exists: bool,
    is_dir: bool,
)
    ensures
        !exists <==> first_step(state, request, exists, is_dir) == StepView::Respond(
            response_for(state, request, ResolvedTargetView::NotFound),
        ),
        exists && is_dir <==> first_step(state, request, exists, is_dir)
            == StepView::ListDirectory(target_of(state.path, request)),
        exists && !is_dir <==> first_step(state, request, exists, is_dir) == StepView::ReadFile(
            target_of(state.path, request),
        ),
{
}

} // verus!
