//! The decisions behind the HTTP endpoints: which file a request may read,
//! and what the raw-image endpoint answers.

use vstd::prelude::*;
use crate::paths::{
    components_path, content_type_of_path, guess_content_type, join_path, joined_path,
    lexically_under, normalize_components, starts_with_path, stripped_path, climbs_out,
};
use crate::text::{slash_run, trim_leading_slashes};

verus! {

/// Query of the reader page.
pub struct ViewerQuery {
    pub path: String,
}

/// Query of the album API.
pub struct AlbumQuery {
    pub path: String,
}

/// Query of the raw-image endpoint.
pub struct RawQuery {
    pub path: String,
}

// ---------------------------------------------------------------------------
// Resolving a requested file
// ---------------------------------------------------------------------------

/// What the file system says about a requested path (see `request_target`).
pub struct PathProbe {
    /// The canonical form of the target, if it could be computed.
    pub canonical: Option<String>,
    /// Whether the canonical path is a regular file.
    pub canonical_is_file: bool,
    /// Whether the target rebuilt from its components
    /// (`normalized_target`) is a regular file; read only when there is no
    /// canonical path.
    pub normalized_is_file: bool,
}

pub open spec fn option_string_view(o: Option<String>) -> Option<Seq<char>> {
    match o {
        Some(s) => Some(s@),
        None => None,
    }
}

/// The file a request for `rel` under `root` resolves to. An empty request
/// resolves to nothing. When the target could be canonicalized, the
/// canonical path is the answer if it lies lexically under `root` and is a
/// file, and nothing otherwise; only when it could not is the target
/// rebuilt from its components taken instead, under the same two
/// conditions.
pub open spec fn resolved_path(
    root: Seq<char>,
    rel: Seq<char>,
    canonical: Option<Seq<char>>,
    canonical_is_file: bool,
    normalized_is_file: bool,
) -> Option<Seq<char>> {
    if rel.len() == 0 {
        None
    } else {
        match canonical {
            Some(c) => if lexically_under(c, root) && canonical_is_file {
                Some(c)
            } else {
                None
            },
            None => {
                let n = components_path(joined_path(root, rel));
                if lexically_under(n, root) && normalized_is_file {
                    Some(n)
                } else {
                    None
                }
            },
        }
    }
}

/// The path that a request for `rel` under `root` names, to be probed;
/// `None` for an empty request.
pub fn request_target(root: &str, rel: &str) -> (r: Option<String>)
    ensures
        r is None <==> rel@.len() == 0,
        r matches Some(p) ==> p@ == joined_path(root@, rel@),
{
    if rel.is_empty() {
        None
    } else {
        Some(join_path(root, rel))
    }
}

/// The target of a request rebuilt from its components, to be probed when
/// the target has no canonical path.
pub fn normalized_target(target: &str) -> (r: String)
    ensures
        r@ == components_path(target@),
{
    normalize_components(target)
}

/// No request climbs out of the root directory: whatever `resolve_path`
/// (`AppState::resolve_path`) answers has the root's components as a prefix
/// and a rest that never climbs above the root with `..`; it is the
/// canonical path whenever there is one, and a file as far as the probe
/// could tell. An empty request resolves to nothing.
pub proof fn lemma_resolved_inside_root(
    root: Seq<char>,
    rel: Seq<char>,
    canonical: Option<Seq<char>>,
    canonical_is_file: bool,
    normalized_is_file: bool,
)
    ensures
        resolved_path(root, rel, canonical, canonical_is_file, normalized_is_file) matches Some(p)
            ==> {
            &&& starts_with_path(p, root)
            &&& !climbs_out(stripped_path(p, root))
            &&& canonical matches Some(c) ==> p == c && canonical_is_file
            &&& canonical is None ==> p == components_path(joined_path(root, rel))
                && normalized_is_file
        },
        rel.len() == 0 ==> resolved_path(root, rel, canonical, canonical_is_file, normalized_is_file)
            is None,
{
}

/// Every non-empty request is served when its file lies lexically under the
/// root: the canonical path when there is one and it is a file under the
/// root; otherwise (no canonical path) the target rebuilt from its
/// components when that is a file under the root. Nothing else about the
/// request, such as its length, matters.
pub proof fn lemma_files_under_root_are_served(
    root: Seq<char>,
    rel: Seq<char>,
    canonical: Option<Seq<char>>,
    canonical_is_file: bool,
    normalized_is_file: bool,
)
    ensures
        rel.len() > 0 && canonical is Some && starts_with_path(canonical->0, root) && !climbs_out(
            stripped_path(canonical->0, root),
        ) && canonical_is_file ==> resolved_path(
            root,
            rel,
            canonical,
            canonical_is_file,
            normalized_is_file,
        ) == canonical,
        rel.len() > 0 && canonical is None && starts_with_path(
            components_path(joined_path(root, rel)),
            root,
        ) && !climbs_out(stripped_path(components_path(joined_path(root, rel)), root))
            && normalized_is_file ==> resolved_path(
            root,
            rel,
            canonical,
            canonical_is_file,
            normalized_is_file,
        ) == Some(components_path(joined_path(root, rel))),
{
}

// ---------------------------------------------------------------------------
// The raw-image endpoint
// ---------------------------------------------------------------------------

/// What reading the resolved file gave.
pub enum FileRead {
    OpenFailed,
    ReadFailed,
    Read,
}

/// The answer of the raw-image endpoint (the image bytes themselves are
/// the file's content).
pub enum RawReply {
    /// 200, with the file's bytes and these headers.
    Image { content_type: &'static str, cache_control: &'static str, accept_ranges: &'static str },
    /// 404 with a message.
    NotFound(&'static str),
    /// 500 with a message.
    ServerError(&'static str),
}

impl RawReply {
    pub open spec fn status_spec(&self) -> u16 {
        match self {
            RawReply::Image { .. } => 200,
            RawReply::NotFound(_) => 404,
            RawReply::ServerError(_) => 500,
        }
    }

    /// The HTTP status code of the reply.
    pub fn status(&self) -> (r: u16)
        ensures
            r == self.status_spec(),
    {
        match self {
            RawReply::Image { .. } => 200,
            RawReply::NotFound(_) => 404,
            RawReply::ServerError(_) => 500,
        }
    }
}

/// The path a raw-image request names: its `path` parameter without
/// leading slashes.
pub fn raw_request_path(query: &RawQuery) -> (r: &str)
    ensures
        r@ == query.path@.skip(slash_run(query.path@) as int),
{
    trim_leading_slashes(query.path.as_str())
}

/// The reply of the raw-image endpoint, given the resolved file (if any)
/// and how reading it went.
pub open spec fn raw_reply_spec(resolved: Option<Seq<char>>, read: FileRead) -> (u16, Seq<char>) {
    match resolved {
        None => (404, "文件不存在或路径非法"@),
        Some(p) => match read {
            FileRead::OpenFailed => (404, "文件不存在"@),
            FileRead::ReadFailed => (500, "读取文件失败"@),
            FileRead::Read => (200, content_type_of_path(p)),
        },
    }
}

/// What the raw-image endpoint answers: 404 when the path does not resolve
/// or the file cannot be opened, 500 when it cannot be read, else the image
/// with its content type, a week of public caching and byte ranges.
pub fn raw_reply(resolved: &Option<String>, read: FileRead) -> (r: RawReply)
    ensures
        match r {
            RawReply::Image { content_type, cache_control, accept_ranges } => {
                &&& raw_reply_spec(option_string_view(*resolved), read) == (200u16, content_type@)
                &&& cache_control@ == "public, max-age=604800"@
                &&& accept_ranges@ == "bytes"@
            },
            RawReply::NotFound(m) => raw_reply_spec(option_string_view(*resolved), read) == (
                404u16,
                m@,
            ),
            RawReply::ServerError(m) => raw_reply_spec(option_string_view(*resolved), read) == (
                500u16,
                m@,
            ),
        },
{
    match resolved {
        None => RawReply::NotFound("文件不存在或路径非法"),
        Some(p) => match read {
            FileRead::OpenFailed => RawReply::NotFound("文件不存在"),
            FileRead::ReadFailed => RawReply::ServerError("读取文件失败"),
            FileRead::Read => RawReply::Image {
                content_type: guess_content_type(p.as_str()),
                cache_control: "public, max-age=604800",
                accept_ranges: "bytes",
            },
        },
    }
}

} // verus!
