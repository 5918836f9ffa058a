//! What a client tells the server about itself when it initializes.

use lsp_types::Url;

use vstd::prelude::*;
#[allow(unused_imports)]
use vstd::utf8::encode_utf8;

use crate::json::Json;

verus! {

/// A URL of the `url` crate, which `lsp_types` hands on.
#[verifier::external_type_specification]
#[verifier::external_body]
pub struct ExUrl(lsp_types::Url);

/// What `Url::parse` makes of a text: a URL, or nothing where it reports an error.
pub uninterp spec fn parsed_url(text: Seq<char>) -> Option<Url>;

/// What `Url::set_path` makes of a URL and a path.
pub uninterp spec fn with_path(url: Url, path: Seq<char>) -> Url;

/// Calls `Url::parse` on the text `file:///`. It has a URL for that text, and gives the same for
/// the same text. Of other texts nothing is claimed.
#[verifier::external_body]
fn parse_url(text: &str) -> (url: Option<Url>)
    requires
        text@ == "file:///"@,
    ensures
        url == parsed_url(text@),
        url is Some,
{
    Url::parse(text).ok()
}

/// Calls `Url::set_path`, which gives the same for the same URL and path. It keeps positions in
/// the text of a URL in 32 bits and panics where they do not fit. The text of `file:///` has eight
/// bytes, and a byte of the path is escaped as at most three.
#[verifier::external_body]
fn set_path(url: &mut Url, path: &str)
    requires
        parsed_url("file:///"@) == Some(*old(url)),
        8 + 3 * encode_utf8(path@).len() <= u32::MAX,
    ensures
        *final(url) == with_path(*old(url), path@),
{
    url.set_path(path)
}

/// The URL of a file by its path.
pub open spec fn file_url_of(path: Seq<char>) -> Url {
    with_path(parsed_url("file:///"@)->0, path)
}

/// Makes the URL of a file from its path.
pub fn file_url(path: &str) -> (url: Url)
    requires
        8 + 3 * encode_utf8(path@).len() <= u32::MAX,
    ensures
        url == file_url_of(path@),
        parsed_url("file:///"@) matches Some(root) && url == with_path(root, path@),
{
    match parse_url("file:///") {
        Some(mut url) => {
            set_path(&mut url, path);
            url
        },
        None => vstd::pervasive::unreached(),
    }
}

/// How much the server is to say about what it does.
#[derive(Clone, Copy, Debug, PartialEq, Eq, Structural)]
pub enum Trace {
    Off,
    Messages,
    Verbose,
}

/// What a client is capable of, as far as it says.
#[derive(Debug, PartialEq)]
pub struct Capabilities {
    pub workspace: Option<Json>,
    pub text_document: Option<Json>,
    pub window: Option<Json>,
    pub experimental: Option<Json>,
}

/// A folder of a workspace.
#[derive(Debug, PartialEq)]
pub struct WorkspaceFolder {
    pub uri: Url,
    pub name: String,
}

/// What a client tells the server about itself.
#[derive(Debug, PartialEq)]
pub struct InitializeParams {
    /// The process of the client.
    pub process_id: Option<u64>,
    /// The directory of the workspace, as a path.
    pub root_path: Option<String>,
    /// The directory of the workspace, as a URL.
    pub root_uri: Option<Url>,
    /// Options of the server.
    pub initialization_options: Option<Json>,
    /// What the client is capable of.
    pub capabilities: Capabilities,
    /// What the server is to say about what it does.
    pub trace: Option<Trace>,
    /// The folders of the workspace, for a workspace of more than one.
    pub workspace_folders: Option<Vec<WorkspaceFolder>>,
}

/// What a client that runs as the process `process_id` tells the server about its workspace.
pub fn initialize_params(process_id: u32, workspace_path: &str) -> (params: InitializeParams)
    requires
        8 + 3 * encode_utf8(workspace_path@).len() <= u32::MAX,
    ensures
        params.process_id == Some(process_id as u64),
        params.root_path matches Some(path) && path@ == workspace_path@,
        params.root_uri == Some(file_url_of(workspace_path@)),
        parsed_url("file:///"@) matches Some(root) && params.root_uri == Some(
            with_path(root, workspace_path@),
        ),
        params.initialization_options is None,
        params.capabilities.workspace is None,
        params.capabilities.text_document is None,
        params.capabilities.window is None,
        params.capabilities.experimental is None,
        params.trace == Some(Trace::Verbose),
        params.workspace_folders is None,
{
    InitializeParams {
        process_id: Some(process_id as u64),
        root_path: Some(workspace_path.to_owned()),
        root_uri: Some(file_url(workspace_path)),
        initialization_options: None,
        capabilities: Capabilities {
            workspace: None,
            text_document: None,
            window: None,
            experimental: None,
        },
        trace: Some(Trace::Verbose),
        workspace_folders: None,
    }
}

} // verus!
