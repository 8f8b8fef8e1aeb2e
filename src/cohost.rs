//! The platform's URL shapes and the records that its API hands out.
use vstd::prelude::*;
use vstd::string::*;

use crate::text::{concat, has_prefix, is_last_split, rsplit_once_char, strip_prefix};

verus! {

/// The endpoint that redirects an attachment id to the asset it names.
pub const ATTACHMENT_REDIRECT_PREFIX: &'static str = "https://cohost.org/rc/attachment-redirect/";

/// The API path under which attachments are also reachable.
pub const ATTACHMENT_API_PREFIX: &'static str = "https://cohost.org/api/v1/attachments/";

/// The content network's path for attachments.
pub const ATTACHMENT_CDN_PREFIX: &'static str = "https://staging.cohostcdn.org/attachment/";

/// Where custom emoji and other static assets are served from.
pub const STATIC_PREFIX: &'static str = "https://cohost.org/static/";

/// Where a project's page lives, before its handle.
pub const PROJECT_PREFIX: &'static str = "https://cohost.org/";

/// The number of characters in an attachment id.
pub const ATTACHMENT_ID_LEN: usize = 36;

/// What follows `prefix` in `url`, if `url` starts with it.
pub open spec fn after_prefix(url: Seq<char>, prefix: Seq<char>) -> Option<Seq<char>> {
    if has_prefix(url, prefix) {
        Some(url.subrange(prefix.len() as int, url.len() as int))
    } else {
        None
    }
}

/// The attachment id that an attachment URL names: the first 36 characters after one of
/// the known attachment prefixes, tried in order.
pub open spec fn spec_attachment_url_to_id(url: Seq<char>) -> Option<Seq<char>> {
    let rest = if has_prefix(url, ATTACHMENT_REDIRECT_PREFIX@) {
        after_prefix(url, ATTACHMENT_REDIRECT_PREFIX@)
    } else if has_prefix(url, ATTACHMENT_API_PREFIX@) {
        after_prefix(url, ATTACHMENT_API_PREFIX@)
    } else {
        after_prefix(url, ATTACHMENT_CDN_PREFIX@)
    };
    match rest {
        Some(r) => if r.len() >= ATTACHMENT_ID_LEN {
            Some(r.subrange(0, ATTACHMENT_ID_LEN as int))
        } else {
            None
        },
        None => None,
    }
}

/// The URL of the redirect endpoint for attachment `id`.
pub fn attachment_id_to_url(id: &str) -> (r: String)
    ensures
        r@ == ATTACHMENT_REDIRECT_PREFIX@ + id@,
{
    concat(ATTACHMENT_REDIRECT_PREFIX, id)
}

/// The attachment id in an attachment URL of any of the known shapes.
pub fn attachment_url_to_id(url: &str) -> (r: Option<&str>)
    ensures
        r matches Some(id) ==> spec_attachment_url_to_id(url@) == Some(id@),
        r is None ==> spec_attachment_url_to_id(url@) is None,
{
    let rest = match strip_prefix(url, ATTACHMENT_REDIRECT_PREFIX) {
        Some(r) => Some(r),
        None => match strip_prefix(url, ATTACHMENT_API_PREFIX) {
            Some(r) => Some(r),
            None => strip_prefix(url, ATTACHMENT_CDN_PREFIX),
        },
    };
    match rest {
        Some(r) => {
            if r.unicode_len() >= ATTACHMENT_ID_LEN {
                Some(r.substring_char(0, ATTACHMENT_ID_LEN))
            } else {
                None
            }
        },
        None => None,
    }
}

/// The id of a custom emoji: its file name under the static path, without the extension
/// that follows the last dot.
pub open spec fn is_custom_emoji_id(url: Seq<char>, id: Seq<char>) -> bool {
    has_prefix(url, STATIC_PREFIX@) && exists|ext: Seq<char>|
        is_last_split(url.subrange(STATIC_PREFIX@.len() as int, url.len() as int), '.', id, ext)
}

/// A static URL whose file name holds a dot.
pub open spec fn is_custom_emoji_url(url: Seq<char>) -> bool {
    has_prefix(url, STATIC_PREFIX@) && url.subrange(STATIC_PREFIX@.len() as int, url.len() as int).contains('.')
}

/// The id of the custom emoji at `url`.
pub fn custom_emoji_url_to_id(url: &str) -> (r: Option<&str>)
    ensures
        r is Some <==> is_custom_emoji_url(url@),
        r matches Some(id) ==> is_custom_emoji_id(url@, id@),
{
    match strip_prefix(url, STATIC_PREFIX) {
        Some(basename) => match rsplit_once_char(basename, '.') {
            Some((id, _extension)) => Some(id),
            None => None,
        },
        None => None,
    }
}

/// The project that made a post.
pub struct PostingProject {
    pub handle: String,
    pub displayName: String,
    pub privacy: String,
    pub loggedOutPostVisibility: String,
}

/// A markdown block of a post.
pub struct Markdown {
    pub content: String,
}

/// An ask that a post answers.
pub struct Ask {
    pub content: String,
    pub askingProject: Option<AskingProject>,
    pub anon: bool,
    pub loggedIn: bool,
}

/// The project that sent an ask, where it was not anonymous.
pub struct AskingProject {
    pub handle: String,
    pub displayName: String,
}

/// Where the rendered forms of a post's markdown blocks are.
pub struct AstMap {
    pub spans: Vec<Span>,
}

/// One rendered markdown block and the range of the source that it covers.
pub struct Span {
    pub ast: String,
    pub startIndex: usize,
    pub endIndex: usize,
}

/// The envelope of an RPC response.
pub struct TrpcResponse<T> {
    pub result: TrpcResult<T>,
}

/// The result inside an RPC response.
pub struct TrpcResult<T> {
    pub data: T,
}

/// The projects that the logged-in account can edit.
pub struct ListEditedProjectsResponse {
    pub projects: Vec<EditedProject>,
}

/// A project that the logged-in account can edit.
pub struct EditedProject {
    pub projectId: usize,
    pub handle: String,
    pub displayName: String,
}

/// The project that the session is logged in as.
pub struct LoggedInResponse {
    pub projectId: usize,
}

/// How a post's author is shown on rendered pages.
#[derive(Debug, Clone, PartialEq, Eq)]
pub struct Author {
    pub href: String,
    pub name: String,
    pub display_name: String,
    pub display_handle: String,
}

/// The author's name as shown: the display name with the handle, or the handle alone
/// where there is no display name.
pub open spec fn shown_name(display_name: Seq<char>, handle: Seq<char>) -> Seq<char> {
    if display_name.len() == 0 {
        seq!['@'] + handle
    } else {
        display_name + seq![' ', '(', '@'] + handle + seq![')']
    }
}

impl Author {
    /// The author of a post made by `project`.
    pub fn from_posting_project(project: &PostingProject) -> (r: Author)
        ensures
            r.href@ == PROJECT_PREFIX@ + project.handle@,
            r.name@ == shown_name(project.displayName@, project.handle@),
            r.display_name@ == project.displayName@,
            r.display_handle@ == seq!['@'] + project.handle@,
    {
        let handle = project.handle.as_str();
        let display_handle = concat("@", handle);
        proof {
            reveal_strlit("@");
            reveal_strlit(" (@");
            reveal_strlit(")");
        }
        let name = if project.displayName.unicode_len() == 0 {
            concat("@", handle)
        } else {
            let opened = concat(project.displayName.as_str(), " (@");
            let with_handle = concat(opened.as_str(), handle);
            concat(with_handle.as_str(), ")")
        };
        Author {
            href: concat(PROJECT_PREFIX, handle),
            name,
            display_name: project.displayName.clone(),
            display_handle,
        }
    }
}

impl<'a> From<&'a PostingProject> for Author {
    fn from(project: &'a PostingProject) -> Author {
        Author::from_posting_project(project)
    }
}

impl<'a> vstd::std_specs::convert::FromSpecImpl<&'a PostingProject> for Author {
    open spec fn obeys_from_spec() -> bool {
        false
    }

    open spec fn from_spec(v: &'a PostingProject) -> Author {
        arbitrary()
    }
}

} // verus!
