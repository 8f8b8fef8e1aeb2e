//! The entry points of the cache: where each kind of resource is kept, and the job that
//! fetches it on a miss.
use vstd::prelude::*;
use vstd::string::*;

use crate::cohost::{attachment_id_to_url, ATTACHMENT_REDIRECT_PREFIX};
use crate::fetch::{fresh_identifier, lemma_identifier_valid, imported_dir_name, imported_dir_name_for, sha256_of, RedirectTransform};
use crate::job::{first_step, fresh_job, CacheJob, JobKind, Step};
use crate::path::{namespace_root, valid_segment, within, CacheError, CachePath, Namespace};

verus! {

/// A platform resource to cache.
pub enum Cacheable {
    /// An attachment, reached through the redirect endpoint for its id.
    Attachment { id: String },
    /// A static asset, stored under `filename`.
    Static { filename: String, url: String },
    /// A project avatar, stored under `filename`.
    Avatar { filename: String, url: String },
    /// A project header image, stored under `filename`.
    Header { filename: String, url: String },
}

/// How a job for a platform resource is made: its kind, its place and its URL.
pub open spec fn resource_plan(c: &Cacheable) -> (JobKind, Seq<Seq<char>>, Seq<char>) {
    match c {
        Cacheable::Attachment { id } => (
            JobKind::Attachment(RedirectTransform::Identity),
            attachment_place(id@),
            ATTACHMENT_REDIRECT_PREFIX@ + id@,
        ),
        Cacheable::Static { filename, url } => (
            JobKind::Direct,
            namespace_root(Namespace::Static).push(filename@),
            url@,
        ),
        Cacheable::Avatar { filename, url } => (
            JobKind::Direct,
            namespace_root(Namespace::Avatar).push(filename@),
            url@,
        ),
        Cacheable::Header { filename, url } => (
            JobKind::Direct,
            namespace_root(Namespace::Header).push(filename@),
            url@,
        ),
    }
}

/// The name that a platform resource is kept under: its id or its file name.
pub open spec fn resource_key(c: &Cacheable) -> Seq<char> {
    match c {
        Cacheable::Attachment { id } => id@,
        Cacheable::Static { filename, .. } => filename@,
        Cacheable::Avatar { filename, .. } => filename@,
        Cacheable::Header { filename, .. } => filename@,
    }
}

/// The directory that caches attachment `id` in full size.
pub open spec fn attachment_place(id: Seq<char>) -> Seq<Seq<char>> {
    namespace_root(Namespace::Attachments).push(id)
}

/// The directory that caches the narrow variant of attachment `id`.
pub open spec fn thumbnail_place(id: Seq<char>) -> Seq<Seq<char>> {
    namespace_root(Namespace::Thumbs).push(id)
}

/// The directory that caches `url` for the imported post `post_basename`.
pub open spec fn imported_place(url: Seq<char>, post_basename: Seq<char>) -> Seq<Seq<char>> {
    namespace_root(Namespace::Imported).push(imported_dir_name(post_basename, sha256_of(url)))
}

/// The file name of a file to store from the local disk.
pub enum SourceName {
    /// The path has no file name.
    Missing,
    /// The file name is not text.
    NotText,
    /// The file name.
    Name(String),
}

/// Where a local file is stored, in the fresh directory `dir_name`.
pub open spec fn upload_place(dir_name: Seq<char>, source: SourceName) -> Result<Seq<Seq<char>>, CacheError> {
    if !valid_segment(dir_name) {
        Err(CacheError::InvalidName)
    } else {
        match source {
            SourceName::Missing => Err(CacheError::NoFilename),
            SourceName::NotText => Err(CacheError::UnsupportedFilename),
            SourceName::Name(n) => if valid_segment(n@) {
                Ok(namespace_root(Namespace::Uploads).push(dir_name).push(n@))
            } else {
                Err(CacheError::InvalidName)
            },
        }
    }
}

/// The path that a local file named `source` is stored at, in the directory `dir_name`.
pub fn upload_path(dir_name: &str, source: &SourceName) -> (r: Result<CachePath, CacheError>)
    ensures
        r matches Ok(p) ==> upload_place(dir_name@, *source) == Ok::<Seq<Seq<char>>, CacheError>(p@),
        r matches Err(e) ==> upload_place(dir_name@, *source) == Err::<Seq<Seq<char>>, CacheError>(e),
{
    let dir = match CachePath::root(Namespace::Uploads).join(dir_name) {
        Ok(d) => d,
        Err(e) => return Err(e),
    };
    match source {
        SourceName::Missing => Err(CacheError::NoFilename),
        SourceName::NotText => Err(CacheError::UnsupportedFilename),
        SourceName::Name(n) => dir.join(n.as_str()),
    }
}

/// The operations of the cache. Each one that fetches returns a job and its first step;
/// the caller performs the steps until one is `Step::Done` or `Step::Fail`.
pub trait AttachmentsContext {
    /// Where to copy a local file named `source`: a fresh directory of its own, under the
    /// file's own name.
    fn store(&self, source: &SourceName) -> (r: Result<CachePath, CacheError>)
        ensures
            *source is Missing ==> r == Err::<CachePath, CacheError>(CacheError::NoFilename),
            *source is NotText ==> r == Err::<CachePath, CacheError>(CacheError::UnsupportedFilename),
            source matches SourceName::Name(n) ==> (r is Ok <==> valid_segment(n@)),
            source matches SourceName::Name(n) && r is Err ==> r == Err::<CachePath, CacheError>(CacheError::InvalidName),
            r matches Ok(p) ==> (source matches SourceName::Name(n) && p@.len() == 2 && p@[1] == n@
                && p@[0].len() == 36 && valid_segment(p@[0])),
    ;

    /// The job that caches `url` for the imported post `post_basename`, in a directory
    /// named after the post and the SHA-256 digest of the URL.
    fn cache_imported(&self, url: &str, post_basename: &str) -> (r: Result<(CacheJob, Step), CacheError>)
        ensures
            sha256_of(url@).len() == 32,
            r is Ok <==> valid_segment(imported_dir_name(post_basename@, sha256_of(url@))),
            r matches Ok((j, s)) ==> j@ == fresh_job(JobKind::Imported, imported_place(url@, post_basename@), url@)
                && s@ == first_step(j@),
            r matches Err(e) ==> e == CacheError::InvalidName,
    ;

    /// The job that caches a platform resource.
    fn cache_cohost_resource(&self, cacheable: &Cacheable) -> (r: Result<(CacheJob, Step), CacheError>)
        ensures
            r is Ok <==> valid_segment(resource_key(cacheable)),
            r matches Ok((j, s)) ==> j@ == fresh_job(resource_plan(cacheable).0, resource_plan(cacheable).1, resource_plan(cacheable).2)
                && s@ == first_step(j@),
            r matches Err(e) ==> e == CacheError::InvalidName,
    ;

    /// The job that caches the narrow variant of attachment `id`, apart from its full size.
    fn cache_cohost_thumb(&self, id: &str) -> (r: Result<(CacheJob, Step), CacheError>)
        ensures
            r is Ok <==> valid_segment(id@),
            r matches Ok((j, s)) ==> j@ == fresh_job(
                JobKind::Attachment(RedirectTransform::Thumbnail),
                thumbnail_place(id@),
                ATTACHMENT_REDIRECT_PREFIX@ + id@,
            ) && s@ == first_step(j@),
            r matches Err(e) ==> e == CacheError::InvalidName,
    ;
}

/// The cache as it is kept on disk under the storage root.
pub struct RealAttachmentsContext;

/// The job of kind `kind` that caches `url` at `name` under namespace `ns`.
fn start_under(ns: Namespace, name: &str, kind: JobKind, url: String) -> (r: Result<(CacheJob, Step), CacheError>)
    ensures
        r is Ok <==> valid_segment(name@),
        r matches Ok((j, s)) ==> j@ == fresh_job(kind, namespace_root(ns).push(name@), url@)
            && s@ == first_step(j@),
        r matches Err(e) ==> e == CacheError::InvalidName,
{
    match CachePath::root(ns).join(name) {
        Ok(place) => Ok(CacheJob::start(kind, place, url)),
        Err(e) => Err(e),
    }
}

impl AttachmentsContext for RealAttachmentsContext {
    fn store(&self, source: &SourceName) -> (r: Result<CachePath, CacheError>) {
        let dir_name = fresh_identifier();
        proof {
            lemma_identifier_valid(dir_name@);
        }
        upload_path(dir_name.as_str(), source)
    }

    fn cache_imported(&self, url: &str, post_basename: &str) -> (r: Result<(CacheJob, Step), CacheError>) {
        let name = imported_dir_name_for(post_basename, url);
        start_under(Namespace::Imported, name.as_str(), JobKind::Imported, String::from_str(url))
    }

    fn cache_cohost_resource(&self, cacheable: &Cacheable) -> (r: Result<(CacheJob, Step), CacheError>) {
        match cacheable {
            Cacheable::Attachment { id } => start_under(
                Namespace::Attachments,
                id.as_str(),
                JobKind::Attachment(RedirectTransform::Identity),
                attachment_id_to_url(id.as_str()),
            ),
            Cacheable::Static { filename, url } => start_under(
                Namespace::Static,
                filename.as_str(),
                JobKind::Direct,
                String::from_str(url.as_str()),
            ),
            Cacheable::Avatar { filename, url } => start_under(
                Namespace::Avatar,
                filename.as_str(),
                JobKind::Direct,
                String::from_str(url.as_str()),
            ),
            Cacheable::Header { filename, url } => start_under(
                Namespace::Header,
                filename.as_str(),
                JobKind::Direct,
                String::from_str(url.as_str()),
            ),
        }
    }

    fn cache_cohost_thumb(&self, id: &str) -> (r: Result<(CacheJob, Step), CacheError>) {
        start_under(
            Namespace::Thumbs,
            id,
            JobKind::Attachment(RedirectTransform::Thumbnail),
            attachment_id_to_url(id),
        )
    }
}

} // verus!

verus! {

/// The full-size cache of an attachment and the cache of its narrow variant share the id
/// but no storage: nothing within one lies within the other. Together with
/// `lemma_job_stays_within`, a job for one never reads or writes the other. The one id
/// for which this fails is `thumbs`, whose full-size directory is the thumbnails' root.
pub proof fn lemma_thumbnail_isolation(id: Seq<char>, p: Seq<Seq<char>>)
    requires
        id != "thumbs"@,
    ensures
        within(p, thumbnail_place(id)) ==> !within(p, attachment_place(id)),
        within(p, attachment_place(id)) ==> !within(p, thumbnail_place(id)),
{
    let t = thumbnail_place(id);
    let a = attachment_place(id);
    assert(t =~= seq!["thumbs"@, id]);
    assert(a =~= seq![id]);
    if within(p, t) && within(p, a) {
        assert(p.subrange(0, 2)[0] == p[0]);
        assert(p.subrange(0, 1)[0] == p[0]);
        assert(p[0] == "thumbs"@);
        assert(p[0] == id);
    }
}

} // verus!
