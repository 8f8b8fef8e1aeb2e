//! Where each kind of cached resource lives under the storage root, and the checked
//! joining of names onto those places.
use vstd::prelude::*;
use vstd::string::*;

use crate::text::{contains_char, str_eq};

verus! {

/// Why caching a resource failed, apart from the transport and the filesystem.
#[derive(Debug, Clone, Copy, PartialEq, Eq, Structural)]
pub enum CacheError {
    /// The file to store has no file name.
    NoFilename,
    /// The file to store has a name that is not text.
    UnsupportedFilename,
    /// A name would not stay one segment below its directory.
    InvalidName,
    /// A cache directory that was just filled holds no entry.
    EmptyCacheDirectory,
    /// The redirect endpoint never named a target.
    RedirectExpected,
    /// The redirect target has no slash before its file name.
    MalformedRedirectTarget,
    /// The redirect target's file name does not decode to text.
    UndecodableFilename,
    /// A job was handed an event that its phase did not ask for.
    OutOfOrder,
}

/// A name that stays one segment below the directory it is joined onto.
pub open spec fn valid_segment(s: Seq<char>) -> bool {
    &&& s.len() > 0
    &&& s != seq!['.']
    &&& s != seq!['.', '.']
    &&& !s.contains('/')
    &&& !s.contains('\0')
}

/// Whether `s` can be joined onto a cache path.
pub fn is_valid_segment(s: &str) -> (r: bool)
    ensures
        r == valid_segment(s@),
{
    proof {
        reveal_strlit(".");
        reveal_strlit("..");
        assert("."@ =~= seq!['.']);
        assert(".."@ =~= seq!['.', '.']);
    }
    s.unicode_len() > 0 && !str_eq(s, ".") && !str_eq(s, "..") && !contains_char(s, '/')
        && !contains_char(s, '\0')
}

/// A path below the storage root, as the sequence of its segments.
pub struct CachePath {
    segments: Vec<String>,
}

impl View for CachePath {
    type V = Seq<Seq<char>>;

    closed spec fn view(&self) -> Seq<Seq<char>> {
        self.segments@.map_values(|s: String| s@)
    }
}

/// Every segment of `p` is a valid one.
pub open spec fn valid_path(p: Seq<Seq<char>>) -> bool {
    forall|i: int| 0 <= i < p.len() ==> valid_segment(#[trigger] p[i])
}

/// `p` lies at or below `dir`.
pub open spec fn within(p: Seq<Seq<char>>, dir: Seq<Seq<char>>) -> bool {
    dir.len() <= p.len() && p.subrange(0, dir.len() as int) == dir
}

/// The kinds of resource, each with a place of its own under the storage root.
#[derive(Debug, Clone, Copy, PartialEq, Eq, Structural)]
pub enum Namespace {
    /// Files stored from the local disk, one fresh directory each.
    Uploads,
    /// Resources of imported posts, one directory per post and URL.
    Imported,
    /// Platform attachments, one directory per attachment id.
    Attachments,
    /// Narrow variants of platform attachments, one directory per attachment id.
    Thumbs,
    /// Platform static assets, one file each.
    Static,
    /// Project avatars, one file each.
    Avatar,
    /// Project header images, one file each.
    Header,
}

/// The directory of a namespace, relative to the storage root.
pub open spec fn namespace_root(ns: Namespace) -> Seq<Seq<char>> {
    match ns {
        Namespace::Uploads | Namespace::Imported | Namespace::Attachments => seq![],
        Namespace::Thumbs => seq!["thumbs"@],
        Namespace::Static => seq!["static"@],
        Namespace::Avatar => seq!["avatar"@],
        Namespace::Header => seq!["header"@],
    }
}

/// A name of lowercase letters and dots that does not start with a dot is valid.
pub proof fn lemma_plain_name_valid(s: Seq<char>)
    requires
        s.len() > 2,
        s[0] != '.',
        forall|i: int| 0 <= i < s.len() ==> ('a' <= #[trigger] s[i] <= 'z' || s[i] == '.'),
    ensures
        valid_segment(s),
{
    assert(s[0] != '.');
    assert(s != seq!['.']);
    assert(s != seq!['.', '.']);
    assert(!s.contains('/'));
    assert(!s.contains('\0'));
}

/// Each namespace lies at a valid path.
pub proof fn lemma_namespace_root_valid(ns: Namespace)
    ensures
        valid_path(namespace_root(ns)),
{
    reveal_strlit("thumbs");
    reveal_strlit("static");
    reveal_strlit("avatar");
    reveal_strlit("header");
    let r = namespace_root(ns);
    if r.len() == 1 {
        lemma_plain_name_valid(r[0]);
    }
}

/// The path of one named directory, as a single segment.
fn single(name: &str) -> (r: CachePath)
    requires
        valid_segment(name@),
    ensures
        r@ == seq![name@],
{
    let mut segments: Vec<String> = Vec::new();
    segments.push(String::from_str(name));
    proof {
        assert(segments@.map_values(|s: String| s@) =~= seq![name@]);
    }
    CachePath { segments }
}

impl CachePath {
    /// No segment of a cache path can leave its directory.
    #[verifier::type_invariant]
    spec fn well_formed(&self) -> bool {
        valid_path(self.segments@.map_values(|s: String| s@))
    }

    /// A copy of the segments, with `name` after them where it is given.
    fn copy_segments(&self, name: Option<&str>) -> (r: Vec<String>)
        ensures
            r@.map_values(|s: String| s@) == (match name {
                Some(n) => self@.push(n@),
                None => self@,
            }),
    {
        let mut segments: Vec<String> = Vec::new();
        let mut i: usize = 0;
        while i < self.segments.len()
            invariant
                i <= self.segments@.len(),
                segments@.len() == i,
                forall|j: int| 0 <= j < i ==> #[trigger] segments@[j]@ == self.segments@[j]@,
            decreases self.segments@.len() - i,
        {
            segments.push(String::from_str(self.segments[i].as_str()));
            i = i + 1;
        }
        match name {
            Some(n) => {
                segments.push(String::from_str(n));
                assert(segments@.map_values(|s: String| s@) =~= self@.push(n@));
            },
            None => {
                assert(segments@.map_values(|s: String| s@) =~= self@);
            },
        }
        segments
    }

    /// The directory of namespace `ns`.
    pub fn root(ns: Namespace) -> (r: CachePath)
        ensures
            r@ == namespace_root(ns),
            valid_path(r@),
    {
        proof {
            lemma_namespace_root_valid(ns);
            if namespace_root(ns).len() == 1 {
                assert(valid_segment(namespace_root(ns)[0]));
            }
        }
        match ns {
            Namespace::Uploads | Namespace::Imported | Namespace::Attachments => {
                let segments: Vec<String> = Vec::new();
                proof {
                    assert(segments@.map_values(|s: String| s@) =~= seq![]);
                }
                CachePath { segments }
            },
            Namespace::Thumbs => single("thumbs"),
            Namespace::Static => single("static"),
            Namespace::Avatar => single("avatar"),
            Namespace::Header => single("header"),
        }
    }

    /// The number of segments.
    pub fn len(&self) -> (r: usize)
        ensures
            r == self@.len(),
    {
        self.segments.len()
    }

    /// Segment `i`, counted from the storage root.
    pub fn segment(&self, i: usize) -> (r: &str)
        requires
            i < self@.len(),
        ensures
            r@ == self@[i as int],
    {
        self.segments[i].as_str()
    }

    /// A copy of this path.
    pub fn duplicate(&self) -> (r: CachePath)
        ensures
            r@ == self@,
            valid_path(r@),
    {
        proof {
            use_type_invariant(self);
        }
        CachePath { segments: self.copy_segments(None) }
    }

    /// This path with `name` as one more segment, where `name` is a valid one.
    pub fn join(&self, name: &str) -> (r: Result<CachePath, CacheError>)
        ensures
            r is Ok <==> valid_segment(name@),
            r matches Ok(p) ==> p@ == self@.push(name@) && valid_path(p@),
            r matches Err(e) ==> e == CacheError::InvalidName,
    {
        proof {
            use_type_invariant(self);
        }
        if !is_valid_segment(name) {
            return Err(CacheError::InvalidName);
        }
        let segments = self.copy_segments(Some(name));
        proof {
            let v = segments@.map_values(|s: String| s@);
            assert forall|i: int| 0 <= i < v.len() implies valid_segment(#[trigger] v[i]) by {
                if i < self@.len() {
                    assert(v[i] == self@[i]);
                }
            }
        }
        Ok(CachePath { segments })
    }
}

} // verus!
