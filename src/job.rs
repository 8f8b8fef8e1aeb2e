//! The decisions of one caching attempt, as a machine from phase and event to next phase
//! and step. The caller performs each step (a directory listing, a request, a write) and
//! hands back what it saw; the machine never touches the network or the disk itself.
use vstd::prelude::*;
use vstd::string::*;

use crate::fetch::{
    imported_file_name, imported_file_name_of, owned_view, lemma_imported_file_name_valid, redirect_file_name,
    redirect_file_name_of, transformed, RedirectTransform,
};
use crate::path::{valid_segment, within, CacheError, CachePath};

verus! {

/// How many times the redirect endpoint is asked again after an answer without a target.
pub const REDIRECT_RETRIES: u32 = 2;

/// What the caller saw when it performed a step.
pub enum Event {
    /// The first entry of a directory (for a probe: the first one that could be read).
    Entry(Option<String>),
    /// Whether a file could be opened and read.
    Exists(bool),
    /// The `Location` header of an answer from the redirect endpoint.
    Redirect(Option<String>),
    /// A download finished; its `Content-Type` header, where it was text.
    Fetched(Option<String>),
    /// The downloaded bytes were written.
    Written,
}

/// An event, with its texts as character sequences.
pub enum EventView {
    Entry(Option<Seq<char>>),
    Exists(bool),
    Redirect(Option<Seq<char>>),
    Fetched(Option<Seq<char>>),
    Written,
}

impl View for Event {
    type V = EventView;

    open spec fn view(&self) -> EventView {
        match self {
            Event::Entry(n) => EventView::Entry(owned_view(*n)),
            Event::Exists(b) => EventView::Exists(*b),
            Event::Redirect(l) => EventView::Redirect(owned_view(*l)),
            Event::Fetched(t) => EventView::Fetched(owned_view(*t)),
            Event::Written => EventView::Written,
        }
    }
}

/// What the caller is to do next.
pub enum Step {
    /// Create the directory if it is absent, then report its first entry that can be
    /// opened and read, as `Event::Entry`.
    Probe(CachePath),
    /// Create the file's directory if it is absent, then report whether the file can be
    /// opened and read, as `Event::Exists`.
    Check(CachePath),
    /// Report the first entry of the directory, as `Event::Entry`.
    List(CachePath),
    /// Send a HEAD request that does not follow redirects, and report its `Location`
    /// header as `Event::Redirect`.
    Head(String),
    /// Send a GET request, keep its body, and report its `Content-Type` as `Event::Fetched`.
    Get(String),
    /// Write the body of the last download to the file, then report `Event::Written`.
    Write(CachePath),
    /// The resource is cached at this path.
    Done(CachePath),
    /// Caching the resource failed.
    Fail(CacheError),
}

/// A step, with its paths and URLs as sequences.
pub enum StepView {
    Probe(Seq<Seq<char>>),
    Check(Seq<Seq<char>>),
    List(Seq<Seq<char>>),
    Head(Seq<char>),
    Get(Seq<char>),
    Write(Seq<Seq<char>>),
    Done(Seq<Seq<char>>),
    Fail(CacheError),
}

impl View for Step {
    type V = StepView;

    open spec fn view(&self) -> StepView {
        match self {
            Step::Probe(p) => StepView::Probe(p@),
            Step::Check(p) => StepView::Check(p@),
            Step::List(p) => StepView::List(p@),
            Step::Head(u) => StepView::Head(u@),
            Step::Get(u) => StepView::Get(u@),
            Step::Write(p) => StepView::Write(p@),
            Step::Done(p) => StepView::Done(p@),
            Step::Fail(e) => StepView::Fail(*e),
        }
    }
}

/// The step sends a request over the network.
pub open spec fn is_network(s: StepView) -> bool {
    s is Head || s is Get
}

/// How a resource is fetched on a miss.
#[derive(Debug, Clone, Copy, PartialEq, Eq, Structural)]
pub enum JobKind {
    /// A plain download into a directory of its own, named after its content type.
    Imported,
    /// A download behind the platform's redirect endpoint, named after the redirect target,
    /// whose target is rewritten before the download.
    Attachment(RedirectTransform),
    /// A plain download to a file whose path is known in advance.
    Direct,
}

/// Where a job stands.
pub enum Phase {
    /// The cache is being probed.
    Probing,
    /// The redirect endpoint was asked; this many more tries are left.
    Resolving(u32),
    /// The resource is being downloaded, to this file where it is known already.
    Downloading(Option<CachePath>),
    /// The resource is being written to this file.
    Writing(CachePath),
    /// The directory is being listed once more for the file that it now holds.
    Confirming,
    /// The job has handed out its result.
    Finished,
}

/// A phase, with its paths as sequences.
pub enum PhaseView {
    Probing,
    Resolving(nat),
    Downloading(Option<Seq<Seq<char>>>),
    Writing(Seq<Seq<char>>),
    Confirming,
    Finished,
}

impl View for Phase {
    type V = PhaseView;

    open spec fn view(&self) -> PhaseView {
        match self {
            Phase::Probing => PhaseView::Probing,
            Phase::Resolving(n) => PhaseView::Resolving(*n as nat),
            Phase::Downloading(Some(f)) => PhaseView::Downloading(Some(f@)),
            Phase::Downloading(None) => PhaseView::Downloading(None),
            Phase::Writing(f) => PhaseView::Writing(f@),
            Phase::Confirming => PhaseView::Confirming,
            Phase::Finished => PhaseView::Finished,
        }
    }
}

/// A job: what it fetches, where it caches it, and how far it has come.
pub struct CacheJob {
    kind: JobKind,
    place: CachePath,
    url: String,
    phase: Phase,
}

/// The model of a job. `place` is the cache directory, or for a direct job the file.
pub struct JobView {
    pub kind: JobKind,
    pub place: Seq<Seq<char>>,
    pub url: Seq<char>,
    pub phase: PhaseView,
}

impl View for CacheJob {
    type V = JobView;

    closed spec fn view(&self) -> JobView {
        JobView { kind: self.kind, place: self.place@, url: self.url@, phase: self.phase@ }
    }
}

/// A job that has not started yet.
pub open spec fn fresh_job(kind: JobKind, place: Seq<Seq<char>>, url: Seq<char>) -> JobView {
    JobView { kind, place, url, phase: PhaseView::Probing }
}

/// The first step of a job: probe its directory, or check its file.
pub open spec fn first_step(j: JobView) -> StepView {
    match j.kind {
        JobKind::Direct => StepView::Check(j.place),
        _ => StepView::Probe(j.place),
    }
}

/// The rewrite that a job applies to a redirect target.
pub open spec fn transform_of(kind: JobKind) -> RedirectTransform {
    match kind {
        JobKind::Attachment(t) => t,
        _ => RedirectTransform::Identity,
    }
}

/// The entry `name` of directory `dir` is the result, where it is a valid name.
pub open spec fn found(dir: Seq<Seq<char>>, name: Seq<char>) -> StepView {
    if valid_segment(name) {
        StepView::Done(dir.push(name))
    } else {
        StepView::Fail(CacheError::InvalidName)
    }
}

/// The job in phase `phase`.
pub open spec fn in_phase(j: JobView, phase: PhaseView) -> JobView {
    JobView { phase, ..j }
}

/// What a job does on event `e`: its next model and the step it asks for.
pub open spec fn next(j: JobView, e: EventView) -> (JobView, StepView) {
    let done = in_phase(j, PhaseView::Finished);
    match (j.phase, e) {
        (PhaseView::Probing, EventView::Entry(Some(name))) => match j.kind {
            JobKind::Imported => (done, found(j.place, name)),
            JobKind::Attachment(_) => (in_phase(j, PhaseView::Confirming), StepView::List(j.place)),
            JobKind::Direct => (j, StepView::Fail(CacheError::OutOfOrder)),
        },
        (PhaseView::Probing, EventView::Entry(None)) => match j.kind {
            JobKind::Imported => (in_phase(j, PhaseView::Downloading(None)), StepView::Get(j.url)),
            JobKind::Attachment(_) => (
                in_phase(j, PhaseView::Resolving(REDIRECT_RETRIES as nat)),
                StepView::Head(j.url),
            ),
            JobKind::Direct => (j, StepView::Fail(CacheError::OutOfOrder)),
        },
        (PhaseView::Probing, EventView::Exists(present)) => if j.kind is Direct {
            if present {
                (done, StepView::Done(j.place))
            } else {
                (in_phase(j, PhaseView::Downloading(Some(j.place))), StepView::Get(j.url))
            }
        } else {
            (j, StepView::Fail(CacheError::OutOfOrder))
        },
        (PhaseView::Resolving(left), EventView::Redirect(None)) => if left == 0 {
            (done, StepView::Fail(CacheError::RedirectExpected))
        } else {
            (in_phase(j, PhaseView::Resolving((left - 1) as nat)), StepView::Head(j.url))
        },
        (PhaseView::Resolving(_), EventView::Redirect(Some(target))) => match redirect_file_name(
            target,
        ) {
            Err(e) => (done, StepView::Fail(e)),
            Ok(name) => if valid_segment(name) {
                (
                    in_phase(j, PhaseView::Downloading(Some(j.place.push(name)))),
                    StepView::Get(transformed(transform_of(j.kind), target)),
                )
            } else {
                (done, StepView::Fail(CacheError::InvalidName))
            },
        },
        (PhaseView::Downloading(Some(file)), EventView::Fetched(_)) => (
            in_phase(j, PhaseView::Writing(file)),
            StepView::Write(file),
        ),
        (PhaseView::Downloading(None), EventView::Fetched(content_type)) => {
            let file = j.place.push(imported_file_name(content_type));
            (in_phase(j, PhaseView::Writing(file)), StepView::Write(file))
        },
        (PhaseView::Writing(file), EventView::Written) => if j.kind is Attachment {
            (in_phase(j, PhaseView::Confirming), StepView::List(j.place))
        } else {
            (done, StepView::Done(file))
        },
        (PhaseView::Confirming, EventView::Entry(None)) => (
            done,
            StepView::Fail(CacheError::EmptyCacheDirectory),
        ),
        (PhaseView::Confirming, EventView::Entry(Some(name))) => (done, found(j.place, name)),
        _ => (j, StepView::Fail(CacheError::OutOfOrder)),
    }
}

/// The step that names entry `name` of `dir` as the result.
fn found_step(dir: &CachePath, name: &str) -> (r: Step)
    ensures
        r@ == found(dir@, name@),
{
    match dir.join(name) {
        Ok(p) => Step::Done(p),
        Err(e) => Step::Fail(e),
    }
}

/// A job made of its parts.
fn job(kind: JobKind, place: CachePath, url: String, phase: Phase) -> (r: CacheJob)
    ensures
        r@ == (JobView { kind, place: place@, url: url@, phase: phase@ }),
{
    CacheJob { kind, place, url, phase }
}

impl CacheJob {
    /// How this job fetches its resource on a miss.
    pub fn kind(&self) -> (r: JobKind)
        ensures
            r == self@.kind,
    {
        self.kind
    }

    /// A job of kind `kind` that caches `url` at `place`, and its first step.
    pub fn start(kind: JobKind, place: CachePath, url: String) -> (r: (CacheJob, Step))
        ensures
            r.0@ == fresh_job(kind, place@, url@),
            r.1@ == first_step(r.0@),
    {
        let first = match kind {
            JobKind::Direct => Step::Check(place.duplicate()),
            _ => Step::Probe(place.duplicate()),
        };
        (CacheJob { kind, place, url, phase: Phase::Probing }, first)
    }

    /// Takes the event that the last step produced, and returns the job as it goes on
    /// with the step to perform next.
    pub fn step(self, event: Event) -> (r: (CacheJob, Step))
        ensures
            (r.0@, r.1@) == next(self@, event@),
    {
        let CacheJob { kind, place, url, phase } = self;
        match phase {
            Phase::Probing => match event {
                Event::Entry(Some(name)) => match kind {
                    JobKind::Imported => {
                        let s = found_step(&place, name.as_str());
                        (job(kind, place, url, Phase::Finished), s)
                    },
                    JobKind::Attachment(_) => {
                        let s = Step::List(place.duplicate());
                        (job(kind, place, url, Phase::Confirming), s)
                    },
                    JobKind::Direct => (job(kind, place, url, Phase::Probing), Step::Fail(CacheError::OutOfOrder)),
                },
                Event::Entry(None) => match kind {
                    JobKind::Imported => {
                        let s = Step::Get(String::from_str(url.as_str()));
                        (job(kind, place, url, Phase::Downloading(None)), s)
                    },
                    JobKind::Attachment(_) => {
                        let s = Step::Head(String::from_str(url.as_str()));
                        (job(kind, place, url, Phase::Resolving(REDIRECT_RETRIES)), s)
                    },
                    JobKind::Direct => (job(kind, place, url, Phase::Probing), Step::Fail(CacheError::OutOfOrder)),
                },
                Event::Exists(present) => if let JobKind::Direct = kind {
                    if present {
                        let s = Step::Done(place.duplicate());
                        (job(kind, place, url, Phase::Finished), s)
                    } else {
                        let s = Step::Get(String::from_str(url.as_str()));
                        let file = place.duplicate();
                        (job(kind, place, url, Phase::Downloading(Some(file))), s)
                    }
                } else {
                    (job(kind, place, url, Phase::Probing), Step::Fail(CacheError::OutOfOrder))
                },
                _ => (job(kind, place, url, Phase::Probing), Step::Fail(CacheError::OutOfOrder)),
            },
            Phase::Resolving(left) => match event {
                Event::Redirect(None) => if left == 0 {
                    (job(kind, place, url, Phase::Finished), Step::Fail(CacheError::RedirectExpected))
                } else {
                    let s = Step::Head(String::from_str(url.as_str()));
                    (job(kind, place, url, Phase::Resolving(left - 1)), s)
                },
                Event::Redirect(Some(target)) => match redirect_file_name_of(target.as_str()) {
                    Err(e) => (job(kind, place, url, Phase::Finished), Step::Fail(e)),
                    Ok(name) => match place.join(name.as_str()) {
                        Ok(file) => {
                            let transform = match kind {
                                JobKind::Attachment(t) => t,
                                _ => RedirectTransform::Identity,
                            };
                            let s = Step::Get(transform.apply(target.as_str()));
                            (job(kind, place, url, Phase::Downloading(Some(file))), s)
                        },
                        Err(e) => (job(kind, place, url, Phase::Finished), Step::Fail(e)),
                    },
                },
                _ => {
                    (job(kind, place, url, Phase::Resolving(left)), Step::Fail(CacheError::OutOfOrder))
                },
            },
            Phase::Downloading(file) => match event {
                Event::Fetched(content_type) => {
                    let file = match file {
                        Some(f) => f,
                        None => {
                            let name = imported_file_name_of(
                                match &content_type {
                                    Some(t) => Some(t.as_str()),
                                    None => None,
                                },
                            );
                            proof {
                                lemma_imported_file_name_valid(owned_view(content_type));
                            }
                            match place.join(name.as_str()) {
                                Ok(f) => f,
                                Err(e) => {
                                    assert(false);
                                    return (job(kind, place, url, Phase::Finished), Step::Fail(e));
                                },
                            }
                        },
                    };
                    let s = Step::Write(file.duplicate());
                    (job(kind, place, url, Phase::Writing(file)), s)
                },
                _ => {
                    (job(kind, place, url, Phase::Downloading(file)), Step::Fail(CacheError::OutOfOrder))
                },
            },
            Phase::Writing(file) => match event {
                Event::Written => if let JobKind::Attachment(_) = kind {
                    let s = Step::List(place.duplicate());
                    (job(kind, place, url, Phase::Confirming), s)
                } else {
                    (job(kind, place, url, Phase::Finished), Step::Done(file))
                },
                _ => {
                    (job(kind, place, url, Phase::Writing(file)), Step::Fail(CacheError::OutOfOrder))
                },
            },
            Phase::Confirming => match event {
                Event::Entry(None) => (
                    job(kind, place, url, Phase::Finished),
                    Step::Fail(CacheError::EmptyCacheDirectory),
                ),
                Event::Entry(Some(name)) => {
                    let s = found_step(&place, name.as_str());
                    (job(kind, place, url, Phase::Finished), s)
                },
                _ => (job(kind, place, url, Phase::Confirming), Step::Fail(CacheError::OutOfOrder)),
            },
            Phase::Finished => (job(kind, place, url, Phase::Finished), Step::Fail(CacheError::OutOfOrder)),
        }
    }
}

} // verus!

verus! {

/// Once a job's probe finds the resource, the job returns it without a request over the
/// network: an imported resource or a file at once, an attachment after one more listing
/// of its directory. The path it returns is the one the earlier download wrote.
pub proof fn lemma_cache_hit_is_offline(j: JobView, name: Seq<char>)
    requires
        j.phase is Probing,
        valid_segment(name),
    ensures
        j.kind is Imported ==> next(j, EventView::Entry(Some(name))).1 == StepView::Done(
            j.place.push(name),
        ),
        j.kind is Attachment ==> ({
            let (j1, s1) = next(j, EventView::Entry(Some(name)));
            &&& !is_network(s1)
            &&& next(j1, EventView::Entry(Some(name))).1 == StepView::Done(j.place.push(name))
        }),
        j.kind is Direct ==> next(j, EventView::Exists(true)).1 == StepView::Done(j.place),
{
}

/// A probe that finds nothing, such as an empty directory made by an earlier attempt,
/// is a miss: the job goes on to the network and does not fail.
pub proof fn lemma_empty_directory_is_miss(j: JobView)
    requires
        j.phase is Probing,
        !(j.kind is Direct),
    ensures
        is_network(next(j, EventView::Entry(None)).1),
        next(j, EventView::Entry(None)).1 == (if j.kind is Imported {
            StepView::Get(j.url)
        } else {
            StepView::Head(j.url)
        }),
{
}

/// The redirect endpoint is asked three times in all. Three answers without a target
/// fail with `RedirectExpected`; a target on the second or third answer is used just as
/// one on the first would have been.
pub proof fn lemma_redirect_retry_bound(j: JobView, target: Seq<char>)
    requires
        j.phase is Probing,
        j.kind is Attachment,
    ensures
        ({
            let (j0, s0) = next(j, EventView::Entry(None));
            let (j1, s1) = next(j0, EventView::Redirect(None));
            let (j2, s2) = next(j1, EventView::Redirect(None));
            let (j3, s3) = next(j2, EventView::Redirect(None));
            &&& s0 == StepView::Head(j.url)
            &&& s1 == StepView::Head(j.url)
            &&& s2 == StepView::Head(j.url)
            &&& s3 == StepView::Fail(CacheError::RedirectExpected)
            &&& next(j1, EventView::Redirect(Some(target))) == next(j0, EventView::Redirect(Some(target)))
            &&& next(j2, EventView::Redirect(Some(target))) == next(j0, EventView::Redirect(Some(target)))
        }),
{
}

/// A redirect target that names a valid file leads to a download of the rewritten target
/// into that file of the job's directory.
pub proof fn lemma_redirect_target_used(j: JobView, target: Seq<char>, name: Seq<char>)
    requires
        j.phase is Resolving,
        redirect_file_name(target) == Ok::<Seq<char>, CacheError>(name),
        valid_segment(name),
    ensures
        next(j, EventView::Redirect(Some(target))) == (
            in_phase(j, PhaseView::Downloading(Some(j.place.push(name)))),
            StepView::Get(transformed(transform_of(j.kind), target)),
        ),
{
}

/// A finished download of an imported resource is always written, whatever its content
/// type, as `file.` and the extension for that type; an unknown type never fails it.
pub proof fn lemma_any_content_type_is_stored(j: JobView, content_type: Option<Seq<char>>)
    requires
        j.phase == PhaseView::Downloading(None),
    ensures
        next(j, EventView::Fetched(content_type)).1 == StepView::Write(
            j.place.push(imported_file_name(content_type)),
        ),
{
}

/// The path that a step reads or writes, if any.
pub open spec fn step_path(s: StepView) -> Option<Seq<Seq<char>>> {
    match s {
        StepView::Probe(p) => Some(p),
        StepView::Check(p) => Some(p),
        StepView::List(p) => Some(p),
        StepView::Write(p) => Some(p),
        StepView::Done(p) => Some(p),
        _ => None,
    }
}

/// The files that a job's phase names lie within its place.
pub open spec fn phase_within(j: JobView) -> bool {
    match j.phase {
        PhaseView::Downloading(Some(f)) => within(f, j.place),
        PhaseView::Writing(f) => within(f, j.place),
        _ => true,
    }
}

/// A job keeps its kind, place and URL, and every path that it reads or writes lies
/// within its place.
pub proof fn lemma_job_stays_within(j: JobView, e: EventView)
    requires
        phase_within(j),
    ensures
        next(j, e).0.place == j.place,
        next(j, e).0.kind == j.kind,
        next(j, e).0.url == j.url,
        phase_within(next(j, e).0),
        step_path(next(j, e).1) matches Some(p) ==> within(p, j.place),
{
    assert forall|x: Seq<char>| #[trigger] j.place.push(x).subrange(0, j.place.len() as int) == j.place by {
        assert(j.place.push(x).subrange(0, j.place.len() as int) =~= j.place);
    }
    assert(j.place.subrange(0, j.place.len() as int) =~= j.place);
}

} // verus!
