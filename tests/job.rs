use autost_attachments::attachments::{
    upload_path, AttachmentsContext, Cacheable, RealAttachmentsContext, SourceName,
};
use autost_attachments::job::{CacheJob, Event, JobKind, Step, REDIRECT_RETRIES};
use autost_attachments::path::{CacheError, CachePath, Namespace};
use autost_attachments::fetch::RedirectTransform;

fn segments(p: &CachePath) -> Vec<String> {
    (0..p.len()).map(|i| p.segment(i).to_owned()).collect()
}

fn path_of(step: &Step) -> Vec<String> {
    match step {
        Step::Probe(p) | Step::Check(p) | Step::List(p) | Step::Write(p) | Step::Done(p) => {
            segments(p)
        }
        _ => panic!("step names no path"),
    }
}

fn is_network(step: &Step) -> bool {
    matches!(step, Step::Head(_) | Step::Get(_))
}

fn some(s: &str) -> Option<String> {
    Some(s.to_owned())
}

const ID: &str = "44444444-4444-4444-4444-444444444444";

fn attachment_job() -> (CacheJob, Step) {
    RealAttachmentsContext
        .cache_cohost_resource(&Cacheable::Attachment { id: ID.to_owned() })
        .ok()
        .unwrap()
}

fn thumb_job() -> (CacheJob, Step) {
    RealAttachmentsContext.cache_cohost_thumb(ID).ok().unwrap()
}

#[test]
fn attachment_job_probes_its_id_directory() {
    let (_, step) = attachment_job();
    assert!(matches!(step, Step::Probe(_)));
    assert_eq!(path_of(&step), vec![ID]);
}

#[test]
fn thumbnail_job_probes_its_own_directory() {
    let (_, step) = thumb_job();
    assert!(matches!(step, Step::Probe(_)));
    assert_eq!(path_of(&step), vec!["thumbs", ID]);
}

#[test]
fn attachment_miss_resolves_redirect_then_downloads() {
    let (job, _) = attachment_job();
    let (job, step) = job.step(Event::Entry(None));
    match &step {
        Step::Head(url) => assert_eq!(
            url,
            "https://cohost.org/rc/attachment-redirect/44444444-4444-4444-4444-444444444444"
        ),
        _ => panic!("expected a HEAD request"),
    }
    let (job, step) = job.step(Event::Redirect(some("https://cdn.example/x/My%20File.png")));
    match &step {
        Step::Get(url) => assert_eq!(url, "https://cdn.example/x/My%20File.png"),
        _ => panic!("expected a download"),
    }
    let (job, step) = job.step(Event::Fetched(some("image/png")));
    assert!(matches!(step, Step::Write(_)));
    assert_eq!(path_of(&step), vec![ID, "My File.png"]);
    let (job, step) = job.step(Event::Written);
    assert!(matches!(step, Step::List(_)));
    assert_eq!(path_of(&step), vec![ID]);
    let (_, step) = job.step(Event::Entry(some("My File.png")));
    assert!(matches!(step, Step::Done(_)));
    assert_eq!(path_of(&step), vec![ID, "My File.png"]);
}

#[test]
fn thumbnail_download_asks_for_narrow_variant() {
    let (job, _) = thumb_job();
    let (job, _) = job.step(Event::Entry(None));
    let (job, step) = job.step(Event::Redirect(some("https://cdn.example/x/a.png")));
    match &step {
        Step::Get(url) => assert_eq!(url, "https://cdn.example/x/a.png?width=675"),
        _ => panic!("expected a download"),
    }
    let (_, step) = job.step(Event::Fetched(None));
    assert_eq!(path_of(&step), vec!["thumbs", ID, "a.png"]);
}

#[test]
fn three_answers_without_location_fail() {
    assert_eq!(REDIRECT_RETRIES, 2);
    let (job, _) = attachment_job();
    let (job, step) = job.step(Event::Entry(None));
    assert!(matches!(step, Step::Head(_)));
    let (job, step) = job.step(Event::Redirect(None));
    assert!(matches!(step, Step::Head(_)));
    let (job, step) = job.step(Event::Redirect(None));
    assert!(matches!(step, Step::Head(_)));
    let (_, step) = job.step(Event::Redirect(None));
    assert!(matches!(step, Step::Fail(CacheError::RedirectExpected)));
}

#[test]
fn location_on_third_answer_is_used() {
    let (job, _) = attachment_job();
    let (job, _) = job.step(Event::Entry(None));
    let (job, _) = job.step(Event::Redirect(None));
    let (job, _) = job.step(Event::Redirect(None));
    let (_, step) = job.step(Event::Redirect(some("https://cdn.example/f/b.jpg")));
    match &step {
        Step::Get(url) => assert_eq!(url, "https://cdn.example/f/b.jpg"),
        _ => panic!("expected a download"),
    }
}

#[test]
fn location_on_second_answer_is_used() {
    let (job, _) = attachment_job();
    let (job, _) = job.step(Event::Entry(None));
    let (job, _) = job.step(Event::Redirect(None));
    let (job, step) = job.step(Event::Redirect(some("https://cdn.example/f/c.gif")));
    assert!(matches!(step, Step::Get(_)));
    let (_, step) = job.step(Event::Fetched(None));
    assert_eq!(path_of(&step), vec![ID, "c.gif"]);
}

#[test]
fn malformed_redirect_target_fails() {
    let (job, _) = attachment_job();
    let (job, _) = job.step(Event::Entry(None));
    let (_, step) = job.step(Event::Redirect(some("no-slash")));
    assert!(matches!(step, Step::Fail(CacheError::MalformedRedirectTarget)));
}

#[test]
fn redirect_target_ending_in_slash_has_no_valid_name() {
    let (job, _) = attachment_job();
    let (job, _) = job.step(Event::Entry(None));
    let (_, step) = job.step(Event::Redirect(some("https://cdn.example/dir/")));
    assert!(matches!(step, Step::Fail(CacheError::InvalidName)));
}

#[test]
fn attachment_hit_needs_no_network() {
    let (job, _) = attachment_job();
    let (job, step) = job.step(Event::Entry(some("a.png")));
    assert!(!is_network(&step));
    assert!(matches!(step, Step::List(_)));
    let (_, step) = job.step(Event::Entry(some("a.png")));
    assert!(matches!(step, Step::Done(_)));
    assert_eq!(path_of(&step), vec![ID, "a.png"]);
}

#[test]
fn empty_directory_is_a_miss() {
    let (job, _) = attachment_job();
    let (_, step) = job.step(Event::Entry(None));
    assert!(matches!(step, Step::Head(_)));
    let (job, _) = RealAttachmentsContext.cache_imported("https://x/y.png", "post-1").ok().unwrap();
    let (_, step) = job.step(Event::Entry(None));
    match &step {
        Step::Get(url) => assert_eq!(url, "https://x/y.png"),
        _ => panic!("expected a download"),
    }
}

#[test]
fn directory_empty_after_write_fails() {
    let (job, _) = attachment_job();
    let (job, _) = job.step(Event::Entry(None));
    let (job, _) = job.step(Event::Redirect(some("https://cdn.example/x/a.png")));
    let (job, _) = job.step(Event::Fetched(None));
    let (job, _) = job.step(Event::Written);
    let (_, step) = job.step(Event::Entry(None));
    assert!(matches!(step, Step::Fail(CacheError::EmptyCacheDirectory)));
}

#[test]
fn imported_miss_names_file_after_content_type() {
    let (job, step) = RealAttachmentsContext.cache_imported("https://x/y.png", "post-1").ok().unwrap();
    assert_eq!(
        path_of(&step),
        vec!["imported-post-1-3a814af6b264e817e32be245472e00a7c6e3640d63bf107f5183a05a587b9676"]
    );
    let (job, _) = job.step(Event::Entry(None));
    let (job, step) = job.step(Event::Fetched(some("image/webp")));
    let dir = "imported-post-1-3a814af6b264e817e32be245472e00a7c6e3640d63bf107f5183a05a587b9676";
    assert_eq!(path_of(&step), vec![dir, "file.webp"]);
    let (_, step) = job.step(Event::Written);
    assert!(matches!(step, Step::Done(_)));
    assert_eq!(path_of(&step), vec![dir, "file.webp"]);
}

#[test]
fn imported_unknown_type_is_stored_as_bin() {
    let (job, _) = RealAttachmentsContext.cache_imported("https://x/y", "p").ok().unwrap();
    let (job, _) = job.step(Event::Entry(None));
    let (_, step) = job.step(Event::Fetched(None));
    assert!(matches!(step, Step::Write(_)));
    assert_eq!(path_of(&step)[1], "file.bin");
}

#[test]
fn imported_hit_returns_cached_file() {
    let (job, step) = RealAttachmentsContext.cache_imported("https://x/y.png", "post-1").ok().unwrap();
    let dir = path_of(&step)[0].clone();
    let (_, step) = job.step(Event::Entry(some("file.png")));
    assert!(matches!(step, Step::Done(_)));
    assert_eq!(path_of(&step), vec![dir, "file.png".to_owned()]);
}

#[test]
fn imported_post_name_with_slash_is_invalid() {
    let r = RealAttachmentsContext.cache_imported("https://x/y.png", "a/b");
    assert!(matches!(r, Err(CacheError::InvalidName)));
}

#[test]
fn static_resource_checks_its_file() {
    let (job, step) = RealAttachmentsContext
        .cache_cohost_resource(&Cacheable::Static {
            filename: "emoji.png".to_owned(),
            url: "https://cohost.org/static/emoji.png".to_owned(),
        })
        .ok()
        .unwrap();
    assert!(matches!(step, Step::Check(_)));
    assert_eq!(path_of(&step), vec!["static", "emoji.png"]);
    let (job, step) = job.step(Event::Exists(false));
    match &step {
        Step::Get(url) => assert_eq!(url, "https://cohost.org/static/emoji.png"),
        _ => panic!("expected a download"),
    }
    let (job, step) = job.step(Event::Fetched(some("text/plain")));
    assert_eq!(path_of(&step), vec!["static", "emoji.png"]);
    let (_, step) = job.step(Event::Written);
    assert!(matches!(step, Step::Done(_)));
    assert_eq!(path_of(&step), vec!["static", "emoji.png"]);
}

#[test]
fn avatar_and_header_hits_need_no_network() {
    for (c, dir) in [
        (
            Cacheable::Avatar { filename: "a.png".to_owned(), url: "https://x/a.png".to_owned() },
            "avatar",
        ),
        (
            Cacheable::Header { filename: "h.png".to_owned(), url: "https://x/h.png".to_owned() },
            "header",
        ),
    ] {
        let (job, step) = RealAttachmentsContext.cache_cohost_resource(&c).ok().unwrap();
        assert_eq!(path_of(&step)[0], dir);
        let (_, step) = job.step(Event::Exists(true));
        assert!(matches!(step, Step::Done(_)));
        assert_eq!(path_of(&step)[0], dir);
    }
}

#[test]
fn invalid_resource_names_are_refused() {
    let r = RealAttachmentsContext.cache_cohost_resource(&Cacheable::Static {
        filename: "../x".to_owned(),
        url: "https://x".to_owned(),
    });
    assert!(matches!(r, Err(CacheError::InvalidName)));
    assert!(matches!(RealAttachmentsContext.cache_cohost_thumb(".."), Err(CacheError::InvalidName)));
}

#[test]
fn out_of_order_event_is_refused() {
    let (job, _) = attachment_job();
    let (_, step) = job.step(Event::Written);
    assert!(matches!(step, Step::Fail(CacheError::OutOfOrder)));
    let (job, _) = CacheJob::start(
        JobKind::Attachment(RedirectTransform::Identity),
        CachePath::root(Namespace::Attachments).join("x").ok().unwrap(),
        "https://x".to_owned(),
    );
    let (_, step) = job.step(Event::Exists(true));
    assert!(matches!(step, Step::Fail(CacheError::OutOfOrder)));
}

#[test]
fn store_keeps_file_name_in_fresh_directory() {
    let p = RealAttachmentsContext
        .store(&SourceName::Name("photo.jpg".to_owned()))
        .ok()
        .unwrap();
    let s = segments(&p);
    assert_eq!(s.len(), 2);
    assert_eq!(s[0].len(), 36);
    assert_eq!(s[1], "photo.jpg");
    let q = RealAttachmentsContext
        .store(&SourceName::Name("photo.jpg".to_owned()))
        .ok()
        .unwrap();
    assert_ne!(segments(&q)[0], s[0]);
}

#[test]
fn store_errors() {
    assert!(matches!(
        RealAttachmentsContext.store(&SourceName::Missing),
        Err(CacheError::NoFilename)
    ));
    assert!(matches!(
        RealAttachmentsContext.store(&SourceName::NotText),
        Err(CacheError::UnsupportedFilename)
    ));
    assert!(matches!(
        upload_path("d", &SourceName::Name("..".to_owned())),
        Err(CacheError::InvalidName)
    ));
    assert!(matches!(
        upload_path("", &SourceName::Name("a".to_owned())),
        Err(CacheError::InvalidName)
    ));
    let p = upload_path("d", &SourceName::Name("a.txt".to_owned())).ok().unwrap();
    assert_eq!(segments(&p), vec!["d", "a.txt"]);
}
