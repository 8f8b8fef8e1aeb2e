use autost_attachments::cohost::{
    attachment_id_to_url, attachment_url_to_id, custom_emoji_url_to_id, Author, PostingProject,
};

#[test]
fn test_attachment_url_to_id() {
    assert_eq!(
        attachment_url_to_id(
            "https://cohost.org/rc/attachment-redirect/44444444-4444-4444-4444-444444444444?query"
        ),
        Some("44444444-4444-4444-4444-444444444444")
    );
    assert_eq!(
        attachment_url_to_id(
            "https://cohost.org/api/v1/attachments/44444444-4444-4444-4444-444444444444?query"
        ),
        Some("44444444-4444-4444-4444-444444444444")
    );
    assert_eq!(attachment_url_to_id("https://staging.cohostcdn.org/attachment/44444444-4444-4444-4444-444444444444/file.jpg?query"), Some("44444444-4444-4444-4444-444444444444"));
}

#[test]
fn test_author_from_posting_project() {
    assert_eq!(
        Author::from(&PostingProject {
            handle: "staff".to_owned(),
            displayName: "cohost dot org".to_owned(),
            privacy: "[any value]".to_owned(),
            loggedOutPostVisibility: "[any value]".to_owned(),
        }),
        Author {
            href: "https://cohost.org/staff".to_owned(),
            name: "cohost dot org (@staff)".to_owned(),
            display_name: "cohost dot org".to_owned(),
            display_handle: "@staff".to_owned(),
        }
    );
    assert_eq!(
        Author::from(&PostingProject {
            handle: "VinDuv".to_owned(),
            displayName: "".to_owned(),
            privacy: "[any value]".to_owned(),
            loggedOutPostVisibility: "[any value]".to_owned(),
        }),
        Author {
            href: "https://cohost.org/VinDuv".to_owned(),
            name: "@VinDuv".to_owned(),
            display_name: "".to_owned(),
            display_handle: "@VinDuv".to_owned(),
        }
    );
}

#[test]
fn attachment_url_of_id() {
    assert_eq!(
        attachment_id_to_url("44444444-4444-4444-4444-444444444444"),
        "https://cohost.org/rc/attachment-redirect/44444444-4444-4444-4444-444444444444"
    );
}

#[test]
fn attachment_url_too_short_or_foreign() {
    assert_eq!(
        attachment_url_to_id("https://cohost.org/rc/attachment-redirect/4444"),
        None
    );
    assert_eq!(
        attachment_url_to_id("https://example.com/44444444-4444-4444-4444-444444444444"),
        None
    );
    assert_eq!(
        attachment_url_to_id(
            "https://cohost.org/rc/attachment-redirect/44444444-4444-4444-4444-444444444444"
        ),
        Some("44444444-4444-4444-4444-444444444444")
    );
}

#[test]
fn custom_emoji_ids() {
    assert_eq!(
        custom_emoji_url_to_id("https://cohost.org/static/f0c56e99113f1a0731b4.svg"),
        Some("f0c56e99113f1a0731b4")
    );
    assert_eq!(
        custom_emoji_url_to_id("https://cohost.org/static/a.b.png"),
        Some("a.b")
    );
    assert_eq!(custom_emoji_url_to_id("https://cohost.org/static/noext"), None);
    assert_eq!(custom_emoji_url_to_id("https://example.com/static/a.png"), None);
}
