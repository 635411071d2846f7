use guild_audit::media::{
    attachment_summary_from_parts, extract_first_media_url, extract_first_unfurl_link,
    infer_media_filename, is_direct_image_url, parse_attachment_summary,
    sanitize_attachment_filename,
};

#[test]
fn summary_parses_items() {
    let items =
        parse_attachment_summary("cat.png (http://u/cat.png)\nnotes.pdf (http://u/notes.pdf)");
    assert_eq!(items.len(), 2);
    assert_eq!(items[0].filename, "cat.png");
    assert_eq!(items[0].url, "http://u/cat.png");
    assert!(items[0].is_media);
    assert_eq!(items[1].filename, "notes.pdf");
    assert!(!items[1].is_media);
}

#[test]
fn summary_skips_malformed_lines() {
    let items = parse_attachment_summary("no url here\n\n  \nx.gif (http://u/x.gif)");
    assert_eq!(items.len(), 1);
    assert_eq!(items[0].filename, "x.gif");
    assert!(items[0].is_media);
}

#[test]
fn summary_filename_with_spaces_and_parens() {
    // The split is at the last ` (`, so names may hold both.
    let items = parse_attachment_summary("my file (final).mov (http://u/f.mov)");
    assert_eq!(items.len(), 1);
    assert_eq!(items[0].filename, "my file (final).mov");
    assert_eq!(items[0].url, "http://u/f.mov");
    assert!(items[0].is_media);
}

#[test]
fn first_media_url_extraction() {
    assert_eq!(
        extract_first_media_url(Some("look http://a/x.png now")),
        Some("http://a/x.png".to_owned())
    );
    assert_eq!(
        extract_first_media_url(Some("wrapped <https://tenor.com/v/1>")),
        Some("https://tenor.com/v/1".to_owned())
    );
    assert_eq!(extract_first_media_url(Some("no links here")), None);
    assert_eq!(extract_first_media_url(Some("   ")), None);
    assert_eq!(extract_first_media_url(None), None);
    // A plain page URL is not embeddable media.
    assert_eq!(extract_first_media_url(Some("http://example.com/page")), None);
}

#[test]
fn first_unfurl_link_extraction() {
    assert_eq!(
        extract_first_unfurl_link(Some("clip https://a/v.mov end")),
        Some("https://a/v.mov".to_owned())
    );
    assert_eq!(
        extract_first_unfurl_link(Some("gif https://giphy.com/abc")),
        Some("https://giphy.com/abc".to_owned())
    );
    // Direct images unfurl inside the embed, not as a standalone link.
    assert_eq!(extract_first_unfurl_link(Some("https://a/x.png")), None);
    assert_eq!(extract_first_unfurl_link(None), None);
}

#[test]
fn direct_image_urls() {
    assert!(is_direct_image_url("http://a/x.png"));
    assert!(is_direct_image_url("http://a/x.JPEG"));
    assert!(is_direct_image_url(
        "https://media.discordapp.net/attachments/1/2/x?format=webp"
    ));
    assert!(!is_direct_image_url("http://a/x.mp4"));
    assert!(!is_direct_image_url("https://media.discordapp.net/attachments/1/2/x"));
}

#[test]
fn inferred_filenames() {
    assert_eq!(infer_media_filename("http://a/b/c.png?size=7", "f.bin"), "c.png");
    assert_eq!(infer_media_filename("http://a/b/", "f.bin"), "f.bin");
    assert_eq!(infer_media_filename("noslash", "f.bin"), "noslash");
    assert_eq!(infer_media_filename("", "f.bin"), "f.bin");
}

#[test]
fn sanitized_filenames() {
    assert_eq!(sanitize_attachment_filename("a b?.png"), "a_b_.png");
    assert_eq!(sanitize_attachment_filename("ok-name_1.gif"), "ok-name_1.gif");
    assert_eq!(sanitize_attachment_filename(""), "attachment.bin");
}

#[test]
fn summary_build_and_parse_roundtrip() {
    let parts = vec![
        ("cat.png".to_owned(), "http://u/cat.png".to_owned()),
        ("notes.pdf".to_owned(), "http://u/notes.pdf".to_owned()),
    ];
    let summary = attachment_summary_from_parts(&parts).unwrap();
    assert_eq!(summary, "cat.png (http://u/cat.png)\nnotes.pdf (http://u/notes.pdf)");
    let items = parse_attachment_summary(&summary);
    assert_eq!(items.len(), 2);
    assert_eq!(items[0].filename, "cat.png");
    assert_eq!(items[1].url, "http://u/notes.pdf");

    let empty: Vec<(String, String)> = Vec::new();
    assert_eq!(attachment_summary_from_parts(&empty), None);
}
