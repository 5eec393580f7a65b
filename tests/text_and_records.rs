use tag_spider::records::{
    breadcrumb_path, classify_probe, classify_status, field_text, fragment_record, records_of,
    should_probe, video_title_of, ContentKind, Fragment, UrlStatus,
};
use tag_spider::text::{contains_str, extract_youtube_video_id, find_from, first_word, text_eq, trim};

#[test]
fn video_id_before_query() {
    assert_eq!(
        extract_youtube_video_id("https://x/embed/ABC123?wmode=transparent"),
        Some("ABC123".to_string())
    );
}

#[test]
fn video_id_at_end() {
    assert_eq!(extract_youtube_video_id("https://x/embed/ABC123"), Some("ABC123".to_string()));
}

#[test]
fn video_id_absent_without_embed() {
    assert_eq!(extract_youtube_video_id("https://x/watch?v=ABC123"), None);
}

#[test]
fn video_id_empty_after_marker() {
    assert_eq!(extract_youtube_video_id("https://x/embed/"), Some(String::new()));
    assert_eq!(extract_youtube_video_id("https://x/embed/?a=1"), Some(String::new()));
}

#[test]
fn video_id_takes_first_marker() {
    assert_eq!(extract_youtube_video_id("/embed/a/embed/b?x"), Some("a/embed/b".to_string()));
}

#[test]
fn trim_strips_both_ends() {
    assert_eq!(trim("  hello world \n\t"), "hello world");
    assert_eq!(trim("\u{a0}x\u{3000}"), "x");
    assert_eq!(trim("   "), "");
    assert_eq!(trim(""), "");
    assert_eq!(trim("a b"), "a b");
}

#[test]
fn searching() {
    assert_eq!(find_from("abcabc", "bc", 0), Some(1));
    assert_eq!(find_from("abcabc", "bc", 2), Some(4));
    assert_eq!(find_from("abcabc", "x", 0), None);
    assert_eq!(find_from("ab", "abc", 0), None);
    assert!(contains_str("click: element click intercepted here", "element click intercepted"));
    assert!(!contains_str("timeout", "element click intercepted"));
    assert!(text_eq("same", "same"));
    assert!(!text_eq("same", "samE"));
    assert!(!text_eq("same", "sam"));
}

#[test]
fn classify_empty_url_is_not_applicable() {
    assert_eq!(classify_probe("", Some(200)), UrlStatus::NotApplicable);
    assert_eq!(classify_probe("", None), UrlStatus::NotApplicable);
    assert!(!should_probe(""));
    assert!(should_probe("https://a"));
}

#[test]
fn classify_answers() {
    assert_eq!(classify_probe("https://a", Some(200)), UrlStatus::Valid);
    assert_eq!(classify_probe("https://a", Some(204)), UrlStatus::Valid);
    assert_eq!(classify_probe("https://a", Some(301)), UrlStatus::Redirect);
    assert_eq!(classify_probe("https://a", Some(404)), UrlStatus::Error(404));
    assert_eq!(classify_probe("https://a", Some(199)), UrlStatus::Error(199));
    assert_eq!(classify_probe("https://a", None), UrlStatus::Invalid);
    assert_eq!(classify_status(399), UrlStatus::Redirect);
    assert_eq!(classify_status(400), UrlStatus::Error(400));
}

#[test]
fn status_labels() {
    assert_eq!(UrlStatus::Valid.label(), "Valid");
    assert_eq!(UrlStatus::Redirect.label(), "Redirect");
    assert_eq!(UrlStatus::Error(404).label(), "Error 404");
    assert_eq!(UrlStatus::Error(0).label(), "Error 0");
    assert_eq!(UrlStatus::Error(65535).label(), "Error 65535");
    assert_eq!(UrlStatus::Invalid.label(), "Invalid");
    assert_eq!(UrlStatus::NotApplicable.label(), "N/A");
    assert_eq!(UrlStatus::Skipped.label(), "Skipped");
    assert_eq!(ContentKind::ExternalLink.label(), "ExternalLink");
    assert_eq!(ContentKind::YouTube.label(), "YouTube");
}

fn link(url: Option<&str>, title: Option<&str>) -> Fragment {
    Fragment::Link {
        url: url.map(|s| s.to_string()),
        title: title.map(|s| s.to_string()),
        author: Some(" Ann ".to_string()),
        file_type: None,
        size: Some("2 MB".to_string()),
    }
}

#[test]
fn link_record_trims_fields() {
    let rec = fragment_record("n1", "A > B", &link(Some(" https://a "), Some(" T ")), UrlStatus::Skipped)
        .unwrap();
    assert_eq!(rec.source_node, "n1");
    assert_eq!(rec.breadcrumb_path, "A > B");
    assert_eq!(rec.kind, ContentKind::ExternalLink);
    assert_eq!(rec.url, "https://a");
    assert_eq!(rec.title, "T");
    assert_eq!(rec.author, "Ann");
    assert_eq!(rec.file_type, "");
    assert_eq!(rec.size, "2 MB");
    assert_eq!(rec.url_valid, UrlStatus::Skipped);
}

#[test]
fn link_without_url_or_title_is_dropped() {
    assert!(fragment_record("n", "p", &link(None, None), UrlStatus::Skipped).is_none());
    assert!(fragment_record("n", "p", &link(Some("  "), Some("\t")), UrlStatus::Skipped).is_none());
}

#[test]
fn link_with_title_only_is_kept() {
    let rec = fragment_record("n", "p", &link(None, Some("Only title")), UrlStatus::NotApplicable)
        .unwrap();
    assert_eq!(rec.url, "");
    assert_eq!(rec.title, "Only title");
}

#[test]
fn video_record_gets_title_from_embed() {
    let f = Fragment::Video { src: Some(" https://www.youtube.com/embed/XyZ?rel=0 ".to_string()) };
    let rec = fragment_record("n", "p", &f, UrlStatus::Valid).unwrap();
    assert_eq!(rec.kind, ContentKind::YouTube);
    assert_eq!(rec.url, "https://www.youtube.com/embed/XyZ?rel=0");
    assert_eq!(rec.title, "YouTube Video (XyZ)");
    assert_eq!(rec.file_type, "video");
    assert_eq!(rec.author, "");
    assert_eq!(rec.url_valid, UrlStatus::Valid);
}

#[test]
fn video_without_embed_pattern_has_empty_title() {
    let f = Fragment::Video { src: Some("https://v/watch?v=1".to_string()) };
    let rec = fragment_record("n", "p", &f, UrlStatus::Skipped).unwrap();
    assert_eq!(rec.title, "");
    assert_eq!(video_title_of("https://v/embed/Q"), "YouTube Video (Q)");
}

#[test]
fn video_without_source_is_dropped() {
    assert!(fragment_record("n", "p", &Fragment::Video { src: None }, UrlStatus::Skipped).is_none());
    let blank = Fragment::Video { src: Some("   ".to_string()) };
    assert!(fragment_record("n", "p", &blank, UrlStatus::Skipped).is_none());
}

#[test]
fn records_keep_order_and_drop_empty() {
    let frags = vec![
        link(Some("u1"), None),
        link(None, None),
        Fragment::Video { src: Some("https://y/embed/V1".to_string()) },
        Fragment::Video { src: None },
        link(None, Some("t4")),
    ];
    let statuses = vec![
        UrlStatus::Valid,
        UrlStatus::NotApplicable,
        UrlStatus::Redirect,
        UrlStatus::NotApplicable,
        UrlStatus::NotApplicable,
    ];
    let recs = records_of("node", "crumb", &frags, &statuses);
    assert_eq!(recs.len(), 3);
    assert_eq!(recs[0].url, "u1");
    assert_eq!(recs[0].url_valid, UrlStatus::Valid);
    assert_eq!(recs[1].title, "YouTube Video (V1)");
    assert_eq!(recs[1].url_valid, UrlStatus::Redirect);
    assert_eq!(recs[2].title, "t4");
    for r in &recs {
        assert!(!r.url.is_empty() || !r.title.is_empty());
    }
}

#[test]
fn fragment_urls_are_trimmed() {
    assert_eq!(link(Some(" u "), None).url(), "u");
    assert_eq!(Fragment::Video { src: None }.url(), "");
    assert_eq!(field_text(&Some("\n x \n".to_string())), "x");
    assert_eq!(field_text(&None), "");
}

#[test]
fn breadcrumb_joins_trail() {
    let trail = Some(vec![" Home ".to_string(), "".to_string(), "Docs".to_string(), "  ".to_string(), "Page".to_string()]);
    assert_eq!(breadcrumb_path(&trail, &Some("Title".to_string())), "Home > Docs > Page");
}

#[test]
fn breadcrumb_falls_back_to_title() {
    let trail = Some(vec!["  ".to_string()]);
    assert_eq!(breadcrumb_path(&trail, &Some("Title".to_string())), "Title");
    assert_eq!(breadcrumb_path(&Some(vec![]), &Some("T".to_string())), "T");
}

#[test]
fn breadcrumb_unknown_without_trail_or_title() {
    assert_eq!(breadcrumb_path(&Some(vec![]), &None), "Unknown Path");
    assert_eq!(breadcrumb_path(&None, &Some("T".to_string())), "Unknown Path");
}

#[test]
fn first_word_of_question() {
    assert_eq!(first_word("Q12 What is it?"), "Q12");
    assert_eq!(first_word("Q12"), "Q12");
    assert_eq!(first_word(" lead"), "");
    assert_eq!(first_word(""), "");
}
