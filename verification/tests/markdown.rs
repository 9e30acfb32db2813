use okr_tracker::markdown::{
    event_action, harden_images, image_allowed, image_destination, link_allowed, link_destination, render,
    sanitise_plan_of,
    MdEventAction, MdEventKind, MAX_MARKDOWN_LEN,
};

#[test]
fn link_schemes_are_allow_listed() {
    assert!(link_allowed("https://example.com"));
    assert!(link_allowed("  HTTP://example.com"));
    assert!(link_allowed("mailto:a@b.com"));
    assert!(link_allowed("/relative/path"));
    assert!(link_allowed("#anchor"));
    assert!(!link_allowed("javascript:alert(1)"));
    assert!(!link_allowed(" JavaScript:alert(1)"));
    assert!(!link_allowed("data:text/html,<script>"));
    assert!(!link_allowed("//evil.example/x"));
    assert_eq!(link_destination("javascript:alert(1)"), "#");
    assert_eq!(link_destination("https://example.com"), "https://example.com");
}

#[test]
fn image_schemes_are_allow_listed() {
    assert!(image_allowed("https://example.com/x.png"));
    assert!(!image_allowed("mailto:a@b.com"));
    assert!(!image_allowed("javascript:alert(1)"));
    assert_eq!(image_destination("data:image/png;base64,AAAA"), "");
    assert_eq!(image_destination("x.png"), "x.png");
}

#[test]
fn images_are_hardened() {
    assert_eq!(
        harden_images("<p><img src=\"a.png\" alt=\"a\" /><img src=\"b\"/></p>"),
        "<p><img referrerpolicy=\"no-referrer\" loading=\"lazy\" src=\"a.png\" alt=\"a\" /><img referrerpolicy=\"no-referrer\" loading=\"lazy\" src=\"b\"/></p>"
    );
    assert_eq!(harden_images("<imgx <img"), "<imgx <img");
}

#[test]
fn event_sanitisation_rule() {
    assert_eq!(event_action(&MdEventKind::RawHtml), MdEventAction::Drop);
    assert_eq!(event_action(&MdEventKind::Other), MdEventAction::Keep);
    assert_eq!(
        event_action(&MdEventKind::LinkStart("javascript:x".into())),
        MdEventAction::Redirect("#".into())
    );
    assert_eq!(
        event_action(&MdEventKind::ImageStart("https://e.com/i.png".into())),
        MdEventAction::Redirect("https://e.com/i.png".into())
    );
    assert_eq!(MAX_MARKDOWN_LEN, 50_000);
}

#[test]
fn basic_markdown_renders() {
    let html = render("# Title\n\nsome **bold** text");
    assert!(html.contains("<h1>Title</h1>"));
    assert!(html.contains("<strong>bold</strong>"));
}

#[test]
fn raw_html_is_dropped() {
    let html = render("hello <script>alert(1)</script> world");
    assert!(!html.contains("<script"));
    assert!(html.contains("hello"));
    assert!(html.contains("world"));
}

#[test]
fn inline_html_is_dropped() {
    let html = render("a <b onclick=\"x\">b</b> c");
    assert!(!html.contains("onclick"));
    assert!(!html.contains("<b "));
}

#[test]
fn javascript_link_scheme_is_stripped() {
    let html = render("[click](javascript:alert(1))");
    assert!(!html.to_lowercase().contains("javascript:"));
    assert!(html.contains("href=\"#\""));
}

#[test]
fn data_link_scheme_is_stripped() {
    let html = render("[x](data:text/html,<script>alert(1)</script>)");
    assert!(!html.to_lowercase().contains("data:"));
}

#[test]
fn safe_link_schemes_preserved() {
    assert!(render("[a](https://example.com)").contains("href=\"https://example.com\""));
    assert!(render("[m](mailto:a@b.com)").contains("href=\"mailto:a@b.com\""));
}

#[test]
fn external_image_allowed_with_hardening() {
    let html = render("![alt](https://example.com/x.png)");
    assert!(html.contains("src=\"https://example.com/x.png\""));
    assert!(html.contains("referrerpolicy=\"no-referrer\""));
    assert!(html.contains("loading=\"lazy\""));
}

#[test]
fn javascript_image_scheme_stripped() {
    let html = render("![x](javascript:alert(1))");
    assert!(!html.to_lowercase().contains("javascript:"));
}

#[test]
fn render_matches_pulldown_output_exactly() {
    assert_eq!(render("[a](javascript:x) *b*"), "<p><a href=\"#\">a</a> <em>b</em></p>\n");
    assert_eq!(
        render("![i](https://e.com/i.png)"),
        "<p><img referrerpolicy=\"no-referrer\" loading=\"lazy\" src=\"https://e.com/i.png\" alt=\"i\" /></p>\n"
    );
    assert_eq!(render("a <b>x</b>"), "<p>a x</p>\n");
}

#[test]
fn sanitisation_plan_keeps_all_but_raw_html() {
    let kinds = vec![
        MdEventKind::Other,
        MdEventKind::RawHtml,
        MdEventKind::LinkStart("javascript:alert(1)".into()),
        MdEventKind::ImageStart("https://e.com/i.png".into()),
        MdEventKind::ImageStart("data:image/png;base64,AA".into()),
        MdEventKind::LinkStart("mailto:a@b.com".into()),
    ];
    assert_eq!(
        sanitise_plan_of(&kinds),
        vec![
            (0, None),
            (2, Some("#".to_string())),
            (3, Some("https://e.com/i.png".to_string())),
            (4, Some(String::new())),
            (5, Some("mailto:a@b.com".to_string())),
        ]
    );
    assert!(sanitise_plan_of(&vec![MdEventKind::RawHtml]).is_empty());
}
