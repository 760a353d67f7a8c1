use guestbook::config::{Config, ConfigOverrides, ConfigTemplate, NotifierProvider};
use guestbook::model::Page;
use guestbook::notifications::{
    email_sender, telegram_message, ConsolePrettyNotifier, NtfyNotifier,
};
use guestbook::review::{is_approval, is_white_space_char, next_review_offset};
use guestbook::web::IndexTemplate;

fn page(contact: Option<&str>) -> Page {
    Page {
        id: 1,
        author: "a&b".to_string(),
        contact: contact.map(|c| c.to_string()),
        body: "<hi>".to_string(),
        timestamp: 0,
        public: true,
    }
}

#[test]
fn default_config() {
    let c = Config::default();
    assert_eq!(c.overrides.author, None);
    assert_eq!(c.overrides.public, None);
    assert!(c.overrides.date);
    assert_eq!(c.notifiers.providers.len(), 1);
    assert!(matches!(c.notifiers.providers[0], NotifierProvider::Console));
    assert_eq!(c.template.title, "guestbook");
    assert_eq!(c.template.logo, "/logo.jpg");
    assert_eq!(c.template.description, "you found my guestbook! please take a moment to sign it (:");
    assert_eq!(c.template.placeholder_body, "Kilroy was here  Ω");
    assert_eq!(c.template.canonical, None);
    assert_eq!(c.template.palette.bg_main, "#201F29");
    assert_eq!(c.template.palette.bg_off, "#292835");
    assert_eq!(c.template.palette.fg_main, "#E8E1D3");
    assert_eq!(c.template.palette.fg_off, "#ADA9A1");
    assert_eq!(c.template.palette.accent, "#BF616A");
    assert_eq!(c.template.palette.accent_dark, "#824E53");
    assert_eq!(c.template.palette.accent_light, "#D1888E");
    assert!(ConfigOverrides::default().date);
}

#[test]
fn pretty_line() {
    assert_eq!(ConsolePrettyNotifier::line(&page(Some("me@x"))), "<hi> -- a&b <me@x>");
    assert_eq!(ConsolePrettyNotifier::line(&page(None)), "<hi> -- a&b <>");
}

#[test]
fn ntfy_url_and_title() {
    let n = NtfyNotifier::new("https://ntfy.sh".to_string(), "guestbook".to_string());
    assert_eq!(n.topic_url(), "https://ntfy.sh/guestbook");
    assert_eq!(NtfyNotifier::title(&page(Some("me@x"))), "a&b <me@x>");
    assert_eq!(NtfyNotifier::title(&page(None)), "a&b");
}

#[test]
fn telegram_message_escapes_parts() {
    assert_eq!(
        telegram_message(&page(Some("<me>"))),
        "[<code>a&amp;b</code>] <i>&lt;me&gt;</i> | &lt;hi&gt;"
    );
    assert_eq!(
        telegram_message(&page(None)),
        "[<code>a&amp;b</code>] <i>N/A</i> | &lt;hi&gt;"
    );
}

#[test]
fn email_sender_prefers_contact() {
    let p = page(Some("me@x"));
    assert_eq!(email_sender(&p, "book@host"), ("a&b", "me@x"));
    let q = page(None);
    assert_eq!(email_sender(&q, "book@host"), ("a&b", "book@host"));
}

#[test]
fn approvals() {
    assert!(!is_approval(""));
    assert!(!is_approval(" \t\n"));
    assert!(!is_approval("\u{3000}\u{a0}"));
    assert!(is_approval("y\n"));
    assert!(is_approval("  ok  "));
}

#[test]
fn index_template_root() {
    let t = ConfigTemplate::default();
    let i = IndexTemplate::from(&t);
    assert_eq!(i.root().title, "guestbook");
}

#[test]
fn white_space_matches_std() {
    for c in ['\t', '\n', '\u{b}', '\u{c}', '\r', ' ', '\u{85}', '\u{a0}', '\u{1680}', '\u{2000}',
        '\u{200a}', '\u{2028}', '\u{2029}', '\u{202f}', '\u{205f}', '\u{3000}', 'a', '\u{200b}',
        '\u{8}', '\u{e}', '\u{feff}', '0']
    {
        assert_eq!(is_white_space_char(c), c.is_whitespace(), "{:?}", c);
    }
    for u in 0u32..0x3100 {
        if let Some(c) = char::from_u32(u) {
            assert_eq!(is_white_space_char(c), c.is_whitespace(), "{:?}", c);
        }
    }
}

#[test]
fn review_offsets() {
    assert_eq!(next_review_offset(0, 20, 20), Some(20));
    assert_eq!(next_review_offset(20, 20, 3), Some(40));
    assert_eq!(next_review_offset(40, 20, 0), None);
}
