use guestbook::config::ConfigOverrides;
use guestbook::model::{
    _non_empty_string, avatar_of, contact_url, date_shown, views_of, Page, PageInsertion,
    PageOptions, PageView,
};

fn insertion(body: &str, author: Option<&str>, contact: Option<&str>) -> PageInsertion {
    PageInsertion {
        body: body.to_string(),
        author: author.map(|a| a.to_string()),
        contact: contact.map(|c| c.to_string()),
        public: None,
        date: None,
    }
}

fn page(contact: Option<&str>, timestamp: i64) -> Page {
    Page {
        id: 7,
        author: "alice".to_string(),
        contact: contact.map(|c| c.to_string()),
        body: "hello".to_string(),
        timestamp,
        public: true,
    }
}

#[test]
fn non_empty_string_drops_empty() {
    assert_eq!(_non_empty_string(String::new()), None);
    assert_eq!(_non_empty_string("x".to_string()), Some("x".to_string()));
}

#[test]
fn trim_and_escape_cuts_by_characters_then_escapes() {
    assert_eq!(PageInsertion::trim_and_escape("héllo wörld", 3), "hél");
    assert_eq!(PageInsertion::trim_and_escape("<a>", 2), "&lt;a");
    assert_eq!(PageInsertion::trim_and_escape("a/b'c\"d&", 100), "a&#x2F;b&#x27;c&quot;d&amp;");
    assert_eq!(PageInsertion::trim_and_escape("", 5), "");
}

#[test]
fn sanitize_escapes_and_cuts_every_field() {
    let mut p = insertion("<script>alert(1)</script>", Some("<b>bob</b>"), Some("me@x.org"));
    p.sanitize();
    assert_eq!(p.author.as_deref(), Some("&lt;b&gt;bob&lt;&#x2F;b&gt;"));
    assert_eq!(p.contact.as_deref(), Some("me@x.org"));
    assert_eq!(p.body, "&lt;script&gt;alert(1)&lt;&#x2F;script&gt;");
}

#[test]
fn sanitize_escapes_slashes_of_links() {
    let mut p = insertion("hi", Some("bob"), Some("https://alemi.dev"));
    p.sanitize();
    assert_eq!(p.contact.as_deref(), Some("https:&#x2F;&#x2F;alemi.dev"));
    assert_eq!(
        contact_url(p.contact.as_deref()).as_deref(),
        Some("https:&#x2F;&#x2F;alemi.dev")
    );
}

#[test]
fn sanitize_limits_lengths() {
    let long_author: String = std::iter::repeat('a').take(40).collect();
    let long_contact: String = std::iter::repeat('c').take(80).collect();
    let long_body: String = std::iter::repeat('b').take(5000).collect();
    let mut p = insertion(&long_body, Some(&long_author), Some(&long_contact));
    p.sanitize();
    assert_eq!(p.author.unwrap().chars().count(), 25);
    assert_eq!(p.contact.unwrap().chars().count(), 50);
    assert_eq!(p.body.chars().count(), 4096);
}

#[test]
fn sanitize_drops_empty_author_and_contact() {
    let mut p = insertion("hi", Some(""), Some(""));
    p.sanitize();
    assert_eq!(p.author, None);
    assert_eq!(p.contact, None);
    assert_eq!(p.body, "hi");
}

#[test]
fn apply_overrides_forces_values() {
    let mut p = insertion("hi", Some("bob"), None);
    p.public = Some(true);
    p.date = Some(5);
    let o = ConfigOverrides { author: Some("admin".to_string()), public: Some(false), date: true };
    p.apply_overrides(&o, 99);
    assert_eq!(p.author.as_deref(), Some("admin"));
    assert_eq!(p.public, Some(false));
    assert_eq!(p.date, Some(99));
}

#[test]
fn apply_overrides_without_overrides_keeps_page() {
    let mut p = insertion("hi", Some("bob"), None);
    p.public = Some(false);
    p.date = Some(5);
    let o = ConfigOverrides { author: None, public: None, date: false };
    p.apply_overrides(&o, 99);
    assert_eq!(p.author.as_deref(), Some("bob"));
    assert_eq!(p.public, Some(false));
    assert_eq!(p.date, Some(5));
}

#[test]
fn overrides_dates_with_the_clock() {
    let mut p = insertion("hi", None, None);
    p.overrides(&ConfigOverrides::default());
    let date = p.date.expect("dated");
    assert!(date > 1_600_000_000);
    assert_eq!(p.author, None);
    assert_eq!(p.public, None);
}

#[test]
fn overrides_without_date_keep_the_page_date() {
    let mut p = insertion("hi", Some("bob"), None);
    p.date = Some(5);
    p.overrides(&ConfigOverrides { author: None, public: Some(false), date: false });
    assert_eq!(p.date, Some(5));
    assert_eq!(p.public, Some(false));
    assert_eq!(p.author.as_deref(), Some("bob"));
}

#[test]
fn contact_url_rules() {
    assert_eq!(contact_url(Some("https://alemi.dev")).as_deref(), Some("https://alemi.dev"));
    assert_eq!(contact_url(Some("http_is_prefix")).as_deref(), Some("http_is_prefix"));
    assert_eq!(contact_url(Some("me@alemi.dev")).as_deref(), Some("mailto:me@alemi.dev"));
    assert_eq!(contact_url(Some("alemi.dev")).as_deref(), Some("https://alemi.dev"));
    assert_eq!(contact_url(Some("just a name")), None);
    assert_eq!(contact_url(None), None);
}

#[test]
fn avatar_is_md5_in_lower_hex() {
    assert_eq!(avatar_of("test@example.com"), "55502f40dc8b7c769880b10874abc9d0");
    assert_eq!(avatar_of(""), "d41d8cd98f00b204e9800998ecf8427e");
}

#[test]
fn date_shown_falls_back_to_epoch() {
    assert_eq!(date_shown(1431648000), 1431648000);
    assert_eq!(date_shown(0), 0);
    assert_eq!(date_shown(i64::MAX), 0);
    assert_eq!(date_shown(i64::MIN), 0);
    assert_eq!(date_shown(8_210_266_876_799), 8_210_266_876_799);
    assert_eq!(date_shown(8_210_266_876_800), 0);
    assert_eq!(date_shown(-8_334_601_228_800), -8_334_601_228_800);
    assert_eq!(date_shown(-8_334_601_228_801), 0);
}

#[test]
fn page_view_from_page_with_contact() {
    let v = PageView::from(&page(Some("https://alemi.dev"), 1431648000));
    assert_eq!(v.id, 7);
    assert_eq!(v.author, "alice");
    assert_eq!(v.contact.as_deref(), Some("https://alemi.dev"));
    assert_eq!(v.url.as_deref(), Some("https://alemi.dev"));
    assert_eq!(v.avatar, "6851760f03ae6e6c182ad5ab6fbed10f");
    assert_eq!(v.body, "hello");
    assert_eq!(v.date, 1431648000);
}

#[test]
fn page_view_from_page_without_contact() {
    let v = PageView::from(&page(None, i64::MAX));
    assert_eq!(v.url, None);
    assert_eq!(v.avatar.len(), 32);
    assert!(v.avatar.chars().all(|c| c.is_ascii_digit() || ('a'..='f').contains(&c)));
    assert_ne!(v.avatar, avatar_of(""));
    assert_eq!(v.date, 0);
}

#[test]
fn page_view_with_avatar_source() {
    let v = PageView::with_avatar_source(&page(None, 3), "test@example.com");
    assert_eq!(v.avatar, "55502f40dc8b7c769880b10874abc9d0");
    assert_eq!(v.date, 3);
}

#[test]
fn views_keep_order() {
    let pages = vec![page(Some("a@b"), 1), page(None, 2)];
    let views = views_of(&pages);
    assert_eq!(views.len(), 2);
    assert_eq!(views[0].url.as_deref(), Some("mailto:a@b"));
    assert_eq!(views[1].date, 2);
}

#[test]
fn same_contact_same_avatar() {
    let a = PageView::from(&page(Some("x@y.z"), 1));
    let b = PageView::from(&page(Some("x@y.z"), 2));
    assert_eq!(a.avatar, b.avatar);
}

#[test]
fn page_from_columns() {
    let p = Page::from_columns(1, "a".to_string(), String::new(), "b".to_string(), 9, 1);
    assert_eq!(p.contact, None);
    assert!(p.public);
    let q = Page::from_columns(2, "a".to_string(), "c".to_string(), "b".to_string(), 9, 0);
    assert_eq!(q.contact.as_deref(), Some("c"));
    assert!(!q.public);
    assert_eq!(q.id, 2);
    assert_eq!(q.timestamp, 9);
}

#[test]
fn page_options_window() {
    assert_eq!(PageOptions { offset: None, limit: None }.window(), (0, 20));
    assert_eq!(PageOptions { offset: Some(40), limit: Some(50) }.window(), (40, 20));
    assert_eq!(PageOptions { offset: Some(3), limit: Some(5) }.window(), (3, 5));
    assert_eq!(PageOptions { offset: None, limit: Some(-3) }.window(), (0, -3));
}
