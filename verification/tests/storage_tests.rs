use guestbook::config::ConfigOverrides;
use guestbook::model::{Page, PageInsertion};
use guestbook::storage::{
    schema_for_backend, sqlite_database_path, ArchiveRecord, POSTGRES_SCHEMA, SQLITE_SCHEMA,
};

fn insertion(author: Option<&str>, public: Option<bool>, date: Option<i64>) -> PageInsertion {
    PageInsertion {
        body: "hi <3".to_string(),
        author: author.map(|a| a.to_string()),
        contact: None,
        public,
        date,
    }
}

#[test]
fn record_under_default_overrides() {
    let r = ArchiveRecord::prepare(insertion(None, None, Some(5)), &ConfigOverrides::default(), 100);
    assert_eq!(r.author, "anonymous");
    assert_eq!(r.contact, None);
    assert_eq!(r.body, "hi &lt;3");
    assert_eq!(r.timestamp, 100);
    assert!(r.public);
    assert_eq!(r.public_flag(), 1);
}

#[test]
fn record_keeps_date_when_not_overridden() {
    let o = ConfigOverrides { author: None, public: None, date: false };
    let r = ArchiveRecord::prepare(insertion(Some("bob"), Some(false), Some(5)), &o, 100);
    assert_eq!(r.author, "bob");
    assert_eq!(r.timestamp, 5);
    assert!(!r.public);
    assert_eq!(r.public_flag(), 0);
    let r = ArchiveRecord::prepare(insertion(Some("bob"), None, None), &o, 100);
    assert_eq!(r.timestamp, 100);
}

#[test]
fn record_forced_private() {
    let o = ConfigOverrides { author: None, public: Some(false), date: true };
    let r = ArchiveRecord::prepare(insertion(Some("bob"), Some(true), None), &o, 7);
    assert!(!r.public);
}

#[test]
fn record_forced_author_is_not_escaped() {
    let o = ConfigOverrides { author: Some("<admin>".to_string()), public: None, date: true };
    let r = ArchiveRecord::prepare(insertion(Some("bob"), None, None), &o, 7);
    assert_eq!(r.author, "<admin>");
}

#[test]
fn record_arriving_now() {
    let r = ArchiveRecord::arriving(insertion(Some("bob"), None, None), &ConfigOverrides::default());
    assert!(r.timestamp > 1_600_000_000);
    assert_eq!(r.author, "bob");
}

#[test]
fn record_into_page() {
    let o = ConfigOverrides::default();
    let r = ArchiveRecord::prepare(insertion(Some("bob"), None, None), &o, 7);
    let p = r.clone().into_page(Some(12));
    assert_eq!(p.id, 12);
    assert_eq!(p.author, "bob");
    assert_eq!(p.timestamp, 7);
    assert!(p.public);
    assert_eq!(r.into_page(None).id, -1);
}

#[test]
fn row_round_trip() {
    let mut ins = insertion(Some("bob"), Some(false), None);
    ins.contact = Some("me@x.org".to_string());
    let r = ArchiveRecord::prepare(ins, &ConfigOverrides::default(), 7);
    let stored = r.clone().into_page(Some(3));
    let read = Page::from_columns(
        3,
        r.author.clone(),
        r.contact.clone().unwrap_or_default(),
        r.body.clone(),
        r.timestamp,
        r.public_flag(),
    );
    assert_eq!(read.id, stored.id);
    assert_eq!(read.author, stored.author);
    assert_eq!(read.contact, stored.contact);
    assert_eq!(read.body, stored.body);
    assert_eq!(read.timestamp, stored.timestamp);
    assert_eq!(read.public, stored.public);
}

#[test]
fn sqlite_paths() {
    assert_eq!(sqlite_database_path("sqlite://./guestbook.db").as_deref(), Some("./guestbook.db"));
    assert_eq!(sqlite_database_path("sqlite://a/sqlite://b").as_deref(), Some("a/b"));
    assert_eq!(sqlite_database_path("sqlite://").as_deref(), Some(""));
    assert_eq!(sqlite_database_path("postgres://user@host/db"), None);
    assert_eq!(sqlite_database_path("sqlite:/x"), None);
}

#[test]
fn schema_per_backend() {
    assert_eq!(schema_for_backend("PostgreSQL"), Some(POSTGRES_SCHEMA));
    assert_eq!(schema_for_backend("SQLite"), Some(SQLITE_SCHEMA));
    assert_eq!(schema_for_backend("MySQL"), Some(SQLITE_SCHEMA));
    assert_eq!(schema_for_backend("MSSQL"), None);
    assert!(POSTGRES_SCHEMA.contains("SERIAL PRIMARY KEY"));
    assert!(SQLITE_SCHEMA.contains("AUTOINCREMENT"));
}
