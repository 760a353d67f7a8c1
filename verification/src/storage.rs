//! What the guestbook stores of an incoming page, and where a SQLite database
//! lives. The database itself is the caller's.
use vstd::prelude::*;
use crate::config::ConfigOverrides;
use crate::model::{
    is_plain, lemma_sanitized_field_keeps_text,
    opt_view, sanitized_field, Page, PageInsertion, AUTHOR_MAX_CHARS, BODY_MAX_CHARS,
    CONTACT_MAX_CHARS,
};
use crate::outside::now_timestamp;
use crate::text::{lemma_replace_all_absent, lemma_starts_with, lemma_escape_safe_plain, lemma_prefix, escape_safe, has_prefix, same_text, prefix, replace_all, replace_all_of, starts_with};

verus! {

/// The values written for a new page.
#[derive(Debug, Clone)]
pub struct ArchiveRecord {
    pub author: String,
    pub contact: Option<String>,
    pub body: String,
    /// Seconds since the Unix epoch.
    pub timestamp: i64,
    pub public: bool,
}

impl ArchiveRecord {
    /// This record is what `page` becomes when it arrives at `now` under
    /// `overrides`: sanitised first, then overridden; a page left without
    /// author is signed `anonymous`, one without date is dated `now`, one
    /// without visibility is public.
    pub open spec fn is_record_of(self, page: PageInsertion, overrides: ConfigOverrides, now: i64) -> bool {
        &&& self.author@ == (match overrides.author {
            Some(a) => a@,
            None => match sanitized_field(opt_view(page.author), AUTHOR_MAX_CHARS as int) {
                Some(a) => a,
                None => "anonymous"@,
            },
        })
        &&& opt_view(self.contact) == sanitized_field(opt_view(page.contact), CONTACT_MAX_CHARS as int)
        &&& self.body@ == escape_safe(prefix(page.body@, BODY_MAX_CHARS as int))
        &&& self.timestamp == (if overrides.date {
            now
        } else {
            match page.date {
                Some(d) => d,
                None => now,
            }
        })
        &&& self.public == (match overrides.public {
            Some(p) => p,
            None => match page.public {
                Some(p) => p,
                None => true,
            },
        })
    }

    /// The record of `page` arriving at `now` under `overrides`.
    pub fn prepare(page: PageInsertion, overrides: &ConfigOverrides, now: i64) -> (r: ArchiveRecord)
        ensures
            r.is_record_of(page, *overrides, now),
    {
        let mut page = page;
        page.sanitize();
        page.apply_overrides(overrides, now);
        let author = match page.author {
            Some(a) => a,
            None => "anonymous".to_owned(),
        };
        let timestamp = match page.date {
            Some(d) => d,
            None => now,
        };
        let public = match page.public {
            Some(p) => p,
            None => true,
        };
        ArchiveRecord { author, contact: page.contact, body: page.body, timestamp, public }
    }

    /// The record of `page` arriving now, by the clock, under `overrides`.
    pub fn arriving(page: PageInsertion, overrides: &ConfigOverrides) -> (r: ArchiveRecord)
        ensures
            exists|now: i64| now >= 0 && r.is_record_of(page, *overrides, now),
    {
        let now = now_timestamp();
        ArchiveRecord::prepare(page, overrides, now)
    }

    /// The visibility as the database column holds it: 1 for public, 0 otherwise.
    pub fn public_flag(&self) -> (flag: i32)
        ensures
            flag == (if self.public { 1int } else { 0int }),
    {
        if self.public {
            1
        } else {
            0
        }
    }

    /// The stored page, with the identifier the database gave it, or -1 where
    /// it gave none.
    pub fn into_page(self, insert_id: Option<i64>) -> (page: Page)
        ensures
            page.id == (match insert_id {
                Some(id) => id,
                None => -1i64,
            }),
            page.author == self.author,
            page.contact == self.contact,
            page.body == self.body,
            page.timestamp == self.timestamp,
            page.public == self.public,
    {
        let id = match insert_id {
            Some(id) => id,
            None => -1,
        };
        Page {
            id,
            author: self.author,
            contact: self.contact,
            body: self.body,
            timestamp: self.timestamp,
            public: self.public,
        }
    }
}

/// The table of pages in SQLite (and MySQL) syntax.
pub const SQLITE_SCHEMA: &'static str = "
CREATE TABLE IF NOT EXISTS pages (
	id INTEGER PRIMARY KEY AUTOINCREMENT,
	author VARCHAR NOT NULL,
	contact VARCHAR,
	body VARCHAR NOT NULL,
	timestamp INTEGER NOT NULL,
	public INTEGER NOT NULL
);
";

/// The table of pages in PostgreSQL syntax.
pub const POSTGRES_SCHEMA: &'static str = "
CREATE TABLE IF NOT EXISTS pages (
	id SERIAL PRIMARY KEY,
	author TEXT NOT NULL,
	contact TEXT,
	body TEXT NOT NULL,
	timestamp INTEGER NOT NULL,
	public INTEGER NOT NULL
);
";

/// The table definition to run on a database whose driver calls its backend
/// `backend`: PostgreSQL gets its own, SQLite and MySQL the SQLite one, any
/// other backend none.
pub fn schema_for_backend(backend: &str) -> (schema: Option<&'static str>)
    ensures
        backend@ == "PostgreSQL"@ ==> schema == Some(POSTGRES_SCHEMA),
        (backend@ == "SQLite"@ || backend@ == "MySQL"@) ==> schema == Some(SQLITE_SCHEMA),
        backend@ != "PostgreSQL"@ && backend@ != "SQLite"@ && backend@ != "MySQL"@ ==> schema is None,
{
    proof {
        reveal_strlit("PostgreSQL");
        reveal_strlit("SQLite");
        reveal_strlit("MySQL");
        assert("SQLite"@.len() != "PostgreSQL"@.len());
        assert("MySQL"@.len() != "PostgreSQL"@.len());
    }
    if same_text(backend, "PostgreSQL") {
        Some(POSTGRES_SCHEMA)
    } else if same_text(backend, "SQLite") || same_text(backend, "MySQL") {
        Some(SQLITE_SCHEMA)
    } else {
        None
    }
}

/// The prefix of a SQLite connection string.
pub open spec fn sqlite_scheme() -> Seq<char> {
    "sqlite://"@
}

/// The file of a SQLite connection string: for a string that starts with
/// `sqlite://`, the string with every `sqlite://` in it removed; for any other
/// connection string, none.
pub fn sqlite_database_path(uri: &str) -> (path: Option<String>)
    ensures
        !starts_with(uri@, sqlite_scheme()) ==> path is None,
        starts_with(uri@, sqlite_scheme()) ==> opt_view(path) == Some(
            replace_all(uri@, sqlite_scheme(), Seq::empty()),
        ),
{
    if !has_prefix(uri, "sqlite://") {
        return None;
    }
    proof {
        reveal_strlit("sqlite://");
        reveal_strlit("");
    }
    assert(""@ =~= Seq::<char>::empty());
    Some(replace_all_of(uri, "sqlite://", ""))
}


/// What is stored of a page, in terms of the page sent: a plain body of at
/// most 4096 characters is stored exactly; so are a plain non-empty author of at
/// most 25 characters (where no author is forced) and a plain non-empty contact
/// of at most 50; a page sent without author, and with none forced, is signed
/// `anonymous`; a page sent without contact is stored without one.
pub proof fn lemma_record_keeps_text(
    page: PageInsertion,
    overrides: ConfigOverrides,
    now: i64,
    r: ArchiveRecord,
)
    requires
        r.is_record_of(page, overrides, now),
    ensures
        is_plain(page.body@) && page.body@.len() <= 4096 ==> r.body@ == page.body@,
        overrides.author is None ==> (page.author matches Some(a) ==> (is_plain(a@) && 0 < a@.len()
            <= 25 ==> r.author@ == a@)),
        overrides.author is None && page.author is None ==> r.author@ == "anonymous"@,
        page.contact matches Some(c) ==> (is_plain(c@) && 0 < c@.len() <= 50
            ==> opt_view(r.contact) == Some(c@)),
        page.contact is None ==> r.contact is None,
{
    if let Some(a) = page.author {
        lemma_sanitized_field_keeps_text(a@, AUTHOR_MAX_CHARS as int);
    }
    if let Some(c) = page.contact {
        lemma_sanitized_field_keeps_text(c@, CONTACT_MAX_CHARS as int);
    }
    lemma_prefix(page.body@, BODY_MAX_CHARS as int);
    if is_plain(page.body@) && page.body@.len() <= BODY_MAX_CHARS {
        lemma_escape_safe_plain(page.body@);
    }
}

/// A visibility override is forced on every page, whatever its author asked
/// for: with `public = false` every page is stored private.
pub proof fn lemma_visibility_override_forced(
    page: PageInsertion,
    overrides: ConfigOverrides,
    now: i64,
    r: ArchiveRecord,
    public: bool,
)
    requires
        r.is_record_of(page, overrides, now),
        overrides.public == Some(public),
    ensures
        r.public == public,
{
}

/// An author override signs every page with its name.
pub proof fn lemma_author_override_forced(
    page: PageInsertion,
    overrides: ConfigOverrides,
    now: i64,
    r: ArchiveRecord,
    author: String,
)
    requires
        r.is_record_of(page, overrides, now),
        overrides.author == Some(author),
    ensures
        r.author@ == author@,
{
}

/// Under the default overrides the author keeps control of the page but for
/// its date: the (sanitised) name, or `anonymous`, and the visibility asked
/// for, public where none was asked, are stored, dated with the time of arrival.
pub proof fn lemma_default_overrides(
    page: PageInsertion,
    overrides: ConfigOverrides,
    now: i64,
    r: ArchiveRecord,
)
    requires
        r.is_record_of(page, overrides, now),
        overrides.is_default(),
    ensures
        r.timestamp == now,
        r.public == (match page.public {
            Some(p) => p,
            None => true,
        }),
        r.author@ == (match sanitized_field(opt_view(page.author), AUTHOR_MAX_CHARS as int) {
            Some(a) => a,
            None => "anonymous"@,
        }),
{
}

/// A stored page read back from its row is the page that was stored: the
/// contact column is empty only where the page has no contact, and the
/// visibility column is positive only for a public page.
pub proof fn lemma_row_round_trip(
    page: PageInsertion,
    overrides: ConfigOverrides,
    now: i64,
    r: ArchiveRecord,
    id: i64,
    contact_column: String,
    stored: Page,
    read: Page,
)
    requires
        r.is_record_of(page, overrides, now),
        stored.id == id,
        stored.author == r.author,
        stored.contact == r.contact,
        stored.body == r.body,
        stored.timestamp == r.timestamp,
        stored.public == r.public,
        contact_column@ == (match r.contact {
            Some(c) => c@,
            None => Seq::<char>::empty(),
        }),
        read.id == id,
        read.author == r.author,
        read.contact == (if contact_column@.len() == 0 { None } else { Some(contact_column) }),
        read.body == r.body,
        read.timestamp == r.timestamp,
        read.public == ((if r.public { 1int } else { 0int }) > 0),
    ensures
        read.id == stored.id,
        read.author == stored.author,
        opt_view(read.contact) == opt_view(stored.contact),
        read.body == stored.body,
        read.timestamp == stored.timestamp,
        read.public == stored.public,
{
    crate::model::lemma_sanitized_field_safe(opt_view(page.contact), CONTACT_MAX_CHARS as int);
}


/// The dates and visibility stored: a forced date is the time of arrival;
/// otherwise the date sent, or the time of arrival where none was sent; a
/// forced visibility wins; otherwise the one sent, or public where none was sent.
pub proof fn lemma_record_dates_and_visibility(
    page: PageInsertion,
    overrides: ConfigOverrides,
    now: i64,
    r: ArchiveRecord,
)
    requires
        r.is_record_of(page, overrides, now),
    ensures
        overrides.date ==> r.timestamp == now,
        !overrides.date ==> (page.date matches Some(d) ==> r.timestamp == d),
        !overrides.date && page.date is None ==> r.timestamp == now,
        overrides.public is None ==> (page.public matches Some(p) ==> r.public == p),
        overrides.public is None && page.public is None ==> r.public,
{
}

/// The file of a SQLite connection string `sqlite://path`, where `sqlite://`
/// does not occur again, is `path`: the string without its first nine
/// characters.
pub proof fn lemma_sqlite_path_plain(uri: Seq<char>)
    requires
        uri.len() >= 9,
        uri.take(9) == seq!['s', 'q', 'l', 'i', 't', 'e', ':', '/', '/'],
        forall|k: int|
            9 <= k <= uri.len() - 9 ==> #[trigger] uri.skip(k).take(9) != seq![
                's',
                'q',
                'l',
                'i',
                't',
                'e',
                ':',
                '/',
                '/',
            ],
    ensures
        starts_with(uri, sqlite_scheme()),
        replace_all(uri, sqlite_scheme(), Seq::empty()) == uri.skip(9),
{
    reveal_strlit("sqlite://");
    let pat = sqlite_scheme();
    assert(pat =~= seq!['s', 'q', 'l', 'i', 't', 'e', ':', '/', '/']);
    let rest = uri.skip(9);
    assert forall|k: int| 0 <= k <= rest.len() - pat.len() implies !starts_with(#[trigger] rest.skip(k), pat) by {
        assert(rest.skip(k) =~= uri.skip(k + 9));
        assert(uri.skip(k + 9).take(9) != pat);
    }
    lemma_replace_all_absent(rest, pat, Seq::empty());
    assert(uri.take(9) == pat);
    assert(Seq::<char>::empty() + rest =~= rest);
}

} // verus!
