//! Pages of the guestbook: what a visitor sends, what is stored, and what is
//! shown to readers.
use vstd::prelude::*;
use crate::config::ConfigOverrides;
use crate::text::{
    hex_value, is_escaped_char, lemma_escape_safe_plain, lemma_lower_hex_decodes, lemma_prefix,
    is_markup_char,    escape_safe, lemma_escape_safe_no_markup, has_char, has_prefix, is_lower_hex_digit, lemma_lower_hex_shape, lower_hex, prefix,
    starts_with, take_chars, to_lower_hex,
};
use crate::outside::{
    encode_safe, is_uuid_v4_text, md5_digest, md5_digest_of, now_timestamp, random_uuid_text,
    utc_timestamp_is_representable, utc_timestamp_representable,
};

verus! {

/// Longest author name kept, in characters.
pub const AUTHOR_MAX_CHARS: usize = 25;
/// Longest contact kept, in characters.
pub const CONTACT_MAX_CHARS: usize = 50;
/// Longest body kept, in characters.
pub const BODY_MAX_CHARS: usize = 4096;

/// A stored page.
#[derive(Debug, Clone, Default)]
pub struct Page {
    pub id: i64,
    pub author: String,
    pub contact: Option<String>,
    pub body: String,
    /// Seconds since the Unix epoch.
    pub timestamp: i64,
    pub public: bool,
}

/// A page as readers see it.
#[derive(Debug, Clone, Default)]
pub struct PageView {
    pub id: i64,
    pub author: String,
    pub contact: Option<String>,
    /// A link made from the contact, where it looks like one.
    pub url: Option<String>,
    /// Lower-case hexadecimal MD5 of the contact (of a random UUID where there is none).
    pub avatar: String,
    pub body: String,
    /// Seconds since the Unix epoch; 0 where the stored time cannot be represented.
    pub date: i64,
}

/// A page as a visitor sends it.
#[derive(Debug, Clone, Default)]
pub struct PageInsertion {
    pub body: String,
    pub author: Option<String>,
    pub contact: Option<String>,
    pub public: Option<bool>,
    /// Seconds since the Unix epoch.
    pub date: Option<i64>,
}

/// Which slice of the public pages a reader asks for.
#[derive(Debug, Clone)]
pub struct PageOptions {
    pub offset: Option<i32>,
    pub limit: Option<i32>,
}

/// The characters of an optional string.
pub open spec fn opt_view(o: Option<String>) -> Option<Seq<char>> {
    match o {
        Some(s) => Some(s@),
        None => None,
    }
}

/// What sanitising makes of an optional field: cut to `max` characters,
/// escaped, and dropped where nothing is left.
pub open spec fn sanitized_field(o: Option<Seq<char>>, max: int) -> Option<Seq<char>> {
    match o {
        Some(s) => {
            let e = escape_safe(prefix(s, max));
            if e.len() == 0 {
                None
            } else {
                Some(e)
            }
        },
        None => None,
    }
}

/// The link readers get for a contact: web addresses as they are, e-mail
/// addresses as `mailto:` links, other dotted names as `https://` links.
pub open spec fn contact_link(contact: Option<Seq<char>>) -> Option<Seq<char>> {
    match contact {
        Some(c) => if starts_with(c, "http"@) {
            Some(c)
        } else if c.contains('@') {
            Some("mailto:"@ + c)
        } else if c.contains('.') {
            Some("https://"@ + c)
        } else {
            None
        },
        None => None,
    }
}

/// The avatar drawn from a text: lower-case hexadecimal of its MD5 digest.
pub open spec fn avatar_for(source: Seq<char>) -> Seq<char> {
    lower_hex(md5_digest_of(source))
}

/// The date readers see for a stored time.
pub open spec fn shown_date(timestamp: i64) -> i64 {
    if utc_timestamp_representable(timestamp) {
        timestamp
    } else {
        0
    }
}

/// A 32-digit lower-case hexadecimal text, the shape of every avatar.
pub open spec fn is_avatar_shape(a: Seq<char>) -> bool {
    &&& a.len() == 32
    &&& forall|i: int| 0 <= i < a.len() ==> is_lower_hex_digit(#[trigger] a[i])
}

/// `None` for an empty string, the string itself otherwise.
pub fn _non_empty_string(input: String) -> (r: Option<String>)
    ensures
        input@.len() == 0 ==> r is None,
        input@.len() != 0 ==> r == Some(input),
{
    if input.as_str().is_empty() {
        None
    } else {
        Some(input)
    }
}

/// A copy of an optional string.
fn clone_opt(o: &Option<String>) -> (r: Option<String>)
    ensures
        r == *o,
{
    match o {
        Some(s) => Some(s.clone()),
        None => None,
    }
}

impl Page {
    /// A page from the columns of a stored row: an empty contact column means
    /// no contact, a positive visibility column means public.
    pub fn from_columns(
        id: i64,
        author: String,
        contact: String,
        body: String,
        timestamp: i64,
        public: i32,
    ) -> (page: Page)
        ensures
            page.id == id,
            page.author == author,
            page.contact == (if contact@.len() == 0 { None } else { Some(contact) }),
            page.body == body,
            page.timestamp == timestamp,
            page.public == (public > 0),
    {
        Page {
            id,
            author,
            contact: _non_empty_string(contact),
            body,
            timestamp,
            public: public > 0,
        }
    }
}

/// The link readers get for a contact (see `contact_link`).
pub fn contact_url(contact: Option<&str>) -> (url: Option<String>)
    ensures
        opt_view(url) == contact_link(match contact {
            Some(c) => Some(c@),
            None => None,
        }),
{
    match contact {
        None => None,
        Some(c) => {
            if has_prefix(c, "http") {
                Some(c.to_owned())
            } else if has_char(c, '@') {
                let mut url = "mailto:".to_owned();
                url.append(c);
                Some(url)
            } else if has_char(c, '.') {
                let mut url = "https://".to_owned();
                url.append(c);
                Some(url)
            } else {
                None
            }
        },
    }
}

/// The avatar drawn from a text.
pub fn avatar_of(source: &str) -> (avatar: String)
    ensures
        avatar@ == avatar_for(source@),
        avatar@ == lower_hex(md5_digest_of(source@)),
        is_avatar_shape(avatar@),
{
    let digest = md5_digest(source);
    proof {
        lemma_lower_hex_shape(digest@);
    }
    to_lower_hex(&digest)
}

/// The date readers see for a stored time (see `shown_date`).
pub fn date_shown(timestamp: i64) -> (date: i64)
    ensures
        date == shown_date(timestamp),
{
    if utc_timestamp_is_representable(timestamp) {
        timestamp
    } else {
        0
    }
}

impl PageView {
    /// Everything a reader sees of `page` but the avatar.
    pub open spec fn shows(&self, page: Page) -> bool {
        &&& self.id == page.id
        &&& self.author == page.author
        &&& self.contact == page.contact
        &&& self.body == page.body
        &&& opt_view(self.url) == contact_link(opt_view(page.contact))
        &&& self.date == shown_date(page.timestamp)
    }

    /// The view of `page` whose avatar is drawn from `avatar_source`.
    pub fn with_avatar_source(page: &Page, avatar_source: &str) -> (view: PageView)
        ensures
            view.shows(*page),
            view.avatar@ == avatar_for(avatar_source@),
            view.avatar@ == lower_hex(md5_digest_of(avatar_source@)),
            is_avatar_shape(view.avatar@),
    {
        let url = match &page.contact {
            Some(c) => contact_url(Some(c.as_str())),
            None => contact_url(None),
        };
        PageView {
            id: page.id,
            author: page.author.clone(),
            contact: clone_opt(&page.contact),
            url,
            avatar: avatar_of(avatar_source),
            body: page.body.clone(),
            date: date_shown(page.timestamp),
        }
    }

    /// This is a view of `page`: it shows the page, its avatar is drawn from
    /// the contact where there is one, from a version-4 UUID text where there is
    /// none, and it has the shape of an avatar.
    pub open spec fn is_view_of(&self, page: Page) -> bool {
        &&& self.shows(page)
        &&& (page.contact matches Some(c) ==> self.avatar@ == avatar_for(c@))
        &&& (page.contact is None ==> exists|u: Seq<char>|
            is_uuid_v4_text(u) && self.avatar@ == #[trigger] avatar_for(u))
        &&& is_avatar_shape(self.avatar@)
    }

    /// The view of `page`. The avatar is drawn from the contact; a page
    /// without contact gets the avatar of a random version-4 UUID text.
    pub fn from(page: &Page) -> (view: PageView)
        ensures
            view.is_view_of(*page),
    {
        match &page.contact {
            Some(c) => PageView::with_avatar_source(page, c.as_str()),
            None => {
                let source = random_uuid_text();
                let view = PageView::with_avatar_source(page, source.as_str());
                assert(is_uuid_v4_text(source@) && view.avatar@ == avatar_for(source@));
                view
            },
        }
    }
}

/// The views of several pages, in order.
pub fn views_of(pages: &Vec<Page>) -> (views: Vec<PageView>)
    ensures
        views.len() == pages.len(),
        forall|i: int| 0 <= i < pages.len() ==> #[trigger] views[i].is_view_of(pages[i]),
{
    let mut views: Vec<PageView> = Vec::new();
    let mut i: usize = 0;
    while i < pages.len()
        invariant
            i <= pages.len(),
            views.len() == i,
            forall|j: int| 0 <= j < i ==> #[trigger] views[j].is_view_of(pages[j]),
        decreases pages.len() - i,
    {
        views.push(PageView::from(&pages[i]));
        i += 1;
    }
    views
}

impl PageInsertion {
    /// `input` cut to `len` characters, then escaped for HTML.
    pub fn trim_and_escape(input: &str, len: usize) -> (r: String)
        ensures
            r@ == escape_safe(prefix(input@, len as int)),
    {
        let cut = take_chars(input, len);
        encode_safe(cut.as_str())
    }

    /// An optional field cut, escaped, and dropped where nothing is left.
    fn sanitize_field(field: &Option<String>, max: usize) -> (r: Option<String>)
        ensures
            opt_view(r) == sanitized_field(opt_view(*field), max as int),
    {
        match field {
            Some(s) => {
                let e = Self::trim_and_escape(s.as_str(), max);
                _non_empty_string(e)
            },
            None => None,
        }
    }

    /// Makes a page fit to store and show: author, contact and body are cut to
    /// their longest length and escaped for HTML; an author or contact that
    /// ends up empty is dropped.
    pub fn sanitize(&mut self)
        ensures
            opt_view(final(self).author) == sanitized_field(opt_view(old(self).author), AUTHOR_MAX_CHARS as int),
            opt_view(final(self).contact) == sanitized_field(opt_view(old(self).contact), CONTACT_MAX_CHARS as int),
            final(self).body@ == escape_safe(prefix(old(self).body@, BODY_MAX_CHARS as int)),
            final(self).public == old(self).public,
            final(self).date == old(self).date,
            final(self).is_sanitized_of(*old(self)),
    {
        self.author = Self::sanitize_field(&self.author, AUTHOR_MAX_CHARS);
        self.contact = Self::sanitize_field(&self.contact, CONTACT_MAX_CHARS);
        self.body = Self::trim_and_escape(self.body.as_str(), BODY_MAX_CHARS);
    }

    /// This page is `before` sanitised (see `sanitize`).
    pub open spec fn is_sanitized_of(self, before: PageInsertion) -> bool {
        &&& opt_view(self.author) == sanitized_field(opt_view(before.author), AUTHOR_MAX_CHARS as int)
        &&& opt_view(self.contact) == sanitized_field(opt_view(before.contact), CONTACT_MAX_CHARS as int)
        &&& self.body@ == escape_safe(prefix(before.body@, BODY_MAX_CHARS as int))
        &&& self.public == before.public
        &&& self.date == before.date
    }

    /// What the overrides make of this page when it arrives at `now`.
    pub open spec fn overridden(self, overrides: ConfigOverrides, now: i64) -> PageInsertion {
        PageInsertion {
            body: self.body,
            author: match overrides.author {
                Some(a) => Some(a),
                None => self.author,
            },
            contact: self.contact,
            public: match overrides.public {
                Some(p) => Some(p),
                None => self.public,
            },
            date: if overrides.date {
                Some(now)
            } else {
                self.date
            },
        }
    }

    /// Forces the overrides on this page, taken to arrive at `now`.
    pub fn apply_overrides(&mut self, overrides: &ConfigOverrides, now: i64)
        ensures
            *final(self) == old(self).overridden(*overrides, now),
    {
        if let Some(public) = overrides.public {
            self.public = Some(public);
        }
        if let Some(author) = &overrides.author {
            self.author = Some(author.clone());
        }
        if overrides.date {
            self.date = Some(now);
        }
    }

    /// Forces the overrides on this page, dated, where they say so, with the
    /// time of the clock; the clock is read only then. Where the date is not
    /// overridden, the time of arrival plays no part (`0` stands for it).
    pub fn overrides(&mut self, overrides: &ConfigOverrides)
        ensures
            !overrides.date ==> *final(self) == old(self).overridden(*overrides, 0),
            overrides.date ==> exists|now: i64| now >= 0 && *final(self) == old(self).overridden(*overrides, now),
    {
        if overrides.date {
            let now = now_timestamp();
            self.apply_overrides(overrides, now);
        } else {
            self.apply_overrides(overrides, 0);
        }
    }
}

impl PageOptions {
    /// The offset and the number of pages a reader gets: from the start where
    /// no offset is given, and at most 20 pages, 20 where no limit is given.
    pub open spec fn window_spec(&self) -> (i32, i32) {
        (
            match self.offset {
                Some(o) => o,
                None => 0,
            },
            match self.limit {
                Some(l) => if l < 20 {
                    l
                } else {
                    20
                },
                None => 20,
            },
        )
    }

    /// The offset and the number of pages a reader gets (see `window_spec`).
    pub fn window(&self) -> (r: (i32, i32))
        ensures
            r == self.window_spec(),
    {
        let offset = match self.offset {
            Some(o) => o,
            None => 0,
        };
        let limit = match self.limit {
            Some(l) => if l < 20 { l } else { 20 },
            None => 20,
        };
        (offset, limit)
    }
}


/// The date readers see is always one `chrono` can represent: a stored time
/// out of its range is shown as the epoch.
pub proof fn lemma_shown_date_representable(timestamp: i64)
    ensures
        utc_timestamp_representable(shown_date(timestamp)),
        -8_334_601_228_800 <= timestamp <= 8_210_266_876_799 ==> shown_date(timestamp) == timestamp,
        (timestamp < -8_334_601_228_800 || timestamp > 8_210_266_876_799) ==> shown_date(timestamp) == 0,
        !utc_timestamp_representable(timestamp) ==> shown_date(timestamp) == 0,
{
}

/// A reader never gets more than 20 pages at once.
pub proof fn lemma_window_at_most_twenty(options: PageOptions)
    ensures
        options.window_spec().1 <= 20,
{
}

/// Two pages with the same contact show the same avatar.
pub proof fn lemma_same_contact_same_avatar(p1: Page, v1: PageView, p2: Page, v2: PageView)
    requires
        v1.is_view_of(p1),
        v2.is_view_of(p2),
        p1.contact is Some,
        opt_view(p1.contact) == opt_view(p2.contact),
    ensures
        v1.avatar@ == v2.avatar@,
{
}

/// A link is only made from a contact, and it ends with that contact.
pub proof fn lemma_link_ends_with_contact(contact: Option<Seq<char>>)
    ensures
        contact is None ==> contact_link(contact) is None,
        contact_link(contact) matches Some(u) ==> (contact matches Some(c) && u.len() >= c.len()
            && u.skip(u.len() - c.len()) == c),
{
    if let (Some(u), Some(c)) = (contact_link(contact), contact) {
        if !starts_with(c, "http"@) {
            if c.contains('@') {
                assert(u.skip(u.len() - c.len()) =~= c);
            } else {
                assert(u.skip(u.len() - c.len()) =~= c);
            }
        } else {
            assert(u.skip(0) =~= u);
        }
    }
}

/// A sanitised field is never empty, holds no `<`, `>`, `"`, `'` or `/`, and is
/// at most six times its longest length.
pub proof fn lemma_sanitized_field_safe(o: Option<Seq<char>>, max: int)
    requires
        max >= 0,
    ensures
        sanitized_field(o, max) matches Some(e) ==> {
            &&& e.len() > 0
            &&& e.len() <= 6 * max
            &&& forall|i: int| 0 <= i < e.len() ==> !is_markup_char(#[trigger] e[i])
        },
{
    if let Some(s) = o {
        lemma_escape_safe_no_markup(prefix(s, max));
    }
}

/// A sanitised body holds no `<`, `>`, `"`, `'` or `/`, and is at most six
/// times the longest body.
pub proof fn lemma_sanitized_body_safe(body: Seq<char>)
    ensures
        escape_safe(prefix(body, BODY_MAX_CHARS as int)).len() <= 6 * BODY_MAX_CHARS,
        forall|i: int| 0 <= i < escape_safe(prefix(body, BODY_MAX_CHARS as int)).len()
            ==> !is_markup_char(#[trigger] escape_safe(prefix(body, BODY_MAX_CHARS as int))[i]),
{
    lemma_escape_safe_no_markup(prefix(body, BODY_MAX_CHARS as int));
}


/// A text holding none of the characters safe escaping rewrites.
pub open spec fn is_plain(s: Seq<char>) -> bool {
    forall|i: int| 0 <= i < s.len() ==> !is_escaped_char(#[trigger] s[i])
}

/// What sanitising makes of one optional field, in terms of the field itself:
/// nothing stays nothing; a non-empty field stays; a plain field no longer than
/// `max` is kept exactly; a longer plain field keeps its first `max` characters.
pub proof fn lemma_sanitized_field_keeps_text(s: Seq<char>, max: int)
    requires
        max > 0,
    ensures
        sanitized_field(None, max) is None,
        s.len() > 0 ==> sanitized_field(Some(s), max) is Some,
        s.len() == 0 ==> sanitized_field(Some(s), max) is None,
        is_plain(s) && 0 < s.len() <= max ==> sanitized_field(Some(s), max) == Some(s),
        is_plain(s) && s.len() > max ==> sanitized_field(Some(s), max) == Some(s.take(max)),
{
    lemma_prefix(s, max);
    crate::text::lemma_escape_safe_no_markup(prefix(s, max));
    if is_plain(s) {
        let p = prefix(s, max);
        assert forall|i: int| 0 <= i < p.len() implies !is_escaped_char(#[trigger] p[i]) by {
            assert(p[i] == s[i]);
        }
        lemma_escape_safe_plain(p);
    }
    if s.len() == 0 {
        assert(prefix(s, max) =~= Seq::<char>::empty());
    }
}

/// Sanitising, in terms of the page sent: an author or contact that was given
/// and not empty is kept; a plain one within its longest length is kept
/// exactly, as is a plain body of at most 4096 characters; visibility and date
/// are untouched.
pub proof fn lemma_sanitize_keeps_text(before: PageInsertion, after: PageInsertion)
    requires
        after.is_sanitized_of(before),
    ensures
        before.author is None ==> after.author is None,
        before.contact is None ==> after.contact is None,
        before.author matches Some(a) ==> (a@.len() > 0 <==> after.author is Some),
        before.contact matches Some(c) ==> (c@.len() > 0 <==> after.contact is Some),
        before.author matches Some(a) ==> (is_plain(a@) && a@.len() <= 25 && a@.len()
            > 0 ==> opt_view(after.author) == Some(a@)),
        before.contact matches Some(c) ==> (is_plain(c@) && c@.len() <= 50 && c@.len()
            > 0 ==> opt_view(after.contact) == Some(c@)),
        is_plain(before.body@) && before.body@.len() <= 4096 ==> after.body@ == before.body@,
        before.author matches Some(a) ==> (is_plain(a@) && a@.len() > 25 ==> opt_view(after.author)
            == Some(a@.take(25))),
        before.contact matches Some(c) ==> (is_plain(c@) && c@.len() > 50 ==> opt_view(
            after.contact,
        ) == Some(c@.take(50))),
        is_plain(before.body@) && before.body@.len() > 4096 ==> after.body@ == before.body@.take(4096),
        after.public == before.public,
        after.date == before.date,
{
    if let Some(a) = before.author {
        lemma_sanitized_field_keeps_text(a@, AUTHOR_MAX_CHARS as int);
    }
    if let Some(c) = before.contact {
        lemma_sanitized_field_keeps_text(c@, CONTACT_MAX_CHARS as int);
    }
    lemma_prefix(before.body@, BODY_MAX_CHARS as int);
    if is_plain(before.body@) {
        let p = prefix(before.body@, BODY_MAX_CHARS as int);
        assert forall|i: int| 0 <= i < p.len() implies !is_escaped_char(#[trigger] p[i]) by {
            assert(p[i] == before.body@[i]);
        }
        lemma_escape_safe_plain(p);
    }
}

/// The avatar of a page with a contact is the MD5 digest of the whole contact,
/// written in lower-case hexadecimal: two digits per digest byte, which read
/// back as that byte.
pub proof fn lemma_avatar_is_md5_of_contact(page: Page, view: PageView, contact: String)
    requires
        view.is_view_of(page),
        page.contact == Some(contact),
    ensures
        view.avatar@ == lower_hex(md5_digest_of(contact@)),
        view.avatar@.len() == 2 * md5_digest_of(contact@).len(),
        forall|i: int|
            0 <= i < md5_digest_of(contact@).len() ==> 16 * hex_value(#[trigger] view.avatar@[2 * i])
                + hex_value(view.avatar@[2 * i + 1]) == md5_digest_of(contact@)[i],
{
    lemma_lower_hex_decodes(md5_digest_of(contact@));
}

/// A reader who asks for a limit of at most 20 pages gets that limit; a larger
/// limit, or none, gives 20; the offset is the one asked for, or 0.
pub proof fn lemma_window_honours_limit(options: PageOptions)
    ensures
        options.limit matches Some(l) ==> (l <= 20 ==> options.window_spec().1 == l),
        options.limit matches Some(l) ==> (l > 20 ==> options.window_spec().1 == 20),
        options.limit is None ==> options.window_spec().1 == 20,
        options.offset matches Some(o) ==> options.window_spec().0 == o,
        options.offset is None ==> options.window_spec().0 == 0,
{
}


/// The link of a contact, case by case: a contact starting with `http` is its
/// own link; otherwise one holding `@` gets `mailto:` before it; otherwise one
/// holding `.` gets `https://` before it; any other contact, and a missing one,
/// gives no link.
pub proof fn lemma_contact_link_cases(c: Seq<char>)
    ensures
        c.len() >= 4 && c[0] == 'h' && c[1] == 't' && c[2] == 't' && c[3] == 'p' ==> contact_link(Some(c))
            == Some(c),
        !(c.len() >= 4 && c[0] == 'h' && c[1] == 't' && c[2] == 't' && c[3] == 'p') && c.contains('@')
            ==> contact_link(Some(c)) == Some(seq!['m', 'a', 'i', 'l', 't', 'o', ':'] + c),
        !(c.len() >= 4 && c[0] == 'h' && c[1] == 't' && c[2] == 't' && c[3] == 'p') && !c.contains('@')
            && c.contains('.') ==> contact_link(Some(c)) == Some(
            seq!['h', 't', 't', 'p', 's', ':', '/', '/'] + c,
        ),
        !(c.len() >= 4 && c[0] == 'h' && c[1] == 't' && c[2] == 't' && c[3] == 'p') && !c.contains('@')
            && !c.contains('.') ==> contact_link(Some(c)) is None,
        contact_link(None) is None,
{
    reveal_strlit("http");
    reveal_strlit("mailto:");
    reveal_strlit("https://");
    crate::text::lemma_starts_with(c, "http"@);
    assert("http"@ =~= seq!['h', 't', 't', 'p']);
    assert("mailto:"@ =~= seq!['m', 'a', 'i', 'l', 't', 'o', ':']);
    assert("https://"@ =~= seq!['h', 't', 't', 'p', 's', ':', '/', '/']);
}

/// A view shows its page as it is stored: same identifier, author, contact and
/// body, the contact's link, and the stored time where `chrono` can represent
/// it.
pub proof fn lemma_view_shows_page(page: Page, view: PageView)
    requires
        view.is_view_of(page),
    ensures
        view.id == page.id,
        view.author@ == page.author@,
        opt_view(view.contact) == opt_view(page.contact),
        view.body@ == page.body@,
        page.contact is None ==> view.url is None,
        page.contact matches Some(c) ==> (opt_view(view.url) == contact_link(Some(c@))),
        -8_334_601_228_800 <= page.timestamp <= 8_210_266_876_799 ==> view.date == page.timestamp,
{
}

/// Overrides touch only what they name: the body and contact never change, and
/// the author, visibility and date change only where an override is set, to
/// the forced value (the date to the time of arrival).
pub proof fn lemma_overrides_only_what_they_name(page: PageInsertion, o: ConfigOverrides, now: i64)
    ensures
        page.overridden(o, now).body == page.body,
        page.overridden(o, now).contact == page.contact,
        o.author is None ==> page.overridden(o, now).author == page.author,
        o.author matches Some(a) ==> page.overridden(o, now).author == Some(a),
        o.public is None ==> page.overridden(o, now).public == page.public,
        o.public matches Some(p) ==> page.overridden(o, now).public == Some(p),
        !o.date ==> page.overridden(o, now).date == page.date,
        o.date ==> page.overridden(o, now).date == Some(now),
{
}

} // verus!
