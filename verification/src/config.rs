//! Settings of a guestbook instance: what is forced on incoming pages, which
//! notifiers run, and how the page looks. Every field has a default, and a
//! missing settings file means the defaults below.
use vstd::prelude::*;

verus! {

/// The whole configuration.
#[derive(Debug, Clone)]
pub struct Config {
    pub overrides: ConfigOverrides,
    pub notifiers: ConfigNotifiers,
    pub template: ConfigTemplate,
}

/// Values forced on every incoming page, whatever its author sent.
#[derive(Debug, Clone)]
pub struct ConfigOverrides {
    /// When set, every page is signed with this name.
    pub author: Option<String>,
    /// When set, every page gets this visibility.
    pub public: Option<bool>,
    /// When true, every page is dated with the time it arrives.
    pub date: bool,
}

/// Texts and colours of the built-in front page.
#[derive(Debug, Clone)]
pub struct ConfigTemplate {
    pub title: String,
    pub logo: String,
    pub description: String,
    pub placeholder_body: String,
    pub canonical: Option<String>,
    pub palette: ConfigPalette,
}

/// Colours of the built-in front page.
#[derive(Debug, Clone)]
pub struct ConfigPalette {
    pub bg_main: String,
    pub bg_off: String,
    pub fg_main: String,
    pub fg_off: String,
    pub accent: String,
    pub accent_dark: String,
    pub accent_light: String,
}

/// The notifiers that hear of each new page.
#[derive(Debug, Clone)]
pub struct ConfigNotifiers {
    pub providers: Vec<NotifierProvider>,
}

/// One notifier and its settings.
#[derive(Debug, Clone)]
pub enum NotifierProvider {
    Console,
    Telegram { token: String, chat_id: i64 },
    Email {
        server: String,
        port: u16,
        username: String,
        password: String,
        from: String,
        to: String,
        subject: String,
    },
}

impl ConfigOverrides {
    /// Default overrides: authors keep their name and visibility, the date is
    /// always the time of arrival.
    pub open spec fn is_default(&self) -> bool {
        &&& self.author is None
        &&& self.public is None
        &&& self.date
    }
}

impl ConfigPalette {
    pub open spec fn is_default(&self) -> bool {
        &&& self.bg_main@ == "#201F29"@
        &&& self.bg_off@ == "#292835"@
        &&& self.fg_main@ == "#E8E1D3"@
        &&& self.fg_off@ == "#ADA9A1"@
        &&& self.accent@ == "#BF616A"@
        &&& self.accent_dark@ == "#824E53"@
        &&& self.accent_light@ == "#D1888E"@
    }
}

impl ConfigTemplate {
    pub open spec fn is_default(&self) -> bool {
        &&& self.title@ == "guestbook"@
        &&& self.logo@ == "/logo.jpg"@
        &&& self.description@ == "you found my guestbook! please take a moment to sign it (:"@
        &&& self.placeholder_body@ == "Kilroy was here  \u{3a9}"@
        &&& self.canonical is None
        &&& self.palette.is_default()
    }
}

impl ConfigNotifiers {
    /// By default only the console hears of new pages.
    pub open spec fn is_default(&self) -> bool {
        self.providers@ == seq![NotifierProvider::Console]
    }
}

impl Config {
    pub open spec fn is_default(&self) -> bool {
        &&& self.overrides.is_default()
        &&& self.notifiers.is_default()
        &&& self.template.is_default()
    }
}

impl Default for ConfigOverrides {
    fn default() -> (r: Self)
        ensures
            r.is_default(),
    {
        ConfigOverrides { author: None, public: None, date: true }
    }
}

impl Default for ConfigPalette {
    fn default() -> (r: Self)
        ensures
            r.is_default(),
    {
        ConfigPalette {
            bg_main: "#201F29".to_owned(),
            bg_off: "#292835".to_owned(),
            fg_main: "#E8E1D3".to_owned(),
            fg_off: "#ADA9A1".to_owned(),
            accent: "#BF616A".to_owned(),
            accent_dark: "#824E53".to_owned(),
            accent_light: "#D1888E".to_owned(),
        }
    }
}

impl Default for ConfigTemplate {
    fn default() -> (r: Self)
        ensures
            r.is_default(),
    {
        ConfigTemplate {
            title: "guestbook".to_owned(),
            logo: "/logo.jpg".to_owned(),
            description: "you found my guestbook! please take a moment to sign it (:".to_owned(),
            placeholder_body: "Kilroy was here  \u{3a9}".to_owned(),
            canonical: None,
            palette: ConfigPalette::default(),
        }
    }
}

impl Default for ConfigNotifiers {
    fn default() -> (r: Self)
        ensures
            r.is_default(),
    {
        let mut providers = Vec::new();
        providers.push(NotifierProvider::Console);
        ConfigNotifiers { providers }
    }
}

impl Default for Config {
    fn default() -> (r: Self)
        ensures
            r.is_default(),
    {
        Config {
            overrides: ConfigOverrides::default(),
            notifiers: ConfigNotifiers::default(),
            template: ConfigTemplate::default(),
        }
    }
}

} // verus!
