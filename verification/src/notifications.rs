//! What the notifiers say of a new page. Sending it is left to the caller.
use vstd::prelude::*;
use crate::model::Page;
use crate::outside::encode_text;
use crate::text::escape_text;

verus! {

/// Logs each new page.
pub struct ConsoleTracingNotifier {}

/// Prints each new page on one line.
pub struct ConsolePrettyNotifier {}

/// Posts each new page to a topic of an ntfy server.
pub struct NtfyNotifier {
    server: String,
    topic: String,
}

/// The contact of a page, or `fallback` where it has none.
pub open spec fn contact_or(page: Page, fallback: Seq<char>) -> Seq<char> {
    match page.contact {
        Some(c) => c@,
        None => fallback,
    }
}

impl ConsolePrettyNotifier {
    /// The printed line: `body -- author <contact>`, with nothing between the
    /// angle brackets where the page has no contact.
    pub fn line(page: &Page) -> (line: String)
        ensures
            line@ == page.body@ + " -- "@ + page.author@ + " <"@ + contact_or(*page, Seq::empty())
                + ">"@,
    {
        let mut line = page.body.clone();
        line.append(" -- ");
        line.append(page.author.as_str());
        line.append(" <");
        match &page.contact {
            Some(c) => line.append(c.as_str()),
            None => {
                assert(""@ =~= Seq::<char>::empty()) by {
                    reveal_strlit("");
                }
                line.append("")
            },
        }
        line.append(">");
        line
    }
}

impl NtfyNotifier {
    pub closed spec fn server(&self) -> Seq<char> {
        self.server@
    }

    pub closed spec fn topic(&self) -> Seq<char> {
        self.topic@
    }

    /// A notifier posting to `topic` on `server`.
    pub fn new(server: String, topic: String) -> (n: NtfyNotifier)
        ensures
            n.server() == server@,
            n.topic() == topic@,
    {
        NtfyNotifier { server, topic }
    }

    /// Where pages are posted: `server/topic`.
    pub fn topic_url(&self) -> (url: String)
        ensures
            url@ == self.server() + "/"@ + self.topic(),
    {
        let mut url = self.server.clone();
        url.append("/");
        url.append(self.topic.as_str());
        url
    }

    /// The title of a notification: `author <contact>`, or the author alone
    /// where the page has no contact.
    pub fn title(page: &Page) -> (title: String)
        ensures
            title@ == (match page.contact {
                Some(c) => page.author@ + " <"@ + c@ + ">"@,
                None => page.author@,
            }),
    {
        let mut title = page.author.clone();
        if let Some(c) = &page.contact {
            title.append(" <");
            title.append(c.as_str());
            title.append(">");
        }
        title
    }
}

/// The Telegram message for a page, in Telegram's HTML:
/// `[<code>author</code>] <i>contact</i> | body`, each part escaped as HTML
/// text, `N/A` standing for a missing contact.
pub fn telegram_message(page: &Page) -> (message: String)
    ensures
        message@ == "[<code>"@ + escape_text(page.author@) + "</code>] <i>"@ + escape_text(
            contact_or(*page, "N/A"@),
        ) + "</i> | "@ + escape_text(page.body@),
{
    let mut message = "[<code>".to_owned();
    message.append(encode_text(page.author.as_str()).as_str());
    message.append("</code>] <i>");
    let contact = match &page.contact {
        Some(c) => encode_text(c.as_str()),
        None => encode_text("N/A"),
    };
    message.append(contact.as_str());
    message.append("</i> | ");
    message.append(encode_text(page.body.as_str()).as_str());
    message
}

/// Who an e-mail about a page comes from: the author's name, and the page's
/// contact as address, or `from` where the page has none.
pub fn email_sender<'a>(page: &'a Page, from: &'a str) -> (sender: (&'a str, &'a str))
    ensures
        sender.0@ == page.author@,
        sender.1@ == contact_or(*page, from@),
{
    let address = match &page.contact {
        Some(c) => c.as_str(),
        None => from,
    };
    (page.author.as_str(), address)
}


/// The contact a notification names: the page's own where it has one, the
/// fallback only where it has none.
pub proof fn lemma_contact_or(page: Page, fallback: Seq<char>)
    ensures
        page.contact matches Some(c) ==> contact_or(page, fallback) == c@,
        page.contact is None ==> contact_or(page, fallback) == fallback,
{
}

} // verus!
