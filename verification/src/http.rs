//! What the HTTP collaborator needs computed: routing a feed path by
//! its extension, the Atom document for a feed, and the data behind
//! the feed-created page.  Transport, headers and rendering to the
//! wire stay with the collaborator; everything here is a pure function
//! of the store and the request path.

use vstd::prelude::*;
use vstd::seq_lib::group_to_multiset_ensures;
use vstd::string::StrSliceExecFns;
use vstd::string::StringExecFns;

use crate::store::{
    entries_sorted_desc, matching_entries, Entry, Feed, FeedCreatedTemplate, FeedStore, NewFeed,
};
use crate::text::{ends_with, ends_with_spec};
use crate::time::{rfc3339_of_sqlite, sqlite_datetime_to_rfc3339, is_valid_sqlite_stamp,
    valid_sqlite_stamp};
use crate::Config;

verus! {

/// The failures the HTTP surface reports.
#[derive(Clone, Copy, PartialEq, Eq, Structural, Debug)]
pub enum KtnError {
    NotFoundError,
    InternalServerError,
}

impl KtnError {
    /// The HTTP status this failure maps onto.
    pub fn status_code(&self) -> (r: u16)
        ensures
            *self == KtnError::NotFoundError ==> r == 404,
            *self == KtnError::InternalServerError ==> r == 500,
    {
        match self {
            KtnError::NotFoundError => 404,
            KtnError::InternalServerError => 500,
        }
    }

    /// The body text this failure maps onto.
    pub fn message(&self) -> (r: String)
        ensures
            *self == KtnError::NotFoundError ==> r@ == "Not Found"@,
            *self == KtnError::InternalServerError ==> r@ == "Undertermined error"@,
    {
        match self {
            KtnError::NotFoundError => "Not Found".to_owned(),
            KtnError::InternalServerError => "Undertermined error".to_owned(),
        }
    }
}

/// How a feed path is served, by its extension.
#[derive(Clone, Copy, PartialEq, Eq, Structural, Debug)]
pub enum FeedRoute {
    Html,
    Xml,
    Unknown,
}

/// Route a feed path: `.html` renders the created page, `.xml` the
/// Atom document, anything else is not found.
pub fn route_feed(reference: &str) -> (r: FeedRoute)
    ensures
        r == (if ends_with_spec(reference@, ".html"@) {
            FeedRoute::Html
        } else if ends_with_spec(reference@, ".xml"@) {
            FeedRoute::Xml
        } else {
            FeedRoute::Unknown
        }),
{
    if ends_with(reference, ".html") {
        FeedRoute::Html
    } else if ends_with(reference, ".xml") {
        FeedRoute::Xml
    } else {
        FeedRoute::Unknown
    }
}

/// `s` with the given extension removed, when it carries it.
pub open spec fn strip_ext_spec(s: Seq<char>, ext: Seq<char>) -> Seq<char> {
    if ends_with_spec(s, ext) {
        s.take(s.len() - ext.len())
    } else {
        s
    }
}

/// Remove a trailing `.xml` from a feed path.
pub fn strip_xml_ext(reference: &str) -> (r: &str)
    ensures
        r@ == strip_ext_spec(reference@, ".xml"@),
{
    proof {
        reveal_strlit(".xml");
    }
    if ends_with(reference, ".xml") {
        let n = reference.unicode_len();
        reference.substring_char(0, n - 4)
    } else {
        reference
    }
}

/// Remove a trailing `.html` from a feed path.
pub fn strip_html_ext(reference: &str) -> (r: &str)
    ensures
        r@ == strip_ext_spec(reference@, ".html"@),
{
    proof {
        reveal_strlit(".html");
    }
    if ends_with(reference, ".html") {
        let n = reference.unicode_len();
        reference.substring_char(0, n - 5)
    } else {
        reference
    }
}

/// An entry's `published` element: the RFC-3339 rendering of its
/// timestamp, or the raw text when it is not a well-formed timestamp.
pub open spec fn published_of(created_at: Seq<char>) -> Seq<char> {
    if valid_sqlite_stamp(created_at) {
        rfc3339_of_sqlite(created_at)
    } else {
        created_at
    }
}

/// One `<entry>` element.  Field values are embedded verbatim.
pub open spec fn atom_entry_xml(e: Entry) -> Seq<char> {
    "  <entry>\n    <title>"@ + e.title@ + "</title>\n    <author><name>"@ + e.author@
        + "</name></author>\n    <published>"@ + published_of(e.created_at@)
        + "</published>\n    <content type=\"html\">"@ + e.content@
        + "</content>\n  </entry>\n"@
}

/// The `<entry>` elements of `s[i..]`, concatenated.
pub open spec fn atom_entries_xml(s: Seq<Entry>, i: int) -> Seq<char>
    decreases s.len() - i,
{
    if i < 0 || i >= s.len() {
        Seq::<char>::empty()
    } else {
        atom_entry_xml(s[i]) + atom_entries_xml(s, i + 1)
    }
}

/// The whole Atom document for a feed.
pub open spec fn atom_document(
    title: Seq<char>,
    reference: Seq<char>,
    web_url: Seq<char>,
    entries: Seq<Entry>,
) -> Seq<char> {
    "<?xml version=\"1.0\" encoding=\"utf-8\"?>\n<feed xmlns=\"http://www.w3.org/2005/Atom\">\n  <title>"@
        + title + "</title>\n  <id>"@ + web_url + "/feeds/"@ + reference + ".xml</id>\n"@
        + atom_entries_xml(entries, 0) + "</feed>\n"@
}

fn render_published(created_at: &String) -> (r: String)
    ensures
        r@ == published_of(created_at@),
{
    if is_valid_sqlite_stamp(created_at.as_str()) {
        sqlite_datetime_to_rfc3339(created_at.as_str())
    } else {
        created_at.clone()
    }
}

/// Render the Atom document for a feed: title, self link, and one
/// `<entry>` per given entry, in the given order.
pub fn render_atom(
    title: &str,
    reference: &str,
    web_url: &str,
    entries: &Vec<Entry>,
) -> (r: String)
    ensures
        r@ == atom_document(title@, reference@, web_url@, entries@),
{
    let ghost es = entries@;
    let mut body = String::new();
    let mut i: usize = 0;
    while i < entries.len()
        invariant
            0 <= i <= es.len(),
            es == entries@,
            atom_entries_xml(es, 0) == body@ + atom_entries_xml(es, i as int),
        decreases es.len() - i,
    {
        let e = &entries[i];
        let ghost body0 = body@;
        body.append("  <entry>\n    <title>");
        body.append(e.title.as_str());
        body.append("</title>\n    <author><name>");
        body.append(e.author.as_str());
        body.append("</name></author>\n    <published>");
        let published = render_published(&e.created_at);
        body.append(published.as_str());
        body.append("</published>\n    <content type=\"html\">");
        body.append(e.content.as_str());
        body.append("</content>\n  </entry>\n");
        proof {
            assert(body@ =~= body0 + atom_entry_xml(es[i as int]));
            assert(atom_entries_xml(es, i as int) == atom_entry_xml(es[i as int])
                + atom_entries_xml(es, i + 1));
            assert((body0 + atom_entry_xml(es[i as int])) + atom_entries_xml(es, i + 1) =~= body0
                + (atom_entry_xml(es[i as int]) + atom_entries_xml(es, i + 1)));
        }
        i = i + 1;
    }
    proof {
        assert(body@ + atom_entries_xml(es, i as int) =~= body@);
    }
    let mut doc =
        "<?xml version=\"1.0\" encoding=\"utf-8\"?>\n<feed xmlns=\"http://www.w3.org/2005/Atom\">\n  <title>".to_owned();
    doc.append(title);
    doc.append("</title>\n  <id>");
    doc.append(web_url);
    doc.append("/feeds/");
    doc.append(reference);
    doc.append(".xml</id>\n");
    doc.append(body.as_str());
    doc.append("</feed>\n");
    proof {
        assert(doc@ =~= atom_document(title@, reference@, web_url@, entries@));
    }
    doc
}

/// The fields the Atom document is rendered from.
pub struct FeedAtomTemplate {
    pub web_url: String,
    pub email_domain: String,
    pub feed_title: String,
    pub feed_reference: String,
    pub entries: Vec<Entry>,
}

impl FeedAtomTemplate {
    /// Render the Atom document these fields describe.
    pub fn render(&self) -> (r: String)
        ensures
            r@ == atom_document(
                self.feed_title@,
                self.feed_reference@,
                self.web_url@,
                self.entries@,
            ),
    {
        render_atom(
            self.feed_title.as_str(),
            self.feed_reference.as_str(),
            self.web_url.as_str(),
            &self.entries,
        )
    }
}

/// The title shown for a feed reference: the feed's own title, or the
/// fixed fallback text when no feed carries the reference.
pub open spec fn feed_title_text(store: FeedStore, r: Seq<char>) -> Seq<char> {
    if store.spec_feed_exists(r) {
        let i = choose|i: int|
            0 <= i < store.feeds@.len() && #[trigger] store.feeds@[i].reference@ == r;
        store.feeds@[i].title@
    } else {
        "No feed title found"@
    }
}

/// The Atom document served for a feed path.  Not found exactly when
/// the referenced feed has no entries; otherwise the document carries
/// the feed's title (or the fallback text) and the feed's entries,
/// newest first.
pub fn feed_xml_document(reference: &str, store: &FeedStore, config: &Config) -> (r: Result<
    String,
    KtnError,
>)
    requires
        store.wf(),
    ensures
        r is Err <==> matching_entries(
            store.entries@,
            strip_ext_spec(reference@, ".xml"@),
        ).len() == 0,
        r matches Err(e) ==> e == KtnError::NotFoundError,
        r matches Ok(doc) ==> (exists|es: Seq<Entry>|
            es.to_multiset() == matching_entries(
                store.entries@,
                strip_ext_spec(reference@, ".xml"@),
            ).to_multiset() && entries_sorted_desc(es) && doc@ == atom_document(
                feed_title_text(*store, strip_ext_spec(reference@, ".xml"@)),
                strip_ext_spec(reference@, ".xml"@),
                config.web_url@,
                es,
            )),
{
    broadcast use group_to_multiset_ensures;

    let no_ext = strip_xml_ext(reference);
    let ghost target = strip_ext_spec(reference@, ".xml"@);
    let entries = Entry::find_by_reference(no_ext, store);
    proof {
        entries@.to_multiset_ensures();
        matching_entries(store.entries@, target).to_multiset_ensures();
    }
    if entries.len() == 0 {
        return Err(KtnError::NotFoundError);
    }
    let title = match Feed::get_title_given_reference(no_ext, store) {
        Ok(t) => t,
        Err(_) => "No feed title found".to_owned(),
    };
    proof {
        if store.spec_feed_exists(target) {
            let i = choose|i: int|
                0 <= i < store.feeds@.len() && #[trigger] store.feeds@[i].reference@ == target;
            assert(store.feeds@[i].title@ == feed_title_text(*store, target));
        }
    }
    let doc = render_atom(title.as_str(), no_ext, config.web_url.as_str(), &entries);
    proof {
        assert(entries@.to_multiset() == matching_entries(
            store.entries@,
            target,
        ).to_multiset() && entries_sorted_desc(entries@) && doc@ == atom_document(
            feed_title_text(*store, target),
            target,
            config.web_url@,
            entries@,
        ));
    }
    Ok(doc)
}

/// The data behind the feed-created page for a feed path.  Not found
/// exactly when no feed carries the reference; otherwise the template
/// fields name the reference and the feed's stored title.
pub fn feed_html_data(reference: &str, store: &FeedStore, config: &Config) -> (r: Result<
    FeedCreatedTemplate,
    KtnError,
>)
    requires
        store.wf(),
    ensures
        r is Ok <==> store.spec_feed_exists(strip_ext_spec(reference@, ".html"@)),
        r matches Err(e) ==> e == KtnError::NotFoundError,
        r matches Ok(t) ==> (t.reference@ == strip_ext_spec(reference@, ".html"@) && t.title@
            == feed_title_text(*store, strip_ext_spec(reference@, ".html"@)) && t.email_domain@
            == config.email_domain@ && t.web_url@ == config.web_url@),
{
    let no_ext = strip_html_ext(reference);
    let ghost target = strip_ext_spec(reference@, ".html"@);
    let title = match Feed::get_title_given_reference(no_ext, store) {
        Ok(t) => t,
        Err(_) => {
            return Err(KtnError::NotFoundError);
        },
    };
    proof {
        let i = choose|i: int|
            0 <= i < store.feeds@.len() && #[trigger] store.feeds@[i].reference@ == target;
        assert(store.feeds@[i].title@ == feed_title_text(*store, target));
    }
    let feed = NewFeed { reference: Some(no_ext.to_owned()), title };
    Ok(feed.created_template(config))
}

} // verus!
