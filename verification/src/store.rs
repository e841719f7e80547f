//! The feed store: feeds keyed by a unique reference, entries bound to
//! feeds by that reference.  The store upholds two invariants — feed
//! references are unique, and every entry references an existing feed —
//! and every operation's contract says exactly which rows it adds.

use vstd::prelude::*;
use vstd::seq_lib::group_to_multiset_ensures;
use vstd::string::StringExecFns;

use rand::distributions::{Alphanumeric, DistString};

use crate::text::{
    has_char, lemma_lex_le_total, lex_le, lower_char, lower_spec, prefix_before, str_eq, str_le,
    to_ascii_lower, trim, trim_spec, trim_end_spec, trim_start_spec,
};
use crate::time::{valid_sqlite_stamp, Epoch};
use crate::Config;

verus! {

/// Failures the store reports.
#[derive(Clone, Copy, PartialEq, Eq, Structural, Debug)]
pub enum DatabaseError {
    NotFound,
    CouldNotInsert,
}

/// A feed: a stable reference, a title, and its timestamps.
pub struct Feed {
    pub id: i64,
    pub created_at: String,
    pub updated_at: String,
    pub reference: String,
    pub title: String,
}

/// One published entry of a feed.
#[derive(Debug)]
pub struct Entry {
    pub id: i64,
    pub created_at: String,
    pub reference: String,
    pub title: String,
    pub author: String,
    pub content: String,
}

/// A feed creation request: the chosen title, and optionally a fixed
/// reference; a missing reference is generated at save time.
pub struct NewFeed {
    pub title: String,
    pub reference: Option<String>,
}

/// The fields the sentinel entry's page is rendered from.
pub struct SentinelTemplate {
    pub email_domain: String,
    pub reference: String,
    pub title: String,
    pub web_url: String,
}

/// The fields the feed-created page is rendered from.
pub struct FeedCreatedTemplate {
    pub email_domain: String,
    pub reference: String,
    pub title: String,
    pub web_url: String,
    pub entry: SentinelTemplate,
}

/// The store itself: all feeds and all entries, in insertion order.
pub struct FeedStore {
    pub feeds: Vec<Feed>,
    pub entries: Vec<Entry>,
}

impl FeedStore {
    /// Some feed carries this reference.
    pub open spec fn spec_feed_exists(self, r: Seq<char>) -> bool {
        exists|i: int| 0 <= i < self.feeds@.len() && #[trigger] self.feeds@[i].reference@ == r
    }

    /// The store's invariants: feed references are unique, and every
    /// entry's reference names an existing feed.
    pub open spec fn wf(self) -> bool {
        &&& forall|i: int, j: int|
            #![trigger self.feeds@[i].reference@, self.feeds@[j].reference@]
            0 <= i < j < self.feeds@.len() ==> self.feeds@[i].reference@
                != self.feeds@[j].reference@
        &&& forall|k: int|
            0 <= k < self.entries@.len() ==> self.spec_feed_exists(
                #[trigger] self.entries@[k].reference@,
            )
    }

    /// An empty store.
    pub fn new() -> (s: FeedStore)
        ensures
            s.wf(),
            s.feeds@.len() == 0,
            s.entries@.len() == 0,
    {
        FeedStore { feeds: Vec::new(), entries: Vec::new() }
    }
}

impl Feed {
    /// Whether a feed with this reference exists.
    pub fn feed_exists(reference: &str, store: &FeedStore) -> (r: bool)
        ensures
            r == store.spec_feed_exists(reference@),
    {
        let mut i: usize = 0;
        while i < store.feeds.len()
            invariant
                0 <= i <= store.feeds@.len(),
                forall|k: int| 0 <= k < i ==> #[trigger] store.feeds@[k].reference@ != reference@,
            decreases store.feeds@.len() - i,
        {
            if str_eq(store.feeds[i].reference.as_str(), reference) {
                return true;
            }
            i = i + 1;
        }
        false
    }

    /// The title of the feed with this reference.
    pub fn get_title_given_reference(reference: &str, store: &FeedStore) -> (r: Result<
        String,
        DatabaseError,
    >)
        ensures
            r is Ok <==> store.spec_feed_exists(reference@),
            r matches Ok(t) ==> exists|i: int|
                0 <= i < store.feeds@.len() && #[trigger] store.feeds@[i].reference@ == reference@
                    && store.feeds@[i].title@ == t@,
            r matches Err(e) ==> e == DatabaseError::NotFound,
    {
        let mut i: usize = 0;
        while i < store.feeds.len()
            invariant
                0 <= i <= store.feeds@.len(),
                forall|k: int| 0 <= k < i ==> #[trigger] store.feeds@[k].reference@ != reference@,
            decreases store.feeds@.len() - i,
        {
            if str_eq(store.feeds[i].reference.as_str(), reference) {
                return Ok(store.feeds[i].title.clone());
            }
            i = i + 1;
        }
        Err(DatabaseError::NotFound)
    }
}

/// A store-assigned row identifier.
fn next_id(len: usize) -> (r: i64)
    ensures
        r >= 0,
{
    if len < 2147483647 {
        (len as i64) + 1
    } else {
        0
    }
}

/// The author text an entry stores: everything before the first `<`,
/// trimmed of surrounding whitespace — the display name without the
/// angle-bracket address.
pub open spec fn sanitize_author_spec(s: Seq<char>) -> Seq<char> {
    trim_spec(prefix_before(s, '<'))
}

pub fn sanitize_author(s: &str) -> (r: String)
    ensures
        r@ == sanitize_author_spec(s@),
{
    let head = crate::text::before_char(s, '<');
    trim(head).to_owned()
}

proof fn lemma_trim_start_keeps_free(s: Seq<char>, c: char)
    requires
        !has_char(s, c),
    ensures
        !has_char(trim_start_spec(s), c),
    decreases s.len(),
{
    if s.len() > 0 && crate::text::is_space_char(s[0]) {
        assert forall|i: int| 0 <= i < s.drop_first().len() implies s.drop_first()[i] != c by {
            assert(s.drop_first()[i] == s[i + 1]);
        }
        lemma_trim_start_keeps_free(s.drop_first(), c);
    }
}

proof fn lemma_trim_end_keeps_free(s: Seq<char>, c: char)
    requires
        !has_char(s, c),
    ensures
        !has_char(trim_end_spec(s), c),
    decreases s.len(),
{
    if s.len() > 0 && crate::text::is_space_char(s[s.len() - 1]) {
        assert forall|i: int| 0 <= i < s.drop_last().len() implies s.drop_last()[i] != c by {
            assert(s.drop_last()[i] == s[i]);
        }
        lemma_trim_end_keeps_free(s.drop_last(), c);
    }
}

/// Author sanitisation: whatever the input, the stored author text
/// contains no `<` character.
pub proof fn lemma_author_sanitized(s: Seq<char>)
    ensures
        !has_char(sanitize_author_spec(s), '<'),
{
    crate::text::lemma_prefix_before_free(s, '<');
    lemma_trim_start_keeps_free(prefix_before(s, '<'), '<');
    lemma_trim_end_keeps_free(trim_start_spec(prefix_before(s, '<')), '<');
}

impl Entry {
    /// Persist this entry.  Fails with `NotFound` exactly when no feed
    /// carries the entry's reference — so every row that lands in the
    /// store referenced an existing feed at insertion time.  The stored
    /// author is the sanitised form of the given one; the other fields
    /// are stored verbatim.
    pub fn save(&self, store: &mut FeedStore) -> (r: Result<(), DatabaseError>)
        requires
            old(store).wf(),
        ensures
            final(store).wf(),
            r is Ok <==> old(store).spec_feed_exists(self.reference@),
            r matches Err(e) ==> e == DatabaseError::NotFound && *final(store) == *old(store),
            r is Ok ==> final(store).feeds == old(store).feeds,
            r is Ok ==> final(store).entries@.len() == old(store).entries@.len() + 1,
            r is Ok ==> (forall|k: int|
                0 <= k < old(store).entries@.len() ==> final(store).entries@[k] == old(
                    store,
                ).entries@[k]),
            r is Ok ==> final(store).entries@.last().reference@ == self.reference@,
            r is Ok ==> final(store).entries@.last().title@ == self.title@,
            r is Ok ==> final(store).entries@.last().author@ == sanitize_author_spec(
                self.author@,
            ),
            r is Ok ==> final(store).entries@.last().content@ == self.content@,
            r is Ok ==> final(store).entries@.last().created_at@ == self.created_at@,
    {
        if !Feed::feed_exists(self.reference.as_str(), store) {
            return Err(DatabaseError::NotFound);
        }
        let author = sanitize_author(self.author.as_str());
        let row = Entry {
            id: next_id(store.entries.len()),
            created_at: self.created_at.clone(),
            reference: self.reference.clone(),
            title: self.title.clone(),
            author,
            content: self.content.clone(),
        };
        store.entries.push(row);
        proof {
            assert(store.feeds == old(store).feeds);
            assert forall|k: int| 0 <= k < store.entries@.len() implies store.spec_feed_exists(
                #[trigger] store.entries@[k].reference@,
            ) by {
                let target = if k < store.entries@.len() - 1 {
                    old(store).entries@[k].reference@
                } else {
                    self.reference@
                };
                assert(old(store).spec_feed_exists(target));
                let w = choose|i: int|
                    0 <= i < old(store).feeds@.len() && #[trigger] old(store).feeds@[i].reference@
                        == target;
                assert(store.feeds@[w].reference@ == target);
            }
        }
        Ok(())
    }
}

/// A character a generated reference may contain.
pub open spec fn is_lower_alnum(c: char) -> bool {
    (97 <= c as u32 && c as u32 <= 122) || (48 <= c as u32 && c as u32 <= 57)
}

/// The shape of every generated reference: sixteen lower-case ASCII
/// alphanumerics.
pub open spec fn valid_reference(s: Seq<char>) -> bool {
    s.len() == 16 && forall|i: int| 0 <= i < s.len() ==> is_lower_alnum(#[trigger] s[i])
}

/// A character the alphanumeric sampler may draw.
pub open spec fn is_alnum(c: char) -> bool {
    (97 <= c as u32 && c as u32 <= 122) || (65 <= c as u32 && c as u32 <= 90) || (48 <= c as u32
        && c as u32 <= 57)
}

/// Reference shape: lower-casing any sixteen ASCII alphanumerics
/// yields a well-formed feed reference — sixteen characters, each in
/// `a`-`z` or `0`-`9`.
pub proof fn lemma_reference_shape(s: Seq<char>)
    requires
        s.len() == 16,
        forall|i: int| 0 <= i < s.len() ==> is_alnum(#[trigger] s[i]),
    ensures
        valid_reference(lower_spec(s)),
{
    assert forall|i: int| 0 <= i < lower_spec(s).len() implies is_lower_alnum(
        #[trigger] lower_spec(s)[i],
    ) by {
        assert(lower_spec(s)[i] == lower_char(s[i]));
        assert(is_alnum(s[i]));
    }
}

/// Relies on rand's `Alphanumeric` distribution: `sample_string` draws
/// exactly the requested number of characters, each from the 62 ASCII
/// alphanumerics `A`-`Z`, `a`-`z`, `0`-`9`.  Nothing else is assumed of
/// the randomness.
#[verifier::external_body]
fn random_alphanumeric16() -> (r: String)
    ensures
        r@.len() == 16,
        forall|i: int| 0 <= i < r@.len() ==> is_alnum(#[trigger] r@[i]),
{
    Alphanumeric.sample_string(&mut rand::thread_rng(), 16)
}

/// The text of the sentinel entry that greets a fresh feed: it names
/// the feed's inbox address and its Atom URL.
pub open spec fn sentinel_text(reference: Seq<char>, domain: Seq<char>, web_url: Seq<char>) -> Seq<
    char,
> {
    "<p>Your inbox is ready. Send mail to "@ + reference + "@"@ + domain + " and read it at "@
        + web_url + "/feeds/"@ + reference + ".xml</p>"@
}

fn render_sentinel(reference: &str, domain: &str, web_url: &str) -> (r: String)
    ensures
        r@ == sentinel_text(reference@, domain@, web_url@),
{
    let mut out = "<p>Your inbox is ready. Send mail to ".to_owned();
    out.append(reference);
    out.append("@");
    out.append(domain);
    out.append(" and read it at ");
    out.append(web_url);
    out.append("/feeds/");
    out.append(reference);
    out.append(".xml</p>");
    out
}

impl NewFeed {
    /// A fresh reference: sixteen lower-case alphanumerics.
    fn new_reference() -> (r: String)
        ensures
            valid_reference(r@),
    {
        let raw = random_alphanumeric16();
        let low = to_ascii_lower(raw.as_str());
        proof {
            lemma_reference_shape(raw@);
        }
        low
    }

    /// Create the feed: settle its reference (the given one, or a fresh
    /// one), insert the feed row, and insert the sentinel entry, whose
    /// title is the feed's title followed by " inbox created!".  Fails
    /// with `CouldNotInsert`, leaving the store untouched, exactly when
    /// the reference is already taken.
    pub fn save(&mut self, store: &mut FeedStore, config: &Config) -> (r: Result<
        String,
        DatabaseError,
    >)
        requires
            old(store).wf(),
        ensures
            final(store).wf(),
            final(self).title == old(self).title,
            r matches Err(e) ==> e == DatabaseError::CouldNotInsert && *final(store) == *old(
                store,
            ),
            old(self).reference matches Some(r0) ==> (r is Err <==> old(store).spec_feed_exists(
                r0@,
            )),
            r matches Ok(refr) ==> !old(store).spec_feed_exists(refr@),
            r matches Ok(refr) ==> (old(self).reference matches Some(r0) ==> refr@ == r0@),
            r matches Ok(refr) ==> (old(self).reference is None ==> valid_reference(refr@)),
            r matches Ok(refr) ==> (final(self).reference matches Some(rr) && rr@ == refr@),
            r matches Ok(refr) ==> final(store).feeds@.len() == old(store).feeds@.len() + 1,
            r is Ok ==> (forall|k: int|
                0 <= k < old(store).feeds@.len() ==> final(store).feeds@[k] == old(
                    store,
                ).feeds@[k]),
            r matches Ok(refr) ==> final(store).feeds@.last().reference@ == refr@,
            r is Ok ==> final(store).feeds@.last().title@ == old(self).title@,
            r is Ok ==> valid_sqlite_stamp(final(store).feeds@.last().created_at@),
            r is Ok ==> final(store).feeds@.last().updated_at@ == final(store)
                .feeds@.last().created_at@,
            r is Ok ==> final(store).entries@.len() == old(store).entries@.len() + 1,
            r is Ok ==> (forall|k: int|
                0 <= k < old(store).entries@.len() ==> final(store).entries@[k] == old(
                    store,
                ).entries@[k]),
            r matches Ok(refr) ==> final(store).entries@.last().reference@ == refr@,
            r is Ok ==> final(store).entries@.last().title@ == old(self).title@
                + " inbox created!"@,
            r is Ok ==> final(store).entries@.last().author@ == "Kill The Newsletter"@,
            r matches Ok(refr) ==> final(store).entries@.last().content@ == sentinel_text(
                refr@,
                config.email_domain@,
                config.web_url@,
            ),
            r is Ok ==> valid_sqlite_stamp(final(store).entries@.last().created_at@),
    {
        let reference: String = match &self.reference {
            Some(r0) => r0.clone(),
            None => {
                let fresh = NewFeed::new_reference();
                self.reference = Some(fresh.clone());
                fresh
            },
        };
        if Feed::feed_exists(reference.as_str(), store) {
            return Err(DatabaseError::CouldNotInsert);
        }
        let stamp = Epoch::now().to_string();
        let feed_row = Feed {
            id: next_id(store.feeds.len()),
            created_at: stamp.clone(),
            updated_at: stamp.clone(),
            reference: reference.clone(),
            title: self.title.clone(),
        };
        store.feeds.push(feed_row);
        let mut entry_title = self.title.clone();
        entry_title.append(" inbox created!");
        let content = render_sentinel(
            reference.as_str(),
            config.email_domain.as_str(),
            config.web_url.as_str(),
        );
        let entry_row = Entry {
            id: next_id(store.entries.len()),
            created_at: stamp,
            reference: reference.clone(),
            title: entry_title,
            author: "Kill The Newsletter".to_owned(),
            content,
        };
        store.entries.push(entry_row);
        proof {
            let fstore = store;
            assert(fstore.feeds@.last().reference@ == reference@);
            assert forall|k: int| 0 <= k < fstore.entries@.len() implies fstore.spec_feed_exists(
                #[trigger] fstore.entries@[k].reference@,
            ) by {
                if k < fstore.entries@.len() - 1 {
                    assert(fstore.entries@[k] == old(store).entries@[k]);
                    let w = choose|i: int|
                        0 <= i < old(store).feeds@.len() && #[trigger] old(
                            store,
                        ).feeds@[i].reference@ == old(store).entries@[k].reference@;
                    assert(fstore.feeds@[w].reference@ == fstore.entries@[k].reference@);
                } else {
                    assert(fstore.feeds@[fstore.feeds@.len() - 1].reference@
                        == fstore.entries@[k].reference@);
                }
            }
        }
        Ok(reference)
    }

    /// The fields of the feed-created page for this request.  The
    /// reference must already be settled.
    pub fn created_template(&self, config: &Config) -> (r: FeedCreatedTemplate)
        requires
            self.reference is Some,
        ensures
            (self.reference matches Some(r0) ==> r.reference@ == r0@ && r.entry.reference@
                == r0@),
            r.title@ == self.title@,
            r.entry.title@ == self.title@,
            r.email_domain@ == config.email_domain@,
            r.entry.email_domain@ == config.email_domain@,
            r.web_url@ == config.web_url@,
            r.entry.web_url@ == config.web_url@,
    {
        let reference = match &self.reference {
            Some(r0) => r0.clone(),
            None => String::new(),
        };
        let entry = SentinelTemplate {
            email_domain: config.email_domain.clone(),
            reference: reference.clone(),
            title: self.title.clone(),
            web_url: config.web_url.clone(),
        };
        FeedCreatedTemplate {
            email_domain: config.email_domain.clone(),
            reference,
            title: self.title.clone(),
            web_url: config.web_url.clone(),
            entry,
        }
    }
}

/// The entries of `s` whose reference is `r`, in their order in `s`.
pub open spec fn matching_entries(s: Seq<Entry>, r: Seq<char>) -> Seq<Entry>
    decreases s.len(),
{
    if s.len() == 0 {
        Seq::<Entry>::empty()
    } else {
        let rest = matching_entries(s.drop_last(), r);
        if s.last().reference@ == r {
            rest.push(s.last())
        } else {
            rest
        }
    }
}

/// Entries in descending `created_at` order.
pub open spec fn entries_sorted_desc(s: Seq<Entry>) -> bool {
    forall|p: int, q: int|
        #![trigger s[p].created_at@, s[q].created_at@]
        0 <= p < q < s.len() ==> lex_le(s[q].created_at@, s[p].created_at@)
}

fn clone_entry(e: &Entry) -> (r: Entry)
    ensures
        r == *e,
{
    Entry {
        id: e.id,
        created_at: e.created_at.clone(),
        reference: e.reference.clone(),
        title: e.title.clone(),
        author: e.author.clone(),
        content: e.content.clone(),
    }
}

impl Entry {
    /// All entries of the feed with this reference, newest first: the
    /// result is a descending-`created_at` ordering of exactly the
    /// store's rows carrying the reference.
    pub fn find_by_reference(reference: &str, store: &FeedStore) -> (r: Vec<Entry>)
        ensures
            r@.to_multiset() == matching_entries(store.entries@, reference@).to_multiset(),
            entries_sorted_desc(r@),
    {
        broadcast use group_to_multiset_ensures;

        let ghost all = store.entries@;
        let mut rest: Vec<Entry> = Vec::new();
        let mut i: usize = 0;
        while i < store.entries.len()
            invariant
                0 <= i <= all.len(),
                all == store.entries@,
                rest@ == matching_entries(all.take(i as int), reference@),
            decreases all.len() - i,
        {
            let e = &store.entries[i];
            if str_eq(e.reference.as_str(), reference) {
                rest.push(clone_entry(e));
            }
            proof {
                assert(all.take(i + 1).drop_last() =~= all.take(i as int));
                assert(all.take(i + 1).last() == all[i as int]);
            }
            i = i + 1;
        }
        proof {
            assert(all.take(all.len() as int) =~= all);
        }
        let ghost target = matching_entries(all, reference@).to_multiset();
        let mut out: Vec<Entry> = Vec::new();
        while rest.len() > 0
            invariant
                out@.to_multiset().add(rest@.to_multiset()) == target,
                entries_sorted_desc(out@),
                forall|p: int, q: int|
                    #![trigger out@[p].created_at@, rest@[q].created_at@]
                    0 <= p < out@.len() && 0 <= q < rest@.len() ==> lex_le(
                        rest@[q].created_at@,
                        out@[p].created_at@,
                    ),
            decreases rest@.len(),
        {
            let mut m: usize = 0;
            let mut k: usize = 1;
            proof {
                crate::text::lemma_lex_le_refl(rest@[0].created_at@);
            }
            while k < rest.len()
                invariant
                    0 <= m < rest@.len(),
                    m < k,
                    1 <= k <= rest@.len(),
                    forall|t: int|
                        0 <= t < k ==> lex_le(
                            #[trigger] rest@[t].created_at@,
                            rest@[m as int].created_at@,
                        ),
                decreases rest@.len() - k,
            {
                if !str_le(rest[k].created_at.as_str(), rest[m].created_at.as_str()) {
                    proof {
                        lemma_lex_le_total(rest@[k as int].created_at@, rest@[m as int].created_at@);
                        assert forall|t: int| 0 <= t < k + 1 implies lex_le(
                            #[trigger] rest@[t].created_at@,
                            rest@[k as int].created_at@,
                        ) by {
                            if t < k {
                                crate::text::lemma_lex_le_trans(
                                    rest@[t].created_at@,
                                    rest@[m as int].created_at@,
                                    rest@[k as int].created_at@,
                                );
                            } else {
                                crate::text::lemma_lex_le_refl(rest@[k as int].created_at@);
                            }
                        }
                    }
                    m = k;
                }
                k = k + 1;
            }
            let ghost rest0 = rest@;
            let ghost out0 = out@;
            let picked = rest.remove(m);
            out.push(picked);
            proof {
                rest0.to_multiset_ensures();
                out0.to_multiset_ensures();
                assert(rest@ == rest0.remove(m as int));
                assert(picked == rest0[m as int]);
                assert(rest@.to_multiset() == rest0.remove(m as int).to_multiset());
                assert(rest0.remove(m as int).to_multiset() =~= rest0.to_multiset().remove(
                    rest0[m as int],
                ));
                assert(out@ == out0.push(picked));
                assert(out0.push(picked).to_multiset() =~= out0.to_multiset().insert(picked));
                assert(rest0.to_multiset().count(rest0[m as int]) > 0) by {
                    assert(rest0.contains(rest0[m as int]));
                }
                assert(out@.to_multiset().add(rest@.to_multiset()) =~= out0.to_multiset().add(
                    rest0.to_multiset(),
                ));
                assert forall|p: int, q: int|
                    0 <= p < out@.len() && 0 <= q < rest@.len() implies lex_le(
                    #[trigger] rest@[q].created_at@,
                    #[trigger] out@[p].created_at@,
                ) by {
                    let qq = if q < m { q } else { q + 1 };
                    assert(rest@[q] == rest0[qq]);
                    if p < out@.len() - 1 {
                        assert(lex_le(rest0[qq].created_at@, out0[p].created_at@));
                    } else {
                        assert(out@[p] == rest0[m as int]);
                        assert(lex_le(rest0[qq].created_at@, rest0[m as int].created_at@));
                    }
                }
            }
        }
        proof {
            assert(rest@.to_multiset().len() == 0);
            assert(out@.to_multiset().add(rest@.to_multiset()) =~= out@.to_multiset());
        }
        out
    }
}

} // verus!
