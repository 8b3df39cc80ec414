//! The paste lifecycle: creation with its lifetime rules and slug conflicts,
//! reads that never return an expired paste and burn a read-once paste, and
//! the reaper that removes expired rows.

use crate::bytes::{copy_bytes, first_index_of, lemma_first_index_of, lemma_prefix_first};
use crate::errors::PasteError;
use crate::visibility::Visibility;
use vstd::prelude::*;

verus! {

/// One week, in seconds: the lifetime of a paste that asks for none.
pub const WEEK_SECS: u64 = 604800;

/// One year, in seconds: the longest lifetime a paste may have.
pub const YEAR_SECS: u64 = 31536000;

/// A lifetime is accepted when it is positive and at most a year; none at all
/// is accepted too and stands for a week.
pub open spec fn burn_in_valid(burn_in: Option<u64>) -> bool {
    match burn_in {
        Some(d) => 0 < d <= YEAR_SECS,
        None => true,
    }
}

/// The lifetime granted: the one asked for, or a week.
pub open spec fn lifetime_of(burn_in: Option<u64>) -> u64 {
    match burn_in {
        Some(d) => d,
        None => WEEK_SECS,
    }
}

/// The time at which a paste created at `now` burns.
pub fn burn_at_for(now: u64, burn_in: Option<u64>) -> (r: Result<u64, PasteError>)
    requires
        now <= u64::MAX - YEAR_SECS,
    ensures
        burn_in_valid(burn_in) ==> r == Ok::<u64, PasteError>((now + lifetime_of(burn_in)) as u64),
        !burn_in_valid(burn_in) ==> r == Err::<u64, PasteError>(PasteError::InvalidBurnIn),
{
    match burn_in {
        Some(d) => if d == 0 || d > YEAR_SECS {
            Err(PasteError::InvalidBurnIn)
        } else {
            Ok(now + d)
        },
        None => Ok(now + WEEK_SECS),
    }
}

/// The number of words in a generated slug.
pub const SLUG_WORDS: u8 = 4;

/// Relies on `petname::petname`: `words` random dictionary words joined by
/// `separator`. Nothing is promised of the words.
#[verifier::external_body]
fn random_name(words: u8, separator: &str) -> (r: String) {
    petname::petname(words, separator)
}

/// A request to create a paste.
#[derive(Debug)]
pub struct CreateBody {
    /// The slug asked for; one is generated when there is none.
    pub slug: Option<String>,
    /// The declared content type of the plaintext.
    pub mime: String,
    /// The paste visibility.
    pub visibility: Visibility,
    /// The lifetime asked for, in seconds.
    pub burn_in: Option<u64>,
    /// Whether the paste is deleted after its first read.
    pub burn_after_read: bool,
    /// The OpenPGP message.
    pub inner: Vec<u8>,
}

/// The answer to a created paste.
#[derive(Debug)]
pub struct CreateResponse {
    /// The paste slug.
    pub slug: String,
    /// The time at which the paste burns, in seconds.
    pub burn_at: u64,
}

/// A paste as a reader receives it.
#[derive(Debug)]
pub struct Paste {
    /// The paste slug.
    pub slug: String,
    /// The declared content type.
    pub mime: String,
    /// The paste visibility.
    pub visibility: Visibility,
    /// The time at which the paste burns, in seconds.
    pub burn_at: u64,
    /// The OpenPGP message.
    pub inner: Vec<u8>,
}

/// A stored paste.
#[derive(Debug)]
pub struct PasteRecord {
    /// The key that signed the paste.
    pub owner_key_id: usize,
    /// The public handle, unique among the stored pastes.
    pub slug: String,
    /// The declared content type.
    pub mime: String,
    /// The paste visibility.
    pub visibility: Visibility,
    /// The OpenPGP message, stored as received.
    pub content: Vec<u8>,
    /// Whether the first read deletes the paste.
    pub burn_after_read: bool,
    /// Creation time, in seconds.
    pub created_at: u64,
    /// Burn time, in seconds.
    pub burn_at: u64,
}

/// A stored paste as a value.
pub struct PasteModel {
    pub owner_key_id: usize,
    pub slug: Seq<char>,
    pub mime: Seq<char>,
    pub visibility: Visibility,
    pub content: Seq<u8>,
    pub burn_after_read: bool,
    pub created_at: u64,
    pub burn_at: u64,
}

impl View for PasteRecord {
    type V = PasteModel;

    open spec fn view(&self) -> PasteModel {
        PasteModel {
            owner_key_id: self.owner_key_id,
            slug: self.slug@,
            mime: self.mime@,
            visibility: self.visibility,
            content: self.content@,
            burn_after_read: self.burn_after_read,
            created_at: self.created_at,
            burn_at: self.burn_at,
        }
    }
}

/// A read answer as a value: slug, content type, visibility, burn time, message.
pub type PasteView = (Seq<char>, Seq<char>, Visibility, u64, Seq<u8>);

impl View for Paste {
    type V = PasteView;

    open spec fn view(&self) -> PasteView {
        (self.slug@, self.mime@, self.visibility, self.burn_at, self.inner@)
    }
}

/// What a reader receives of a stored paste.
pub open spec fn answer_of(p: PasteModel) -> PasteView {
    (p.slug, p.mime, p.visibility, p.burn_at, p.content)
}

/// The slugs of the stored pastes, in order.
pub open spec fn slugs(rows: Seq<PasteModel>) -> Seq<Seq<char>> {
    rows.map_values(|p: PasteModel| p.slug)
}

/// The position of the paste with the given slug.
pub open spec fn slot(rows: Seq<PasteModel>, slug: Seq<char>) -> Option<int> {
    first_index_of(slugs(rows), slug)
}

/// The position of the paste with the given slug, if it has not burnt at `now`.
pub open spec fn live_slot(rows: Seq<PasteModel>, slug: Seq<char>, now: u64) -> Option<int> {
    match slot(rows, slug) {
        Some(i) => if rows[i].burn_at > now {
            Some(i)
        } else {
            None
        },
        None => None,
    }
}

/// The server shows a paste as a page only when it is public: a protected or
/// a private paste is refused with its own error.
pub fn require_public(visibility: Visibility) -> (r: Result<(), PasteError>)
    ensures
        r == (match visibility {
            Visibility::Public => Ok::<(), PasteError>(()),
            Visibility::Protected => Err(PasteError::PasteIsProtected),
            Visibility::Private => Err(PasteError::PasteIsPrivate),
        }),
{
    match visibility {
        Visibility::Public => Ok(()),
        Visibility::Protected => Err(PasteError::PasteIsProtected),
        Visibility::Private => Err(PasteError::PasteIsPrivate),
    }
}

/// A paste burns after its creation and at most a year after it.
pub open spec fn window_ok(p: PasteModel) -> bool {
    p.created_at < p.burn_at && p.burn_at - p.created_at <= YEAR_SECS
}

/// Slugs are unique, and each paste's burn time lies in its window.
pub open spec fn store_wf(rows: Seq<PasteModel>) -> bool {
    &&& forall|i: int, j: int| 0 <= i < j < rows.len() ==> #[trigger] rows[i].slug != #[trigger] rows[j].slug
    &&& forall|i: int| 0 <= i < rows.len() ==> window_ok(#[trigger] rows[i])
}

/// The stored paste that a create request makes.
pub open spec fn record_of(
    body_mime: Seq<char>,
    visibility: Visibility,
    burn_in: Option<u64>,
    burn_after_read: bool,
    inner: Seq<u8>,
    slug: Seq<char>,
    owner_key_id: usize,
    now: u64,
) -> PasteModel {
    PasteModel {
        owner_key_id,
        slug,
        mime: body_mime,
        visibility,
        content: inner,
        burn_after_read,
        created_at: now,
        burn_at: (now + lifetime_of(burn_in)) as u64,
    }
}

/// The rows after storing `rec`: a live paste with the same slug is kept
/// unless `overwrite` is set; an expired one is replaced.
pub open spec fn upserted(rows: Seq<PasteModel>, rec: PasteModel, now: u64, overwrite: bool) -> Seq<
    PasteModel,
> {
    match slot(rows, rec.slug) {
        Some(i) => if rows[i].burn_at > now && !overwrite {
            rows
        } else {
            rows.update(i, rec)
        },
        None => rows.push(rec),
    }
}

/// The rows after a read: a read-once paste that was read is gone.
pub open spec fn after_read(rows: Seq<PasteModel>, slug: Seq<char>, now: u64) -> Seq<PasteModel> {
    match live_slot(rows, slug, now) {
        Some(i) => if rows[i].burn_after_read {
            rows.remove(i)
        } else {
            rows
        },
        None => rows,
    }
}

/// The rows that have not burnt at `now`, in order.
pub open spec fn reaped(rows: Seq<PasteModel>, now: u64) -> Seq<PasteModel>
    decreases rows.len(),
{
    if rows.len() == 0 {
        rows
    } else {
        let rest = reaped(rows.drop_last(), now);
        if rows.last().burn_at > now {
            rest.push(rows.last())
        } else {
            rest
        }
    }
}

/// In a store with unique slugs, the slot of a row's slug is that row.
pub proof fn lemma_slot_of_row(rows: Seq<PasteModel>, i: int)
    requires
        store_wf(rows),
        0 <= i < rows.len(),
    ensures
        slot(rows, rows[i].slug) == Some(i),
{
    lemma_first_index_of(slugs(rows), rows[i].slug);
    match slot(rows, rows[i].slug) {
        Some(j) => {
            if j != i {
                assert(slugs(rows)[j] == rows[j].slug);
                if j < i {
                    assert(rows[j].slug != rows[i].slug);
                } else {
                    assert(slugs(rows)[i] == rows[i].slug);
                }
            }
        },
        None => {
            assert(slugs(rows)[i] == rows[i].slug);
        },
    }
}

/// The stored pastes.
pub struct PasteStore {
    rows: Vec<PasteRecord>,
}

impl View for PasteStore {
    type V = Seq<PasteModel>;

    closed spec fn view(&self) -> Seq<PasteModel> {
        self.rows@.map_values(|p: PasteRecord| p@)
    }
}

/// A copy of a stored paste.
fn copy_record(p: &PasteRecord) -> (r: PasteRecord)
    ensures
        r@ == p@,
{
    PasteRecord {
        owner_key_id: p.owner_key_id,
        slug: p.slug.clone(),
        mime: p.mime.clone(),
        visibility: p.visibility,
        content: copy_bytes(&p.content),
        burn_after_read: p.burn_after_read,
        created_at: p.created_at,
        burn_at: p.burn_at,
    }
}

impl PasteStore {
    /// Slugs are unique and every paste burns within its window.
    pub open spec fn wf(&self) -> bool {
        store_wf(self@)
    }

    /// An empty store.
    pub fn new() -> (r: PasteStore)
        ensures
            r.wf(),
            r@ == Seq::<PasteModel>::empty(),
    {
        let r = PasteStore { rows: Vec::new() };
        assert(r@ =~= Seq::<PasteModel>::empty());
        r
    }

    /// The number of stored rows, live or not.
    pub fn len(&self) -> (r: usize)
        ensures
            r == self@.len(),
    {
        self.rows.len()
    }

    /// The position of the paste with the given slug.
    fn find(&self, slug: &String) -> (r: Option<usize>)
        ensures
            r == (match slot(self@, slug@) {
                Some(i) => Some(i as usize),
                None => None::<usize>,
            }),
            r matches Some(i) ==> i < self@.len(),
    {
        let ghost ss = slugs(self@);
        proof {
            lemma_first_index_of(ss, slug@);
            assert(ss.len() == self.rows.len());
        }
        let mut i: usize = 0;
        while i < self.rows.len()
            invariant
                ss == slugs(self@),
                self@.len() == self.rows@.len(),
                i <= self@.len(),
                first_index_of(ss.subrange(0, i as int), slug@) is None,
            decreases self.rows@.len() - i,
        {
            assert(ss.subrange(0, i + 1).drop_last() =~= ss.subrange(0, i as int));
            if self.rows[i].slug == *slug {
                proof {
                    lemma_prefix_first(ss, slug@, i as int);
                }
                return Some(i);
            }
            i = i + 1;
        }
        assert(ss.subrange(0, i as int) =~= ss);
        None
    }

    /// Creates a paste. A lifetime outside (0, one year] is refused with
    /// `InvalidBurnIn`; none means a week. Without a slug, one is generated.
    /// When a live paste holds the slug, it is kept unless `overwrite` is set,
    /// and that is no error; an expired one is replaced. A replacement takes
    /// the whole row: owner, visibility and content.
    pub fn create(&mut self, body: CreateBody, owner_key_id: usize, now: u64, overwrite: bool) -> (r:
        Result<CreateResponse, PasteError>)
        requires
            old(self).wf(),
            now <= u64::MAX - YEAR_SECS,
        ensures
            final(self).wf(),
            match r {
                Err(e) => !burn_in_valid(body.burn_in) && e == PasteError::InvalidBurnIn && final(self)@
                    == old(self)@,
                Ok(resp) => {
                    &&& burn_in_valid(body.burn_in)
                    &&& resp.burn_at == now + lifetime_of(body.burn_in)
                    &&& (body.slug matches Some(s) ==> resp.slug@ == s@)
                    &&& final(self)@ == upserted(
                        old(self)@,
                        record_of(
                            body.mime@,
                            body.visibility,
                            body.burn_in,
                            body.burn_after_read,
                            body.inner@,
                            resp.slug@,
                            owner_key_id,
                            now,
                        ),
                        now,
                        overwrite,
                    )
                },
            },
    {
        let burn_at = match burn_at_for(now, body.burn_in) {
            Ok(t) => t,
            Err(e) => return Err(e),
        };
        let ghost body_model = (body.mime@, body.visibility, body.burn_in, body.burn_after_read, body.inner@);
        let slug = match body.slug {
            Some(s) => s,
            None => random_name(SLUG_WORDS, "-"),
        };
        let answer = CreateResponse { slug: slug.clone(), burn_at };
        let rec = PasteRecord {
            owner_key_id,
            slug,
            mime: body.mime,
            visibility: body.visibility,
            content: body.inner,
            burn_after_read: body.burn_after_read,
            created_at: now,
            burn_at,
        };
        let ghost model = rec@;
        assert(model == record_of(
            body_model.0,
            body_model.1,
            body_model.2,
            body_model.3,
            body_model.4,
            answer.slug@,
            owner_key_id,
            now,
        ));
        let ghost before = self@;
        proof {
            lemma_first_index_of(slugs(before), model.slug);
            assert(slugs(before).len() == self.rows.len());
        }
        match self.find(&rec.slug) {
            Some(i) => {
                if self.rows[i].burn_at > now && !overwrite {
                    return Ok(answer);
                }
                self.rows.set(i, rec);
                assert(self@ =~= before.update(i as int, model));
                proof {
                    lemma_first_index_of(slugs(before), model.slug);
                    assert forall|a: int, b: int| 0 <= a < b < self@.len() implies #[trigger] self@[a].slug
                        != #[trigger] self@[b].slug by {
                        if a == i {
                            assert(before[b].slug == slugs(before)[b]);
                        } else if b == i {
                            assert(before[a].slug == slugs(before)[a]);
                        }
                    }
                }
            },
            None => {
                self.rows.push(rec);
                assert(self@ =~= before.push(model));
                proof {
                    lemma_first_index_of(slugs(before), model.slug);
                    assert forall|a: int, b: int| 0 <= a < b < self@.len() implies #[trigger] self@[a].slug
                        != #[trigger] self@[b].slug by {
                        if b == before.len() {
                            assert(before[a].slug == slugs(before)[a]);
                        }
                    }
                }
            },
        }
        Ok(answer)
    }

    /// Reads the live paste with the given slug. An expired paste reads as
    /// absent, `PasteNotFound`. A read-once paste is deleted by its read.
    pub fn read(&mut self, slug: &str, now: u64) -> (r: Result<Paste, PasteError>)
        requires
            old(self).wf(),
        ensures
            final(self).wf(),
            final(self)@ == after_read(old(self)@, slug@, now),
            match live_slot(old(self)@, slug@, now) {
                Some(i) => r matches Ok(p) && p@ == answer_of(old(self)@[i]),
                None => r matches Err(e) && e == PasteError::PasteNotFound,
            },
    {
        let key = slug.to_owned();
        let ghost before = self@;
        proof {
            lemma_first_index_of(slugs(before), key@);
            assert(slugs(before).len() == self.rows.len());
        }
        match self.find(&key) {
            Some(i) => {
                if self.rows[i].burn_at <= now {
                    return Err(PasteError::PasteNotFound);
                }
                if self.rows[i].burn_after_read {
                    let row = self.rows.remove(i);
                    assert(self@ =~= before.remove(i as int));
                    proof {
                        assert forall|a: int, b: int| 0 <= a < b < self@.len() implies #[trigger] self@[a].slug
                            != #[trigger] self@[b].slug by {
                            let a0 = if a < i { a } else { a + 1 };
                            let b0 = if b < i { b } else { b + 1 };
                            assert(self@[a] == before[a0]);
                            assert(self@[b] == before[b0]);
                        }
                        assert forall|a: int| 0 <= a < self@.len() implies window_ok(#[trigger] self@[a]) by {
                            let a0 = if a < i { a } else { a + 1 };
                            assert(self@[a] == before[a0]);
                        }
                    }
                    Ok(Paste {
                        slug: row.slug,
                        mime: row.mime,
                        visibility: row.visibility,
                        burn_at: row.burn_at,
                        inner: row.content,
                    })
                } else {
                    let row = copy_record(&self.rows[i]);
                    Ok(Paste {
                        slug: row.slug,
                        mime: row.mime,
                        visibility: row.visibility,
                        burn_at: row.burn_at,
                        inner: row.content,
                    })
                }
            },
            None => Err(PasteError::PasteNotFound),
        }
    }

    /// Deletes every paste that has burnt at `now`, and says how many went.
    pub fn delete_burnt(&mut self, now: u64) -> (r: usize)
        requires
            old(self).wf(),
        ensures
            final(self).wf(),
            final(self)@ == reaped(old(self)@, now),
            r == old(self)@.len() - final(self)@.len(),
    {
        let ghost rows = self@;
        let mut kept: Vec<PasteRecord> = Vec::new();
        let ghost mut idx: Seq<int> = Seq::empty();
        let mut i: usize = 0;
        let n = self.rows.len();
        while i < n
            invariant
                rows == self@,
                store_wf(rows),
                n == rows.len(),
                i <= n,
                kept@.map_values(|p: PasteRecord| p@) == reaped(rows.subrange(0, i as int), now),
                kept@.len() <= i,
                idx.len() == kept@.len(),
                forall|a: int| 0 <= a < idx.len() ==> 0 <= #[trigger] idx[a] < i && kept@[a]@ == rows[idx[a]],
                forall|a: int, b: int| 0 <= a < b < idx.len() ==> #[trigger] idx[a] < #[trigger] idx[b],
            decreases n - i,
        {
            let ghost pre = kept@.map_values(|p: PasteRecord| p@);
            assert(rows.subrange(0, i + 1).drop_last() =~= rows.subrange(0, i as int));
            assert(rows.subrange(0, i + 1).last() == rows[i as int]);
            assert(self.rows@[i as int]@ == rows[i as int]);
            if self.rows[i].burn_at > now {
                let row = copy_record(&self.rows[i]);
                kept.push(row);
                proof {
                    idx = idx.push(i as int);
                }
                assert(kept@.map_values(|p: PasteRecord| p@) =~= pre.push(rows[i as int]));
                assert(kept@[kept@.len() - 1]@ == rows[i as int]);
            }
            i = i + 1;
        }
        assert(rows.subrange(0, n as int) =~= rows);
        let removed = n - kept.len();
        self.rows = kept;
        proof {
            assert forall|a: int, b: int| 0 <= a < b < self@.len() implies #[trigger] self@[a].slug
                != #[trigger] self@[b].slug by {
                assert(self@[a] == rows[idx[a]]);
                assert(self@[b] == rows[idx[b]]);
            }
            assert forall|a: int| 0 <= a < self@.len() implies window_ok(#[trigger] self@[a]) by {
                assert(self@[a] == rows[idx[a]]);
            }
        }
        removed
    }
}

/// A paste read at or after its burn time is not found, and the read changes
/// nothing, whether or not the reaper has removed the row yet.
pub proof fn lemma_expired_paste_unreadable(rows: Seq<PasteModel>, i: int, now: u64)
    requires
        store_wf(rows),
        0 <= i < rows.len(),
        rows[i].burn_at <= now,
    ensures
        live_slot(rows, rows[i].slug, now) is None,
        after_read(rows, rows[i].slug, now) == rows,
{
    lemma_slot_of_row(rows, i);
}

/// Once a read-once paste has been read, a second read of its slug finds
/// nothing, at any later time.
pub proof fn lemma_burn_after_read(rows: Seq<PasteModel>, slug: Seq<char>, now: u64, later: u64)
    requires
        store_wf(rows),
        live_slot(rows, slug, now) matches Some(i) && rows[i].burn_after_read,
    ensures
        live_slot(after_read(rows, slug, now), slug, later) is None,
{
    let i = live_slot(rows, slug, now)->Some_0;
    lemma_first_index_of(slugs(rows), slug);
    assert(rows[i].slug == slugs(rows)[i]);
    let after = rows.remove(i);
    assert(after_read(rows, slug, now) == after);
    lemma_first_index_of(slugs(after), slug);
    assert forall|j: int| 0 <= j < after.len() implies slugs(after)[j] != slug by {
        let j0 = if j < i { j } else { j + 1 };
        assert(after[j] == rows[j0]);
        assert(slugs(after)[j] == after[j].slug);
    }
}

/// Creating a slug a second time without `overwrite`, while the paste that
/// holds it is live, changes nothing; and the paste that holds it is the one
/// the first request stored, unless a live one held the slug before.
pub proof fn lemma_create_keeps_first(
    rows: Seq<PasteModel>,
    first: PasteModel,
    second: PasteModel,
    now1: u64,
    now2: u64,
)
    requires
        store_wf(rows),
        first.slug == second.slug,
        live_slot(upserted(rows, first, now1, false), first.slug, now2) is Some,
    ensures
        upserted(upserted(rows, first, now1, false), second, now2, false) == upserted(
            rows,
            first,
            now1,
            false,
        ),
        live_slot(rows, first.slug, now1) is None ==> (slot(
            upserted(rows, first, now1, false),
            first.slug,
        ) matches Some(k) && upserted(rows, first, now1, false)[k] == first),
{
    let s1 = upserted(rows, first, now1, false);
    lemma_first_index_of(slugs(rows), first.slug);
    lemma_first_index_of(slugs(s1), first.slug);
    if live_slot(rows, first.slug, now1) is None {
        match slot(rows, first.slug) {
            Some(i) => {
                assert(s1 == rows.update(i, first));
                assert(slugs(s1)[i] == first.slug);
                assert forall|j: int| 0 <= j < i implies slugs(s1)[j] != first.slug by {
                    assert(slugs(s1)[j] == rows[j].slug);
                    assert(slugs(rows)[j] == rows[j].slug);
                }
                let k = slot(s1, first.slug)->Some_0;
                assert(k == i);
            },
            None => {
                assert(s1 == rows.push(first));
                assert(slugs(s1)[rows.len() as int] == first.slug);
                assert forall|j: int| 0 <= j < rows.len() implies slugs(s1)[j] != first.slug by {
                    assert(slugs(s1)[j] == rows[j].slug);
                    assert(slugs(rows)[j] == rows[j].slug);
                }
                let k = slot(s1, first.slug)->Some_0;
                assert(k == rows.len());
            },
        }
    }
}

} // verus!
