use pgpaste::errors::PasteError;
use pgpaste::paste::{burn_at_for, require_public, CreateBody, PasteStore, WEEK_SECS, YEAR_SECS};
use pgpaste::visibility::Visibility;

const DAY: u64 = 60 * 60 * 24;
const NOW: u64 = 1_700_000_000;

fn body(slug: &str, content: &[u8], burn_in: Option<u64>, burn_after_read: bool) -> CreateBody {
    CreateBody {
        slug: Some(slug.to_owned()),
        mime: "text/plain".to_owned(),
        visibility: Visibility::Public,
        burn_in,
        burn_after_read,
        inner: content.to_vec(),
    }
}

#[test]
fn burn_window_is_clamped() {
    let mut store = PasteStore::new();
    let r = store.create(body("long", b"x", Some(400 * DAY), false), 0, NOW, false);
    assert_eq!(r.unwrap_err(), PasteError::InvalidBurnIn);
    assert_eq!(store.len(), 0);
    let r = store.create(body("ten", b"x", Some(10 * DAY), false), 0, NOW, false).unwrap();
    assert_eq!(r.slug, "ten");
    assert_eq!(r.burn_at, NOW + 10 * DAY);
}

#[test]
fn burn_at_rules() {
    assert_eq!(burn_at_for(NOW, None), Ok(NOW + WEEK_SECS));
    assert_eq!(burn_at_for(NOW, Some(YEAR_SECS)), Ok(NOW + YEAR_SECS));
    assert_eq!(burn_at_for(NOW, Some(YEAR_SECS + 1)), Err(PasteError::InvalidBurnIn));
    assert_eq!(burn_at_for(NOW, Some(0)), Err(PasteError::InvalidBurnIn));
    assert_eq!(burn_at_for(0, Some(1)), Ok(1));
    assert_eq!(WEEK_SECS, 7 * DAY);
    assert_eq!(YEAR_SECS, 365 * DAY);
}

#[test]
fn expired_paste_is_unreadable() {
    let mut store = PasteStore::new();
    store.create(body("short", b"bye", Some(1), false), 0, NOW, false).unwrap();
    assert!(store.read("short", NOW).is_ok());
    assert_eq!(store.read("short", NOW + 2).unwrap_err(), PasteError::PasteNotFound);
    assert_eq!(store.len(), 1);
}

#[test]
fn read_once_paste_burns() {
    let mut store = PasteStore::new();
    store.create(body("once", b"secret", None, true), 3, NOW, false).unwrap();
    let p = store.read("once", NOW + 1).unwrap();
    assert_eq!(p.inner, b"secret".to_vec());
    assert_eq!(p.slug, "once");
    assert_eq!(p.mime, "text/plain");
    assert_eq!(p.visibility, Visibility::Public);
    assert_eq!(p.burn_at, NOW + WEEK_SECS);
    assert_eq!(store.read("once", NOW + 1).unwrap_err(), PasteError::PasteNotFound);
}

#[test]
fn ordinary_paste_reads_twice() {
    let mut store = PasteStore::new();
    store.create(body("twice", b"data", None, false), 3, NOW, false).unwrap();
    assert_eq!(store.read("twice", NOW).unwrap().inner, b"data".to_vec());
    assert_eq!(store.read("twice", NOW).unwrap().inner, b"data".to_vec());
    assert_eq!(store.read("other", NOW).unwrap_err(), PasteError::PasteNotFound);
}

#[test]
fn create_without_overwrite_keeps_first() {
    let mut store = PasteStore::new();
    store.create(body("same", b"first", None, false), 1, NOW, false).unwrap();
    let r = store.create(body("same", b"second", None, false), 2, NOW + 5, false);
    assert!(r.is_ok());
    assert_eq!(store.len(), 1);
    assert_eq!(store.read("same", NOW + 6).unwrap().inner, b"first".to_vec());
}

#[test]
fn create_with_overwrite_replaces() {
    let mut store = PasteStore::new();
    store.create(body("same", b"first", None, false), 1, NOW, false).unwrap();
    store.create(body("same", b"second", Some(DAY), false), 1, NOW + 5, true).unwrap();
    assert_eq!(store.len(), 1);
    let p = store.read("same", NOW + 6).unwrap();
    assert_eq!(p.inner, b"second".to_vec());
    assert_eq!(p.burn_at, NOW + 5 + DAY);
}

#[test]
fn expired_slug_is_reused() {
    let mut store = PasteStore::new();
    store.create(body("reuse", b"old", Some(10), false), 1, NOW, false).unwrap();
    store.create(body("reuse", b"new", None, false), 1, NOW + 20, false).unwrap();
    assert_eq!(store.len(), 1);
    assert_eq!(store.read("reuse", NOW + 21).unwrap().inner, b"new".to_vec());
}

#[test]
fn generated_slug_is_four_words() {
    let mut store = PasteStore::new();
    let mut b = body("", b"x", None, false);
    b.slug = None;
    let r = store.create(b, 0, NOW, false).unwrap();
    let words: Vec<&str> = r.slug.split('-').collect();
    assert_eq!(words.len(), 4);
    assert!(words.iter().all(|w| !w.is_empty()));
    assert!(store.read(&r.slug, NOW).is_ok());
}

#[test]
fn reaper_removes_burnt_rows() {
    let mut store = PasteStore::new();
    store.create(body("a", b"1", Some(10), false), 0, NOW, false).unwrap();
    store.create(body("b", b"2", Some(100), false), 0, NOW, false).unwrap();
    store.create(body("c", b"3", Some(5), false), 0, NOW, false).unwrap();
    assert_eq!(store.delete_burnt(NOW + 10), 2);
    assert_eq!(store.len(), 1);
    assert!(store.read("b", NOW + 10).is_ok());
    assert_eq!(store.delete_burnt(NOW + 10), 0);
    assert_eq!(store.delete_burnt(NOW + 100), 1);
    assert_eq!(store.len(), 0);
}

#[test]
fn only_public_pastes_are_shown() {
    assert_eq!(require_public(Visibility::Public), Ok(()));
    assert_eq!(require_public(Visibility::Protected), Err(PasteError::PasteIsProtected));
    assert_eq!(require_public(Visibility::Private), Err(PasteError::PasteIsPrivate));
}
