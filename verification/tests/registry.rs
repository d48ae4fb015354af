use cbstream::platform::Platform;
use cbstream::registry::Model;
use cbstream::registry::Models;

fn registry_with(names: &[&str]) -> Models {
    let mut models = Models::new();
    for n in names {
        let added = models.add(Model::new(Platform::CB, n.as_bytes().to_vec()));
        assert!(added);
    }
    models
}

#[test]
fn composite_key_is_platform_colon_name() {
    let m = Model::new(Platform::CB, b"alice".to_vec());
    assert_eq!(m.composite_key(), b"CB:alice".to_vec());
    let m2 = Model::new(Platform::BONGA, b"bob".to_vec());
    assert_eq!(m2.composite_key(), b"BONGA:bob".to_vec());
}

#[test]
fn adding_a_tracked_key_again_changes_nothing() {
    let mut models = registry_with(&["alice"]);
    let added = models.add(Model::new(Platform::CB, b"alice".to_vec()));
    assert!(!added);
    assert_eq!(models.len(), 1);
    // The same name on another platform is another key.
    assert!(models.add(Model::new(Platform::MFC, b"alice".to_vec())));
    assert_eq!(models.len(), 2);
}

#[test]
fn download_starts_only_when_online_and_idle() {
    let mut m = Model::new(Platform::CB, b"alice".to_vec());
    assert!(!m.download(None));
    assert!(!m.is_downloading());
    assert!(m.download(Some(b"https://ex.com/live/a.m3u8".to_vec())));
    assert!(m.is_downloading());
    assert_eq!(m.playlist_link(), Some(b"https://ex.com/live/a.m3u8".to_vec()));
    // A model with a session in flight is left alone.
    assert!(!m.download(Some(b"https://ex.com/live/b.m3u8".to_vec())));
    assert_eq!(m.playlist_link(), Some(b"https://ex.com/live/a.m3u8".to_vec()));
    m.on_session_end();
    assert!(!m.is_downloading());
    assert!(m.download(Some(b"https://ex.com/live/b.m3u8".to_vec())));
}

#[test]
fn model_abort_twice_equals_once() {
    let mut m = Model::new(Platform::CB, b"alice".to_vec());
    m.abort();
    assert!(m.is_aborted());
    m.abort();
    assert!(m.is_aborted());
}

#[test]
fn reconciliation_removes_and_aborts_a_downloading_model() {
    let mut models = registry_with(&["alice", "bob"]);
    let started = models.download_step(0, Some(b"https://ex.com/live/a.m3u8".to_vec()));
    assert!(started);

    // The new configuration no longer names alice.
    let target = registry_with(&["bob"]);
    let removed = models.update_config(&target);

    // Alice leaves the active set at once, abort flag set, her session
    // still marked in flight so it can finish detached.
    assert_eq!(removed.len(), 1);
    assert_eq!(removed[0].username(), &b"alice".to_vec());
    assert!(removed[0].is_aborted());
    assert!(removed[0].is_downloading());

    assert_eq!(models.len(), 1);
    let (platform, name) = models.model_id_at(0);
    assert_eq!(platform, Platform::CB);
    assert_eq!(name, b"bob".to_vec());
}

#[test]
fn reconciliation_adds_new_models_fresh() {
    let mut models = registry_with(&["alice"]);
    let target = registry_with(&["alice", "carol"]);
    let removed = models.update_config(&target);
    assert!(removed.is_empty());
    assert_eq!(models.len(), 2);
    let (_, first) = models.model_id_at(0);
    let (_, second) = models.model_id_at(1);
    assert_eq!(first, b"alice".to_vec());
    assert_eq!(second, b"carol".to_vec());
}

#[test]
fn reconciliation_keeps_running_sessions_untouched() {
    let mut models = registry_with(&["alice"]);
    models.download_step(0, Some(b"https://ex.com/live/a.m3u8".to_vec()));
    let target = registry_with(&["alice"]);
    let removed = models.update_config(&target);
    assert!(removed.is_empty());
    assert_eq!(models.len(), 1);
    assert_eq!(
        models.playlist_link_at(0),
        Some(b"https://ex.com/live/a.m3u8".to_vec())
    );
}

#[test]
fn reconciliation_of_one_model_does_not_block_others() {
    let mut models = registry_with(&["alice", "bob", "carol"]);
    let target = registry_with(&["bob"]);
    let removed = models.update_config(&target);
    assert_eq!(removed.len(), 2);
    assert_eq!(models.len(), 1);
    let (_, name) = models.model_id_at(0);
    assert_eq!(name, b"bob".to_vec());
}
