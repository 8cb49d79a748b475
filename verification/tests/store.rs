use luke_desktop::errors::AttachmentError;
use luke_desktop::store::{has_fs_permission, AttachmentStore, ScopeKind, ScopeRef};

fn project_scope(id: &str) -> ScopeRef {
    ScopeRef { kind: ScopeKind::Project, scope_id: Some(id.to_string()) }
}

#[test]
fn round_trip_small_payload() {
    let mut store = AttachmentStore::new();
    let scope = project_scope("proj1");
    let payload = b"hello attachment".to_vec();
    let rec = store
        .save(&scope, payload.clone(), "text/plain".to_string(), "hello.txt".to_string())
        .unwrap();
    assert_eq!(rec.size, payload.len() as u64);
    assert!(!rec.is_compressed);
    let back = store.get(&scope, &rec.id).unwrap();
    assert_eq!(back, payload);
}

#[test]
fn round_trip_empty_payload() {
    let mut store = AttachmentStore::new();
    let scope = ScopeRef { kind: ScopeKind::Global, scope_id: None };
    let rec = store
        .save(&scope, Vec::new(), "image/png".to_string(), "empty.png".to_string())
        .unwrap();
    assert_eq!(rec.size, 0);
    let back = store.get(&scope, &rec.id).unwrap();
    assert!(back.is_empty());
}

#[test]
fn round_trip_across_compression_threshold() {
    let mut store = AttachmentStore::new();
    let scope = project_scope("proj-big");
    // Just above the 1 MiB threshold: stored compressed.
    let big = vec![42u8; 1024 * 1024 + 1];
    let rec_big = store
        .save(&scope, big.clone(), "application/pdf".to_string(), "big.pdf".to_string())
        .unwrap();
    assert!(rec_big.is_compressed);
    assert!(rec_big.compressed_size < rec_big.size);
    assert_eq!(store.get(&scope, &rec_big.id).unwrap(), big);
    // Exactly at the threshold: stored as it is.
    let at = vec![42u8; 1024 * 1024];
    let rec_at = store
        .save(&scope, at.clone(), "application/pdf".to_string(), "at.pdf".to_string())
        .unwrap();
    assert!(!rec_at.is_compressed);
    assert_eq!(rec_at.compressed_size, rec_at.size);
    assert_eq!(store.get(&scope, &rec_at.id).unwrap(), at);
}

#[test]
fn save_at_size_cap_succeeds() {
    let mut store = AttachmentStore::new();
    let scope = project_scope("proj-cap");
    let payload = vec![0u8; 100 * 1024 * 1024];
    let rec = store
        .save(&scope, payload, "application/pdf".to_string(), "cap.pdf".to_string())
        .unwrap();
    assert_eq!(rec.size, 100 * 1024 * 1024);
}

#[test]
fn save_above_size_cap_is_rejected() {
    let mut store = AttachmentStore::new();
    let scope = project_scope("proj-toolarge");
    let payload = vec![0u8; 100 * 1024 * 1024 + 1];
    let err = store
        .save(&scope, payload, "application/pdf".to_string(), "toolarge.pdf".to_string())
        .unwrap_err();
    assert_eq!(err, AttachmentError::TooLarge);
    // Nothing was left behind.
    assert!(store.list(&scope).is_empty());
}

#[test]
fn save_with_unlisted_mime_is_rejected() {
    let mut store = AttachmentStore::new();
    let scope = project_scope("proj-mime");
    let err = store
        .save(&scope, b"PK".to_vec(), "application/zip".to_string(), "a.zip".to_string())
        .unwrap_err();
    assert_eq!(err, AttachmentError::MimeRejected);
    assert!(store.list(&scope).is_empty());
}

#[test]
fn every_allowed_mime_is_accepted() {
    let mut store = AttachmentStore::new();
    let scope = project_scope("proj-mimes");
    let mimes =
        ["text/plain", "text/markdown", "application/pdf", "image/jpeg", "image/png", "image/gif"];
    for mime in mimes {
        store.save(&scope, b"data".to_vec(), mime.to_string(), "f".to_string()).unwrap();
    }
    assert_eq!(store.list(&scope).len(), mimes.len());
}

#[test]
fn delete_is_safe_to_repeat() {
    let mut store = AttachmentStore::new();
    let scope = project_scope("proj-del");
    // Deleting an identifier that never existed reports NotFound.
    let missing = "0123456789abcdef0123456789abcdef0123".to_string();
    assert_eq!(store.delete(&scope, &missing).unwrap_err(), AttachmentError::NotFound);
    // Deleting a stored attachment succeeds once, then reports NotFound.
    let rec = store
        .save(&scope, b"bye".to_vec(), "text/plain".to_string(), "bye.txt".to_string())
        .unwrap();
    store.delete(&scope, &rec.id).unwrap();
    assert_eq!(store.delete(&scope, &rec.id).unwrap_err(), AttachmentError::NotFound);
    assert_eq!(store.get(&scope, &rec.id).unwrap_err(), AttachmentError::NotFound);
    assert!(store.list(&scope).is_empty());
}

#[test]
fn traversal_is_rejected_for_every_operation() {
    let mut store = AttachmentStore::new();
    let evil_scope = project_scope("../../etc/passwd");
    let good_scope = project_scope("proj-safe");
    let evil_id = "../../etc/passwd".to_string();

    let err = store
        .save(&evil_scope, b"x".to_vec(), "text/plain".to_string(), "x".to_string())
        .unwrap_err();
    assert_eq!(err, AttachmentError::Traversal);
    assert_eq!(store.get(&good_scope, &evil_id).unwrap_err(), AttachmentError::Traversal);
    assert_eq!(store.delete(&good_scope, &evil_id).unwrap_err(), AttachmentError::Traversal);
    assert_eq!(store.get(&good_scope, &"..".to_string()).unwrap_err(), AttachmentError::Traversal);
}

#[test]
fn scopes_partition_the_catalog() {
    let mut store = AttachmentStore::new();
    let scope_a = project_scope("proj-a");
    let scope_b = project_scope("proj-b");
    let chat = ScopeRef { kind: ScopeKind::Chat, scope_id: Some("chat-1".to_string()) };
    let rec_a = store
        .save(&scope_a, b"for a".to_vec(), "text/plain".to_string(), "a.txt".to_string())
        .unwrap();
    store
        .save(&scope_b, b"for b".to_vec(), "text/plain".to_string(), "b.txt".to_string())
        .unwrap();
    store
        .save(&chat, b"for chat".to_vec(), "text/plain".to_string(), "c.txt".to_string())
        .unwrap();
    assert_eq!(store.list(&scope_a).len(), 1);
    assert_eq!(store.list(&scope_b).len(), 1);
    assert_eq!(store.list(&chat).len(), 1);
    // An attachment is only reachable through its own scope.
    assert_eq!(store.get(&scope_b, &rec_a.id).unwrap_err(), AttachmentError::NotFound);
}

#[test]
fn many_saves_yield_distinct_listable_records() {
    let mut store = AttachmentStore::new();
    let scope = project_scope("proj-many");
    let mut ids: Vec<String> = Vec::new();
    for k in 0..8u8 {
        let rec = store
            .save(&scope, vec![k; 16], "text/plain".to_string(), format!("f{}", k))
            .unwrap();
        ids.push(rec.id);
    }
    // Every save produced its own identifier and its own record.
    for i in 0..ids.len() {
        for j in (i + 1)..ids.len() {
            assert_ne!(ids[i], ids[j]);
        }
    }
    let records = store.list(&scope);
    assert_eq!(records.len(), 8);
    // No blob was overwritten: each one still reads back as saved.
    for (k, id) in ids.iter().enumerate() {
        assert_eq!(store.get(&scope, id).unwrap(), vec![k as u8; 16]);
    }
}

#[test]
fn restore_rebuilds_a_store_from_mirrored_state() {
    let mut store = AttachmentStore::new();
    let scope = project_scope("proj-restore");
    let small = b"tiny".to_vec();
    let big = vec![5u8; 1024 * 1024 + 2];
    let rec_small = store
        .save(&scope, small.clone(), "text/plain".to_string(), "s.txt".to_string())
        .unwrap();
    let rec_big = store
        .save(&scope, big.clone(), "application/pdf".to_string(), "b.pdf".to_string())
        .unwrap();
    let blob_small = store.stored_bytes(&scope, &rec_small.id).unwrap();
    let blob_big = store.stored_bytes(&scope, &rec_big.id).unwrap();
    // A fresh store — a fresh process — adopts the mirrored records and
    // blobs and serves the same content.
    let mut rebuilt = AttachmentStore::new();
    rebuilt.restore(rec_small.clone(), blob_small).unwrap();
    rebuilt.restore(rec_big.clone(), blob_big).unwrap();
    assert_eq!(rebuilt.get(&scope, &rec_small.id).unwrap(), small);
    assert_eq!(rebuilt.get(&scope, &rec_big.id).unwrap(), big);
    assert_eq!(rebuilt.list(&scope).len(), 2);
}

#[test]
fn restore_rejects_inconsistent_state() {
    let mut store = AttachmentStore::new();
    let scope = project_scope("proj-restore-bad");
    let rec = store
        .save(&scope, b"data".to_vec(), "text/plain".to_string(), "d.txt".to_string())
        .unwrap();
    let blob = store.stored_bytes(&scope, &rec.id).unwrap();
    let mut rebuilt = AttachmentStore::new();
    let mut wrong_size = rec.clone();
    wrong_size.compressed_size += 1;
    assert_eq!(rebuilt.restore(wrong_size, blob.clone()).unwrap_err(), AttachmentError::IOFailure);
    let mut bad_mime = rec.clone();
    bad_mime.mime_type = "application/zip".to_string();
    assert_eq!(
        rebuilt.restore(bad_mime, blob.clone()).unwrap_err(),
        AttachmentError::MimeRejected
    );
    assert!(rebuilt.list(&scope).is_empty());
    rebuilt.restore(rec, blob).unwrap();
    assert_eq!(rebuilt.list(&scope).len(), 1);
}

#[test]
fn gzip_shaped_small_payload_fails_to_read_back() {
    // A payload that itself opens with the gzip magic bytes, saved below
    // the compression threshold, is stored verbatim; the content-sniffing
    // read path then treats it as compressed and fails to decode it.
    // This is the accepted consequence of flag-free, byte-sniffed
    // detection: such content round-trips only above the threshold.
    let mut store = AttachmentStore::new();
    let scope = project_scope("proj-magic");
    let payload = vec![0x1f, 0x8b, 0x00, 0x01, 0x02];
    let rec = store
        .save(&scope, payload, "application/pdf".to_string(), "odd.bin".to_string())
        .unwrap();
    assert!(!rec.is_compressed);
    assert_eq!(store.get(&scope, &rec.id).unwrap_err(), AttachmentError::DecompressionFailed);
}

#[test]
fn dispatch_requires_the_filesystem_permission() {
    assert!(has_fs_permission(&vec!["net:default".to_string(), "fs:default".to_string()]));
    assert!(!has_fs_permission(&vec!["net:default".to_string()]));
    assert!(!has_fs_permission(&Vec::new()));
}

#[test]
fn record_fields_describe_the_save() {
    let mut store = AttachmentStore::new();
    let scope = project_scope("proj-fields");
    let rec = store
        .save(&scope, b"abc".to_vec(), "text/markdown".to_string(), "notes.md".to_string())
        .unwrap();
    assert_eq!(rec.name, "notes.md".to_string());
    assert_eq!(rec.mime_type, "text/markdown".to_string());
    assert_eq!(rec.size, 3);
    assert_eq!(rec.compressed_size, 3);
    assert_eq!(rec.id.len(), 36);
    assert!(rec.id.chars().all(|c| c == '-' || c.is_ascii_hexdigit()));
    assert_eq!(rec.scope.kind, ScopeKind::Project);
    assert_eq!(rec.scope.scope_id, Some("proj-fields".to_string()));
    let listed = store.list(&scope);
    assert_eq!(listed.len(), 1);
    assert_eq!(listed[0].id, rec.id);
}
