use faba_plus::card::{CardKind, CardSnapshot, Figure, Track};
use faba_plus::managed::{
    all_playlist_audio_paths, cached_library, local_playlist_record, local_track_record, next_available_id,
    normalize_name, normalize_track_label, playlist_audio_paths, pull_plan, push_plan, track_path,
    validate_figure_id, CachedFile, PushStep,
};
use faba_plus::storage::{
    CloudSession, LibraryDatabase, ManagedPlaylistRecord, ManagedTrackRecord,
};
use faba_plus::cloud::{CloudLibrary, CloudPlaylist};

fn record(figure_id: &str, name: &str, dirty: bool, deleted: bool) -> ManagedPlaylistRecord {
    ManagedPlaylistRecord {
        figure_id: figure_id.into(),
        name: name.into(),
        updated_at: "2026-08-31T00:00:00Z".into(),
        dirty,
        needs_audio_upload: dirty,
        deleted,
        tracks: vec![ManagedTrackRecord {
            position: 0,
            label: "Piste".into(),
            audio_size_bytes: 12,
            audio_sha256: "abc".into(),
        }],
    }
}

fn snapshot_with_figure(root: &str, id: &str) -> CardSnapshot {
    CardSnapshot {
        root_path: root.into(),
        kind: CardKind::FabaPlus,
        writable: true,
        figures: vec![Figure {
            id: id.into(),
            folder_name: format!("K{id}"),
            custom_name: None,
            path: format!("{root}/K{id}"),
            nfc_payload: format!("02190530{id}00"),
            tracks: vec![Track {
                index: 0,
                file_name: "CP00.faba".into(),
                path: format!("{root}/K{id}/CP00.faba"),
                label: "Piste 1".into(),
                size_bytes: 5,
            }],
            modified_at: None,
            warning: None,
        }],
        warnings: vec![],
    }
}

#[test]
fn rejects_reserved_ids() {
    for invalid in ["0001", "1999", "9000", "abcd"] {
        assert!(validate_figure_id(invalid).is_err());
    }
    for valid in ["2000", "4567", "8999"] {
        assert!(validate_figure_id(valid).is_ok());
    }
}

#[test]
fn adopts_offline_library_even_when_account_state_already_exists() {
    let mut db = LibraryDatabase::new("library.sqlite3".into());
    assert!(db.initialize().is_ok());
    db.save_managed_library_state("local", 4, 1_000);
    db.save_managed_library_state("edwin@example.be", 7, 2_000);
    assert!(db
        .save_managed_playlist("local", &record("2000", "Histoire", true, false))
        .is_ok());

    assert!(db.adopt_unassigned_library("EDWIN@example.be"));
    assert_eq!(db.managed_playlist_count("local"), 0);
    assert_eq!(db.managed_playlist_count("edwin@example.be"), 1);
    assert_eq!(db.managed_library_state("edwin@example.be").version, 4);
}

#[test]
fn remembers_names_without_writing_them_to_the_card() {
    let mut db = LibraryDatabase::new("library.sqlite3".into());
    let mut snapshot = snapshot_with_figure("/media/card", "0123");
    db.sync_snapshot(&snapshot);
    db.set_figure_name("/media/card", "0123", Some("Mes histoires"));
    db.decorate_snapshot(&mut snapshot);
    assert_eq!(snapshot.figures[0].custom_name.as_deref(), Some("Mes histoires"));
    let recent = db.recent_cards();
    assert_eq!(recent.len(), 1);
    assert_eq!(recent[0].label, "card");
    assert_eq!(recent[0].kind, "FABA+");
}

#[test]
fn remembered_labels_replace_track_labels() {
    let mut db = LibraryDatabase::new("library.sqlite3".into());
    let mut snapshot = snapshot_with_figure("/media/card", "2000");
    assert!(db
        .set_track_labels("/media/card", "2000", &["Refused".to_string()])
        .is_err());
    db.record_snapshot(&snapshot, "card", "2026-01-01T00:00:00Z");
    assert!(db
        .set_track_labels("/media/card", "2000", &["Ouverture".to_string()])
        .is_ok());
    db.decorate_snapshot(&mut snapshot);
    assert_eq!(snapshot.figures[0].tracks[0].label, "Ouverture");
    db.remove_figure("/media/card", "2000");
    let mut again = snapshot_with_figure("/media/card", "2000");
    db.decorate_snapshot(&mut again);
    assert_eq!(again.figures[0].tracks[0].label, "Piste 1");
    assert!(again.figures[0].custom_name.is_none());
}

#[test]
fn recent_cards_are_the_latest_eight() {
    let mut db = LibraryDatabase::new("library.sqlite3".into());
    for day in 1..=10u32 {
        let snapshot = CardSnapshot {
            root_path: format!("/cards/{day}"),
            kind: CardKind::Empty,
            writable: true,
            figures: vec![],
            warnings: vec![],
        };
        db.record_snapshot(&snapshot, &format!("card {day}"), &format!("2026-01-{day:02}"));
    }
    let recent = db.recent_cards();
    assert_eq!(recent.len(), 8);
    assert_eq!(recent[0].root_path, "/cards/10");
    assert_eq!(recent[7].root_path, "/cards/3");
}

#[test]
fn session_decides_the_owner_and_status() {
    let mut db = LibraryDatabase::new("library.sqlite3".into());
    assert_eq!(db.active_library_owner(), "local");
    let status = db.cloud_status("https://faba.bo1.be");
    assert!(!status.authenticated);
    assert_eq!(status.endpoint, "https://faba.bo1.be");
    db.save_cloud_session(&CloudSession {
        endpoint: "https://example.test".into(),
        email: "Edwin@Example.be".into(),
        display_name: "Edwin".into(),
        token: "fab_live_x".into(),
        expires_at: "2027-01-01".into(),
        last_sync_at: None,
    });
    assert_eq!(db.active_library_owner(), "edwin@example.be");
    let status = db.cloud_status("https://faba.bo1.be");
    assert!(status.authenticated);
    assert_eq!(status.endpoint, "https://example.test");
    db.mark_cloud_synced();
    assert!(db.cloud_session().unwrap().last_sync_at.is_some());
    db.clear_cloud_session();
    assert!(db.cloud_session().is_none());
    assert_eq!(db.active_library_owner(), "edwin@example.be");
}

#[test]
fn playlist_edits_need_a_live_playlist() {
    let mut db = LibraryDatabase::new("library.sqlite3".into());
    assert!(db.rename_managed_playlist("local", "2000", "Nom").is_err());
    assert!(db.save_managed_playlist("local", &record("2000", "Histoire", false, false)).is_ok());
    assert!(db.rename_managed_playlist("local", "2000", "Nom").is_ok());
    let listed = db.managed_playlists("local", false);
    assert_eq!(listed[0].name, "Nom");
    assert!(listed[0].dirty);
    assert!(db.mark_managed_deleted("local", "2000").is_ok());
    assert!(db.mark_managed_deleted("local", "2000").is_err());
    assert!(db.managed_playlists("local", false).is_empty());
    assert_eq!(db.managed_playlists("local", true).len(), 1);
    db.purge_managed_playlist("local", "2000");
    assert_eq!(db.managed_playlist_count("local"), 0);
}

#[test]
fn duplicate_track_positions_are_refused() {
    let mut db = LibraryDatabase::new("library.sqlite3".into());
    let mut r = record("2000", "Histoire", true, false);
    r.tracks.push(ManagedTrackRecord {
        position: 0,
        label: "Bis".into(),
        audio_size_bytes: 1,
        audio_sha256: "def".into(),
    });
    assert!(db.save_managed_playlist("local", &r).is_err());
    assert_eq!(db.managed_playlist_count("local"), 0);
}

#[test]
fn batch_import_allocates_ids_and_keeps_audio_offline() {
    let mut db = LibraryDatabase::new("library.sqlite3".into());
    let root = "/data/audio";
    let first = local_track_record(0, Some("Une histoire.mp3"), b"ID3-first");
    assert_eq!(first.label, "Une histoire");
    assert_eq!(first.audio_size_bytes, 9);
    let playlist = local_playlist_record("2000", "Une histoire", vec![first], "2026-01-01T00:00:00Z");
    assert!(db.save_managed_playlist("local", &playlist).is_ok());
    let used: Vec<String> = db
        .managed_playlists("local", true)
        .into_iter()
        .map(|p| p.figure_id)
        .collect();
    assert_eq!(next_available_id(&used).ok().unwrap(), "2001");

    let second = local_track_record(0, Some("Une chanson.mp3"), b"ID3-second");
    let playlist = local_playlist_record("2001", "Une chanson", vec![second], "2026-01-01T00:00:00Z");
    assert!(db.save_managed_playlist("local", &playlist).is_ok());

    let files = vec![
        CachedFile { path: track_path(root, "local", "2000", 0), size_bytes: 9 },
        CachedFile { path: track_path(root, "local", "2001", 0), size_bytes: 10 },
    ];
    let library = cached_library(&db, root, &files, true, None);
    assert_eq!(library.playlists.len(), 2);
    assert!(library.playlists.iter().all(|p| p.pending_sync));
    assert!(library
        .playlists
        .iter()
        .flat_map(|p| &p.tracks)
        .all(|t| t.audio_available));
    assert_eq!(library.storage_used_bytes, 19);
    assert_eq!(library.pending_changes, 2);
    assert_eq!(library.playlists[0].nfc_payload, "02190530200000");

    let (found, paths) = playlist_audio_paths(&db, root, &files, "2001").ok().unwrap();
    assert_eq!(found.name, "Une chanson");
    assert_eq!(paths, vec![track_path(root, "local", "2001", 0)]);
    assert_eq!(all_playlist_audio_paths(&db, root, &files).ok().unwrap().len(), 2);
    let missing = vec![files[0].path.clone()];
    let partial = vec![CachedFile { path: missing[0].clone(), size_bytes: 9 }];
    assert!(all_playlist_audio_paths(&db, root, &partial).is_err());
    assert!(playlist_audio_paths(&db, root, &partial, "2001").is_err());
    assert!(playlist_audio_paths(&db, root, &partial, "1999").is_err());
}

#[test]
fn next_ids_skip_the_used_ones() {
    let used = vec!["2000".to_string(), "2001".to_string(), "2003".to_string()];
    assert_eq!(next_available_id(&used).ok().unwrap(), "2002");
    assert_eq!(next_available_id(&vec![]).ok().unwrap(), "2000");
    let all: Vec<String> = (2000..=8999).map(|n: u32| n.to_string()).collect();
    assert!(next_available_id(&all).is_err());
}

#[test]
fn names_and_labels_are_normalized() {
    assert_eq!(normalize_name("  Contes  "), "Contes");
    assert_eq!(normalize_name(&"x".repeat(150)).len(), 100);
    assert_eq!(normalize_track_label("   ", 2), "Piste 3");
    assert_eq!(normalize_track_label(" Intro ", 0), "Intro");
}

#[test]
fn pull_keeps_local_changes_and_purges_what_left_the_cloud() {
    let local = vec![
        record("2000", "Modifiée ici", true, false),
        record("2001", "Inchangée", false, false),
        record("2002", "Partie du cloud", false, false),
    ];
    let remote_playlist = |id: &str| CloudPlaylist {
        figure_id: id.into(),
        name: "Cloud".into(),
        nfc_payload: String::new(),
        track_count: 0,
        tracks: vec![],
        updated_at: String::new(),
    };
    let remote = CloudLibrary {
        version: 3,
        playlists: vec![remote_playlist("2000"), remote_playlist("2001"), remote_playlist("2005")],
        storage_used_bytes: 0,
        storage_limit_bytes: 0,
    };
    let plan = pull_plan(&local, &remote);
    assert_eq!(plan.cache, vec![1, 2]);
    assert!(!plan.refused);
    assert_eq!(plan.purge, vec!["2002".to_string()]);

    let refused = CloudLibrary {
        version: 3,
        playlists: vec![remote_playlist("2001"), remote_playlist("0042"), remote_playlist("2005")],
        storage_used_bytes: 0,
        storage_limit_bytes: 0,
    };
    let plan = pull_plan(&local, &refused);
    assert_eq!(plan.cache, vec![0]);
    assert!(plan.refused);
}

#[test]
fn push_plans_one_step_per_change() {
    let root = "/data/audio";
    let records = vec![
        record("2000", "Supprimée", true, true),
        record("2001", "Propre", false, false),
        record("2002", "Nouvelle", true, false),
    ];
    let files = vec![CachedFile { path: track_path(root, "local", "2002", 0), size_bytes: 12 }];
    let steps = push_plan(root, "local", &records, &files);
    assert_eq!(steps.len(), 2);
    assert!(matches!(&steps[0], PushStep::Remove { figure_id } if figure_id == "2000"));
    match &steps[1] {
        PushStep::Save { figure_id, labels, uploads, missing, .. } => {
            assert_eq!(figure_id, "2002");
            assert_eq!(labels, &vec!["Piste".to_string()]);
            assert_eq!(uploads.len(), 1);
            assert!(missing.is_none());
        }
        PushStep::Remove { .. } => panic!("expected a save"),
    }
    let steps = push_plan(root, "local", &records, &vec![]);
    match &steps[1] {
        PushStep::Save { uploads, missing, .. } => {
            assert!(uploads.is_empty());
            assert_eq!(*missing, Some(0));
        }
        PushStep::Remove { .. } => panic!("expected a save"),
    }
}
