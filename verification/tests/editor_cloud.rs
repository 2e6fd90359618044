use faba_plus::card::{CardKind, CardSnapshot, Figure, Track};
use faba_plus::cloud::{
    cloud_playlists, desktop_client_name, downloadable_playlist, endpoint, remote_error, upload_needed,
    verified_download, CloudLibrary, CloudPlaylist, CloudTrack,
};
use faba_plus::commands::{
    detected_cards, figure_name_choice, library_sync_message, sanitized_card_name, track_label, DiskInfo,
};
use faba_plus::diagnostics::{entry, needs_rotation, single_line};
use faba_plus::digest::sha256_hex_of;
use faba_plus::error::EditorError;
use faba_plus::ids::is_custom_figure_id;

#[test]
fn only_custom_ids_are_cloud_eligible() {
    for valid in ["2000", "3101", "8999"] {
        assert!(is_custom_figure_id(valid));
    }
    for invalid in ["0001", "1234", "9001", "oops"] {
        assert!(!is_custom_figure_id(invalid));
    }
}

#[test]
fn endpoint_drops_trailing_slashes() {
    assert_eq!(endpoint(None), "https://faba.bo1.be");
    assert_eq!(endpoint(Some("http://localhost:8787//")), "http://localhost:8787");
}

#[test]
fn refused_requests_are_explained() {
    assert!(matches!(remote_error(401, Some("x".into()), "401 Unauthorized"), EditorError::SessionExpired));
    match remote_error(413, Some("Trop gros".into()), "413 Payload Too Large") {
        EditorError::Remote(m) => assert_eq!(m, "Trop gros"),
        _ => panic!("expected a remote error"),
    }
    match remote_error(500, None, "500 Internal Server Error") {
        EditorError::Remote(m) => {
            assert_eq!(m, "FABA Cloud a répondu avec l'erreur 500 Internal Server Error.")
        }
        _ => panic!("expected a remote error"),
    }
    assert_eq!(desktop_client_name("0.2.0", "linux"), "FABA+ Custom Editor/0.2.0 (linux)");
}

fn figure(id: &str, name: Option<&str>, tracks: usize) -> Figure {
    Figure {
        id: id.into(),
        folder_name: format!("K{id}"),
        custom_name: name.map(String::from),
        path: format!("/card/K{id}"),
        nfc_payload: format!("02190530{id}00"),
        tracks: (0..tracks)
            .map(|i| Track {
                index: i as u16,
                file_name: format!("{i:02}.faba"),
                path: format!("/card/K{id}/{i:02}.faba"),
                label: format!("Piste {}", i + 1),
                size_bytes: 1,
            })
            .collect(),
        modified_at: None,
        warning: None,
    }
}

#[test]
fn cards_offer_their_custom_figures_to_the_cloud() {
    let snapshot = CardSnapshot {
        root_path: "/card".into(),
        kind: CardKind::FabaPlus,
        writable: true,
        figures: vec![figure("0010", None, 1), figure("2000", Some("  "), 2), figure("3000", None, 0)],
        warnings: vec![],
    };
    let playlists = cloud_playlists(&snapshot);
    assert_eq!(playlists.len(), 1);
    assert_eq!(playlists[0].figure_id, "2000");
    assert_eq!(playlists[0].name, "Figurine K2000");
    assert_eq!(playlists[0].track_count, 2);
    assert_eq!(playlists[0].tracks[1].position, 1);
}

#[test]
fn uploads_and_downloads_follow_the_digests() {
    let digest = sha256_hex_of(b"audio");
    let library = CloudLibrary {
        version: 1,
        playlists: vec![CloudPlaylist {
            figure_id: "2000".into(),
            name: "P".into(),
            nfc_payload: String::new(),
            track_count: 1,
            tracks: vec![CloudTrack {
                position: 0,
                label: "A".into(),
                audio_available: true,
                audio_size_bytes: Some(5),
                audio_sha256: Some(digest.clone()),
            }],
            updated_at: String::new(),
        }],
        storage_used_bytes: 5,
        storage_limit_bytes: 10,
    };
    assert!(!upload_needed(&library, "2000", 0, &digest));
    assert!(upload_needed(&library, "2000", 1, &digest));
    assert!(upload_needed(&library, "2001", 0, &digest));
    assert_eq!(downloadable_playlist(&library, "2000").ok(), Some(0));
    assert!(matches!(downloadable_playlist(&library, "2001"), Err(EditorError::RemotePlaylistGone)));
    assert!(matches!(downloadable_playlist(&library, "0001"), Err(EditorError::NotCloudFigureId)));
    assert_eq!(verified_download(&Some(digest.clone()), b"audio").ok(), Some(digest.clone()));
    assert!(matches!(verified_download(&Some(digest), b"other"), Err(EditorError::IntegrityCheckFailed)));
}

#[test]
fn persists_and_clears_diagnostic_entries() {
    let mut content = String::new();
    content.push_str(&entry("2026-01-01T00:00:00.000Z", "INFO", "figure.save.start", "figure=K0742 tracks=2"));
    content.push_str(&entry("2026-01-01T00:00:01.000Z", "ERROR", "figure.save.error", "Access denied\n(os error 5)"));
    assert!(content.contains("figure.save.start"));
    assert!(content.contains("Access denied (os error 5)"));
    assert_eq!(content.lines().count(), 2);
    assert_eq!(single_line("a\r\nb"), "a  b");
    assert!(needs_rotation(1_500_000));
    assert!(!needs_rotation(1_499_999));
}

#[test]
fn detected_cards_list_likely_cards_first() {
    let disk = |name: &str, removable: bool, likely: bool| DiskInfo {
        mount_path: format!("/mnt/{name}"),
        name: name.into(),
        removable,
        likely_faba: likely,
        total_bytes: 10,
        available_bytes: 5,
    };
    let cards = detected_cards(&vec![
        disk("Zeta", true, false),
        disk("System", false, false),
        disk("Beta", true, true),
        disk("Alpha", true, false),
        disk("Faba", false, true),
    ]);
    let labels: Vec<&str> = cards.iter().map(|c| c.label.as_str()).collect();
    assert_eq!(labels, vec!["Beta", "Faba", "Alpha", "Zeta"]);
    assert_eq!(cards[0].id, "/mnt/Beta");
}

#[test]
fn command_helpers_name_things() {
    assert_eq!(figure_name_choice("  Contes "), Some("Contes".to_string()));
    assert_eq!(figure_name_choice("   "), None);
    assert_eq!(track_label(Some("Ma chanson.mp3")), "Ma chanson");
    assert_eq!(track_label(None), "Piste");
    assert_eq!(sanitized_card_name(Some("NO NAME")), "NO-NAME");
    assert_eq!(sanitized_card_name(None), "card");
    assert_eq!(
        library_sync_message(3),
        "3 playlist(s) synchronisée(s). Les autres contenus de la carte ont été conservés."
    );
}
