use faba_plus::server::auth::{bearer_token, normalize_email, session_token, validate_password};
use faba_plus::server::library::{validate_figure_id, validate_playlist, PlaylistPayload, TrackPayload};
use faba_plus::server::storage::{
    audio_file_name, check_account_quota, exceeds_quota, looks_like_mp3, should_prune,
};

#[test]
fn validates_account_fields() {
    assert_eq!(
        normalize_email(" Edwin@Example.COM ").ok().unwrap(),
        "edwin@example.com"
    );
    assert!(normalize_email("invalid").is_err());
    assert!(validate_password("tropcourt").is_err());
    assert!(validate_password("phrase-secrete-solide").is_ok());
}

#[test]
fn rejects_reserved_ids_and_normalizes_labels() {
    for reserved in ["0001", "1234", "9001", "abcd"] {
        assert!(validate_figure_id(reserved).is_err());
    }
    for valid in ["2000", "3101", "8999"] {
        assert!(validate_figure_id(valid).is_ok());
    }
    let mut playlist = PlaylistPayload {
        figure_id: "3101".into(),
        name: "  Histoires du soir  ".into(),
        tracks: vec![TrackPayload {
            position: 0,
            label: "  Introduction  ".into(),
        }],
        reset_audio: false,
    };
    assert!(validate_playlist(&mut playlist).is_ok());
    assert_eq!(playlist.name, "Histoires du soir");
    assert_eq!(playlist.tracks[0].label, "Introduction");
}

#[test]
fn detects_common_mp3_headers() {
    assert!(looks_like_mp3(b"ID3\x04\x00\x00"));
    assert!(looks_like_mp3(b"\xff\xfb\x90\x64"));
    assert!(!looks_like_mp3(b"RIFF----WAVE"));
}

#[test]
fn session_tokens_are_accepted_as_bearer_tokens() {
    let token = session_token(&[7u8; 32]);
    assert!(token.starts_with("fab_live_"));
    assert_eq!(token.len(), 52);
    let header = format!("Bearer {token}");
    assert_eq!(bearer_token(Some(header.as_str())).ok().unwrap(), token);
    assert!(bearer_token(Some("Bearer fab_live_short")).is_err());
    assert!(bearer_token(None).is_err());
}

#[test]
fn quota_accepts_exactly_what_fits() {
    assert!(!exceeds_quota(100, 20, 20, 100));
    assert!(exceeds_quota(100, 20, 21, 100));
    assert!(check_account_quota(0, 0, 5, 5).is_ok());
    assert!(check_account_quota(0, 0, 6, 5).is_err());
}

#[test]
fn pruning_keeps_the_files_of_the_playlist() {
    assert_eq!(audio_file_name(3), "03.mp3");
    for position in 0..5u16 {
        let name = audio_file_name(position);
        assert_eq!(should_prune(&name, 3), position >= 3);
    }
    assert!(!should_prune("notes.txt", 0));
}
