use faba_plus::card::{
    build_snapshot, candidate_name, default_label, delete_faba_plus_figure, discover_content_root, ensure_editable,
    export_figure, free_name, has_figure, id3v1_cut, info_document, looks_like_card, require_figure, root_path, title_of,
    track_file, track_format, validate_custom_figure_id, write_faba_plus_figure, AudioSource, CardKind, CardProbe,
    CardSnapshot, ContentRoot, DirEntryInfo, FolderEntry, InfoFile, TrackEntry, TrackFormat,
};
use faba_plus::error::EditorError;
use faba_plus::ids::{folder_name, parse_figure_folder, parse_track_index};
use faba_plus::managed::{all_playlist_audio_paths, local_playlist_record, local_track_record, track_path, CachedFile};
use faba_plus::storage::LibraryDatabase;

fn dir(name: &str, path: &str) -> DirEntryInfo {
    DirEntryInfo { name: Some(name.into()), is_dir: true, path: path.into() }
}

fn probe(path: &str, name: &str, children: Vec<DirEntryInfo>, legacy: Option<Vec<DirEntryInfo>>) -> CardProbe {
    CardProbe {
        selected_path: path.into(),
        selected_is_dir: true,
        selected_name: Some(name.into()),
        children,
        legacy_path: format!("{path}/MKI01"),
        legacy_is_dir: legacy.is_some(),
        legacy_children: legacy.unwrap_or_default(),
    }
}

fn file(name: &str, folder: &str, size: u64) -> TrackEntry {
    TrackEntry { name: Some(name.into()), is_file: true, path: format!("{folder}/{name}"), size_bytes: size }
}

fn folder(name: &str, parent: &str, info: InfoFile, files: &[(&str, u64)]) -> FolderEntry {
    let path = format!("{parent}/{name}");
    FolderEntry {
        name: Some(name.into()),
        is_dir: true,
        tracks: files.iter().map(|(file_name, size)| file(file_name, &path, *size)).collect(),
        path,
        modified_at: None,
        info,
    }
}

fn audio(path: &str) -> AudioSource {
    AudioSource {
        path: path.into(),
        file_name: path.rsplit('/').next().map(String::from),
        is_file: true,
    }
}

fn scan(p: &CardProbe, folders: &Vec<FolderEntry>, readonly: bool) -> CardSnapshot {
    let root = discover_content_root(p);
    build_snapshot(p, root, folders, readonly)
}

#[test]
fn rejects_invalid_ids_and_non_mp3_inputs() {
    assert!(validate_custom_figure_id("2000").is_ok());
    assert!(validate_custom_figure_id("8999").is_ok());

    let wav = vec![audio("/source/track.wav")];
    let mp3 = vec![audio("/source/track.mp3")];
    assert!(matches!(
        write_faba_plus_figure("../1", &wav, true, false, 1),
        Err(EditorError::InvalidFigureId)
    ));
    assert!(matches!(
        write_faba_plus_figure("3101", &wav, true, false, 1),
        Err(EditorError::NotMp3(path)) if path == "/source/track.wav"
    ));
    for reserved in ["0001", "1234", "9001"] {
        let error = write_faba_plus_figure(reserved, &mp3, true, false, 1).err().unwrap();
        assert!(error.message().contains("réservés par FABA+"));
    }
}

#[test]
fn discovers_legacy_content_and_keeps_it_read_only() {
    let p = probe("/card", "card", vec![dir("MKI01", "/card/MKI01")], Some(vec![dir("K0010", "/card/MKI01/K0010")]));
    let root = discover_content_root(&p);
    assert_eq!(root, ContentRoot::Legacy);
    assert_eq!(root_path(&p, root), "/card/MKI01");
    let folders = vec![folder("K0010", "/card/MKI01", InfoFile::Absent, &[("CP01.MKI", 8)])];
    let snapshot = build_snapshot(&p, root, &folders, false);
    assert_eq!(snapshot.kind, CardKind::LegacyFaba);
    assert!(!snapshot.writable);
    assert_eq!(snapshot.root_path, "/card/MKI01");
    assert_eq!(snapshot.figures.len(), 1);
    assert_eq!(snapshot.figures[0].id, "0010");
    assert_eq!(snapshot.figures[0].tracks[0].index, 1);
    assert!(snapshot.warnings[0].starts_with("Ancien format FABA"));
    assert!(matches!(ensure_editable(&snapshot), Err(EditorError::LegacyReadOnly)));
}

#[test]
fn discovers_player_and_writes_figures_inside_it() {
    let p = probe(
        "/card",
        "card",
        vec![dir("PLAYER", "/card/PLAYER"), dir("K0001", "/card/K0001")],
        None,
    );
    assert!(looks_like_card(&p));
    let root = discover_content_root(&p);
    assert_eq!(root, ContentRoot::Player(0));
    let folders = vec![folder("KTEST", "/card/PLAYER", InfoFile::Absent, &[])];
    let snapshot = build_snapshot(&p, root, &folders, false);
    assert_eq!(snapshot.root_path, "/card/PLAYER");
    assert!(snapshot.warnings.iter().any(|warning| warning.contains("racine de la carte")));
    assert!(ensure_editable(&snapshot).is_ok());

    let plan = write_faba_plus_figure("3742", &vec![audio("/source/01.mp3")], true, false, 5).ok().unwrap();
    assert_eq!(plan.folder_name, "K3742");
    assert_eq!(plan.staging_name, ".faba-editor-K3742-5");
    assert_eq!(plan.copies[0].target_name, "00.faba");
    assert_eq!(plan.copies[0].title, "K3742CP01");
    assert!(!plan.backup_first);
}

#[test]
fn writes_scans_and_backs_up_a_plus_figure() {
    let sources = vec![audio("/source/01.mp3"), audio("/source/02.mp3")];
    let plan = write_faba_plus_figure("3742", &sources, true, false, 11).ok().unwrap();
    assert!(!plan.backup_first);
    assert_eq!(plan.copies.len(), 2);
    assert_eq!(plan.copies[1].source, "/source/02.mp3");
    assert_eq!(plan.copies[1].target_name, "01.faba");
    assert_eq!(plan.copies[1].title, "K3742CP02");
    assert_eq!(plan.info, r#"{"characterDir":"02190530374200","totalTracks":2}"#);

    let p = probe("/card", "card", vec![dir("K3742", "/card/K3742")], None);
    let folders = vec![folder(
        "K3742",
        "/card",
        InfoFile::Parsed(Some(2), Some("02190530374200".into())),
        &[("01.faba", 6), ("00.faba", 5)],
    )];
    let snapshot = scan(&p, &folders, false);
    assert_eq!(snapshot.kind, CardKind::FabaPlus);
    assert_eq!(snapshot.figures.len(), 1);
    assert_eq!(snapshot.figures[0].tracks.len(), 2);
    assert_eq!(snapshot.figures[0].tracks[0].file_name, "00.faba");
    assert_eq!(snapshot.figures[0].tracks[0].label, "Piste 1");
    assert!(snapshot.figures[0].warning.is_none());

    let replacement = write_faba_plus_figure("3742", &vec![audio("/source/03.mp3")], true, true, 12).ok().unwrap();
    assert!(replacement.backup_first);
    assert_eq!(replacement.previous_name, ".K3742-previous-12");
    assert_eq!(replacement.copies[0].title, "K3742CP01");
}

#[test]
fn figure_writes_check_their_inputs() {
    let mp3 = vec![audio("/source/a.mp3")];
    assert!(matches!(write_faba_plus_figure("3742", &vec![], true, false, 1), Err(EditorError::FigureTrackCount)));
    let too_many = (0..100).map(|i| audio(&format!("/source/{i}.mp3"))).collect::<Vec<_>>();
    assert!(matches!(write_faba_plus_figure("3742", &too_many, true, false, 1), Err(EditorError::FigureTrackCount)));
    let missing = vec![AudioSource { path: "/gone.mp3".into(), file_name: Some("gone.mp3".into()), is_file: false }];
    assert!(matches!(
        write_faba_plus_figure("3742", &missing, true, false, 1),
        Err(EditorError::AudioMissing(path)) if path == "/gone.mp3"
    ));
    assert!(matches!(write_faba_plus_figure("3742", &mp3, false, false, 1), Err(EditorError::CardUnavailable)));
    let upper = vec![audio("/source/LOUD.MP3")];
    assert!(write_faba_plus_figure("3742", &upper, true, false, 1).is_ok());
}

#[test]
fn scans_report_card_states() {
    let p = probe("/card", "card", vec![dir("K0002", "/card/K0002"), dir("K0001", "/card/K0001")], None);
    let unknown = vec![folder("K0001", "/card", InfoFile::Absent, &[("notes.txt", 3)])];
    let snapshot = scan(&p, &unknown, false);
    assert_eq!(snapshot.kind, CardKind::Unknown);
    assert!(matches!(ensure_editable(&snapshot), Err(EditorError::UnknownFormat)));

    let empty = scan(&probe("/blank", "blank", vec![], None), &vec![], false);
    assert_eq!(empty.kind, CardKind::Empty);
    assert!(empty.warnings[0].starts_with("Aucun contenu FABA+"));
    assert!(ensure_editable(&empty).is_ok());

    let plus = vec![
        folder("K0002", "/card", InfoFile::Unreadable, &[("00.faba", 1)]),
        folder("K0001", "/card", InfoFile::Parsed(Some(3), Some("02190530000100".into())), &[("00.faba", 1)]),
        folder("K0003", "/card", InfoFile::Parsed(Some(1), Some("02190530999900".into())), &[("00.faba", 1)]),
        folder("K0003", "/card", InfoFile::Absent, &[]),
    ];
    let read_only = scan(&p, &plus, true);
    assert_eq!(read_only.kind, CardKind::FabaPlus);
    assert!(!read_only.writable);
    assert!(matches!(ensure_editable(&read_only), Err(EditorError::ReadOnly)));
    let ids = read_only.figures.iter().map(|figure| figure.id.as_str()).collect::<Vec<_>>();
    assert_eq!(ids, vec!["0001", "0002", "0003", "0003"]);
    assert_eq!(
        read_only.figures[0].warning.as_deref(),
        Some("Le nombre de pistes ne correspond pas au fichier info.")
    );
    assert_eq!(read_only.figures[1].warning.as_deref(), Some("Le fichier info est illisible."));
    assert_eq!(
        read_only.figures[2].warning.as_deref(),
        Some("Le code NFC du fichier info semble incohérent.")
    );
    assert!(has_figure(&read_only, "0002"));
    assert!(!has_figure(&read_only, "0004"));
    assert_eq!(require_figure(&read_only, "0003").ok().unwrap().path, "/card/K0003");
    assert!(matches!(require_figure(&read_only, "0004"), Err(EditorError::FigureNotFound)));
}

#[test]
fn track_names_formats_and_labels() {
    assert_eq!(track_format("00.faba"), Some(TrackFormat::Plus));
    assert_eq!(track_format("CP01.FABA"), Some(TrackFormat::Plus));
    assert_eq!(track_format("CP01.MKI"), Some(TrackFormat::Legacy));
    assert_eq!(track_format("CP01"), Some(TrackFormat::Legacy));
    assert_eq!(track_format("song.mp3"), None);
    assert_eq!(default_label(0), "Piste 1");
    assert_eq!(default_label(41), "Piste 42");
    assert_eq!(track_file(7), "07.faba");
    assert_eq!(title_of("0742", 9), "K0742CP10");
    assert_eq!(info_document("0742", 3), r#"{"characterDir":"02190530074200","totalTracks":3}"#);
}

#[test]
fn written_names_are_read_back() {
    for index in [0usize, 9, 42, 99] {
        assert_eq!(parse_track_index(&track_file(index)), Some(index as u16));
    }
    for id in ["0001", "3742", "9999"] {
        assert_eq!(parse_figure_folder(&folder_name(id)).as_deref(), Some(id));
    }
}

#[test]
fn id3v1_tags_are_cut_off() {
    assert_eq!(id3v1_cut(1000, Some(*b"TAG")), Some(872));
    assert_eq!(id3v1_cut(128, Some(*b"TAG")), Some(0));
    assert_eq!(id3v1_cut(1000, Some(*b"ID3")), None);
    assert_eq!(id3v1_cut(100, Some(*b"TAG")), None);
    assert_eq!(id3v1_cut(1000, None), None);
}

#[test]
fn free_names_are_numbered() {
    assert_eq!(candidate_name("K0742-backup", 0, 77), "K0742-backup");
    assert_eq!(candidate_name("K0742-backup", 1, 77), "K0742-backup-2");
    assert_eq!(candidate_name("K0742-backup", 9998, 77), "K0742-backup-9999");
    assert_eq!(candidate_name("K0742-backup", 9999, 77), "K0742-backup-77");
}

#[test]
fn free_names_skip_the_taken_ones() {
    let taken = vec!["K0001-x".to_string(), "K0001-x-2".to_string()];
    assert_eq!(free_name("K0001-x", &vec![], 9), "K0001-x");
    assert_eq!(free_name("K0001-x", &taken, 9), "K0001-x-3");
}

#[test]
fn deletions_and_exports_are_checked() {
    assert!(matches!(delete_faba_plus_figure("abcd", true, 1), Err(EditorError::InvalidFigureId)));
    assert!(matches!(delete_faba_plus_figure("0742", false, 1), Err(EditorError::FigureGone)));
    let plan = delete_faba_plus_figure("0742", true, 9).ok().unwrap();
    assert_eq!(plan.folder_name, "K0742");
    assert_eq!(plan.tombstone_name, ".K0742-deleted-9");

    let none: Vec<String> = vec![];
    assert!(matches!(export_figure("42", true, true, &none, 5), Err(EditorError::InvalidFigureId)));
    assert!(matches!(export_figure("0742", false, true, &none, 5), Err(EditorError::ExportFolderMissing)));
    assert!(matches!(export_figure("0742", true, false, &none, 5), Err(EditorError::FigureGone)));
    assert_eq!(export_figure("0742", true, true, &none, 5).ok().unwrap(), "K0742");
    let taken = vec!["K0742".to_string(), "K0742-2".to_string(), "notes".to_string()];
    assert_eq!(export_figure("0742", true, true, &taken, 5).ok().unwrap(), "K0742-3");
}

#[test]
fn library_write_overwrites_matching_ids_and_preserves_card_extras() {
    let mut db = LibraryDatabase::new("library.sqlite3".into());
    let root = "/data/library";
    let track = local_track_record(0, Some("nouvelle-version.mp3"), b"new-audio");
    let playlist = local_playlist_record("2000", "Nouvelle version", vec![track], "2026-01-01T00:00:00Z");
    assert!(db.save_managed_playlist("local", &playlist).is_ok());
    let files = vec![CachedFile { path: track_path(root, "local", "2000", 0), size_bytes: 9 }];

    let p = probe(
        "/card",
        "card",
        vec![dir("PLAYER", "/card/PLAYER")],
        None,
    );
    let root_dir = root_path(&p, discover_content_root(&p));
    assert_eq!(root_dir, "/card/PLAYER");
    let written = all_playlist_audio_paths(&db, root, &files).ok().unwrap();
    assert_eq!(written.len(), 1);
    for (playlist, paths) in &written {
        let sources = paths.iter().map(|path| audio(path)).collect::<Vec<_>>();
        let plan = write_faba_plus_figure(&playlist.figure_id, &sources, true, true, 3).ok().unwrap();
        assert_eq!(plan.folder_name, "K2000");
        assert!(plan.backup_first);
        assert_eq!(plan.copies[0].source, track_path(root, "local", "2000", 0));
    }

    let player = probe("/card/PLAYER", "PLAYER", vec![], None);
    let folders = vec![
        folder(
            "K7777",
            "/card/PLAYER",
            InfoFile::Parsed(Some(1), Some("02190530777700".into())),
            &[("CP00.faba", 15)],
        ),
        folder(
            "K2000",
            "/card/PLAYER",
            InfoFile::Parsed(Some(1), Some("02190530200000".into())),
            &[("00.faba", 9)],
        ),
    ];
    let snapshot = scan(&player, &folders, false);
    let ids = snapshot.figures.iter().map(|figure| figure.id.as_str()).collect::<Vec<_>>();
    assert_eq!(ids, vec!["2000", "7777"]);
    assert_eq!(snapshot.figures[1].tracks[0].path, "/card/PLAYER/K7777/CP00.faba");
}
