//! FABA+ microSD cards: where the content lies, what a scan finds in it,
//! which cards may be written, and the plans of the writes themselves. The
//! directory listings come from the file system; every decision made on
//! them is here.
use vstd::prelude::*;
use crate::error::EditorError;
use crate::order::{by_text_keys, by_u16_keys, lex_less, sort_by_text, sort_by_u16, stable_sort};
use crate::ids::{
    extension, extension_of, figure_folder_id, folder_name, folder_name_of, is_card_figure_id,
    is_card_id, is_custom_id, nfc_payload, nfc_payload_of, parse_figure_folder,
    parse_track_index, track_index_of,
};
use crate::text::{
    all_digits, digit_char, digits_value, parse_unsigned, starts_with, unsigned_digits,
    append_str, ascii_lower_seq, ascii_lowercase, concat, decimal, ends_with,
    eq_ignore_ascii_case, equals_ignore_ascii_case, owned, push_decimal, push_two_digits,
    same_text, text_ends_with, two_digits,
};

verus! {

/// What a scan found on a card.
#[derive(PartialEq, Eq, Structural, Clone, Copy, Debug)]
pub enum CardKind {
    FabaPlus,
    LegacyFaba,
    Empty,
    Unknown,
}

/// A track file of a figure.
pub struct Track {
    pub index: u16,
    pub file_name: String,
    pub path: String,
    pub label: String,
    pub size_bytes: u64,
}

/// A figure folder of a card.
pub struct Figure {
    pub id: String,
    pub folder_name: String,
    pub custom_name: Option<String>,
    pub path: String,
    pub nfc_payload: String,
    pub tracks: Vec<Track>,
    pub modified_at: Option<String>,
    pub warning: Option<String>,
}

/// The content of a card.
pub struct CardSnapshot {
    pub root_path: String,
    pub kind: CardKind,
    pub writable: bool,
    pub figures: Vec<Figure>,
    pub warnings: Vec<String>,
}

// ---------------------------------------------------------------------------
// Identifiers
// ---------------------------------------------------------------------------

/// Accepts card identifiers: four digits, `0001` to `9999`.
pub fn validate_figure_id(figure_id: &str) -> (result: Result<(), EditorError>)
    ensures
        result is Ok <==> is_card_id(figure_id@),
        result is Err ==> result matches Err(EditorError::InvalidFigureId),
{
    if is_card_figure_id(figure_id) {
        Ok(())
    } else {
        Err(EditorError::InvalidFigureId)
    }
}

/// Accepts the identifiers a new figure may take: card identifiers outside
/// the ranges `0xxx`, `1xxx` and `9xxx` that FABA+ keeps.
pub fn validate_custom_figure_id(figure_id: &str) -> (result: Result<(), EditorError>)
    ensures
        result is Ok <==> is_custom_id(figure_id@),
        !is_card_id(figure_id@) ==> result matches Err(EditorError::InvalidFigureId),
        is_card_id(figure_id@) && !is_custom_id(figure_id@) ==> result matches Err(
            EditorError::ReservedFigureId,
        ),
{
    validate_figure_id(figure_id)?;
    let v = crate::text::chars_of(figure_id);
    if v[0] == '0' || v[0] == '1' || v[0] == '9' {
        return Err(EditorError::ReservedFigureId);
    }
    Ok(())
}

// ---------------------------------------------------------------------------
// Track files
// ---------------------------------------------------------------------------

/// How a track file is written.
#[derive(PartialEq, Eq, Structural, Clone, Copy, Debug)]
pub enum TrackFormat {
    /// A `.faba` file of a FABA+ card.
    Plus,
    /// A `.mki` file, or a file without extension, of a legacy card.
    Legacy,
}

/// The format a track file name announces, if any: `.faba` (any case) for
/// FABA+, `.mki` (any case) or no extension for the legacy format.
pub open spec fn track_format_of(name: Seq<char>) -> Option<TrackFormat> {
    let lower = ascii_lower_seq(name);
    if ends_with(lower, ".faba"@) {
        Some(TrackFormat::Plus)
    } else if ends_with(lower, ".mki"@) || extension_of(name) is None {
        Some(TrackFormat::Legacy)
    } else {
        None
    }
}

/// The format a track file name announces, if any.
pub fn track_format(name: &str) -> (result: Option<TrackFormat>)
    ensures
        result == track_format_of(name@),
{
    let lower = ascii_lowercase(name);
    if text_ends_with(lower.as_str(), ".faba") {
        Some(TrackFormat::Plus)
    } else if text_ends_with(lower.as_str(), ".mki") || extension(name).is_none() {
        Some(TrackFormat::Legacy)
    } else {
        None
    }
}

/// The label a scanned track shows before any custom label: `Piste <n>`,
/// counting from 1 (the count wraps as a `u16` does).
pub open spec fn default_track_label(index: u16) -> Seq<char> {
    "Piste "@ + decimal(((index as int + 1) % 65536) as nat)
}

/// The label a scanned track shows before any custom label.
pub fn default_label(index: u16) -> (label: String)
    ensures
        label@ == default_track_label(index),
{
    let mut s = owned("Piste ");
    push_decimal(&mut s, index.wrapping_add(1) as u128);
    s
}

// ---------------------------------------------------------------------------
// Where the content lies
// ---------------------------------------------------------------------------

/// An entry of a directory listing.
pub struct DirEntryInfo {
    /// The entry's name, when it is valid UTF-8.
    pub name: Option<String>,
    pub is_dir: bool,
    pub path: String,
}

/// What the file system shows around the folder the user picked.
pub struct CardProbe {
    pub selected_path: String,
    pub selected_is_dir: bool,
    /// The name of the picked folder, when it has one in UTF-8.
    pub selected_name: Option<String>,
    /// The entries of the picked folder.
    pub children: Vec<DirEntryInfo>,
    /// The path of `MKI01` inside the picked folder.
    pub legacy_path: String,
    pub legacy_is_dir: bool,
    /// The entries of that `MKI01` folder (none when it cannot be read).
    pub legacy_children: Vec<DirEntryInfo>,
}

/// The folder that holds the figure folders.
#[derive(PartialEq, Eq, Structural, Clone, Copy, Debug)]
pub enum ContentRoot {
    /// The picked folder itself.
    Selected,
    /// The `PLAYER` folder at this position among the picked folder's entries.
    Player(usize),
    /// The `MKI01` folder of a legacy card.
    Legacy,
}

pub open spec fn named(name: Option<String>, expected: Seq<char>) -> bool {
    name is Some && eq_ignore_ascii_case(name->0@, expected)
}

/// A directory named `PLAYER` in any case.
pub open spec fn is_player_dir(e: DirEntryInfo) -> bool {
    e.is_dir && named(e.name, "PLAYER"@)
}

/// A directory named `Kxxxx`.
pub open spec fn is_figure_dir(e: DirEntryInfo) -> bool {
    e.is_dir && e.name is Some && figure_folder_id(e.name->0@) is Some
}

pub open spec fn has_player_dir(entries: Seq<DirEntryInfo>) -> bool {
    exists|i: int| 0 <= i < entries.len() && #[trigger] is_player_dir(entries[i])
}

pub open spec fn first_player_dir(entries: Seq<DirEntryInfo>, i: int) -> bool {
    &&& 0 <= i < entries.len()
    &&& is_player_dir(entries[i])
    &&& forall|j: int| 0 <= j < i ==> !is_player_dir(#[trigger] entries[j])
}

pub open spec fn has_figure_dirs(entries: Seq<DirEntryInfo>) -> bool {
    exists|i: int| 0 <= i < entries.len() && #[trigger] is_figure_dir(entries[i])
}

pub open spec fn selected_is_player(p: CardProbe) -> bool {
    p.selected_is_dir && named(p.selected_name, "PLAYER"@)
}

/// The content root of a card: the picked folder when it is `PLAYER`; else
/// its first `PLAYER` folder; else the picked folder when it holds figure
/// folders; else its `MKI01` folder when that holds figure folders; else the
/// picked folder.
pub open spec fn content_root_is(p: CardProbe, root: ContentRoot) -> bool {
    if selected_is_player(p) {
        root == ContentRoot::Selected
    } else if has_player_dir(p.children@) {
        root matches ContentRoot::Player(i) && first_player_dir(p.children@, i as int)
    } else if has_figure_dirs(p.children@) {
        root == ContentRoot::Selected
    } else if p.legacy_is_dir && has_figure_dirs(p.legacy_children@) {
        root == ContentRoot::Legacy
    } else {
        root == ContentRoot::Selected
    }
}

/// Whether a folder looks like a FABA card.
pub open spec fn card_like(p: CardProbe) -> bool {
    selected_is_player(p) || has_player_dir(p.children@) || has_figure_dirs(p.children@)
        || has_figure_dirs(p.legacy_children@)
}

/// The path of the content root.
pub open spec fn content_root_path(p: CardProbe, root: ContentRoot) -> String {
    match root {
        ContentRoot::Selected => p.selected_path,
        ContentRoot::Player(i) => p.children@[i as int].path,
        ContentRoot::Legacy => p.legacy_path,
    }
}

fn is_named(name: &Option<String>, expected: &str) -> (result: bool)
    ensures
        result == named(*name, expected@),
{
    match name {
        Some(n) => equals_ignore_ascii_case(n.as_str(), expected),
        None => false,
    }
}

fn is_figure_entry(e: &DirEntryInfo) -> (result: bool)
    ensures
        result == is_figure_dir(*e),
{
    if !e.is_dir {
        return false;
    }
    match &e.name {
        Some(n) => parse_figure_folder(n.as_str()).is_some(),
        None => false,
    }
}

/// The first `PLAYER` directory among `entries`.
fn find_player_dir(entries: &Vec<DirEntryInfo>) -> (result: Option<usize>)
    ensures
        match result {
            Some(i) => first_player_dir(entries@, i as int),
            None => !has_player_dir(entries@),
        },
{
    let mut i: usize = 0;
    while i < entries.len()
        invariant
            0 <= i <= entries.len(),
            forall|j: int| 0 <= j < i ==> !is_player_dir(#[trigger] entries@[j]),
        decreases entries.len() - i,
    {
        if entries[i].is_dir && is_named(&entries[i].name, "PLAYER") {
            return Some(i);
        }
        i += 1;
    }
    None
}

/// Whether `entries` hold a `Kxxxx` directory.
pub fn has_figure_folders(entries: &Vec<DirEntryInfo>) -> (result: bool)
    ensures
        result == has_figure_dirs(entries@),
{
    let mut i: usize = 0;
    while i < entries.len()
        invariant
            0 <= i <= entries.len(),
            forall|j: int| 0 <= j < i ==> !is_figure_dir(#[trigger] entries@[j]),
        decreases entries.len() - i,
    {
        if is_figure_entry(&entries[i]) {
            return true;
        }
        i += 1;
    }
    false
}

/// The folder of a card that holds its figure folders.
pub fn discover_content_root(probe: &CardProbe) -> (root: ContentRoot)
    ensures
        content_root_is(*probe, root),
{
    if probe.selected_is_dir && is_named(&probe.selected_name, "PLAYER") {
        return ContentRoot::Selected;
    }
    if let Some(i) = find_player_dir(&probe.children) {
        return ContentRoot::Player(i);
    }
    if has_figure_folders(&probe.children) {
        return ContentRoot::Selected;
    }
    if probe.legacy_is_dir && has_figure_folders(&probe.legacy_children) {
        return ContentRoot::Legacy;
    }
    ContentRoot::Selected
}

/// The path of a content root.
pub fn root_path(probe: &CardProbe, root: ContentRoot) -> (path: String)
    requires
        root matches ContentRoot::Player(i) ==> i < probe.children@.len(),
    ensures
        path == content_root_path(*probe, root),
{
    match root {
        ContentRoot::Selected => probe.selected_path.clone(),
        ContentRoot::Player(i) => probe.children[i].path.clone(),
        ContentRoot::Legacy => probe.legacy_path.clone(),
    }
}

/// Whether a folder looks like a FABA card: it is a `PLAYER` folder, holds
/// one, or holds figure folders itself or in `MKI01`.
pub fn looks_like_card(probe: &CardProbe) -> (result: bool)
    ensures
        result == card_like(*probe),
{
    (probe.selected_is_dir && is_named(&probe.selected_name, "PLAYER")) || find_player_dir(
        &probe.children,
    ).is_some() || has_figure_folders(&probe.children) || has_figure_folders(
        &probe.legacy_children,
    )
}

// ---------------------------------------------------------------------------
// What a scan finds
// ---------------------------------------------------------------------------

/// A file of a figure folder.
pub struct TrackEntry {
    /// The file's name, when it is valid UTF-8.
    pub name: Option<String>,
    pub is_file: bool,
    pub path: String,
    pub size_bytes: u64,
}

/// The `info` file of a figure folder.
pub enum InfoFile {
    /// There is no `info` file.
    Absent,
    /// The file cannot be read as the expected JSON.
    Unreadable,
    /// Its `totalTracks` and `characterDir` fields, each when present.
    Parsed(Option<u16>, Option<String>),
}

/// An entry of the content root, with its files when it is a figure folder.
pub struct FolderEntry {
    pub name: Option<String>,
    pub is_dir: bool,
    pub path: String,
    pub modified_at: Option<String>,
    pub tracks: Vec<TrackEntry>,
    pub info: InfoFile,
}

/// A file a scan keeps as a track: a regular file with a UTF-8 name that
/// gives a track index and announces a track format.
pub open spec fn track_kept(e: TrackEntry) -> bool {
    e.is_file && e.name is Some && track_index_of(e.name->0@) is Some && track_format_of(
        e.name->0@,
    ) is Some
}

/// The index a kept file gives.
pub open spec fn track_key(e: TrackEntry) -> u16 {
    if e.name is Some && track_index_of(e.name->0@) is Some {
        track_index_of(e.name->0@)->0
    } else {
        0
    }
}

pub open spec fn track_keys(entries: Seq<TrackEntry>) -> Seq<u16> {
    Seq::new(entries.len(), |i: int| track_key(entries[i]))
}

/// Positions of the kept files, in listing order.
pub open spec fn kept_tracks(entries: Seq<TrackEntry>) -> Seq<usize>
    decreases entries.len(),
{
    if entries.len() == 0 {
        Seq::empty()
    } else {
        let earlier = kept_tracks(entries.drop_last());
        if track_kept(entries.last()) {
            earlier.push((entries.len() - 1) as usize)
        } else {
            earlier
        }
    }
}

/// The positions of the kept files, ordered by index (stable).
pub open spec fn track_order(entries: Seq<TrackEntry>) -> Seq<usize> {
    stable_sort(kept_tracks(entries), by_u16_keys(track_keys(entries)))
}

/// A scanned track describes its file.
pub open spec fn track_describes(t: Track, e: TrackEntry) -> bool {
    &&& t.index == track_key(e)
    &&& e.name is Some && t.file_name@ == e.name->0@
    &&& t.path == e.path
    &&& t.label@ == default_track_label(t.index)
    &&& t.size_bytes == e.size_bytes
}

/// The tracks of a folder: its kept files, ordered by index.
pub open spec fn tracks_describe(tracks: Seq<Track>, entries: Seq<TrackEntry>) -> bool {
    &&& tracks.len() == track_order(entries).len()
    &&& forall|i: int|
        0 <= i < tracks.len() ==> track_describes(
            #[trigger] tracks[i],
            entries[track_order(entries)[i] as int],
        )
}

pub open spec fn has_format(entries: Seq<TrackEntry>, format: TrackFormat) -> bool {
    exists|i: int|
        0 <= i < entries.len() && track_kept(#[trigger] entries[i]) && track_format_of(
            entries[i].name->0@,
        ) == Some(format)
}

/// The warning of a figure folder about its `info` file: an unreadable
/// file; else an NFC code that is not the figure's; else a track count that
/// is not the number of tracks found.
pub open spec fn info_warning_of(info: InfoFile, track_count: nat, figure_id: Seq<char>) -> Option<
    Seq<char>,
> {
    match info {
        InfoFile::Absent => None,
        InfoFile::Unreadable => Some("Le fichier info est illisible."@),
        InfoFile::Parsed(total, dir) => {
            if !(dir is Some && dir->0@ == nfc_payload_of(figure_id)) {
                Some("Le code NFC du fichier info semble incohérent."@)
            } else if total != Some(track_count as u16) {
                Some("Le nombre de pistes ne correspond pas au fichier info."@)
            } else {
                None
            }
        },
    }
}

/// A root entry a scan keeps as a figure: a directory named `Kxxxx`.
pub open spec fn folder_kept(f: FolderEntry) -> bool {
    f.is_dir && f.name is Some && figure_folder_id(f.name->0@) is Some
}

pub open spec fn folder_key(f: FolderEntry) -> Seq<char> {
    if f.name is Some && figure_folder_id(f.name->0@) is Some {
        figure_folder_id(f.name->0@)->0
    } else {
        Seq::empty()
    }
}

pub open spec fn folder_keys(folders: Seq<FolderEntry>) -> Seq<Seq<char>> {
    Seq::new(folders.len(), |i: int| folder_key(folders[i]))
}

pub open spec fn kept_folders(folders: Seq<FolderEntry>) -> Seq<usize>
    decreases folders.len(),
{
    if folders.len() == 0 {
        Seq::empty()
    } else {
        let earlier = kept_folders(folders.drop_last());
        if folder_kept(folders.last()) {
            earlier.push((folders.len() - 1) as usize)
        } else {
            earlier
        }
    }
}

/// The positions of the figure folders, ordered by identifier (stable).
pub open spec fn figure_order(folders: Seq<FolderEntry>) -> Seq<usize> {
    stable_sort(kept_folders(folders), by_text_keys(folder_keys(folders)))
}

pub open spec fn text_option_is(value: Option<String>, expected: Option<Seq<char>>) -> bool {
    match (value, expected) {
        (Some(v), Some(e)) => v@ == e,
        (None, None) => true,
        _ => false,
    }
}

/// A scanned figure describes its folder.
pub open spec fn figure_describes(fig: Figure, f: FolderEntry) -> bool {
    let id = folder_key(f);
    &&& fig.id@ == id
    &&& f.name is Some && fig.folder_name@ == f.name->0@
    &&& fig.custom_name is None
    &&& fig.path == f.path
    &&& fig.nfc_payload@ == nfc_payload_of(id)
    &&& tracks_describe(fig.tracks@, f.tracks@)
    &&& fig.modified_at == f.modified_at
    &&& text_option_is(fig.warning, info_warning_of(f.info, fig.tracks@.len(), id))
}

/// A figure folder holding FABA+ content: a `.faba` track or an `info` file.
pub open spec fn folder_shows_plus(f: FolderEntry) -> bool {
    !(f.info is Absent) || has_format(f.tracks@, TrackFormat::Plus)
}

pub open spec fn saw_plus(folders: Seq<FolderEntry>) -> bool {
    exists|i: int| 0 <= i < folders.len() && folder_kept(#[trigger] folders[i]) && folder_shows_plus(folders[i])
}

pub open spec fn saw_legacy(folders: Seq<FolderEntry>) -> bool {
    exists|i: int|
        0 <= i < folders.len() && folder_kept(#[trigger] folders[i]) && has_format(
            folders[i].tracks@,
            TrackFormat::Legacy,
        )
}

/// Whether the content root is named exactly `MKI01`.
pub open spec fn root_named_mki01(p: CardProbe, root: ContentRoot) -> bool {
    match root {
        ContentRoot::Selected => p.selected_name is Some && p.selected_name->0@ == "MKI01"@,
        ContentRoot::Player(_) => false,
        ContentRoot::Legacy => true,
    }
}

/// The kind of a card: FABA+ when any figure shows FABA+ content; else
/// legacy when any shows legacy tracks or the root is `MKI01`; else empty
/// when it has no figure; else unknown.
pub open spec fn kind_of(folders: Seq<FolderEntry>, mki01: bool) -> CardKind {
    if saw_plus(folders) {
        CardKind::FabaPlus
    } else if saw_legacy(folders) || mki01 {
        CardKind::LegacyFaba
    } else if kept_folders(folders).len() == 0 {
        CardKind::Empty
    } else {
        CardKind::Unknown
    }
}

pub open spec fn legacy_warning() -> Seq<char> {
    "Ancien format FABA détecté : consultation uniquement dans cette version."@
}

pub open spec fn empty_warning() -> Seq<char> {
    "Aucun contenu FABA+ détecté. Ce dossier peut être initialisé avec votre première figurine."@
}

pub open spec fn misplaced_warning() -> Seq<char> {
    "Des dossiers Kxxxx ont été détectés à la racine de la carte. Sur FABA+, ils doivent être placés dans le dossier PLAYER."@
}

/// Figure folders lie beside the `PLAYER` folder that holds the content.
pub open spec fn misplaced_figures(p: CardProbe, root: ContentRoot) -> bool {
    root is Player && has_figure_dirs(p.children@)
}

/// The warnings of a scan, in order.
pub open spec fn warnings_of(kind: CardKind, misplaced: bool) -> Seq<Seq<char>> {
    (if kind == CardKind::LegacyFaba {
        seq![legacy_warning()]
    } else {
        Seq::empty()
    }) + (if kind == CardKind::Empty {
        seq![empty_warning()]
    } else {
        Seq::empty()
    }) + (if misplaced {
        seq![misplaced_warning()]
    } else {
        Seq::empty()
    })
}

/// A snapshot describes the listing of its content root.
pub open spec fn snapshot_describes(
    snapshot: CardSnapshot,
    p: CardProbe,
    root: ContentRoot,
    folders: Seq<FolderEntry>,
    root_readonly: bool,
) -> bool {
    let kind = kind_of(folders, root_named_mki01(p, root));
    &&& snapshot.root_path == content_root_path(p, root)
    &&& snapshot.kind == kind
    &&& snapshot.writable == (!root_readonly && kind != CardKind::LegacyFaba)
    &&& snapshot.figures@.len() == figure_order(folders).len()
    &&& forall|i: int|
        0 <= i < snapshot.figures@.len() ==> figure_describes(
            #[trigger] snapshot.figures@[i],
            folders[figure_order(folders)[i] as int],
        )
    &&& snapshot.warnings@.len() == warnings_of(kind, misplaced_figures(p, root)).len()
    &&& forall|i: int|
        0 <= i < snapshot.warnings@.len() ==> #[trigger] snapshot.warnings@[i]@ == warnings_of(
            kind,
            misplaced_figures(p, root),
        )[i]
}

/// The tracks of a figure folder, and whether it holds `.faba` and legacy tracks.
pub fn scan_tracks(entries: &Vec<TrackEntry>) -> (result: (Vec<Track>, bool, bool))
    ensures
        tracks_describe(result.0@, entries@),
        result.1 == has_format(entries@, TrackFormat::Plus),
        result.2 == has_format(entries@, TrackFormat::Legacy),
{
    let mut keys: Vec<u16> = Vec::new();
    let mut kept: Vec<usize> = Vec::new();
    let mut plus = false;
    let mut legacy = false;
    let mut i: usize = 0;
    while i < entries.len()
        invariant
            0 <= i <= entries.len(),
            keys@.len() == i,
            forall|j: int| 0 <= j < i ==> keys@[j] == track_key(#[trigger] entries@[j]),
            kept@ == kept_tracks(entries@.take(i as int)),
            forall|j: int| 0 <= j < kept@.len() ==> #[trigger] kept@[j] < i,
            plus == exists|j: int|
                0 <= j < i && track_kept(#[trigger] entries@[j]) && track_format_of(
                    entries@[j].name->0@,
                ) == Some(TrackFormat::Plus),
            legacy == exists|j: int|
                0 <= j < i && track_kept(#[trigger] entries@[j]) && track_format_of(
                    entries@[j].name->0@,
                ) == Some(TrackFormat::Legacy),
        decreases entries.len() - i,
    {
        let e = &entries[i];
        let mut key: u16 = 0;
        let mut keep = false;
        if let Some(n) = &e.name {
            if let Some(index) = parse_track_index(n.as_str()) {
                key = index;
                if e.is_file {
                    match track_format(n.as_str()) {
                        Some(TrackFormat::Plus) => {
                            keep = true;
                            plus = true;
                        },
                        Some(TrackFormat::Legacy) => {
                            keep = true;
                            legacy = true;
                        },
                        None => {},
                    }
                }
            }
        }
        assert(keep == track_kept(entries@[i as int]));
        assert(key == track_key(entries@[i as int]));
        keys.push(key);
        assert(entries@.take(i + 1).drop_last() =~= entries@.take(i as int));
        assert(entries@.take(i + 1).last() == entries@[i as int]);
        if keep {
            kept.push(i);
        }
        i += 1;
    }
    assert(entries@.take(entries@.len() as int) =~= entries@);
    assert(keys@ =~= track_keys(entries@));
    let order = sort_by_u16(&kept, &keys);
    let mut tracks: Vec<Track> = Vec::new();
    let mut k: usize = 0;
    proof {
        crate::order::lemma_stable_sort_len(kept@, by_u16_keys(keys@));
        crate::order::lemma_stable_sort_members(kept@, by_u16_keys(keys@));
        lemma_kept_tracks_kept(entries@);
    }
    while k < order.len()
        invariant
            0 <= k <= order.len(),
            order@ == track_order(entries@),
            forall|j: int| 0 <= j < order@.len() ==> kept@.contains(#[trigger] order@[j]),
            kept@ == kept_tracks(entries@),
            forall|j: int|
                0 <= j < kept@.len() ==> #[trigger] kept@[j] < entries@.len() && track_kept(
                    entries@[kept@[j] as int],
                ),
            tracks@.len() == k,
            forall|j: int|
                0 <= j < k ==> track_describes(#[trigger] tracks@[j], entries@[order@[j] as int]),
        decreases order.len() - k,
    {
        let p = order[k];
        assert(kept@.contains(p));
        let e = &entries[p];
        let name = match &e.name {
            Some(n) => n.clone(),
            None => {
                assert(false);
                String::new()
            },
        };
        let index = match parse_track_index(name.as_str()) {
            Some(x) => x,
            None => {
                assert(false);
                0
            },
        };
        let label = default_label(index);
        tracks.push(Track { index, file_name: name, path: e.path.clone(), label, size_bytes: e.size_bytes });
        k += 1;
    }
    (tracks, plus, legacy)
}

proof fn lemma_kept_tracks_kept(entries: Seq<TrackEntry>)
    requires
        entries.len() <= usize::MAX,
    ensures
        forall|j: int|
            0 <= j < kept_tracks(entries).len() ==> #[trigger] kept_tracks(entries)[j]
                < entries.len() && track_kept(entries[kept_tracks(entries)[j] as int]),
    decreases entries.len(),
{
    if entries.len() > 0 {
        lemma_kept_tracks_kept(entries.drop_last());
        assert forall|j: int| 0 <= j < kept_tracks(entries).len() implies #[trigger] kept_tracks(
            entries,
        )[j] < entries.len() && track_kept(entries[kept_tracks(entries)[j] as int]) by {
            let earlier = kept_tracks(entries.drop_last());
            if j < earlier.len() {
                assert(kept_tracks(entries)[j] == earlier[j]);
                assert(entries.drop_last()[earlier[j] as int] == entries[earlier[j] as int]);
            } else {
                assert(kept_tracks(entries)[j] == (entries.len() - 1) as usize);
                assert(track_kept(entries.last()));
            }
        }
    }
}

/// The warning a figure folder shows about its `info` file.
pub fn info_warning(info: &InfoFile, track_count: usize, figure_id: &str) -> (warning: Option<String>)
    ensures
        text_option_is(warning, info_warning_of(*info, track_count as nat, figure_id@)),
{
    match info {
        InfoFile::Absent => None,
        InfoFile::Unreadable => Some(owned("Le fichier info est illisible.")),
        InfoFile::Parsed(total, dir) => {
            let expected = nfc_payload(figure_id);
            let dir_ok = match dir {
                Some(d) => same_text(d.as_str(), expected.as_str()),
                None => false,
            };
            if !dir_ok {
                Some(owned("Le code NFC du fichier info semble incohérent."))
            } else if *total != Some(track_count as u16) {
                Some(owned("Le nombre de pistes ne correspond pas au fichier info."))
            } else {
                None
            }
        },
    }
}

/// A copy of an optional text.
pub fn copy_text_option(value: &Option<String>) -> (copy: Option<String>)
    ensures
        copy == *value,
{
    match value {
        Some(v) => Some(v.clone()),
        None => None,
    }
}

proof fn lemma_kept_folders_kept(folders: Seq<FolderEntry>)
    requires
        folders.len() <= usize::MAX,
    ensures
        forall|j: int|
            0 <= j < kept_folders(folders).len() ==> #[trigger] kept_folders(folders)[j]
                < folders.len() && folder_kept(folders[kept_folders(folders)[j] as int]),
    decreases folders.len(),
{
    if folders.len() > 0 {
        lemma_kept_folders_kept(folders.drop_last());
        assert forall|j: int| 0 <= j < kept_folders(folders).len() implies #[trigger] kept_folders(
            folders,
        )[j] < folders.len() && folder_kept(folders[kept_folders(folders)[j] as int]) by {
            let earlier = kept_folders(folders.drop_last());
            if j < earlier.len() {
                assert(kept_folders(folders)[j] == earlier[j]);
                assert(folders.drop_last()[earlier[j] as int] == folders[earlier[j] as int]);
            } else {
                assert(kept_folders(folders)[j] == (folders.len() - 1) as usize);
                assert(folder_kept(folders.last()));
            }
        }
    }
}

/// The figure a kept folder holds.
fn scan_figure(f: &FolderEntry) -> (figure: Figure)
    requires
        folder_kept(*f),
    ensures
        figure_describes(figure, *f),
{
    let name = match &f.name {
        Some(n) => n.clone(),
        None => {
            assert(false);
            String::new()
        },
    };
    let id = match parse_figure_folder(name.as_str()) {
        Some(id) => id,
        None => {
            assert(false);
            String::new()
        },
    };
    let (tracks, _, _) = scan_tracks(&f.tracks);
    let warning = info_warning(&f.info, tracks.len(), id.as_str());
    let nfc = nfc_payload(id.as_str());
    Figure {
        id,
        folder_name: name,
        custom_name: None,
        path: f.path.clone(),
        nfc_payload: nfc,
        tracks,
        modified_at: copy_text_option(&f.modified_at),
        warning,
    }
}

/// The snapshot of a card from the listing of its content root: figure
/// folders ordered by identifier, their tracks ordered by index, the card
/// kind, whether it may be written, and the warnings to show.
pub fn build_snapshot(
    probe: &CardProbe,
    root: ContentRoot,
    folders: &Vec<FolderEntry>,
    root_readonly: bool,
) -> (snapshot: CardSnapshot)
    requires
        root matches ContentRoot::Player(i) ==> i < probe.children@.len(),
    ensures
        snapshot_describes(snapshot, *probe, root, folders@, root_readonly),
{
    let mut keys: Vec<Vec<char>> = Vec::new();
    let mut kept: Vec<usize> = Vec::new();
    let mut plus = false;
    let mut legacy = false;
    let mut i: usize = 0;
    while i < folders.len()
        invariant
            0 <= i <= folders.len(),
            keys@.len() == i,
            forall|j: int| 0 <= j < i ==> #[trigger] keys@[j]@ == folder_key(folders@[j]),
            kept@ == kept_folders(folders@.take(i as int)),
            plus == exists|j: int|
                0 <= j < i && folder_kept(#[trigger] folders@[j]) && folder_shows_plus(folders@[j]),
            legacy == exists|j: int|
                0 <= j < i && folder_kept(#[trigger] folders@[j]) && has_format(
                    folders@[j].tracks@,
                    TrackFormat::Legacy,
                ),
        decreases folders.len() - i,
    {
        let f = &folders[i];
        let mut key: Vec<char> = Vec::new();
        let mut keep = false;
        if f.is_dir {
            if let Some(n) = &f.name {
                if let Some(id) = parse_figure_folder(n.as_str()) {
                    key = crate::text::chars_of(id.as_str());
                    keep = true;
                    let (_, p, l) = scan_tracks(&f.tracks);
                    let info_present = match f.info {
                        InfoFile::Absent => false,
                        _ => true,
                    };
                    if p || info_present {
                        plus = true;
                    }
                    if l {
                        legacy = true;
                    }
                }
            }
        }
        if !keep {
            if let Some(n) = &f.name {
                if let Some(id) = parse_figure_folder(n.as_str()) {
                    key = crate::text::chars_of(id.as_str());
                }
            }
        }
        assert(keep == folder_kept(folders@[i as int]));
        assert(key@ == folder_key(folders@[i as int]));
        keys.push(key);
        assert(folders@.take(i + 1).drop_last() =~= folders@.take(i as int));
        assert(folders@.take(i + 1).last() == folders@[i as int]);
        if keep {
            kept.push(i);
        }
        i += 1;
    }
    assert(folders@.take(folders@.len() as int) =~= folders@);
    assert(keys@.map_values(|k: Vec<char>| k@) =~= folder_keys(folders@));
    proof {
        lemma_kept_folders_kept(folders@);
    }
    let order = sort_by_text(&kept, &keys);
    proof {
        crate::order::lemma_stable_sort_members(kept@, by_text_keys(folder_keys(folders@)));
    }
    let mut figures: Vec<Figure> = Vec::new();
    let mut k: usize = 0;
    while k < order.len()
        invariant
            0 <= k <= order.len(),
            order@ == figure_order(folders@),
            forall|j: int| 0 <= j < order@.len() ==> kept@.contains(#[trigger] order@[j]),
            kept@ == kept_folders(folders@),
            forall|j: int|
                0 <= j < kept@.len() ==> #[trigger] kept@[j] < folders@.len() && folder_kept(
                    folders@[kept@[j] as int],
                ),
            figures@.len() == k,
            forall|j: int|
                0 <= j < k ==> figure_describes(#[trigger] figures@[j], folders@[order@[j] as int]),
        decreases order.len() - k,
    {
        let p = order[k];
        assert(kept@.contains(p));
        figures.push(scan_figure(&folders[p]));
        k += 1;
    }
    let mki01 = match root {
        ContentRoot::Selected => match &probe.selected_name {
            Some(n) => same_text(n.as_str(), "MKI01"),
            None => false,
        },
        ContentRoot::Player(_) => false,
        ContentRoot::Legacy => true,
    };
    let kind = if plus {
        CardKind::FabaPlus
    } else if legacy || mki01 {
        CardKind::LegacyFaba
    } else if kept.len() == 0 {
        CardKind::Empty
    } else {
        CardKind::Unknown
    };
    let misplaced = match root {
        ContentRoot::Player(_) => has_figure_folders(&probe.children),
        _ => false,
    };
    let mut warnings: Vec<String> = Vec::new();
    if kind == CardKind::LegacyFaba {
        warnings.push(owned("Ancien format FABA détecté : consultation uniquement dans cette version."));
    }
    if kind == CardKind::Empty {
        warnings.push(owned("Aucun contenu FABA+ détecté. Ce dossier peut être initialisé avec votre première figurine."));
    }
    if misplaced {
        warnings.push(owned("Des dossiers Kxxxx ont été détectés à la racine de la carte. Sur FABA+, ils doivent être placés dans le dossier PLAYER."));
    }
    proof {
        let w = warnings_of(kind, misplaced);
        assert(warnings@.len() == w.len());
        assert forall|j: int| 0 <= j < warnings@.len() implies #[trigger] warnings@[j]@ == w[j] by {
            if kind == CardKind::LegacyFaba {
                assert(w =~= seq![legacy_warning()] + Seq::<Seq<char>>::empty() + (if misplaced {
                    seq![misplaced_warning()]
                } else {
                    Seq::empty()
                }));
            } else if kind == CardKind::Empty {
                assert(w =~= Seq::<Seq<char>>::empty() + seq![empty_warning()] + (if misplaced {
                    seq![misplaced_warning()]
                } else {
                    Seq::empty()
                }));
            } else {
                assert(w =~= Seq::<Seq<char>>::empty() + Seq::<Seq<char>>::empty() + (if misplaced {
                    seq![misplaced_warning()]
                } else {
                    Seq::empty()
                }));
            }
        }
    }
    CardSnapshot {
        root_path: root_path(probe, root),
        kind,
        writable: !root_readonly && kind != CardKind::LegacyFaba,
        figures,
        warnings,
    }
}

// ---------------------------------------------------------------------------
// Which cards may be written
// ---------------------------------------------------------------------------

/// Refuses cards that may not be written: legacy cards, unknown formats,
/// read-only cards.
pub fn ensure_editable(snapshot: &CardSnapshot) -> (result: Result<(), EditorError>)
    ensures
        snapshot.kind == CardKind::LegacyFaba ==> result matches Err(EditorError::LegacyReadOnly),
        snapshot.kind == CardKind::Unknown ==> result matches Err(EditorError::UnknownFormat),
        (snapshot.kind == CardKind::FabaPlus || snapshot.kind == CardKind::Empty) ==> (if snapshot.writable {
            result is Ok
        } else {
            result matches Err(EditorError::ReadOnly)
        }),
{
    match snapshot.kind {
        CardKind::LegacyFaba => Err(EditorError::LegacyReadOnly),
        CardKind::Unknown => Err(EditorError::UnknownFormat),
        _ => {
            if !snapshot.writable {
                Err(EditorError::ReadOnly)
            } else {
                Ok(())
            }
        },
    }
}

/// The first figure of a snapshot with identifier `figure_id`.
pub fn require_figure<'a>(snapshot: &'a CardSnapshot, figure_id: &str) -> (result: Result<
    &'a Figure,
    EditorError,
>)
    ensures
        match result {
            Ok(figure) => exists|i: int|
                0 <= i < snapshot.figures@.len() && snapshot.figures@[i] == *figure
                    && figure.id@ == figure_id@ && forall|j: int|
                    0 <= j < i ==> #[trigger] snapshot.figures@[j].id@ != figure_id@,
            Err(error) => error matches EditorError::FigureNotFound && forall|j: int|
                0 <= j < snapshot.figures@.len() ==> #[trigger] snapshot.figures@[j].id@
                    != figure_id@,
        },
{
    let mut i: usize = 0;
    while i < snapshot.figures.len()
        invariant
            0 <= i <= snapshot.figures@.len(),
            forall|j: int| 0 <= j < i ==> #[trigger] snapshot.figures@[j].id@ != figure_id@,
        decreases snapshot.figures.len() - i,
    {
        if same_text(snapshot.figures[i].id.as_str(), figure_id) {
            return Ok(&snapshot.figures[i]);
        }
        i += 1;
    }
    Err(EditorError::FigureNotFound)
}

/// Whether a snapshot holds a figure with identifier `figure_id`.
pub fn has_figure(snapshot: &CardSnapshot, figure_id: &str) -> (result: bool)
    ensures
        result == exists|j: int|
            0 <= j < snapshot.figures@.len() && #[trigger] snapshot.figures@[j].id@ == figure_id@,
{
    require_figure(snapshot, figure_id).is_ok()
}

// ---------------------------------------------------------------------------
// Writing a figure
// ---------------------------------------------------------------------------

/// An audio file chosen for a figure.
pub struct AudioSource {
    /// The path, as shown to the user.
    pub path: String,
    /// The last component of the path, when it is valid UTF-8.
    pub file_name: Option<String>,
    pub is_file: bool,
}

/// One track to copy onto the card.
pub struct TrackCopy {
    /// The audio file to copy.
    pub source: String,
    /// The name of the copy inside the figure folder.
    pub target_name: String,
    /// The ID3v2 title the copy receives.
    pub title: String,
}

/// The steps of writing a figure: copies into a staging folder, the `info`
/// file, then the staging folder takes the figure's name, the old folder
/// (backed up first) set aside under `previous_name` until that succeeds.
pub struct FigureWritePlan {
    pub folder_name: String,
    pub staging_name: String,
    pub previous_name: String,
    /// Whether the figure folder exists and is backed up first.
    pub backup_first: bool,
    pub copies: Vec<TrackCopy>,
    /// The content of the `info` file.
    pub info: String,
}

/// An MP3 file name: its extension is `mp3` in any case.
pub open spec fn is_mp3_name(name: Option<String>) -> bool {
    name is Some && extension_of(name->0@) is Some && eq_ignore_ascii_case(
        extension_of(name->0@)->0,
        "mp3"@,
    )
}

/// The name of track `index` on the card: `{index:02}.faba`.
pub open spec fn track_file_name(index: nat) -> Seq<char> {
    two_digits(index) + ".faba"@
}

/// The title of track `index`: `K<id>CP<index + 1>`, the number on two digits.
pub open spec fn track_title(figure_id: Seq<char>, index: nat) -> Seq<char> {
    seq!['K'] + figure_id + "CP"@ + two_digits(index + 1)
}

/// The `info` file of a figure: `characterDir` (its NFC payload) and
/// `totalTracks`, keys in that order, no spaces.
pub open spec fn info_document_of(figure_id: Seq<char>, total_tracks: nat) -> Seq<char> {
    "{\"characterDir\":\""@ + nfc_payload_of(figure_id) + "\",\"totalTracks\":"@ + decimal(total_tracks) + "}"@
}

/// The first refused audio file: missing, or not MP3.
pub open spec fn audio_refused(audio: Seq<AudioSource>, i: int) -> bool {
    !audio[i].is_file || !is_mp3_name(audio[i].file_name)
}

/// The checks a figure write makes, in order, and the error of the first one
/// that fails.
pub open spec fn write_refusal(
    figure_id: Seq<char>,
    audio: Seq<AudioSource>,
    root_is_dir: bool,
) -> Option<EditorError> {
    if !is_card_id(figure_id) {
        Some(EditorError::InvalidFigureId)
    } else if !is_custom_id(figure_id) {
        Some(EditorError::ReservedFigureId)
    } else if audio.len() == 0 || audio.len() > 99 {
        Some(EditorError::FigureTrackCount)
    } else if exists|i: int| 0 <= i < audio.len() && #[trigger] audio_refused(audio, i) {
        let i = choose|i: int|
            0 <= i < audio.len() && #[trigger] audio_refused(audio, i) && forall|j: int|
                0 <= j < i ==> !#[trigger] audio_refused(audio, j);
        if !audio[i].is_file {
            Some(EditorError::AudioMissing(audio[i].path))
        } else {
            Some(EditorError::NotMp3(audio[i].path))
        }
    } else if !root_is_dir {
        Some(EditorError::CardUnavailable)
    } else {
        None
    }
}

/// The `info` file of a figure.
pub fn info_document(figure_id: &str, total_tracks: usize) -> (text: String)
    ensures
        text@ == info_document_of(figure_id@, total_tracks as nat),
{
    let mut s = owned("{\"characterDir\":\"");
    let nfc = nfc_payload(figure_id);
    append_str(&mut s, nfc.as_str());
    append_str(&mut s, "\",\"totalTracks\":");
    push_decimal(&mut s, total_tracks as u128);
    append_str(&mut s, "}");
    s
}

/// The name of track `index` on the card.
pub fn track_file(index: usize) -> (name: String)
    ensures
        name@ == track_file_name(index as nat),
{
    let mut s = String::new();
    push_two_digits(&mut s, index as u128);
    append_str(&mut s, ".faba");
    assert(s@ =~= track_file_name(index as nat));
    s
}

/// The title of track `index` of a figure.
pub fn title_of(figure_id: &str, index: usize) -> (title: String)
    ensures
        title@ == track_title(figure_id@, index as nat),
{
    let mut s = String::new();
    push_char_k(&mut s);
    append_str(&mut s, figure_id);
    append_str(&mut s, "CP");
    push_two_digits(&mut s, index as u128 + 1);
    assert(s@ =~= track_title(figure_id@, index as nat));
    s
}

fn push_char_k(s: &mut String)
    ensures
        final(s)@ == old(s)@.push('K'),
{
    crate::text::push_char(s, 'K');
}

fn is_mp3(name: &Option<String>) -> (result: bool)
    ensures
        result == is_mp3_name(*name),
{
    match name {
        Some(n) => match extension(n.as_str()) {
            Some(e) => equals_ignore_ascii_case(e.as_str(), "mp3"),
            None => false,
        },
        None => false,
    }
}

/// `.{folder}-{tag}-{nonce}`: the hidden names a write, a replacement or a
/// deletion sets folders aside under.
pub fn hidden_name(prefix: &str, folder: &str, tag: &str, nonce: u128) -> (name: String)
    ensures
        name@ == prefix@ + folder@ + tag@ + decimal(nonce as nat),
{
    let mut s = owned(prefix);
    append_str(&mut s, folder);
    append_str(&mut s, tag);
    push_decimal(&mut s, nonce);
    s
}

/// Checks a figure write and lays out its steps. The identifier must be a
/// custom one, the figure takes 1 to 99 existing MP3 files, and the card
/// must still be there.
pub fn write_faba_plus_figure(
    figure_id: &str,
    audio: &Vec<AudioSource>,
    root_is_dir: bool,
    destination_exists: bool,
    nonce: u128,
) -> (result: Result<FigureWritePlan, EditorError>)
    ensures
        match write_refusal(figure_id@, audio@, root_is_dir) {
            Some(error) => result is Err && result->Err_0 == error,
            None => result is Ok,
        },
        result matches Ok(plan) ==> {
            &&& plan.folder_name@ == folder_name_of(figure_id@)
            &&& plan.staging_name@ == ".faba-editor-"@ + folder_name_of(figure_id@) + "-"@
                + decimal(nonce as nat)
            &&& plan.previous_name@ == "."@ + folder_name_of(figure_id@) + "-previous-"@
                + decimal(nonce as nat)
            &&& plan.backup_first == destination_exists
            &&& plan.copies@.len() == audio@.len()
            &&& forall|i: int|
                0 <= i < audio@.len() ==> {
                    &&& #[trigger] plan.copies@[i].source == audio@[i].path
                    &&& plan.copies@[i].target_name@ == track_file_name(i as nat)
                    &&& plan.copies@[i].title@ == track_title(figure_id@, i as nat)
                }
            &&& plan.info@ == info_document_of(figure_id@, audio@.len() as nat)
        },
{
    validate_custom_figure_id(figure_id)?;
    if audio.len() == 0 || audio.len() > 99 {
        return Err(EditorError::FigureTrackCount);
    }
    let mut i: usize = 0;
    while i < audio.len()
        invariant
            0 <= i <= audio@.len(),
            1 <= audio@.len() <= 99,
            is_custom_id(figure_id@),
            is_card_id(figure_id@),
            forall|j: int| 0 <= j < i ==> !#[trigger] audio_refused(audio@, j),
        decreases audio.len() - i,
    {
        if !audio[i].is_file || !is_mp3(&audio[i].file_name) {
            assert(audio_refused(audio@, i as int));
            proof {
                let c = choose|c: int|
                    0 <= c < audio@.len() && #[trigger] audio_refused(audio@, c) && forall|j: int|
                        0 <= j < c ==> !#[trigger] audio_refused(audio@, j);
                assert(0 <= c < audio@.len() && audio_refused(audio@, c) && forall|j: int|
                    0 <= j < c ==> !#[trigger] audio_refused(audio@, j));
                if c < i {
                } else if c > i {
                    assert(!audio_refused(audio@, i as int));
                }
                assert(c == i);
            }
            if !audio[i].is_file {
                return Err(EditorError::AudioMissing(audio[i].path.clone()));
            }
            return Err(EditorError::NotMp3(audio[i].path.clone()));
        }
        i += 1;
    }
    if !root_is_dir {
        return Err(EditorError::CardUnavailable);
    }
    let folder = folder_name(figure_id);
    let mut copies: Vec<TrackCopy> = Vec::new();
    let mut k: usize = 0;
    while k < audio.len()
        invariant
            0 <= k <= audio@.len(),
            copies@.len() == k,
            forall|j: int|
                0 <= j < k ==> {
                    &&& #[trigger] copies@[j].source == audio@[j].path
                    &&& copies@[j].target_name@ == track_file_name(j as nat)
                    &&& copies@[j].title@ == track_title(figure_id@, j as nat)
                },
        decreases audio.len() - k,
    {
        copies.push(TrackCopy {
            source: audio[k].path.clone(),
            target_name: track_file(k),
            title: title_of(figure_id, k),
        });
        k += 1;
    }
    Ok(FigureWritePlan {
        staging_name: hidden_name(".faba-editor-", folder.as_str(), "-", nonce),
        previous_name: hidden_name(".", folder.as_str(), "-previous-", nonce),
        folder_name: folder,
        backup_first: destination_exists,
        copies,
        info: info_document(figure_id, audio.len()),
    })
}

/// The length a file takes once its trailing ID3v1 tag (the last 128 bytes,
/// starting with `TAG`) is cut, when it has one. `marker` holds the three
/// bytes at `length - 128`, read only when the file is that long.
pub open spec fn id3v1_cut_of(length: u64, marker: Option<[u8; 3]>) -> Option<u64> {
    if length >= 128 && (marker matches Some(m) && m@ == seq![0x54u8, 0x41u8, 0x47u8]) {
        Some((length - 128) as u64)
    } else {
        None
    }
}

/// The length to cut a track file to, to drop its ID3v1 tag.
pub fn id3v1_cut(length: u64, marker: Option<[u8; 3]>) -> (result: Option<u64>)
    ensures
        result == id3v1_cut_of(length, marker),
{
    if length < 128 {
        return None;
    }
    match marker {
        Some(m) => {
            if m[0] == 0x54 && m[1] == 0x41 && m[2] == 0x47 {
                assert(m@ =~= seq![0x54u8, 0x41u8, 0x47u8]);
                Some(length - 128)
            } else {
                None
            }
        },
        None => None,
    }
}

/// The name a backup of a figure folder starts from: the folder name and the
/// current UTC time (`%Y%m%d-%H%M%S`).
pub fn backup_base_name(folder: &str) -> (name: String)
    ensures
        exists|stamp: Seq<char>| crate::digest::is_compact_stamp(stamp) && name@ == folder@ + "-"@ + stamp,
{
    let stamp = crate::digest::now_compact_stamp();
    let mut s = owned(folder);
    append_str(&mut s, "-");
    append_str(&mut s, stamp.as_str());
    s
}

/// Candidate `attempt` for a free name beside others: the base name, then
/// the base name with `-2` to `-9999`, then with a time-based nonce.
pub open spec fn candidate_name_of(base: Seq<char>, attempt: nat, nonce: nat) -> Seq<char> {
    if attempt == 0 {
        base
    } else if attempt <= 9998 {
        base + "-"@ + decimal(attempt + 1)
    } else {
        base + "-"@ + decimal(nonce)
    }
}

/// Candidate `attempt` for a free name beside others.
pub fn candidate_name(base: &str, attempt: u32, nonce: u128) -> (name: String)
    ensures
        name@ == candidate_name_of(base@, attempt as nat, nonce as nat),
{
    if attempt == 0 {
        return owned(base);
    }
    let mut s = owned(base);
    append_str(&mut s, "-");
    if attempt <= 9998 {
        push_decimal(&mut s, attempt as u128 + 1);
    } else {
        push_decimal(&mut s, nonce);
    }
    s
}

/// The texts of `names`.
pub open spec fn name_views(names: Seq<String>) -> Seq<Seq<char>> {
    names.map_values(|n: String| n@)
}

/// Candidate `k` is the one chosen beside the entries `taken`: every earlier
/// candidate is taken, and so is this one only when it is the last resort
/// (attempt 9999, named with the nonce).
pub open spec fn first_free_attempt(base: Seq<char>, taken: Seq<Seq<char>>, nonce: nat, k: nat) -> bool {
    &&& k <= 9999
    &&& (k < 9999 ==> !taken.contains(candidate_name_of(base, k, nonce)))
    &&& forall|j: nat| j < k ==> taken.contains(#[trigger] candidate_name_of(base, j, nonce))
}

/// The name chosen beside the entries `taken`.
pub open spec fn free_name_of(base: Seq<char>, taken: Seq<Seq<char>>, nonce: nat, name: Seq<char>) -> bool {
    exists|k: nat| first_free_attempt(base, taken, nonce, k) && name == candidate_name_of(base, k, nonce)
}

/// Whether `names` holds `name`.
fn listed(names: &Vec<String>, name: &str) -> (result: bool)
    ensures
        result == name_views(names@).contains(name@),
{
    let mut i: usize = 0;
    while i < names.len()
        invariant
            0 <= i <= names.len(),
            forall|j: int| 0 <= j < i ==> names@[j]@ != name@,
        decreases names.len() - i,
    {
        if crate::text::same_text(names[i].as_str(), name) {
            assert(name_views(names@)[i as int] == name@);
            return true;
        }
        i += 1;
    }
    assert forall|j: int| 0 <= j < name_views(names@).len() implies name_views(names@)[j] != name@ by {
        assert(name_views(names@)[j] == names@[j]@);
    }
    false
}

/// The first free name from `base` beside the entries `taken` of a folder:
/// `base`, then `base-2` to `base-9999`, then `base-<nonce>`.
pub fn free_name(base: &str, taken: &Vec<String>, nonce: u128) -> (name: String)
    ensures
        free_name_of(base@, name_views(taken@), nonce as nat, name@),
{
    let ghost t = name_views(taken@);
    let mut attempt: u32 = 0;
    while attempt < 9999
        invariant
            attempt <= 9999,
            t == name_views(taken@),
            forall|j: nat| j < attempt ==> t.contains(#[trigger] candidate_name_of(base@, j, nonce as nat)),
        decreases 9999 - attempt,
    {
        let name = candidate_name(base, attempt, nonce);
        if !listed(taken, name.as_str()) {
            assert(first_free_attempt(base@, t, nonce as nat, attempt as nat));
            return name;
        }
        attempt += 1;
    }
    let name = candidate_name(base, 9999, nonce);
    assert(first_free_attempt(base@, t, nonce as nat, 9999));
    name
}

/// What deleting a figure does: the folder is backed up, renamed to a
/// hidden tombstone, then removed.
pub struct FigureDeletePlan {
    pub folder_name: String,
    pub tombstone_name: String,
}

/// Checks a figure deletion: a card identifier whose folder is on the card.
pub fn delete_faba_plus_figure(figure_id: &str, folder_is_dir: bool, nonce: u128) -> (result: Result<
    FigureDeletePlan,
    EditorError,
>)
    ensures
        !is_card_id(figure_id@) ==> result matches Err(EditorError::InvalidFigureId),
        is_card_id(figure_id@) && !folder_is_dir ==> result matches Err(EditorError::FigureGone),
        is_card_id(figure_id@) && folder_is_dir ==> (result matches Ok(plan) && plan.folder_name@
            == folder_name_of(figure_id@) && plan.tombstone_name@ == "."@ + folder_name_of(
            figure_id@,
        ) + "-deleted-"@ + decimal(nonce as nat)),
{
    validate_figure_id(figure_id)?;
    if !folder_is_dir {
        return Err(EditorError::FigureGone);
    }
    let folder = folder_name(figure_id);
    let tombstone = hidden_name(".", folder.as_str(), "-deleted-", nonce);
    Ok(FigureDeletePlan { folder_name: folder, tombstone_name: tombstone })
}

/// Checks a figure export: a card identifier, an existing export folder, and
/// the figure folder on the card. The copy is named after the folder, with
/// the first free suffix beside the entries `existing` of the export folder.
pub fn export_figure(
    figure_id: &str,
    destination_is_dir: bool,
    source_is_dir: bool,
    existing: &Vec<String>,
    nonce: u128,
) -> (result: Result<String, EditorError>)
    ensures
        !is_card_id(figure_id@) ==> result matches Err(EditorError::InvalidFigureId),
        is_card_id(figure_id@) && !destination_is_dir ==> result matches Err(
            EditorError::ExportFolderMissing,
        ),
        is_card_id(figure_id@) && destination_is_dir && !source_is_dir ==> result matches Err(
            EditorError::FigureGone,
        ),
        is_card_id(figure_id@) && destination_is_dir && source_is_dir ==> (result matches Ok(name)
            && free_name_of(folder_name_of(figure_id@), name_views(existing@), nonce as nat, name@)),
{
    validate_figure_id(figure_id)?;
    if !destination_is_dir {
        return Err(EditorError::ExportFolderMissing);
    }
    if !source_is_dir {
        return Err(EditorError::FigureGone);
    }
    let folder = folder_name(figure_id);
    Ok(free_name(folder.as_str(), existing, nonce))
}

// ---------------------------------------------------------------------------
// Laws
// ---------------------------------------------------------------------------

proof fn lemma_digit_round_trip(d: nat)
    requires
        d < 10,
    ensures
        crate::text::digit_value(crate::text::digit_char(d)) == d,
        crate::text::is_ascii_digit(crate::text::digit_char(d)),
{
}

/// The positions a scan keeps are in order: folders by identifier, files by index.
pub proof fn lemma_scan_orders_sorted(folders: Seq<FolderEntry>, entries: Seq<TrackEntry>)
    requires
        folders.len() <= usize::MAX,
        entries.len() <= usize::MAX,
    ensures
        forall|i: int, j: int|
            0 <= i < j < figure_order(folders).len() ==> !lex_less(
                folder_key(folders[#[trigger] figure_order(folders)[j] as int]),
                folder_key(folders[#[trigger] figure_order(folders)[i] as int]),
            ),
        forall|i: int, j: int|
            0 <= i < j < track_order(entries).len() ==> track_key(entries[#[trigger] track_order(entries)[i] as int])
                <= track_key(entries[#[trigger] track_order(entries)[j] as int]),
{
    let fo = figure_order(folders);
    let fk = folder_keys(folders);
    crate::order::lemma_text_keys_strict(fk);
    crate::order::lemma_stable_sort_sorted(kept_folders(folders), by_text_keys(fk));
    crate::order::lemma_stable_sort_members(kept_folders(folders), by_text_keys(fk));
    lemma_kept_folders_kept(folders);
    assert forall|i: int, j: int| 0 <= i < j < fo.len() implies !lex_less(
        folder_key(folders[#[trigger] fo[j] as int]),
        folder_key(folders[#[trigger] fo[i] as int]),
    ) by {
        assert(!by_text_keys(fk)(fo[j], fo[i]));
        assert(kept_folders(folders).contains(fo[i]));
        assert(kept_folders(folders).contains(fo[j]));
        let a = choose|a: int| 0 <= a < kept_folders(folders).len() && kept_folders(folders)[a] == fo[i];
        let b = choose|b: int| 0 <= b < kept_folders(folders).len() && kept_folders(folders)[b] == fo[j];
        assert(fo[i] < folders.len() && fo[j] < folders.len());
    }
    let to = track_order(entries);
    let tk = track_keys(entries);
    crate::order::lemma_u16_keys_strict(tk);
    crate::order::lemma_stable_sort_sorted(kept_tracks(entries), by_u16_keys(tk));
    crate::order::lemma_stable_sort_members(kept_tracks(entries), by_u16_keys(tk));
    lemma_kept_tracks_kept(entries);
    assert forall|i: int, j: int| 0 <= i < j < to.len() implies track_key(entries[#[trigger] to[i] as int])
        <= track_key(entries[#[trigger] to[j] as int]) by {
        assert(!by_u16_keys(tk)(to[j], to[i]));
        assert(kept_tracks(entries).contains(to[i]));
        assert(kept_tracks(entries).contains(to[j]));
        let a = choose|a: int| 0 <= a < kept_tracks(entries).len() && kept_tracks(entries)[a] == to[i];
        let b = choose|b: int| 0 <= b < kept_tracks(entries).len() && kept_tracks(entries)[b] == to[j];
        assert(to[i] < entries.len() && to[j] < entries.len());
    }
}

/// A scan lists the figures by identifier, and each figure's tracks by index.
pub proof fn law_scans_are_ordered(
    snapshot: CardSnapshot,
    p: CardProbe,
    root: ContentRoot,
    folders: Seq<FolderEntry>,
    root_readonly: bool,
)
    requires
        snapshot_describes(snapshot, p, root, folders, root_readonly),
        folders.len() <= usize::MAX,
        forall|k: int| 0 <= k < folders.len() ==> #[trigger] folders[k].tracks@.len() <= usize::MAX,
    ensures
        forall|i: int, j: int|
            0 <= i < j < snapshot.figures@.len() ==> !lex_less(
                #[trigger] snapshot.figures@[j].id@,
                #[trigger] snapshot.figures@[i].id@,
            ),
        forall|f: int, i: int, j: int|
            0 <= f < snapshot.figures@.len() && 0 <= i < j < snapshot.figures@[f].tracks@.len() ==> (
            #[trigger] snapshot.figures@[f].tracks@[i]).index <= (#[trigger] snapshot.figures@[f].tracks@[j]).index,
{
    lemma_scan_orders_sorted(folders, Seq::empty());
    let fo = figure_order(folders);
    assert forall|i: int, j: int| 0 <= i < j < snapshot.figures@.len() implies !lex_less(
        #[trigger] snapshot.figures@[j].id@,
        #[trigger] snapshot.figures@[i].id@,
    ) by {
        assert(figure_describes(snapshot.figures@[i], folders[fo[i] as int]));
        assert(figure_describes(snapshot.figures@[j], folders[fo[j] as int]));
    }
    assert forall|f: int, i: int, j: int|
        0 <= f < snapshot.figures@.len() && 0 <= i < j < snapshot.figures@[f].tracks@.len() implies (
        #[trigger] snapshot.figures@[f].tracks@[i]).index <= (#[trigger] snapshot.figures@[f].tracks@[j]).index by {
        let folder = folders[fo[f] as int];
        assert(figure_describes(snapshot.figures@[f], folder));
        lemma_kept_folders_kept(folders);
        crate::order::lemma_stable_sort_members(kept_folders(folders), by_text_keys(folder_keys(folders)));
        assert(kept_folders(folders).contains(fo[f]));
        let a = choose|a: int| 0 <= a < kept_folders(folders).len() && kept_folders(folders)[a] == fo[f];
        assert(folder.tracks@.len() <= usize::MAX);
        lemma_scan_orders_sorted(Seq::empty(), folder.tracks@);
        let to = track_order(folder.tracks@);
        assert(track_describes(snapshot.figures@[f].tracks@[i], folder.tracks@[to[i] as int]));
        assert(track_describes(snapshot.figures@[f].tracks@[j], folder.tracks@[to[j] as int]));
    }
}

/// The track files a write creates are read back by a scan in their
/// order: `NN.faba` is track `NN`.
pub proof fn law_track_files_read_back(i: nat)
    requires
        i < 100,
    ensures
        track_index_of(track_file_name(i)) == Some(i as u16),
{
    reveal_strlit(".faba");
    reveal_strlit("CP");
    reveal_strlit("cp");
    reveal_strlit("..");
    lemma_digit_round_trip(i / 10);
    lemma_digit_round_trip(i % 10);
    let d = two_digits(i);
    reveal_with_fuel(crate::text::decimal, 3);
    assert(d =~= seq![digit_char(i / 10), digit_char(i % 10)]);
    let name = track_file_name(i);
    assert(name =~= seq![d[0], d[1], '.', 'f', 'a', 'b', 'a']);
    reveal_with_fuel(crate::ids::last_dot, 8);
    assert(name.drop_last() =~= seq![d[0], d[1], '.', 'f', 'a', 'b']);
    assert(name.drop_last().drop_last() =~= seq![d[0], d[1], '.', 'f', 'a']);
    assert(name.drop_last().drop_last().drop_last() =~= seq![d[0], d[1], '.', 'f']);
    assert(name.drop_last().drop_last().drop_last().drop_last() =~= seq![d[0], d[1], '.']);
    assert(crate::ids::last_dot(name) == 2);
    assert(name != ".."@);
    assert(crate::ids::file_stem_of(name) =~= d);
    assert(crate::text::is_ascii_digit(d[0]));
    assert(d.take(2) =~= d);
    assert("CP"@[0] == 'C' && "cp"@[0] == 'c');
    assert(d.take(2)[0] != "CP"@[0]);
    assert(d.take(2)[0] != "cp"@[0]);
    assert(!starts_with(d, "CP"@));
    assert(!starts_with(d, "cp"@));
    assert(all_digits(d));
    assert(crate::ids::track_digits(d) == Some(d));
    assert(unsigned_digits(d) == d);
    reveal_with_fuel(digits_value, 3);
    assert(d.drop_last() =~= seq![d[0]]);
    assert(seq![d[0]].drop_last() =~= Seq::<char>::empty());
    assert(digits_value(d) == (i / 10) * 10 + i % 10);
    assert(parse_unsigned(d, 65535) == Some(i));
}

/// A figure's folder is read back as its identifier: `K` and the
/// identifier names the folder of exactly that figure.
pub proof fn law_figure_folders_read_back(id: Seq<char>)
    requires
        is_card_id(id),
    ensures
        figure_folder_id(folder_name_of(id)) == Some(id),
{
    let name = folder_name_of(id);
    assert(name.skip(1) =~= id);
}

} // verus!
