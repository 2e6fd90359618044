//! The editor's local library: the cards it has seen and the names given to
//! their figures and tracks, the cloud session, and the playlists of the
//! managed library, owner by owner. The tables are held here as rows; the
//! program that owns the database file loads them and writes them back.
//! Every rule of the tables (keys, cascades, the adoption of an offline
//! library by an account) is decided here.
use vstd::prelude::*;
use crate::card::{CardKind, CardSnapshot, Figure, Track};
use crate::digest::now_rfc3339;
use crate::error::EditorError;
use crate::order::{by_text_keys, by_text_keys_desc, by_u16_keys, sort_by_text, sort_by_text_desc, sort_by_u16, stable_sort};
use crate::paths::file_name;
use crate::text::{ascii_lower_seq, ascii_lowercase, chars_of, owned, same_text};

verus! {

// ---------------------------------------------------------------------------
// Rows
// ---------------------------------------------------------------------------

/// A card the editor has seen (a row of `cards`).
pub struct RecentCard {
    pub root_path: String,
    pub label: String,
    pub kind: String,
    pub last_seen_at: String,
}

/// The signed-in cloud account.
pub struct CloudSession {
    pub endpoint: String,
    pub email: String,
    pub display_name: String,
    pub token: String,
    pub expires_at: String,
    pub last_sync_at: Option<String>,
}

/// What the editor shows of the cloud connection.
pub struct CloudStatus {
    pub endpoint: String,
    pub authenticated: bool,
    pub email: Option<String>,
    pub display_name: Option<String>,
    pub expires_at: Option<String>,
    pub last_sync_at: Option<String>,
}

/// A track of a managed playlist.
pub struct ManagedTrackRecord {
    pub position: u16,
    pub label: String,
    pub audio_size_bytes: u64,
    pub audio_sha256: String,
}

/// A playlist of the managed library.
pub struct ManagedPlaylistRecord {
    pub figure_id: String,
    pub name: String,
    pub updated_at: String,
    pub dirty: bool,
    pub needs_audio_upload: bool,
    pub deleted: bool,
    pub tracks: Vec<ManagedTrackRecord>,
}

/// The version of an owner's library and its storage limit.
#[derive(Clone, Copy, Debug, PartialEq, Eq, Structural)]
pub struct ManagedLibraryState {
    pub version: i64,
    pub storage_limit_bytes: u64,
}

/// A track label remembered for a figure of a card.
pub struct TrackLabelRow {
    pub track_index: u64,
    pub label: String,
}

/// A figure seen on a card, with the names given to it (a row of `figures`
/// and its rows of `track_labels`).
pub struct FigureRow {
    pub root_path: String,
    pub figure_id: String,
    pub custom_name: Option<String>,
    pub last_seen_at: String,
    pub track_count: u64,
    pub labels: Vec<TrackLabelRow>,
}

/// A playlist of an owner (a row of `managed_playlists` and its rows of
/// `managed_tracks`).
pub struct PlaylistRow {
    pub owner: String,
    pub record: ManagedPlaylistRecord,
}

/// The library state of an owner.
pub struct StateRow {
    pub owner: String,
    pub state: ManagedLibraryState,
}

/// The local library.
pub struct LibraryDatabase {
    pub path: String,
    pub cards: Vec<RecentCard>,
    pub figures: Vec<FigureRow>,
    pub session: Option<CloudSession>,
    pub playlists: Vec<PlaylistRow>,
    pub states: Vec<StateRow>,
    /// The `active_owner` setting.
    pub active_owner: Option<String>,
}

// ---------------------------------------------------------------------------
// Views
// ---------------------------------------------------------------------------

pub open spec fn text_opt(value: Option<String>) -> Option<Seq<char>> {
    match value {
        Some(s) => Some(s@),
        None => None,
    }
}

#[verifier::ext_equal]
pub struct CardView {
    pub root_path: Seq<char>,
    pub label: Seq<char>,
    pub kind: Seq<char>,
    pub last_seen_at: Seq<char>,
}

impl View for RecentCard {
    type V = CardView;

    open spec fn view(&self) -> CardView {
        CardView {
            root_path: self.root_path@,
            label: self.label@,
            kind: self.kind@,
            last_seen_at: self.last_seen_at@,
        }
    }
}

#[verifier::ext_equal]
pub struct SessionView {
    pub endpoint: Seq<char>,
    pub email: Seq<char>,
    pub display_name: Seq<char>,
    pub token: Seq<char>,
    pub expires_at: Seq<char>,
    pub last_sync_at: Option<Seq<char>>,
}

impl View for CloudSession {
    type V = SessionView;

    open spec fn view(&self) -> SessionView {
        SessionView {
            endpoint: self.endpoint@,
            email: self.email@,
            display_name: self.display_name@,
            token: self.token@,
            expires_at: self.expires_at@,
            last_sync_at: text_opt(self.last_sync_at),
        }
    }
}

#[verifier::ext_equal]
pub struct StatusView {
    pub endpoint: Seq<char>,
    pub authenticated: bool,
    pub email: Option<Seq<char>>,
    pub display_name: Option<Seq<char>>,
    pub expires_at: Option<Seq<char>>,
    pub last_sync_at: Option<Seq<char>>,
}

impl View for CloudStatus {
    type V = StatusView;

    open spec fn view(&self) -> StatusView {
        StatusView {
            endpoint: self.endpoint@,
            authenticated: self.authenticated,
            email: text_opt(self.email),
            display_name: text_opt(self.display_name),
            expires_at: text_opt(self.expires_at),
            last_sync_at: text_opt(self.last_sync_at),
        }
    }
}

#[verifier::ext_equal]
pub struct TrackRecordView {
    pub position: u16,
    pub label: Seq<char>,
    pub audio_size_bytes: u64,
    pub audio_sha256: Seq<char>,
}

impl View for ManagedTrackRecord {
    type V = TrackRecordView;

    open spec fn view(&self) -> TrackRecordView {
        TrackRecordView {
            position: self.position,
            label: self.label@,
            audio_size_bytes: self.audio_size_bytes,
            audio_sha256: self.audio_sha256@,
        }
    }
}

pub open spec fn track_views(tracks: Seq<ManagedTrackRecord>) -> Seq<TrackRecordView> {
    tracks.map_values(|t: ManagedTrackRecord| t@)
}

#[verifier::ext_equal]
pub struct PlaylistRecordView {
    pub figure_id: Seq<char>,
    pub name: Seq<char>,
    pub updated_at: Seq<char>,
    pub dirty: bool,
    pub needs_audio_upload: bool,
    pub deleted: bool,
    pub tracks: Seq<TrackRecordView>,
}

impl View for ManagedPlaylistRecord {
    type V = PlaylistRecordView;

    open spec fn view(&self) -> PlaylistRecordView {
        PlaylistRecordView {
            figure_id: self.figure_id@,
            name: self.name@,
            updated_at: self.updated_at@,
            dirty: self.dirty,
            needs_audio_upload: self.needs_audio_upload,
            deleted: self.deleted,
            tracks: track_views(self.tracks@),
        }
    }
}

pub open spec fn playlist_views(records: Seq<ManagedPlaylistRecord>) -> Seq<PlaylistRecordView> {
    records.map_values(|r: ManagedPlaylistRecord| r@)
}

#[verifier::ext_equal]
pub struct LabelView {
    pub track_index: u64,
    pub label: Seq<char>,
}

impl View for TrackLabelRow {
    type V = LabelView;

    open spec fn view(&self) -> LabelView {
        LabelView { track_index: self.track_index, label: self.label@ }
    }
}

#[verifier::ext_equal]
pub struct FigureRowView {
    pub root_path: Seq<char>,
    pub figure_id: Seq<char>,
    pub custom_name: Option<Seq<char>>,
    pub last_seen_at: Seq<char>,
    pub track_count: u64,
    pub labels: Seq<LabelView>,
}

impl View for FigureRow {
    type V = FigureRowView;

    open spec fn view(&self) -> FigureRowView {
        FigureRowView {
            root_path: self.root_path@,
            figure_id: self.figure_id@,
            custom_name: text_opt(self.custom_name),
            last_seen_at: self.last_seen_at@,
            track_count: self.track_count,
            labels: self.labels@.map_values(|l: TrackLabelRow| l@),
        }
    }
}

#[verifier::ext_equal]
pub struct PlaylistRowView {
    pub owner: Seq<char>,
    pub record: PlaylistRecordView,
}

impl View for PlaylistRow {
    type V = PlaylistRowView;

    open spec fn view(&self) -> PlaylistRowView {
        PlaylistRowView { owner: self.owner@, record: self.record@ }
    }
}

#[verifier::ext_equal]
pub struct StateRowView {
    pub owner: Seq<char>,
    pub state: ManagedLibraryState,
}

impl View for StateRow {
    type V = StateRowView;

    open spec fn view(&self) -> StateRowView {
        StateRowView { owner: self.owner@, state: self.state }
    }
}

/// The tables of the library.
#[verifier::ext_equal]
pub struct LibraryView {
    pub path: Seq<char>,
    pub cards: Seq<CardView>,
    pub figures: Seq<FigureRowView>,
    pub session: Option<SessionView>,
    pub playlists: Seq<PlaylistRowView>,
    pub states: Seq<StateRowView>,
    pub active_owner: Option<Seq<char>>,
}

impl View for LibraryDatabase {
    type V = LibraryView;

    open spec fn view(&self) -> LibraryView {
        LibraryView {
            path: self.path@,
            cards: self.cards@.map_values(|c: RecentCard| c@),
            figures: self.figures@.map_values(|f: FigureRow| f@),
            session: match self.session {
                Some(s) => Some(s@),
                None => None,
            },
            playlists: self.playlists@.map_values(|p: PlaylistRow| p@),
            states: self.states@.map_values(|s: StateRow| s@),
            active_owner: text_opt(self.active_owner),
        }
    }
}

// ---------------------------------------------------------------------------
// Copies
// ---------------------------------------------------------------------------

fn copy_opt(value: &Option<String>) -> (copy: Option<String>)
    ensures
        copy == *value,
{
    match value {
        Some(v) => Some(v.clone()),
        None => None,
    }
}

fn copy_session(s: &CloudSession) -> (copy: CloudSession)
    ensures
        copy@ == s@,
{
    CloudSession {
        endpoint: s.endpoint.clone(),
        email: s.email.clone(),
        display_name: s.display_name.clone(),
        token: s.token.clone(),
        expires_at: s.expires_at.clone(),
        last_sync_at: copy_opt(&s.last_sync_at),
    }
}

fn copy_card(c: &RecentCard) -> (copy: RecentCard)
    ensures
        copy@ == c@,
{
    RecentCard {
        root_path: c.root_path.clone(),
        label: c.label.clone(),
        kind: c.kind.clone(),
        last_seen_at: c.last_seen_at.clone(),
    }
}

fn copy_track(t: &ManagedTrackRecord) -> (copy: ManagedTrackRecord)
    ensures
        copy@ == t@,
{
    ManagedTrackRecord {
        position: t.position,
        label: t.label.clone(),
        audio_size_bytes: t.audio_size_bytes,
        audio_sha256: t.audio_sha256.clone(),
    }
}

fn copy_tracks(tracks: &Vec<ManagedTrackRecord>) -> (copy: Vec<ManagedTrackRecord>)
    ensures
        track_views(copy@) == track_views(tracks@),
{
    let mut copy: Vec<ManagedTrackRecord> = Vec::new();
    let mut i: usize = 0;
    while i < tracks.len()
        invariant
            0 <= i <= tracks.len(),
            copy@.len() == i,
            forall|j: int| 0 <= j < i ==> (#[trigger] copy@[j])@ == tracks@[j]@,
        decreases tracks.len() - i,
    {
        copy.push(copy_track(&tracks[i]));
        i += 1;
    }
    assert(track_views(copy@) =~= track_views(tracks@));
    copy
}

fn copy_record(r: &ManagedPlaylistRecord) -> (copy: ManagedPlaylistRecord)
    ensures
        copy@ == r@,
{
    ManagedPlaylistRecord {
        figure_id: r.figure_id.clone(),
        name: r.name.clone(),
        updated_at: r.updated_at.clone(),
        dirty: r.dirty,
        needs_audio_upload: r.needs_audio_upload,
        deleted: r.deleted,
        tracks: copy_tracks(&r.tracks),
    }
}

fn copy_labels(labels: &Vec<TrackLabelRow>) -> (copy: Vec<TrackLabelRow>)
    ensures
        copy@.map_values(|l: TrackLabelRow| l@) == labels@.map_values(|l: TrackLabelRow| l@),
{
    let mut copy: Vec<TrackLabelRow> = Vec::new();
    let mut i: usize = 0;
    while i < labels.len()
        invariant
            0 <= i <= labels.len(),
            copy@.len() == i,
            forall|j: int| 0 <= j < i ==> (#[trigger] copy@[j])@ == labels@[j]@,
        decreases labels.len() - i,
    {
        copy.push(TrackLabelRow { track_index: labels[i].track_index, label: labels[i].label.clone() });
        i += 1;
    }
    assert(copy@.map_values(|l: TrackLabelRow| l@) =~= labels@.map_values(|l: TrackLabelRow| l@));
    copy
}

fn copy_figure_row(f: &FigureRow) -> (copy: FigureRow)
    ensures
        copy@ == f@,
{
    FigureRow {
        root_path: f.root_path.clone(),
        figure_id: f.figure_id.clone(),
        custom_name: copy_opt(&f.custom_name),
        last_seen_at: f.last_seen_at.clone(),
        track_count: f.track_count,
        labels: copy_labels(&f.labels),
    }
}

// ---------------------------------------------------------------------------
// The session and the active owner
// ---------------------------------------------------------------------------

/// The owner of the offline library.
pub open spec fn local_owner() -> Seq<char> {
    "local"@
}

/// The status shown for `session`, `default_endpoint` when nobody is signed in.
pub open spec fn status_of(session: Option<SessionView>, default_endpoint: Seq<char>) -> StatusView {
    match session {
        Some(s) => StatusView {
            endpoint: s.endpoint,
            authenticated: true,
            email: Some(s.email),
            display_name: Some(s.display_name),
            expires_at: Some(s.expires_at),
            last_sync_at: s.last_sync_at,
        },
        None => StatusView {
            endpoint: default_endpoint,
            authenticated: false,
            email: None,
            display_name: None,
            expires_at: None,
            last_sync_at: None,
        },
    }
}

/// The owner whose managed library is shown: the signed-in account (its
/// e-mail in ASCII lower case), else the remembered owner, else `local`.
pub open spec fn active_owner_of(db: LibraryView) -> Seq<char> {
    match db.session {
        Some(s) => ascii_lower_seq(s.email),
        None => match db.active_owner {
            Some(owner) => owner,
            None => local_owner(),
        },
    }
}

/// The library with only its session replaced.
pub open spec fn with_session(db: LibraryView, session: Option<SessionView>) -> LibraryView {
    LibraryView { session, ..db }
}

/// `session` with its last synchronization at `now`.
pub open spec fn synced_session(session: Option<SessionView>, now: Seq<char>) -> Option<SessionView> {
    match session {
        Some(s) => Some(SessionView { last_sync_at: Some(now), ..s }),
        None => None,
    }
}

/// The name of a card kind, as the `cards` table stores it.
pub open spec fn kind_name_of(kind: CardKind) -> Seq<char> {
    match kind {
        CardKind::FabaPlus => "FABA+"@,
        CardKind::LegacyFaba => "FABA classique"@,
        CardKind::Empty => "Dossier vide"@,
        CardKind::Unknown => "Inconnu"@,
    }
}

/// The name of `kind` in the `cards` table.
pub fn kind_name(kind: CardKind) -> (name: String)
    ensures
        name@ == kind_name_of(kind),
{
    let name = match kind {
        CardKind::FabaPlus => "FABA+",
        CardKind::LegacyFaba => "FABA classique",
        CardKind::Empty => "Dossier vide",
        CardKind::Unknown => "Inconnu",
    };
    proof {
        reveal_strlit("FABA+");
        reveal_strlit("FABA classique");
        reveal_strlit("Dossier vide");
        reveal_strlit("Inconnu");
    }
    owned(name)
}

impl LibraryDatabase {
    /// An empty library kept at `path`.
    pub fn new(path: String) -> (db: Self)
        ensures
            db@ == (LibraryView {
                path: path@,
                cards: Seq::empty(),
                figures: Seq::empty(),
                session: None,
                playlists: Seq::empty(),
                states: Seq::empty(),
                active_owner: None,
            }),
    {
        let db = LibraryDatabase {
            path,
            cards: Vec::new(),
            figures: Vec::new(),
            session: None,
            playlists: Vec::new(),
            states: Vec::new(),
            active_owner: None,
        };
        assert(db@ =~= (LibraryView {
            path: db.path@,
            cards: Seq::empty(),
            figures: Seq::empty(),
            session: None,
            playlists: Seq::empty(),
            states: Seq::empty(),
            active_owner: None,
        }));
        db
    }

    /// Prepares the tables. Every table of the library exists from the
    /// start, so there is nothing to create and nothing can fail.
    pub fn initialize(&self) -> (result: Result<(), EditorError>)
        ensures
            result is Ok,
    {
        Ok(())
    }

    /// The signed-in account, if any.
    pub fn cloud_session(&self) -> (session: Option<CloudSession>)
        ensures
            match session {
                Some(s) => self@.session == Some(s@),
                None => self@.session is None,
            },
    {
        match &self.session {
            Some(s) => Some(copy_session(s)),
            None => None,
        }
    }

    /// What the editor shows of the cloud connection.
    pub fn cloud_status(&self, default_endpoint: &str) -> (status: CloudStatus)
        ensures
            status@ == status_of(self@.session, default_endpoint@),
    {
        match &self.session {
            Some(s) => CloudStatus {
                endpoint: s.endpoint.clone(),
                authenticated: true,
                email: Some(s.email.clone()),
                display_name: Some(s.display_name.clone()),
                expires_at: Some(s.expires_at.clone()),
                last_sync_at: copy_opt(&s.last_sync_at),
            },
            None => CloudStatus {
                endpoint: owned(default_endpoint),
                authenticated: false,
                email: None,
                display_name: None,
                expires_at: None,
                last_sync_at: None,
            },
        }
    }

    /// Signs `session` in and makes its account the active owner.
    pub fn save_cloud_session(&mut self, session: &CloudSession)
        ensures
            final(self)@ == (LibraryView {
                session: Some(session@),
                active_owner: Some(ascii_lower_seq(session.email@)),
                ..old(self)@
            }),
    {
        self.session = Some(copy_session(session));
        self.active_owner = Some(ascii_lowercase(session.email.as_str()));
        assert(self@ =~= (LibraryView {
            session: Some(session@),
            active_owner: Some(ascii_lower_seq(session.email@)),
            ..old(self)@
        }));
    }

    /// Records that the session synchronized at `now`.
    pub fn mark_cloud_synced_at(&mut self, now: &str)
        ensures
            final(self)@ == with_session(old(self)@, synced_session(old(self)@.session, now@)),
    {
        match &mut self.session {
            Some(s) => {
                s.last_sync_at = Some(owned(now));
            },
            None => {},
        }
        assert(self@ =~= with_session(old(self)@, synced_session(old(self)@.session, now@)));
    }

    /// Records that the session synchronized now.
    pub fn mark_cloud_synced(&mut self)
        ensures
            exists|now: Seq<char>| final(self)@ == with_session(old(self)@, synced_session(old(self)@.session, now)),
    {
        let now = now_rfc3339();
        self.mark_cloud_synced_at(now.as_str());
    }

    /// Signs out.
    pub fn clear_cloud_session(&mut self)
        ensures
            final(self)@ == with_session(old(self)@, None),
    {
        self.session = None;
        assert(self@ =~= with_session(old(self)@, None));
    }

    /// The owner whose managed library is shown.
    pub fn active_library_owner(&self) -> (owner: String)
        ensures
            owner@ == active_owner_of(self@),
    {
        match &self.session {
            Some(s) => ascii_lowercase(s.email.as_str()),
            None => match &self.active_owner {
                Some(owner) => owner.clone(),
                None => {
                    proof {
                        reveal_strlit("local");
                    }
                    owned("local")
                },
            },
        }
    }
}

// ---------------------------------------------------------------------------
// Cards and figures
// ---------------------------------------------------------------------------

/// Whether a card is known under `root`.
pub open spec fn card_known(cards: Seq<CardView>, root: Seq<char>) -> bool {
    exists|i: int| 0 <= i < cards.len() && #[trigger] cards[i].root_path == root
}

/// The cards after seeing the card at `root`: a known card keeps its
/// label and gets the new kind and time; a new one is added.
pub open spec fn card_seen(
    cards: Seq<CardView>,
    root: Seq<char>,
    label: Seq<char>,
    kind: Seq<char>,
    now: Seq<char>,
) -> Seq<CardView> {
    if card_known(cards, root) {
        cards.map_values(
            |c: CardView|
                if c.root_path == root {
                    CardView { kind: kind, last_seen_at: now, ..c }
                } else {
                    c
                },
        )
    } else {
        cards.push(CardView { root_path: root, label: label, kind: kind, last_seen_at: now })
    }
}

/// Whether a figure row is the one of figure `id` on the card at `root`.
pub open spec fn figure_matches(f: FigureRowView, root: Seq<char>, id: Seq<char>) -> bool {
    f.root_path == root && f.figure_id == id
}

/// Whether the figure `id` of the card at `root` is known.
pub open spec fn figure_known(figures: Seq<FigureRowView>, root: Seq<char>, id: Seq<char>) -> bool {
    exists|i: int| 0 <= i < figures.len() && figure_matches(#[trigger] figures[i], root, id)
}

/// The figures after seeing figure `id` with `count` tracks: a known
/// figure keeps its names and gets the new count and time.
pub open spec fn figure_seen(
    figures: Seq<FigureRowView>,
    root: Seq<char>,
    id: Seq<char>,
    count: u64,
    now: Seq<char>,
) -> Seq<FigureRowView> {
    if figure_known(figures, root, id) {
        figures.map_values(
            |f: FigureRowView|
                if figure_matches(f, root, id) {
                    FigureRowView { last_seen_at: now, track_count: count, ..f }
                } else {
                    f
                },
        )
    } else {
        figures.push(
            FigureRowView {
                root_path: root,
                figure_id: id,
                custom_name: None,
                last_seen_at: now,
                track_count: count,
                labels: Seq::empty(),
            },
        )
    }
}

/// The figures after seeing every figure of `seen`, in order.
pub open spec fn figures_seen(
    figures: Seq<FigureRowView>,
    root: Seq<char>,
    seen: Seq<Figure>,
    now: Seq<char>,
) -> Seq<FigureRowView>
    decreases seen.len(),
{
    if seen.len() == 0 {
        figures
    } else {
        figure_seen(
            figures_seen(figures, root, seen.drop_last(), now),
            root,
            seen.last().id@,
            seen.last().tracks@.len() as u64,
            now,
        )
    }
}

/// The label a card gets from the last component of its path.
pub open spec fn card_label(name: Option<Seq<char>>) -> Seq<char> {
    match name {
        Some(n) => n,
        None => "Carte FABA+"@,
    }
}

/// The library after recording `snapshot`, seen at `now`, for a card named `label`.
pub open spec fn snapshot_recorded(
    db: LibraryView,
    snapshot: CardSnapshot,
    label: Seq<char>,
    now: Seq<char>,
) -> LibraryView {
    LibraryView {
        cards: card_seen(db.cards, snapshot.root_path@, label, kind_name_of(snapshot.kind), now),
        figures: figures_seen(db.figures, snapshot.root_path@, snapshot.figures@, now),
        ..db
    }
}

/// The first row of figure `id` of the card at `root`.
pub open spec fn figure_row(figures: Seq<FigureRowView>, root: Seq<char>, id: Seq<char>) -> Option<
    FigureRowView,
>
    decreases figures.len(),
{
    if figures.len() == 0 {
        None
    } else if figure_matches(figures[0], root, id) {
        Some(figures[0])
    } else {
        figure_row(figures.drop_first(), root, id)
    }
}

/// The first label remembered for track `index`.
pub open spec fn label_for(labels: Seq<LabelView>, index: u64) -> Option<Seq<char>>
    decreases labels.len(),
{
    if labels.len() == 0 {
        None
    } else if labels[0].track_index == index {
        Some(labels[0].label)
    } else {
        label_for(labels.drop_first(), index)
    }
}

/// The name remembered for figure `id` of the card at `root`.
pub open spec fn remembered_name(db: LibraryView, root: Seq<char>, id: Seq<char>) -> Option<Seq<char>> {
    match figure_row(db.figures, root, id) {
        Some(row) => row.custom_name,
        None => None,
    }
}

/// The label a track shows: the remembered one, else its own.
pub open spec fn remembered_label(db: LibraryView, root: Seq<char>, id: Seq<char>, track: Track) -> Seq<
    char,
> {
    match figure_row(db.figures, root, id) {
        Some(row) => match label_for(row.labels, track.index as u64) {
            Some(label) => label,
            None => track.label@,
        },
        None => track.label@,
    }
}

pub open spec fn track_decorated(before: Track, after: Track, db: LibraryView, root: Seq<char>, id: Seq<char>) -> bool {
    &&& after.index == before.index
    &&& after.file_name == before.file_name
    &&& after.path == before.path
    &&& after.size_bytes == before.size_bytes
    &&& after.label@ == remembered_label(db, root, id, before)
}

pub open spec fn figure_decorated(before: Figure, after: Figure, db: LibraryView, root: Seq<char>) -> bool {
    &&& after.id == before.id
    &&& after.folder_name == before.folder_name
    &&& after.path == before.path
    &&& after.nfc_payload == before.nfc_payload
    &&& after.modified_at == before.modified_at
    &&& after.warning == before.warning
    &&& text_opt(after.custom_name) == remembered_name(db, root, before.id@)
    &&& after.tracks@.len() == before.tracks@.len()
    &&& forall|k: int|
        0 <= k < before.tracks@.len() ==> track_decorated(
            before.tracks@[k],
            #[trigger] after.tracks@[k],
            db,
            root,
            before.id@,
        )
}

/// `after` is `before` with the names the library remembers.
pub open spec fn snapshot_decorated(before: CardSnapshot, after: CardSnapshot, db: LibraryView) -> bool {
    &&& after.root_path == before.root_path
    &&& after.kind == before.kind
    &&& after.writable == before.writable
    &&& after.warnings == before.warnings
    &&& after.figures@.len() == before.figures@.len()
    &&& forall|k: int|
        0 <= k < before.figures@.len() ==> figure_decorated(
            before.figures@[k],
            #[trigger] after.figures@[k],
            db,
            before.root_path@,
        )
}

/// The figures with figure `id` of the card at `root` named `name`.
pub open spec fn figures_named(
    figures: Seq<FigureRowView>,
    root: Seq<char>,
    id: Seq<char>,
    name: Option<Seq<char>>,
) -> Seq<FigureRowView> {
    figures.map_values(
        |f: FigureRowView|
            if figure_matches(f, root, id) {
                FigureRowView { custom_name: name, ..f }
            } else {
                f
            },
    )
}

/// Labels numbered from 0 in their order.
pub open spec fn numbered_labels(labels: Seq<Seq<char>>) -> Seq<LabelView> {
    Seq::new(labels.len(), |i: int| LabelView { track_index: i as u64, label: labels[i] })
}

/// The figures with the labels of figure `id` of the card at `root` replaced.
pub open spec fn figures_labelled(
    figures: Seq<FigureRowView>,
    root: Seq<char>,
    id: Seq<char>,
    labels: Seq<Seq<char>>,
) -> Seq<FigureRowView> {
    figures.map_values(
        |f: FigureRowView|
            if figure_matches(f, root, id) {
                FigureRowView { labels: numbered_labels(labels), ..f }
            } else {
                f
            },
    )
}

/// The figures without figure `id` of the card at `root` (and so without
/// its labels).
pub open spec fn figures_without(figures: Seq<FigureRowView>, root: Seq<char>, id: Seq<char>) -> Seq<
    FigureRowView,
> {
    figures.filter(|f: FigureRowView| !figure_matches(f, root, id))
}

/// The order of the recent cards: latest first, ties in table order.
pub open spec fn recent_order(cards: Seq<CardView>) -> Seq<usize> {
    stable_sort(
        Seq::new(cards.len(), |i: int| i as usize),
        by_text_keys_desc(cards.map_values(|c: CardView| c.last_seen_at)),
    )
}

/// The eight cards seen last.
pub open spec fn recent_cards_of(cards: Seq<CardView>) -> Seq<CardView> {
    let order = recent_order(cards);
    let n = if order.len() < 8 {
        order.len() as int
    } else {
        8
    };
    order.take(n).map_values(|i: usize| cards[i as int])
}

impl LibraryDatabase {
    fn see_card(&mut self, root: &str, label: &str, kind: &str, now: &str)
        ensures
            final(self)@ == (LibraryView {
                cards: card_seen(old(self)@.cards, root@, label@, kind@, now@),
                ..old(self)@
            }),
    {
        let ghost views = self@.cards;
        let mut out: Vec<RecentCard> = Vec::new();
        let mut found = false;
        let mut i: usize = 0;
        while i < self.cards.len()
            invariant
                0 <= i <= self.cards.len(),
                views == self@.cards,
                out@.len() == i,
                forall|j: int|
                    0 <= j < i ==> (#[trigger] out@[j])@ == (if views[j].root_path == root@ {
                        CardView { kind: kind@, last_seen_at: now@, ..views[j] }
                    } else {
                        views[j]
                    }),
                found == exists|j: int| 0 <= j < i && #[trigger] views[j].root_path == root@,
            decreases self.cards.len() - i,
        {
            let c = &self.cards[i];
            assert(views[i as int] == c@);
            if same_text(c.root_path.as_str(), root) {
                assert(views[i as int].root_path == root@);
                found = true;
                out.push(
                    RecentCard {
                        root_path: c.root_path.clone(),
                        label: c.label.clone(),
                        kind: owned(kind),
                        last_seen_at: owned(now),
                    },
                );
            } else {
                assert(views[i as int].root_path != root@);
                out.push(copy_card(c));
            }
            i += 1;
        }
        let ghost before = old(self)@;
        self.cards = out;
        if !found {
            self.cards.push(
                RecentCard {
                    root_path: owned(root),
                    label: owned(label),
                    kind: owned(kind),
                    last_seen_at: owned(now),
                },
            );
        }
        assert(self@.cards =~= card_seen(before.cards, root@, label@, kind@, now@));
        assert(self@ =~= (LibraryView { cards: card_seen(before.cards, root@, label@, kind@, now@), ..before }));
    }

    fn see_figure(&mut self, root: &str, id: &str, count: u64, now: &str)
        ensures
            final(self)@ == (LibraryView {
                figures: figure_seen(old(self)@.figures, root@, id@, count, now@),
                ..old(self)@
            }),
    {
        let ghost views = self@.figures;
        let mut out: Vec<FigureRow> = Vec::new();
        let mut found = false;
        let mut i: usize = 0;
        while i < self.figures.len()
            invariant
                0 <= i <= self.figures.len(),
                views == self@.figures,
                out@.len() == i,
                forall|j: int|
                    0 <= j < i ==> (#[trigger] out@[j])@ == (if figure_matches(views[j], root@, id@) {
                        FigureRowView { last_seen_at: now@, track_count: count, ..views[j] }
                    } else {
                        views[j]
                    }),
                found == exists|j: int| 0 <= j < i && figure_matches(#[trigger] views[j], root@, id@),
            decreases self.figures.len() - i,
        {
            let f = &self.figures[i];
            assert(views[i as int] == f@);
            if same_text(f.root_path.as_str(), root) && same_text(f.figure_id.as_str(), id) {
                found = true;
                out.push(
                    FigureRow {
                        root_path: f.root_path.clone(),
                        figure_id: f.figure_id.clone(),
                        custom_name: copy_opt(&f.custom_name),
                        last_seen_at: owned(now),
                        track_count: count,
                        labels: copy_labels(&f.labels),
                    },
                );
            } else {
                out.push(copy_figure_row(f));
            }
            i += 1;
        }
        let ghost before = old(self)@;
        self.figures = out;
        if !found {
            self.figures.push(
                FigureRow {
                    root_path: owned(root),
                    figure_id: owned(id),
                    custom_name: None,
                    last_seen_at: owned(now),
                    track_count: count,
                    labels: Vec::new(),
                },
            );
            assert(self@.figures.last().labels =~= Seq::<LabelView>::empty());
        }
        assert(self@.figures =~= figure_seen(before.figures, root@, id@, count, now@));
        assert(self@ =~= (LibraryView { figures: figure_seen(before.figures, root@, id@, count, now@), ..before }));
    }

    /// Records `snapshot`, seen at `now`, for a card named `label`.
    pub fn record_snapshot(&mut self, snapshot: &CardSnapshot, label: &str, now: &str)
        ensures
            final(self)@ == snapshot_recorded(old(self)@, *snapshot, label@, now@),
    {
        let kind = kind_name(snapshot.kind);
        self.see_card(snapshot.root_path.as_str(), label, kind.as_str(), now);
        let ghost start = self@;
        let mut i: usize = 0;
        while i < snapshot.figures.len()
            invariant
                0 <= i <= snapshot.figures.len(),
                self@ == (LibraryView {
                    figures: figures_seen(start.figures, snapshot.root_path@, snapshot.figures@.take(i as int), now@),
                    ..start
                }),
            decreases snapshot.figures.len() - i,
        {
            let f = &snapshot.figures[i];
            let count = f.tracks.len() as u64;
            self.see_figure(snapshot.root_path.as_str(), f.id.as_str(), count, now);
            assert(snapshot.figures@.take(i + 1).drop_last() =~= snapshot.figures@.take(i as int));
            i += 1;
        }
        assert(snapshot.figures@.take(snapshot.figures@.len() as int) =~= snapshot.figures@);
    }

    /// Records `snapshot` now, for a card named after the last component
    /// of its path (`Carte FABA+` when it has none).
    pub fn sync_snapshot(&mut self, snapshot: &CardSnapshot)
        ensures
            exists|name: Option<Seq<char>>, now: Seq<char>|
                crate::paths::file_name_fits(snapshot.root_path@, name) && final(self)@ == snapshot_recorded(
                    old(self)@,
                    *snapshot,
                    card_label(name),
                    now,
                ),
    {
        let now = now_rfc3339();
        let found = file_name(snapshot.root_path.as_str());
        let ghost name = match &found {
            Some(n) => Some(n@),
            None => None,
        };
        let label = match found {
            Some(n) => n,
            None => {
                proof {
                    reveal_strlit("Carte FABA+");
                }
                owned("Carte FABA+")
            },
        };
        self.record_snapshot(snapshot, label.as_str(), now.as_str());
        assert(card_label(name) == label@);
    }
}

/// Figure rows other than the one of figure `id` of the card at `root`.
pub open spec fn other_figure(root: Seq<char>, id: Seq<char>) -> spec_fn(FigureRowView) -> bool {
    |f: FigureRowView| !figure_matches(f, root, id)
}

pub open spec fn str_opt(value: Option<&str>) -> Option<Seq<char>> {
    match value {
        Some(s) => Some(s@),
        None => None,
    }
}

/// `figure_row` finds a row exactly when the figure is known, and the row
/// it finds is one of that figure.
pub proof fn lemma_figure_row(figures: Seq<FigureRowView>, root: Seq<char>, id: Seq<char>)
    ensures
        figure_row(figures, root, id) is Some <==> figure_known(figures, root, id),
        figure_row(figures, root, id) matches Some(r) ==> figure_matches(r, root, id),
    decreases figures.len(),
{
    if figures.len() > 0 {
        let rest = figures.drop_first();
        lemma_figure_row(rest, root, id);
        if figure_matches(figures[0], root, id) {
            assert(figure_matches(figures[0], root, id));
        } else {
            if figure_known(figures, root, id) {
                let i = choose|i: int| 0 <= i < figures.len() && figure_matches(#[trigger] figures[i], root, id);
                assert(i > 0);
                assert(figure_matches(rest[i - 1], root, id));
            }
            if figure_known(rest, root, id) {
                let j = choose|j: int| 0 <= j < rest.len() && figure_matches(#[trigger] rest[j], root, id);
                assert(figure_matches(figures[j + 1], root, id));
            }
        }
    }
}

fn lookup_label(labels: &Vec<TrackLabelRow>, index: u64) -> (label: Option<String>)
    ensures
        text_opt(label) == label_for(labels@.map_values(|l: TrackLabelRow| l@), index),
{
    let ghost views = labels@.map_values(|l: TrackLabelRow| l@);
    let mut i: usize = 0;
    assert(views.skip(0) =~= views);
    while i < labels.len()
        invariant
            0 <= i <= labels.len(),
            views == labels@.map_values(|l: TrackLabelRow| l@),
            label_for(views, index) == label_for(views.skip(i as int), index),
        decreases labels.len() - i,
    {
        assert(views.skip(i as int)[0] == labels@[i as int]@);
        if labels[i].track_index == index {
            return Some(labels[i].label.clone());
        }
        assert(views.skip(i as int).drop_first() =~= views.skip(i + 1));
        i += 1;
    }
    None
}

fn numbered(labels: &[String]) -> (rows: Vec<TrackLabelRow>)
    ensures
        rows@.map_values(|l: TrackLabelRow| l@) == numbered_labels(labels@.map_values(|s: String| s@)),
{
    let mut rows: Vec<TrackLabelRow> = Vec::new();
    let mut i: usize = 0;
    while i < labels.len()
        invariant
            0 <= i <= labels.len(),
            rows@.len() == i,
            forall|j: int|
                0 <= j < i ==> (#[trigger] rows@[j])@ == (LabelView { track_index: j as u64, label: labels@[j]@ }),
        decreases labels.len() - i,
    {
        rows.push(TrackLabelRow { track_index: i as u64, label: labels[i].clone() });
        i += 1;
    }
    assert(rows@.map_values(|l: TrackLabelRow| l@) =~= numbered_labels(labels@.map_values(|s: String| s@)));
    rows
}

impl LibraryDatabase {
    fn find_figure_row(&self, root: &str, id: &str) -> (found: Option<usize>)
        ensures
            match found {
                Some(i) => i < self.figures.len() && figure_row(self@.figures, root@, id@) == Some(
                    self@.figures[i as int],
                ),
                None => figure_row(self@.figures, root@, id@) is None,
            },
    {
        let ghost views = self@.figures;
        let mut i: usize = 0;
        assert(views.skip(0) =~= views);
        while i < self.figures.len()
            invariant
                0 <= i <= self.figures.len(),
                views == self@.figures,
                figure_row(views, root@, id@) == figure_row(views.skip(i as int), root@, id@),
            decreases self.figures.len() - i,
        {
            let f = &self.figures[i];
            assert(views.skip(i as int)[0] == f@);
            if same_text(f.root_path.as_str(), root) && same_text(f.figure_id.as_str(), id) {
                return Some(i);
            }
            assert(views.skip(i as int).drop_first() =~= views.skip(i + 1));
            i += 1;
        }
        None
    }

    fn decorate_figure(&self, root: &str, figure: Figure) -> (decorated: Figure)
        ensures
            figure_decorated(figure, decorated, self@, root@),
    {
        let row = self.find_figure_row(root, figure.id.as_str());
        let custom_name = match row {
            Some(i) => copy_opt(&self.figures[i].custom_name),
            None => None,
        };
        let ghost id = figure.id@;
        let ghost before = figure.tracks@;
        let Figure { id: fid, folder_name, custom_name: _, path, nfc_payload, tracks, modified_at, warning } = figure;
        let mut tracks = tracks;
        let total = tracks.len();
        assert(before.len() == total);
        let mut out: Vec<Track> = Vec::new();
        let mut k: usize = 0;
        while tracks.len() > 0
            invariant
                k <= before.len(),
                before.len() <= usize::MAX,
                tracks@ == before.skip(k as int),
                out@.len() == k,
                id == fid@,
                match row {
                    Some(i) => i < self.figures.len() && figure_row(self@.figures, root@, id) == Some(
                        self@.figures[i as int],
                    ),
                    None => figure_row(self@.figures, root@, id) is None,
                },
                forall|j: int|
                    0 <= j < k ==> track_decorated(before[j], #[trigger] out@[j], self@, root@, id),
            decreases tracks.len(),
        {
            assert(tracks@[0] == before[k as int]);
            let t = tracks.remove(0);
            let label = match row {
                Some(i) => {
                    match lookup_label(&self.figures[i].labels, t.index as u64) {
                        Some(l) => l,
                        None => t.label,
                    }
                },
                None => t.label,
            };
            out.push(Track { index: t.index, file_name: t.file_name, path: t.path, label, size_bytes: t.size_bytes });
            assert(before.skip(k as int).drop_first() =~= before.skip(k + 1));
            k += 1;
        }
        Figure {
            id: fid,
            folder_name,
            custom_name,
            path,
            nfc_payload,
            tracks: out,
            modified_at,
            warning,
        }
    }

    /// Gives the figures of `snapshot` the names and track labels the
    /// library remembers for its card.
    pub fn decorate_snapshot(&self, snapshot: &mut CardSnapshot)
        ensures
            snapshot_decorated(*old(snapshot), *final(snapshot), self@),
    {
        let root = snapshot.root_path.clone();
        let mut figures: Vec<Figure> = Vec::new();
        std::mem::swap(&mut figures, &mut snapshot.figures);
        let ghost before = figures@;
        let total = figures.len();
        assert(before.len() == total);
        let mut out: Vec<Figure> = Vec::new();
        let mut k: usize = 0;
        while figures.len() > 0
            invariant
                k <= before.len(),
                before.len() <= usize::MAX,
                figures@ == before.skip(k as int),
                out@.len() == k,
                forall|j: int|
                    0 <= j < k ==> figure_decorated(before[j], #[trigger] out@[j], self@, root@),
            decreases figures.len(),
        {
            assert(figures@[0] == before[k as int]);
            let f = figures.remove(0);
            let g = self.decorate_figure(root.as_str(), f);
            out.push(g);
            assert(before.skip(k as int).drop_first() =~= before.skip(k + 1));
            k += 1;
        }
        snapshot.figures = out;
    }

    /// Names figure `figure_id` of the card at `root` (or forgets its name).
    pub fn set_figure_name(&mut self, root: &str, figure_id: &str, name: Option<&str>)
        ensures
            final(self)@ == (LibraryView {
                figures: figures_named(old(self)@.figures, root@, figure_id@, str_opt(name)),
                ..old(self)@
            }),
    {
        let ghost views = self@.figures;
        let mut out: Vec<FigureRow> = Vec::new();
        let mut i: usize = 0;
        while i < self.figures.len()
            invariant
                0 <= i <= self.figures.len(),
                views == self@.figures,
                out@.len() == i,
                forall|j: int|
                    0 <= j < i ==> (#[trigger] out@[j])@ == (if figure_matches(views[j], root@, figure_id@) {
                        FigureRowView { custom_name: str_opt(name), ..views[j] }
                    } else {
                        views[j]
                    }),
            decreases self.figures.len() - i,
        {
            let f = &self.figures[i];
            assert(views[i as int] == f@);
            if same_text(f.root_path.as_str(), root) && same_text(f.figure_id.as_str(), figure_id) {
                let custom_name = match name {
                    Some(n) => Some(owned(n)),
                    None => None,
                };
                out.push(
                    FigureRow {
                        root_path: f.root_path.clone(),
                        figure_id: f.figure_id.clone(),
                        custom_name,
                        last_seen_at: f.last_seen_at.clone(),
                        track_count: f.track_count,
                        labels: copy_labels(&f.labels),
                    },
                );
            } else {
                out.push(copy_figure_row(f));
            }
            i += 1;
        }
        let ghost before = old(self)@;
        self.figures = out;
        assert(self@.figures =~= figures_named(before.figures, root@, figure_id@, str_opt(name)));
        assert(self@ =~= (LibraryView {
            figures: figures_named(before.figures, root@, figure_id@, str_opt(name)),
            ..before
        }));
    }

    /// Remembers `labels` as the track labels of figure `figure_id` of the
    /// card at `root`, numbered from 0. Labels can only be kept for a known
    /// figure: for an unknown one the change is refused, unless there is
    /// no label to keep.
    pub fn set_track_labels(&mut self, root: &str, figure_id: &str, labels: &[String]) -> (result: Result<
        (),
        EditorError,
    >)
        ensures
            match result {
                Ok(()) => {
                    &&& (labels@.len() == 0 || figure_known(old(self)@.figures, root@, figure_id@))
                    &&& final(self)@ == (LibraryView {
                        figures: figures_labelled(
                            old(self)@.figures,
                            root@,
                            figure_id@,
                            labels@.map_values(|s: String| s@),
                        ),
                        ..old(self)@
                    })
                },
                Err(e) => {
                    &&& labels@.len() > 0
                    &&& !figure_known(old(self)@.figures, root@, figure_id@)
                    &&& final(self)@ == old(self)@
                    &&& e matches EditorError::Storage(m) && m@ == "FOREIGN KEY constraint failed"@
                },
            },
    {
        proof {
            lemma_figure_row(self@.figures, root@, figure_id@);
        }
        if labels.len() > 0 && self.find_figure_row(root, figure_id).is_none() {
            proof {
                reveal_strlit("FOREIGN KEY constraint failed");
            }
            return Err(EditorError::Storage(owned("FOREIGN KEY constraint failed")));
        }
        let ghost views = self@.figures;
        let ghost label_views = labels@.map_values(|s: String| s@);
        let mut out: Vec<FigureRow> = Vec::new();
        let mut i: usize = 0;
        while i < self.figures.len()
            invariant
                0 <= i <= self.figures.len(),
                views == self@.figures,
                label_views == labels@.map_values(|s: String| s@),
                out@.len() == i,
                forall|j: int|
                    0 <= j < i ==> (#[trigger] out@[j])@ == (if figure_matches(views[j], root@, figure_id@) {
                        FigureRowView { labels: numbered_labels(label_views), ..views[j] }
                    } else {
                        views[j]
                    }),
            decreases self.figures.len() - i,
        {
            let f = &self.figures[i];
            assert(views[i as int] == f@);
            if same_text(f.root_path.as_str(), root) && same_text(f.figure_id.as_str(), figure_id) {
                out.push(
                    FigureRow {
                        root_path: f.root_path.clone(),
                        figure_id: f.figure_id.clone(),
                        custom_name: copy_opt(&f.custom_name),
                        last_seen_at: f.last_seen_at.clone(),
                        track_count: f.track_count,
                        labels: numbered(labels),
                    },
                );
            } else {
                out.push(copy_figure_row(f));
            }
            i += 1;
        }
        let ghost before = old(self)@;
        self.figures = out;
        assert(self@.figures =~= figures_labelled(before.figures, root@, figure_id@, label_views));
        assert(self@ =~= (LibraryView {
            figures: figures_labelled(before.figures, root@, figure_id@, label_views),
            ..before
        }));
        Ok(())
    }

    /// Forgets figure `figure_id` of the card at `root`, its labels with it.
    pub fn remove_figure(&mut self, root: &str, figure_id: &str)
        ensures
            final(self)@ == (LibraryView {
                figures: figures_without(old(self)@.figures, root@, figure_id@),
                ..old(self)@
            }),
    {
        let ghost views = self@.figures;
        let ghost keep = other_figure(root@, figure_id@);
        let mut out: Vec<FigureRow> = Vec::new();
        let mut i: usize = 0;
        assert(views.take(0).filter(keep) =~= Seq::<FigureRowView>::empty()) by {
            reveal(Seq::filter);
        }
        while i < self.figures.len()
            invariant
                0 <= i <= self.figures.len(),
                views == self@.figures,
                keep == other_figure(root@, figure_id@),
                out@.map_values(|f: FigureRow| f@) == views.take(i as int).filter(keep),
            decreases self.figures.len() - i,
        {
            let f = &self.figures[i];
            assert(views[i as int] == f@);
            proof {
                crate::order::lemma_filter_take_step(views, i as int, keep);
            }
            if !(same_text(f.root_path.as_str(), root) && same_text(f.figure_id.as_str(), figure_id)) {
                let ghost prev = out@;
                out.push(copy_figure_row(f));
                assert(out@.map_values(|f: FigureRow| f@) =~= prev.map_values(|f: FigureRow| f@).push(views[i as int]));
            }
            i += 1;
        }
        assert(views.take(views.len() as int) =~= views);
        let ghost before = old(self)@;
        self.figures = out;
        assert(self@ =~= (LibraryView {
            figures: figures_without(before.figures, root@, figure_id@),
            ..before
        }));
    }

    /// The eight cards seen last, latest first.
    pub fn recent_cards(&self) -> (cards: Vec<RecentCard>)
        ensures
            cards@.map_values(|c: RecentCard| c@) == recent_cards_of(self@.cards),
    {
        let ghost views = self@.cards;
        let mut kept: Vec<usize> = Vec::new();
        let mut keys: Vec<Vec<char>> = Vec::new();
        let mut i: usize = 0;
        while i < self.cards.len()
            invariant
                0 <= i <= self.cards.len(),
                views == self@.cards,
                kept@ == Seq::new(i as nat, |j: int| j as usize),
                keys@.len() == i,
                forall|j: int| 0 <= j < i ==> (#[trigger] keys@[j])@ == views[j].last_seen_at,
            decreases self.cards.len() - i,
        {
            kept.push(i);
            keys.push(chars_of(self.cards[i].last_seen_at.as_str()));
            assert(kept@ =~= Seq::new((i + 1) as nat, |j: int| j as usize));
            i += 1;
        }
        assert(keys@.map_values(|k: Vec<char>| k@) =~= views.map_values(|c: CardView| c.last_seen_at));
        let order = sort_by_text_desc(&kept, &keys);
        proof {
            crate::order::lemma_stable_sort_len(kept@, by_text_keys_desc(keys@.map_values(|k: Vec<char>| k@)));
            crate::order::lemma_stable_sort_members(kept@, by_text_keys_desc(keys@.map_values(|k: Vec<char>| k@)));
        }
        assert(order@ == recent_order(views));
        let n: usize = if order.len() < 8 { order.len() } else { 8 };
        let mut cards: Vec<RecentCard> = Vec::new();
        let mut k: usize = 0;
        while k < n
            invariant
                0 <= k <= n,
                n <= order@.len(),
                views == self@.cards,
                order@ == recent_order(views),
                forall|j: int| 0 <= j < order@.len() ==> kept@.contains(#[trigger] order@[j]),
                kept@ == Seq::new(views.len(), |j: int| j as usize),
                cards@.len() == k,
                forall|j: int| 0 <= j < k ==> (#[trigger] cards@[j])@ == views[order@[j] as int],
            decreases n - k,
        {
            assert(kept@.contains(order@[k as int]));
            let idx = order[k];
            assert(idx < self.cards.len());
            cards.push(copy_card(&self.cards[idx]));
            k += 1;
        }
        assert(cards@.map_values(|c: RecentCard| c@) =~= recent_cards_of(views));
        cards
    }
}

// ---------------------------------------------------------------------------
// The managed library
// ---------------------------------------------------------------------------

/// The integer columns hold signed 64-bit values: a size above `i64::MAX`
/// is stored negative and read back as 0.
pub open spec fn stored_size(size: u64) -> u64 {
    if size <= i64::MAX as u64 {
        size
    } else {
        0
    }
}

fn store_size(size: u64) -> (stored: u64)
    ensures
        stored == stored_size(size),
{
    if size <= i64::MAX as u64 {
        size
    } else {
        0
    }
}

/// Playlist rows of `owner`.
pub open spec fn of_owner(owner: Seq<char>) -> spec_fn(PlaylistRowView) -> bool {
    |p: PlaylistRowView| p.owner == owner
}

/// Whether `owner` has a playlist.
pub open spec fn owns_playlist(playlists: Seq<PlaylistRowView>, owner: Seq<char>) -> bool {
    exists|i: int| 0 <= i < playlists.len() && #[trigger] playlists[i].owner == owner
}

/// Whether a playlist row is the one of figure `id` of `owner`.
pub open spec fn playlist_matches(p: PlaylistRowView, owner: Seq<char>, id: Seq<char>) -> bool {
    p.owner == owner && p.record.figure_id == id
}

/// Whether the playlist `id` of `owner` exists, and is not marked deleted
/// when `live_only`.
pub open spec fn playlist_targeted(p: PlaylistRowView, owner: Seq<char>, id: Seq<char>, live_only: bool) -> bool {
    playlist_matches(p, owner, id) && (!live_only || !p.record.deleted)
}

pub open spec fn has_playlist(playlists: Seq<PlaylistRowView>, owner: Seq<char>, id: Seq<char>, live_only: bool) -> bool {
    exists|i: int| 0 <= i < playlists.len() && playlist_targeted(#[trigger] playlists[i], owner, id, live_only)
}

/// A change made to the playlist rows it targets.
pub enum PlaylistChange {
    /// A new name, given at `now`.
    Rename { name: String, now: String },
    /// Marked deleted at `now`, waiting to be pushed.
    Delete { now: String },
    /// Pushed to the cloud: nothing is pending any more.
    Clean,
}

/// A playlist change as values.
pub enum ChangeView {
    Rename { name: Seq<char>, now: Seq<char> },
    Delete { now: Seq<char> },
    Clean,
}

impl View for PlaylistChange {
    type V = ChangeView;

    open spec fn view(&self) -> ChangeView {
        match self {
            PlaylistChange::Rename { name, now } => ChangeView::Rename { name: name@, now: now@ },
            PlaylistChange::Delete { now } => ChangeView::Delete { now: now@ },
            PlaylistChange::Clean => ChangeView::Clean,
        }
    }
}

pub open spec fn change_applied(r: PlaylistRecordView, change: ChangeView) -> PlaylistRecordView {
    match change {
        ChangeView::Rename { name, now } => PlaylistRecordView {
            name: name,
            updated_at: now,
            dirty: true,
            ..r
        },
        ChangeView::Delete { now } => PlaylistRecordView {
            deleted: true,
            dirty: true,
            needs_audio_upload: false,
            updated_at: now,
            ..r
        },
        ChangeView::Clean => PlaylistRecordView { dirty: false, needs_audio_upload: false, ..r },
    }
}

/// The playlists with `change` made to the rows it targets.
pub open spec fn playlists_changed(
    playlists: Seq<PlaylistRowView>,
    owner: Seq<char>,
    id: Seq<char>,
    live_only: bool,
    change: ChangeView,
) -> Seq<PlaylistRowView> {
    playlists.map_values(
        |p: PlaylistRowView|
            if playlist_targeted(p, owner, id, live_only) {
                PlaylistRowView { record: change_applied(p.record, change), ..p }
            } else {
                p
            },
    )
}

/// The record as the tables keep it: not deleted, sizes as stored.
pub open spec fn record_stored(r: PlaylistRecordView) -> PlaylistRecordView {
    PlaylistRecordView {
        deleted: false,
        tracks: r.tracks.map_values(
            |t: TrackRecordView| TrackRecordView { audio_size_bytes: stored_size(t.audio_size_bytes), ..t },
        ),
        ..r
    }
}

/// No two tracks share a position.
pub open spec fn distinct_positions(tracks: Seq<TrackRecordView>) -> bool {
    forall|i: int, j: int|
        0 <= i < j < tracks.len() ==> #[trigger] tracks[i].position != #[trigger] tracks[j].position
}

/// The playlists after saving `record` for `owner`: the row of its
/// figure is replaced, or added.
pub open spec fn playlist_saved(playlists: Seq<PlaylistRowView>, owner: Seq<char>, record: PlaylistRecordView) -> Seq<
    PlaylistRowView,
> {
    if has_playlist(playlists, owner, record.figure_id, false) {
        playlists.map_values(
            |p: PlaylistRowView|
                if playlist_matches(p, owner, record.figure_id) {
                    PlaylistRowView { owner: owner, record: record_stored(record) }
                } else {
                    p
                },
        )
    } else {
        playlists.push(PlaylistRowView { owner: owner, record: record_stored(record) })
    }
}

/// Playlist rows other than the one of figure `id` of `owner`.
pub open spec fn other_playlist(owner: Seq<char>, id: Seq<char>) -> spec_fn(PlaylistRowView) -> bool {
    |p: PlaylistRowView| !playlist_matches(p, owner, id)
}

/// Which rows `managed_playlists` lists.
pub open spec fn listing_filter(playlists: Seq<PlaylistRowView>, owner: Seq<char>, include_deleted: bool) -> spec_fn(
    usize,
) -> bool {
    |i: usize| playlists[i as int].owner == owner && (include_deleted || !playlists[i as int].record.deleted)
}

/// The rows listed, by figure identifier.
pub open spec fn listing_order(playlists: Seq<PlaylistRowView>, owner: Seq<char>, include_deleted: bool) -> Seq<usize> {
    stable_sort(
        Seq::new(playlists.len(), |i: int| i as usize).filter(listing_filter(playlists, owner, include_deleted)),
        by_text_keys(playlists.map_values(|p: PlaylistRowView| p.record.figure_id)),
    )
}

/// Tracks ordered by position.
pub open spec fn tracks_by_position(tracks: Seq<TrackRecordView>) -> Seq<TrackRecordView> {
    stable_sort(
        Seq::new(tracks.len(), |i: int| i as usize),
        by_u16_keys(tracks.map_values(|t: TrackRecordView| t.position)),
    ).map_values(|i: usize| tracks[i as int])
}

/// A record as listed: its tracks by position.
pub open spec fn record_listed(r: PlaylistRecordView) -> PlaylistRecordView {
    PlaylistRecordView { tracks: tracks_by_position(r.tracks), ..r }
}

/// The playlists of `owner`, by figure identifier; deleted ones only when
/// asked.
pub open spec fn managed_playlists_of(db: LibraryView, owner: Seq<char>, include_deleted: bool) -> Seq<
    PlaylistRecordView,
> {
    listing_order(db.playlists, owner, include_deleted).map_values(
        |i: usize| record_listed(db.playlists[i as int].record),
    )
}

/// The state row of `owner`, if any (the first one).
pub open spec fn state_row(states: Seq<StateRowView>, owner: Seq<char>) -> Option<ManagedLibraryState>
    decreases states.len(),
{
    if states.len() == 0 {
        None
    } else if states[0].owner == owner {
        Some(states[0].state)
    } else {
        state_row(states.drop_first(), owner)
    }
}

/// The library state of `owner`: version 0 and no limit until one is saved.
pub open spec fn library_state_of(db: LibraryView, owner: Seq<char>) -> ManagedLibraryState {
    match state_row(db.states, owner) {
        Some(state) => state,
        None => ManagedLibraryState { version: 0, storage_limit_bytes: 0 },
    }
}

/// Whether `owner` has a state row.
pub open spec fn owns_state(states: Seq<StateRowView>, owner: Seq<char>) -> bool {
    exists|i: int| 0 <= i < states.len() && #[trigger] states[i].owner == owner
}

/// The states after saving `state` for `owner`.
pub open spec fn state_saved(states: Seq<StateRowView>, owner: Seq<char>, state: ManagedLibraryState) -> Seq<
    StateRowView,
> {
    if owns_state(states, owner) {
        states.map_values(
            |s: StateRowView|
                if s.owner == owner {
                    StateRowView { owner: owner, state: state }
                } else {
                    s
                },
        )
    } else {
        states.push(StateRowView { owner: owner, state: state })
    }
}

/// State rows of owners other than `owner`.
pub open spec fn not_owned_by(owner: Seq<char>) -> spec_fn(StateRowView) -> bool {
    |s: StateRowView| s.owner != owner
}

/// The playlists of `from` given to `to`.
pub open spec fn playlists_moved(playlists: Seq<PlaylistRowView>, from: Seq<char>, to: Seq<char>) -> Seq<PlaylistRowView> {
    playlists.map_values(
        |p: PlaylistRowView|
            if p.owner == from {
                PlaylistRowView { owner: to, ..p }
            } else {
                p
            },
    )
}

/// A state row of `from` given to `to`.
pub open spec fn state_moved(from: Seq<char>, to: Seq<char>) -> spec_fn(StateRowView) -> StateRowView {
    |s: StateRowView|
        if s.owner == from {
            StateRowView { owner: to, ..s }
        } else {
            s
        }
}

/// The state of `from` given to `to`, replacing the state of `to`; nothing
/// changes when `from` has no state.
pub open spec fn states_moved(states: Seq<StateRowView>, from: Seq<char>, to: Seq<char>) -> Seq<StateRowView> {
    if owns_state(states, from) {
        states.filter(not_owned_by(to)).map_values(state_moved(from, to))
    } else {
        states
    }
}

/// Whether the offline library goes to `owner` (already normalized): it
/// has playlists and the account has none.
pub open spec fn adoption_applies(db: LibraryView, owner: Seq<char>) -> bool {
    !owns_playlist(db.playlists, owner) && owns_playlist(db.playlists, local_owner())
}

/// The library after `owner` (already normalized, not `local`) adopts the
/// offline library when it applies, and becomes the active owner.
pub open spec fn library_adopted(db: LibraryView, owner: Seq<char>) -> LibraryView {
    if adoption_applies(db, owner) {
        LibraryView {
            playlists: playlists_moved(db.playlists, local_owner(), owner),
            states: states_moved(db.states, local_owner(), owner),
            active_owner: Some(owner),
            ..db
        }
    } else {
        LibraryView { active_owner: Some(owner), ..db }
    }
}

fn copy_record_changed(r: &ManagedPlaylistRecord, change: &PlaylistChange) -> (copy: ManagedPlaylistRecord)
    ensures
        copy@ == change_applied(r@, change@),
{
    match change {
        PlaylistChange::Rename { name, now } => ManagedPlaylistRecord {
            figure_id: r.figure_id.clone(),
            name: name.clone(),
            updated_at: now.clone(),
            dirty: true,
            needs_audio_upload: r.needs_audio_upload,
            deleted: r.deleted,
            tracks: copy_tracks(&r.tracks),
        },
        PlaylistChange::Delete { now } => ManagedPlaylistRecord {
            figure_id: r.figure_id.clone(),
            name: r.name.clone(),
            updated_at: now.clone(),
            dirty: true,
            needs_audio_upload: false,
            deleted: true,
            tracks: copy_tracks(&r.tracks),
        },
        PlaylistChange::Clean => ManagedPlaylistRecord {
            figure_id: r.figure_id.clone(),
            name: r.name.clone(),
            updated_at: r.updated_at.clone(),
            dirty: false,
            needs_audio_upload: false,
            deleted: r.deleted,
            tracks: copy_tracks(&r.tracks),
        },
    }
}

fn stored_record(r: &ManagedPlaylistRecord) -> (copy: ManagedPlaylistRecord)
    ensures
        copy@ == record_stored(r@),
{
    let mut tracks: Vec<ManagedTrackRecord> = Vec::new();
    let mut i: usize = 0;
    while i < r.tracks.len()
        invariant
            0 <= i <= r.tracks.len(),
            tracks@.len() == i,
            forall|j: int|
                0 <= j < i ==> (#[trigger] tracks@[j])@ == (TrackRecordView {
                    audio_size_bytes: stored_size(r.tracks@[j].audio_size_bytes),
                    ..r.tracks@[j]@
                }),
        decreases r.tracks.len() - i,
    {
        let t = &r.tracks[i];
        tracks.push(
            ManagedTrackRecord {
                position: t.position,
                label: t.label.clone(),
                audio_size_bytes: store_size(t.audio_size_bytes),
                audio_sha256: t.audio_sha256.clone(),
            },
        );
        i += 1;
    }
    let copy = ManagedPlaylistRecord {
        figure_id: r.figure_id.clone(),
        name: r.name.clone(),
        updated_at: r.updated_at.clone(),
        dirty: r.dirty,
        needs_audio_upload: r.needs_audio_upload,
        deleted: false,
        tracks,
    };
    assert(copy@ =~= record_stored(r@));
    copy
}

fn copy_playlist_row(p: &PlaylistRow) -> (copy: PlaylistRow)
    ensures
        copy@ == p@,
{
    PlaylistRow { owner: p.owner.clone(), record: copy_record(&p.record) }
}

fn positions_distinct(tracks: &Vec<ManagedTrackRecord>) -> (distinct: bool)
    ensures
        distinct == distinct_positions(track_views(tracks@)),
{
    let ghost views = track_views(tracks@);
    let mut i: usize = 0;
    while i < tracks.len()
        invariant
            0 <= i <= tracks.len(),
            views == track_views(tracks@),
            forall|a: int, b: int|
                0 <= a < i && a < b < tracks.len() ==> #[trigger] views[a].position != #[trigger] views[b].position,
        decreases tracks.len() - i,
    {
        let mut j: usize = i + 1;
        while j < tracks.len()
            invariant
                i < tracks.len(),
                i + 1 <= j <= tracks.len(),
                views == track_views(tracks@),
                forall|a: int, b: int|
                    0 <= a < i && a < b < tracks.len() ==> #[trigger] views[a].position != #[trigger] views[b].position,
                forall|b: int| i < b < j ==> views[i as int].position != #[trigger] views[b].position,
            decreases tracks.len() - j,
        {
            if tracks[i].position == tracks[j].position {
                assert(views[i as int].position == views[j as int].position);
                return false;
            }
            j += 1;
        }
        i += 1;
    }
    true
}

impl LibraryDatabase {
    fn change_playlists(&mut self, owner: &str, figure_id: &str, live_only: bool, change: &PlaylistChange) -> (changed: bool)
        ensures
            changed == has_playlist(old(self)@.playlists, owner@, figure_id@, live_only),
            final(self)@ == (LibraryView {
                playlists: playlists_changed(old(self)@.playlists, owner@, figure_id@, live_only, change@),
                ..old(self)@
            }),
    {
        let ghost views = self@.playlists;
        let mut out: Vec<PlaylistRow> = Vec::new();
        let mut found = false;
        let mut i: usize = 0;
        while i < self.playlists.len()
            invariant
                0 <= i <= self.playlists.len(),
                views == self@.playlists,
                out@.len() == i,
                forall|j: int|
                    0 <= j < i ==> (#[trigger] out@[j])@ == (if playlist_targeted(views[j], owner@, figure_id@, live_only) {
                        PlaylistRowView { record: change_applied(views[j].record, change@), ..views[j] }
                    } else {
                        views[j]
                    }),
                found == exists|j: int| 0 <= j < i && playlist_targeted(#[trigger] views[j], owner@, figure_id@, live_only),
            decreases self.playlists.len() - i,
        {
            let p = &self.playlists[i];
            assert(views[i as int] == p@);
            if same_text(p.owner.as_str(), owner) && same_text(p.record.figure_id.as_str(), figure_id) && (!live_only
                || !p.record.deleted) {
                assert(playlist_targeted(views[i as int], owner@, figure_id@, live_only));
                found = true;
                out.push(PlaylistRow { owner: p.owner.clone(), record: copy_record_changed(&p.record, change) });
            } else {
                assert(!playlist_targeted(views[i as int], owner@, figure_id@, live_only));
                out.push(copy_playlist_row(p));
            }
            i += 1;
        }
        let ghost before = old(self)@;
        self.playlists = out;
        assert(self@.playlists =~= playlists_changed(before.playlists, owner@, figure_id@, live_only, change@));
        assert(self@ =~= (LibraryView {
            playlists: playlists_changed(before.playlists, owner@, figure_id@, live_only, change@),
            ..before
        }));
        found
    }

    /// How many playlists `owner` has, deleted ones included.
    pub fn managed_playlist_count(&self, owner: &str) -> (count: u64)
        ensures
            count == self@.playlists.filter(of_owner(owner@)).len(),
    {
        let ghost views = self@.playlists;
        let ghost keep = of_owner(owner@);
        let mut count: u64 = 0;
        let mut i: usize = 0;
        assert(views.take(0).filter(keep) =~= Seq::<PlaylistRowView>::empty()) by {
            reveal(Seq::filter);
        }
        while i < self.playlists.len()
            invariant
                0 <= i <= self.playlists.len(),
                views == self@.playlists,
                keep == of_owner(owner@),
                count == views.take(i as int).filter(keep).len(),
                count <= i,
            decreases self.playlists.len() - i,
        {
            assert(views[i as int] == self.playlists@[i as int]@);
            proof {
                crate::order::lemma_filter_take_step(views, i as int, keep);
            }
            if same_text(self.playlists[i].owner.as_str(), owner) {
                count += 1;
            }
            i += 1;
        }
        assert(views.take(views.len() as int) =~= views);
        count
    }

    /// Saves `playlist` for `owner`, its tracks replacing the ones it had.
    /// Two tracks at one position are refused, and nothing changes.
    pub fn save_managed_playlist(&mut self, owner: &str, playlist: &ManagedPlaylistRecord) -> (result: Result<
        (),
        EditorError,
    >)
        ensures
            match result {
                Ok(()) => {
                    &&& distinct_positions(playlist@.tracks)
                    &&& final(self)@ == (LibraryView {
                        playlists: playlist_saved(old(self)@.playlists, owner@, playlist@),
                        ..old(self)@
                    })
                },
                Err(e) => {
                    &&& !distinct_positions(playlist@.tracks)
                    &&& final(self)@ == old(self)@
                    &&& e matches EditorError::Storage(m) && m@
                        == "UNIQUE constraint failed: managed_tracks.owner, managed_tracks.figure_id, managed_tracks.position"@
                },
            },
    {
        if !positions_distinct(&playlist.tracks) {
            proof {
                reveal_strlit(
                    "UNIQUE constraint failed: managed_tracks.owner, managed_tracks.figure_id, managed_tracks.position",
                );
            }
            return Err(
                EditorError::Storage(
                    owned(
                        "UNIQUE constraint failed: managed_tracks.owner, managed_tracks.figure_id, managed_tracks.position",
                    ),
                ),
            );
        }
        let ghost views = self@.playlists;
        let ghost id = playlist.figure_id@;
        let mut out: Vec<PlaylistRow> = Vec::new();
        let mut found = false;
        let mut i: usize = 0;
        while i < self.playlists.len()
            invariant
                0 <= i <= self.playlists.len(),
                views == self@.playlists,
                id == playlist.figure_id@,
                out@.len() == i,
                forall|j: int|
                    0 <= j < i ==> (#[trigger] out@[j])@ == (if playlist_matches(views[j], owner@, id) {
                        PlaylistRowView { owner: owner@, record: record_stored(playlist@) }
                    } else {
                        views[j]
                    }),
                found == exists|j: int| 0 <= j < i && playlist_targeted(#[trigger] views[j], owner@, id, false),
            decreases self.playlists.len() - i,
        {
            let p = &self.playlists[i];
            assert(views[i as int] == p@);
            if same_text(p.owner.as_str(), owner) && same_text(p.record.figure_id.as_str(), playlist.figure_id.as_str()) {
                assert(playlist_targeted(views[i as int], owner@, id, false));
                found = true;
                out.push(PlaylistRow { owner: owned(owner), record: stored_record(playlist) });
            } else {
                assert(!playlist_targeted(views[i as int], owner@, id, false));
                out.push(copy_playlist_row(p));
            }
            i += 1;
        }
        let ghost before = old(self)@;
        self.playlists = out;
        if !found {
            self.playlists.push(PlaylistRow { owner: owned(owner), record: stored_record(playlist) });
        }
        assert(self@.playlists =~= playlist_saved(before.playlists, owner@, playlist@));
        assert(self@ =~= (LibraryView { playlists: playlist_saved(before.playlists, owner@, playlist@), ..before }));
        Ok(())
    }

    /// Renames the playlist `figure_id` of `owner` at `now`, marking it for
    /// the next push; a missing or deleted playlist is refused.
    pub fn rename_managed_playlist_at(&mut self, owner: &str, figure_id: &str, name: &str, now: &str) -> (result:
        Result<(), EditorError>)
        ensures
            has_playlist(old(self)@.playlists, owner@, figure_id@, true) ==> result is Ok && final(self)@
                == playlist_renamed(old(self)@, owner@, figure_id@, name@, now@),
            !has_playlist(old(self)@.playlists, owner@, figure_id@, true) ==> result == Err::<(), EditorError>(
                EditorError::PlaylistNotFound,
            ) && final(self)@ == old(self)@,
    {
        let change = PlaylistChange::Rename { name: owned(name), now: owned(now) };
        let changed = self.change_playlists(owner, figure_id, true, &change);
        if changed {
            Ok(())
        } else {
            proof {
                assert(self@.playlists =~= old(self)@.playlists);
                assert(self@ =~= old(self)@);
            }
            Err(EditorError::PlaylistNotFound)
        }
    }
}

/// The library after renaming the playlist `id` of `owner` at `now`.
pub open spec fn playlist_renamed(db: LibraryView, owner: Seq<char>, id: Seq<char>, name: Seq<char>, now: Seq<char>) -> LibraryView {
    LibraryView {
        playlists: playlists_changed(db.playlists, owner, id, true, ChangeView::Rename { name: name, now: now }),
        ..db
    }
}

/// The library after marking the playlist `id` of `owner` deleted at `now`.
pub open spec fn playlist_marked_deleted(db: LibraryView, owner: Seq<char>, id: Seq<char>, now: Seq<char>) -> LibraryView {
    LibraryView { playlists: playlists_changed(db.playlists, owner, id, true, ChangeView::Delete { now: now }), ..db }
}

fn copy_listed(r: &ManagedPlaylistRecord) -> (copy: ManagedPlaylistRecord)
    ensures
        copy@ == record_listed(r@),
{
    let ghost views = track_views(r.tracks@);
    let mut kept: Vec<usize> = Vec::new();
    let mut keys: Vec<u16> = Vec::new();
    let mut i: usize = 0;
    while i < r.tracks.len()
        invariant
            0 <= i <= r.tracks.len(),
            views == track_views(r.tracks@),
            kept@ == Seq::new(i as nat, |j: int| j as usize),
            keys@.len() == i,
            forall|j: int| 0 <= j < i ==> #[trigger] keys@[j] == views[j].position,
        decreases r.tracks.len() - i,
    {
        kept.push(i);
        keys.push(r.tracks[i].position);
        assert(kept@ =~= Seq::new((i + 1) as nat, |j: int| j as usize));
        i += 1;
    }
    assert(keys@ =~= views.map_values(|t: TrackRecordView| t.position));
    let order = sort_by_u16(&kept, &keys);
    proof {
        crate::order::lemma_stable_sort_len(kept@, by_u16_keys(keys@));
        crate::order::lemma_stable_sort_members(kept@, by_u16_keys(keys@));
    }
    let mut tracks: Vec<ManagedTrackRecord> = Vec::new();
    let mut k: usize = 0;
    while k < order.len()
        invariant
            0 <= k <= order.len(),
            views == track_views(r.tracks@),
            forall|j: int| 0 <= j < order@.len() ==> kept@.contains(#[trigger] order@[j]),
            kept@ == Seq::new(views.len(), |j: int| j as usize),
            tracks@.len() == k,
            forall|j: int| 0 <= j < k ==> (#[trigger] tracks@[j])@ == views[order@[j] as int],
        decreases order.len() - k,
    {
        assert(kept@.contains(order@[k as int]));
        let idx = order[k];
        tracks.push(copy_track(&r.tracks[idx]));
        k += 1;
    }
    let copy = ManagedPlaylistRecord {
        figure_id: r.figure_id.clone(),
        name: r.name.clone(),
        updated_at: r.updated_at.clone(),
        dirty: r.dirty,
        needs_audio_upload: r.needs_audio_upload,
        deleted: r.deleted,
        tracks,
    };
    assert(track_views(copy.tracks@) =~= tracks_by_position(views));
    assert(copy@ =~= record_listed(r@));
    copy
}

impl LibraryDatabase {
    /// Renames the playlist `figure_id` of `owner` now.
    pub fn rename_managed_playlist(&mut self, owner: &str, figure_id: &str, name: &str) -> (result: Result<
        (),
        EditorError,
    >)
        ensures
            has_playlist(old(self)@.playlists, owner@, figure_id@, true) ==> result is Ok && exists|now: Seq<char>|
                final(self)@ == playlist_renamed(old(self)@, owner@, figure_id@, name@, now),
            !has_playlist(old(self)@.playlists, owner@, figure_id@, true) ==> result == Err::<(), EditorError>(
                EditorError::PlaylistNotFound,
            ) && final(self)@ == old(self)@,
    {
        let now = now_rfc3339();
        let ghost before = self@;
        let result = self.rename_managed_playlist_at(owner, figure_id, name, now.as_str());
        assert(has_playlist(before.playlists, owner@, figure_id@, true) ==> self@ == playlist_renamed(
            before,
            owner@,
            figure_id@,
            name@,
            now@,
        ));
        result
    }

    /// Marks the playlist `figure_id` of `owner` deleted at `now`, to be
    /// removed from the cloud by the next push; a missing or already
    /// deleted playlist is refused.
    pub fn mark_managed_deleted_at(&mut self, owner: &str, figure_id: &str, now: &str) -> (result: Result<
        (),
        EditorError,
    >)
        ensures
            has_playlist(old(self)@.playlists, owner@, figure_id@, true) ==> result is Ok && final(self)@
                == playlist_marked_deleted(old(self)@, owner@, figure_id@, now@),
            !has_playlist(old(self)@.playlists, owner@, figure_id@, true) ==> result == Err::<(), EditorError>(
                EditorError::PlaylistNotFound,
            ) && final(self)@ == old(self)@,
    {
        let change = PlaylistChange::Delete { now: owned(now) };
        let changed = self.change_playlists(owner, figure_id, true, &change);
        if changed {
            Ok(())
        } else {
            proof {
                assert(self@.playlists =~= old(self)@.playlists);
                assert(self@ =~= old(self)@);
            }
            Err(EditorError::PlaylistNotFound)
        }
    }

    /// Marks the playlist `figure_id` of `owner` deleted now.
    pub fn mark_managed_deleted(&mut self, owner: &str, figure_id: &str) -> (result: Result<(), EditorError>)
        ensures
            has_playlist(old(self)@.playlists, owner@, figure_id@, true) ==> result is Ok && exists|now: Seq<char>|
                final(self)@ == playlist_marked_deleted(old(self)@, owner@, figure_id@, now),
            !has_playlist(old(self)@.playlists, owner@, figure_id@, true) ==> result == Err::<(), EditorError>(
                EditorError::PlaylistNotFound,
            ) && final(self)@ == old(self)@,
    {
        let now = now_rfc3339();
        let ghost before = self@;
        let result = self.mark_managed_deleted_at(owner, figure_id, now.as_str());
        assert(has_playlist(before.playlists, owner@, figure_id@, true) ==> self@ == playlist_marked_deleted(
            before,
            owner@,
            figure_id@,
            now@,
        ));
        result
    }

    /// Records that the playlist `figure_id` of `owner` has nothing left to push.
    pub fn mark_managed_clean(&mut self, owner: &str, figure_id: &str)
        ensures
            final(self)@ == (LibraryView {
                playlists: playlists_changed(old(self)@.playlists, owner@, figure_id@, false, ChangeView::Clean),
                ..old(self)@
            }),
    {
        let change = PlaylistChange::Clean;
        let _ = self.change_playlists(owner, figure_id, false, &change);
    }

    /// Removes the playlist `figure_id` of `owner`, its tracks with it.
    pub fn purge_managed_playlist(&mut self, owner: &str, figure_id: &str)
        ensures
            final(self)@ == (LibraryView {
                playlists: old(self)@.playlists.filter(other_playlist(owner@, figure_id@)),
                ..old(self)@
            }),
    {
        let ghost views = self@.playlists;
        let ghost keep = other_playlist(owner@, figure_id@);
        let mut out: Vec<PlaylistRow> = Vec::new();
        let mut i: usize = 0;
        assert(views.take(0).filter(keep) =~= Seq::<PlaylistRowView>::empty()) by {
            reveal(Seq::filter);
        }
        while i < self.playlists.len()
            invariant
                0 <= i <= self.playlists.len(),
                views == self@.playlists,
                keep == other_playlist(owner@, figure_id@),
                out@.map_values(|p: PlaylistRow| p@) == views.take(i as int).filter(keep),
            decreases self.playlists.len() - i,
        {
            let p = &self.playlists[i];
            assert(views[i as int] == p@);
            proof {
                crate::order::lemma_filter_take_step(views, i as int, keep);
            }
            if !(same_text(p.owner.as_str(), owner) && same_text(p.record.figure_id.as_str(), figure_id)) {
                let ghost prev = out@;
                out.push(copy_playlist_row(p));
                assert(out@.map_values(|p: PlaylistRow| p@) =~= prev.map_values(|p: PlaylistRow| p@).push(views[i as int]));
            }
            i += 1;
        }
        assert(views.take(views.len() as int) =~= views);
        let ghost before = old(self)@;
        self.playlists = out;
        assert(self@ =~= (LibraryView { playlists: before.playlists.filter(other_playlist(owner@, figure_id@)), ..before }));
    }

    /// The playlists of `owner` by figure identifier, each with its tracks
    /// by position; deleted ones only when `include_deleted`.
    pub fn managed_playlists(&self, owner: &str, include_deleted: bool) -> (playlists: Vec<ManagedPlaylistRecord>)
        ensures
            playlist_views(playlists@) == managed_playlists_of(self@, owner@, include_deleted),
    {
        let ghost views = self@.playlists;
        let ghost all = Seq::new(views.len(), |j: int| j as usize);
        let ghost keep = listing_filter(views, owner@, include_deleted);
        let mut kept: Vec<usize> = Vec::new();
        let mut keys: Vec<Vec<char>> = Vec::new();
        let mut i: usize = 0;
        assert(all.take(0).filter(keep) =~= Seq::<usize>::empty()) by {
            reveal(Seq::filter);
        }
        while i < self.playlists.len()
            invariant
                0 <= i <= self.playlists.len(),
                views == self@.playlists,
                all == Seq::new(views.len(), |j: int| j as usize),
                keep == listing_filter(views, owner@, include_deleted),
                kept@ == all.take(i as int).filter(keep),
                forall|j: int| 0 <= j < kept@.len() ==> #[trigger] kept@[j] < i,
                keys@.len() == i,
                forall|j: int| 0 <= j < i ==> (#[trigger] keys@[j])@ == views[j].record.figure_id,
            decreases self.playlists.len() - i,
        {
            let p = &self.playlists[i];
            assert(views[i as int] == p@);
            assert(all[i as int] == i);
            proof {
                crate::order::lemma_filter_take_step(all, i as int, keep);
            }
            if same_text(p.owner.as_str(), owner) && (include_deleted || !p.record.deleted) {
                kept.push(i);
            }
            keys.push(chars_of(p.record.figure_id.as_str()));
            i += 1;
        }
        assert(all.take(all.len() as int) =~= all);
        assert(keys@.map_values(|k: Vec<char>| k@) =~= views.map_values(|p: PlaylistRowView| p.record.figure_id));
        let order = sort_by_text(&kept, &keys);
        proof {
            crate::order::lemma_stable_sort_len(kept@, by_text_keys(keys@.map_values(|k: Vec<char>| k@)));
            crate::order::lemma_stable_sort_members(kept@, by_text_keys(keys@.map_values(|k: Vec<char>| k@)));
        }
        assert(order@ == listing_order(views, owner@, include_deleted));
        let mut playlists: Vec<ManagedPlaylistRecord> = Vec::new();
        let mut k: usize = 0;
        while k < order.len()
            invariant
                0 <= k <= order.len(),
                views == self@.playlists,
                order@ == listing_order(views, owner@, include_deleted),
                forall|j: int| 0 <= j < order@.len() ==> kept@.contains(#[trigger] order@[j]),
                forall|j: int| 0 <= j < kept@.len() ==> #[trigger] kept@[j] < views.len(),
                playlists@.len() == k,
                forall|j: int|
                    0 <= j < k ==> (#[trigger] playlists@[j])@ == record_listed(views[order@[j] as int].record),
            decreases order.len() - k,
        {
            assert(kept@.contains(order@[k as int]));
            let idx = order[k];
            assert(views[idx as int] == self.playlists@[idx as int]@);
            playlists.push(copy_listed(&self.playlists[idx].record));
            k += 1;
        }
        assert(playlist_views(playlists@) =~= managed_playlists_of(self@, owner@, include_deleted));
        playlists
    }

    /// The library state of `owner`.
    pub fn managed_library_state(&self, owner: &str) -> (state: ManagedLibraryState)
        ensures
            state == library_state_of(self@, owner@),
    {
        let ghost views = self@.states;
        let mut i: usize = 0;
        assert(views.skip(0) =~= views);
        while i < self.states.len()
            invariant
                0 <= i <= self.states.len(),
                views == self@.states,
                state_row(views, owner@) == state_row(views.skip(i as int), owner@),
            decreases self.states.len() - i,
        {
            assert(views.skip(i as int)[0] == self.states@[i as int]@);
            if same_text(self.states[i].owner.as_str(), owner) {
                return self.states[i].state;
            }
            assert(views.skip(i as int).drop_first() =~= views.skip(i + 1));
            i += 1;
        }
        ManagedLibraryState { version: 0, storage_limit_bytes: 0 }
    }

    /// Saves the library state of `owner`.
    pub fn save_managed_library_state(&mut self, owner: &str, version: i64, storage_limit_bytes: u64)
        ensures
            final(self)@ == (LibraryView {
                states: state_saved(
                    old(self)@.states,
                    owner@,
                    ManagedLibraryState { version: version, storage_limit_bytes: stored_size(storage_limit_bytes) },
                ),
                ..old(self)@
            }),
    {
        let state = ManagedLibraryState { version, storage_limit_bytes: store_size(storage_limit_bytes) };
        let ghost views = self@.states;
        let mut out: Vec<StateRow> = Vec::new();
        let mut found = false;
        let mut i: usize = 0;
        while i < self.states.len()
            invariant
                0 <= i <= self.states.len(),
                views == self@.states,
                out@.len() == i,
                forall|j: int|
                    0 <= j < i ==> (#[trigger] out@[j])@ == (if views[j].owner == owner@ {
                        StateRowView { owner: owner@, state: state }
                    } else {
                        views[j]
                    }),
                found == exists|j: int| 0 <= j < i && #[trigger] views[j].owner == owner@,
            decreases self.states.len() - i,
        {
            let row = &self.states[i];
            assert(views[i as int] == row@);
            if same_text(row.owner.as_str(), owner) {
                assert(views[i as int].owner == owner@);
                found = true;
                out.push(StateRow { owner: owned(owner), state });
            } else {
                assert(views[i as int].owner != owner@);
                out.push(StateRow { owner: row.owner.clone(), state: row.state });
            }
            i += 1;
        }
        let ghost before = old(self)@;
        self.states = out;
        if !found {
            self.states.push(StateRow { owner: owned(owner), state });
        }
        assert(self@.states =~= state_saved(before.states, owner@, state));
        assert(self@ =~= (LibraryView { states: state_saved(before.states, owner@, state), ..before }));
    }

    fn owns_any_playlist(&self, owner: &str) -> (owns: bool)
        ensures
            owns == owns_playlist(self@.playlists, owner@),
    {
        let mut i: usize = 0;
        while i < self.playlists.len()
            invariant
                0 <= i <= self.playlists.len(),
                forall|j: int| 0 <= j < i ==> #[trigger] self@.playlists[j].owner != owner@,
            decreases self.playlists.len() - i,
        {
            assert(self@.playlists[i as int] == self.playlists@[i as int]@);
            if same_text(self.playlists[i].owner.as_str(), owner) {
                assert(self@.playlists[i as int].owner == owner@);
                return true;
            }
            i += 1;
        }
        false
    }

    fn owns_any_state(&self, owner: &str) -> (owns: bool)
        ensures
            owns == owns_state(self@.states, owner@),
    {
        let mut i: usize = 0;
        while i < self.states.len()
            invariant
                0 <= i <= self.states.len(),
                forall|j: int| 0 <= j < i ==> #[trigger] self@.states[j].owner != owner@,
            decreases self.states.len() - i,
        {
            assert(self@.states[i as int] == self.states@[i as int]@);
            if same_text(self.states[i].owner.as_str(), owner) {
                assert(self@.states[i as int].owner == owner@);
                return true;
            }
            i += 1;
        }
        false
    }

    fn move_playlists(&mut self, from: &str, to: &str)
        ensures
            final(self)@ == (LibraryView { playlists: playlists_moved(old(self)@.playlists, from@, to@), ..old(self)@ }),
    {
        let ghost views = self@.playlists;
        let mut out: Vec<PlaylistRow> = Vec::new();
        let mut i: usize = 0;
        while i < self.playlists.len()
            invariant
                0 <= i <= self.playlists.len(),
                views == self@.playlists,
                out@.len() == i,
                forall|j: int|
                    0 <= j < i ==> (#[trigger] out@[j])@ == (if views[j].owner == from@ {
                        PlaylistRowView { owner: to@, ..views[j] }
                    } else {
                        views[j]
                    }),
            decreases self.playlists.len() - i,
        {
            let p = &self.playlists[i];
            assert(views[i as int] == p@);
            if same_text(p.owner.as_str(), from) {
                out.push(PlaylistRow { owner: owned(to), record: copy_record(&p.record) });
            } else {
                out.push(copy_playlist_row(p));
            }
            i += 1;
        }
        let ghost before = old(self)@;
        self.playlists = out;
        assert(self@.playlists =~= playlists_moved(before.playlists, from@, to@));
        assert(self@ =~= (LibraryView { playlists: playlists_moved(before.playlists, from@, to@), ..before }));
    }

    fn move_states(&mut self, from: &str, to: &str)
        requires
            owns_state(old(self)@.states, from@),
        ensures
            final(self)@ == (LibraryView { states: states_moved(old(self)@.states, from@, to@), ..old(self)@ }),
    {
        let ghost views = self@.states;
        let ghost keep = not_owned_by(to@);
        let ghost moved = state_moved(from@, to@);
        let mut out: Vec<StateRow> = Vec::new();
        let mut i: usize = 0;
        assert(views.take(0).filter(keep) =~= Seq::<StateRowView>::empty()) by {
            reveal(Seq::filter);
        }
        while i < self.states.len()
            invariant
                0 <= i <= self.states.len(),
                views == self@.states,
                keep == not_owned_by(to@),
                moved == state_moved(from@, to@),
                out@.map_values(|s: StateRow| s@) == views.take(i as int).filter(keep).map_values(moved),
            decreases self.states.len() - i,
        {
            let row = &self.states[i];
            assert(views[i as int] == row@);
            proof {
                crate::order::lemma_filter_take_step(views, i as int, keep);
            }
            if !same_text(row.owner.as_str(), to) {
                let ghost prev = out@;
                let new_row = if same_text(row.owner.as_str(), from) {
                    StateRow { owner: owned(to), state: row.state }
                } else {
                    StateRow { owner: row.owner.clone(), state: row.state }
                };
                assert(new_row@ =~= moved(views[i as int]));
                out.push(new_row);
                assert(out@.map_values(|s: StateRow| s@) =~= prev.map_values(|s: StateRow| s@).push(moved(views[i as int])));
                assert(views.take(i + 1).filter(keep).map_values(moved) =~= views.take(i as int).filter(keep).map_values(moved).push(moved(views[i as int])));
            }
            i += 1;
        }
        assert(views.take(views.len() as int) =~= views);
        let ghost before = old(self)@;
        self.states = out;
        assert(self@.states =~= states_moved(before.states, from@, to@));
        assert(self@ =~= (LibraryView { states: states_moved(before.states, from@, to@), ..before }));
    }

    /// Gives the offline library to the account `owner` (compared in ASCII
    /// lower case) when the account has no playlist yet and the offline
    /// library has some; the account's state is then replaced by the
    /// offline one, if there is one. The account becomes the active owner.
    /// Returns whether the library was adopted; `local` adopts nothing and
    /// changes nothing.
    pub fn adopt_unassigned_library(&mut self, owner: &str) -> (adopted: bool)
        ensures
            ascii_lower_seq(owner@) == local_owner() ==> !adopted && final(self)@ == old(self)@,
            ascii_lower_seq(owner@) != local_owner() ==> {
                &&& adopted == adoption_applies(old(self)@, ascii_lower_seq(owner@))
                &&& final(self)@ == library_adopted(old(self)@, ascii_lower_seq(owner@))
            },
    {
        let normalized = ascii_lowercase(owner);
        proof {
            reveal_strlit("local");
        }
        if same_text(normalized.as_str(), "local") {
            return false;
        }
        let target = self.owns_any_playlist(normalized.as_str());
        let local = self.owns_any_playlist("local");
        let adopted = !target && local;
        let ghost before = self@;
        if adopted {
            self.move_playlists("local", normalized.as_str());
            if self.owns_any_state("local") {
                self.move_states("local", normalized.as_str());
            }
        }
        self.active_owner = Some(normalized);
        assert(self@ =~= library_adopted(before, ascii_lower_seq(owner@)));
        adopted
    }
}

// ---------------------------------------------------------------------------
// Laws
// ---------------------------------------------------------------------------

proof fn lemma_figure_seen_known(figures: Seq<FigureRowView>, root: Seq<char>, id: Seq<char>, count: u64, now: Seq<char>, other: Seq<char>)
    requires
        other == id || figure_known(figures, root, other),
    ensures
        figure_known(figure_seen(figures, root, id, count, now), root, other),
{
    let after = figure_seen(figures, root, id, count, now);
    if figure_known(figures, root, id) {
        if figure_known(figures, root, other) {
            let i = choose|i: int| 0 <= i < figures.len() && figure_matches(#[trigger] figures[i], root, other);
            assert(figure_matches(after[i], root, other));
        } else {
            let i = choose|i: int| 0 <= i < figures.len() && figure_matches(#[trigger] figures[i], root, id);
            assert(figure_matches(after[i], root, other));
        }
    } else {
        if other == id {
            assert(figure_matches(after[figures.len() as int], root, other));
        } else {
            let i = choose|i: int| 0 <= i < figures.len() && figure_matches(#[trigger] figures[i], root, other);
            assert(figure_matches(after[i], root, other));
        }
    }
}

proof fn lemma_figures_seen_known(figures: Seq<FigureRowView>, root: Seq<char>, seen: Seq<Figure>, now: Seq<char>, k: int)
    requires
        0 <= k < seen.len(),
    ensures
        figure_known(figures_seen(figures, root, seen, now), root, seen[k].id@),
    decreases seen.len(),
{
    let before = figures_seen(figures, root, seen.drop_last(), now);
    let last = seen.last();
    if k == seen.len() - 1 {
        lemma_figure_seen_known(before, root, last.id@, last.tracks@.len() as u64, now, seen[k].id@);
    } else {
        lemma_figures_seen_known(figures, root, seen.drop_last(), now, k);
        assert(seen.drop_last()[k] == seen[k]);
        lemma_figure_seen_known(before, root, last.id@, last.tracks@.len() as u64, now, seen[k].id@);
    }
}

proof fn lemma_named_row(figures: Seq<FigureRowView>, root: Seq<char>, id: Seq<char>, name: Option<Seq<char>>)
    requires
        figure_known(figures, root, id),
    ensures
        figure_row(figures_named(figures, root, id, name), root, id) matches Some(r) && r.custom_name == name,
    decreases figures.len(),
{
    let named = figures_named(figures, root, id, name);
    if !figure_matches(figures[0], root, id) {
        let i = choose|i: int| 0 <= i < figures.len() && figure_matches(#[trigger] figures[i], root, id);
        assert(figure_matches(figures.drop_first()[i - 1], root, id));
        lemma_named_row(figures.drop_first(), root, id, name);
        assert(named.drop_first() =~= figures_named(figures.drop_first(), root, id, name));
    }
}

/// Names are remembered by the library, not written to the card: once a
/// card has been recorded, the name given to one of its figures is the
/// name the library gives that figure back.
pub proof fn law_figure_names_are_remembered(
    db: LibraryView,
    snapshot: CardSnapshot,
    label: Seq<char>,
    now: Seq<char>,
    k: int,
    name: Seq<char>,
)
    requires
        0 <= k < snapshot.figures@.len(),
    ensures
        ({
            let recorded = snapshot_recorded(db, snapshot, label, now);
            let id = snapshot.figures@[k].id@;
            let named = LibraryView {
                figures: figures_named(recorded.figures, snapshot.root_path@, id, Some(name)),
                ..recorded
            };
            remembered_name(named, snapshot.root_path@, id) == Some(name)
        }),
{
    let recorded = snapshot_recorded(db, snapshot, label, now);
    let id = snapshot.figures@[k].id@;
    lemma_figures_seen_known(db.figures, snapshot.root_path@, snapshot.figures@, now, k);
    lemma_named_row(recorded.figures, snapshot.root_path@, id, Some(name));
}

proof fn lemma_moved_counts(playlists: Seq<PlaylistRowView>, from: Seq<char>, to: Seq<char>)
    requires
        from != to,
    ensures
        playlists_moved(playlists, from, to).filter(of_owner(from)).len() == 0,
        playlists_moved(playlists, from, to).filter(of_owner(to)).len() == playlists.filter(of_owner(from)).len()
            + playlists.filter(of_owner(to)).len(),
    decreases playlists.len(),
{
    reveal(Seq::filter);
    let moved = playlists_moved(playlists, from, to);
    if playlists.len() > 0 {
        lemma_moved_counts(playlists.drop_last(), from, to);
        assert(moved.drop_last() =~= playlists_moved(playlists.drop_last(), from, to));
        assert(moved.last() == moved[playlists.len() - 1]);
    }
}

proof fn lemma_states_moved_row(states: Seq<StateRowView>, from: Seq<char>, to: Seq<char>)
    requires
        from != to,
        owns_state(states, from),
    ensures
        state_row(states_moved(states, from, to), to) == state_row(states, from),
    decreases states.len(),
{
    let first = seq![states[0]];
    let rest = states.drop_first();
    let keep = not_owned_by(to);
    let f = state_moved(from, to);
    assert(states =~= first + rest);
    Seq::filter_distributes_over_add(first, rest, keep);
    reveal(Seq::filter);
    assert(first.drop_last() =~= Seq::<StateRowView>::empty());
    let moved = states.filter(keep).map_values(f);
    assert(moved =~= first.filter(keep).map_values(f) + rest.filter(keep).map_values(f));
    if states[0].owner == from {
        assert(first.filter(keep) =~= first);
        assert(moved[0] == f(states[0]));
    } else {
        let i = choose|i: int| 0 <= i < states.len() && #[trigger] states[i].owner == from;
        assert(rest[i - 1].owner == from);
        lemma_states_moved_row(rest, from, to);
        if states[0].owner == to {
            assert(first.last() == states[0]);
            assert(!keep(first.last()));
            assert(Seq::<StateRowView>::empty().filter(keep) =~= Seq::<StateRowView>::empty());
            assert(first.filter(keep) =~= Seq::<StateRowView>::empty());
            assert(moved =~= rest.filter(keep).map_values(f));
        } else {
            assert(first.filter(keep) =~= first);
            assert(moved[0] == states[0]);
            assert(moved.drop_first() =~= rest.filter(keep).map_values(f));
        }
    }
}

proof fn lemma_no_owner_count(playlists: Seq<PlaylistRowView>, owner: Seq<char>)
    requires
        !owns_playlist(playlists, owner),
    ensures
        playlists.filter(of_owner(owner)).len() == 0,
    decreases playlists.len(),
{
    reveal(Seq::filter);
    if playlists.len() > 0 {
        let rest = playlists.drop_last();
        if owns_playlist(rest, owner) {
            let i = choose|i: int| 0 <= i < rest.len() && #[trigger] rest[i].owner == owner;
            assert(playlists[i].owner == owner);
        }
        lemma_no_owner_count(rest, owner);
        assert(playlists.last() == playlists[playlists.len() - 1]);
    }
}

/// An account that signs in on a computer with an offline library takes
/// it over: no playlist is left to the offline owner, the account has as
/// many playlists as the offline library had, and the offline library's
/// state, when it has one, becomes the account's.
pub proof fn law_adoption_moves_the_offline_library(db: LibraryView, owner: Seq<char>)
    requires
        owner != local_owner(),
        adoption_applies(db, owner),
    ensures
        ({
            let after = library_adopted(db, owner);
            &&& after.playlists.filter(of_owner(local_owner())).len() == 0
            &&& after.playlists.filter(of_owner(owner)).len() == db.playlists.filter(of_owner(local_owner())).len()
            &&& owns_state(db.states, local_owner()) ==> library_state_of(after, owner) == library_state_of(db, local_owner())
            &&& after.session is None ==> active_owner_of(after) == owner
        }),
{
    lemma_moved_counts(db.playlists, local_owner(), owner);
    lemma_no_owner_count(db.playlists, owner);
    if owns_state(db.states, local_owner()) {
        lemma_states_moved_row(db.states, local_owner(), owner);
    }
}

/// Signing out keeps the account's library the active one: the owner
/// stays the account until another one signs in.
pub proof fn law_sign_out_keeps_the_owner(db: LibraryView, session: SessionView)
    ensures
        ({
            let signed_in = LibraryView {
                session: Some(session),
                active_owner: Some(ascii_lower_seq(session.email)),
                ..db
            };
            &&& active_owner_of(signed_in) == ascii_lower_seq(session.email)
            &&& active_owner_of(with_session(signed_in, None)) == ascii_lower_seq(session.email)
        }),
{
}

proof fn lemma_saved_row(playlists: Seq<PlaylistRowView>, owner: Seq<char>, record: PlaylistRecordView)
    ensures
        ({
            let saved = playlist_saved(playlists, owner, record);
            exists|i: int|
                0 <= i < saved.len() && #[trigger] saved[i] == (PlaylistRowView { owner: owner, record: record_stored(record) })
        }),
{
    let saved = playlist_saved(playlists, owner, record);
    if has_playlist(playlists, owner, record.figure_id, false) {
        let i = choose|i: int| 0 <= i < playlists.len() && playlist_targeted(#[trigger] playlists[i], owner, record.figure_id, false);
        assert(saved[i] == (PlaylistRowView { owner: owner, record: record_stored(record) }));
    } else {
        assert(saved[playlists.len() as int] == (PlaylistRowView { owner: owner, record: record_stored(record) }));
    }
}

/// A saved playlist is live: the owner has it, not deleted, with exactly
/// the saved name, flags and tracks.
pub proof fn law_saved_playlist_is_live(db: LibraryView, owner: Seq<char>, record: PlaylistRecordView)
    ensures
        ({
            let saved = playlist_saved(db.playlists, owner, record);
            &&& has_playlist(saved, owner, record.figure_id, true)
            &&& exists|i: int|
                0 <= i < saved.len() && #[trigger] saved[i] == (PlaylistRowView { owner: owner, record: record_stored(record) })
        }),
{
    lemma_saved_row(db.playlists, owner, record);
    let saved = playlist_saved(db.playlists, owner, record);
    let i = choose|i: int|
        0 <= i < saved.len() && #[trigger] saved[i] == (PlaylistRowView { owner: owner, record: record_stored(record) });
    assert(playlist_targeted(saved[i], owner, record.figure_id, true));
}

} // verus!
