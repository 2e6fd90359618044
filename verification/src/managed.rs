//! The managed library: playlists kept on this computer, owner by owner,
//! with their audio files in a cache directory, and synchronized with the
//! cloud. What the library shows, which identifiers new playlists take,
//! which audio files are accepted, and every decision of a synchronization
//! are made here; copying, downloading and uploading are left to the
//! program that runs them.
use vstd::prelude::*;
use crate::card::{default_label, default_track_label};
use crate::digest::{sha256_hex, sha256_hex_of};
use crate::error::EditorError;
use crate::ids::{extension, extension_of, file_stem, file_stem_of, is_custom_figure_id, is_custom_id, nfc_payload, nfc_payload_of};
use crate::paths::{join_path, joined};
use crate::cloud::{cloud_playlist_views, CloudLibrary, CloudPlaylist, CloudPlaylistView, CloudTrack, CloudTrackView};
use crate::storage::{
    active_owner_of, has_playlist, library_state_of, local_owner, managed_playlists_of, owns_playlist,
    playlist_renamed, playlist_marked_deleted, playlist_targeted, playlist_views, text_opt, track_views, LibraryDatabase, LibraryView,
    ManagedPlaylistRecord, ManagedTrackRecord, PlaylistRecordView, TrackRecordView,
};
use crate::text::{
    append_str, decimal, eq_ignore_ascii_case, equals_ignore_ascii_case, owned, push_decimal, push_two_digits,
    same_text, take_chars, trim, trimmed_prefix, two_digits,
};

verus! {

// ---------------------------------------------------------------------------
// What the library shows
// ---------------------------------------------------------------------------

/// A track of a playlist, as the editor shows it.
pub struct ManagedTrack {
    pub position: u16,
    pub label: String,
    pub audio_available: bool,
    pub audio_size_bytes: u64,
    pub audio_sha256: String,
    pub local_path: Option<String>,
}

/// A playlist, as the editor shows it.
pub struct ManagedPlaylist {
    pub figure_id: String,
    pub name: String,
    pub nfc_payload: String,
    pub track_count: u16,
    pub tracks: Vec<ManagedTrack>,
    pub updated_at: String,
    pub pending_sync: bool,
}

/// The managed library, as the editor shows it.
pub struct ManagedLibrary {
    pub version: i64,
    pub playlists: Vec<ManagedPlaylist>,
    pub storage_used_bytes: u64,
    pub storage_limit_bytes: u64,
    pub offline: bool,
    pub pending_changes: usize,
    pub last_error: Option<String>,
}

/// A regular file found in the audio cache, with its size.
pub struct CachedFile {
    pub path: String,
    pub size_bytes: u64,
}

#[verifier::ext_equal]
pub struct ManagedTrackView {
    pub position: u16,
    pub label: Seq<char>,
    pub audio_available: bool,
    pub audio_size_bytes: u64,
    pub audio_sha256: Seq<char>,
    pub local_path: Option<Seq<char>>,
}

impl View for ManagedTrack {
    type V = ManagedTrackView;

    open spec fn view(&self) -> ManagedTrackView {
        ManagedTrackView {
            position: self.position,
            label: self.label@,
            audio_available: self.audio_available,
            audio_size_bytes: self.audio_size_bytes,
            audio_sha256: self.audio_sha256@,
            local_path: text_opt(self.local_path),
        }
    }
}

#[verifier::ext_equal]
pub struct ManagedPlaylistView {
    pub figure_id: Seq<char>,
    pub name: Seq<char>,
    pub nfc_payload: Seq<char>,
    pub track_count: u16,
    pub tracks: Seq<ManagedTrackView>,
    pub updated_at: Seq<char>,
    pub pending_sync: bool,
}

impl View for ManagedPlaylist {
    type V = ManagedPlaylistView;

    open spec fn view(&self) -> ManagedPlaylistView {
        ManagedPlaylistView {
            figure_id: self.figure_id@,
            name: self.name@,
            nfc_payload: self.nfc_payload@,
            track_count: self.track_count,
            tracks: self.tracks@.map_values(|t: ManagedTrack| t@),
            updated_at: self.updated_at@,
            pending_sync: self.pending_sync,
        }
    }
}

#[verifier::ext_equal]
pub struct ManagedLibraryView {
    pub version: i64,
    pub playlists: Seq<ManagedPlaylistView>,
    pub storage_used_bytes: u64,
    pub storage_limit_bytes: u64,
    pub offline: bool,
    pub pending_changes: nat,
    pub last_error: Option<Seq<char>>,
}

impl View for ManagedLibrary {
    type V = ManagedLibraryView;

    open spec fn view(&self) -> ManagedLibraryView {
        ManagedLibraryView {
            version: self.version,
            playlists: self.playlists@.map_values(|p: ManagedPlaylist| p@),
            storage_used_bytes: self.storage_used_bytes,
            storage_limit_bytes: self.storage_limit_bytes,
            offline: self.offline,
            pending_changes: self.pending_changes as nat,
            last_error: text_opt(self.last_error),
        }
    }
}

#[verifier::ext_equal]
pub struct CachedFileView {
    pub path: Seq<char>,
    pub size_bytes: u64,
}

impl View for CachedFile {
    type V = CachedFileView;

    open spec fn view(&self) -> CachedFileView {
        CachedFileView { path: self.path@, size_bytes: self.size_bytes }
    }
}

pub open spec fn file_views(files: Seq<CachedFile>) -> Seq<CachedFileView> {
    files.map_values(|f: CachedFile| f@)
}

// ---------------------------------------------------------------------------
// Names and places
// ---------------------------------------------------------------------------

/// A playlist name: trimmed, at most 100 characters.
pub open spec fn normalized_name(value: Seq<char>) -> Seq<char> {
    take_chars(trim(value), 100)
}

/// A track label: trimmed, at most 200 characters, `Piste n` when empty.
pub open spec fn normalized_track_label(value: Seq<char>, position: u16) -> Seq<char> {
    let label = take_chars(trim(value), 200);
    if label.len() == 0 {
        default_track_label(position)
    } else {
        label
    }
}

/// The name a file gives a playlist or a track: its stem, `Piste` when the
/// path has no file name.
pub open spec fn name_from_file(file_name: Option<Seq<char>>) -> Seq<char> {
    match file_name {
        Some(name) => normalized_name(file_stem_of(name)),
        None => normalized_name("Piste"@),
    }
}

/// The cache directory of `owner`: the hex SHA-256 of the owner's name.
pub open spec fn owner_directory_of(root: Seq<char>, owner: Seq<char>) -> Seq<char> {
    joined(root, sha256_hex(vstd::utf8::encode_utf8(owner)))
}

/// The cache directory of a playlist.
pub open spec fn playlist_directory_of(root: Seq<char>, owner: Seq<char>, figure_id: Seq<char>) -> Seq<char> {
    joined(owner_directory_of(root, owner), seq!['K'] + figure_id)
}

/// The name of the cached audio file of the track at `position`.
pub open spec fn track_file_name_of(position: u16) -> Seq<char> {
    two_digits(position as nat) + ".mp3"@
}

/// The cached audio file of a track.
pub open spec fn track_path_of(root: Seq<char>, owner: Seq<char>, figure_id: Seq<char>, position: u16) -> Seq<char> {
    joined(playlist_directory_of(root, owner, figure_id), track_file_name_of(position))
}

/// A playlist name: trimmed, at most 100 characters.
pub fn normalize_name(value: &str) -> (name: String)
    ensures
        name@ == normalized_name(value@),
{
    trimmed_prefix(value, 100)
}

/// A track label: trimmed, at most 200 characters, `Piste n` when empty.
pub fn normalize_track_label(value: &str, position: u16) -> (label: String)
    ensures
        label@ == normalized_track_label(value@, position),
{
    let label = trimmed_prefix(value, 200);
    if crate::text::chars_of(label.as_str()).len() == 0 {
        default_label(position)
    } else {
        label
    }
}

/// The name a file gives a playlist or a track.
pub fn file_stem_name(file_name: Option<&str>) -> (name: String)
    ensures
        name@ == name_from_file(match file_name {
            Some(n) => Some(n@),
            None => None,
        }),
{
    match file_name {
        Some(n) => {
            let stem = file_stem(n);
            normalize_name(stem.as_str())
        },
        None => {
            proof {
                reveal_strlit("Piste");
            }
            normalize_name("Piste")
        },
    }
}

/// The cache directory of `owner`.
pub fn owner_directory(library_root: &str, owner: &str) -> (path: String)
    ensures
        path@ == owner_directory_of(library_root@, owner@),
{
    let digest = sha256_hex_of(owner.as_bytes());
    join_path(library_root, digest.as_str())
}

/// The cache directory of a playlist.
pub fn playlist_directory(library_root: &str, owner: &str, figure_id: &str) -> (path: String)
    ensures
        path@ == playlist_directory_of(library_root@, owner@, figure_id@),
{
    let dir = owner_directory(library_root, owner);
    let mut folder = String::new();
    crate::text::push_char(&mut folder, 'K');
    append_str(&mut folder, figure_id);
    assert(folder@ =~= seq!['K'] + figure_id@);
    join_path(dir.as_str(), folder.as_str())
}

/// The name of the cached audio file of the track at `position`.
pub fn track_file_name(position: u16) -> (name: String)
    ensures
        name@ == track_file_name_of(position),
{
    let mut name = String::new();
    push_two_digits(&mut name, position as u128);
    append_str(&mut name, ".mp3");
    proof {
        reveal_strlit(".mp3");
    }
    name
}

/// The cached audio file of a track.
pub fn track_path(library_root: &str, owner: &str, figure_id: &str, position: u16) -> (path: String)
    ensures
        path@ == track_path_of(library_root@, owner@, figure_id@, position),
{
    let dir = playlist_directory(library_root, owner, figure_id);
    let name = track_file_name(position);
    join_path(dir.as_str(), name.as_str())
}

/// Accepts the identifiers of managed playlists: `2000` to `8999`.
pub fn validate_figure_id(value: &str) -> (result: Result<(), EditorError>)
    ensures
        result is Ok <==> is_custom_id(value@),
        result is Err ==> result == Err::<(), EditorError>(EditorError::NotCustomFigureId),
{
    if is_custom_figure_id(value) {
        Ok(())
    } else {
        Err(EditorError::NotCustomFigureId)
    }
}

// ---------------------------------------------------------------------------
// New identifiers
// ---------------------------------------------------------------------------

/// The smallest identifier from `n` to `8999` that `used` does not hold.
pub open spec fn first_free_id(used: Seq<Seq<char>>, n: nat) -> Option<nat>
    decreases 9000 - n,
{
    if n > 8999 {
        None
    } else if !used.contains(decimal(n)) {
        Some(n)
    } else {
        first_free_id(used, n + 1)
    }
}

fn holds_text(values: &Vec<String>, text: &str) -> (found: bool)
    ensures
        found == values@.map_values(|s: String| s@).contains(text@),
{
    let ghost views = values@.map_values(|s: String| s@);
    let mut i: usize = 0;
    while i < values.len()
        invariant
            0 <= i <= values.len(),
            views == values@.map_values(|s: String| s@),
            forall|j: int| 0 <= j < i ==> #[trigger] views[j] != text@,
        decreases values.len() - i,
    {
        if same_text(values[i].as_str(), text) {
            assert(views[i as int] == text@);
            return true;
        }
        i += 1;
    }
    false
}

/// The smallest custom identifier that `used` does not hold.
pub fn next_available_id(used: &Vec<String>) -> (result: Result<String, EditorError>)
    ensures
        match first_free_id(used@.map_values(|s: String| s@), 2000) {
            Some(n) => result matches Ok(id) && id@ == decimal(n),
            None => result == Err::<String, EditorError>(EditorError::NoFreeFigureId),
        },
{
    let ghost views = used@.map_values(|s: String| s@);
    let mut n: u32 = 2000;
    while n <= 8999
        invariant
            2000 <= n <= 9000,
            views == used@.map_values(|s: String| s@),
            first_free_id(views, 2000) == first_free_id(views, n as nat),
        decreases 9000 - n,
    {
        let mut candidate = String::new();
        push_decimal(&mut candidate, n as u128);
        if !holds_text(used, candidate.as_str()) {
            return Ok(candidate);
        }
        n += 1;
    }
    Err(EditorError::NoFreeFigureId)
}

/// The identifiers `count` new playlists take, one after the other, each
/// the smallest custom identifier free beside `used` and those before it;
/// when none is left the list stops short.
pub open spec fn allocated_ids(used: Seq<Seq<char>>, count: nat) -> Seq<Seq<char>>
    decreases count,
{
    if count == 0 {
        Seq::empty()
    } else {
        let earlier = allocated_ids(used, (count - 1) as nat);
        match first_free_id(used + earlier, 2000) {
            Some(n) => earlier.push(decimal(n)),
            None => earlier,
        }
    }
}

/// The identifiers for `count` new playlists beside `used`, allocated one
/// after the other as `next_available_id` gives them.
pub fn allocate_ids(used: &Vec<String>, count: usize) -> (ids: Vec<String>)
    ensures
        ids@.map_values(|s: String| s@) == allocated_ids(used@.map_values(|s: String| s@), count as nat),
{
    let ghost uv = used@.map_values(|s: String| s@);
    let mut all: Vec<String> = Vec::new();
    let mut k: usize = 0;
    while k < used.len()
        invariant
            0 <= k <= used.len(),
            uv == used@.map_values(|s: String| s@),
            all@.map_values(|s: String| s@) =~= uv.take(k as int),
        decreases used.len() - k,
    {
        let ghost prev = all@;
        all.push(used[k].clone());
        assert(all@ == prev.push(used@[k as int]));
        assert(all@.map_values(|s: String| s@) =~= prev.map_values(|s: String| s@).push(used@[k as int]@));
        assert(uv.take(k + 1) =~= uv.take(k as int).push(uv[k as int]));
        k += 1;
    }
    assert(uv.take(used.len() as int) =~= uv);
    let mut ids: Vec<String> = Vec::new();
    let mut i: usize = 0;
    while i < count
        invariant
            0 <= i <= count,
            ids@.map_values(|s: String| s@) == allocated_ids(uv, i as nat),
            all@.map_values(|s: String| s@) == uv + allocated_ids(uv, i as nat),
        decreases count - i,
    {
        let ghost before = ids@;
        let ghost all_before = all@;
        match next_available_id(&all) {
            Ok(id) => {
                let copy = id.clone();
                ids.push(copy);
                all.push(id);
                assert(ids@ == before.push(copy));
                assert(all@ == all_before.push(copy));
                assert(ids@.map_values(|s: String| s@) =~= before.map_values(|s: String| s@).push(copy@));
                assert(all@.map_values(|s: String| s@) =~= all_before.map_values(|s: String| s@).push(copy@));
            },
            Err(_) => {},
        }
        assert(allocated_ids(uv, (i + 1) as nat) == {
            let earlier = allocated_ids(uv, i as nat);
            match first_free_id(uv + earlier, 2000) {
                Some(n) => earlier.push(decimal(n)),
                None => earlier,
            }
        });
        assert(all@.map_values(|s: String| s@) =~= uv + allocated_ids(uv, (i + 1) as nat));
        i += 1;
    }
    ids
}

// ---------------------------------------------------------------------------
// Audio files offered to the library
// ---------------------------------------------------------------------------

/// The largest audio file a playlist takes: 200 MiB.
pub const MAX_TRACK_BYTES: u64 = 209715200;

/// The most files one batch import takes.
pub const MAX_BATCH_FILES: usize = 500;

/// An audio file offered to the library, as found on disk: its path, the
/// file name the platform reads in it, whether it is a regular file and
/// its size.
pub struct AudioCandidate {
    pub path: String,
    pub file_name: Option<String>,
    pub is_file: bool,
    pub size_bytes: u64,
}

/// Whether the file name ends with an `.mp3` extension, in any case.
pub open spec fn has_mp3_extension(file_name: Option<String>) -> bool {
    match file_name {
        Some(name) => match extension_of(name@) {
            Some(e) => eq_ignore_ascii_case(e, "mp3"@),
            None => false,
        },
        None => false,
    }
}

/// Why a candidate is refused, if it is.
pub open spec fn audio_refusal(c: AudioCandidate) -> Option<EditorError> {
    if !c.is_file {
        Some(EditorError::AudioMissing(c.path))
    } else if !has_mp3_extension(c.file_name) {
        Some(EditorError::NotMp3(c.path))
    } else if c.size_bytes > MAX_TRACK_BYTES {
        Some(EditorError::AudioTooLarge(c.path))
    } else {
        None
    }
}

/// The first refused candidate from `i` on.
pub open spec fn first_refusal(candidates: Seq<AudioCandidate>, i: int) -> Option<EditorError>
    decreases candidates.len() - i,
{
    if i >= candidates.len() || i < 0 {
        None
    } else {
        match audio_refusal(candidates[i]) {
            Some(e) => Some(e),
            None => first_refusal(candidates, i + 1),
        }
    }
}

fn is_mp3_file_name(file_name: &Option<String>) -> (result: bool)
    ensures
        result == has_mp3_extension(*file_name),
{
    match file_name {
        Some(name) => match extension(name.as_str()) {
            Some(e) => {
                proof {
                    reveal_strlit("mp3");
                }
                equals_ignore_ascii_case(e.as_str(), "mp3")
            },
            None => false,
        },
        None => false,
    }
}

/// Accepts 1 to `maximum` regular MP3 files of at most 200 MiB; the first
/// file refused is named in the error.
pub fn validate_audio_paths(candidates: &Vec<AudioCandidate>, maximum: usize) -> (result: Result<(), EditorError>)
    ensures
        candidates@.len() == 0 || candidates@.len() > maximum ==> result == Err::<(), EditorError>(
            EditorError::AudioCount(maximum as u64),
        ),
        0 < candidates@.len() <= maximum ==> match first_refusal(candidates@, 0) {
            Some(e) => result == Err::<(), EditorError>(e),
            None => result is Ok,
        },
{
    if candidates.len() == 0 || candidates.len() > maximum {
        return Err(EditorError::AudioCount(maximum as u64));
    }
    let mut i: usize = 0;
    while i < candidates.len()
        invariant
            0 <= i <= candidates.len(),
            0 < candidates@.len() <= maximum,
            first_refusal(candidates@, 0) == first_refusal(candidates@, i as int),
        decreases candidates.len() - i,
    {
        let c = &candidates[i];
        if !c.is_file {
            return Err(EditorError::AudioMissing(c.path.clone()));
        }
        if !is_mp3_file_name(&c.file_name) {
            return Err(EditorError::NotMp3(c.path.clone()));
        }
        if c.size_bytes > MAX_TRACK_BYTES {
            return Err(EditorError::AudioTooLarge(c.path.clone()));
        }
        i += 1;
    }
    Ok(())
}

// ---------------------------------------------------------------------------
// The library as cached on this computer
// ---------------------------------------------------------------------------

/// Whether the cache holds a regular file at `path` of exactly `size` bytes.
pub open spec fn file_present(files: Seq<CachedFileView>, path: Seq<char>, size: u64) -> bool {
    exists|i: int| 0 <= i < files.len() && #[trigger] files[i] == (CachedFileView { path: path, size_bytes: size })
}

/// A track as shown: available when its cached file has the recorded size.
pub open spec fn shown_track(
    root: Seq<char>,
    owner: Seq<char>,
    figure_id: Seq<char>,
    t: TrackRecordView,
    files: Seq<CachedFileView>,
) -> ManagedTrackView {
    let path = track_path_of(root, owner, figure_id, t.position);
    let available = file_present(files, path, t.audio_size_bytes);
    ManagedTrackView {
        position: t.position,
        label: t.label,
        audio_available: available,
        audio_size_bytes: t.audio_size_bytes,
        audio_sha256: t.audio_sha256,
        local_path: if available {
            Some(path)
        } else {
            None
        },
    }
}

/// A playlist as shown.
pub open spec fn shown_playlist(
    root: Seq<char>,
    owner: Seq<char>,
    r: PlaylistRecordView,
    files: Seq<CachedFileView>,
) -> ManagedPlaylistView {
    ManagedPlaylistView {
        figure_id: r.figure_id,
        name: r.name,
        nfc_payload: nfc_payload_of(r.figure_id),
        track_count: r.tracks.len() as u16,
        tracks: r.tracks.map_values(|t: TrackRecordView| shown_track(root, owner, r.figure_id, t, files)),
        updated_at: r.updated_at,
        pending_sync: r.dirty,
    }
}

/// The bytes a track holds in the cache.
pub open spec fn track_bytes(t: ManagedTrackView) -> nat {
    if t.audio_available {
        t.audio_size_bytes as nat
    } else {
        0
    }
}

pub open spec fn tracks_bytes(tracks: Seq<ManagedTrackView>) -> nat
    decreases tracks.len(),
{
    if tracks.len() == 0 {
        0
    } else {
        tracks_bytes(tracks.drop_last()) + track_bytes(tracks.last())
    }
}

pub open spec fn playlists_bytes(playlists: Seq<ManagedPlaylistView>) -> nat
    decreases playlists.len(),
{
    if playlists.len() == 0 {
        0
    } else {
        playlists_bytes(playlists.drop_last()) + tracks_bytes(playlists.last().tracks)
    }
}

/// `n`, or `u64::MAX` when it does not fit.
pub open spec fn saturated(n: nat) -> u64 {
    if n > u64::MAX {
        u64::MAX
    } else {
        n as u64
    }
}

pub open spec fn is_dirty() -> spec_fn(PlaylistRecordView) -> bool {
    |r: PlaylistRecordView| r.dirty
}

/// The library of the active owner as cached on this computer: its live
/// playlists by identifier, which audio files are in the cache, the bytes
/// they take, and how many playlists wait for a push.
pub open spec fn cached_library_of(
    db: LibraryView,
    root: Seq<char>,
    files: Seq<CachedFileView>,
    offline: bool,
    last_error: Option<Seq<char>>,
) -> ManagedLibraryView {
    let owner = active_owner_of(db);
    let state = library_state_of(db, owner);
    let playlists = managed_playlists_of(db, owner, false).map_values(
        |r: PlaylistRecordView| shown_playlist(root, owner, r, files),
    );
    ManagedLibraryView {
        version: state.version,
        playlists: playlists,
        storage_used_bytes: saturated(playlists_bytes(playlists)),
        storage_limit_bytes: state.storage_limit_bytes,
        offline: offline,
        pending_changes: managed_playlists_of(db, owner, true).filter(is_dirty()).len(),
        last_error: last_error,
    }
}

fn file_present_in(files: &Vec<CachedFile>, path: &str, size: u64) -> (present: bool)
    ensures
        present == file_present(file_views(files@), path@, size),
{
    let ghost views = file_views(files@);
    let mut i: usize = 0;
    while i < files.len()
        invariant
            0 <= i <= files.len(),
            views == file_views(files@),
            forall|j: int| 0 <= j < i ==> #[trigger] views[j] != (CachedFileView { path: path@, size_bytes: size }),
        decreases files.len() - i,
    {
        assert(views[i as int] == files@[i as int]@);
        if files[i].size_bytes == size && same_text(files[i].path.as_str(), path) {
            assert(views[i as int] == (CachedFileView { path: path@, size_bytes: size }));
            return true;
        }
        assert(views[i as int] != (CachedFileView { path: path@, size_bytes: size }));
        i += 1;
    }
    false
}

fn dirty_count(records: &Vec<ManagedPlaylistRecord>) -> (count: usize)
    ensures
        count == playlist_views(records@).filter(is_dirty()).len(),
{
    let ghost views = playlist_views(records@);
    let mut count: usize = 0;
    let mut i: usize = 0;
    assert(views.take(0).filter(is_dirty()) =~= Seq::<PlaylistRecordView>::empty()) by {
        reveal(Seq::filter);
    }
    while i < records.len()
        invariant
            0 <= i <= records.len(),
            views == playlist_views(records@),
            count == views.take(i as int).filter(is_dirty()).len(),
            count <= i,
        decreases records.len() - i,
    {
        proof {
            crate::order::lemma_filter_take_step(views, i as int, is_dirty());
        }
        assert(views[i as int] == records@[i as int]@);
        if records[i].dirty {
            count += 1;
        }
        i += 1;
    }
    assert(views.take(views.len() as int) =~= views);
    count
}

fn show_playlist(
    library_root: &str,
    owner: &str,
    record: &ManagedPlaylistRecord,
    files: &Vec<CachedFile>,
    used: &mut u64,
    Ghost(before): Ghost<nat>,
) -> (shown: ManagedPlaylist)
    requires
        *old(used) == saturated(before),
    ensures
        shown@ == shown_playlist(library_root@, owner@, record@, file_views(files@)),
        *final(used) == saturated(before + tracks_bytes(shown@.tracks)),
{
    let ghost target = record@.tracks.map_values(
        |t: TrackRecordView| shown_track(library_root@, owner@, record@.figure_id, t, file_views(files@)),
    );
    let mut tracks: Vec<ManagedTrack> = Vec::new();
    let mut i: usize = 0;
    while i < record.tracks.len()
        invariant
            0 <= i <= record.tracks.len(),
            target == record@.tracks.map_values(
                |t: TrackRecordView| shown_track(library_root@, owner@, record@.figure_id, t, file_views(files@)),
            ),
            tracks@.map_values(|t: ManagedTrack| t@) == target.take(i as int),
            *used == saturated(before + tracks_bytes(target.take(i as int))),
        decreases record.tracks.len() - i,
    {
        let t = &record.tracks[i];
        assert(record@.tracks[i as int] == t@);
        let path = track_path(library_root, owner, record.figure_id.as_str(), t.position);
        let available = file_present_in(files, path.as_str(), t.audio_size_bytes);
        if available {
            *used = used.saturating_add(t.audio_size_bytes);
        }
        let ghost prev = tracks@;
        tracks.push(
            ManagedTrack {
                position: t.position,
                label: t.label.clone(),
                audio_available: available,
                audio_size_bytes: t.audio_size_bytes,
                audio_sha256: t.audio_sha256.clone(),
                local_path: if available {
                    Some(path)
                } else {
                    None
                },
            },
        );
        assert(target.take(i + 1).drop_last() =~= target.take(i as int));
        assert(tracks@.map_values(|t: ManagedTrack| t@) =~= target.take(i + 1));
        i += 1;
    }
    assert(target.take(target.len() as int) =~= target);
    let count = record.tracks.len() as u16;
    let shown = ManagedPlaylist {
        figure_id: record.figure_id.clone(),
        name: record.name.clone(),
        nfc_payload: nfc_payload(record.figure_id.as_str()),
        track_count: count,
        tracks,
        updated_at: record.updated_at.clone(),
        pending_sync: record.dirty,
    };
    assert(shown@ =~= shown_playlist(library_root@, owner@, record@, file_views(files@)));
    shown
}

/// The library of the active owner as cached on this computer. `files`
/// lists the regular files found under `library_root`, with their sizes.
pub fn cached_library(
    database: &LibraryDatabase,
    library_root: &str,
    files: &Vec<CachedFile>,
    offline: bool,
    last_error: Option<String>,
) -> (library: ManagedLibrary)
    ensures
        library@ == cached_library_of(database@, library_root@, file_views(files@), offline, text_opt(last_error)),
{
    let owner = database.active_library_owner();
    let records = database.managed_playlists(owner.as_str(), false);
    let all = database.managed_playlists(owner.as_str(), true);
    let pending_changes = dirty_count(&all);
    let state = database.managed_library_state(owner.as_str());
    let ghost target = managed_playlists_of(database@, owner@, false).map_values(
        |r: PlaylistRecordView| shown_playlist(library_root@, owner@, r, file_views(files@)),
    );
    let mut used: u64 = 0;
    let mut playlists: Vec<ManagedPlaylist> = Vec::new();
    let mut i: usize = 0;
    while i < records.len()
        invariant
            0 <= i <= records.len(),
            playlist_views(records@) == managed_playlists_of(database@, owner@, false),
            target == managed_playlists_of(database@, owner@, false).map_values(
                |r: PlaylistRecordView| shown_playlist(library_root@, owner@, r, file_views(files@)),
            ),
            playlists@.map_values(|p: ManagedPlaylist| p@) == target.take(i as int),
            used == saturated(playlists_bytes(target.take(i as int))),
        decreases records.len() - i,
    {
        assert(playlist_views(records@)[i as int] == records@[i as int]@);
        let shown = show_playlist(
            library_root,
            owner.as_str(),
            &records[i],
            files,
            &mut used,
            Ghost(playlists_bytes(target.take(i as int))),
        );
        playlists.push(shown);
        assert(target.take(i + 1).drop_last() =~= target.take(i as int));
        assert(playlists@.map_values(|p: ManagedPlaylist| p@) =~= target.take(i + 1));
        i += 1;
    }
    assert(target.take(target.len() as int) =~= target);
    let library = ManagedLibrary {
        version: state.version,
        playlists,
        storage_used_bytes: used,
        storage_limit_bytes: state.storage_limit_bytes,
        offline,
        pending_changes,
        last_error,
    };
    assert(library@ =~= cached_library_of(database@, library_root@, file_views(files@), offline, text_opt(last_error)));
    library
}

/// Whether every track of a playlist has its audio file in the cache, and
/// it has at least one.
pub open spec fn complete(p: ManagedPlaylistView) -> bool {
    p.tracks.len() > 0 && forall|k: int| 0 <= k < p.tracks.len() ==> (#[trigger] p.tracks[k]).audio_available
}

/// The cached audio files of a playlist, in track order.
pub open spec fn audio_paths_of(p: ManagedPlaylistView) -> Seq<Seq<char>> {
    p.tracks.map_values(
        |t: ManagedTrackView|
            match t.local_path {
                Some(path) => path,
                None => Seq::empty(),
            },
    )
}

/// The first playlist with identifier `id`.
pub open spec fn playlist_with_id(playlists: Seq<ManagedPlaylistView>, id: Seq<char>) -> Option<ManagedPlaylistView>
    decreases playlists.len(),
{
    if playlists.len() == 0 {
        None
    } else if playlists[0].figure_id == id {
        Some(playlists[0])
    } else {
        playlist_with_id(playlists.drop_first(), id)
    }
}

/// The first playlist that is not complete.
pub open spec fn first_incomplete(playlists: Seq<ManagedPlaylistView>) -> Option<ManagedPlaylistView>
    decreases playlists.len(),
{
    if playlists.len() == 0 {
        None
    } else if !complete(playlists[0]) {
        Some(playlists[0])
    } else {
        first_incomplete(playlists.drop_first())
    }
}

pub open spec fn string_views(values: Seq<String>) -> Seq<Seq<char>> {
    values.map_values(|s: String| s@)
}

/// Every track names its cached file exactly when that file is available.
pub open spec fn paths_consistent(p: ManagedPlaylistView) -> bool {
    forall|k: int| 0 <= k < p.tracks.len() ==> (#[trigger] p.tracks[k]).audio_available == (p.tracks[k].local_path is Some)
}

fn complete_paths(p: &ManagedPlaylist) -> (paths: Option<Vec<String>>)
    requires
        paths_consistent(p@),
    ensures
        match paths {
            Some(v) => complete(p@) && string_views(v@) == audio_paths_of(p@),
            None => !complete(p@),
        },
{
    if p.tracks.len() == 0 {
        return None;
    }
    let mut paths: Vec<String> = Vec::new();
    let mut i: usize = 0;
    while i < p.tracks.len()
        invariant
            0 <= i <= p.tracks.len(),
            p.tracks@.len() > 0,
            paths_consistent(p@),
            forall|k: int| 0 <= k < i ==> (#[trigger] p@.tracks[k]).audio_available,
            string_views(paths@) == audio_paths_of(p@).take(i as int),
        decreases p.tracks.len() - i,
    {
        let t = &p.tracks[i];
        assert(p@.tracks[i as int] == t@);
        if !t.audio_available {
            return None;
        }
        match &t.local_path {
            Some(path) => {
                let ghost prev = paths@;
                paths.push(path.clone());
                assert(audio_paths_of(p@)[i as int] == path@);
                assert(string_views(paths@) =~= string_views(prev).push(path@));
            },
            None => {
                assert(p@.tracks[i as int].local_path is Some);
                return None;
            },
        }
        assert(string_views(paths@) =~= audio_paths_of(p@).take(i + 1));
        i += 1;
    }
    assert(audio_paths_of(p@).take(p@.tracks.len() as int) =~= audio_paths_of(p@));
    Some(paths)
}

/// Playlists of the cached library name their cached files exactly when
/// they are available.
proof fn lemma_cached_paths_consistent(
    db: LibraryView,
    root: Seq<char>,
    files: Seq<CachedFileView>,
    offline: bool,
    last_error: Option<Seq<char>>,
)
    ensures
        forall|j: int|
            0 <= j < cached_library_of(db, root, files, offline, last_error).playlists.len() ==> paths_consistent(
                #[trigger] cached_library_of(db, root, files, offline, last_error).playlists[j],
            ),
{
}

/// The playlist `figure_id` of the cached library with the paths of its
/// audio files, when they are all in the cache.
pub fn playlist_audio_paths(
    database: &LibraryDatabase,
    library_root: &str,
    files: &Vec<CachedFile>,
    figure_id: &str,
) -> (result: Result<(ManagedPlaylist, Vec<String>), EditorError>)
    ensures
        !is_custom_id(figure_id@) ==> result == Err::<(ManagedPlaylist, Vec<String>), EditorError>(
            EditorError::NotCustomFigureId,
        ),
        is_custom_id(figure_id@) ==> match playlist_with_id(
            cached_library_of(database@, library_root@, file_views(files@), true, None).playlists,
            figure_id@,
        ) {
            None => result == Err::<(ManagedPlaylist, Vec<String>), EditorError>(EditorError::PlaylistNotFound),
            Some(p) => if complete(p) {
                result matches Ok((q, paths)) && q@ == p && string_views(paths@) == audio_paths_of(p)
            } else {
                result == Err::<(ManagedPlaylist, Vec<String>), EditorError>(EditorError::AudioUnavailable)
            },
        },
{
    validate_figure_id(figure_id)?;
    let library = cached_library(database, library_root, files, true, None);
    let ghost shown = library@.playlists;
    proof {
        lemma_cached_paths_consistent(database@, library_root@, file_views(files@), true, None);
    }
    let mut playlists = library.playlists;
    let mut k: usize = 0;
    let total = playlists.len();
    assert(shown.skip(0) =~= shown);
    while playlists.len() > 0
        invariant
            k <= total,
            total == shown.len(),
            is_custom_id(figure_id@),
            shown == cached_library_of(database@, library_root@, file_views(files@), true, None).playlists,
            forall|j: int| 0 <= j < shown.len() ==> paths_consistent(#[trigger] shown[j]),
            playlists@.map_values(|p: ManagedPlaylist| p@) == shown.skip(k as int),
            playlist_with_id(shown, figure_id@) == playlist_with_id(shown.skip(k as int), figure_id@),
        decreases playlists.len(),
    {
        assert(playlists@.map_values(|p: ManagedPlaylist| p@)[0] == playlists@[0]@);
        let p = playlists.remove(0);
        assert(p@ == shown[k as int]);
        if same_text(p.figure_id.as_str(), figure_id) {
            return match complete_paths(&p) {
                Some(paths) => Ok((p, paths)),
                None => Err(EditorError::AudioUnavailable),
            };
        }
        assert(shown.skip(k as int).drop_first() =~= shown.skip(k + 1));
        assert(playlists@.map_values(|p: ManagedPlaylist| p@) =~= shown.skip(k + 1));
        k += 1;
    }
    Err(EditorError::PlaylistNotFound)
}

/// Every playlist of the cached library with the paths of its audio
/// files; an empty library, or a playlist missing audio files, is refused.
pub fn all_playlist_audio_paths(database: &LibraryDatabase, library_root: &str, files: &Vec<CachedFile>) -> (result:
    Result<Vec<(ManagedPlaylist, Vec<String>)>, EditorError>)
    ensures
        ({
            let shown = cached_library_of(database@, library_root@, file_views(files@), true, None).playlists;
            if shown.len() == 0 {
                result == Err::<Vec<(ManagedPlaylist, Vec<String>)>, EditorError>(EditorError::LibraryEmpty)
            } else {
                match first_incomplete(shown) {
                    Some(p) => result matches Err(EditorError::PlaylistIncomplete(id, name)) && id@ == p.figure_id
                        && name@ == p.name,
                    None => result matches Ok(v) && v@.len() == shown.len() && forall|k: int|
                        0 <= k < v@.len() ==> (#[trigger] v@[k]).0@ == shown[k] && string_views(v@[k].1@)
                            == audio_paths_of(shown[k]),
                }
            }
        }),
{
    let library = cached_library(database, library_root, files, true, None);
    let ghost shown = library@.playlists;
    proof {
        lemma_cached_paths_consistent(database@, library_root@, file_views(files@), true, None);
    }
    if library.playlists.len() == 0 {
        return Err(EditorError::LibraryEmpty);
    }
    let mut playlists = library.playlists;
    let total = playlists.len();
    let mut result: Vec<(ManagedPlaylist, Vec<String>)> = Vec::new();
    let mut k: usize = 0;
    assert(shown.skip(0) =~= shown);
    while playlists.len() > 0
        invariant
            k <= total,
            total == shown.len(),
            shown.len() > 0,
            shown == cached_library_of(database@, library_root@, file_views(files@), true, None).playlists,
            forall|j: int| 0 <= j < shown.len() ==> paths_consistent(#[trigger] shown[j]),
            playlists@.map_values(|p: ManagedPlaylist| p@) == shown.skip(k as int),
            first_incomplete(shown) == first_incomplete(shown.skip(k as int)),
            result@.len() == k,
            forall|j: int|
                0 <= j < k ==> (#[trigger] result@[j]).0@ == shown[j] && string_views(result@[j].1@) == audio_paths_of(
                    shown[j],
                ),
        decreases playlists.len(),
    {
        assert(playlists@.map_values(|p: ManagedPlaylist| p@)[0] == playlists@[0]@);
        let p = playlists.remove(0);
        assert(p@ == shown[k as int]);
        match complete_paths(&p) {
            Some(paths) => {
                result.push((p, paths));
            },
            None => {
                return Err(EditorError::PlaylistIncomplete(p.figure_id, p.name));
            },
        }
        assert(shown.skip(k as int).drop_first() =~= shown.skip(k + 1));
        assert(playlists@.map_values(|p: ManagedPlaylist| p@) =~= shown.skip(k + 1));
        k += 1;
    }
    Ok(result)
}

// ---------------------------------------------------------------------------
// Pulling the cloud library
// ---------------------------------------------------------------------------

/// The local record of playlist `id`: the last one listed with it.
pub open spec fn local_record(local: Seq<PlaylistRecordView>, id: Seq<char>) -> Option<PlaylistRecordView>
    decreases local.len(),
{
    if local.len() == 0 {
        None
    } else if local.last().figure_id == id {
        Some(local.last())
    } else {
        local_record(local.drop_last(), id)
    }
}

/// Whether the local copy of playlist `id` has changes not pushed yet.
pub open spec fn locally_changed(local: Seq<PlaylistRecordView>, id: Seq<char>) -> bool {
    local_record(local, id) matches Some(r) && r.dirty
}

/// The position of the first cloud playlist whose identifier is not a
/// custom one: the pull stops there.
pub open spec fn pull_stop(remote: Seq<CloudPlaylistView>, i: int) -> int
    decreases remote.len() - i,
{
    if i >= remote.len() || i < 0 {
        remote.len() as int
    } else if !is_custom_id(remote[i].figure_id) {
        i
    } else {
        pull_stop(remote, i + 1)
    }
}

/// The cloud playlists a pull caches, in order: those before the stop
/// whose local copy has no unpushed change.
pub open spec fn pulled(local: Seq<PlaylistRecordView>, remote: Seq<CloudPlaylistView>) -> Seq<usize> {
    Seq::new(pull_stop(remote, 0) as nat, |i: int| i as usize).filter(unchanged_locally(local, remote))
}

/// Cloud playlists whose local copy has no unpushed change.
pub open spec fn unchanged_locally(local: Seq<PlaylistRecordView>, remote: Seq<CloudPlaylistView>) -> spec_fn(usize) -> bool {
    |i: usize| !locally_changed(local, remote[i as int].figure_id)
}

/// Local playlists gone from the cloud with no unpushed change.
pub open spec fn gone_from_cloud(remote: Seq<CloudPlaylistView>) -> spec_fn(PlaylistRecordView) -> bool {
    |r: PlaylistRecordView| !r.dirty && !in_cloud(remote, r.figure_id)
}

/// Whether a cloud playlist has identifier `id`.
pub open spec fn in_cloud(remote: Seq<CloudPlaylistView>, id: Seq<char>) -> bool {
    exists|i: int| 0 <= i < remote.len() && #[trigger] remote[i].figure_id == id
}

/// The local playlists a completed pull removes: those gone from the
/// cloud that have no unpushed change.
pub open spec fn purged(local: Seq<PlaylistRecordView>, remote: Seq<CloudPlaylistView>) -> Seq<Seq<char>> {
    local.filter(gone_from_cloud(remote)).map_values(|r: PlaylistRecordView| r.figure_id)
}

/// What a pull of the cloud library does.
pub struct PullPlan {
    /// The cloud playlists to cache, by position in the cloud library.
    pub cache: Vec<usize>,
    /// Whether the pull stops on a playlist whose identifier is not custom,
    /// after caching the ones before it.
    pub refused: bool,
    /// The local playlists to remove when the pull completes.
    pub purge: Vec<String>,
}

fn locally_changed_in(local: &Vec<ManagedPlaylistRecord>, id: &str) -> (changed: bool)
    ensures
        changed == locally_changed(playlist_views(local@), id@),
{
    let ghost views = playlist_views(local@);
    let mut i: usize = local.len();
    assert(views.take(local.len() as int) =~= views);
    while i > 0
        invariant
            0 <= i <= local.len(),
            views == playlist_views(local@),
            local_record(views, id@) == local_record(views.take(i as int), id@),
        decreases i,
    {
        assert(views.take(i as int).last() == local@[i - 1]@);
        if same_text(local[i - 1].figure_id.as_str(), id) {
            return local[i - 1].dirty;
        }
        assert(views.take(i as int).drop_last() =~= views.take(i - 1));
        i -= 1;
    }
    false
}

fn in_cloud_library(remote: &Vec<CloudPlaylist>, id: &str) -> (found: bool)
    ensures
        found == in_cloud(cloud_playlist_views(remote@), id@),
{
    let ghost views = cloud_playlist_views(remote@);
    let mut i: usize = 0;
    while i < remote.len()
        invariant
            0 <= i <= remote.len(),
            views == cloud_playlist_views(remote@),
            forall|j: int| 0 <= j < i ==> #[trigger] views[j].figure_id != id@,
        decreases remote.len() - i,
    {
        assert(views[i as int] == remote@[i as int]@);
        if same_text(remote[i].figure_id.as_str(), id) {
            assert(views[i as int].figure_id == id@);
            return true;
        }
        i += 1;
    }
    false
}

/// Plans a pull of `remote` over the local playlists `local` (all of the
/// owner's, deleted ones included): which cloud playlists to cache, where
/// the pull stops, and which local playlists to remove at the end.
pub fn pull_plan(local: &Vec<ManagedPlaylistRecord>, remote: &CloudLibrary) -> (plan: PullPlan)
    ensures
        plan.cache@ == pulled(playlist_views(local@), cloud_playlist_views(remote.playlists@)),
        plan.refused == (pull_stop(cloud_playlist_views(remote.playlists@), 0) < remote.playlists@.len()),
        string_views(plan.purge@) == purged(playlist_views(local@), cloud_playlist_views(remote.playlists@)),
{
    let ghost lv = playlist_views(local@);
    let ghost rv = cloud_playlist_views(remote.playlists@);
    let ghost keep = unchanged_locally(lv, rv);
    let mut cache: Vec<usize> = Vec::new();
    let mut i: usize = 0;
    assert(Seq::new(0, |j: int| j as usize).filter(keep) =~= Seq::<usize>::empty()) by {
        reveal(Seq::filter);
    }
    while i < remote.playlists.len() && is_custom_figure_id(remote.playlists[i].figure_id.as_str())
        invariant
            0 <= i <= remote.playlists.len(),
            lv == playlist_views(local@),
            rv == cloud_playlist_views(remote.playlists@),
            keep == unchanged_locally(lv, rv),
            pull_stop(rv, 0) == pull_stop(rv, i as int),
            cache@ == Seq::new(i as nat, |j: int| j as usize).filter(keep),
        decreases remote.playlists.len() - i,
    {
        assert(rv[i as int] == remote.playlists@[i as int]@);
        let ghost all = Seq::new((i + 1) as nat, |j: int| j as usize);
        proof {
            crate::order::lemma_filter_take_step(all, i as int, keep);
            assert(all.take(i + 1) =~= all);
            assert(all.take(i as int) =~= Seq::new(i as nat, |j: int| j as usize));
        }
        if !locally_changed_in(local, remote.playlists[i].figure_id.as_str()) {
            cache.push(i);
        }
        i += 1;
    }
    let refused = i < remote.playlists.len();
    proof {
        if refused {
            assert(rv[i as int] == remote.playlists@[i as int]@);
            assert(pull_stop(rv, i as int) == i);
        }
        assert(pull_stop(rv, 0) == i as int);
    }
    let ghost gone = gone_from_cloud(rv);
    let mut purge: Vec<String> = Vec::new();
    let mut k: usize = 0;
    assert(lv.take(0).filter(gone) =~= Seq::<PlaylistRecordView>::empty()) by {
        reveal(Seq::filter);
    }
    while k < local.len()
        invariant
            0 <= k <= local.len(),
            lv == playlist_views(local@),
            rv == cloud_playlist_views(remote.playlists@),
            gone == gone_from_cloud(rv),
            string_views(purge@) == lv.take(k as int).filter(gone).map_values(|r: PlaylistRecordView| r.figure_id),
        decreases local.len() - k,
    {
        assert(lv[k as int] == local@[k as int]@);
        proof {
            crate::order::lemma_filter_take_step(lv, k as int, gone);
        }
        if !local[k].dirty && !in_cloud_library(&remote.playlists, local[k].figure_id.as_str()) {
            let ghost prev = purge@;
            purge.push(local[k].figure_id.clone());
            assert(string_views(purge@) =~= string_views(prev).push(lv[k as int].figure_id));
            assert(lv.take(k + 1).filter(gone).map_values(|r: PlaylistRecordView| r.figure_id) =~= lv.take(
                k as int,
            ).filter(gone).map_values(|r: PlaylistRecordView| r.figure_id).push(lv[k as int].figure_id));
        }
        k += 1;
    }
    assert(lv.take(lv.len() as int) =~= lv);
    PullPlan { cache, refused, purge }
}

// ---------------------------------------------------------------------------
// Caching a cloud playlist
// ---------------------------------------------------------------------------

/// Where the audio of a cloud track comes from when it is cached.
pub enum TrackSource {
    /// The track has no audio in the cloud: nothing to fetch.
    Keep,
    /// The cached file of the same audio is copied from this path.
    Reuse(String),
    /// The audio is downloaded.
    Download,
}

/// Whether the cache holds a regular file at `path`.
pub open spec fn file_listed(files: Seq<CachedFileView>, path: Seq<char>) -> bool {
    exists|i: int| 0 <= i < files.len() && #[trigger] files[i].path == path
}

/// Whether the local copy already has, at this track's place, the audio
/// with digest `expected`.
pub open spec fn previous_matches(existing: Option<PlaylistRecordView>, position: u16, expected: Seq<char>) -> bool {
    existing matches Some(r) && (position as int) < r.tracks.len() && r.tracks[position as int].audio_sha256
        == expected
}

fn file_listed_in(files: &Vec<CachedFile>, path: &str) -> (listed: bool)
    ensures
        listed == file_listed(file_views(files@), path@),
{
    let ghost views = file_views(files@);
    let mut i: usize = 0;
    while i < files.len()
        invariant
            0 <= i <= files.len(),
            views == file_views(files@),
            forall|j: int| 0 <= j < i ==> #[trigger] views[j].path != path@,
        decreases files.len() - i,
    {
        assert(views[i as int] == files@[i as int]@);
        if same_text(files[i].path.as_str(), path) {
            assert(views[i as int].path == path@);
            return true;
        }
        i += 1;
    }
    false
}

/// Where the audio of `track` of playlist `figure_id` comes from: nothing
/// when the cloud has none; the cached file when the local copy has the
/// same audio there and its file is in the cache; else a download. Audio
/// without a digest is refused.
pub fn track_source(
    library_root: &str,
    owner: &str,
    figure_id: &str,
    track: &CloudTrack,
    existing: Option<&ManagedPlaylistRecord>,
    files: &Vec<CachedFile>,
) -> (result: Result<TrackSource, EditorError>)
    ensures
        !track.audio_available ==> result matches Ok(TrackSource::Keep),
        track.audio_available && track.audio_sha256 is None ==> result == Err::<TrackSource, EditorError>(
            EditorError::DigestMissing,
        ),
        track.audio_available && track@.audio_sha256 is Some ==> ({
            let path = track_path_of(library_root@, owner@, figure_id@, track.position);
            let existing_view = match existing {
                Some(r) => Some(r@),
                None => None,
            };
            if previous_matches(existing_view, track.position, track@.audio_sha256->0) && file_listed(
                file_views(files@),
                path,
            ) {
                result matches Ok(TrackSource::Reuse(p)) && p@ == path
            } else {
                result matches Ok(TrackSource::Download)
            }
        }),
{
    if !track.audio_available {
        return Ok(TrackSource::Keep);
    }
    let expected = match &track.audio_sha256 {
        Some(h) => h,
        None => {
            return Err(EditorError::DigestMissing);
        },
    };
    let matches = match existing {
        Some(r) => {
            let position = track.position as usize;
            if position < r.tracks.len() {
                assert(r@.tracks[position as int] == r.tracks@[position as int]@);
                same_text(r.tracks[position].audio_sha256.as_str(), expected.as_str())
            } else {
                false
            }
        },
        None => false,
    };
    let path = track_path(library_root, owner, figure_id, track.position);
    if matches && file_listed_in(files, path.as_str()) {
        Ok(TrackSource::Reuse(path))
    } else {
        Ok(TrackSource::Download)
    }
}

/// A cloud track as the cache records it: its label normalized, and the
/// size and digest of the downloaded audio, or else the ones the cloud gave.
pub open spec fn cached_track_of(track: CloudTrackView, downloaded: Option<Seq<u8>>) -> TrackRecordView {
    TrackRecordView {
        position: track.position,
        label: normalized_track_label(track.label, track.position),
        audio_size_bytes: match downloaded {
            Some(bytes) => bytes.len() as u64,
            None => match track.audio_size_bytes {
                Some(n) => n,
                None => 0,
            },
        },
        audio_sha256: match downloaded {
            Some(bytes) => sha256_hex(bytes),
            None => match track.audio_sha256 {
                Some(h) => h,
                None => Seq::empty(),
            },
        },
    }
}

/// The cache record of `track`, given the audio downloaded for it, if
/// any; downloaded audio must have the digest the cloud gave.
pub fn cached_track_record(track: &CloudTrack, downloaded: Option<&[u8]>) -> (result: Result<
    ManagedTrackRecord,
    EditorError,
>)
    ensures
        match downloaded {
            Some(bytes) => if track@.audio_sha256 == Some(sha256_hex(bytes@)) {
                result matches Ok(r) && r@ == cached_track_of(track@, Some(bytes@))
            } else {
                result == Err::<ManagedTrackRecord, EditorError>(EditorError::IntegrityCheckFailed)
            },
            None => result matches Ok(r) && r@ == cached_track_of(track@, None),
        },
{
    let label = normalize_track_label(track.label.as_str(), track.position);
    match downloaded {
        Some(bytes) => {
            let hash = crate::cloud::verified_download(&track.audio_sha256, bytes)?;
            Ok(
                ManagedTrackRecord {
                    position: track.position,
                    label,
                    audio_size_bytes: bytes.len() as u64,
                    audio_sha256: hash,
                },
            )
        },
        None => {
            let size = match track.audio_size_bytes {
                Some(n) => n,
                None => 0,
            };
            let hash = match &track.audio_sha256 {
                Some(h) => h.clone(),
                None => String::new(),
            };
            Ok(ManagedTrackRecord { position: track.position, label, audio_size_bytes: size, audio_sha256: hash })
        },
    }
}

/// A cloud playlist as the cache records it, with its cached tracks: its
/// name normalized, nothing pending.
pub open spec fn cached_playlist_of(remote: CloudPlaylistView, tracks: Seq<TrackRecordView>) -> PlaylistRecordView {
    PlaylistRecordView {
        figure_id: remote.figure_id,
        name: normalized_name(remote.name),
        updated_at: remote.updated_at,
        dirty: false,
        needs_audio_upload: false,
        deleted: false,
        tracks: tracks,
    }
}

/// The cache record of a cloud playlist.
pub fn cached_playlist_record(remote: &CloudPlaylist, tracks: Vec<ManagedTrackRecord>) -> (record: ManagedPlaylistRecord)
    ensures
        record@ == cached_playlist_of(remote@, track_views(tracks@)),
{
    ManagedPlaylistRecord {
        figure_id: remote.figure_id.clone(),
        name: normalize_name(remote.name.as_str()),
        updated_at: remote.updated_at.clone(),
        dirty: false,
        needs_audio_upload: false,
        deleted: false,
        tracks,
    }
}

// ---------------------------------------------------------------------------
// Pushing local changes
// ---------------------------------------------------------------------------

/// A step of a push.
pub enum PushStep {
    /// Delete the playlist from the cloud, then forget it here.
    Remove { figure_id: String },
    /// Save the playlist in the cloud, then upload the listed tracks; when
    /// a track's cached file is missing the push stops there.
    Save {
        figure_id: String,
        name: String,
        labels: Vec<String>,
        needs_audio_upload: bool,
        uploads: Vec<(u16, String)>,
        missing: Option<u16>,
    },
}

/// A push step as values.
pub enum PushStepView {
    Remove { figure_id: Seq<char> },
    Save {
        figure_id: Seq<char>,
        name: Seq<char>,
        labels: Seq<Seq<char>>,
        needs_audio_upload: bool,
        uploads: Seq<(u16, Seq<char>)>,
        missing: Option<u16>,
    },
}

impl View for PushStep {
    type V = PushStepView;

    open spec fn view(&self) -> PushStepView {
        match self {
            PushStep::Remove { figure_id } => PushStepView::Remove { figure_id: figure_id@ },
            PushStep::Save { figure_id, name, labels, needs_audio_upload, uploads, missing } => PushStepView::Save {
                figure_id: figure_id@,
                name: name@,
                labels: string_views(labels@),
                needs_audio_upload: *needs_audio_upload,
                uploads: uploads@.map_values(|u: (u16, String)| (u.0, u.1@)),
                missing: *missing,
            },
        }
    }
}

/// The first track from `i` on whose cached file is missing.
pub open spec fn first_missing(
    root: Seq<char>,
    owner: Seq<char>,
    r: PlaylistRecordView,
    files: Seq<CachedFileView>,
    i: int,
) -> int
    decreases r.tracks.len() - i,
{
    if i >= r.tracks.len() || i < 0 {
        r.tracks.len() as int
    } else if !file_listed(files, track_path_of(root, owner, r.figure_id, r.tracks[i].position)) {
        i
    } else {
        first_missing(root, owner, r, files, i + 1)
    }
}

/// The step that pushes the record `r`.
pub open spec fn push_step_of(root: Seq<char>, owner: Seq<char>, r: PlaylistRecordView, files: Seq<CachedFileView>) -> PushStepView {
    if r.deleted {
        PushStepView::Remove { figure_id: r.figure_id }
    } else {
        let stop = if r.needs_audio_upload {
            first_missing(root, owner, r, files, 0)
        } else {
            0
        };
        PushStepView::Save {
            figure_id: r.figure_id,
            name: r.name,
            labels: r.tracks.map_values(|t: TrackRecordView| t.label),
            needs_audio_upload: r.needs_audio_upload,
            uploads: r.tracks.take(stop).map_values(
                |t: TrackRecordView| (t.position, track_path_of(root, owner, r.figure_id, t.position)),
            ),
            missing: if r.needs_audio_upload && stop < r.tracks.len() {
                Some(r.tracks[stop].position)
            } else {
                None
            },
        }
    }
}

/// The steps of a push of the records `records` (all of the owner's, in
/// the order the library lists them): one for each record with unpushed
/// changes.
pub open spec fn push_steps_of(root: Seq<char>, owner: Seq<char>, records: Seq<PlaylistRecordView>, files: Seq<CachedFileView>) -> Seq<
    PushStepView,
> {
    records.filter(is_dirty()).map_values(
        |r: PlaylistRecordView| push_step_of(root, owner, r, files),
    )
}

fn push_step(library_root: &str, owner: &str, r: &ManagedPlaylistRecord, files: &Vec<CachedFile>) -> (step: PushStep)
    ensures
        step@ == push_step_of(library_root@, owner@, r@, file_views(files@)),
{
    if r.deleted {
        return PushStep::Remove { figure_id: r.figure_id.clone() };
    }
    let ghost rv = r@;
    let ghost fv = file_views(files@);
    let mut labels: Vec<String> = Vec::new();
    let mut i: usize = 0;
    while i < r.tracks.len()
        invariant
            0 <= i <= r.tracks.len(),
            rv == r@,
            string_views(labels@) == rv.tracks.take(i as int).map_values(|t: TrackRecordView| t.label),
        decreases r.tracks.len() - i,
    {
        assert(rv.tracks[i as int] == r.tracks@[i as int]@);
        let ghost prev = labels@;
        labels.push(r.tracks[i].label.clone());
        assert(string_views(labels@) =~= string_views(prev).push(rv.tracks[i as int].label));
        assert(rv.tracks.take(i + 1).map_values(|t: TrackRecordView| t.label) =~= rv.tracks.take(i as int).map_values(
            |t: TrackRecordView| t.label,
        ).push(rv.tracks[i as int].label));
        i += 1;
    }
    assert(rv.tracks.take(rv.tracks.len() as int) =~= rv.tracks);
    let mut stop: usize = 0;
    if r.needs_audio_upload {
        while stop < r.tracks.len() && file_listed_in(
            files,
            track_path(library_root, owner, r.figure_id.as_str(), r.tracks[stop].position).as_str(),
        )
            invariant
                0 <= stop <= r.tracks.len(),
                rv == r@,
                fv == file_views(files@),
                first_missing(library_root@, owner@, rv, fv, 0) == first_missing(
                    library_root@,
                    owner@,
                    rv,
                    fv,
                    stop as int,
                ),
            decreases r.tracks.len() - stop,
        {
            assert(rv.tracks[stop as int] == r.tracks@[stop as int]@);
            stop += 1;
        }
        if stop < r.tracks.len() {
            assert(rv.tracks[stop as int] == r.tracks@[stop as int]@);
        }
        assert(first_missing(library_root@, owner@, rv, fv, 0) == stop);
    }
    let mut uploads: Vec<(u16, String)> = Vec::new();
    let mut k: usize = 0;
    while k < stop
        invariant
            0 <= k <= stop <= r.tracks.len(),
            rv == r@,
            uploads@.map_values(|u: (u16, String)| (u.0, u.1@)) == rv.tracks.take(k as int).map_values(
                |t: TrackRecordView| (t.position, track_path_of(library_root@, owner@, rv.figure_id, t.position)),
            ),
        decreases stop - k,
    {
        assert(rv.tracks[k as int] == r.tracks@[k as int]@);
        let position = r.tracks[k].position;
        let path = track_path(library_root, owner, r.figure_id.as_str(), position);
        let ghost prev = uploads@;
        uploads.push((position, path));
        assert(uploads@.map_values(|u: (u16, String)| (u.0, u.1@)) =~= prev.map_values(|u: (u16, String)| (u.0, u.1@)).push(
            (rv.tracks[k as int].position, track_path_of(library_root@, owner@, rv.figure_id, rv.tracks[k as int].position)),
        ));
        assert(rv.tracks.take(k + 1).map_values(
            |t: TrackRecordView| (t.position, track_path_of(library_root@, owner@, rv.figure_id, t.position)),
        ) =~= rv.tracks.take(k as int).map_values(
            |t: TrackRecordView| (t.position, track_path_of(library_root@, owner@, rv.figure_id, t.position)),
        ).push(
            (rv.tracks[k as int].position, track_path_of(library_root@, owner@, rv.figure_id, rv.tracks[k as int].position)),
        ));
        k += 1;
    }
    let missing = if r.needs_audio_upload && stop < r.tracks.len() {
        Some(r.tracks[stop].position)
    } else {
        None
    };
    let step = PushStep::Save {
        figure_id: r.figure_id.clone(),
        name: r.name.clone(),
        labels,
        needs_audio_upload: r.needs_audio_upload,
        uploads,
        missing,
    };
    assert(step@ == push_step_of(library_root@, owner@, rv, fv));
    step
}

pub open spec fn push_step_views(steps: Seq<PushStep>) -> Seq<PushStepView> {
    steps.map_values(|s: PushStep| s@)
}

/// Plans a push of the owner's playlists `records` (all of them, deleted
/// ones included): one step for each playlist with unpushed changes.
pub fn push_plan(library_root: &str, owner: &str, records: &Vec<ManagedPlaylistRecord>, files: &Vec<CachedFile>) -> (steps:
    Vec<PushStep>)
    ensures
        push_step_views(steps@) == push_steps_of(library_root@, owner@, playlist_views(records@), file_views(files@)),
{
    let ghost rv = playlist_views(records@);
    let ghost pending = is_dirty();
    let ghost step_of = |r: PlaylistRecordView| push_step_of(library_root@, owner@, r, file_views(files@));
    let mut steps: Vec<PushStep> = Vec::new();
    let mut i: usize = 0;
    assert(rv.take(0).filter(pending) =~= Seq::<PlaylistRecordView>::empty()) by {
        reveal(Seq::filter);
    }
    while i < records.len()
        invariant
            0 <= i <= records.len(),
            rv == playlist_views(records@),
            pending == is_dirty(),
            step_of == (|r: PlaylistRecordView| push_step_of(library_root@, owner@, r, file_views(files@))),
            push_step_views(steps@) == rv.take(i as int).filter(pending).map_values(step_of),
        decreases records.len() - i,
    {
        assert(rv[i as int] == records@[i as int]@);
        proof {
            crate::order::lemma_filter_take_step(rv, i as int, pending);
        }
        if records[i].dirty {
            let ghost prev = steps@;
            steps.push(push_step(library_root, owner, &records[i], files));
            assert(push_step_views(steps@) =~= push_step_views(prev).push(step_of(rv[i as int])));
            assert(rv.take(i + 1).filter(pending).map_values(step_of) =~= rv.take(i as int).filter(pending).map_values(
                step_of,
            ).push(step_of(rv[i as int])));
        }
        i += 1;
    }
    assert(rv.take(rv.len() as int) =~= rv);
    steps
}

// ---------------------------------------------------------------------------
// Adopting the offline library, and local edits
// ---------------------------------------------------------------------------

/// What signing in does with the offline library.
pub enum AdoptionPlan {
    /// The account keeps its library; the offline one is not taken over.
    Keep,
    /// The account takes the offline library over.
    Adopt {
        /// The account.
        owner: String,
        /// The offline cache directory to move to the account's, if it exists.
        move_cache: Option<(String, String)>,
    },
}

/// Decides what signing in does with the offline library: the account
/// takes it over when it has no playlist and the offline library has some.
/// The offline cache directory moves with it, unless the account already
/// has one, which is refused. `source_exists` and `destination_exists`
/// tell whether the offline and the account's cache directories exist.
pub fn adoption_plan(database: &LibraryDatabase, library_root: &str, source_exists: bool, destination_exists: bool) -> (result:
    Result<AdoptionPlan, EditorError>)
    ensures
        match database@.session {
            None => result == Err::<AdoptionPlan, EditorError>(EditorError::NoCloudAccount),
            Some(s) => {
                let owner = crate::text::ascii_lower_seq(s.email);
                if owns_playlist(database@.playlists, owner) || !owns_playlist(database@.playlists, local_owner()) {
                    result matches Ok(AdoptionPlan::Keep)
                } else if source_exists && destination_exists {
                    result == Err::<AdoptionPlan, EditorError>(EditorError::AccountCacheExists)
                } else {
                    result matches Ok(AdoptionPlan::Adopt { owner: o, move_cache: m }) && o@ == owner && (if source_exists {
                        m matches Some((from, to)) && from@ == owner_directory_of(library_root@, local_owner()) && to@
                            == owner_directory_of(library_root@, owner)
                    } else {
                        m is None
                    })
                }
            },
        },
{
    let session = match database.cloud_session() {
        Some(s) => s,
        None => {
            return Err(EditorError::NoCloudAccount);
        },
    };
    let owner = crate::text::ascii_lowercase(session.email.as_str());
    proof {
        reveal_strlit("local");
    }
    if database.managed_playlist_count(owner.as_str()) > 0 || database.managed_playlist_count("local") == 0 {
        proof {
            lemma_count_owns(database@.playlists, owner@);
            lemma_count_owns(database@.playlists, local_owner());
        }
        return Ok(AdoptionPlan::Keep);
    }
    proof {
        lemma_count_owns(database@.playlists, owner@);
        lemma_count_owns(database@.playlists, local_owner());
    }
    if source_exists {
        if destination_exists {
            return Err(EditorError::AccountCacheExists);
        }
        let from = owner_directory(library_root, "local");
        let to = owner_directory(library_root, owner.as_str());
        return Ok(AdoptionPlan::Adopt { owner, move_cache: Some((from, to)) });
    }
    Ok(AdoptionPlan::Adopt { owner, move_cache: None })
}

/// An owner has a playlist exactly when it has a positive count of them.
proof fn lemma_count_owns(playlists: Seq<crate::storage::PlaylistRowView>, owner: Seq<char>)
    ensures
        (playlists.filter(crate::storage::of_owner(owner)).len() > 0) == owns_playlist(playlists, owner),
    decreases playlists.len(),
{
    reveal(Seq::filter);
    if playlists.len() > 0 {
        let rest = playlists.drop_last();
        lemma_count_owns(rest, owner);
        if owns_playlist(rest, owner) {
            let i = choose|i: int| 0 <= i < rest.len() && #[trigger] rest[i].owner == owner;
            assert(playlists[i].owner == owner);
        }
        if owns_playlist(playlists, owner) && playlists.last().owner != owner {
            let i = choose|i: int| 0 <= i < playlists.len() && #[trigger] playlists[i].owner == owner;
            assert(i < playlists.len() - 1);
            assert(rest[i].owner == owner);
        }
        if playlists.last().owner == owner {
            assert(playlists[playlists.len() - 1].owner == owner);
        }
    }
}

/// Renames a playlist of the active owner: a custom identifier and a name
/// that is not blank, normalized.
pub fn rename_playlist(database: &mut LibraryDatabase, figure_id: &str, name: &str) -> (result: Result<(), EditorError>)
    ensures
        !is_custom_id(figure_id@) ==> result == Err::<(), EditorError>(EditorError::NotCustomFigureId) && final(database)@ == old(database)@,
        is_custom_id(figure_id@) && normalized_name(name@).len() == 0 ==> result == Err::<(), EditorError>(
            EditorError::EmptyPlaylistName,
        ) && final(database)@ == old(database)@,
        is_custom_id(figure_id@) && normalized_name(name@).len() > 0 ==> ({
            let owner = active_owner_of(old(database)@);
            if has_playlist(old(database)@.playlists, owner, figure_id@, true) {
                result is Ok && exists|now: Seq<char>|
                    final(database)@ == playlist_renamed(old(database)@, owner, figure_id@, normalized_name(name@), now)
            } else {
                result == Err::<(), EditorError>(EditorError::PlaylistNotFound) && final(database)@ == old(database)@
            }
        }),
{
    validate_figure_id(figure_id)?;
    let name = normalize_name(name);
    if crate::text::chars_of(name.as_str()).len() == 0 {
        return Err(EditorError::EmptyPlaylistName);
    }
    let owner = database.active_library_owner();
    database.rename_managed_playlist(owner.as_str(), figure_id, name.as_str())
}

/// Marks a playlist of the active owner deleted, to be removed from the
/// cloud by the next push. Returns its cache directory, which goes too.
pub fn delete_playlist(database: &mut LibraryDatabase, library_root: &str, figure_id: &str) -> (result: Result<
    String,
    EditorError,
>)
    ensures
        !is_custom_id(figure_id@) ==> result == Err::<String, EditorError>(EditorError::NotCustomFigureId) && final(database)@ == old(database)@,
        is_custom_id(figure_id@) ==> ({
            let owner = active_owner_of(old(database)@);
            if has_playlist(old(database)@.playlists, owner, figure_id@, true) {
                (result matches Ok(dir) && dir@ == playlist_directory_of(library_root@, owner, figure_id@))
                    && exists|now: Seq<char>| final(database)@ == playlist_marked_deleted(old(database)@, owner, figure_id@, now)
            } else {
                result == Err::<String, EditorError>(EditorError::PlaylistNotFound) && final(database)@ == old(database)@
            }
        }),
{
    validate_figure_id(figure_id)?;
    let owner = database.active_library_owner();
    database.mark_managed_deleted(owner.as_str(), figure_id)?;
    Ok(playlist_directory(library_root, owner.as_str(), figure_id))
}

/// The name of the live playlist `figure_id` of the active owner, whose
/// tracks are about to be replaced by `candidates` (1 to 99 MP3 files).
#[verifier::loop_isolation(false)]
pub fn replacement_name(database: &LibraryDatabase, figure_id: &str, candidates: &Vec<AudioCandidate>) -> (result: Result<
    String,
    EditorError,
>)
    ensures
        !is_custom_id(figure_id@) ==> result == Err::<String, EditorError>(EditorError::NotCustomFigureId),
        is_custom_id(figure_id@) && (candidates@.len() == 0 || candidates@.len() > 99) ==> result == Err::<
            String,
            EditorError,
        >(EditorError::AudioCount(99)),
        is_custom_id(figure_id@) && 0 < candidates@.len() <= 99 && first_refusal(candidates@, 0) is Some ==> result
            == Err::<String, EditorError>(first_refusal(candidates@, 0)->0),
        is_custom_id(figure_id@) && 0 < candidates@.len() <= 99 && first_refusal(candidates@, 0) is None ==> ({
            let listed = managed_playlists_of(database@, active_owner_of(database@), false);
            match playlist_record_with_id(listed, figure_id@) {
                Some(r) => result matches Ok(name) && name@ == r.name,
                None => result == Err::<String, EditorError>(EditorError::PlaylistNotFound),
            }
        }),
{
    validate_figure_id(figure_id)?;
    validate_audio_paths(candidates, 99)?;
    let owner = database.active_library_owner();
    let records = database.managed_playlists(owner.as_str(), false);
    let ghost views = playlist_views(records@);
    let mut i: usize = 0;
    assert(views.skip(0) =~= views);
    while i < records.len()
        invariant
            0 <= i <= records.len(),
            views == playlist_views(records@),
            playlist_record_with_id(views, figure_id@) == playlist_record_with_id(views.skip(i as int), figure_id@),
        decreases records.len() - i,
    {
        assert(views.skip(i as int)[0] == records@[i as int]@);
        if same_text(records[i].figure_id.as_str(), figure_id) {
            return Ok(records[i].name.clone());
        }
        assert(views.skip(i as int).drop_first() =~= views.skip(i + 1));
        i += 1;
    }
    Err(EditorError::PlaylistNotFound)
}

/// The first record with identifier `id`.
pub open spec fn playlist_record_with_id(records: Seq<PlaylistRecordView>, id: Seq<char>) -> Option<PlaylistRecordView>
    decreases records.len(),
{
    if records.len() == 0 {
        None
    } else if records[0].figure_id == id {
        Some(records[0])
    } else {
        playlist_record_with_id(records.drop_first(), id)
    }
}

/// How a batch of audio files is imported.
#[derive(PartialEq, Eq, Structural, Clone, Copy, Debug)]
pub enum ImportMode {
    /// One playlist for each file, named after it.
    OnePerFile,
    /// One playlist with every file, named by the user.
    SinglePlaylist,
}

/// The import mode named `mode` (`onePerFile` or `singlePlaylist`).
pub fn import_mode(mode: &str) -> (result: Result<ImportMode, EditorError>)
    ensures
        mode@ == "onePerFile"@ ==> result == Ok::<ImportMode, EditorError>(ImportMode::OnePerFile),
        mode@ == "singlePlaylist"@ ==> result == Ok::<ImportMode, EditorError>(ImportMode::SinglePlaylist),
        mode@ != "onePerFile"@ && mode@ != "singlePlaylist"@ ==> result == Err::<ImportMode, EditorError>(
            EditorError::UnknownImportMode,
        ),
{
    proof {
        reveal_strlit("onePerFile");
        reveal_strlit("singlePlaylist");
        assert("onePerFile"@.len() != "singlePlaylist"@.len());
    }
    if same_text(mode, "onePerFile") {
        Ok(ImportMode::OnePerFile)
    } else if same_text(mode, "singlePlaylist") {
        Ok(ImportMode::SinglePlaylist)
    } else {
        Err(EditorError::UnknownImportMode)
    }
}

/// The name of the playlist that groups `count` files: at most 99 files,
/// and a name that is not blank, normalized.
pub fn grouped_playlist_name(count: usize, playlist_name: Option<&str>) -> (result: Result<String, EditorError>)
    ensures
        count > 99 ==> result == Err::<String, EditorError>(EditorError::PlaylistTooLong),
        count <= 99 ==> ({
            let name = normalized_name(match playlist_name {
                Some(n) => n@,
                None => Seq::empty(),
            });
            if name.len() == 0 {
                result == Err::<String, EditorError>(EditorError::PlaylistNameMissing)
            } else {
                result matches Ok(n) && n@ == name
            }
        }),
{
    if count > 99 {
        return Err(EditorError::PlaylistTooLong);
    }
    let name = match playlist_name {
        Some(n) => normalize_name(n),
        None => normalize_name(""),
    };
    proof {
        reveal_strlit("");
    }
    if crate::text::chars_of(name.as_str()).len() == 0 {
        return Err(EditorError::PlaylistNameMissing);
    }
    Ok(name)
}

/// The record of a track copied into the cache at `position`: named after
/// its source file, with the size and the SHA-256 of the copied bytes.
pub fn local_track_record(position: u16, file_name: Option<&str>, bytes: &[u8]) -> (record: ManagedTrackRecord)
    ensures
        record@ == (TrackRecordView {
            position: position,
            label: name_from_file(match file_name {
                Some(n) => Some(n@),
                None => None,
            }),
            audio_size_bytes: bytes@.len() as u64,
            audio_sha256: sha256_hex(bytes@),
        }),
{
    ManagedTrackRecord {
        position,
        label: file_stem_name(file_name),
        audio_size_bytes: bytes.len() as u64,
        audio_sha256: sha256_hex_of(bytes),
    }
}

/// The record of a playlist imported on this computer at `now`: its name
/// normalized, waiting to be pushed with its audio.
pub fn local_playlist_record(figure_id: &str, name: &str, tracks: Vec<ManagedTrackRecord>, now: &str) -> (record:
    ManagedPlaylistRecord)
    ensures
        record@ == (PlaylistRecordView {
            figure_id: figure_id@,
            name: normalized_name(name@),
            updated_at: now@,
            dirty: true,
            needs_audio_upload: true,
            deleted: false,
            tracks: track_views(tracks@),
        }),
{
    ManagedPlaylistRecord {
        figure_id: owned(figure_id),
        name: normalize_name(name),
        updated_at: owned(now),
        dirty: true,
        needs_audio_upload: true,
        deleted: false,
        tracks,
    }
}

// ---------------------------------------------------------------------------
// Laws
// ---------------------------------------------------------------------------

proof fn lemma_first_free(used: Seq<Seq<char>>, start: nat)
    requires
        start >= 2000,
    ensures
        first_free_id(used, start) matches Some(n) ==> {
            &&& start <= n <= 8999
            &&& !used.contains(decimal(n))
            &&& forall|m: nat| start <= m < n ==> used.contains(#[trigger] decimal(m))
        },
        first_free_id(used, start) is None ==> forall|m: nat| start <= m <= 8999 ==> used.contains(#[trigger] decimal(m)),
    decreases 9000 - start,
{
    if start <= 8999 && used.contains(decimal(start)) {
        lemma_first_free(used, start + 1);
    }
}

/// The decimal writing of a four-digit number.
proof fn lemma_decimal_four(n: nat)
    requires
        1000 <= n <= 9999,
    ensures
        decimal(n) == seq![
            crate::text::digit_char(n / 1000),
            crate::text::digit_char((n / 100) % 10),
            crate::text::digit_char((n / 10) % 10),
            crate::text::digit_char(n % 10),
        ],
{
    reveal_with_fuel(decimal, 5);
    assert(n / 10 / 10 / 10 == n / 1000);
    assert(n / 10 / 10 % 10 == (n / 100) % 10);
    assert(decimal(n) =~= seq![
        crate::text::digit_char(n / 1000),
        crate::text::digit_char((n / 100) % 10),
        crate::text::digit_char((n / 10) % 10),
        crate::text::digit_char(n % 10),
    ]);
}

proof fn lemma_digit_is_digit(d: nat)
    requires
        d < 10,
    ensures
        crate::text::is_ascii_digit(crate::text::digit_char(d)),
{
}

/// The identifiers from `2000` to `8999`, written in decimal, are exactly
/// the custom ones every part of the editor accepts.
pub proof fn law_custom_ids_are_the_numbers_2000_to_8999(n: nat)
    requires
        2000 <= n <= 8999,
    ensures
        is_custom_id(decimal(n)),
{
    lemma_decimal_four(n);
    lemma_digit_is_digit(n / 1000);
    lemma_digit_is_digit((n / 100) % 10);
    lemma_digit_is_digit((n / 10) % 10);
    lemma_digit_is_digit(n % 10);
    let d = decimal(n);
    assert(crate::text::all_digits(d));
    let first = n / 1000;
    assert(2 <= first <= 8);
    assert('2' <= d[0] && d[0] <= '8');
}

/// A new playlist takes the smallest custom identifier not in use: it is
/// free, every smaller custom identifier is taken, and every part of the
/// editor accepts it. When none is free, every one is taken.
pub proof fn law_new_ids_are_the_smallest_free(used: Seq<Seq<char>>)
    ensures
        first_free_id(used, 2000) matches Some(n) ==> {
            &&& is_custom_id(decimal(n))
            &&& !used.contains(decimal(n))
            &&& forall|m: nat| 2000 <= m < n ==> used.contains(#[trigger] decimal(m))
        },
        first_free_id(used, 2000) is None ==> forall|m: nat| 2000 <= m <= 8999 ==> used.contains(#[trigger] decimal(m)),
{
    lemma_first_free(used, 2000);
    if let Some(n) = first_free_id(used, 2000) {
        law_custom_ids_are_the_numbers_2000_to_8999(n);
    }
}

/// A pull never overwrites a playlist with unpushed local changes, and the
/// playlists it removes have no unpushed change and are gone from the cloud.
pub proof fn law_pull_keeps_local_changes(local: Seq<PlaylistRecordView>, remote: Seq<CloudPlaylistView>)
    requires
        remote.len() <= usize::MAX,
    ensures
        forall|k: int|
            0 <= k < pulled(local, remote).len() ==> !locally_changed(
                local,
                remote[#[trigger] pulled(local, remote)[k] as int].figure_id,
            ),
        forall|k: int|
            0 <= k < pulled(local, remote).len() ==> (#[trigger] pulled(local, remote)[k] as int) < pull_stop(remote, 0),
        forall|k: int| 0 <= k < local.filter(gone_from_cloud(remote)).len() ==> {
            let r = #[trigger] local.filter(gone_from_cloud(remote))[k];
            &&& !r.dirty
            &&& !in_cloud(remote, r.figure_id)
        },
{
    let all = Seq::new(pull_stop(remote, 0) as nat, |i: int| i as usize);
    assert forall|k: int| 0 <= k < pulled(local, remote).len() implies !locally_changed(
        local,
        remote[#[trigger] pulled(local, remote)[k] as int].figure_id,
    ) && (pulled(local, remote)[k] as int) < pull_stop(remote, 0) by {
        all.lemma_filter_pred(unchanged_locally(local, remote), k);
        lemma_filter_members(all, unchanged_locally(local, remote), k);
        let x = pulled(local, remote)[k];
        let j = choose|j: int| 0 <= j < all.len() && all[j] == x;
        lemma_pull_stop_bound(remote, 0);
        assert(all[j] == j as usize);
        assert(x as int == j);
    }
    assert forall|k: int| 0 <= k < local.filter(gone_from_cloud(remote)).len() implies {
        let r = #[trigger] local.filter(gone_from_cloud(remote))[k];
        &&& !r.dirty
        &&& !in_cloud(remote, r.figure_id)
    } by {
        local.lemma_filter_pred(gone_from_cloud(remote), k);
    }
}

proof fn lemma_pull_stop_bound(remote: Seq<CloudPlaylistView>, i: int)
    requires
        0 <= i,
    ensures
        pull_stop(remote, i) <= remote.len(),
        i <= remote.len() ==> i <= pull_stop(remote, i),
    decreases remote.len() - i,
{
    if i < remote.len() && is_custom_id(remote[i].figure_id) {
        lemma_pull_stop_bound(remote, i + 1);
    }
}

/// Every element of a filtered sequence comes from it.
proof fn lemma_filter_members<A>(s: Seq<A>, pred: spec_fn(A) -> bool, k: int)
    requires
        0 <= k < s.filter(pred).len(),
    ensures
        s.contains(s.filter(pred)[k]),
    decreases s.len(),
{
    reveal(Seq::filter);
    let rest = s.drop_last().filter(pred);
    if pred(s.last()) && k == rest.len() {
        assert(s[s.len() - 1] == s.last());
    } else {
        lemma_filter_members(s.drop_last(), pred, k);
        let j = choose|j: int| 0 <= j < s.drop_last().len() && s.drop_last()[j] == rest[k];
        assert(s[j] == rest[k]);
    }
}

/// A push has one step for each playlist with unpushed changes, in order:
/// removing it from the cloud when it was deleted here, saving it
/// otherwise.
pub proof fn law_push_covers_every_change(
    root: Seq<char>,
    owner: Seq<char>,
    records: Seq<PlaylistRecordView>,
    files: Seq<CachedFileView>,
)
    ensures
        push_steps_of(root, owner, records, files).len() == records.filter(is_dirty()).len(),
        forall|k: int| 0 <= k < records.filter(is_dirty()).len() ==> {
            let r = #[trigger] records.filter(is_dirty())[k];
            &&& r.dirty
            &&& (r.deleted ==> push_steps_of(root, owner, records, files)[k] == PushStepView::Remove { figure_id: r.figure_id })
            &&& (!r.deleted ==> push_steps_of(root, owner, records, files)[k] is Save)
        },
{
    assert forall|k: int| 0 <= k < records.filter(is_dirty()).len() implies {
        let r = #[trigger] records.filter(is_dirty())[k];
        &&& r.dirty
        &&& (r.deleted ==> push_steps_of(root, owner, records, files)[k] == PushStepView::Remove { figure_id: r.figure_id })
        &&& (!r.deleted ==> push_steps_of(root, owner, records, files)[k] is Save)
    } by {
        records.lemma_filter_pred(is_dirty(), k);
    }
}

/// Every save a push makes carries the whole playlist: its name and one
/// label per track, in track order, whether or not audio is uploaded.
pub proof fn law_push_saves_carry_every_track(
    root: Seq<char>,
    owner: Seq<char>,
    records: Seq<PlaylistRecordView>,
    files: Seq<CachedFileView>,
)
    ensures
        forall|k: int| 0 <= k < records.filter(is_dirty()).len() && !(#[trigger] records.filter(is_dirty())[k]).deleted
            ==> {
            let r = records.filter(is_dirty())[k];
            push_steps_of(root, owner, records, files)[k] matches PushStepView::Save {
                figure_id,
                name,
                labels,
                ..
            } && figure_id == r.figure_id && name == r.name && labels.len() == r.tracks.len() && forall|i: int|
                0 <= i < r.tracks.len() ==> #[trigger] labels[i] == r.tracks[i].label
        },
{
}

/// Marking a live playlist deleted leaves it with an unpushed change: the
/// row is deleted and dirty, and the push removes it from the cloud. Other
/// rows are untouched.
pub proof fn law_deleted_playlists_are_pushed(
    db: LibraryView,
    owner: Seq<char>,
    id: Seq<char>,
    now: Seq<char>,
    root: Seq<char>,
    files: Seq<CachedFileView>,
)
    ensures
        ({
            let after = playlist_marked_deleted(db, owner, id, now).playlists;
            &&& after.len() == db.playlists.len()
            &&& forall|i: int|
                0 <= i < db.playlists.len() ==> if playlist_targeted(#[trigger] db.playlists[i], owner, id, true) {
                    &&& after[i].record.deleted
                    &&& after[i].record.dirty
                    &&& (is_dirty())(after[i].record)
                    &&& push_step_of(root, owner, after[i].record, files) == PushStepView::Remove { figure_id: id }
                } else {
                    after[i] == db.playlists[i]
                }
        }),
{
}

/// The changes the cached library reports as pending are exactly the ones
/// the next push makes: one for each playlist of the active owner with an
/// unpushed change, deleted ones included.
pub proof fn law_pending_changes_are_the_push_steps(
    db: LibraryView,
    root: Seq<char>,
    files: Seq<CachedFileView>,
    offline: bool,
    last_error: Option<Seq<char>>,
)
    ensures
        cached_library_of(db, root, files, offline, last_error).pending_changes == push_steps_of(
            root,
            active_owner_of(db),
            managed_playlists_of(db, active_owner_of(db), true),
            files,
        ).len(),
{
}

} // verus!
