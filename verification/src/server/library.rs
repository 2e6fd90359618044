//! Playlists as the service stores them: validation of what clients send,
//! the plan of a whole-library synchronization, and the library answer
//! assembled from the stored rows.
use vstd::prelude::*;
use crate::ids::{is_custom_figure_id, is_custom_id, nfc_payload, nfc_payload_of};
use crate::server::ApiError;
use crate::text::{
    concat, decimal, owned, push_decimal, same_text, take_chars, trim, trimmed, trimmed_prefix,
};

verus! {

/// A track as a client sends it.
pub struct TrackPayload {
    pub position: u16,
    pub label: String,
}

/// A playlist as a client sends it.
pub struct PlaylistPayload {
    pub figure_id: String,
    pub name: String,
    pub tracks: Vec<TrackPayload>,
    pub reset_audio: bool,
}

/// A whole-library synchronization request.
pub struct SyncRequest {
    pub playlists: Vec<PlaylistPayload>,
    pub replace_missing: bool,
}

/// A stored track as the service answers it.
pub struct TrackResponse {
    pub position: u16,
    pub label: String,
    pub audio_available: bool,
    pub audio_size_bytes: Option<u64>,
    pub audio_sha256: Option<String>,
}

/// A stored playlist as the service answers it.
pub struct PlaylistResponse {
    pub figure_id: String,
    pub name: String,
    pub nfc_payload: String,
    pub track_count: u16,
    pub tracks: Vec<TrackResponse>,
    pub updated_at: String,
}

/// The library of an account.
pub struct LibraryResponse {
    pub version: i64,
    pub playlists: Vec<PlaylistResponse>,
    pub storage_used_bytes: u64,
    pub storage_limit_bytes: u64,
}

/// A row of the `playlists` table.
pub struct PlaylistRow {
    pub figure_id: String,
    pub name: String,
    pub nfc_payload: String,
    pub track_count: i16,
    pub updated_at: String,
}

/// A row of the `playlist_tracks` table.
pub struct TrackRow {
    pub figure_id: String,
    pub position: i16,
    pub label: String,
    pub audio_size_bytes: Option<i64>,
    pub audio_sha256: Option<String>,
}

/// The most playlists one synchronization may carry.
pub const MAX_SYNC_PLAYLISTS: usize = 500;

// ---------------------------------------------------------------------------
// Specifications
// ---------------------------------------------------------------------------

/// A playlist name once stored: trimmed, cut to 100 characters, and
/// `Figurine K<id>` when nothing is left.
pub open spec fn stored_playlist_name(name: Seq<char>, figure_id: Seq<char>) -> Seq<char> {
    let n = take_chars(trim(name), 100);
    if n.len() == 0 {
        "Figurine K"@ + figure_id
    } else {
        n
    }
}

/// A track label once stored: trimmed, cut to 200 characters, and
/// `Piste <n>` (counting from 1) when nothing is left.
pub open spec fn stored_track_label(label: Seq<char>, position: nat) -> Seq<char> {
    let l = take_chars(trim(label), 200);
    if l.len() == 0 {
        "Piste "@ + decimal(position + 1)
    } else {
        l
    }
}

/// Some track has position `i`.
pub open spec fn position_taken(tracks: Seq<TrackPayload>, i: int) -> bool {
    exists|j: int| 0 <= j < tracks.len() && #[trigger] tracks[j].position == i as u16
}

/// Every position `0..n` is taken by one of the `n` tracks.
pub open spec fn positions_cover(tracks: Seq<TrackPayload>) -> bool {
    forall|i: int| 0 <= i < tracks.len() ==> #[trigger] position_taken(tracks, i)
}

/// The conditions under which a playlist is accepted.
pub open spec fn playlist_acceptable(p: PlaylistPayload) -> bool {
    &&& is_custom_id(p.figure_id@)
    &&& 1 <= p.tracks@.len() <= 99
    &&& positions_cover(p.tracks@)
}

/// `after` is `before` as stored: same identifier and audio flag, stored
/// name, tracks ordered by position with stored labels.
pub open spec fn playlist_stored_as(before: PlaylistPayload, after: PlaylistPayload) -> bool {
    &&& after.figure_id == before.figure_id
    &&& after.reset_audio == before.reset_audio
    &&& after.name@ == stored_playlist_name(before.name@, before.figure_id@)
    &&& after.tracks@.len() == before.tracks@.len()
    &&& forall|i: int|
        0 <= i < after.tracks@.len() ==> {
            &&& #[trigger] after.tracks@[i].position == i as u16
            &&& exists|j: int|
                0 <= j < before.tracks@.len() && before.tracks@[j].position == i as u16
                    && after.tracks@[i].label@ == stored_track_label(
                    before.tracks@[j].label@,
                    i as nat,
                )
        }
}

/// The message of an identifier that is not custom.
pub open spec fn custom_id_message() -> Seq<char> {
    "Utilisez un identifiant personnalisé entre 2000 et 8999."@
}

/// The answer to one stored track row.
pub open spec fn track_response_of(row: TrackRow) -> TrackResponse {
    TrackResponse {
        position: row.position as u16,
        label: row.label,
        audio_available: row.audio_size_bytes is Some,
        audio_size_bytes: match row.audio_size_bytes {
            Some(n) => Some(if n < 0 { 0u64 } else { n as u64 }),
            None => None,
        },
        audio_sha256: row.audio_sha256,
    }
}

/// The answers to the track rows of one playlist, in row order.
pub open spec fn tracks_of(rows: Seq<TrackRow>, figure_id: Seq<char>) -> Seq<TrackResponse>
    decreases rows.len(),
{
    if rows.len() == 0 {
        Seq::empty()
    } else {
        let earlier = tracks_of(rows.drop_last(), figure_id);
        if trim(rows.last().figure_id@) == figure_id {
            earlier.push(track_response_of(rows.last()))
        } else {
            earlier
        }
    }
}

/// Whether a playlist row before `i` has the same trimmed identifier.
pub open spec fn repeated_before(rows: Seq<PlaylistRow>, i: int) -> bool {
    exists|k: int| 0 <= k < i && trim(#[trigger] rows[k].figure_id@) == trim(rows[i].figure_id@)
}

/// The answer to playlist row `i`: its tracks go to the first row with its
/// identifier.
pub open spec fn playlist_response_matches(
    row: PlaylistRow,
    response: PlaylistResponse,
    tracks: Seq<TrackRow>,
    first: bool,
) -> bool {
    &&& response.figure_id@ == trim(row.figure_id@)
    &&& response.name == row.name
    &&& response.nfc_payload@ == trim(row.nfc_payload@)
    &&& response.track_count == row.track_count as u16
    &&& response.updated_at == row.updated_at
    &&& response.tracks@ == if first {
        tracks_of(tracks, trim(row.figure_id@))
    } else {
        Seq::empty()
    }
}

/// A stored quantity read back, negatives counted as 0.
pub open spec fn non_negative(n: i64) -> u64 {
    if n < 0 {
        0
    } else {
        n as u64
    }
}

// ---------------------------------------------------------------------------
// Executable functions
// ---------------------------------------------------------------------------

/// Accepts only custom identifiers, `2000` to `8999`.
pub fn validate_figure_id(value: &str) -> (result: Result<(), ApiError>)
    ensures
        match result {
            Ok(()) => is_custom_id(value@),
            Err(error) => !is_custom_id(value@) && (error matches ApiError::Validation(m)
                && m@ == custom_id_message()),
        },
{
    if is_custom_figure_id(value) {
        Ok(())
    } else {
        Err(ApiError::Validation(owned("Utilisez un identifiant personnalisé entre 2000 et 8999.")))
    }
}

/// The label a track is stored with.
pub fn stored_label(label: &str, position: u16) -> (result: String)
    ensures
        result@ == stored_track_label(label@, position as nat),
{
    let l = trimmed_prefix(label, 200);
    if l.as_str().is_empty() {
        let mut s = owned("Piste ");
        push_decimal(&mut s, position as u128 + 1);
        s
    } else {
        l
    }
}

/// The name a playlist is stored with.
pub fn stored_name(name: &str, figure_id: &str) -> (result: String)
    ensures
        result@ == stored_playlist_name(name@, figure_id@),
{
    let n = trimmed_prefix(name, 100);
    if n.as_str().is_empty() {
        concat("Figurine K", figure_id)
    } else {
        n
    }
}

/// Checks a playlist and puts it in stored form: a custom identifier, 1 to
/// 99 tracks whose positions are `0..n`, tracks ordered by position, name and
/// labels trimmed and cut, with defaults when empty. A refused playlist is
/// left as it was.
pub fn validate_playlist(playlist: &mut PlaylistPayload) -> (result: Result<(), ApiError>)
    ensures
        result is Ok <==> playlist_acceptable(*old(playlist)),
        result is Ok ==> playlist_stored_as(*old(playlist), *final(playlist)),
        result is Err ==> *final(playlist) == *old(playlist),
        !is_custom_id(old(playlist).figure_id@) ==> (result matches Err(ApiError::Validation(m))
            && m@ == custom_id_message()),
        is_custom_id(old(playlist).figure_id@) && !(1 <= old(playlist).tracks@.len() <= 99) ==> (
        result matches Err(ApiError::Validation(m)) && m@
            == "Une playlist doit contenir entre 1 et 99 pistes."@),
        is_custom_id(old(playlist).figure_id@) && 1 <= old(playlist).tracks@.len() <= 99
            && !positions_cover(old(playlist).tracks@) ==> (result matches Err(
            ApiError::Validation(m),
        ) && m@ == "Les positions des pistes doivent être continues à partir de zéro."@),
{
    if let Err(error) = validate_figure_id(playlist.figure_id.as_str()) {
        return Err(error);
    }
    let n = playlist.tracks.len();
    if n == 0 || n > 99 {
        return Err(ApiError::Validation(owned("Une playlist doit contenir entre 1 et 99 pistes.")));
    }
    let ghost before = playlist.tracks@;
    let mut slots: Vec<Option<usize>> = Vec::new();
    let mut i: usize = 0;
    while i < n
        invariant
            0 <= i <= n,
            slots@.len() == i,
            forall|k: int| 0 <= k < i ==> slots@[k] is None,
        decreases n - i,
    {
        slots.push(None);
        i += 1;
    }
    let mut j: usize = 0;
    while j < n
        invariant
            0 <= j <= n == playlist.tracks@.len(),
            1 <= n <= 99,
            *playlist == *old(playlist),
            is_custom_id(playlist.figure_id@),
            before == playlist.tracks@,
            slots@.len() == n,
            forall|k: int|
                0 <= k < n ==> match #[trigger] slots@[k] {
                    Some(x) => x < j && before[x as int].position == k as u16,
                    None => forall|y: int| 0 <= y < j ==> before[y].position != k as u16,
                },
        decreases n - j,
    {
        let p = playlist.tracks[j].position as usize;
        assert(p as u16 == before[j as int].position);
        if p < n {
            slots.set(p, Some(j));
        }
        j += 1;
    }
    let mut k: usize = 0;
    while k < n
        invariant
            0 <= k <= n == playlist.tracks@.len(),
            1 <= n <= 99,
            *playlist == *old(playlist),
            is_custom_id(playlist.figure_id@),
            before == playlist.tracks@,
            slots@.len() == n,
            forall|x: int|
                0 <= x < n ==> match #[trigger] slots@[x] {
                    Some(y) => y < n && before[y as int].position == x as u16,
                    None => forall|y: int| 0 <= y < n ==> before[y].position != x as u16,
                },
            forall|x: int| 0 <= x < k ==> slots@[x] is Some,
        decreases n - k,
    {
        if slots[k].is_none() {
            assert(!positions_cover(before)) by {
                assert(!position_taken(before, k as int));
            }
            return Err(
                ApiError::Validation(
                    owned("Les positions des pistes doivent être continues à partir de zéro."),
                ),
            );
        }
        k += 1;
    }
    assert(positions_cover(before)) by {
        assert forall|x: int| 0 <= x < before.len() implies #[trigger] position_taken(
            before,
            x,
        ) by {
            assert(slots@[x] is Some);
            let y = slots@[x]->0;
            assert(before[y as int].position == x as u16);
        }
    }
    let mut tracks: Vec<TrackPayload> = Vec::new();
    let mut t: usize = 0;
    while t < n
        invariant
            0 <= t <= n == playlist.tracks@.len(),
            1 <= n <= 99,
            *playlist == *old(playlist),
            is_custom_id(playlist.figure_id@),
            before == playlist.tracks@,
            slots@.len() == n,
            forall|x: int|
                0 <= x < n ==> match #[trigger] slots@[x] {
                    Some(y) => y < n && before[y as int].position == x as u16,
                    None => false,
                },
            tracks@.len() == t,
            forall|x: int|
                0 <= x < t ==> {
                    &&& #[trigger] tracks@[x].position == x as u16
                    &&& exists|y: int|
                        0 <= y < before.len() && before[y].position == x as u16
                            && tracks@[x].label@ == stored_track_label(before[y].label@, x as nat)
                },
        decreases n - t,
    {
        let y = match slots[t] {
            Some(y) => y,
            None => {
                assert(false);
                0
            },
        };
        let label = stored_label(playlist.tracks[y].label.as_str(), t as u16);
        assert((t as u16) as nat == t as nat);
        assert(before[y as int].position == t as u16);
        tracks.push(TrackPayload { position: t as u16, label });
        assert(tracks@[t as int].label@ == stored_track_label(before[y as int].label@, t as nat));
        t += 1;
    }
    let name = stored_name(playlist.name.as_str(), playlist.figure_id.as_str());
    playlist.name = name;
    playlist.tracks = tracks;
    Ok(())
}

/// Checks that a playlist sent to `/playlists/{figure_id}` names that
/// identifier, then validates it.
pub fn check_upsert_target(figure_id: &str, playlist: &mut PlaylistPayload) -> (result: Result<
    (),
    ApiError,
>)
    ensures
        old(playlist).figure_id@ != figure_id@ ==> (result matches Err(ApiError::Validation(m))
            && m@ == "L'identifiant de la playlist ne correspond pas à l'URL."@),
        old(playlist).figure_id@ == figure_id@ ==> (result is Ok <==> playlist_acceptable(*old(playlist))),
        result is Ok ==> playlist_stored_as(*old(playlist), *final(playlist)),
        result is Err ==> *final(playlist) == *old(playlist),
{
    if !same_text(playlist.figure_id.as_str(), figure_id) {
        return Err(
            ApiError::Validation(owned("L'identifiant de la playlist ne correspond pas à l'URL.")),
        );
    }
    validate_playlist(playlist)
}

/// The index of the first refused playlist of a synchronization.
pub open spec fn first_refused(playlists: Seq<PlaylistPayload>, f: int) -> bool {
    &&& 0 <= f < playlists.len()
    &&& !playlist_acceptable(playlists[f])
    &&& forall|i: int| 0 <= i < f ==> playlist_acceptable(#[trigger] playlists[i])
}

/// Validates every playlist of a synchronization, which may carry at most
/// 500. On success each playlist is in stored form; on the first refused
/// playlist the ones before it are in stored form and the rest unchanged.
pub fn validate_sync_request(playlists: &mut Vec<PlaylistPayload>) -> (result: Result<(), ApiError>)
    ensures
        final(playlists)@.len() == old(playlists)@.len(),
        result is Ok <==> old(playlists)@.len() <= 500 && forall|i: int|
            0 <= i < old(playlists)@.len() ==> playlist_acceptable(#[trigger] old(playlists)@[i]),
        result is Ok ==> forall|i: int|
            0 <= i < old(playlists)@.len() ==> playlist_stored_as(
                #[trigger] old(playlists)@[i],
                final(playlists)@[i],
            ),
        old(playlists)@.len() > 500 ==> (result matches Err(ApiError::Validation(m)) && m@
            == "Une synchronisation est limitée à 500 playlists."@) && final(playlists)@ == old(playlists)@,
        old(playlists)@.len() <= 500 && result is Err ==> exists|f: int|
            #![trigger first_refused(old(playlists)@, f)]
            first_refused(old(playlists)@, f) && (forall|i: int|
                0 <= i < f ==> playlist_stored_as(
                    #[trigger] old(playlists)@[i],
                    final(playlists)@[i],
                )) && (forall|i: int|
                f <= i < old(playlists)@.len() ==> #[trigger] final(playlists)@[i] == old(playlists)@[i]),
{
    if playlists.len() > MAX_SYNC_PLAYLISTS {
        return Err(ApiError::Validation(owned("Une synchronisation est limitée à 500 playlists.")));
    }
    let ghost given = playlists@;
    let mut rest: Vec<PlaylistPayload> = Vec::new();
    std::mem::swap(&mut rest, playlists);
    let mut done: Vec<PlaylistPayload> = Vec::new();
    let mut outcome: Result<(), ApiError> = Ok(());
    while rest.len() > 0
        invariant
            given == old(playlists)@,
            given.len() <= 500,
            done@.len() + rest@.len() == given.len(),
            rest@ == given.skip(done@.len() as int),
            forall|i: int|
                0 <= i < done@.len() ==> playlist_stored_as(#[trigger] given[i], done@[i]),
            forall|i: int| 0 <= i < done@.len() ==> playlist_acceptable(#[trigger] given[i]),
        decreases rest@.len(),
    {
        let mut p = rest.remove(0);
        let ghost at = done@.len();
        assert(p == given[at as int]);
        let r = validate_playlist(&mut p);
        match r {
            Ok(()) => {
                done.push(p);
                assert(rest@ =~= given.skip(done@.len() as int));
            },
            Err(error) => {
                done.push(p);
                let ghost stop = at;
                assert(first_refused(given, at as int));
                while rest.len() > 0
                    invariant
                        given == old(playlists)@,
                        given.len() <= 500,
                        done@.len() + rest@.len() == given.len(),
                        rest@ == given.skip(done@.len() as int),
                        stop < done@.len(),
                        first_refused(given, stop as int),
                        forall|i: int|
                            0 <= i < stop ==> playlist_stored_as(#[trigger] given[i], done@[i]),
                        forall|i: int|
                            stop <= i < done@.len() ==> #[trigger] done@[i] == given[i],
                    decreases rest@.len(),
                {
                    let q = rest.remove(0);
                    done.push(q);
                    assert(rest@ =~= given.skip(done@.len() as int));
                }
                std::mem::swap(&mut done, playlists);
                return Err(error);
            },
        }
    }
    std::mem::swap(&mut done, playlists);
    outcome
}

/// What a synchronization does to the stored library beside the upserts.
pub struct SyncPlan {
    /// Stored identifiers the request no longer holds, removed when
    /// `replace_missing` is set; their audio folders go too.
    pub removed_figure_ids: Vec<String>,
    /// `replace_missing` with an empty request: every stored playlist goes.
    pub remove_all: bool,
    /// Whether the library version moves on.
    pub bump_version: bool,
}

/// Whether `id` names one of `playlists`.
pub open spec fn names_playlist(playlists: Seq<PlaylistPayload>, id: Seq<char>) -> bool {
    exists|i: int| 0 <= i < playlists.len() && #[trigger] playlists[i].figure_id@ == id
}

/// The trimmed stored identifiers that no playlist of the request names, in
/// stored order.
pub open spec fn removed_ids(existing: Seq<String>, playlists: Seq<PlaylistPayload>) -> Seq<
    Seq<char>,
>
    decreases existing.len(),
{
    if existing.len() == 0 {
        Seq::empty()
    } else {
        let earlier = removed_ids(existing.drop_last(), playlists);
        let id = trim(existing.last()@);
        if names_playlist(playlists, id) {
            earlier
        } else {
            earlier.push(id)
        }
    }
}

/// Whether one of `playlists` is named `id`.
fn request_names(playlists: &Vec<PlaylistPayload>, id: &str) -> (result: bool)
    ensures
        result == names_playlist(playlists@, id@),
{
    let mut i: usize = 0;
    while i < playlists.len()
        invariant
            0 <= i <= playlists.len(),
            forall|k: int| 0 <= k < i ==> playlists@[k].figure_id@ != id@,
        decreases playlists.len() - i,
    {
        if same_text(playlists[i].figure_id.as_str(), id) {
            return true;
        }
        i += 1;
    }
    false
}

/// The plan of a synchronization: the stored identifiers to remove when
/// `replace_missing` is set, and whether the version moves on (when
/// `replace_missing` is set or the request is not empty).
pub fn plan_sync(existing: &Vec<String>, playlists: &Vec<PlaylistPayload>, replace_missing: bool) -> (plan: SyncPlan)
    ensures
        replace_missing ==> plan.removed_figure_ids@.len() == removed_ids(existing@, playlists@).len()
            && forall|i: int|
            0 <= i < plan.removed_figure_ids@.len() ==> #[trigger] plan.removed_figure_ids@[i]@
                == removed_ids(existing@, playlists@)[i],
        !replace_missing ==> plan.removed_figure_ids@.len() == 0,
        plan.remove_all == (replace_missing && playlists@.len() == 0),
        plan.bump_version == (replace_missing || playlists@.len() > 0),
{
    let mut removed: Vec<String> = Vec::new();
    if replace_missing {
        let mut i: usize = 0;
        while i < existing.len()
            invariant
                0 <= i <= existing.len(),
                removed@.len() == removed_ids(existing@.take(i as int), playlists@).len(),
                forall|k: int|
                    0 <= k < removed@.len() ==> #[trigger] removed@[k]@ == removed_ids(
                        existing@.take(i as int),
                        playlists@,
                    )[k],
            decreases existing.len() - i,
        {
            let id = trimmed(existing[i].as_str());
            assert(existing@.take(i + 1).drop_last() =~= existing@.take(i as int));
            if !request_names(playlists, id.as_str()) {
                removed.push(id);
            }
            i += 1;
        }
        assert(existing@.take(existing@.len() as int) =~= existing@);
    }
    SyncPlan {
        removed_figure_ids: removed,
        remove_all: replace_missing && playlists.len() == 0,
        bump_version: replace_missing || playlists.len() > 0,
    }
}

/// A stored quantity read back, negatives counted as 0.
pub fn stored_size(n: i64) -> (result: u64)
    ensures
        result == non_negative(n),
{
    if n < 0 {
        0
    } else {
        n as u64
    }
}

/// The answer to one stored track row.
pub fn track_response(row: &TrackRow) -> (result: TrackResponse)
    ensures
        result == track_response_of(*row),
{
    TrackResponse {
        position: row.position as u16,
        label: row.label.clone(),
        audio_available: row.audio_size_bytes.is_some(),
        audio_size_bytes: match row.audio_size_bytes {
            Some(n) => Some(stored_size(n)),
            None => None,
        },
        audio_sha256: row.audio_sha256.clone(),
    }
}

/// The answers to the track rows of the playlist `figure_id`, in row order.
fn tracks_for(rows: &Vec<TrackRow>, figure_id: &str) -> (result: Vec<TrackResponse>)
    ensures
        result@ == tracks_of(rows@, figure_id@),
{
    let mut result: Vec<TrackResponse> = Vec::new();
    let mut i: usize = 0;
    while i < rows.len()
        invariant
            0 <= i <= rows.len(),
            result@ == tracks_of(rows@.take(i as int), figure_id@),
        decreases rows.len() - i,
    {
        let id = trimmed(rows[i].figure_id.as_str());
        assert(rows@.take(i + 1).drop_last() =~= rows@.take(i as int));
        assert(rows@.take(i + 1).last() == rows@[i as int]);
        if same_text(id.as_str(), figure_id) {
            result.push(track_response(&rows[i]));
        }
        i += 1;
    }
    assert(rows@.take(rows@.len() as int) =~= rows@);
    result
}

/// The library answer assembled from the stored rows: playlists in row
/// order, each with its identifier and NFC payload trimmed and the track rows
/// of its identifier in row order; stored sizes read back as non-negative.
pub fn assemble_library(
    playlists: &Vec<PlaylistRow>,
    tracks: &Vec<TrackRow>,
    version: i64,
    storage_used: i64,
    storage_limit_bytes: u64,
) -> (library: LibraryResponse)
    ensures
        library.version == version,
        library.storage_used_bytes == non_negative(storage_used),
        library.storage_limit_bytes == storage_limit_bytes,
        library.playlists@.len() == playlists@.len(),
        forall|i: int|
            0 <= i < playlists@.len() ==> playlist_response_matches(
                #[trigger] playlists@[i],
                library.playlists@[i],
                tracks@,
                !repeated_before(playlists@, i),
            ),
{
    let mut result: Vec<PlaylistResponse> = Vec::new();
    let mut seen: Vec<String> = Vec::new();
    let mut i: usize = 0;
    while i < playlists.len()
        invariant
            0 <= i <= playlists.len(),
            result@.len() == i,
            seen@.len() == i,
            forall|k: int| 0 <= k < i ==> #[trigger] seen@[k]@ == trim(playlists@[k].figure_id@),
            forall|k: int|
                0 <= k < i ==> playlist_response_matches(
                    #[trigger] playlists@[k],
                    result@[k],
                    tracks@,
                    !repeated_before(playlists@, k),
                ),
        decreases playlists.len() - i,
    {
        let row = &playlists[i];
        let id = trimmed(row.figure_id.as_str());
        let mut repeated = false;
        let mut k: usize = 0;
        while k < i
            invariant
                0 <= k <= i < playlists.len(),
                seen@.len() == i,
                forall|x: int| 0 <= x < i ==> #[trigger] seen@[x]@ == trim(playlists@[x].figure_id@),
                id@ == trim(playlists@[i as int].figure_id@),
                repeated == exists|x: int| 0 <= x < k && trim(#[trigger] playlists@[x].figure_id@) == id@,
            decreases i - k,
        {
            if same_text(seen[k].as_str(), id.as_str()) {
                repeated = true;
            }
            k += 1;
        }
        let owned_tracks = if repeated {
            Vec::new()
        } else {
            tracks_for(tracks, id.as_str())
        };
        let response = PlaylistResponse {
            figure_id: id.clone(),
            name: row.name.clone(),
            nfc_payload: trimmed(row.nfc_payload.as_str()),
            track_count: row.track_count as u16,
            tracks: owned_tracks,
            updated_at: row.updated_at.clone(),
        };
        result.push(response);
        seen.push(id);
        i += 1;
    }
    LibraryResponse {
        version,
        playlists: result,
        storage_used_bytes: stored_size(storage_used),
        storage_limit_bytes,
    }
}

/// A track row that belongs to the playlist `figure_id`.
pub open spec fn row_of(figure_id: Seq<char>) -> spec_fn(TrackRow) -> bool {
    |row: TrackRow| trim(row.figure_id@) == figure_id
}

/// The tracks answered for a playlist keep the order of its stored rows:
/// the k-th track answered is the answer to the k-th row with that
/// identifier, and there is one for each such row.
pub proof fn law_tracks_keep_row_order(rows: Seq<TrackRow>, figure_id: Seq<char>)
    ensures
        tracks_of(rows, figure_id).len() == rows.filter(row_of(figure_id)).len(),
        forall|k: int|
            0 <= k < tracks_of(rows, figure_id).len() ==> #[trigger] tracks_of(rows, figure_id)[k]
                == track_response_of(rows.filter(row_of(figure_id))[k]),
    decreases rows.len(),
{
    reveal(Seq::filter);
    if rows.len() > 0 {
        law_tracks_keep_row_order(rows.drop_last(), figure_id);
        let earlier = rows.drop_last().filter(row_of(figure_id));
        assert(rows.filter(row_of(figure_id)) == if row_of(figure_id)(rows.last()) {
            earlier.push(rows.last())
        } else {
            earlier
        });
    }
}

} // verus!
