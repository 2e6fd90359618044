//! The editor's side of FABA Cloud: which service it talks to, which card
//! figures it offers the cloud, which tracks still need an upload, which
//! downloads are accepted, and what a refused request is answered. The
//! requests themselves are sent by the program around the library.
use vstd::prelude::*;
use crate::card::{CardSnapshot, Figure, Track};
use crate::digest::{sha256_hex, sha256_hex_of};
use crate::error::EditorError;
use crate::ids::{is_custom_figure_id, is_custom_id};
use crate::storage::{status_of, text_opt, CloudSession, CloudStatus, LibraryDatabase, StatusView};
use crate::text::{append_str, chars_of, owned, same_text, string_of, trim, trimmed};

verus! {

/// A track of a cloud playlist.
pub struct CloudTrack {
    pub position: u16,
    pub label: String,
    pub audio_available: bool,
    pub audio_size_bytes: Option<u64>,
    pub audio_sha256: Option<String>,
}

/// A playlist of the cloud library.
pub struct CloudPlaylist {
    pub figure_id: String,
    pub name: String,
    pub nfc_payload: String,
    pub track_count: u16,
    pub tracks: Vec<CloudTrack>,
    pub updated_at: String,
}

/// The cloud library of an account.
pub struct CloudLibrary {
    pub version: i64,
    pub playlists: Vec<CloudPlaylist>,
    pub storage_used_bytes: u64,
    pub storage_limit_bytes: u64,
}

#[verifier::ext_equal]
pub struct CloudTrackView {
    pub position: u16,
    pub label: Seq<char>,
    pub audio_available: bool,
    pub audio_size_bytes: Option<u64>,
    pub audio_sha256: Option<Seq<char>>,
}

impl View for CloudTrack {
    type V = CloudTrackView;

    open spec fn view(&self) -> CloudTrackView {
        CloudTrackView {
            position: self.position,
            label: self.label@,
            audio_available: self.audio_available,
            audio_size_bytes: self.audio_size_bytes,
            audio_sha256: text_opt(self.audio_sha256),
        }
    }
}

#[verifier::ext_equal]
pub struct CloudPlaylistView {
    pub figure_id: Seq<char>,
    pub name: Seq<char>,
    pub nfc_payload: Seq<char>,
    pub track_count: u16,
    pub tracks: Seq<CloudTrackView>,
    pub updated_at: Seq<char>,
}

impl View for CloudPlaylist {
    type V = CloudPlaylistView;

    open spec fn view(&self) -> CloudPlaylistView {
        CloudPlaylistView {
            figure_id: self.figure_id@,
            name: self.name@,
            nfc_payload: self.nfc_payload@,
            track_count: self.track_count,
            tracks: self.tracks@.map_values(|t: CloudTrack| t@),
            updated_at: self.updated_at@,
        }
    }
}

pub open spec fn cloud_playlist_views(playlists: Seq<CloudPlaylist>) -> Seq<CloudPlaylistView> {
    playlists.map_values(|p: CloudPlaylist| p@)
}

// ---------------------------------------------------------------------------
// The service
// ---------------------------------------------------------------------------

/// The service used when none is configured.
pub open spec fn production_endpoint() -> Seq<char> {
    "https://faba.bo1.be"@
}

/// `s` without its trailing `/` characters (`trim_end_matches('/')`).
pub open spec fn without_trailing_slashes(s: Seq<char>) -> Seq<char>
    decreases s.len(),
{
    if s.len() > 0 && s.last() == '/' {
        without_trailing_slashes(s.drop_last())
    } else {
        s
    }
}

/// The service the editor talks to: the configured address, else the
/// production one, without trailing slashes.
pub open spec fn endpoint_of(configured: Option<Seq<char>>) -> Seq<char> {
    without_trailing_slashes(
        match configured {
            Some(url) => url,
            None => production_endpoint(),
        },
    )
}

/// The service the editor talks to, given the configured address (the
/// `FABA_CLOUD_URL` setting), if any.
pub fn endpoint(configured: Option<&str>) -> (url: String)
    ensures
        url@ == endpoint_of(match configured {
            Some(u) => Some(u@),
            None => None,
        }),
{
    let base = match configured {
        Some(u) => chars_of(u),
        None => {
            proof {
                reveal_strlit("https://faba.bo1.be");
            }
            chars_of("https://faba.bo1.be")
        },
    };
    let ghost whole = base@;
    let mut end = base.len();
    assert(whole.take(end as int) =~= whole);
    while end > 0 && base[end - 1] == '/'
        invariant
            0 <= end <= base.len(),
            whole == base@,
            without_trailing_slashes(whole) == without_trailing_slashes(whole.take(end as int)),
        decreases end,
    {
        assert(whole.take(end as int).drop_last() =~= whole.take(end - 1));
        end -= 1;
    }
    string_of(&base, 0, end)
}

/// The cloud connection shown to the user, for the configured service.
pub fn status(database: &LibraryDatabase, configured: Option<&str>) -> (status: CloudStatus)
    ensures
        status@ == status_of(database@.session, endpoint_of(match configured {
            Some(u) => Some(u@),
            None => None,
        })),
{
    let url = endpoint(configured);
    database.cloud_status(url.as_str())
}

/// The signed-in account; a request needs one.
pub fn require_session(database: &LibraryDatabase) -> (result: Result<CloudSession, EditorError>)
    ensures
        match database@.session {
            Some(s) => result matches Ok(session) && session@ == s,
            None => result == Err::<CloudSession, EditorError>(EditorError::NotSignedIn),
        },
{
    match database.cloud_session() {
        Some(session) => Ok(session),
        None => Err(EditorError::NotSignedIn),
    }
}

/// The name the editor gives itself: `FABA+ Custom Editor/version (os)`.
pub open spec fn client_name_of(version: Seq<char>, os: Seq<char>) -> Seq<char> {
    "FABA+ Custom Editor/"@ + version + " ("@ + os + ")"@
}

/// The name the editor gives itself, for its version and operating system.
pub fn desktop_client_name(version: &str, os: &str) -> (name: String)
    ensures
        name@ == client_name_of(version@, os@),
{
    let mut name = owned("FABA+ Custom Editor/");
    append_str(&mut name, version);
    append_str(&mut name, " (");
    append_str(&mut name, os);
    append_str(&mut name, ")");
    proof {
        reveal_strlit("FABA+ Custom Editor/");
        reveal_strlit(" (");
        reveal_strlit(")");
    }
    name
}

/// What a refused request is answered: an expired session for `401`, else
/// the message the service sent, else the status itself.
pub open spec fn remote_error_of(status: u16, message: Option<Seq<char>>, status_text: Seq<char>) -> Seq<char> {
    match message {
        Some(m) => m,
        None => "FABA Cloud a répondu avec l'erreur "@ + status_text + "."@,
    }
}

/// The error for a refused request with HTTP `status` (shown as
/// `status_text`), given the message of the error body when it had one.
pub fn remote_error(status: u16, message: Option<String>, status_text: &str) -> (error: EditorError)
    ensures
        status == 401 ==> error == EditorError::SessionExpired,
        status != 401 ==> (error matches EditorError::Remote(m) && m@ == remote_error_of(
            status,
            text_opt(message),
            status_text@,
        )),
{
    if status == 401 {
        return EditorError::SessionExpired;
    }
    match message {
        Some(m) => EditorError::Remote(m),
        None => {
            let mut text = owned("FABA Cloud a répondu avec l'erreur ");
            append_str(&mut text, status_text);
            append_str(&mut text, ".");
            proof {
                reveal_strlit("FABA Cloud a répondu avec l'erreur ");
                reveal_strlit(".");
            }
            EditorError::Remote(text)
        },
    }
}

// ---------------------------------------------------------------------------
// Offering a card to the cloud
// ---------------------------------------------------------------------------

/// The name a figure has in the cloud: its custom name unless blank, else
/// `Figurine K` and its identifier.
pub open spec fn cloud_name(custom_name: Option<Seq<char>>, figure_id: Seq<char>) -> Seq<char> {
    match custom_name {
        Some(n) => if trim(n).len() > 0 {
            n
        } else {
            "Figurine K"@ + figure_id
        },
        None => "Figurine K"@ + figure_id,
    }
}

/// A figure as a cloud playlist: its tracks in order, without audio yet.
pub open spec fn playlist_of_figure(figure: Figure) -> CloudPlaylistView {
    CloudPlaylistView {
        figure_id: figure.id@,
        name: cloud_name(text_opt(figure.custom_name), figure.id@),
        nfc_payload: Seq::empty(),
        track_count: figure.tracks@.len() as u16,
        tracks: Seq::new(
            figure.tracks@.len(),
            |k: int|
                CloudTrackView {
                    position: k as u16,
                    label: figure.tracks@[k].label@,
                    audio_available: false,
                    audio_size_bytes: None,
                    audio_sha256: None,
                },
        ),
        updated_at: Seq::empty(),
    }
}

/// The figures the cloud takes: custom identifiers with at least one track.
pub open spec fn cloud_eligible() -> spec_fn(Figure) -> bool {
    |f: Figure| is_custom_id(f.id@) && f.tracks@.len() > 0
}

/// A figure as a cloud playlist.
pub fn playlist_from_figure(figure: &Figure) -> (playlist: CloudPlaylist)
    ensures
        playlist@ == playlist_of_figure(*figure),
{
    let name = match &figure.custom_name {
        Some(n) => {
            let t = trimmed(n.as_str());
            if chars_of(t.as_str()).len() > 0 {
                n.clone()
            } else {
                let mut s = owned("Figurine K");
                append_str(&mut s, figure.id.as_str());
                s
            }
        },
        None => {
            let mut s = owned("Figurine K");
            append_str(&mut s, figure.id.as_str());
            s
        },
    };
    proof {
        reveal_strlit("Figurine K");
    }
    let mut tracks: Vec<CloudTrack> = Vec::new();
    let mut k: usize = 0;
    while k < figure.tracks.len()
        invariant
            0 <= k <= figure.tracks.len(),
            tracks@.len() == k,
            forall|j: int|
                0 <= j < k ==> (#[trigger] tracks@[j])@ == (CloudTrackView {
                    position: j as u16,
                    label: figure.tracks@[j].label@,
                    audio_available: false,
                    audio_size_bytes: None,
                    audio_sha256: None,
                }),
        decreases figure.tracks.len() - k,
    {
        tracks.push(
            CloudTrack {
                position: k as u16,
                label: figure.tracks[k].label.clone(),
                audio_available: false,
                audio_size_bytes: None,
                audio_sha256: None,
            },
        );
        k += 1;
    }
    let playlist = CloudPlaylist {
        figure_id: figure.id.clone(),
        name,
        nfc_payload: String::new(),
        track_count: figure.tracks.len() as u16,
        tracks,
        updated_at: String::new(),
    };
    assert(playlist@ =~= playlist_of_figure(*figure));
    playlist
}

/// The playlists a card offers the cloud: its eligible figures, in order.
pub fn cloud_playlists(snapshot: &CardSnapshot) -> (playlists: Vec<CloudPlaylist>)
    ensures
        cloud_playlist_views(playlists@) == snapshot.figures@.filter(cloud_eligible()).map_values(
            |f: Figure| playlist_of_figure(f),
        ),
{
    let ghost figures = snapshot.figures@;
    let mut playlists: Vec<CloudPlaylist> = Vec::new();
    let mut i: usize = 0;
    assert(figures.take(0).filter(cloud_eligible()) =~= Seq::<Figure>::empty()) by {
        reveal(Seq::filter);
    }
    while i < snapshot.figures.len()
        invariant
            0 <= i <= snapshot.figures.len(),
            figures == snapshot.figures@,
            cloud_playlist_views(playlists@) == figures.take(i as int).filter(cloud_eligible()).map_values(
                |f: Figure| playlist_of_figure(f),
            ),
        decreases snapshot.figures.len() - i,
    {
        let f = &snapshot.figures[i];
        proof {
            crate::order::lemma_filter_take_step(figures, i as int, cloud_eligible());
        }
        if is_custom_figure_id(f.id.as_str()) && f.tracks.len() > 0 {
            let ghost prev = playlists@;
            playlists.push(playlist_from_figure(f));
            assert(cloud_playlist_views(playlists@) =~= cloud_playlist_views(prev).push(playlist_of_figure(*f)));
            assert(figures.take(i + 1).filter(cloud_eligible()).map_values(|f: Figure| playlist_of_figure(f))
                =~= figures.take(i as int).filter(cloud_eligible()).map_values(|f: Figure| playlist_of_figure(f)).push(
                playlist_of_figure(*f),
            ));
        }
        i += 1;
    }
    assert(figures.take(figures.len() as int) =~= figures);
    playlists
}

/// The first playlist of `playlists` with identifier `id`.
pub open spec fn cloud_playlist_with_id(playlists: Seq<CloudPlaylistView>, id: Seq<char>) -> Option<CloudPlaylistView>
    decreases playlists.len(),
{
    if playlists.len() == 0 {
        None
    } else if playlists[0].figure_id == id {
        Some(playlists[0])
    } else {
        cloud_playlist_with_id(playlists.drop_first(), id)
    }
}

/// Whether the cloud already holds, at `position` of playlist `id`, audio
/// whose digest is `hash`.
pub open spec fn already_uploaded(playlists: Seq<CloudPlaylistView>, id: Seq<char>, position: int, hash: Seq<char>) -> bool {
    match cloud_playlist_with_id(playlists, id) {
        Some(p) => 0 <= position < p.tracks.len() && p.tracks[position].audio_sha256 == Some(hash),
        None => false,
    }
}

fn find_cloud_playlist(playlists: &Vec<CloudPlaylist>, id: &str) -> (found: Option<usize>)
    ensures
        match found {
            Some(i) => i < playlists.len() && cloud_playlist_with_id(cloud_playlist_views(playlists@), id@) == Some(
                playlists@[i as int]@,
            ),
            None => cloud_playlist_with_id(cloud_playlist_views(playlists@), id@) is None,
        },
{
    let ghost views = cloud_playlist_views(playlists@);
    let mut i: usize = 0;
    assert(views.skip(0) =~= views);
    while i < playlists.len()
        invariant
            0 <= i <= playlists.len(),
            views == cloud_playlist_views(playlists@),
            cloud_playlist_with_id(views, id@) == cloud_playlist_with_id(views.skip(i as int), id@),
        decreases playlists.len() - i,
    {
        assert(views.skip(i as int)[0] == playlists@[i as int]@);
        if same_text(playlists[i].figure_id.as_str(), id) {
            return Some(i);
        }
        assert(views.skip(i as int).drop_first() =~= views.skip(i + 1));
        i += 1;
    }
    None
}

/// Whether the track at `position` of figure `figure_id`, whose audio has
/// the digest `hash`, must be uploaded: the cloud library `remote` does not
/// already hold that audio there.
pub fn upload_needed(remote: &CloudLibrary, figure_id: &str, position: usize, hash: &str) -> (needed: bool)
    ensures
        needed == !already_uploaded(cloud_playlist_views(remote.playlists@), figure_id@, position as int, hash@),
{
    match find_cloud_playlist(&remote.playlists, figure_id) {
        Some(i) => {
            let p = &remote.playlists[i];
            assert(p@.tracks.len() == p.tracks@.len());
            if position < p.tracks.len() {
                assert(p@.tracks[position as int] == p.tracks@[position as int]@);
                match &p.tracks[position].audio_sha256 {
                    Some(h) => !same_text(h.as_str(), hash),
                    None => true,
                }
            } else {
                true
            }
        },
        None => true,
    }
}

// ---------------------------------------------------------------------------
// Downloads
// ---------------------------------------------------------------------------

/// Whether every track of a cloud playlist has its audio, and it has one.
pub open spec fn cloud_complete(p: CloudPlaylistView) -> bool {
    p.tracks.len() > 0 && forall|k: int| 0 <= k < p.tracks.len() ==> (#[trigger] p.tracks[k]).audio_available
}

/// Finds the cloud playlist `figure_id` for a download: a custom
/// identifier, still in the cloud, with all its audio.
#[verifier::loop_isolation(false)]
pub fn downloadable_playlist(remote: &CloudLibrary, figure_id: &str) -> (result: Result<usize, EditorError>)
    ensures
        !is_custom_id(figure_id@) ==> result == Err::<usize, EditorError>(EditorError::NotCloudFigureId),
        is_custom_id(figure_id@) ==> match cloud_playlist_with_id(cloud_playlist_views(remote.playlists@), figure_id@) {
            None => result == Err::<usize, EditorError>(EditorError::RemotePlaylistGone),
            Some(p) => if cloud_complete(p) {
                result matches Ok(i) && i < remote.playlists@.len() && remote.playlists@[i as int]@ == p
            } else {
                result == Err::<usize, EditorError>(EditorError::RemotePlaylistIncomplete)
            },
        },
{
    if !is_custom_figure_id(figure_id) {
        return Err(EditorError::NotCloudFigureId);
    }
    match find_cloud_playlist(&remote.playlists, figure_id) {
        None => Err(EditorError::RemotePlaylistGone),
        Some(i) => {
            let p = &remote.playlists[i];
            if p.tracks.len() == 0 {
                return Err(EditorError::RemotePlaylistIncomplete);
            }
            let mut k: usize = 0;
            while k < p.tracks.len()
                invariant
                    0 <= k <= p.tracks.len(),
                    forall|j: int| 0 <= j < k ==> (#[trigger] p@.tracks[j]).audio_available,
                decreases p.tracks.len() - k,
            {
                assert(p@.tracks[k as int] == p.tracks@[k as int]@);
                if !p.tracks[k].audio_available {
                    return Err(EditorError::RemotePlaylistIncomplete);
                }
                k += 1;
            }
            Ok(i)
        },
    }
}

/// Accepts downloaded audio whose SHA-256 is the digest the cloud gave;
/// returns that digest.
pub fn verified_download(expected: &Option<String>, bytes: &[u8]) -> (result: Result<String, EditorError>)
    ensures
        text_opt(*expected) == Some(sha256_hex(bytes@)) ==> (result matches Ok(h) && h@ == sha256_hex(bytes@)),
        text_opt(*expected) != Some(sha256_hex(bytes@)) ==> result == Err::<String, EditorError>(
            EditorError::IntegrityCheckFailed,
        ),
{
    let hash = sha256_hex_of(bytes);
    match expected {
        Some(e) => {
            if same_text(e.as_str(), hash.as_str()) {
                Ok(hash)
            } else {
                Err(EditorError::IntegrityCheckFailed)
            }
        },
        None => Err(EditorError::IntegrityCheckFailed),
    }
}

proof fn lemma_no_trailing_slash(s: Seq<char>)
    ensures
        without_trailing_slashes(s).len() == 0 || without_trailing_slashes(s).last() != '/',
        without_trailing_slashes(s).len() <= s.len(),
        without_trailing_slashes(s) == s.take(without_trailing_slashes(s).len() as int),
    decreases s.len(),
{
    if s.len() > 0 && s.last() == '/' {
        lemma_no_trailing_slash(s.drop_last());
        assert(s.drop_last().take(without_trailing_slashes(s).len() as int) =~= s.take(
            without_trailing_slashes(s).len() as int,
        ));
    } else {
        assert(s.take(s.len() as int) =~= s);
    }
}

/// The service address never ends with `/`, so the request paths are
/// appended to it as they are; it is the configured address with only its
/// trailing slashes removed.
pub proof fn law_endpoint_has_no_trailing_slash(configured: Option<Seq<char>>)
    ensures
        ({
            let url = endpoint_of(configured);
            let base = match configured {
                Some(u) => u,
                None => production_endpoint(),
            };
            &&& url.len() == 0 || url.last() != '/'
            &&& url == base.take(url.len() as int)
            &&& forall|i: int| url.len() <= i < base.len() ==> #[trigger] base[i] == '/'
        }),
{
    let base = match configured {
        Some(u) => u,
        None => production_endpoint(),
    };
    lemma_no_trailing_slash(base);
    lemma_only_slashes_removed(base);
}

proof fn lemma_only_slashes_removed(s: Seq<char>)
    ensures
        forall|i: int| without_trailing_slashes(s).len() <= i < s.len() ==> #[trigger] s[i] == '/',
    decreases s.len(),
{
    if s.len() > 0 && s.last() == '/' {
        lemma_only_slashes_removed(s.drop_last());
        lemma_no_trailing_slash(s.drop_last());
        assert forall|i: int| without_trailing_slashes(s).len() <= i < s.len() implies #[trigger] s[i] == '/' by {
            if i < s.len() - 1 {
                assert(s.drop_last()[i] == s[i]);
            }
        }
    }
}

/// A figure is offered to the cloud under the name given to it, unless that
/// name is missing or blank; only then is it called `Figurine K<id>`. Its
/// tracks keep their labels, in card order, numbered from 0.
pub proof fn law_figures_keep_their_names(figure: Figure)
    ensures
        ({
            let p = playlist_of_figure(figure);
            &&& p.figure_id == figure.id@
            &&& (figure.custom_name is Some && trim(figure.custom_name->0@).len() > 0 ==> p.name
                == figure.custom_name->0@)
            &&& (!(figure.custom_name is Some && trim(figure.custom_name->0@).len() > 0) ==> p.name
                == "Figurine K"@ + figure.id@)
            &&& p.tracks.len() == figure.tracks@.len()
            &&& forall|k: int|
                0 <= k < p.tracks.len() ==> (#[trigger] p.tracks[k]).label == figure.tracks@[k].label@
                    && p.tracks[k].position == k as u16
        }),
{
}

} // verus!
