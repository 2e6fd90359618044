//! The decisions behind the editor's commands: which disks are offered as
//! cards and in which order, what a figure is named and its tracks
//! labelled after a write, where backups of a card go, which figures may
//! be deleted, and the messages shown after each change.
use vstd::prelude::*;
use crate::card::{ensure_editable, has_figure, CardKind, CardSnapshot};
use crate::error::{message_of, EditorError};
use crate::ids::{file_stem, file_stem_of};
use crate::managed::{ManagedLibrary, ManagedPlaylist, ManagedPlaylistView};
use crate::storage::{
    card_label, figure_known, figures_labelled, figures_named, snapshot_decorated, snapshot_recorded, str_opt,
    LibraryDatabase, LibraryView,
};
use crate::order::{by_text_keys, sort_by_text, stable_sort};
use crate::paths::file_name;
use crate::text::{append_str, chars_of, decimal, is_ascii_alnum, owned, push_char, push_decimal, trim, trimmed};

verus! {

/// A disk found on the computer.
pub struct DiskInfo {
    pub mount_path: String,
    pub name: String,
    pub removable: bool,
    /// Whether its content looks like a FABA card.
    pub likely_faba: bool,
    pub total_bytes: u64,
    pub available_bytes: u64,
}

/// A disk offered as a card.
pub struct DetectedCard {
    pub id: String,
    pub label: String,
    pub mount_path: String,
    pub removable: bool,
    pub likely_faba: bool,
    pub total_bytes: u64,
    pub available_bytes: u64,
}

/// A card after a change, with the backup made and the message shown.
pub struct MutationResult {
    pub snapshot: CardSnapshot,
    pub backup_path: Option<String>,
    pub message: String,
}

#[verifier::ext_equal]
pub struct DetectedCardView {
    pub id: Seq<char>,
    pub label: Seq<char>,
    pub mount_path: Seq<char>,
    pub removable: bool,
    pub likely_faba: bool,
    pub total_bytes: u64,
    pub available_bytes: u64,
}

impl View for DetectedCard {
    type V = DetectedCardView;

    open spec fn view(&self) -> DetectedCardView {
        DetectedCardView {
            id: self.id@,
            label: self.label@,
            mount_path: self.mount_path@,
            removable: self.removable,
            likely_faba: self.likely_faba,
            total_bytes: self.total_bytes,
            available_bytes: self.available_bytes,
        }
    }
}

/// A disk as offered.
pub open spec fn detected_of(d: DiskInfo) -> DetectedCardView {
    DetectedCardView {
        id: d.mount_path@,
        label: d.name@,
        mount_path: d.mount_path@,
        removable: d.removable,
        likely_faba: d.likely_faba,
        total_bytes: d.total_bytes,
        available_bytes: d.available_bytes,
    }
}

/// The disks offered: removable ones and those that look like a card.
pub open spec fn offered(disks: Seq<DiskInfo>) -> spec_fn(usize) -> bool {
    |i: usize| disks[i as int].removable || disks[i as int].likely_faba
}

pub open spec fn likely(disks: Seq<DiskInfo>) -> spec_fn(usize) -> bool {
    |i: usize| disks[i as int].likely_faba
}

pub open spec fn unlikely(disks: Seq<DiskInfo>) -> spec_fn(usize) -> bool {
    |i: usize| !disks[i as int].likely_faba
}

/// The offered disks, by label.
pub open spec fn by_label(disks: Seq<DiskInfo>) -> Seq<usize> {
    stable_sort(
        Seq::new(disks.len(), |i: int| i as usize).filter(offered(disks)),
        by_text_keys(disks.map_values(|d: DiskInfo| d.name@)),
    )
}

/// The order of the offered disks: the ones that look like a card first,
/// each group by label.
pub open spec fn detection_order(disks: Seq<DiskInfo>) -> Seq<usize> {
    by_label(disks).filter(likely(disks)) + by_label(disks).filter(unlikely(disks))
}

fn detected(d: &DiskInfo) -> (card: DetectedCard)
    ensures
        card@ == detected_of(*d),
{
    DetectedCard {
        id: d.mount_path.clone(),
        label: d.name.clone(),
        mount_path: d.mount_path.clone(),
        removable: d.removable,
        likely_faba: d.likely_faba,
        total_bytes: d.total_bytes,
        available_bytes: d.available_bytes,
    }
}

/// The disks offered as cards, in the order they are shown.
pub fn detected_cards(disks: &Vec<DiskInfo>) -> (cards: Vec<DetectedCard>)
    ensures
        cards@.map_values(|c: DetectedCard| c@) == detection_order(disks@).map_values(
            |i: usize| detected_of(disks@[i as int]),
        ),
{
    let ghost all = Seq::new(disks@.len(), |i: int| i as usize);
    let mut kept: Vec<usize> = Vec::new();
    let mut keys: Vec<Vec<char>> = Vec::new();
    let mut i: usize = 0;
    assert(all.take(0).filter(offered(disks@)) =~= Seq::<usize>::empty()) by {
        reveal(Seq::filter);
    }
    while i < disks.len()
        invariant
            0 <= i <= disks.len(),
            all == Seq::new(disks@.len(), |i: int| i as usize),
            kept@ == all.take(i as int).filter(offered(disks@)),
            forall|j: int| 0 <= j < kept@.len() ==> #[trigger] kept@[j] < i,
            keys@.len() == i,
            forall|j: int| 0 <= j < i ==> (#[trigger] keys@[j])@ == disks@[j].name@,
        decreases disks.len() - i,
    {
        assert(all[i as int] == i);
        proof {
            crate::order::lemma_filter_take_step(all, i as int, offered(disks@));
            reveal(Seq::filter);
        }
        if disks[i].removable || disks[i].likely_faba {
            kept.push(i);
        }
        keys.push(chars_of(disks[i].name.as_str()));
        i += 1;
    }
    assert(all.take(all.len() as int) =~= all);
    assert(keys@.map_values(|k: Vec<char>| k@) =~= disks@.map_values(|d: DiskInfo| d.name@));
    let order = sort_by_text(&kept, &keys);
    proof {
        crate::order::lemma_stable_sort_members(kept@, by_text_keys(keys@.map_values(|k: Vec<char>| k@)));
    }
    assert(order@ == by_label(disks@));
    let ghost ord = order@;
    let mut cards: Vec<DetectedCard> = Vec::new();
    let mut pass: usize = 0;
    while pass < 2
        invariant
            0 <= pass <= 2,
            ord == order@,
            ord == by_label(disks@),
            forall|j: int| 0 <= j < ord.len() ==> kept@.contains(#[trigger] ord[j]),
            forall|j: int| 0 <= j < kept@.len() ==> #[trigger] kept@[j] < disks@.len(),
            cards@.map_values(|c: DetectedCard| c@) == (if pass == 0 {
                Seq::empty()
            } else if pass == 1 {
                ord.filter(likely(disks@))
            } else {
                ord.filter(likely(disks@)) + ord.filter(unlikely(disks@))
            }).map_values(|i: usize| detected_of(disks@[i as int])),
        decreases 2 - pass,
    {
        let want = pass == 0;
        let ghost pred = if want {
            likely(disks@)
        } else {
            unlikely(disks@)
        };
        let ghost base = cards@.map_values(|c: DetectedCard| c@);
        let mut k: usize = 0;
        assert(ord.take(0).filter(pred) =~= Seq::<usize>::empty()) by {
            reveal(Seq::filter);
        }
        while k < order.len()
            invariant
                0 <= k <= order.len(),
                ord == order@,
                forall|j: int| 0 <= j < ord.len() ==> kept@.contains(#[trigger] ord[j]),
                forall|j: int| 0 <= j < kept@.len() ==> #[trigger] kept@[j] < disks@.len(),
                pred == (if want {
                    likely(disks@)
                } else {
                    unlikely(disks@)
                }),
                cards@.map_values(|c: DetectedCard| c@) == base + ord.take(k as int).filter(pred).map_values(
                    |i: usize| detected_of(disks@[i as int]),
                ),
            decreases order.len() - k,
        {
            assert(kept@.contains(ord[k as int]));
            let idx = order[k];
            proof {
                crate::order::lemma_filter_take_step(ord, k as int, pred);
            }
            if disks[idx].likely_faba == want {
                let ghost prev = cards@;
                cards.push(detected(&disks[idx]));
                assert(cards@.map_values(|c: DetectedCard| c@) =~= prev.map_values(|c: DetectedCard| c@).push(
                    detected_of(disks@[idx as int]),
                ));
                assert(ord.take(k + 1).filter(pred).map_values(|i: usize| detected_of(disks@[i as int])) =~= ord.take(
                    k as int,
                ).filter(pred).map_values(|i: usize| detected_of(disks@[i as int])).push(detected_of(disks@[idx as int])));
            }
            k += 1;
        }
        assert(ord.take(ord.len() as int) =~= ord);
        assert((ord.filter(likely(disks@)) + ord.filter(unlikely(disks@))).map_values(
            |i: usize| detected_of(disks@[i as int]),
        ) =~= ord.filter(likely(disks@)).map_values(|i: usize| detected_of(disks@[i as int])) + ord.filter(
            unlikely(disks@),
        ).map_values(|i: usize| detected_of(disks@[i as int])));
        assert(Seq::<usize>::empty().map_values(|i: usize| detected_of(disks@[i as int])) =~= Seq::<
            DetectedCardView,
        >::empty());
        pass += 1;
    }
    cards
}

// ---------------------------------------------------------------------------
// Names, labels and backups
// ---------------------------------------------------------------------------

/// The name a figure gets from what the user typed: trimmed, none when blank.
pub open spec fn figure_name_of(custom_name: Seq<char>) -> Option<Seq<char>> {
    if trim(custom_name).len() == 0 {
        None
    } else {
        Some(trim(custom_name))
    }
}

/// The name a figure gets from what the user typed.
pub fn figure_name_choice(custom_name: &str) -> (name: Option<String>)
    ensures
        match name {
            Some(n) => figure_name_of(custom_name@) == Some(n@),
            None => figure_name_of(custom_name@) is None,
        },
{
    let t = trimmed(custom_name);
    if chars_of(t.as_str()).len() == 0 {
        None
    } else {
        Some(t)
    }
}

/// The label a written track gets from its source file: the file stem,
/// `Piste` when the path has no file name.
pub open spec fn track_label_of(file_name: Option<Seq<char>>) -> Seq<char> {
    match file_name {
        Some(name) => file_stem_of(name),
        None => "Piste"@,
    }
}

/// The label a written track gets from the file name of its source.
pub fn track_label(file_name: Option<&str>) -> (label: String)
    ensures
        label@ == track_label_of(match file_name {
            Some(n) => Some(n@),
            None => None,
        }),
{
    match file_name {
        Some(n) => file_stem(n),
        None => {
            proof {
                reveal_strlit("Piste");
            }
            owned("Piste")
        },
    }
}

/// The backup folder name of a card: its last path component (`card` when
/// there is none), each character other than an ASCII letter or digit
/// replaced by `-`.
pub open spec fn backup_card_name_of(name: Option<Seq<char>>) -> Seq<char> {
    let base = match name {
        Some(n) => n,
        None => "card"@,
    };
    Seq::new(base.len(), |i: int| if is_ascii_alnum(base[i]) { base[i] } else { '-' })
}

/// The backup folder name of a card named `name`.
pub fn sanitized_card_name(name: Option<&str>) -> (folder: String)
    ensures
        folder@ == backup_card_name_of(match name {
            Some(n) => Some(n@),
            None => None,
        }),
{
    proof {
        reveal_strlit("card");
    }
    let base = match name {
        Some(n) => chars_of(n),
        None => chars_of("card"),
    };
    let ghost target = backup_card_name_of(match name {
        Some(n) => Some(n@),
        None => None,
    });
    let mut folder = String::new();
    let mut i: usize = 0;
    while i < base.len()
        invariant
            0 <= i <= base.len(),
            target.len() == base@.len(),
            forall|j: int| 0 <= j < base@.len() ==> #[trigger] target[j] == (if is_ascii_alnum(base@[j]) {
                base@[j]
            } else {
                '-'
            }),
            folder@ == target.take(i as int),
        decreases base.len() - i,
    {
        let c = base[i];
        if ('a' <= c && c <= 'z') || ('A' <= c && c <= 'Z') || ('0' <= c && c <= '9') {
            push_char(&mut folder, c);
        } else {
            push_char(&mut folder, '-');
        }
        assert(target.take(i + 1) =~= target.take(i as int).push(target[i as int]));
        i += 1;
    }
    assert(target.take(base.len() as int) =~= target);
    folder
}

/// The backup folder name of the card at `card_root`.
pub fn backup_card_name(card_root: &str) -> (folder: String)
    ensures
        exists|name: Option<Seq<char>>|
            crate::paths::file_name_fits(card_root@, name) && folder@ == backup_card_name_of(name),
{
    let name = file_name(card_root);
    match name {
        Some(n) => sanitized_card_name(Some(n.as_str())),
        None => sanitized_card_name(None),
    }
}

// ---------------------------------------------------------------------------
// Checks and messages
// ---------------------------------------------------------------------------

/// Whether a figure of `snapshot` may be deleted: the card is editable,
/// holds the figure, and is a FABA+ card.
pub fn check_deletable(snapshot: &CardSnapshot, figure_id: &str) -> (result: Result<(), EditorError>)
    ensures
        snapshot.kind == CardKind::LegacyFaba ==> result == Err::<(), EditorError>(EditorError::LegacyReadOnly),
        snapshot.kind == CardKind::Unknown ==> result == Err::<(), EditorError>(EditorError::UnknownFormat),
        (snapshot.kind == CardKind::FabaPlus || snapshot.kind == CardKind::Empty) && !snapshot.writable ==> result
            == Err::<(), EditorError>(EditorError::ReadOnly),
        (snapshot.kind == CardKind::FabaPlus || snapshot.kind == CardKind::Empty) && snapshot.writable ==> (if !(
        exists|k: int| 0 <= k < snapshot.figures@.len() && #[trigger] snapshot.figures@[k].id@ == figure_id@) {
            result == Err::<(), EditorError>(EditorError::FigureNotFound)
        } else if snapshot.kind == CardKind::FabaPlus {
            result is Ok
        } else {
            result == Err::<(), EditorError>(EditorError::DeleteNeedsPlus)
        }),
{
    ensure_editable(snapshot)?;
    if !has_figure(snapshot, figure_id) {
        return Err(EditorError::FigureNotFound);
    }
    if snapshot.kind != CardKind::FabaPlus {
        return Err(EditorError::DeleteNeedsPlus);
    }
    Ok(())
}

/// The message after a figure was written from audio files.
pub open spec fn save_message_of(replaced: bool) -> Seq<char> {
    if replaced {
        "Figurine remplacée et ancienne version sauvegardée."@
    } else {
        "Figurine ajoutée à la carte."@
    }
}

/// The message after a figure was written, `replaced` when it was on the
/// card before.
pub fn save_message(replaced: bool) -> (message: String)
    ensures
        message@ == save_message_of(replaced),
{
    proof {
        reveal_strlit("Figurine remplacée et ancienne version sauvegardée.");
        reveal_strlit("Figurine ajoutée à la carte.");
    }
    if replaced {
        owned("Figurine remplacée et ancienne version sauvegardée.")
    } else {
        owned("Figurine ajoutée à la carte.")
    }
}

/// The message after a cloud playlist was written to a card.
pub open spec fn import_message_of(replaced: bool) -> Seq<char> {
    if replaced {
        "Playlist écrite ; l'ancienne version a été sauvegardée."@
    } else {
        "Playlist écrite sur la carte."@
    }
}

/// The message after a playlist was written, `replaced` when its figure
/// was on the card before.
pub fn import_message(replaced: bool) -> (message: String)
    ensures
        message@ == import_message_of(replaced),
{
    proof {
        reveal_strlit("Playlist écrite ; l'ancienne version a été sauvegardée.");
        reveal_strlit("Playlist écrite sur la carte.");
    }
    if replaced {
        owned("Playlist écrite ; l'ancienne version a été sauvegardée.")
    } else {
        owned("Playlist écrite sur la carte.")
    }
}

/// The message after a figure was deleted.
pub fn delete_message() -> (message: String)
    ensures
        message@ == "Figurine retirée ; une sauvegarde locale a été conservée."@,
{
    owned("Figurine retirée ; une sauvegarde locale a été conservée.")
}

/// The message after the library was written to a card.
pub open spec fn library_sync_message_of(count: nat) -> Seq<char> {
    decimal(count) + " playlist(s) synchronisée(s). Les autres contenus de la carte ont été conservés."@
}

/// The message after `count` playlists were written to a card.
pub fn library_sync_message(count: usize) -> (message: String)
    ensures
        message@ == library_sync_message_of(count as nat),
{
    let mut message = String::new();
    push_decimal(&mut message, count as u128);
    append_str(&mut message, " playlist(s) synchronisée(s). Les autres contenus de la carte ont été conservés.");
    message
}

/// What the journal records about how a library was obtained: the error
/// that kept it offline, else a note when no session made it offline.
pub open spec fn library_mode_entry_of(offline: bool, last_error: Option<Seq<char>>) -> Option<(bool, Seq<char>)> {
    match last_error {
        Some(e) => Some((true, e)),
        None => if offline {
            Some((false, "aucune session cloud ; cache local actif"@))
        } else {
            None
        },
    }
}

/// What the journal records about `library`: whether it is an error, and
/// the details.
pub fn library_mode_entry(library: &ManagedLibrary) -> (entry: Option<(bool, String)>)
    ensures
        match entry {
            Some((is_error, details)) => library_mode_entry_of(library.offline, crate::storage::text_opt(
                library.last_error,
            )) == Some((is_error, details@)),
            None => library_mode_entry_of(library.offline, crate::storage::text_opt(library.last_error)) is None,
        },
{
    match &library.last_error {
        Some(e) => Some((true, e.clone())),
        None => if library.offline {
            Some((false, owned("aucune session cloud ; cache local actif")))
        } else {
            None
        },
    }
}

/// The text of an error as shown and journaled.
pub fn error_text(error: &EditorError) -> (text: String)
    ensures
        text@ == message_of(*error),
{
    error.message()
}

// ---------------------------------------------------------------------------
// What the library records after a card changes
// ---------------------------------------------------------------------------

/// The library after naming figure `id` of the card at `root` and giving
/// its tracks `labels`; `None` when labels are given to a figure the
/// library does not know, which is refused.
pub open spec fn figure_named_and_labelled(
    db: LibraryView,
    root: Seq<char>,
    id: Seq<char>,
    name: Option<Seq<char>>,
    labels: Seq<Seq<char>>,
) -> Option<LibraryView> {
    let named = LibraryView { figures: figures_named(db.figures, root, id, name), ..db };
    if labels.len() == 0 || figure_known(named.figures, root, id) {
        Some(LibraryView { figures: figures_labelled(named.figures, root, id, labels), ..named })
    } else {
        None
    }
}

/// Records a card just scanned, and gives its figures the names the
/// library remembers.
pub fn refresh_snapshot(database: &mut LibraryDatabase, snapshot: &mut CardSnapshot)
    ensures
        exists|name: Option<Seq<char>>, now: Seq<char>|
            crate::paths::file_name_fits(old(snapshot).root_path@, name) && final(database)@
                == snapshot_recorded(old(database)@, *old(snapshot), card_label(name), now),
        snapshot_decorated(*old(snapshot), *final(snapshot), final(database)@),
{
    database.sync_snapshot(snapshot);
    database.decorate_snapshot(snapshot);
}

/// Records a card after figure `figure_id` was written: the card as
/// scanned, the figure's name (or none), its track labels; then gives the
/// snapshot the names the library remembers. Labels for a figure the scan
/// did not find are refused, after the card and the name were recorded.
pub fn record_written_figure(
    database: &mut LibraryDatabase,
    snapshot: &mut CardSnapshot,
    figure_id: &str,
    name: Option<&str>,
    labels: &[String],
) -> (result: Result<(), EditorError>)
    ensures
        exists|card_name: Option<Seq<char>>, now: Seq<char>|
            #![trigger snapshot_recorded(old(database)@, *old(snapshot), card_label(card_name), now)]
        {
            let recorded = snapshot_recorded(old(database)@, *old(snapshot), card_label(card_name), now);
            let root = old(snapshot).root_path@;
            &&& crate::paths::file_name_fits(root, card_name)
            &&& match figure_named_and_labelled(recorded, root, figure_id@, str_opt(name), labels@.map_values(|l: String| l@)) {
                Some(after) => {
                    &&& result is Ok
                    &&& final(database)@ == after
                    &&& snapshot_decorated(*old(snapshot), *final(snapshot), after)
                },
                None => {
                    &&& result matches Err(EditorError::Storage(_))
                    &&& final(database)@ == (LibraryView {
                        figures: figures_named(recorded.figures, root, figure_id@, str_opt(name)),
                        ..recorded
                    })
                    &&& *final(snapshot) == *old(snapshot)
                },
            }
        },
{
    let ghost before = database@;
    database.sync_snapshot(snapshot);
    let ghost recorded = database@;
    let root = snapshot.root_path.clone();
    database.set_figure_name(root.as_str(), figure_id, name);
    let labelled = database.set_track_labels(root.as_str(), figure_id, labels);
    match labelled {
        Ok(()) => {
            database.decorate_snapshot(snapshot);
            Ok(())
        },
        Err(e) => Err(e),
    }
}

/// The library after naming and labelling the figures of `playlists`, in
/// order; `None` when one of them is refused.
pub open spec fn playlists_recorded(db: LibraryView, root: Seq<char>, playlists: Seq<ManagedPlaylistView>) -> Option<
    LibraryView,
>
    decreases playlists.len(),
{
    if playlists.len() == 0 {
        Some(db)
    } else {
        match playlists_recorded(db, root, playlists.drop_last(), ) {
            Some(d) => {
                let p = playlists.last();
                figure_named_and_labelled(
                    d,
                    root,
                    p.figure_id,
                    Some(p.name),
                    p.tracks.map_values(|t: crate::managed::ManagedTrackView| t.label),
                )
            },
            None => None,
        }
    }
}

proof fn lemma_refused_prefix(db: LibraryView, root: Seq<char>, playlists: Seq<ManagedPlaylistView>, j: int)
    requires
        0 <= j <= playlists.len(),
        playlists_recorded(db, root, playlists.take(j)) is None,
    ensures
        playlists_recorded(db, root, playlists) is None,
    decreases playlists.len() - j,
{
    if j < playlists.len() {
        assert(playlists.take(j + 1).drop_last() =~= playlists.take(j));
        lemma_refused_prefix(db, root, playlists, j + 1);
    } else {
        assert(playlists.take(j) =~= playlists);
    }
}

/// Records a card after the library was written to it: the card as
/// scanned, then each playlist's name and track labels on its figure; then
/// gives the snapshot the names the library remembers. Stops at the first
/// playlist whose figure the scan did not find.
pub fn record_library_sync(
    database: &mut LibraryDatabase,
    snapshot: &mut CardSnapshot,
    playlists: &Vec<(ManagedPlaylist, Vec<String>)>,
) -> (result: Result<(), EditorError>)
    ensures
        exists|card_name: Option<Seq<char>>, now: Seq<char>|
            #![trigger snapshot_recorded(old(database)@, *old(snapshot), card_label(card_name), now)]
        {
            let recorded = snapshot_recorded(old(database)@, *old(snapshot), card_label(card_name), now);
            &&& crate::paths::file_name_fits(old(snapshot).root_path@, card_name)
            &&& match playlists_recorded(
                recorded,
                old(snapshot).root_path@,
                playlists@.map_values(|e: (ManagedPlaylist, Vec<String>)| e.0@),
            ) {
                Some(after) => {
                    &&& result is Ok
                    &&& final(database)@ == after
                    &&& snapshot_decorated(*old(snapshot), *final(snapshot), after)
                },
                None => result matches Err(EditorError::Storage(_)),
            }
        },
{
    database.sync_snapshot(snapshot);
    let ghost recorded = database@;
    let root = snapshot.root_path.clone();
    let ghost views = playlists@.map_values(|e: (ManagedPlaylist, Vec<String>)| e.0@);
    let mut i: usize = 0;
    while i < playlists.len()
        invariant
            0 <= i <= playlists.len(),
            root@ == snapshot.root_path@,
            *snapshot == *old(snapshot),
            exists|n: Option<Seq<char>>, t: Seq<char>|
                #![trigger snapshot_recorded(old(database)@, *old(snapshot), card_label(n), t)]
                crate::paths::file_name_fits(old(snapshot).root_path@, n) && recorded == snapshot_recorded(
                    old(database)@,
                    *old(snapshot),
                    card_label(n),
                    t,
                ),
            views == playlists@.map_values(|e: (ManagedPlaylist, Vec<String>)| e.0@),
            playlists_recorded(recorded, root@, views.take(i as int)) == Some(database@),
        decreases playlists.len() - i,
    {
        let p = &playlists[i].0;
        assert(views[i as int] == p@);
        assert(views.take(i + 1).drop_last() =~= views.take(i as int));
        assert(views.take(i + 1).last() == p@);
        let mut labels: Vec<String> = Vec::new();
        let mut k: usize = 0;
        while k < p.tracks.len()
            invariant
                0 <= k <= p.tracks.len(),
                labels@.map_values(|l: String| l@) == p@.tracks.take(k as int).map_values(
                    |t: crate::managed::ManagedTrackView| t.label,
                ),
            decreases p.tracks.len() - k,
        {
            assert(p@.tracks[k as int] == p.tracks@[k as int]@);
            let ghost prev = labels@;
            labels.push(p.tracks[k].label.clone());
            assert(labels@.map_values(|l: String| l@) =~= prev.map_values(|l: String| l@).push(p@.tracks[k as int].label));
            assert(p@.tracks.take(k + 1).map_values(|t: crate::managed::ManagedTrackView| t.label) =~= p@.tracks.take(
                k as int,
            ).map_values(|t: crate::managed::ManagedTrackView| t.label).push(p@.tracks[k as int].label));
            k += 1;
        }
        assert(p@.tracks.take(p@.tracks.len() as int) =~= p@.tracks);
        let ghost db_i = database@;
        database.set_figure_name(root.as_str(), p.figure_id.as_str(), Some(p.name.as_str()));
        let labelled = database.set_track_labels(root.as_str(), p.figure_id.as_str(), labels.as_slice());
        if labelled.is_err() {
            proof {
                let track_labels = p@.tracks.map_values(|t: crate::managed::ManagedTrackView| t.label);
                assert(labels@.map_values(|l: String| l@) == track_labels);
                assert(figure_named_and_labelled(db_i, root@, p@.figure_id, Some(p@.name), track_labels) is None);
                assert(playlists_recorded(recorded, root@, views.take(i + 1)) is None);
                lemma_refused_prefix(recorded, root@, views, i + 1);
            }
            return labelled;
        }
        i += 1;
    }
    assert(views.take(views.len() as int) =~= views);
    database.decorate_snapshot(snapshot);
    Ok(())
}

} // verus!
