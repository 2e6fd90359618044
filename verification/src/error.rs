//! Errors of the desktop editor, each with the message shown to the user.
use vstd::prelude::*;
use crate::text::{append_str, decimal, owned, push_decimal};

verus! {

/// Why an editor operation was refused.
pub enum EditorError {
    /// A card identifier is not four digits between `0001` and `9999`.
    InvalidFigureId,
    /// A card identifier lies in a range FABA+ keeps for itself.
    ReservedFigureId,
    /// An identifier is not a custom one (`2000`–`8999`).
    NotCustomFigureId,
    /// The cloud was given an identifier that is not custom.
    NotCloudFigureId,
    /// A figure takes 1 to 99 MP3 files.
    FigureTrackCount,
    /// A chosen audio file does not exist; the path follows.
    AudioMissing(String),
    /// A chosen audio file is not an MP3 file; the path follows.
    NotMp3(String),
    /// A chosen audio file is over 200 MB; the path follows.
    AudioTooLarge(String),
    /// A batch takes 1 to `n` files.
    AudioCount(u64),
    /// The card is gone.
    CardUnavailable,
    /// The figure is no longer on the card.
    FigureGone,
    /// The figure is not on the card.
    FigureNotFound,
    /// The export folder does not exist.
    ExportFolderMissing,
    /// The card uses the legacy format, which is read-only.
    LegacyReadOnly,
    /// The card format is not recognized.
    UnknownFormat,
    /// The card is read-only.
    ReadOnly,
    /// Only FABA+ cards allow deleting a figure.
    DeleteNeedsPlus,
    /// The playlist is not in the local library.
    PlaylistNotFound,
    /// Some audio files of the playlist are not on this computer.
    AudioUnavailable,
    /// The local library is empty.
    LibraryEmpty,
    /// A playlist (identifier, name) lacks audio files in the local cache.
    PlaylistIncomplete(String, String),
    /// Every custom identifier is taken.
    NoFreeFigureId,
    /// A playlist holds at most 99 tracks.
    PlaylistTooLong,
    /// A grouped import needs a playlist name.
    PlaylistNameMissing,
    /// The import mode is unknown.
    UnknownImportMode,
    /// A playlist name cannot be empty.
    EmptyPlaylistName,
    /// No cloud account is connected.
    NoCloudAccount,
    /// The account already has a local cache; nothing was merged.
    AccountCacheExists,
    /// Track (position, identifier) is missing from the local cache.
    CachedTrackMissing(u16, String),
    /// The cloud did not give the digest of an audio file.
    DigestMissing,
    /// A downloaded audio file does not match its digest.
    IntegrityCheckFailed,
    /// The playlist is no longer in the cloud.
    RemotePlaylistGone,
    /// The cloud playlist does not have all its audio files yet.
    RemotePlaylistIncomplete,
    /// Nobody is signed in to the cloud.
    NotSignedIn,
    /// The cloud session expired.
    SessionExpired,
    /// The cloud answered with this message.
    Remote(String),
    /// The local database refused a change; the reason follows.
    Storage(String),
}

/// The text of a message, by variant.
pub open spec fn message_of(error: EditorError) -> Seq<char> {
    match error {
        EditorError::InvalidFigureId => "L'identifiant doit contenir 4 chiffres entre 0001 et 9999."@,
        EditorError::ReservedFigureId => "Les identifiants 0xxx, 1xxx et 9xxx sont réservés par FABA+. Choisissez un identifiant entre 2000 et 8999."@,
        EditorError::NotCustomFigureId => "Utilisez un identifiant personnalisé entre 2000 et 8999."@,
        EditorError::NotCloudFigureId => "L'identifiant cloud n'est pas un identifiant FABA+ personnalisé valide."@,
        EditorError::FigureTrackCount => "Choisissez entre 1 et 99 fichiers MP3."@,
        EditorError::AudioMissing(p) => "Fichier audio introuvable : "@ + p@,
        EditorError::NotMp3(p) => "Seuls les fichiers MP3 sont acceptés : "@ + p@,
        EditorError::AudioTooLarge(p) => "Une piste ne peut pas dépasser 200 Mo : "@ + p@,
        EditorError::AudioCount(n) => "Sélectionnez entre 1 et "@ + decimal(n as nat) + " fichiers MP3."@,
        EditorError::CardUnavailable => "Le support FABA+ n'est plus accessible."@,
        EditorError::FigureGone => "La figurine n'existe plus sur la carte."@,
        EditorError::FigureNotFound => "Figurine introuvable sur la carte."@,
        EditorError::ExportFolderMissing => "Le dossier d'export n'existe pas."@,
        EditorError::LegacyReadOnly => "Cette carte utilise l'ancien format FABA, disponible en lecture seule."@,
        EditorError::UnknownFormat => "Le format de cette carte n'est pas reconnu."@,
        EditorError::ReadOnly => "La carte est en lecture seule."@,
        EditorError::DeleteNeedsPlus => "La suppression est réservée aux cartes FABA+."@,
        EditorError::PlaylistNotFound => "Cette playlist n'existe pas dans la bibliothèque locale."@,
        EditorError::AudioUnavailable => "Les fichiers audio de cette playlist ne sont pas tous disponibles sur ce PC."@,
        EditorError::LibraryEmpty => "La bibliothèque locale est vide."@,
        EditorError::PlaylistIncomplete(id, name) => "K"@ + id@ + " — "@ + name@ + " n'a pas tous ses fichiers audio dans le cache local."@,
        EditorError::NoFreeFigureId => "Aucun identifiant personnalisé libre entre 2000 et 8999."@,
        EditorError::PlaylistTooLong => "Une playlist est limitée à 99 pistes."@,
        EditorError::PlaylistNameMissing => "Donnez un nom à la playlist qui regroupe les sons."@,
        EditorError::UnknownImportMode => "Mode d'import en lot inconnu."@,
        EditorError::EmptyPlaylistName => "Le nom de la playlist ne peut pas être vide."@,
        EditorError::NoCloudAccount => "Aucun compte cloud n'est connecté."@,
        EditorError::AccountCacheExists => "Le cache du compte existe déjà ; la bibliothèque locale n'a pas été fusionnée."@,
        EditorError::CachedTrackMissing(position, id) => "La piste "@ + decimal(position as nat + 1) + " de K"@ + id@ + " manque dans le cache local."@,
        EditorError::DigestMissing => "FABA Cloud n'a pas fourni l'empreinte audio."@,
        EditorError::IntegrityCheckFailed => "La vérification d'intégrité d'une piste cloud a échoué."@,
        EditorError::RemotePlaylistGone => "Cette playlist n'existe plus dans FABA Cloud."@,
        EditorError::RemotePlaylistIncomplete => "Cette playlist cloud n'a pas encore tous ses fichiers audio."@,
        EditorError::NotSignedIn => "Connectez-vous d'abord à FABA Cloud."@,
        EditorError::SessionExpired => "Session expirée. Reconnectez-vous à FABA Cloud."@,
        EditorError::Remote(m) => m@,
        EditorError::Storage(m) => m@,
    }
}

fn two_parts(a: &str, b: &str) -> (s: String)
    ensures
        s@ == a@ + b@,
{
    let mut s = owned(a);
    append_str(&mut s, b);
    s
}

impl EditorError {
    /// The message shown to the user.
    pub fn message(&self) -> (text: String)
        ensures
            text@ == message_of(*self),
    {
        match self {
            EditorError::InvalidFigureId => owned("L'identifiant doit contenir 4 chiffres entre 0001 et 9999."),
            EditorError::ReservedFigureId => owned("Les identifiants 0xxx, 1xxx et 9xxx sont réservés par FABA+. Choisissez un identifiant entre 2000 et 8999."),
            EditorError::NotCustomFigureId => owned("Utilisez un identifiant personnalisé entre 2000 et 8999."),
            EditorError::NotCloudFigureId => owned("L'identifiant cloud n'est pas un identifiant FABA+ personnalisé valide."),
            EditorError::FigureTrackCount => owned("Choisissez entre 1 et 99 fichiers MP3."),
            EditorError::AudioMissing(p) => two_parts("Fichier audio introuvable : ", p.as_str()),
            EditorError::NotMp3(p) => two_parts("Seuls les fichiers MP3 sont acceptés : ", p.as_str()),
            EditorError::AudioTooLarge(p) => two_parts("Une piste ne peut pas dépasser 200 Mo : ", p.as_str()),
            EditorError::AudioCount(n) => {
                let mut s = owned("Sélectionnez entre 1 et ");
                push_decimal(&mut s, *n as u128);
                append_str(&mut s, " fichiers MP3.");
                s
            },
            EditorError::CardUnavailable => owned("Le support FABA+ n'est plus accessible."),
            EditorError::FigureGone => owned("La figurine n'existe plus sur la carte."),
            EditorError::FigureNotFound => owned("Figurine introuvable sur la carte."),
            EditorError::ExportFolderMissing => owned("Le dossier d'export n'existe pas."),
            EditorError::LegacyReadOnly => owned("Cette carte utilise l'ancien format FABA, disponible en lecture seule."),
            EditorError::UnknownFormat => owned("Le format de cette carte n'est pas reconnu."),
            EditorError::ReadOnly => owned("La carte est en lecture seule."),
            EditorError::DeleteNeedsPlus => owned("La suppression est réservée aux cartes FABA+."),
            EditorError::PlaylistNotFound => owned("Cette playlist n'existe pas dans la bibliothèque locale."),
            EditorError::AudioUnavailable => owned("Les fichiers audio de cette playlist ne sont pas tous disponibles sur ce PC."),
            EditorError::LibraryEmpty => owned("La bibliothèque locale est vide."),
            EditorError::PlaylistIncomplete(id, name) => {
                let mut s = owned("K");
                append_str(&mut s, id.as_str());
                append_str(&mut s, " — ");
                append_str(&mut s, name.as_str());
                append_str(&mut s, " n'a pas tous ses fichiers audio dans le cache local.");
                s
            },
            EditorError::NoFreeFigureId => owned("Aucun identifiant personnalisé libre entre 2000 et 8999."),
            EditorError::PlaylistTooLong => owned("Une playlist est limitée à 99 pistes."),
            EditorError::PlaylistNameMissing => owned("Donnez un nom à la playlist qui regroupe les sons."),
            EditorError::UnknownImportMode => owned("Mode d'import en lot inconnu."),
            EditorError::EmptyPlaylistName => owned("Le nom de la playlist ne peut pas être vide."),
            EditorError::NoCloudAccount => owned("Aucun compte cloud n'est connecté."),
            EditorError::AccountCacheExists => owned("Le cache du compte existe déjà ; la bibliothèque locale n'a pas été fusionnée."),
            EditorError::CachedTrackMissing(position, id) => {
                let mut s = owned("La piste ");
                push_decimal(&mut s, *position as u128 + 1);
                append_str(&mut s, " de K");
                append_str(&mut s, id.as_str());
                append_str(&mut s, " manque dans le cache local.");
                s
            },
            EditorError::DigestMissing => owned("FABA Cloud n'a pas fourni l'empreinte audio."),
            EditorError::IntegrityCheckFailed => owned("La vérification d'intégrité d'une piste cloud a échoué."),
            EditorError::RemotePlaylistGone => owned("Cette playlist n'existe plus dans FABA Cloud."),
            EditorError::RemotePlaylistIncomplete => owned("Cette playlist cloud n'a pas encore tous ses fichiers audio."),
            EditorError::NotSignedIn => owned("Connectez-vous d'abord à FABA Cloud."),
            EditorError::SessionExpired => owned("Session expirée. Reconnectez-vous à FABA Cloud."),
            EditorError::Remote(m) => owned(m.as_str()),
            EditorError::Storage(m) => owned(m.as_str()),
        }
    }
}

} // verus!
