//! Audio files of the service: what an upload must look like, the quotas it
//! must fit, and the names files are kept and served under.
use vstd::prelude::*;
use crate::digest::{new_uuid_text, sha256_hex, sha256_hex_of};
use crate::ids::is_custom_id;
use crate::server::library::{custom_id_message, validate_figure_id};
use crate::server::ApiError;
use crate::text::{
    append_str, chars_of, decimal, ends_with, owned, parse_unsigned, parse_unsigned_chars,
    push_decimal, push_two_digits, two_digits,
};

verus! {

/// The answer to an audio upload.
pub struct AudioUploadResponse {
    pub figure_id: String,
    pub position: u16,
    pub audio_size_bytes: u64,
    pub audio_sha256: String,
}

/// The highest track position an upload may target.
pub const MAX_POSITION: u16 = 98;

/// Bytes `i` and `i + 1` hold an MPEG frame sync: `0xFF` then three set bits.
pub open spec fn frame_sync_at(bytes: Seq<u8>, i: int) -> bool {
    bytes[i] == 0xff && bytes[i + 1] & 0xe0 == 0xe0
}

/// What passes for MP3: an `ID3` tag at the start, or a frame sync among the
/// first 65 536 byte pairs.
pub open spec fn looks_like_mp3_bytes(bytes: Seq<u8>) -> bool {
    ||| (bytes.len() >= 3 && bytes[0] == 0x49 && bytes[1] == 0x44 && bytes[2] == 0x33)
    ||| exists|i: int| 0 <= i < 65536 && i + 1 < bytes.len() && #[trigger] frame_sync_at(bytes, i)
}

/// Whether storing `new_size` bytes in place of `previous` keeps `used`
/// within `limit` (saturating arithmetic, as the quota check computes it).
pub open spec fn exceeds(used: u64, previous: u64, new_size: u64, limit: u64) -> bool {
    let freed = if used >= previous {
        used - previous
    } else {
        0
    };
    let total = if freed + new_size > u64::MAX {
        u64::MAX as int
    } else {
        freed + new_size
    };
    total > limit
}

/// The name an audio file is kept under: the position on two digits, `.mp3`.
pub open spec fn audio_name(position: nat) -> Seq<char> {
    two_digits(position) + ".mp3"@
}

/// Whether a stored audio file lies beyond a playlist of `track_count`
/// tracks: its name is `<n>.mp3` with `n >= track_count`.
pub open spec fn prunable(name: Seq<char>, track_count: nat) -> bool {
    ends_with(name, ".mp3"@) && match parse_unsigned(
        name.take(name.len() - 4),
        usize::MAX as nat,
    ) {
        Some(n) => n >= track_count,
        None => false,
    }
}

/// Whether a body looks like MP3.
pub fn looks_like_mp3(bytes: &[u8]) -> (result: bool)
    ensures
        result == looks_like_mp3_bytes(bytes@),
{
    let n = bytes.len();
    if n >= 3 && bytes[0] == 0x49 && bytes[1] == 0x44 && bytes[2] == 0x33 {
        return true;
    }
    let mut i: usize = 0;
    while i < 65536 && i + 1 < n
        invariant
            n == bytes@.len(),
            0 <= i <= 65536,
            forall|k: int| 0 <= k < i && k + 1 < n ==> !frame_sync_at(bytes@, k),
        decreases 65536 - i,
    {
        if bytes[i] == 0xff && bytes[i + 1] & 0xe0 == 0xe0 {
            assert(frame_sync_at(bytes@, i as int));
            return true;
        }
        i += 1;
    }
    false
}

/// Checks the target of an upload: a custom identifier and a position of at
/// most 98.
pub fn validate_upload_target(figure_id: &str, position: u16) -> (result: Result<(), ApiError>)
    ensures
        result is Ok <==> is_custom_id(figure_id@) && position <= 98,
        !is_custom_id(figure_id@) ==> (result matches Err(ApiError::Validation(m)) && m@
            == custom_id_message()),
        is_custom_id(figure_id@) && position > 98 ==> (result matches Err(ApiError::Validation(m))
            && m@ == "La position de piste doit être comprise entre 0 et 98."@),
{
    validate_figure_id(figure_id)?;
    if position > MAX_POSITION {
        return Err(
            ApiError::Validation(owned("La position de piste doit être comprise entre 0 et 98.")),
        );
    }
    Ok(())
}

/// Checks an upload body: not empty, and looking like MP3.
pub fn validate_upload_body(bytes: &[u8]) -> (result: Result<(), ApiError>)
    ensures
        result is Ok <==> bytes@.len() > 0 && looks_like_mp3_bytes(bytes@),
        result is Err ==> (result matches Err(ApiError::Validation(m)) && m@
            == "Le fichier doit être un MP3 valide et non vide."@),
{
    if bytes.len() == 0 || !looks_like_mp3(bytes) {
        return Err(ApiError::Validation(owned("Le fichier doit être un MP3 valide et non vide.")));
    }
    Ok(())
}

/// The error of a body over the track limit, the limit in MiB.
pub fn track_too_large(max_track_bytes: u64) -> (error: ApiError)
    ensures
        error matches ApiError::PayloadTooLarge(m) && m@ == "Une piste ne peut pas dépasser "@
            + decimal((max_track_bytes / 1024 / 1024) as nat) + " Mo."@,
{
    let mut m = owned("Une piste ne peut pas dépasser ");
    push_decimal(&mut m, (max_track_bytes / 1024 / 1024) as u128);
    append_str(&mut m, " Mo.");
    ApiError::PayloadTooLarge(m)
}

/// `used - previous + new_size > limit`, with saturating arithmetic.
pub fn exceeds_quota(used: u64, previous: u64, new_size: u64, limit: u64) -> (result: bool)
    ensures
        result == exceeds(used, previous, new_size, limit),
{
    let freed = if used >= previous {
        used - previous
    } else {
        0
    };
    let total = if freed > u64::MAX - new_size {
        u64::MAX
    } else {
        freed + new_size
    };
    total > limit
}

/// Checks an upload against the account quota; the error gives the quota in GiB.
pub fn check_account_quota(used: u64, previous: u64, new_size: u64, max_account_bytes: u64) -> (result: Result<(), ApiError>)
    ensures
        result is Ok <==> !exceeds(used, previous, new_size, max_account_bytes),
        result is Err ==> (result matches Err(ApiError::PayloadTooLarge(m)) && m@
            == "Le quota cloud de "@ + decimal((max_account_bytes / 1024 / 1024 / 1024) as nat)
            + " Go est atteint."@),
{
    if exceeds_quota(used, previous, new_size, max_account_bytes) {
        let mut m = owned("Le quota cloud de ");
        push_decimal(&mut m, (max_account_bytes / 1024 / 1024 / 1024) as u128);
        append_str(&mut m, " Go est atteint.");
        return Err(ApiError::PayloadTooLarge(m));
    }
    Ok(())
}

/// Checks an upload against the service-wide storage limit.
pub fn check_total_quota(total_used: u64, previous: u64, new_size: u64, max_total_bytes: u64) -> (result: Result<(), ApiError>)
    ensures
        result is Ok <==> !exceeds(total_used, previous, new_size, max_total_bytes),
        result is Err ==> (result matches Err(ApiError::PayloadTooLarge(m)) && m@
            == "Le stockage FABA Cloud est actuellement complet."@),
{
    if exceeds_quota(total_used, previous, new_size, max_total_bytes) {
        return Err(ApiError::PayloadTooLarge(owned("Le stockage FABA Cloud est actuellement complet.")));
    }
    Ok(())
}

/// The name an audio file is kept under (`{position:02}.mp3`).
pub fn audio_file_name(position: u16) -> (name: String)
    ensures
        name@ == audio_name(position as nat),
{
    let mut s = String::new();
    push_two_digits(&mut s, position as u128);
    append_str(&mut s, ".mp3");
    assert(s@ =~= audio_name(position as nat));
    s
}

/// The file name a download is offered under: `K<id>-CP<position + 1>.mp3`,
/// the number on two digits.
pub fn download_file_name(figure_id: &str, position: u16) -> (name: String)
    ensures
        name@ == seq!['K'] + figure_id@ + "-CP"@ + two_digits(position as nat + 1) + ".mp3"@,
{
    let mut s = owned("K");
    append_str(&mut s, figure_id);
    append_str(&mut s, "-CP");
    push_two_digits(&mut s, position as u128 + 1);
    append_str(&mut s, ".mp3");
    proof {
        reveal_strlit("K");
    }
    assert(s@ =~= seq!['K'] + figure_id@ + "-CP"@ + two_digits(position as nat + 1) + ".mp3"@);
    s
}

/// The temporary name an upload is written under before it replaces the
/// stored file: `.upload-<uuid>.tmp`.
pub fn upload_temp_name() -> (name: String)
    ensures
        exists|id: Seq<char>| name@ == ".upload-"@ + id + ".tmp"@,
{
    let id = new_uuid_text();
    let mut s = owned(".upload-");
    append_str(&mut s, id.as_str());
    append_str(&mut s, ".tmp");
    assert(s@ == ".upload-"@ + id@ + ".tmp"@);
    s
}

/// Whether a stored audio file lies beyond a playlist of `track_count` tracks.
pub fn should_prune(file_name: &str, track_count: usize) -> (result: bool)
    ensures
        result == prunable(file_name@, track_count as nat),
{
    let v = chars_of(file_name);
    proof {
        reveal_strlit(".mp3");
    }
    if !crate::text::text_ends_with(file_name, ".mp3") {
        return false;
    }
    let stem = crate::text::string_of(&v, 0, v.len() - 4);
    let sv = chars_of(stem.as_str());
    assert(sv@ =~= file_name@.take(file_name@.len() - 4));
    assert(sv@.skip(0) =~= sv@);
    match parse_unsigned_chars(&sv, 0, usize::MAX as u64) {
        Some(n) => n as usize >= track_count,
        None => false,
    }
}

/// The answer to a stored upload, with the SHA-256 of the body in hex.
pub fn upload_response(figure_id: &str, position: u16, body: &[u8]) -> (response: AudioUploadResponse)
    ensures
        response.figure_id@ == figure_id@,
        response.position == position,
        response.audio_size_bytes == body@.len(),
        response.audio_sha256@ == sha256_hex(body@),
{
    AudioUploadResponse {
        figure_id: owned(figure_id),
        position,
        audio_size_bytes: body.len() as u64,
        audio_sha256: sha256_hex_of(body),
    }
}

// ---------------------------------------------------------------------------
// Laws
// ---------------------------------------------------------------------------

/// An upload is accepted exactly when the account, with the new file in
/// place of the one it replaces, stays within its quota. (With the largest
/// possible limit, a sum beyond 64 bits saturates to the limit and passes.)
pub proof fn law_quota_holds_after_an_accepted_upload(used: u64, previous: u64, new_size: u64, limit: u64)
    requires
        previous <= used,
        !(used - previous + new_size > u64::MAX && limit == u64::MAX),
    ensures
        !exceeds(used, previous, new_size, limit) <==> used - previous + new_size <= limit,
{
}

proof fn lemma_digit_round_trip(d: nat)
    requires
        d < 10,
    ensures
        crate::text::digit_value(crate::text::digit_char(d)) == d,
        crate::text::is_ascii_digit(crate::text::digit_char(d)),
{
}

/// After a playlist is saved with `track_count` tracks, the audio files it
/// keeps are exactly those of its positions: the file of position `p` is
/// removed exactly when `p` is not below the track count.
pub proof fn law_prune_keeps_the_playlist_files(position: nat, track_count: nat)
    requires
        position < 100,
    ensures
        prunable(audio_name(position), track_count) <==> position >= track_count,
{
    reveal_strlit(".mp3");
    lemma_digit_round_trip(position / 10);
    lemma_digit_round_trip(position % 10);
    let d = two_digits(position);
    reveal_with_fuel(decimal, 3);
    assert(d =~= seq![crate::text::digit_char(position / 10), crate::text::digit_char(position % 10)]);
    let name = audio_name(position);
    assert(name.take(name.len() - 4) =~= d);
    assert(name.skip(name.len() - 4) =~= ".mp3"@);
    assert(ends_with(name, ".mp3"@));
    assert(crate::text::unsigned_digits(d) == d);
    assert(crate::text::all_digits(d));
    reveal_with_fuel(crate::text::digits_value, 3);
    assert(d.drop_last() =~= seq![d[0]]);
    assert(seq![d[0]].drop_last() =~= Seq::<char>::empty());
    assert(crate::text::digits_value(d) == position);
    assert(parse_unsigned(d, usize::MAX as nat) == Some(position));
}

} // verus!
