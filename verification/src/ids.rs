//! FABA+ figure identifiers, the names derived from them, and the file-name
//! rules (`Path::file_stem`, `Path::extension`) that a card scan relies on.
use vstd::prelude::*;
use crate::text::{
    all_digits, append_str, chars_of, has_prefix_at, is_ascii_digit, owned, parse_unsigned,
    parse_unsigned_chars, push_char, same_text, starts_with, string_from, string_of,
};

verus! {

/// A card identifier: four ASCII digits, `0000` excluded (`0001`–`9999`).
pub open spec fn is_card_id(s: Seq<char>) -> bool {
    s.len() == 4 && all_digits(s) && s != seq!['0', '0', '0', '0']
}

/// A custom identifier: four ASCII digits starting with `2` to `8`
/// (`2000`–`8999`); the ranges `0xxx`, `1xxx` and `9xxx` belong to FABA+.
pub open spec fn is_custom_id(s: Seq<char>) -> bool {
    s.len() == 4 && all_digits(s) && '2' <= s[0] && s[0] <= '8'
}

/// The NFC payload of a figure: `02190530` + identifier + `00`.
pub open spec fn nfc_payload_of(id: Seq<char>) -> Seq<char> {
    "02190530"@ + id + "00"@
}

/// The folder of a figure on the card: `K` + identifier.
pub open spec fn folder_name_of(id: Seq<char>) -> Seq<char> {
    seq!['K'] + id
}

/// `Kxxxx` with four ASCII digits: the identifier it names.
pub open spec fn figure_folder_id(name: Seq<char>) -> Option<Seq<char>> {
    if name.len() == 5 && name[0] == 'K' && all_digits(name.skip(1)) {
        Some(name.skip(1))
    } else {
        None
    }
}

/// Index of the last `.` in `s`, or -1.
pub open spec fn last_dot(s: Seq<char>) -> int
    decreases s.len(),
{
    if s.len() == 0 {
        -1
    } else if s.last() == '.' {
        s.len() - 1
    } else {
        last_dot(s.drop_last())
    }
}

/// `Path::file_stem` of a file name.
pub open spec fn file_stem_of(name: Seq<char>) -> Seq<char> {
    if name == ".."@ || last_dot(name) <= 0 {
        name
    } else {
        name.take(last_dot(name))
    }
}

/// `Path::extension` of a file name.
pub open spec fn extension_of(name: Seq<char>) -> Option<Seq<char>> {
    if name == ".."@ || last_dot(name) <= 0 {
        None
    } else {
        Some(name.skip(last_dot(name) + 1))
    }
}

/// The digits that name a track in a file stem: after `CP` or `cp`, or the
/// whole stem when it is made of ASCII digits.
pub open spec fn track_digits(stem: Seq<char>) -> Option<Seq<char>> {
    if starts_with(stem, "CP"@) || starts_with(stem, "cp"@) {
        Some(stem.skip(2))
    } else if all_digits(stem) {
        Some(stem)
    } else {
        None
    }
}

/// The track index a file name gives (`00.faba`, `CP01.MKI`, ...).
pub open spec fn track_index_of(name: Seq<char>) -> Option<u16> {
    match track_digits(file_stem_of(name)) {
        Some(d) => if d.len() > 0 {
            match parse_unsigned(d, 65535) {
                Some(n) => Some(n as u16),
                None => None,
            }
        } else {
            None
        },
        None => None,
    }
}

proof fn lemma_last_dot_step(s: Seq<char>, i: int)
    requires
        0 < i <= s.len(),
        s[i - 1] != '.',
    ensures
        last_dot(s.take(i)) == last_dot(s.take(i - 1)),
{
    assert(s.take(i).drop_last() =~= s.take(i - 1));
}

proof fn lemma_last_dot_range(s: Seq<char>)
    ensures
        -1 <= last_dot(s) < s.len(),
        last_dot(s) >= 0 ==> s[last_dot(s)] == '.',
        forall|k: int| last_dot(s) < k < s.len() ==> s[k] != '.',
    decreases s.len(),
{
    if s.len() > 0 && s.last() != '.' {
        lemma_last_dot_range(s.drop_last());
        assert forall|k: int| last_dot(s) < k < s.len() implies s[k] != '.' by {
            if k < s.len() - 1 {
                assert(s.drop_last()[k] == s[k]);
            }
        }
    }
}

/// Index of the last `.` of `v`.
pub fn find_last_dot(v: &Vec<char>) -> (result: Option<usize>)
    ensures
        match result {
            Some(k) => last_dot(v@) == k,
            None => last_dot(v@) == -1,
        },
{
    let mut i = v.len();
    assert(v@.take(v@.len() as int) =~= v@);
    while i > 0 && v[i - 1] != '.'
        invariant
            0 <= i <= v.len(),
            last_dot(v@) == last_dot(v@.take(i as int)),
        decreases i,
    {
        proof {
            lemma_last_dot_step(v@, i as int);
        }
        i -= 1;
    }
    if i == 0 {
        assert(v@.take(0) =~= Seq::<char>::empty());
        None
    } else {
        assert(v@.take(i as int).last() == '.');
        Some(i - 1)
    }
}

/// `Path::file_stem` of a file name.
pub fn file_stem(name: &str) -> (result: String)
    ensures
        result@ == file_stem_of(name@),
{
    let v = chars_of(name);
    let dots = same_text(name, "..");
    match find_last_dot(&v) {
        Some(d) => {
            if dots || d == 0 {
                string_from(&v)
            } else {
                proof {
                    lemma_last_dot_range(v@);
                }
                string_of(&v, 0, d)
            }
        },
        None => string_from(&v),
    }
}

/// `Path::extension` of a file name.
pub fn extension(name: &str) -> (result: Option<String>)
    ensures
        match extension_of(name@) {
            Some(e) => result is Some && result->0@ == e,
            None => result is None,
        },
{
    let v = chars_of(name);
    let dots = same_text(name, "..");
    match find_last_dot(&v) {
        Some(d) => {
            if dots || d == 0 {
                None
            } else {
                proof {
                    lemma_last_dot_range(v@);
                }
                assert(d < v.len());
                let r = string_of(&v, d + 1, v.len());
                assert(v@.subrange(d + 1, v@.len() as int) =~= v@.skip(d + 1));
                Some(r)
            }
        },
        None => None,
    }
}

/// Whether `v[from..]` is made of ASCII digits.
pub fn all_ascii_digits(v: &Vec<char>, from: usize) -> (result: bool)
    requires
        from <= v.len(),
    ensures
        result == all_digits(v@.skip(from as int)),
{
    let mut i = from;
    while i < v.len()
        invariant
            from <= i <= v.len(),
            forall|k: int| from <= k < i ==> is_ascii_digit(v@[k]),
        decreases v.len() - i,
    {
        if !('0' <= v[i] && v[i] <= '9') {
            assert(v@.skip(from as int)[i - from] == v@[i as int]);
            return false;
        }
        i += 1;
    }
    assert forall|k: int| 0 <= k < v@.skip(from as int).len() implies is_ascii_digit(
        #[trigger] v@.skip(from as int)[k],
    ) by {
        assert(v@.skip(from as int)[k] == v@[from + k]);
    }
    true
}

/// Whether a string is a card identifier (four digits, `0000` excluded).
pub fn is_card_figure_id(value: &str) -> (result: bool)
    ensures
        result == is_card_id(value@),
{
    let v = chars_of(value);
    if v.len() != 4 {
        return false;
    }
    let digits = all_ascii_digits(&v, 0);
    assert(v@.skip(0) =~= v@);
    let zeros = v[0] == '0' && v[1] == '0' && v[2] == '0' && v[3] == '0';
    assert(zeros <==> v@ =~= seq!['0', '0', '0', '0']);
    digits && !zeros
}

/// Whether a string is a custom identifier (`2000`–`8999`).
pub fn is_custom_figure_id(value: &str) -> (result: bool)
    ensures
        result == is_custom_id(value@),
{
    let v = chars_of(value);
    if v.len() != 4 {
        return false;
    }
    let digits = all_ascii_digits(&v, 0);
    assert(v@.skip(0) =~= v@);
    digits && '2' <= v[0] && v[0] <= '8'
}

/// The NFC payload of a figure (`02190530` + identifier + `00`).
pub fn nfc_payload(figure_id: &str) -> (result: String)
    ensures
        result@ == nfc_payload_of(figure_id@),
{
    let mut s = owned("02190530");
    append_str(&mut s, figure_id);
    append_str(&mut s, "00");
    s
}

/// The card folder of a figure (`K` + identifier).
pub fn folder_name(figure_id: &str) -> (result: String)
    ensures
        result@ == folder_name_of(figure_id@),
{
    let mut s = String::new();
    push_char(&mut s, 'K');
    append_str(&mut s, figure_id);
    assert(s@ =~= folder_name_of(figure_id@));
    s
}

/// The identifier a `Kxxxx` folder name stands for.
pub fn parse_figure_folder(value: &str) -> (result: Option<String>)
    ensures
        match figure_folder_id(value@) {
            Some(id) => result is Some && result->0@ == id,
            None => result is None,
        },
{
    let v = chars_of(value);
    if v.len() == 5 && v[0] == 'K' && all_ascii_digits(&v, 1) {
        let id = string_of(&v, 1, 5);
        assert(v@.subrange(1, 5) =~= v@.skip(1));
        Some(id)
    } else {
        None
    }
}

/// The track index a file name gives: the stem is `CPnn`, `cpnn` or `nn`,
/// and `nn` reads as a `u16`.
pub fn parse_track_index(value: &str) -> (result: Option<u16>)
    ensures
        result == track_index_of(value@),
{
    let stem = file_stem(value);
    let v = chars_of(stem.as_str());
    let upper = has_prefix_at(&v, 0, "CP");
    let lower = has_prefix_at(&v, 0, "cp");
    proof {
        reveal_strlit("CP");
        reveal_strlit("cp");
    }
    assert(v@.skip(0) =~= v@);
    let from: usize = if upper || lower {
        2
    } else if all_ascii_digits(&v, 0) {
        0
    } else {
        return None;
    };
    if from == v.len() {
        assert(v@.skip(from as int).len() == 0);
        return None;
    }
    match parse_unsigned_chars(&v, from, 65535) {
        Some(n) => Some(n as u16),
        None => None,
    }
}

} // verus!
