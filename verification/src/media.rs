//! The sidebar's media card: reading `playerctl`'s metadata line and
//! deciding what the card shows.

use vstd::prelude::*;
use crate::text::{
    chars_of, contains, decode_utf8_lossy, equals_str, find_chars, find_from, lemma_find_from,
    lemma_find_from_first, matches_at, trim, trim_str,
    utf8_lossy,
};

verus! {

/// The state of the active player, as `playerctl` reports it.
pub struct MediaSnapshot {
    pub status: String,
    pub title: String,
    pub artist: String,
}

/// The separator between the fields of the metadata line.
pub const FIELD_SEPARATOR: &'static str = ";;";

/// The first three `;;`-separated fields of the trimmed metadata line, or
/// `None` when it has fewer than three fields.
pub open spec fn media_fields(raw: Seq<char>) -> Option<(Seq<char>, Seq<char>, Seq<char>)> {
    let t = trim(raw);
    let sep = FIELD_SEPARATOR@;
    match find_from(t, sep, 0) {
        None => None,
        Some(a) => match find_from(t, sep, a + sep.len()) {
            None => None,
            Some(b) => {
                let end = match find_from(t, sep, b + sep.len()) {
                    Some(c) => c,
                    None => t.len() as int,
                };
                Some(
                    (
                        t.subrange(0, a),
                        t.subrange(a + sep.len(), b),
                        t.subrange(b + sep.len(), end),
                    ),
                )
            },
        },
    }
}

/// A trimmed line `status;;title;;artist` whose fields hold no `;` splits
/// into exactly those three fields, in that order.
pub proof fn lemma_media_fields_of_parts(
    raw: Seq<char>,
    status: Seq<char>,
    title: Seq<char>,
    artist: Seq<char>,
)
    requires
        trim(raw) == status + ";;"@ + title + ";;"@ + artist,
        forall|i: int| 0 <= i < status.len() ==> status[i] != ';',
        forall|i: int| 0 <= i < title.len() ==> title[i] != ';',
        forall|i: int| 0 <= i < artist.len() ==> artist[i] != ';',
    ensures
        media_fields(raw) == Some((status, title, artist)),
{
    reveal_strlit(";;");
    let sep = FIELD_SEPARATOR@;
    assert(sep == ";;"@);
    assert(sep.len() == 2 && sep[0] == ';' && sep[1] == ';');
    let t = trim(raw);
    let p1 = status + sep;
    let p2 = p1 + title;
    let p3 = p2 + sep;
    assert(t == p3 + artist);
    let a = status.len() as int;
    let b = a + 2 + title.len();
    assert(t.len() == b + 2 + artist.len());
    assert forall|j: int| 0 <= j < a implies t[j] == status[j] by {
        assert(t[j] == p3[j] && p3[j] == p2[j] && p2[j] == p1[j]);
    }
    assert forall|j: int| a + 2 <= j < b implies t[j] == title[j - a - 2] by {
        assert(t[j] == p3[j] && p3[j] == p2[j]);
    }
    assert forall|j: int| b + 2 <= j < t.len() implies t[j] == artist[j - b - 2] by {}
    assert(t[a] == ';' && t[a + 1] == ';') by {
        assert(t[a] == p3[a] && p3[a] == p2[a] && p2[a] == p1[a]);
        assert(t[a + 1] == p3[a + 1] && p3[a + 1] == p2[a + 1] && p2[a + 1] == p1[a + 1]);
    }
    assert(t[b] == ';' && t[b + 1] == ';') by {
        assert(t[b] == p3[b]);
        assert(t[b + 1] == p3[b + 1]);
    }
    // The first separator sits right after the status.
    assert(matches_at(t, sep, a)) by {
        assert(t.subrange(a, a + 2) =~= sep);
    }
    assert forall|j: int| 0 <= j < a implies !matches_at(t, sep, j) by {
        if matches_at(t, sep, j) {
            assert(t.subrange(j, j + 2)[0] == t[j]);
        }
    }
    lemma_find_from_first(t, sep, 0, a);
    // The second one right after the title.
    assert(matches_at(t, sep, b)) by {
        assert(t.subrange(b, b + 2) =~= sep);
    }
    assert forall|j: int| a + 2 <= j < b implies !matches_at(t, sep, j) by {
        if matches_at(t, sep, j) {
            assert(t.subrange(j, j + 2)[0] == t[j]);
        }
    }
    lemma_find_from_first(t, sep, a + 2, b);
    // No further separator: the artist runs to the end.
    lemma_find_from(t, sep, b + 2);
    if find_from(t, sep, b + 2) is Some {
        let k = find_from(t, sep, b + 2)->0;
        assert(t.subrange(k, k + 2)[0] == t[k]);
    }
    assert(t.subrange(0, a) =~= status);
    assert(t.subrange(a + 2, b) =~= title);
    assert(t.subrange(b + 2, t.len() as int) =~= artist);
}

/// A line without a `;;` separator has no fields to show.
pub proof fn lemma_media_fields_need_separator(raw: Seq<char>)
    requires
        !contains(trim(raw), ";;"@),
    ensures
        media_fields(raw) is None,
{
    assert(FIELD_SEPARATOR@ == ";;"@);
}

/// Splits a metadata line `status;;title;;artist` into its fields.
pub fn parse_media_text(raw: &str) -> (res: Option<MediaSnapshot>)
    ensures
        match res {
            Some(m) => media_fields(raw@) == Some((m.status@, m.title@, m.artist@)),
            None => media_fields(raw@) is None,
        },
{
    let t = trim_str(raw);
    let tv = chars_of(t);
    let sep = chars_of(FIELD_SEPARATOR);
    proof {
        reveal_strlit(";;");
    }
    assert(tv@.len() == tv.len());
    let a = match find_chars(&tv, &sep, 0) {
        Some(a) => a,
        None => return None,
    };
    proof {
        lemma_find_from(t@, sep@, 0);
    }
    let b = match find_chars(&tv, &sep, a + sep.len()) {
        Some(b) => b,
        None => return None,
    };
    proof {
        lemma_find_from(t@, sep@, a + sep@.len());
    }
    let end = match find_chars(&tv, &sep, b + sep.len()) {
        Some(c) => c,
        None => tv.len(),
    };
    proof {
        lemma_find_from(t@, sep@, b + sep@.len());
    }
    Some(
        MediaSnapshot {
            status: String::from_str(t.substring_char(0, a)),
            title: String::from_str(t.substring_char(a + sep.len(), b)),
            artist: String::from_str(t.substring_char(b + sep.len(), end)),
        },
    )
}

/// Reads `playerctl`'s metadata output.
pub fn parse_media_snapshot(out: &[u8]) -> (res: Option<MediaSnapshot>)
    ensures
        match res {
            Some(m) => media_fields(utf8_lossy(out@)) == Some((m.status@, m.title@, m.artist@)),
            None => media_fields(utf8_lossy(out@)) is None,
        },
{
    let raw = decode_utf8_lossy(out);
    parse_media_text(raw.as_str())
}

/// What the media card shows.
pub enum MediaView {
    /// No player: the card is hidden and its labels keep their text.
    Hidden,
    /// A player: the card shows its title and artist, and the play button
    /// the action that a click would not undo.
    Shown { title: String, artist: String, play_label: &'static str },
}

/// The play button's label for a player in `status`: pause while playing,
/// play otherwise.
pub open spec fn play_label_for(status: Seq<char>) -> Seq<char> {
    if status == "Playing"@ {
        "⏸"@
    } else {
        "▶"@
    }
}

/// The play button offers pause exactly while the player is playing; in
/// every other state (paused, stopped, or any other status) it offers play.
pub proof fn lemma_play_label(status: Seq<char>)
    ensures
        (play_label_for(status) == "⏸"@) <==> (status == "Playing"@),
        status == "Playing"@ ==> play_label_for(status) == "⏸"@,
        status != "Playing"@ ==> play_label_for(status) == "▶"@,
{
    reveal_strlit("⏸");
    reveal_strlit("▶");
    assert("⏸"@[0] != "▶"@[0]);
}

/// Decides what the media card shows for the latest metadata.
pub fn media_view(snapshot: Option<MediaSnapshot>) -> (res: MediaView)
    ensures
        match snapshot {
            None => res is Hidden,
            Some(m) => match res {
                MediaView::Shown { title, artist, play_label } => {
                    &&& title@ == m.title@
                    &&& artist@ == m.artist@
                    &&& play_label@ == play_label_for(m.status@)
                },
                MediaView::Hidden => false,
            },
        },
{
    match snapshot {
        None => MediaView::Hidden,
        Some(m) => {
            let play_label = if equals_str(m.status.as_str(), "Playing") {
                "⏸"
            } else {
                "▶"
            };
            MediaView::Shown { title: m.title, artist: m.artist, play_label }
        },
    }
}

} // verus!
