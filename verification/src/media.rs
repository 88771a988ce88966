//! Whether a music client is playing, from what Windows reports about its
//! audio sessions (WASAPI) or its media sessions (System Media Transport
//! Controls). The sessions are enumerated by the caller; the decisions are here.

use vstd::prelude::*;
use crate::text::{ascii_lower, contains, contains_seq, string_from_chars, chars_of, to_ascii_lowercase};

verus! {

/// One audio session, as far as the decision needs it.
pub struct AudioSession {
    /// Executable file name of the owning process (empty when unknown).
    pub image_name: String,
    /// Whether the session state is "active".
    pub active: bool,
    /// Whether the peak meter reads above the silence threshold, when a meter
    /// could be read.
    pub peak_loud: Option<bool>,
}

/// One media (SMTC) session.
pub struct MediaSession {
    /// The source app's user model id.
    pub app_id: String,
    /// Whether its playback status is "Playing".
    pub playing: bool,
}

/// The audio session belongs to an executable whose name contains
/// `name_substr`, ignoring ASCII case.
pub open spec fn audio_matches(image_name: Seq<char>, name_substr: Seq<char>) -> bool {
    contains_seq(ascii_lower(image_name), ascii_lower(name_substr))
}

/// An audio session produces sound: the peak meter decides when there is
/// one (a paused session reads ~0 even while "active"), the state otherwise.
pub open spec fn audio_plays(s: AudioSession) -> bool {
    match s.peak_loud {
        Some(loud) => loud,
        None => s.active,
    }
}

pub open spec fn spec_any_active_session(name_substr: Seq<char>, sessions: Seq<AudioSession>) -> Option<bool> {
    if exists|i: int| 0 <= i < sessions.len() && audio_matches(sessions[i].image_name@, name_substr) {
        Some(
            exists|i: int|
                0 <= i < sessions.len() && audio_matches(sessions[i].image_name@, name_substr)
                    && audio_plays(sessions[i]),
        )
    } else {
        None
    }
}

/// Whether the audio session of executable `image_name` is one to look at.
pub fn audio_session_matches(image_name: &str, name_substr: &str) -> (r: bool)
    ensures
        r == audio_matches(image_name@, name_substr@),
{
    let lower = to_ascii_lowercase(image_name);
    let needle = to_ascii_lowercase(name_substr);
    contains(lower.as_str(), needle.as_str())
}

/// `Some(true)` if any audio session owned by a process whose executable
/// name contains `name_substr` (case-insensitive) is producing sound;
/// `Some(false)` if such sessions exist but are all silent (paused); `None`
/// if there is none.
pub fn any_active_session(name_substr: &str, sessions: &Vec<AudioSession>) -> (r: Option<bool>)
    ensures
        r == spec_any_active_session(name_substr@, sessions@),
        r == Some(true) <==> exists|i: int|
            0 <= i < sessions@.len() && #[trigger] contains_seq(
                ascii_lower(sessions@[i].image_name@),
                ascii_lower(name_substr@),
            ) && (sessions@[i].peak_loud == Some(true) || (sessions@[i].peak_loud is None
                && sessions@[i].active)),
        r is None <==> forall|i: int|
            0 <= i < sessions@.len() ==> !#[trigger] contains_seq(
                ascii_lower(sessions@[i].image_name@),
                ascii_lower(name_substr@),
            ),
{
    let mut matched = false;
    let mut producing = false;
    let mut i: usize = 0;
    while i < sessions.len()
        invariant
            i <= sessions@.len(),
            matched == exists|k: int|
                0 <= k < i && audio_matches(sessions@[k].image_name@, name_substr@),
            producing == exists|k: int|
                0 <= k < i && audio_matches(sessions@[k].image_name@, name_substr@) && audio_plays(
                    sessions@[k],
                ),
        decreases sessions@.len() - i,
    {
        let s = &sessions[i];
        if audio_session_matches(s.image_name.as_str(), name_substr) {
            matched = true;
            let plays = match s.peak_loud {
                Some(loud) => loud,
                None => s.active,
            };
            if plays {
                producing = true;
            }
        }
        i += 1;
    }
    if matched {
        Some(producing)
    } else {
        None
    }
}

/// The media session's app id contains the lowercased `name_substr`, ignoring
/// ASCII case.
pub open spec fn media_matches(app_id: Seq<char>, name_substr: Seq<char>) -> bool {
    contains_seq(ascii_lower(app_id), ascii_lower(name_substr))
}

pub open spec fn spec_netease_playing(name_substr: Seq<char>, sessions: Seq<MediaSession>) -> Option<bool> {
    if exists|i: int| 0 <= i < sessions.len() && media_matches(sessions[i].app_id@, name_substr) {
        Some(
            exists|i: int|
                0 <= i < sessions.len() && media_matches(sessions[i].app_id@, name_substr)
                    && sessions[i].playing,
        )
    } else {
        None
    }
}

/// Whether the media session of app `app_id` is one to look at.
pub fn media_session_matches(app_id: &str, name_substr: &str) -> (r: bool)
    ensures
        r == media_matches(app_id@, name_substr@),
{
    let lower = to_ascii_lowercase(app_id);
    let needle = to_ascii_lowercase(name_substr);
    contains(lower.as_str(), needle.as_str())
}

/// `Some(true)` if a matching media session is Playing; `Some(false)` if
/// matching sessions exist but are Paused/Stopped; `None` if none matches (the
/// caller should then assume playing so Discord is not blanked).
pub fn netease_playing(name_substr: &str, sessions: &Vec<MediaSession>) -> (r: Option<bool>)
    ensures
        r == spec_netease_playing(name_substr@, sessions@),
        r == Some(true) <==> exists|i: int|
            0 <= i < sessions@.len() && #[trigger] contains_seq(
                ascii_lower(sessions@[i].app_id@),
                ascii_lower(name_substr@),
            ) && sessions@[i].playing,
        r is None <==> forall|i: int|
            0 <= i < sessions@.len() ==> !#[trigger] contains_seq(
                ascii_lower(sessions@[i].app_id@),
                ascii_lower(name_substr@),
            ),
{
    let mut matched = false;
    let mut playing = false;
    let mut i: usize = 0;
    while i < sessions.len()
        invariant
            i <= sessions@.len(),
            matched == exists|k: int|
                0 <= k < i && media_matches(sessions@[k].app_id@, name_substr@),
            playing == exists|k: int|
                0 <= k < i && media_matches(sessions@[k].app_id@, name_substr@)
                    && sessions@[k].playing,
        decreases sessions@.len() - i,
    {
        let s = &sessions[i];
        if media_session_matches(s.app_id.as_str(), name_substr) {
            matched = true;
            if s.playing {
                playing = true;
            }
        }
        i += 1;
    }
    if matched {
        Some(playing)
    } else {
        None
    }
}

/// Law: the audio answer is `Some(true)` exactly when some session of a
/// matching executable (names compared ignoring ASCII case) produces sound
/// (loud peak meter, or active state when there is no meter), `None` exactly
/// when no session matches, and it does not depend on the sessions' order.
pub proof fn law_audio_any_session_decides(name_substr: Seq<char>, sessions: Seq<AudioSession>, perm: Seq<int>)
    requires
        perm.len() == sessions.len(),
        forall|i: int| 0 <= i < perm.len() ==> 0 <= #[trigger] perm[i] < sessions.len(),
        forall|i: int, j: int| 0 <= i < j < perm.len() ==> perm[i] != perm[j],
    ensures
        (spec_any_active_session(name_substr, sessions) == Some(true)) <==> exists|i: int|
            0 <= i < sessions.len() && #[trigger] contains_seq(
                ascii_lower(sessions[i].image_name@),
                ascii_lower(name_substr),
            ) && (sessions[i].peak_loud == Some(true) || (sessions[i].peak_loud is None
                && sessions[i].active)),
        (spec_any_active_session(name_substr, sessions) is None) <==> forall|i: int|
            0 <= i < sessions.len() ==> !#[trigger] contains_seq(
                ascii_lower(sessions[i].image_name@),
                ascii_lower(name_substr),
            ),
        spec_any_active_session(name_substr, sessions) == spec_any_active_session(
            name_substr,
            Seq::new(sessions.len(), |i: int| sessions[perm[i]]),
        ),
{
    let q = Seq::new(sessions.len(), |i: int| sessions[perm[i]]);
    if exists|i: int| 0 <= i < sessions.len() && audio_matches(sessions[i].image_name@, name_substr) {
        let i = choose|i: int| 0 <= i < sessions.len() && audio_matches(sessions[i].image_name@, name_substr);
        lemma_injective_hits(perm, sessions.len() as int, i);
        let j = choose|j: int| 0 <= j < perm.len() && perm[j] == i;
        assert(q[j] == sessions[i]);
    }
    if exists|i: int| 0 <= i < sessions.len() && audio_matches(sessions[i].image_name@, name_substr)
        && audio_plays(sessions[i]) {
        let i = choose|i: int| 0 <= i < sessions.len() && audio_matches(sessions[i].image_name@, name_substr)
            && audio_plays(sessions[i]);
        lemma_injective_hits(perm, sessions.len() as int, i);
        let j = choose|j: int| 0 <= j < perm.len() && perm[j] == i;
        assert(q[j] == sessions[i]);
    }
    if exists|j: int| 0 <= j < q.len() && audio_matches(q[j].image_name@, name_substr) {
        let j = choose|j: int| 0 <= j < q.len() && audio_matches(q[j].image_name@, name_substr);
        assert(q[j] == sessions[perm[j]]);
    }
    if exists|j: int| 0 <= j < q.len() && audio_matches(q[j].image_name@, name_substr) && audio_plays(q[j]) {
        let j = choose|j: int| 0 <= j < q.len() && audio_matches(q[j].image_name@, name_substr) && audio_plays(q[j]);
        assert(q[j] == sessions[perm[j]]);
    }
}

/// Law: the media-session answer is `Some(true)` exactly when some session of
/// a matching app (ids compared ignoring ASCII case) is Playing, and `None`
/// exactly when no session matches.
pub proof fn law_media_any_session_decides(name_substr: Seq<char>, sessions: Seq<MediaSession>)
    ensures
        (spec_netease_playing(name_substr, sessions) == Some(true)) <==> exists|i: int|
            0 <= i < sessions.len() && #[trigger] contains_seq(
                ascii_lower(sessions[i].app_id@),
                ascii_lower(name_substr),
            ) && sessions[i].playing,
        (spec_netease_playing(name_substr, sessions) is None) <==> forall|i: int|
            0 <= i < sessions.len() ==> !#[trigger] contains_seq(
                ascii_lower(sessions[i].app_id@),
                ascii_lower(name_substr),
            ),
{
}

/// An injective map from `0..n` into `0..n` hits every index.
proof fn lemma_injective_hits(perm: Seq<int>, n: int, k: int)
    requires
        perm.len() == n,
        0 <= k < n,
        forall|i: int| 0 <= i < perm.len() ==> 0 <= #[trigger] perm[i] < n,
        forall|i: int, j: int| 0 <= i < j < perm.len() ==> perm[i] != perm[j],
    ensures
        exists|i: int| 0 <= i < perm.len() && #[trigger] perm[i] == k,
{
    if !(exists|i: int| 0 <= i < perm.len() && #[trigger] perm[i] == k) {
        // perm would map n indices injectively into n - 1 values.
        let s = Set::new(|x: int| 0 <= x < n && x != k);
        let img = perm.to_set();
        assert(img.subset_of(s)) by {
            assert forall|x: int| img.contains(x) implies s.contains(x) by {
                let i = choose|i: int| 0 <= i < perm.len() && perm[i] == x;
            }
        }
        assert(s =~= vstd::set_lib::set_int_range(0, n).remove(k));
        vstd::set_lib::lemma_int_range(0, n);
        vstd::set_lib::lemma_len_subset(img, s);
        assert(perm.no_duplicates()) by {
            assert forall|i: int, j: int| 0 <= i < perm.len() && 0 <= j < perm.len() && i != j
                implies perm[i] != perm[j] by {
                if i > j {
                    assert(perm[j] != perm[i]);
                }
            }
        }
        perm.unique_seq_to_set();
    }
}

pub open spec fn is_path_sep(c: char) -> bool {
    c == '\\' || c == '/'
}

/// The part of a path after its last `\` or `/` (all of it when there is none).
pub open spec fn file_name_part(s: Seq<char>) -> Seq<char>
    decreases s.len(),
{
    if s.len() == 0 {
        s
    } else if is_path_sep(s.last()) {
        seq![]
    } else {
        file_name_part(s.drop_last()).push(s.last())
    }
}

/// Law: the file name part of a path is a suffix of it without `\\` or `/`,
/// and what comes before it is empty or ends with a separator: the part after
/// the last separator.
pub proof fn law_file_name_is_last_component(s: Seq<char>)
    ensures
        file_name_part(s).len() <= s.len(),
        s.skip(s.len() - file_name_part(s).len()) == file_name_part(s),
        forall|i: int| 0 <= i < file_name_part(s).len() ==> !is_path_sep(#[trigger] file_name_part(s)[i]),
        file_name_part(s).len() < s.len() ==> is_path_sep(s[s.len() - file_name_part(s).len() - 1]),
    decreases s.len(),
{
    if s.len() > 0 && !is_path_sep(s.last()) {
        let p = s.drop_last();
        law_file_name_is_last_component(p);
        let f = file_name_part(p);
        assert(file_name_part(s) == f.push(s.last()));
        assert(s.skip(s.len() - file_name_part(s).len()) =~= p.skip(p.len() - f.len()).push(s.last()));
        assert forall|i: int| 0 <= i < file_name_part(s).len() implies !is_path_sep(
            #[trigger] file_name_part(s)[i],
        ) by {
            if i < f.len() {
                assert(file_name_part(s)[i] == f[i]);
            }
        }
        if f.len() < p.len() {
            assert(s[s.len() - file_name_part(s).len() - 1] == p[p.len() - f.len() - 1]);
        }
    } else if s.len() > 0 {
        assert(s.skip(s.len() as int) =~= Seq::<char>::empty());
    }
}

/// The executable file name of a full image path (e.g. `cloudmusic.exe`).
pub fn image_file_name(full: &str) -> (r: String)
    ensures
        r@ == file_name_part(full@),
{
    let cs = chars_of(full);
    let mut start = cs.len();
    assert(cs@.take(start as int) =~= cs@);
    assert(cs@.skip(start as int) =~= Seq::<char>::empty());
    assert(file_name_part(cs@) =~= file_name_part(cs@.take(start as int)) + cs@.skip(start as int));
    while start > 0 && !(cs[start - 1] == '\\' || cs[start - 1] == '/')
        invariant
            start <= cs@.len(),
            cs@ == full@,
            file_name_part(cs@) == file_name_part(cs@.take(start as int)) + cs@.skip(start as int),
        decreases start,
    {
        let ghost t = cs@.take(start as int);
        assert(t.drop_last() =~= cs@.take(start - 1));
        assert(cs@.skip(start - 1) =~= seq![t.last()] + cs@.skip(start as int));
        assert(file_name_part(t) =~= file_name_part(cs@.take(start - 1)).push(t.last()));
        start -= 1;
        assert(file_name_part(cs@) =~= file_name_part(cs@.take(start as int)) + cs@.skip(
            start as int,
        ));
    }
    proof {
        let t = cs@.take(start as int);
        if start > 0 {
            assert(t.last() == cs@[start - 1]);
            assert(file_name_part(t) =~= Seq::<char>::empty());
        } else {
            assert(t =~= Seq::<char>::empty());
        }
        assert(cs@.skip(start as int) =~= cs@.subrange(start as int, cs@.len() as int));
    }
    assert(cs@.take(cs@.len() as int) =~= cs@);
    string_from_chars(&cs, start, cs.len())
}

} // verus!
