//! The readers' decisions for NetEase Cloud Music and QQ Music: where the
//! data lives in the clients' memory, when a reading means "nothing is
//! playing", how track metadata is resolved and cached, and how a track is put
//! together. The memory and file reads and the web request are the caller's.

use vstd::prelude::*;
use crate::text::{contains_seq, occurs_at, str_eq, chars_of, str_concat, decimal, decimal_string, string_from_chars};

verus! {

// ---------------------------------------------------------------------------
// Tracks
// ---------------------------------------------------------------------------

/// What is playing, without the playback position and length (those are
/// floating-point seconds and stay with the caller).
pub struct Track {
    pub identity: String,
    pub title: String,
    pub artists: String,
    pub album: String,
    pub cover: String,
    pub url: String,
    pub paused: bool,
}

/// Track metadata resolved by song id.
pub struct TrackMeta {
    pub title: String,
    pub artists: String,
    pub album: String,
    pub cover: String,
}

/// The abstract value of a [`TrackMeta`].
pub struct MetaView {
    pub title: Seq<char>,
    pub artists: Seq<char>,
    pub album: Seq<char>,
    pub cover: Seq<char>,
}

impl View for TrackMeta {
    type V = MetaView;

    open spec fn view(&self) -> MetaView {
        MetaView { title: self.title@, artists: self.artists@, album: self.album@, cover: self.cover@ }
    }
}

impl TrackMeta {
    /// A copy of this metadata.
    pub fn duplicate(&self) -> (r: Self)
        ensures
            r@ == self@,
    {
        TrackMeta {
            title: self.title.clone(),
            artists: self.artists.clone(),
            album: self.album.clone(),
            cover: self.cover.clone(),
        }
    }
}

/// `list` joined with `sep` between neighbours.
pub open spec fn join_with(list: Seq<Seq<char>>, sep: Seq<char>) -> Seq<char>
    decreases list.len(),
{
    if list.len() == 0 {
        seq![]
    } else if list.len() == 1 {
        list[0]
    } else {
        join_with(list.drop_last(), sep) + sep + list.last()
    }
}

/// Law: the joined text holds every name of the list, in order: it starts
/// with the first, ends with the last, and each name occurs in it; with one
/// separator between neighbours its length is the names' lengths plus the
/// separators'.
pub proof fn law_join_keeps_every_name(list: Seq<Seq<char>>, sep: Seq<char>)
    ensures
        forall|i: int| 0 <= i < list.len() ==> contains_seq(join_with(list, sep), #[trigger] list[i]),
        list.len() > 0 ==> join_with(list, sep).take(list[0].len() as int) == list[0],
        list.len() > 0 ==> join_with(list, sep).skip(join_with(list, sep).len() - list.last().len())
            == list.last(),
        list.len() > 0 ==> join_with(list, sep).len() + sep.len() == names_len(list, sep.len()),
    decreases list.len(),
{
    if list.len() > 1 {
        let init = list.drop_last();
        law_join_keeps_every_name(init, sep);
        let j0 = join_with(init, sep);
        let j = join_with(list, sep);
        assert(j == j0 + sep + list.last());
        assert forall|i: int| 0 <= i < list.len() implies contains_seq(j, #[trigger] list[i]) by {
            if i < list.len() - 1 {
                assert(init[i] == list[i]);
                assert(contains_seq(j0, init[i]));
                let k = choose|k: int| occurs_at(j0, init[i], k);
                assert(j.subrange(k, k + list[i].len()) =~= j0.subrange(k, k + list[i].len()));
                assert(occurs_at(j, list[i], k));
            } else {
                let k = j.len() - list.last().len();
                assert(j.subrange(k, k + list[i].len()) =~= list.last());
                assert(occurs_at(j, list[i], k));
            }
        }
        assert(init[0] == list[0]);
        assert(j.take(list[0].len() as int) =~= j0.take(list[0].len() as int));
        assert(j.skip(j.len() - list.last().len()) =~= list.last());
        assert(names_len(list, sep.len()) == names_len(init, sep.len()) + list.last().len() + sep.len());
    } else if list.len() == 1 {
        let j = join_with(list, sep);
        assert(j == list[0]);
        assert(j.subrange(0, list[0].len() as int) =~= list[0]);
        assert(occurs_at(j, list[0], 0));
        assert(j.take(list[0].len() as int) =~= list[0]);
        assert(j.skip(0) =~= j);
        assert(names_len(list, sep.len()) == names_len(list.drop_last(), sep.len()) + list[0].len()
            + sep.len());
    }
}

/// The lengths of the names, each counted with one separator of length `sep_len`.
pub open spec fn names_len(list: Seq<Seq<char>>, sep_len: nat) -> int
    decreases list.len(),
{
    if list.len() == 0 {
        0
    } else {
        names_len(list.drop_last(), sep_len) + list.last().len() + sep_len
    }
}

pub open spec fn views(list: Seq<String>) -> Seq<Seq<char>> {
    list.map_values(|s: String| s@)
}

/// Artist names joined with commas.
pub fn join_names(names: &Vec<String>) -> (r: String)
    ensures
        r@ == join_with(views(names@), seq![',']),
{
    let mut out = String::new();
    let mut i: usize = 0;
    while i < names.len()
        invariant
            i <= names@.len(),
            out@ == join_with(views(names@).take(i as int), seq![',']),
        decreases names@.len() - i,
    {
        let ghost prev = views(names@).take(i as int);
        if i != 0 {
            crate::text::push_char(&mut out, ',');
        }
        out.append(names[i].as_str());
        i += 1;
        assert(views(names@).take(i as int).drop_last() =~= prev);
        assert(out@ =~= join_with(views(names@).take(i as int), seq![',']));
    }
    assert(views(names@).take(i as int) =~= views(names@));
    out
}

// ---------------------------------------------------------------------------
// NetEase Cloud Music (64-bit cloudmusic.dll)
// ---------------------------------------------------------------------------

/// The module whose code is scanned.
pub const NETEASE_MODULE: &'static str = "cloudmusic.dll";

/// `lea rcx, [rip+disp32]` that loads the AudioPlayer object.
pub const AUDIO_PLAYER_PATTERN: &'static str = "48 8D 0D ? ? ? ? E8 ? ? ? ? 48 8D 0D ? ? ? ? E8 ? ? ? ? 90 48 8D 0D ? ? ? ? E8 ? ? ? ? 48 8D 05 ? ? ? ? 48 8D A5 ? ? ? ? 5F 5D C3 CC CC CC CC CC 48 89 4C 24 ? 55 57 48 81 EC ? ? ? ? 48 8D 6C 24 ? 48 8D 7C 24";

/// `ucomisd xmm1, [rip+disp32]` that compares the playback position.
pub const AUDIO_SCHEDULE_PATTERN: &'static str = "66 0F 2E 0D ? ? ? ? 7A ? 75 ? 66 0F 2E 15";

/// Offset of the displacement in the AudioPlayer match.
pub const AUDIO_PLAYER_DISP_OFFSET: usize = 3;

/// Offset of the displacement in the Schedule match.
pub const AUDIO_SCHEDULE_DISP_OFFSET: usize = 4;

/// PlayStatus (read at audio_player + 0x60): 0 Waiting, 1 Playing, 2 Paused.
pub const STATUS_WAITING: i32 = 0;
pub const STATUS_PAUSED: i32 = 2;

/// Offsets from the AudioPlayer object.
pub const STATUS_OFFSET: usize = 0x60;
pub const SONG_INFO_OFFSET: usize = 0x50;
pub const DURATION_OFFSET: usize = 0xA8;

/// Offset of the song-id `std::string` in the play-info object.
pub const SONG_ID_STRING_OFFSET: usize = 0x10;

/// The target of a RIP-relative operand: the displacement `disp` read at
/// `matched + disp_offset` counts from the end of the 4-byte field.
pub open spec fn spec_rip_target(matched: usize, disp_offset: usize, disp: i32) -> usize {
    matched.wrapping_add(disp_offset).wrapping_add_signed(disp as isize).wrapping_add(4)
}

/// Resolve a RIP-relative reference found by a pattern match.
pub fn rip_relative_target(matched: usize, disp_offset: usize, disp: i32) -> (r: usize)
    ensures
        r == spec_rip_target(matched, disp_offset, disp),
        (r - (matched + disp_offset + disp + 4)) % (usize::MAX + 1) == 0,
{
    proof {
        law_rip_target_adds_whole_displacement(matched, disp_offset, disp);
    }
    matched.wrapping_add(disp_offset).wrapping_add_signed(disp as isize).wrapping_add(4)
}

/// Law: a RIP-relative target is the end of the 4-byte displacement field
/// (`matched + disp_offset + 4`) plus the whole signed 32-bit displacement,
/// taken modulo the address space.
pub proof fn law_rip_target_adds_whole_displacement(matched: usize, disp_offset: usize, disp: i32)
    ensures
        (spec_rip_target(matched, disp_offset, disp) - (matched + disp_offset + disp + 4)) % (
        usize::MAX + 1) == 0,
{
    let m: int = usize::MAX + 1;
    let a = matched.wrapping_add(disp_offset);
    let ka: int = if matched + disp_offset > usize::MAX {
        1
    } else {
        0
    };
    assert(a == matched + disp_offset - ka * m);
    let b = a.wrapping_add_signed(disp as isize);
    let kb: int = if a + disp > usize::MAX {
        1
    } else if a + disp < 0 {
        -1
    } else {
        0
    };
    assert(b == a + disp - kb * m);
    let c = b.wrapping_add(4);
    let kc: int = if b + 4 > usize::MAX {
        1
    } else {
        0
    };
    assert(c == b + 4 - kc * m);
    assert(c == spec_rip_target(matched, disp_offset, disp));
    let k = ka + kb + kc;
    assert(c - (matched + disp_offset + disp + 4) == (-k) * m) by (nonlinear_arith)
        requires
            c == b + 4 - kc * m,
            b == a + disp - kb * m,
            a == matched + disp_offset - ka * m,
            k == ka + kb + kc,
    ;
    vstd::arithmetic::div_mod::lemma_mod_multiples_basic(-k, m);
}

/// Address `offset` bytes past `base` (remote addresses wrap).
pub fn field_addr(base: usize, offset: usize) -> (r: usize)
    ensures
        r == base.wrapping_add(offset),
{
    base.wrapping_add(offset)
}

/// A status that means something is loaded (not Waiting).
pub fn netease_has_track(status: i32) -> (r: bool)
    ensures
        r == (status != STATUS_WAITING),
{
    status != STATUS_WAITING
}

/// Where the song-id string of the play-info pointer `info` lies: `None` when
/// the pointer is null (no song: the id is empty).
pub fn song_id_string_addr(info: i64) -> (r: Option<usize>)
    ensures
        info == 0 ==> r is None,
        info != 0 ==> r == Some((info as usize).wrapping_add(SONG_ID_STRING_OFFSET)),
{
    if info == 0 {
        None
    } else {
        Some((info as usize).wrapping_add(SONG_ID_STRING_OFFSET))
    }
}

/// A song id names a song: it is not empty (an empty one means nothing is
/// loaded).
pub fn netease_has_song(id: &str) -> (r: bool)
    ensures
        r == (id@.len() > 0),
{
    !id.is_empty()
}

/// Length of the part of `s` before its first `_`.
pub open spec fn before_underscore(s: Seq<char>) -> nat
    decreases s.len(),
{
    if s.len() == 0 || s[0] == '_' {
        0
    } else {
        1 + before_underscore(s.drop_first())
    }
}

proof fn lemma_before_underscore_exact(s: Seq<char>, k: int)
    requires
        0 <= k <= s.len(),
        forall|i: int| 0 <= i < k ==> s[i] != '_',
        k == s.len() || s[k] == '_',
    ensures
        before_underscore(s) == k,
    decreases k,
{
    if k > 0 {
        let d = s.drop_first();
        assert forall|i: int| 0 <= i < k - 1 implies d[i] != '_' by {
            assert(d[i] == s[i + 1]);
        }
        if k < s.len() {
            assert(d[k - 1] == s[k]);
        }
        lemma_before_underscore_exact(d, k - 1);
    }
}

/// Law: the song id kept from a stored id is its longest prefix without
/// `_`: nothing of it is `_`, and it is followed by `_` or is the whole text.
pub proof fn law_song_id_is_part_before_underscore(s: Seq<char>)
    ensures
        before_underscore(s) <= s.len(),
        forall|i: int| 0 <= i < before_underscore(s) ==> s[i] != '_',
        before_underscore(s) == s.len() || s[before_underscore(s) as int] == '_',
    decreases s.len(),
{
    if s.len() > 0 && s[0] != '_' {
        let d = s.drop_first();
        law_song_id_is_part_before_underscore(d);
        assert forall|i: int| 0 <= i < before_underscore(s) implies s[i] != '_' by {
            if i > 0 {
                assert(s[i] == d[i - 1]);
            }
        }
        if before_underscore(d) < d.len() {
            assert(s[before_underscore(s) as int] == d[before_underscore(d) as int]);
        }
    }
}

/// The stored id looks like `"<id>_<something>"`: keep the part before `_`.
pub fn song_id_from(stored: &str) -> (r: String)
    ensures
        r@ == stored@.take(before_underscore(stored@) as int),
{
    let cs = chars_of(stored);
    let mut k: usize = 0;
    while k < cs.len() && cs[k] != '_'
        invariant
            k <= cs@.len(),
            cs@ == stored@,
            forall|i: int| 0 <= i < k ==> cs@[i] != '_',
        decreases cs@.len() - k,
    {
        k += 1;
    }
    proof {
        lemma_before_underscore_exact(cs@, k as int);
        assert(cs@.take(k as int) =~= cs@.subrange(0, k as int));
    }
    string_from_chars(&cs, 0, k)
}

pub open spec fn netease_url_prefix() -> Seq<char> {
    "https://music.163.com/#/song?id="@
}

/// The song's page: `https://music.163.com/#/song?id=<id>`.
pub fn netease_song_url(id: &str) -> (r: String)
    ensures
        r@ == netease_url_prefix() + id@,
{
    str_concat("https://music.163.com/#/song?id=", id)
}

/// The track of a NetEase reading: song `id` (non-empty), its metadata and
/// the play status.
pub fn netease_track(id: String, status: i32, meta: TrackMeta) -> (r: Track)
    ensures
        r.identity@ == id@,
        r.title@ == meta.title@,
        r.artists@ == meta.artists@,
        r.album@ == meta.album@,
        r.cover@ == meta.cover@,
        r.url@ == netease_url_prefix() + id@,
        r.paused == (status == STATUS_PAUSED),
{
    let url = netease_song_url(id.as_str());
    Track {
        identity: id,
        title: meta.title,
        artists: meta.artists,
        album: meta.album,
        cover: meta.cover,
        url,
        paused: status == STATUS_PAUSED,
    }
}

pub open spec fn api_url_parts(id: Seq<char>) -> Seq<char> {
    "http://music.163.com/api/song/detail/?id="@ + id + "&ids=%5B"@ + id + "%5D"@
}

/// NetEase's public song-detail request for `id` (plain HTTP).
pub fn netease_api_url(id: &str) -> (r: String)
    ensures
        r@ == api_url_parts(id@),
{
    let mut s = String::from_str("http://music.163.com/api/song/detail/?id=");
    s.append(id);
    s.append("&ids=%5B");
    s.append(id);
    s.append("%5D");
    s
}

/// One entry of the desktop client's on-disk playing list.
pub struct PlaylistItem {
    pub id: String,
    pub track: Option<PlaylistTrack>,
}

/// The track of a playing-list entry.
pub struct PlaylistTrack {
    pub name: String,
    pub artists: Vec<String>,
    pub album_name: String,
    pub album_cover: String,
}

/// The metadata of a playing-list track: artists joined with commas.
pub open spec fn track_meta_of(t: PlaylistTrack) -> MetaView {
    MetaView {
        title: t.name@,
        artists: join_with(views(t.artists@), seq![',']),
        album: t.album_name@,
        cover: t.album_cover@,
    }
}

/// Index of the first entry with `id`, if any.
pub open spec fn first_with_id(list: Seq<PlaylistItem>, id: Seq<char>) -> Option<int> {
    if exists|i: int| 0 <= i < list.len() && list[i].id@ == id {
        Some(
            choose|i: int|
                0 <= i < list.len() && list[i].id@ == id && forall|k: int|
                    0 <= k < i ==> list[k].id@ != id,
        )
    } else {
        None
    }
}

/// The metadata the playing list has for `id`: from the first entry with
/// that id, when that entry has a track.
pub open spec fn spec_from_playlist(list: Seq<PlaylistItem>, id: Seq<char>) -> Option<MetaView> {
    match first_with_id(list, id) {
        Some(i) => match list[i].track {
            Some(t) => Some(track_meta_of(t)),
            None => None,
        },
        None => None,
    }
}

/// Law: the playing list answers for `id` from its first entry with that id:
/// that entry's track name, its artists joined with commas, its album name and
/// cover; nothing when that entry has no track or no entry has the id.
pub proof fn law_playlist_first_entry_answers(list: Seq<PlaylistItem>, id: Seq<char>, k: int)
    ensures
        (0 <= k < list.len() && list[k].id@ == id && forall|j: int| 0 <= j < k ==> list[j].id@ != id)
            ==> spec_from_playlist(list, id) == match list[k].track {
            Some(t) => Some(
                MetaView {
                    title: t.name@,
                    artists: join_with(views(t.artists@), seq![',']),
                    album: t.album_name@,
                    cover: t.album_cover@,
                },
            ),
            None => None::<MetaView>,
        },
        (forall|j: int| 0 <= j < list.len() ==> list[j].id@ != id) ==> spec_from_playlist(list, id)
            is None,
{
    if 0 <= k < list.len() && list[k].id@ == id && forall|j: int| 0 <= j < k ==> list[j].id@ != id {
        let c = choose|c: int|
            0 <= c < list.len() && list[c].id@ == id && forall|j: int| 0 <= j < c ==> list[j].id@ != id;
        assert(c == k) by {
            if c < k {
                assert(list[c].id@ != id);
            } else if c > k {
                assert(list[k].id@ != id);
            }
        }
    }
}

/// Look the song up in the desktop client's playing list.
pub fn from_playlist(list: &Vec<PlaylistItem>, id: &str) -> (r: Option<TrackMeta>)
    ensures
        match r {
            Some(m) => spec_from_playlist(list@, id@) == Some(m@),
            None => spec_from_playlist(list@, id@) is None,
        },
{
    let mut i: usize = 0;
    while i < list.len()
        invariant
            i <= list@.len(),
            forall|k: int| 0 <= k < i ==> list@[k].id@ != id@,
        decreases list@.len() - i,
    {
        if str_eq(list[i].id.as_str(), id) {
            proof {
                let j = i as int;
                assert(list@[j].id@ == id@);
                let c = choose|c: int|
                    0 <= c < list@.len() && list@[c].id@ == id@ && forall|k: int|
                        0 <= k < c ==> list@[k].id@ != id@;
                assert(c == j) by {
                    if c < j {
                    } else if c > j {
                        assert(list@[j].id@ != id@);
                    }
                }
            }
            return match &list[i].track {
                Some(t) => Some(
                    TrackMeta {
                        title: t.name.clone(),
                        artists: join_names(&t.artists),
                        album: t.album_name.clone(),
                        cover: t.album_cover.clone(),
                    },
                ),
                None => None,
            };
        }
        i += 1;
    }
    None
}

/// A song of NetEase's song-detail answer.
pub struct ApiSong {
    pub name: String,
    pub artists: Vec<String>,
    pub album_name: String,
    pub pic_url: String,
}

/// The metadata of the first song of a song-detail answer, if any.
pub fn from_api_songs(songs: &Vec<ApiSong>) -> (r: Option<TrackMeta>)
    ensures
        songs@.len() == 0 ==> r is None,
        songs@.len() > 0 ==> (r matches Some(m) && m@ == (MetaView {
            title: songs@[0].name@,
            artists: join_with(views(songs@[0].artists@), seq![',']),
            album: songs@[0].album_name@,
            cover: songs@[0].pic_url@,
        })),
{
    if songs.len() == 0 {
        return None;
    }
    let s = &songs[0];
    Some(
        TrackMeta {
            title: s.name.clone(),
            artists: join_names(&s.artists),
            album: s.album_name.clone(),
            cover: s.pic_url.clone(),
        },
    )
}

/// The metadata last resolved, keyed by song id, so the playing list is read
/// and the web API called once per song change.
pub struct MetaCache {
    entry: Option<(String, TrackMeta)>,
}

impl MetaCache {
    /// The cached (id, metadata), if any.
    pub closed spec fn entry(&self) -> Option<(Seq<char>, MetaView)> {
        match self.entry {
            Some((id, m)) => Some((id@, m@)),
            None => None,
        }
    }

    /// An empty cache.
    pub fn new() -> (r: Self)
        ensures
            r.entry() is None,
    {
        MetaCache { entry: None }
    }

    /// The cached metadata when it is for `id`.
    pub fn lookup(&self, id: &str) -> (r: Option<TrackMeta>)
        ensures
            match cache_lookup(self.entry(), id@) {
                Some(m) => r matches Some(x) && x@ == m,
                None => r is None,
            },
    {
        match &self.entry {
            Some((cid, m)) => if str_eq(cid.as_str(), id) {
                Some(m.duplicate())
            } else {
                None
            },
            None => None,
        }
    }

    /// Remember `meta` as the metadata of `id`, replacing what was cached.
    pub fn store(&mut self, id: &str, meta: &TrackMeta)
        ensures
            final(self).entry() == cache_store(id@, meta@),
    {
        self.entry = Some((String::from_str(id), meta.duplicate()));
    }
}

/// What a cache holding `entry` answers for `id`.
pub open spec fn cache_lookup(entry: Option<(Seq<char>, MetaView)>, id: Seq<char>) -> Option<
    MetaView,
> {
    match entry {
        Some((cid, m)) => if cid == id {
            Some(m)
        } else {
            None
        },
        None => None,
    }
}

/// The cache after storing `meta` for `id`.
pub open spec fn cache_store(id: Seq<char>, meta: MetaView) -> Option<(Seq<char>, MetaView)> {
    Some((id, meta))
}

/// Law: a lookup right after storing gives back what was stored for that id;
/// the cache holds one song, so any other id finds nothing and goes to the
/// playing list or the web again.
pub proof fn law_cache_read_after_write(
    entry: Option<(Seq<char>, MetaView)>,
    id: Seq<char>,
    meta: MetaView,
    other: Seq<char>,
)
    requires
        other != id,
    ensures
        cache_lookup(cache_store(id, meta), id) == Some(meta),
        cache_lookup(cache_store(id, meta), other) is None,
{
}

// ---------------------------------------------------------------------------
// QQ Music (32-bit QQMusic.dll)
// ---------------------------------------------------------------------------

/// The module whose code is scanned.
pub const TENCENT_MODULE: &'static str = "QQMusic.dll";

/// `mov moffs, al` instructions that store into `CurrentSongInfo`.
pub const CURRENT_SONG_INFO_PATTERN: &'static str = "A2 ? ? ? ? A3 ? ? ? ? C7 05 ? ? ? ? ? ? ? ? A2 ? ? ? ? A3 ? ? ? ? C7 05 ? ? ? ? ? ? ? ? A2 ? ? ? ? A3";

/// The absolute 32-bit address follows the opcode byte.
pub const SONG_INFO_ADDR_OFFSET: usize = 1;

/// Size of a 32-bit MSVC `std::string`.
pub const STD: usize = 0x18;

/// Field offsets in `CurrentSongInfo`.
pub const TENCENT_TITLE: usize = 0;
pub const TENCENT_ARTIST: usize = STD;
pub const TENCENT_ALBUM: usize = STD * 2;
pub const TENCENT_COVER: usize = STD * 3;
pub const TENCENT_SONG_ID: usize = STD * 4;
pub const TENCENT_DURATION: usize = STD * 4 + 8;
pub const TENCENT_SCHEDULE: usize = STD * 4 + 12;
pub const TENCENT_STATUS: usize = STD * 4 + 16;

/// A song id of 0 means nothing is loaded.
pub fn tencent_has_song(id: u32) -> (r: bool)
    ensures
        r == (id != 0),
{
    id != 0
}

pub open spec fn tencent_url_prefix() -> Seq<char> {
    "https://y.qq.com/n/ryqq/songDetail/"@
}

/// The track of a QQ Music reading: song `id`, play status (0 paused, 1
/// playing, 3 buffering) and the four strings.
pub fn tencent_track(id: u32, status: i32, title: String, artists: String, album: String, cover: String) -> (r:
    Track)
    ensures
        r.identity@ == decimal(id as nat),
        r.title@ == title@,
        r.artists@ == artists@,
        r.album@ == album@,
        r.cover@ == cover@,
        r.url@ == tencent_url_prefix() + decimal(id as nat),
        r.paused == (status == 0),
{
    let identity = decimal_string(id as u128);
    let url = str_concat("https://y.qq.com/n/ryqq/songDetail/", identity.as_str());
    Track { identity, title, artists, album, cover, url, paused: status == 0 }
}

} // verus!
