use vstd::prelude::*;
use vstd::string::StringExecFns;

verus! {

/// One playable entry: a subsong of an NSF/NSFe file.
#[derive(Debug)]
pub struct PlaylistItem {
    /// Path of the NSF/NSFe file, as text.
    pub file_path: String,
    /// 1-indexed NSF subsong.
    pub track_index: u8,
    pub display_name: String,
    pub duration_seconds: Option<u32>,
}

impl Clone for PlaylistItem {
    fn clone(&self) -> (r: Self)
        ensures
            r == *self,
    {
        PlaylistItem {
            file_path: self.file_path.clone(),
            track_index: self.track_index,
            display_name: self.display_name.clone(),
            duration_seconds: self.duration_seconds,
        }
    }
}

/// Whether two path texts name the same path, by `std::path::Path`'s `==`.
/// That compares components, with the separators and prefixes of the
/// platform the program runs on (`a//b` and `a/b/` are the same path
/// everywhere; `C:\a` and `C:/a` are the same on Windows only). The rules
/// differ between platforms, so only what holds on all of them is claimed:
/// the same text always names the same path.
#[verifier::external_body]
pub(crate) fn paths_equal(a: &str, b: &str) -> (r: bool)
    ensures
        a@ == b@ ==> r,
{
    std::path::Path::new(a) == std::path::Path::new(b)
}

/// An ordered list of tracks with an optional "current" cursor.
pub struct Playlist {
    items: Vec<PlaylistItem>,
    current: Option<usize>,
    /// Wrap around at either end of the list in `advance` / `previous`.
    repeat: bool,
}

/// Mathematical model of a playlist: its items and its cursor.
pub struct PlaylistView {
    pub items: Seq<PlaylistItem>,
    pub current: Option<usize>,
    pub repeat: bool,
}

impl View for Playlist {
    type V = PlaylistView;

    closed spec fn view(&self) -> PlaylistView {
        PlaylistView { items: self.items@, current: self.current, repeat: self.repeat }
    }
}

/// The cursor, when set, points at an item of the list.
pub open spec fn cursor_valid(v: PlaylistView) -> bool {
    v.current matches Some(i) ==> i < v.items.len()
}

/// Where `advance` moves the cursor: the next item; past the end, back to
/// the first item when `repeat` is set and nowhere otherwise; from no cursor,
/// the first item of a non-empty list.
pub open spec fn advance_index(len: nat, current: Option<usize>, repeat: bool) -> Option<int> {
    match current {
        Some(i) => if i + 1 < len {
            Some(i + 1)
        } else if repeat && len > 0 {
            Some(0)
        } else {
            None
        },
        None => if len > 0 {
            Some(0)
        } else {
            None
        },
    }
}

/// Where `previous` moves the cursor: the item before; before the first
/// item, the last one when `repeat` is set and nowhere otherwise; from no
/// cursor, the first item of a non-empty list.
pub open spec fn previous_index(len: nat, current: Option<usize>, repeat: bool) -> Option<int> {
    match current {
        Some(i) => if i == 0 {
            if repeat && len > 0 {
                Some(len - 1)
            } else {
                None
            }
        } else {
            Some(i - 1)
        },
        None => if len > 0 {
            Some(0)
        } else {
            None
        },
    }
}

/// With no cursor (as after a playlist is restored), `advance` and
/// `previous` both start at the first item of a non-empty list, whether or
/// not repeat is on; an empty list gives nothing either way.
pub proof fn no_cursor_starts_at_first(len: nat, repeat: bool)
    ensures
        len > 0 ==> advance_index(len, None, repeat) == Some(0int),
        len > 0 ==> previous_index(len, None, repeat) == Some(0int),
        len == 0 ==> advance_index(len, None, repeat) is None,
        len == 0 ==> previous_index(len, None, repeat) is None,
        previous_index(len, None, repeat) == previous_index(len, None, !repeat),
{
}

/// `previous` undoes an `advance` that did not wrap around: from track `i`,
/// advancing and stepping back lands on `i` again.
pub proof fn previous_undoes_advance(len: nat, i: usize, repeat: bool)
    requires
        i + 1 < len,
        len <= usize::MAX,
    ensures
        advance_index(len, Some(i), repeat) == Some(i + 1),
        previous_index(len, Some((i + 1) as usize), repeat) == Some(i as int),
{
}

/// `advance` undoes a `previous` that did not wrap around.
pub proof fn advance_undoes_previous(len: nat, i: usize, repeat: bool)
    requires
        0 < i < len,
    ensures
        previous_index(len, Some(i), repeat) == Some(i - 1),
        advance_index(len, Some((i - 1) as usize), repeat) == Some(i as int),
{
}

/// With repeat on, the playlist is a ring: `advance` goes to the next index
/// modulo the length and `previous` to the one before, so neither ever stops.
pub proof fn repeat_is_cyclic(len: nat, i: usize)
    requires
        i < len,
    ensures
        advance_index(len, Some(i), true) == Some(((i + 1) % (len as int)) as int),
        previous_index(len, Some(i), true) == Some(((i + len - 1) % (len as int)) as int),
{
    if i + 1 < len {
        vstd::arithmetic::div_mod::lemma_small_mod((i + 1) as nat, len);
    } else {
        vstd::arithmetic::div_mod::lemma_mod_self_0(len as int);
    }
    if i == 0 {
        vstd::arithmetic::div_mod::lemma_small_mod((len - 1) as nat, len);
    } else {
        vstd::arithmetic::div_mod::lemma_mod_add_multiples_vanish((i - 1) as int, len as int);
        vstd::arithmetic::div_mod::lemma_small_mod((i - 1) as nat, len);
    }
}

/// Without repeat, playback stops after the last track: `advance` from it
/// gives nothing (and clears the cursor), `previous` from the first track
/// gives nothing.
pub proof fn no_repeat_stops_at_ends(len: nat)
    requires
        0 < len <= usize::MAX,
    ensures
        advance_index(len, Some((len - 1) as usize), false) is None,
        previous_index(len, Some(0usize), false) is None,
{
}

impl Default for Playlist {
    fn default() -> (r: Self)
        ensures
            r.wf(),
            r@.items == Seq::<PlaylistItem>::empty(),
            r@.current is None,
            !r@.repeat,
    {
        Playlist::new()
    }
}

impl Playlist {
    /// Holds whenever the playlist was built and changed through its methods:
    /// the cursor is in range, and the items fit in memory (their count is a
    /// `usize`).
    pub open spec fn wf(&self) -> bool {
        &&& cursor_valid(self@)
        &&& self@.items.len() <= usize::MAX
    }

    pub fn new() -> (r: Self)
        ensures
            r.wf(),
            r@.items == Seq::<PlaylistItem>::empty(),
            r@.current is None,
            !r@.repeat,
    {
        Playlist { items: Vec::new(), current: None, repeat: false }
    }

    pub fn items(&self) -> (r: &[PlaylistItem])
        ensures
            r@ == self@.items,
    {
        self.items.as_slice()
    }

    pub fn current_index(&self) -> (r: Option<usize>)
        ensures
            r == self@.current,
    {
        self.current
    }

    /// The item under the cursor, if any.
    pub fn current(&self) -> (r: Option<&PlaylistItem>)
        ensures
            match self@.current {
                Some(i) => if i < self@.items.len() {
                    r == Some(&self@.items[i as int])
                } else {
                    r is None
                },
                None => r is None,
            },
    {
        match self.current {
            Some(i) => if i < self.items.len() {
                Some(&self.items[i])
            } else {
                None
            },
            None => None,
        }
    }

    pub fn clear(&mut self)
        ensures
            final(self).wf(),
            final(self)@.items == Seq::<PlaylistItem>::empty(),
            final(self)@.current is None,
            final(self)@.repeat == old(self)@.repeat,
    {
        self.items.clear();
        self.current = None;
    }

    /// Replace the items wholesale (restoring a saved playlist); the cursor
    /// is reset.
    pub fn set_items(&mut self, items: Vec<PlaylistItem>)
        ensures
            final(self).wf(),
            final(self)@.items == items@,
            final(self)@.current is None,
            final(self)@.repeat == old(self)@.repeat,
    {
        self.items = items;
        self.current = None;
        // Reading the length brings in that it is a `usize`.
        let _count: usize = self.items.len();
    }

    pub fn len(&self) -> (r: usize)
        ensures
            r == self@.items.len(),
    {
        self.items.len()
    }

    pub fn is_empty(&self) -> (r: bool)
        ensures
            r == (self@.items.len() == 0),
    {
        self.items.len() == 0
    }

    /// Make the item at `index` current and return it; an index past the end
    /// changes nothing and gives `None`.
    pub fn select(&mut self, index: usize) -> (r: Option<PlaylistItem>)
        requires
            old(self).wf(),
        ensures
            final(self).wf(),
            final(self)@.items == old(self)@.items,
            final(self)@.repeat == old(self)@.repeat,
            index < old(self)@.items.len() ==> final(self)@.current == Some(index) && r == Some(
                old(self)@.items[index as int],
            ),
            index >= old(self)@.items.len() ==> final(self)@.current == old(self)@.current
                && r is None,
    {
        if index >= self.items.len() {
            return None;
        }
        self.current = Some(index);
        Some(self.items[index].clone())
    }

    /// Move to the next track (see `advance_index`) and return it. When there
    /// is none, the cursor is cleared and `None` comes back.
    pub fn advance(&mut self) -> (r: Option<PlaylistItem>)
        requires
            old(self).wf(),
        ensures
            final(self).wf(),
            final(self)@.items == old(self)@.items,
            final(self)@.repeat == old(self)@.repeat,
            match advance_index(old(self)@.items.len(), old(self)@.current, old(self)@.repeat) {
                Some(j) => final(self)@.current == Some(j as usize) && r == Some(
                    old(self)@.items[j],
                ),
                None => final(self)@.current is None && r is None,
            },
    {
        let len = self.items.len();
        let next: usize = match self.current {
            Some(i) => {
                if i + 1 < len {
                    i + 1
                } else if self.repeat && len > 0 {
                    0
                } else {
                    self.current = None;
                    return None;
                }
            },
            None => {
                if len > 0 {
                    0
                } else {
                    return None;
                }
            },
        };
        self.current = Some(next);
        Some(self.items[next].clone())
    }

    /// Move to the previous track (see `previous_index`) and return it. When
    /// there is none, nothing changes and `None` comes back.
    pub fn previous(&mut self) -> (r: Option<PlaylistItem>)
        requires
            old(self).wf(),
        ensures
            final(self).wf(),
            final(self)@.items == old(self)@.items,
            final(self)@.repeat == old(self)@.repeat,
            match previous_index(old(self)@.items.len(), old(self)@.current, old(self)@.repeat) {
                Some(j) => final(self)@.current == Some(j as usize) && r == Some(
                    old(self)@.items[j],
                ),
                None => final(self)@.current == old(self)@.current && r is None,
            },
    {
        let len = self.items.len();
        let prev: usize = match self.current {
            Some(i) => {
                if i == 0 {
                    if self.repeat && len > 0 {
                        len - 1
                    } else {
                        return None;
                    }
                } else {
                    i - 1
                }
            },
            None => {
                if len > 0 {
                    0
                } else {
                    return None;
                }
            },
        };
        self.current = Some(prev);
        Some(self.items[prev].clone())
    }

    /// Whether the list wraps around at its ends.
    pub fn repeat(&self) -> (r: bool)
        ensures
            r == self@.repeat,
    {
        self.repeat
    }

    /// Turn wrap-around at the ends of the list on or off.
    pub fn set_repeat(&mut self, repeat: bool)
        ensures
            final(self)@.items == old(self)@.items,
            final(self)@.current == old(self)@.current,
            final(self)@.repeat == repeat,
    {
        self.repeat = repeat;
    }

    /// Append one row per subsong of the file at `path` (see
    /// `items_for_file`) and return how many were added. A file without a
    /// valid NSF/NSFe signature is refused and the playlist is left as it was.
    pub fn append_file(&mut self, path: String, stem: Option<String>, info: NsfFileInfo) -> (r:
        Result<usize, PlaylistError>)
        requires
            old(self).wf(),
        ensures
            final(self).wf(),
            final(self)@.current == old(self)@.current,
            final(self)@.repeat == old(self)@.repeat,
            info.magic_valid <==> r is Ok,
            match r {
                Ok(n) => {
                    &&& n == song_count(info.songs)
                    &&& final(self)@.items.len() == old(self)@.items.len() + n
                    &&& final(self)@.items.subrange(0, old(self)@.items.len() as int)
                        == old(self)@.items
                    &&& file_items_ok(
                        final(self)@.items.subrange(
                            old(self)@.items.len() as int,
                            final(self)@.items.len() as int,
                        ),
                        path@,
                        info,
                        stem,
                    )
                },
                Err(PlaylistError::InvalidNsf { path: p }) => {
                    &&& p@ == path@
                    &&& final(self)@.items == old(self)@.items
                },
            },
    {
        if !info.magic_valid {
            return Err(PlaylistError::InvalidNsf { path });
        }
        let mut items = items_for_file(&path, &stem, &info);
        let added = items.len();
        let ghost old_items = self.items@;
        let ghost new_items = items@;
        self.items.append(&mut items);
        // Reading the length brings in that it is a `usize`.
        let _total: usize = self.items.len();
        proof {
            assert(self.items@.subrange(0, old_items.len() as int) =~= old_items);
            assert(self.items@.subrange(old_items.len() as int, self.items@.len() as int)
                =~= new_items);
        }
        Ok(added)
    }

    /// Empty the playlist, then add the subsongs of one file (see
    /// `append_file`).
    pub fn replace_with_file(&mut self, path: String, stem: Option<String>, info: NsfFileInfo) -> (r:
        Result<usize, PlaylistError>)
        ensures
            final(self).wf(),
            final(self)@.current is None,
            final(self)@.repeat == old(self)@.repeat,
            info.magic_valid <==> r is Ok,
            match r {
                Ok(n) => {
                    &&& n == song_count(info.songs)
                    &&& file_items_ok(final(self)@.items, path@, info, stem)
                },
                Err(PlaylistError::InvalidNsf { path: p }) => {
                    &&& p@ == path@
                    &&& final(self)@.items == Seq::<PlaylistItem>::empty()
                },
            },
    {
        self.clear();
        let r = self.append_file(path, stem, info);
        proof {
            assert(self@.items.subrange(0, self@.items.len() as int) =~= self@.items);
        }
        r
    }
}


/// What one NSFe metadata block says of one track.
#[derive(Debug)]
pub struct TrackMetadata {
    pub title: Option<String>,
    pub duration_seconds: Option<u32>,
}

/// One line of an M3U companion playlist: the 0-indexed subsong it
/// describes, its title and its length in whole seconds.
#[derive(Debug)]
pub struct M3uEntry {
    pub track: u8,
    pub title: String,
    pub duration_secs: Option<u64>,
}

/// What the library needs to know of one NSF/NSFe file to list its subsongs.
#[derive(Debug)]
pub struct NsfFileInfo {
    /// The file starts with a valid NSF or NSFe signature.
    pub magic_valid: bool,
    /// Number of subsongs the header declares.
    pub songs: u8,
    /// NSFe per-track metadata: entry `k` describes track `k + 1`. Empty when
    /// the file carries no NSFe metadata.
    pub nsfe_tracks: Vec<TrackMetadata>,
    /// Entries of the companion M3U file, if one was found.
    pub m3u: Vec<M3uEntry>,
}

/// Why a file could not be added to the playlist.
#[derive(Debug)]
pub enum PlaylistError {
    /// The file is not a valid NSF/NSFe file.
    InvalidNsf { path: String },
}

/// Number of playlist rows a file with `songs` declared subsongs yields:
/// at least one.
pub open spec fn song_count(songs: u8) -> nat {
    if songs == 0 {
        1
    } else {
        songs as nat
    }
}

/// NSFe metadata for the 1-indexed `track`, if the file has any.
pub open spec fn nsfe_entry(tracks: Seq<TrackMetadata>, track: int) -> Option<TrackMetadata> {
    if 1 <= track <= tracks.len() {
        Some(tracks[track - 1])
    } else {
        None
    }
}

/// `k` is the first M3U entry describing the 0-indexed subsong `i`.
pub open spec fn first_m3u_match(entries: Seq<M3uEntry>, i: u8, k: int) -> bool {
    &&& 0 <= k < entries.len()
    &&& entries[k].track == i
    &&& forall|j: int| 0 <= j < k ==> entries[j].track != i
}

/// The M3U entry for the 0-indexed subsong `i` (the first one, should
/// several name it).
pub open spec fn m3u_entry(entries: Seq<M3uEntry>, i: u8) -> Option<M3uEntry> {
    if exists|k: int| first_m3u_match(entries, i, k) {
        Some(entries[choose|k: int| first_m3u_match(entries, i, k)])
    } else {
        None
    }
}

/// Decimal digits of `n`, most significant first, without leading zeros.
pub open spec fn decimal(n: nat) -> Seq<char>
    decreases n,
{
    if n < 10 {
        seq![(48 + n) as char]
    } else {
        decimal(n / 10).push((48 + n % 10) as char)
    }
}

/// The name given to a track that no metadata names: `"<stem> — Track <n>"`.
pub open spec fn fallback_name(stem: Seq<char>, track: u8) -> Seq<char> {
    stem + seq![' ', '\u{2014}', ' ', 'T', 'r', 'a', 'c', 'k', ' '] + decimal(track as nat)
}

/// The file name used in fallback track names: the file stem, or
/// `"Unknown"` when there is none.
pub open spec fn stem_or_unknown(stem: Option<String>) -> Seq<char> {
    match stem {
        Some(s) => s@,
        None => seq!['U', 'n', 'k', 'n', 'o', 'w', 'n'],
    }
}

/// Display name of the 0-indexed subsong `i`: its NSFe title, else its M3U
/// title, else the fallback name.
pub open spec fn track_name(info: NsfFileInfo, stem: Option<String>, i: u8) -> Seq<char> {
    match nsfe_entry(info.nsfe_tracks@, i + 1) {
        Some(TrackMetadata { title: Some(t), .. }) => t@,
        _ => match m3u_entry(info.m3u@, i) {
            Some(e) => e.title@,
            None => fallback_name(stem_or_unknown(stem), (i + 1) as u8),
        },
    }
}

/// Length of the 0-indexed subsong `i`: its NSFe duration, else its M3U
/// duration (whole seconds, cut to 32 bits), else unknown.
pub open spec fn track_duration(info: NsfFileInfo, i: u8) -> Option<u32> {
    match nsfe_entry(info.nsfe_tracks@, i + 1) {
        Some(TrackMetadata { duration_seconds: Some(d), .. }) => Some(d),
        _ => match m3u_entry(info.m3u@, i) {
            Some(M3uEntry { duration_secs: Some(d), .. }) => Some(#[verifier::truncate] (d as u32)),
            _ => None,
        },
    }
}

/// The playlist row made for the 0-indexed subsong `i` of the file at `path`.
pub open spec fn track_item_ok(
    item: PlaylistItem,
    path: Seq<char>,
    info: NsfFileInfo,
    stem: Option<String>,
    i: u8,
) -> bool {
    &&& item.file_path@ == path
    &&& item.track_index == i + 1
    &&& item.display_name@ == track_name(info, stem, i)
    &&& item.duration_seconds == track_duration(info, i)
}

/// `items` lists every subsong of the file, in order.
pub open spec fn file_items_ok(
    items: Seq<PlaylistItem>,
    path: Seq<char>,
    info: NsfFileInfo,
    stem: Option<String>,
) -> bool {
    &&& items.len() == song_count(info.songs)
    &&& forall|k: int|
        0 <= k < items.len() ==> #[trigger] track_item_ok(items[k], path, info, stem, k as u8)
}

/// The one-character text of the decimal digit `d`.
fn digit_text(d: u8) -> (r: &'static str)
    requires
        d < 10,
    ensures
        r@ == seq![(48 + d) as char],
{
    proof {
        reveal_strlit("0");
        reveal_strlit("1");
        reveal_strlit("2");
        reveal_strlit("3");
        reveal_strlit("4");
        reveal_strlit("5");
        reveal_strlit("6");
        reveal_strlit("7");
        reveal_strlit("8");
        reveal_strlit("9");
    }
    match d {
        0 => "0",
        1 => "1",
        2 => "2",
        3 => "3",
        4 => "4",
        5 => "5",
        6 => "6",
        7 => "7",
        8 => "8",
        _ => "9",
    }
}

/// Appends the decimal digits of `n` to `text`.
fn append_decimal(text: &mut String, n: u8)
    ensures
        final(text)@ == old(text)@ + decimal(n as nat),
{
    proof {
        reveal_with_fuel(decimal, 3);
    }
    if n >= 100 {
        text.append(digit_text(n / 100));
    }
    if n >= 10 {
        text.append(digit_text((n / 10) % 10));
    }
    text.append(digit_text(n % 10));
    proof {
        let d = decimal(n as nat);
        if n >= 100 {
            assert(decimal((n / 10) as nat) == decimal((n / 100) as nat).push(
                (48 + (n / 10) % 10) as char,
            ));
            assert(d =~= seq![(48 + n / 100) as char, (48 + (n / 10) % 10) as char, (48 + n % 10) as char]);
        } else if n >= 10 {
            assert(d =~= seq![(48 + (n / 10) % 10) as char, (48 + n % 10) as char]);
        } else {
            assert(d =~= seq![(48 + n % 10) as char]);
        }
    }
}

/// Builds `"<stem> — Track <n>"`.
fn fallback_track_name(stem: &str, track: u8) -> (r: String)
    ensures
        r@ == fallback_name(stem@, track),
{
    let mut name = String::from_str(stem);
    proof {
        reveal_strlit(" \u{2014} Track ");
    }
    name.append(" \u{2014} Track ");
    append_decimal(&mut name, track);
    name
}

/// Position of the first M3U entry for the 0-indexed subsong `i`.
fn find_m3u(entries: &Vec<M3uEntry>, i: u8) -> (r: Option<usize>)
    ensures
        match r {
            Some(k) => first_m3u_match(entries@, i, k as int),
            None => !exists|k: int| first_m3u_match(entries@, i, k),
        },
{
    let mut k: usize = 0;
    while k < entries.len()
        invariant
            k <= entries@.len(),
            forall|j: int| 0 <= j < k ==> entries@[j].track != i,
        decreases entries@.len() - k,
    {
        if entries[k].track == i {
            return Some(k);
        }
        k = k + 1;
    }
    proof {
        assert forall|m: int| !first_m3u_match(entries@, i, m) by {
            if first_m3u_match(entries@, i, m) {
                assert(entries@[m].track != i);
            }
        }
    }
    None
}

/// The M3U entry for subsong `i`, exactly as `m3u_entry` picks it.
proof fn lemma_m3u_entry(entries: Seq<M3uEntry>, i: u8, k: int)
    requires
        first_m3u_match(entries, i, k),
    ensures
        m3u_entry(entries, i) == Some(entries[k]),
{
    let c = choose|m: int| first_m3u_match(entries, i, m);
    assert(first_m3u_match(entries, i, c));
    if c < k {
        assert(entries[c].track != i);
    } else if c > k {
        assert(entries[k].track != i);
    }
}

/// One playlist row per subsong of a parsed NSF/NSFe file, named from the
/// NSFe metadata, then the M3U metadata, then `"<stem> — Track <n>"`.
pub fn items_for_file(path: &String, stem: &Option<String>, info: &NsfFileInfo) -> (r: Vec<
    PlaylistItem,
>)
    ensures
        file_items_ok(r@, path@, *info, *stem),
{
    let count: u8 = if info.songs == 0 {
        1
    } else {
        info.songs
    };
    let mut out: Vec<PlaylistItem> = Vec::new();
    let mut i: u8 = 0;
    while i < count
        invariant
            count as nat == song_count(info.songs),
            i <= count,
            out@.len() == i as nat,
            forall|k: int|
                0 <= k < out@.len() ==> #[trigger] track_item_ok(out@[k], path@, *info, *stem, k as u8),
        decreases count - i,
    {
        let track_index: u8 = i + 1;
        let ti: usize = i as usize;
        let nsfe: Option<&TrackMetadata> = if ti < info.nsfe_tracks.len() {
            Some(&info.nsfe_tracks[ti])
        } else {
            None
        };
        let m3u = find_m3u(&info.m3u, i);
        proof {
            match m3u {
                Some(k) => lemma_m3u_entry(info.m3u@, i, k as int),
                None => {},
            }
        }
        let display_name: String = match nsfe {
            Some(TrackMetadata { title: Some(t), .. }) => t.clone(),
            _ => match m3u {
                Some(k) => info.m3u[k].title.clone(),
                None => match stem {
                    Some(s) => fallback_track_name(s.as_str(), track_index),
                    None => {
                        proof {
                            reveal_strlit("Unknown");
                        }
                        fallback_track_name("Unknown", track_index)
                    },
                },
            },
        };
        let duration_seconds: Option<u32> = match nsfe {
            Some(TrackMetadata { duration_seconds: Some(d), .. }) => Some(*d),
            _ => match m3u {
                Some(k) => match info.m3u[k].duration_secs {
                    Some(d) => Some(#[verifier::truncate] (d as u32)),
                    None => None,
                },
                None => None,
            },
        };
        let item = PlaylistItem {
            file_path: path.clone(),
            track_index,
            display_name,
            duration_seconds,
        };
        proof {
            assert(match nsfe {
                Some(m) => nsfe_entry(info.nsfe_tracks@, i + 1) == Some(*m),
                None => nsfe_entry(info.nsfe_tracks@, i + 1) is None,
            });
            assert(item.display_name@ == track_name(*info, *stem, i));
            assert(item.duration_seconds == track_duration(*info, i));
            assert(track_item_ok(item, path@, *info, *stem, i));
        }
        out.push(item);
        i = i + 1;
    }
    out
}

/// `b` with ASCII `A`..`Z` mapped to `a`..`z`, as `u8::to_ascii_lowercase`.
pub open spec fn ascii_lower(b: u8) -> u8 {
    if 65 <= b <= 90 {
        (b + 32) as u8
    } else {
        b
    }
}

/// A file extension (its bytes, without the dot) that marks an NSF or NSFe
/// file: `nsf` or `nsfe` in any letter case.
pub open spec fn spec_is_nsf_extension(ext: Seq<u8>) -> bool {
    let lower = ext.map_values(|b: u8| ascii_lower(b));
    lower == seq![110u8, 115u8, 102u8] || lower == seq![110u8, 115u8, 102u8, 101u8]
}

/// The extension test in plain terms: three or four bytes, spelling `nsf`
/// or `nsfe` with each letter in either case.
pub proof fn nsf_extension_any_case(ext: Seq<u8>)
    ensures
        spec_is_nsf_extension(ext) <==> {
            &&& ext.len() == 3 || ext.len() == 4
            &&& ext[0] == 110u8 || ext[0] == 78u8
            &&& ext[1] == 115u8 || ext[1] == 83u8
            &&& ext[2] == 102u8 || ext[2] == 70u8
            &&& ext.len() == 4 ==> (ext[3] == 101u8 || ext[3] == 69u8)
        },
{
    let lower = ext.map_values(|b: u8| ascii_lower(b));
    let s3 = seq![110u8, 115u8, 102u8];
    let s4 = seq![110u8, 115u8, 102u8, 101u8];
    if ext.len() == 3 || ext.len() == 4 {
        assert(lower[0] == ascii_lower(ext[0]));
        assert(lower[1] == ascii_lower(ext[1]));
        assert(lower[2] == ascii_lower(ext[2]));
        if ext.len() == 4 {
            assert(lower[3] == ascii_lower(ext[3]));
        }
        assert(s3[0] == 110u8 && s3[1] == 115u8 && s3[2] == 102u8);
        assert(s4[0] == 110u8 && s4[1] == 115u8 && s4[2] == 102u8 && s4[3] == 101u8);
        if ext.len() == 3 {
            if ext[0] == 110u8 || ext[0] == 78u8 {
                if ext[1] == 115u8 || ext[1] == 83u8 {
                    if ext[2] == 102u8 || ext[2] == 70u8 {
                        assert(lower =~= s3);
                    }
                }
            }
        } else {
            if ext[0] == 110u8 || ext[0] == 78u8 {
                if ext[1] == 115u8 || ext[1] == 83u8 {
                    if ext[2] == 102u8 || ext[2] == 70u8 {
                        if ext[3] == 101u8 || ext[3] == 69u8 {
                            assert(lower =~= s4);
                        }
                    }
                }
            }
        }
    } else {
        assert(lower.len() == ext.len());
    }
}

/// Changing the letter case of any one byte never changes whether an
/// extension is taken.
pub proof fn nsf_extension_ignores_case(ext: Seq<u8>, i: int)
    requires
        0 <= i < ext.len(),
        65 <= ext[i] <= 90,
    ensures
        spec_is_nsf_extension(ext) == spec_is_nsf_extension(ext.update(i, (ext[i] + 32) as u8)),
{
    nsf_extension_any_case(ext);
    nsf_extension_any_case(ext.update(i, (ext[i] + 32) as u8));
}

fn to_ascii_lower(b: u8) -> (r: u8)
    ensures
        r == ascii_lower(b),
{
    if 65 <= b && b <= 90 {
        b + 32
    } else {
        b
    }
}

/// Whether a folder walk picks up a file with extension `ext` (its bytes,
/// without the dot).
pub fn is_nsf_extension(ext: &[u8]) -> (r: bool)
    ensures
        r == spec_is_nsf_extension(ext@),
{
    let ghost lower = ext@.map_values(|b: u8| ascii_lower(b));
    let n = ext.len();
    if n != 3 && n != 4 {
        assert(lower.len() == n);
        return false;
    }
    let ok = to_ascii_lower(ext[0]) == 110 && to_ascii_lower(ext[1]) == 115
        && to_ascii_lower(ext[2]) == 102 && (n == 3 || to_ascii_lower(ext[3]) == 101);
    proof {
        assert(lower[0] == ascii_lower(ext@[0]));
        assert(lower[1] == ascii_lower(ext@[1]));
        assert(lower[2] == ascii_lower(ext@[2]));
        if n == 4 {
            assert(lower[3] == ascii_lower(ext@[3]));
        }
        if ok {
            if n == 3 {
                assert(lower =~= seq![110u8, 115u8, 102u8]);
            } else {
                assert(lower =~= seq![110u8, 115u8, 102u8, 101u8]);
            }
        } else {
            let s3 = seq![110u8, 115u8, 102u8];
            let s4 = seq![110u8, 115u8, 102u8, 101u8];
            assert(s3.len() == 3 && s3[0] == 110u8 && s3[1] == 115u8 && s3[2] == 102u8);
            assert(s4.len() == 4 && s4[0] == 110u8 && s4[1] == 115u8 && s4[2] == 102u8
                && s4[3] == 101u8);
            assert(lower.len() == n);
        }
    }
    ok
}

} // verus!
