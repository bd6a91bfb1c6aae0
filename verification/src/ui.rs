//! What the window shows and decides apart from drawing: page and theme names, the
//! loop button's cycle, time and artist labels, the title search, and when the
//! operating system's media controls and the song list are refreshed.

use vstd::prelude::*;
use crate::api::{Artwork, LoadingState, Song, SongDTO};
use crate::media::{cover_art_thumbnail_url, thumbnail_url_of};
use crate::playback::LoopMode;
use crate::text::{decimal, decimal_pad2, has_prefix, join, push_decimal, push_decimal_pad2, push_str, push_all,
    chars_of, string_of, join_strings};

verus! {

/// The pages of the window.
#[derive(Debug, Clone, Copy, PartialEq, Eq, Structural)]
pub enum ActivityType {
    Home,
    Search,
    Profile,
    Playlists,
    MyPlaylists,
    Setlists,
    Favorites,
}

/// The title of a page.
pub open spec fn activity_title(a: ActivityType) -> Seq<char> {
    match a {
        ActivityType::Home => "Home"@,
        ActivityType::Search => "Search"@,
        ActivityType::Profile => "Profile"@,
        ActivityType::Playlists => "Public Playlists"@,
        ActivityType::MyPlaylists => "My Playlists"@,
        ActivityType::Setlists => "Official Setlists"@,
        ActivityType::Favorites => "Favorites"@,
    }
}

impl ActivityType {
    /// The title of the page, as shown in the navigation and as its heading.
    pub fn as_str(&self) -> (s: &'static str)
        ensures
            s@ == activity_title(*self),
    {
        match self {
            ActivityType::Home => "Home",
            ActivityType::Search => "Search",
            ActivityType::Profile => "Profile",
            ActivityType::Playlists => "Public Playlists",
            ActivityType::MyPlaylists => "My Playlists",
            ActivityType::Setlists => "Official Setlists",
            ActivityType::Favorites => "Favorites",
        }
    }
}

/// The colour themes a user can pick.
#[derive(Debug, Clone, Copy, PartialEq, Eq, Structural)]
pub enum SelectableTheme {
    Neuro,
    Evil,
    Twins,
}

/// The name of a theme.
pub open spec fn theme_name(t: SelectableTheme) -> Seq<char> {
    match t {
        SelectableTheme::Neuro => "Neuro"@,
        SelectableTheme::Evil => "Evil"@,
        SelectableTheme::Twins => "Twins"@,
    }
}

/// The window title under a theme.
pub open spec fn karaoke_name(t: SelectableTheme) -> Seq<char> {
    match t {
        SelectableTheme::Neuro => "Neuro Karaoke"@,
        SelectableTheme::Evil => "Evil Karaoke"@,
        SelectableTheme::Twins => "Twins Karaoke"@,
    }
}

impl SelectableTheme {
    /// The name of the theme, as shown on its button.
    pub fn as_str(&self) -> (s: &'static str)
        ensures
            s@ == theme_name(*self),
    {
        match self {
            SelectableTheme::Neuro => "Neuro",
            SelectableTheme::Evil => "Evil",
            SelectableTheme::Twins => "Twins",
        }
    }

    /// The name shown at the top of the sidebar under the theme.
    pub fn karaoke_str(&self) -> (s: &'static str)
        ensures
            s@ == karaoke_name(*self),
    {
        match self {
            SelectableTheme::Neuro => "Neuro Karaoke",
            SelectableTheme::Evil => "Evil Karaoke",
            SelectableTheme::Twins => "Twins Karaoke",
        }
    }
}

impl Default for SelectableTheme {
    fn default() -> (t: Self)
        ensures
            t == SelectableTheme::Neuro,
    {
        SelectableTheme::Neuro
    }
}

/// The loop mode that a press of the loop button moves to.
pub open spec fn next_loop_mode_of(mode: LoopMode) -> LoopMode {
    match mode {
        LoopMode::Off => LoopMode::All,
        LoopMode::One => LoopMode::Off,
        LoopMode::All => LoopMode::One,
    }
}

/// The loop mode after a press of the loop button: off, then the whole queue, then
/// the current song, then off again.
pub fn next_loop_mode(mode: LoopMode) -> (m: LoopMode)
    ensures
        m == next_loop_mode_of(mode),
{
    match mode {
        LoopMode::Off => LoopMode::All,
        LoopMode::One => LoopMode::Off,
        LoopMode::All => LoopMode::One,
    }
}

/// Three presses of the loop button bring back the mode one started from, and the
/// three modes are all met on the way.
pub proof fn law_loop_button_cycles(mode: LoopMode)
    ensures
        next_loop_mode_of(next_loop_mode_of(next_loop_mode_of(mode))) == mode,
        next_loop_mode_of(mode) != mode,
        next_loop_mode_of(next_loop_mode_of(mode)) != mode,
        next_loop_mode_of(next_loop_mode_of(mode)) != next_loop_mode_of(mode),
{
}

/// A number of seconds as minutes and two-digit seconds (`m:ss`).
pub open spec fn clock_of(secs: nat) -> Seq<char> {
    decimal(secs / 60) + seq![':'] + decimal_pad2(secs % 60)
}

fn push_clock(out: &mut Vec<char>, secs: u64)
    ensures
        final(out)@ == old(out)@ + clock_of(secs as nat),
{
    push_decimal(out, secs / 60);
    out.push(':');
    push_decimal_pad2(out, secs % 60);
    assert(final(out)@ =~= old(out)@ + clock_of(secs as nat));
}

/// A point of a song, in whole seconds, as `m:ss`.
pub fn clock_label(secs: u64) -> (s: String)
    ensures
        s@ == clock_of(secs as nat),
{
    let mut out: Vec<char> = Vec::new();
    push_clock(&mut out, secs);
    assert(out@ =~= clock_of(secs as nat));
    string_of(&out)
}

/// The position and length of the playing song, in whole seconds, as `m:ss / m:ss`.
pub fn progress_label(position_secs: u64, duration_secs: u64) -> (s: String)
    ensures
        s@ == clock_of(position_secs as nat) + " / "@ + clock_of(duration_secs as nat),
{
    let mut out: Vec<char> = Vec::new();
    push_clock(&mut out, position_secs);
    push_str(&mut out, " / ");
    push_clock(&mut out, duration_secs);
    assert(out@ =~= clock_of(position_secs as nat) + " / "@ + clock_of(duration_secs as nat));
    string_of(&out)
}

/// The views of a list of names.
pub open spec fn name_views(names: Seq<String>) -> Seq<Seq<char>> {
    names.map_values(|n: String| n@)
}

/// The artist line of a song: its original artists joined with ` & `, then the
/// cover artists joined likewise in `(feat. ...)`.
pub open spec fn artist_line_of(original: Seq<Seq<char>>, cover: Seq<Seq<char>>) -> Seq<char> {
    join(original, " & "@) + " (feat. "@ + join(cover, " & "@) + ")"@
}

/// The artist line of a song.
pub fn artist_line(original: &Vec<String>, cover: &Vec<String>) -> (s: String)
    ensures
        s@ == artist_line_of(name_views(original@), name_views(cover@)),
{
    let a = join_strings(original, " & ");
    let b = join_strings(cover, " & ");
    let mut out: Vec<char> = Vec::new();
    let ac = chars_of(a.as_str());
    push_all(&mut out, &ac);
    push_str(&mut out, " (feat. ");
    let bc = chars_of(b.as_str());
    push_all(&mut out, &bc);
    push_str(&mut out, ")");
    assert(out@ =~= artist_line_of(name_views(original@), name_views(cover@)));
    string_of(&out)
}

/// What the operating system's media controls show of the playing song.
pub struct NowPlaying {
    pub title: String,
    pub artists: String,
    pub cover_url: String,
}

/// The thumbnail of a cover artwork, or nothing when there is no artwork or it has no image id.
pub open spec fn thumbnail_of(art: Option<Artwork>) -> Seq<char> {
    match art {
        Some(a) => match a.cloudflare_id {
            Some(id) => thumbnail_url_of(id@),
            None => Seq::empty(),
        },
        None => Seq::empty(),
    }
}

fn thumbnail(art: &Option<Artwork>) -> (s: String)
    ensures
        s@ == thumbnail_of(*art),
{
    match art {
        Some(a) => match &a.cloudflare_id {
            Some(id) => cover_art_thumbnail_url(id.as_str()),
            None => String::new(),
        },
        None => String::new(),
    }
}

/// What the media controls show: the song from the song database when it is loaded,
/// else the entry being streamed (with no artists); the cover art of the entry being
/// streamed when there is one, else that of the song; nothing without either.
pub fn now_playing(song: &Option<Song>, streamed: &Option<SongDTO>) -> (r: Option<NowPlaying>)
    ensures
        match (song, streamed) {
            (None, None) => r is None,
            _ => r matches Some(n) && {
                &&& n.title@ == match song { Some(s) => s.title@, None => streamed->Some_0.title@ }
                &&& n.artists@ == match song {
                    Some(s) => artist_line_of(name_views(s.original_artists@), name_views(s.cover_artists@)),
                    None => artist_line_of(Seq::empty(), Seq::empty()),
                }
                &&& n.cover_url@ == match streamed {
                    Some(m) => thumbnail_of(m.cover_art),
                    None => thumbnail_of(song->Some_0.cover_art),
                }
            },
        },
{
    let (title, artists) = match song {
        Some(s) => (s.title.clone(), artist_line(&s.original_artists, &s.cover_artists)),
        None => match streamed {
            Some(m) => {
                let none: Vec<String> = Vec::new();
                assert(name_views(none@) =~= Seq::<Seq<char>>::empty());
                (m.title.clone(), artist_line(&none, &none))
            },
            None => return None,
        },
    };
    let cover_url = match streamed {
        Some(m) => thumbnail(&m.cover_art),
        None => match song {
            Some(s) => thumbnail(&s.cover_art),
            None => String::new(),
        },
    };
    Some(NowPlaying { title, artists, cover_url })
}

/// Whether the media controls of the operating system are to be told the playback
/// state: when the paused flag differs from what they were last told, or, while
/// playing, when more than a second went by since.
pub fn should_update_os_playback(last_paused: Option<bool>, paused: bool, nanos_since_update: u64) -> (b: bool)
    ensures
        b == (last_paused != Some(paused) || (nanos_since_update > 1_000_000_000 && !paused)),
{
    let changed = match last_paused {
        Some(p) => p != paused,
        None => true,
    };
    changed || (nanos_since_update > 1_000_000_000 && !paused)
}

/// Whether the song list is to be fetched again: when it never was, or when at least
/// `expiration_secs` went by since, and only while the API answers.
pub fn should_refresh_songs(last_refresh_nanos: Option<u64>, now_nanos: u64, expiration_secs: u64, online: bool) -> (b: bool)
    requires
        last_refresh_nanos matches Some(t) ==> t <= now_nanos,
    ensures
        b == (online && match last_refresh_nanos {
            Some(t) => now_nanos - t >= expiration_secs * 1_000_000_000,
            None => true,
        }),
{
    let due = match last_refresh_nanos {
        Some(t) => (now_nanos - t) as u128 >= expiration_secs as u128 * 1_000_000_000u128,
        None => true,
    };
    due && online
}

// ---------------------------------------------------------------------------
// Title search
// ---------------------------------------------------------------------------

/// What `str::to_lowercase` gives for a text.
pub uninterp spec fn lowercased(text: Seq<char>) -> Seq<char>;

/// The text in lower case, by `str::to_lowercase`; the result is named, not stated.
#[verifier::external_body]
fn lowercase(text: &str) -> (r: String)
    ensures
        r@ == lowercased(text@),
{
    text.to_lowercase()
}

/// Whether a song's title, in lower case, starts with the search text in lower case.
pub open spec fn title_matches(title: Seq<char>, search: Seq<char>) -> bool {
    has_prefix(lowercased(title), lowercased(search))
}

/// Whether a recorded song is loaded and its title matches the search.
pub open spec fn entry_matches(e: (u128, LoadingState<Song>), search: Seq<char>) -> bool {
    e.1 matches LoadingState::Loaded(s) && title_matches(s.title@, search)
}

/// The ids of the recorded songs that match the search, in the order given.
pub open spec fn search_results_of(w: Seq<(u128, LoadingState<Song>)>, search: Seq<char>) -> Seq<u128>
    decreases w.len(),
{
    if w.len() == 0 {
        seq![]
    } else {
        let rest = search_results_of(w.drop_last(), search);
        if entry_matches(w.last(), search) { rest.push(w.last().0) } else { rest }
    }
}

fn prefix_of(p: &Vec<char>, s: &Vec<char>) -> (r: bool)
    ensures
        r == has_prefix(s@, p@),
{
    if p.len() > s.len() {
        return false;
    }
    let mut i: usize = 0;
    while i < p.len()
        invariant
            p.len() <= s.len(),
            i <= p.len(),
            forall|k: int| 0 <= k < i ==> p@[k] == s@[k],
        decreases p.len() - i,
    {
        if p[i] != s[i] {
            assert(s@.subrange(0, p@.len() as int)[i as int] != p@[i as int]);
            return false;
        }
        i += 1;
    }
    assert(s@.subrange(0, p@.len() as int) =~= p@);
    true
}

/// The ids of the recorded songs whose title starts with the search text, case
/// aside, in the order given.
pub fn search_results(w: &Vec<(u128, LoadingState<Song>)>, search: &str) -> (r: Vec<u128>)
    ensures
        r@ == search_results_of(w@, search@),
{
    let needle_text = lowercase(search);
    let needle = chars_of(needle_text.as_str());
    let mut out: Vec<u128> = Vec::new();
    let mut i: usize = 0;
    while i < w.len()
        invariant
            i <= w@.len(),
            needle@ == lowercased(search@),
            out@ == search_results_of(w@.take(i as int), search@),
        decreases w@.len() - i,
    {
        assert(w@.take(i + 1).drop_last() =~= w@.take(i as int));
        assert(w@.take(i + 1).last() == w@[i as int]);
        match &w[i].1 {
            LoadingState::Loaded(s) => {
                let title = lowercase(s.title.as_str());
                let tc = chars_of(title.as_str());
                if prefix_of(&needle, &tc) {
                    out.push(w[i].0);
                }
            },
            _ => {},
        }
        i += 1;
    }
    assert(w@.take(w@.len() as int) =~= w@);
    out
}

/// The search results are exactly the ids of the loaded songs whose title matches,
/// in the order given.
pub proof fn law_search_results_are_matches(w: Seq<(u128, LoadingState<Song>)>, search: Seq<char>)
    ensures
        forall|i: int| 0 <= i < search_results_of(w, search).len() ==> exists|j: int| 0 <= j < w.len()
            && w[j].0 == #[trigger] search_results_of(w, search)[i] && entry_matches(w[j], search),
        forall|j: int| 0 <= j < w.len() && #[trigger] entry_matches(w[j], search)
            ==> search_results_of(w, search).contains(w[j].0),
        search_results_of(w, search).len() <= w.len(),
    decreases w.len(),
{
    if w.len() > 0 {
        let rest = w.drop_last();
        law_search_results_are_matches(rest, search);
        let r = search_results_of(w, search);
        let rr = search_results_of(rest, search);
        assert forall|i: int| 0 <= i < search_results_of(w, search).len() implies exists|j: int| 0 <= j < w.len()
            && w[j].0 == #[trigger] search_results_of(w, search)[i] && entry_matches(w[j], search) by {
            if i < rr.len() {
                assert(r[i] == rr[i]);
                let j = choose|j: int| 0 <= j < rest.len() && rest[j].0 == rr[i] && entry_matches(rest[j], search);
                assert(w[j] == rest[j]);
                assert(0 <= j < w.len() && w[j].0 == r[i] && entry_matches(w[j], search));
            } else {
                assert(entry_matches(w.last(), search));
                let j = w.len() - 1;
                assert(w[j] == w.last());
                assert(0 <= j < w.len() && w[j].0 == r[i] && entry_matches(w[j], search));
            }
        }
        assert forall|j: int| 0 <= j < w.len() && #[trigger] entry_matches(w[j], search) implies r.contains(w[j].0) by {
            if j < w.len() - 1 {
                assert(rest[j] == w[j]);
                let k = choose|k: int| 0 <= k < rr.len() && rr[k] == w[j].0;
                assert(r[k] == rr[k]);
            } else {
                assert(r[r.len() - 1] == w[j].0);
            }
        }
    } else {
        assert(search_results_of(w, search).len() == 0);
    }
}

/// The first recorded song, in the order given, whose title starts with the search
/// text, case aside.
pub fn first_search_result(w: &Vec<(u128, LoadingState<Song>)>, search: &str) -> (r: Option<u128>)
    ensures
        r == (if search_results_of(w@, search@).len() > 0 { Some(search_results_of(w@, search@)[0]) } else { None }),
{
    let all = search_results(w, search);
    if all.len() > 0 { Some(all[0]) } else { None }
}

/// The playlist after adding search results: the songs it had, then the results.
pub fn with_search_results(playlist: Option<Vec<u128>>, results: Vec<u128>) -> (r: Vec<u128>)
    ensures
        r@ == (match playlist { Some(p) => p@, None => Seq::<u128>::empty() }) + results@,
{
    let mut out = match playlist {
        Some(p) => p,
        None => Vec::new(),
    };
    let ghost before = out@;
    let mut i: usize = 0;
    while i < results.len()
        invariant
            i <= results@.len(),
            out@ == before + results@.take(i as int),
        decreases results@.len() - i,
    {
        out.push(results[i]);
        i += 1;
        assert(out@ =~= before + results@.take(i as int));
    }
    assert(results@.take(results@.len() as int) =~= results@);
    out
}

} // verus!
