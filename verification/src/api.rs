//! The records exchanged with the NeuroKaraoke API, the loading state of lazily
//! fetched values, and the request details (endpoints, authentication header).
//!
//! Identifiers (UUIDs) are held as their 128-bit value; texts as `String`.

use std::sync::Arc;
use dashmap::DashMap;
use vstd::prelude::*;
use crate::ids::{hyphenated, uuid_string};
use crate::text::{push_str, same_text, string_of};

verus! {

/// The error type carried by a failed load.
#[verifier::external_type_specification]
#[verifier::external_body]
pub struct ExAnyhowError(anyhow::Error);

// ---------------------------------------------------------------------------
// Records
// ---------------------------------------------------------------------------

/// A playlist as listed by the API.
pub struct Playlist {
    pub id: u128,
    pub name: String,
    pub creator: String,
}

/// A playlist with its songs.
pub struct PlaylistDetail {
    pub name: String,
    pub songs: Vec<SongDTO>,
}

/// A song entry of a playlist, with the URL its audio is streamed from.
pub struct SongDTO {
    pub title: String,
    pub audio_url: Option<String>,
    pub cover_art: Option<Artwork>,
    pub original_artists: Vec<String>,
    pub cover_artists: Vec<String>,
    pub play_count: Option<u64>,
    pub stream_date: Option<String>,
    pub duration: Option<u64>,
}

/// The artist credited for a cover artwork.
pub struct Artist {
    pub id: u128,
    pub name: String,
    pub social_link: String,
    pub user_id: Option<u128>,
}

/// A cover artwork.
pub struct Artwork {
    pub id: u128,
    pub file_name: String,
    pub description: String,
    pub cloudflare_id: Option<String>,
    pub absolute_path: String,
    pub artist: Option<Artist>,
}

/// A song of the song database.
pub struct Song {
    pub id: u128,
    pub title: String,
    pub absolute_path: Option<String>,
    pub opus: Option<String>,
    pub cover_artists: Vec<String>,
    pub original_artists: Vec<String>,
    pub cover_art: Option<Artwork>,
}

/// Active authentication context containing the issued session token.
pub struct AuthContext {
    /// JWT bearer token issued by NeuroKaraoke (not raw third-party tokens).
    pub token: String,
    /// Metadata of the authenticated account context.
    pub user: UserClaims,
}

/// The account a token was issued to.
pub struct UserClaims {
    pub id: u128,
    pub username: String,
    pub email: Option<String>,
}

/// Body of the request that trades a Discord access token for a NeuroKaraoke token.
pub struct DiscordTokenRequest {
    /// The access token obtained from Discord's OAuth2 authorization flow.
    pub access_token: String,
}

/// Body of a successful login answer.
pub struct AuthResponse {
    pub token: String,
}

/// The image of a badge.
pub struct BadgeMedia {
    pub id: String,
    pub file_name: String,
    pub content_type: String,
    pub description: Option<String>,
    pub is_animated: bool,
    pub credit: Option<String>,
    pub cloudflare_id: String,
    pub absolute_path: Option<String>,
    pub upvotes: i32,
    pub is_sensitive: Option<bool>,
}

/// A badge of a user profile.
pub struct Badge {
    pub id: String,
    pub name: String,
    pub description: Option<String>,
    pub rarity: i32,
    pub category: Option<String>,
    pub unlocked: bool,
    pub requirement: Option<String>,
    pub media: Option<BadgeMedia>,
    pub unlocked_at: Option<String>,
    pub current_progress: i32,
    pub condition_value: i32,
}

impl DiscordTokenRequest {
    /// The request body for `access_token`.
    pub fn new(access_token: &str) -> (r: Self)
        ensures
            r.access_token@ == access_token@,
    {
        DiscordTokenRequest { access_token: access_token.to_owned() }
    }
}

// ---------------------------------------------------------------------------
// Copies
// ---------------------------------------------------------------------------

fn clone_opt_string(s: &Option<String>) -> (r: Option<String>)
    ensures
        r == *s,
{
    match s {
        Some(v) => Some(v.clone()),
        None => None,
    }
}

fn clone_strings(v: &Vec<String>) -> (r: Vec<String>)
    ensures
        r@ == v@,
{
    let mut r: Vec<String> = Vec::new();
    let mut i: usize = 0;
    while i < v.len()
        invariant
            i <= v.len(),
            r@ == v@.take(i as int),
        decreases v.len() - i,
    {
        r.push(v[i].clone());
        i += 1;
        assert(v@.take(i as int) == v@.take((i - 1) as int).push(v@[i - 1]));
    }
    assert(v@.take(v.len() as int) == v@);
    r
}

impl Clone for Artist {
    fn clone(&self) -> (r: Self)
        ensures
            r == *self,
    {
        Artist {
            id: self.id,
            name: self.name.clone(),
            social_link: self.social_link.clone(),
            user_id: self.user_id,
        }
    }
}

impl Clone for Artwork {
    fn clone(&self) -> (r: Self)
        ensures
            r == *self,
    {
        Artwork {
            id: self.id,
            file_name: self.file_name.clone(),
            description: self.description.clone(),
            cloudflare_id: clone_opt_string(&self.cloudflare_id),
            absolute_path: self.absolute_path.clone(),
            artist: match &self.artist {
                Some(a) => Some(a.clone()),
                None => None,
            },
        }
    }
}

/// The content of a `SongDTO`, its artist lists as sequences.
pub struct SongEntry {
    pub title: String,
    pub audio_url: Option<String>,
    pub cover_art: Option<Artwork>,
    pub original_artists: Seq<String>,
    pub cover_artists: Seq<String>,
    pub play_count: Option<u64>,
    pub stream_date: Option<String>,
    pub duration: Option<u64>,
}

impl View for SongDTO {
    type V = SongEntry;

    open spec fn view(&self) -> SongEntry {
        SongEntry {
            title: self.title,
            audio_url: self.audio_url,
            cover_art: self.cover_art,
            original_artists: self.original_artists@,
            cover_artists: self.cover_artists@,
            play_count: self.play_count,
            stream_date: self.stream_date,
            duration: self.duration,
        }
    }
}

impl Clone for SongDTO {
    fn clone(&self) -> (r: Self)
        ensures
            r@ == self@,
    {
        SongDTO {
            title: self.title.clone(),
            audio_url: clone_opt_string(&self.audio_url),
            cover_art: match &self.cover_art {
                Some(a) => Some(a.clone()),
                None => None,
            },
            original_artists: clone_strings(&self.original_artists),
            cover_artists: clone_strings(&self.cover_artists),
            play_count: self.play_count,
            stream_date: clone_opt_string(&self.stream_date),
            duration: self.duration,
        }
    }
}

/// The content of a `Song`, its artist lists as sequences.
pub struct SongRecord {
    pub id: u128,
    pub title: String,
    pub absolute_path: Option<String>,
    pub opus: Option<String>,
    pub cover_artists: Seq<String>,
    pub original_artists: Seq<String>,
    pub cover_art: Option<Artwork>,
}

impl View for Song {
    type V = SongRecord;

    open spec fn view(&self) -> SongRecord {
        SongRecord {
            id: self.id,
            title: self.title,
            absolute_path: self.absolute_path,
            opus: self.opus,
            cover_artists: self.cover_artists@,
            original_artists: self.original_artists@,
            cover_art: self.cover_art,
        }
    }
}

impl Clone for Song {
    fn clone(&self) -> (r: Self)
        ensures
            r@ == self@,
    {
        Song {
            id: self.id,
            title: self.title.clone(),
            absolute_path: clone_opt_string(&self.absolute_path),
            opus: clone_opt_string(&self.opus),
            cover_artists: clone_strings(&self.cover_artists),
            original_artists: clone_strings(&self.original_artists),
            cover_art: match &self.cover_art {
                Some(a) => Some(a.clone()),
                None => None,
            },
        }
    }
}

// ---------------------------------------------------------------------------
// Loading state
// ---------------------------------------------------------------------------

/// A value fetched in the background: failed, still loading, or loaded.
pub enum LoadingState<T> {
    Failed(Arc<anyhow::Error>),
    Loading,
    Loaded(T),
}

impl<T> LoadingState<T> {
    /// `if_loaded` applied to the loaded value, or `otherwise` when nothing is loaded.
    pub fn if_loaded_or_else<U, F: FnOnce(&T) -> U>(&self, if_loaded: F, otherwise: U) -> (r: U)
        requires
            self matches LoadingState::Loaded(t) ==> if_loaded.requires((&t,)),
        ensures
            self matches LoadingState::Loaded(t) ==> if_loaded.ensures((&t,), r),
            !(self is Loaded) ==> r == otherwise,
    {
        match self {
            LoadingState::Loaded(t) => if_loaded(t),
            _ => otherwise,
        }
    }

    /// The state after a fetch failed with `error`: failed if it was still loading;
    /// a value loaded earlier, or an earlier failure, is kept.
    pub fn fail_if_loading(self, error: Arc<anyhow::Error>) -> (r: Self)
        ensures
            self is Loading ==> r == LoadingState::<T>::Failed(error),
            !(self is Loading) ==> r == self,
    {
        match self {
            LoadingState::Loading => LoadingState::Failed(error),
            other => other,
        }
    }
}

// ---------------------------------------------------------------------------
// Artist lists
// ---------------------------------------------------------------------------

/// An artist as the API may send it: a bare name, or an object with a name and maybe an id.
pub enum PossiblyWithId {
    NoId(String),
    Id { id: Option<u128>, name: String },
}

impl PossiblyWithId {
    pub open spec fn name_of(self) -> Seq<char> {
        match self {
            PossiblyWithId::NoId(name) => name@,
            PossiblyWithId::Id { name, .. } => name@,
        }
    }

    /// The artist's name.
    pub fn into_name(self) -> (r: String)
        ensures
            r@ == self.name_of(),
    {
        match self {
            PossiblyWithId::NoId(name) => name,
            PossiblyWithId::Id { name, .. } => name,
        }
    }
}

/// An artist field as the API may send it: one name, a list, or an optional list.
pub enum MaybeArtists {
    Single(String),
    List(Vec<PossiblyWithId>),
    Optional(Option<Vec<PossiblyWithId>>),
}

/// The artist names a field holds: the single name, the names of the list in order,
/// or none for an absent list.
pub open spec fn artist_names_of(m: MaybeArtists) -> Seq<Seq<char>> {
    match m {
        MaybeArtists::Single(name) => seq![name@],
        MaybeArtists::List(list) => list@.map_values(|a: PossiblyWithId| a.name_of()),
        MaybeArtists::Optional(Some(list)) => list@.map_values(|a: PossiblyWithId| a.name_of()),
        MaybeArtists::Optional(None) => seq![],
    }
}

fn names_of(list: Vec<PossiblyWithId>) -> (r: Vec<String>)
    ensures
        r@.map_values(|s: String| s@) == list@.map_values(|a: PossiblyWithId| a.name_of()),
{
    let ghost orig = list@;
    let mut rest = list;
    let mut r: Vec<String> = Vec::new();
    let ghost mut done: int = 0;
    // take items from the back, then reverse
    while rest.len() > 0
        invariant
            rest@ == orig.take(orig.len() - r.len()),
            r.len() <= orig.len(),
            forall|k: int| 0 <= k < r.len() ==> #[trigger] r@[k]@ == orig[orig.len() - 1 - k].name_of(),
        decreases rest.len(),
    {
        let item = rest.pop().unwrap();
        r.push(item.into_name());
        assert(rest@ =~= orig.take(orig.len() - r.len()));
    }
    let mut out: Vec<String> = Vec::new();
    while r.len() > 0
        invariant
            out.len() + r.len() == orig.len(),
            forall|k: int| 0 <= k < r.len() ==> #[trigger] r@[k]@ == orig[orig.len() - 1 - k].name_of(),
            forall|k: int| 0 <= k < out.len() ==> #[trigger] out@[k]@ == orig[k].name_of(),
        decreases r.len(),
    {
        let s = r.pop().unwrap();
        out.push(s);
    }
    assert(out@.map_values(|s: String| s@) =~= orig.map_values(|a: PossiblyWithId| a.name_of()));
    out
}

/// The artist names a field holds (the field's list of names once decoded).
pub fn artist_names(m: MaybeArtists) -> (r: Vec<String>)
    ensures
        r@.map_values(|s: String| s@) == artist_names_of(m),
{
    match m {
        MaybeArtists::Single(name) => {
            let mut r: Vec<String> = Vec::new();
            r.push(name);
            assert(r@.map_values(|s: String| s@) =~= artist_names_of(m));
            r
        },
        MaybeArtists::List(list) => names_of(list),
        MaybeArtists::Optional(Some(list)) => names_of(list),
        MaybeArtists::Optional(None) => {
            let r: Vec<String> = Vec::new();
            assert(r@.map_values(|s: String| s@) =~= artist_names_of(m));
            r
        },
    }
}

// ---------------------------------------------------------------------------
// Requests
// ---------------------------------------------------------------------------

/// The song database endpoint.
pub const SONGS_API_URL: &'static str = "https://api.neurokaraoke.com/api/songs";

/// The public playlists endpoint.
pub const PUBLIC_PLAYLISTS_URL: &'static str = "https://api.neurokaraoke.com/api/playlist/public";

/// The signed-in user's playlists endpoint.
pub const USER_PLAYLISTS_URL: &'static str = "https://api.neurokaraoke.com/api/user/playlists";

/// The official setlists endpoint.
pub const OFFICIAL_SETLISTS_URL: &'static str = "https://api.neurokaraoke.com/api/playlists?isSetlist=True";

/// The health probe; it answers `Healthy` while the service is up.
pub const HEALTH_URL: &'static str = "https://api.neurokaraoke.com/healthz";

/// The authentication service.
pub const AUTH_HOST: &'static str = "https://idk.neurokaraoke.com";

/// The URL of one song of the database: `SONGS_API_URL`, `/`, the song's UUID.
pub fn song_url(id: u128) -> (u: String)
    ensures
        u@ == SONGS_API_URL@ + "/"@ + hyphenated(id),
{
    let mut out: Vec<char> = Vec::new();
    push_str(&mut out, SONGS_API_URL);
    push_str(&mut out, "/");
    let s = uuid_string(id);
    push_str(&mut out, s.as_str());
    string_of(&out)
}

/// The URL of a playlist's details.
pub fn playlist_details_url(id: u128) -> (u: String)
    ensures
        u@ == "https://api.neurokaraoke.com/api/playlist/"@ + hyphenated(id),
{
    let mut out: Vec<char> = Vec::new();
    push_str(&mut out, "https://api.neurokaraoke.com/api/playlist/");
    let s = uuid_string(id);
    push_str(&mut out, s.as_str());
    string_of(&out)
}

/// The URL that trades a Discord access token for a NeuroKaraoke token.
pub fn discord_token_url(auth_host: &str) -> (u: String)
    ensures
        u@ == auth_host@ + "/api/auth/discord-token"@,
{
    let mut out: Vec<char> = Vec::new();
    push_str(&mut out, auth_host);
    push_str(&mut out, "/api/auth/discord-token");
    string_of(&out)
}

/// Whether the health probe's answer says the service is up.
pub fn is_healthy(body: &str) -> (b: bool)
    ensures
        b == (body@ == "Healthy"@),
{
    same_text(body, "Healthy")
}

/// How a request identifies its sender.
pub enum RequestAuth {
    /// `Authorization: Bearer <token>` for a signed-in user.
    Bearer(String),
    /// `x-guest-id: <id>` for an anonymous one.
    Guest(String),
}

/// A signed-in user sends their token; an anonymous one sends the guest id.
pub fn request_auth(token: Option<&str>, guest_id: &str) -> (r: RequestAuth)
    ensures
        match token {
            Some(t) => r matches RequestAuth::Bearer(b) && b@ == t@,
            None => r matches RequestAuth::Guest(g) && g@ == guest_id@,
        },
{
    match token {
        Some(t) => RequestAuth::Bearer(t.to_owned()),
        None => RequestAuth::Guest(guest_id.to_owned()),
    }
}

/// The start index of the next page of a paged listing, none once a page came back empty.
pub fn next_page_start(start: usize, page_size: usize, batch_len: usize) -> (r: Option<usize>)
    requires
        start + page_size <= usize::MAX,
    ensures
        r == if batch_len == 0 { None } else { Some((start + page_size) as usize) },
{
    if batch_len == 0 { None } else { Some(start + page_size) }
}

// ---------------------------------------------------------------------------
// The song table
// ---------------------------------------------------------------------------

/// The loading state of a value by its content: a failure with the error it carries
/// (shared), still loading, or loaded.
pub enum Loading<V> {
    Failed(Arc<anyhow::Error>),
    Loading,
    Loaded(V),
}

/// The loading state of a song, by its content.
pub open spec fn song_state(s: LoadingState<Song>) -> Loading<SongRecord> {
    match s {
        LoadingState::Failed(e) => Loading::Failed(e),
        LoadingState::Loading => Loading::Loading,
        LoadingState::Loaded(song) => Loading::Loaded(song@),
    }
}

/// Calls `Arc::clone`: another handle to the same error.
#[verifier::external_body]
fn share_error(e: &Arc<anyhow::Error>) -> (r: Arc<anyhow::Error>)
    ensures
        r == *e,
{
    e.clone()
}

/// A copy of a song's loading state.
pub fn copy_song_state(s: &LoadingState<Song>) -> (r: LoadingState<Song>)
    ensures
        song_state(r) == song_state(*s),
{
    match s {
        LoadingState::Failed(e) => LoadingState::Failed(share_error(e)),
        LoadingState::Loading => LoadingState::Loading,
        LoadingState::Loaded(song) => LoadingState::Loaded(song.clone()),
    }
}

/// The songs of a list, loaded, a later entry for an id replacing an earlier one.
pub open spec fn songs_map(s: Seq<(u128, Song)>) -> Map<u128, Loading<SongRecord>>
    decreases s.len(),
{
    if s.len() == 0 {
        Map::empty()
    } else {
        songs_map(s.drop_last()).insert(s.last().0, Loading::Loaded(s.last().1@))
    }
}

/// The songs by id, each loaded, loading or failed, held in a concurrent map used from
/// one owner at a time.
#[verifier::external_body]
pub struct SongTable {
    map: DashMap<u128, LoadingState<Song>>,
}

/// The songs the table holds, by content.
pub uninterp spec fn song_table_contents(table: SongTable) -> Map<u128, Loading<SongRecord>>;

impl SongTable {
    /// Calls `DashMap::new`: an empty map.
    #[verifier::external_body]
    pub(crate) fn new() -> (table: SongTable)
        ensures
            song_table_contents(table).dom().is_empty(),
    {
        SongTable { map: DashMap::new() }
    }

    /// Calls `DashMap::get` and copies the state found.
    #[verifier::external_body]
    pub(crate) fn get(&self, id: u128) -> (r: Option<LoadingState<Song>>)
        ensures
            match r {
                Some(s) => song_table_contents(*self).contains_key(id) && song_state(s) == song_table_contents(*self)[id],
                None => !song_table_contents(*self).contains_key(id),
            },
    {
        self.map.get(&id).map(|r| copy_song_state(r.value()))
    }

    /// Calls `DashMap::insert`: the id now maps to `state`, other ids are unchanged.
    #[verifier::external_body]
    pub(crate) fn insert(&mut self, id: u128, state: LoadingState<Song>)
        ensures
            song_table_contents(*final(self)) == song_table_contents(*old(self)).insert(id, song_state(state)),
    {
        self.map.insert(id, state);
    }

    /// Calls `DashMap::iter` and copies every entry, in the order the map yields them
    /// (that order is not stated).
    #[verifier::external_body]
    pub(crate) fn entries(&self) -> (w: Vec<(u128, LoadingState<Song>)>)
        ensures
            forall|i: int| 0 <= i < w.len() ==> song_table_contents(*self).contains_key(#[trigger] w@[i].0)
                && song_table_contents(*self)[w@[i].0] == song_state(w@[i].1),
            forall|i: int, j: int| 0 <= i < j < w.len() ==> #[trigger] w@[i].0 != #[trigger] w@[j].0,
            forall|id: u128| song_table_contents(*self).contains_key(id) ==> exists|i: int| 0 <= i < w.len() && #[trigger] w@[i].0 == id,
    {
        self.map.iter().map(|r| (*r.key(), copy_song_state(r.value()))).collect()
    }

    /// Looks a song up for display: a loaded song gives `f` of it, a failed or loading one
    /// its state; an unknown id is recorded as loading, and `fetch` says that it must be
    /// fetched now.
    pub fn lookup<T, F: FnOnce(&Song) -> T>(&mut self, id: u128, f: F) -> (r: (LoadingState<T>, bool))
        requires
            forall|s: Song| #[trigger] f.requires((&s,)),
        ensures
            match song_table_contents(*old(self)).get(id) {
                Some(state) => {
                    &&& song_table_contents(*final(self)) == song_table_contents(*old(self))
                    &&& !r.1
                    &&& match state {
                        Loading::Loaded(rec) => r.0 matches LoadingState::Loaded(v)
                            && exists|s: Song| #[trigger] s@ == rec && f.ensures((&s,), v),
                        Loading::Failed(e) => r.0 == LoadingState::<T>::Failed(e),
                        Loading::Loading => r.0 is Loading,
                    }
                },
                None => {
                    &&& song_table_contents(*final(self)) == song_table_contents(*old(self)).insert(id, Loading::Loading)
                    &&& r.1
                    &&& r.0 is Loading
                },
            },
    {
        match self.get(id) {
            Some(LoadingState::Loaded(song)) => {
                let v = f(&song);
                assert(song_table_contents(*old(self)).get(id) == Some(Loading::Loaded(song@)));
                assert(song@ == song@ && f.ensures((&song,), v));
                (LoadingState::Loaded(v), false)
            },
            Some(LoadingState::Failed(e)) => (LoadingState::Failed(e), false),
            Some(LoadingState::Loading) => (LoadingState::Loading, false),
            None => {
                self.insert(id, LoadingState::Loading);
                (LoadingState::Loading, true)
            },
        }
    }

    /// A table holding the given songs, loaded (as read back from the song file); a
    /// later entry for an id replaces an earlier one.
    pub fn from_songs(songs: &Vec<(u128, Song)>) -> (table: SongTable)
        ensures
            song_table_contents(table) == songs_map(songs@),
    {
        let mut table = SongTable::new();
        let mut i: usize = 0;
        while i < songs.len()
            invariant
                i <= songs@.len(),
                song_table_contents(table) == songs_map(songs@.take(i as int)),
            decreases songs@.len() - i,
        {
            let song = songs[i].1.clone();
            table.insert(songs[i].0, LoadingState::Loaded(song));
            i += 1;
            assert(songs@.take(i as int).drop_last() =~= songs@.take(i - 1));
            assert(song_table_contents(table) =~= songs_map(songs@.take(i as int)));
        }
        assert(songs@.take(songs@.len() as int) =~= songs@);
        table
    }

    /// Every entry of the table, each once; the order is the map's.
    pub fn walk(&self) -> (w: Vec<(u128, LoadingState<Song>)>)
        ensures
            forall|i: int| 0 <= i < w.len() ==> song_table_contents(*self).contains_key(#[trigger] w@[i].0)
                && song_table_contents(*self)[w@[i].0] == song_state(w@[i].1),
            forall|i: int, j: int| 0 <= i < j < w.len() ==> #[trigger] w@[i].0 != #[trigger] w@[j].0,
            forall|id: u128| song_table_contents(*self).contains_key(id) ==> exists|i: int| 0 <= i < w.len() && #[trigger] w@[i].0 == id,
    {
        self.entries()
    }

    /// Records the result of loading one song: loaded, or failed with `error`.
    pub fn record(&mut self, id: u128, song: Result<Song, Arc<anyhow::Error>>)
        ensures
            song_table_contents(*final(self)) == song_table_contents(*old(self)).insert(id, match song {
                Ok(s) => Loading::Loaded(s@),
                Err(e) => Loading::Failed(e),
            }),
    {
        match song {
            Ok(s) => self.insert(id, LoadingState::Loaded(s)),
            Err(e) => self.insert(id, LoadingState::Failed(e)),
        }
    }
}

/// The loaded songs of a walk of the table, in walk order.
pub open spec fn loaded_of(w: Seq<(u128, LoadingState<Song>)>) -> Seq<(u128, SongRecord)>
    decreases w.len(),
{
    if w.len() == 0 {
        seq![]
    } else {
        let r = loaded_of(w.drop_last());
        match w.last().1 {
            LoadingState::Loaded(s) => r.push((w.last().0, s@)),
            _ => r,
        }
    }
}

/// The loaded songs of a walk of the table (what the song cache file holds).
pub fn loaded_songs(w: Vec<(u128, LoadingState<Song>)>) -> (r: Vec<(u128, Song)>)
    ensures
        r@.map_values(|p: (u128, Song)| (p.0, p.1@)) == loaded_of(w@),
{
    let ghost orig = w@;
    let mut r: Vec<(u128, Song)> = Vec::new();
    let mut i: usize = 0;
    while i < w.len()
        invariant
            i <= w.len(),
            w@ == orig,
            r@.map_values(|p: (u128, Song)| (p.0, p.1@)) == loaded_of(orig.take(i as int)),
        decreases w.len() - i,
    {
        assert(orig.take(i + 1).drop_last() =~= orig.take(i as int));
        let ghost before = r@;
        match &w[i].1 {
            LoadingState::Loaded(s) => {
                r.push((w[i].0, s.clone()));
                assert(r@.map_values(|p: (u128, Song)| (p.0, p.1@)) =~= before.map_values(|p: (u128, Song)| (p.0, p.1@)).push((orig[i as int].0, s@)));
            },
            _ => {},
        }
        i += 1;
    }
    assert(orig.take(w.len() as int) =~= orig);
    r
}

} // verus!
