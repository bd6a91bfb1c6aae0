//! The state of the profile page: the user's header, avatar, library limits and
//! badges, and which images are still to be fetched.
//!
//! Images are fetched and read from disk by the caller; this module decides what to
//! fetch and records what arrived.

use vstd::prelude::*;
use crate::api::Badge;
use crate::text::{decimal, same_text};

verus! {

/// The header of a user profile.
pub struct ProfileHeader {
    pub user_id: u128,
    pub display_name: String,
    pub avatar_url: Option<String>,
    pub level: i32,
    pub level_title: Option<String>,
    pub total_xp: i32,
    pub total_badges: i32,
    pub unlocked_badges: i32,
    pub xp_to_next_level: i32,
    pub neuro_coin: i32,
    pub evil_coin: i32,
    pub twins_coin: i32,
    pub card_art_url: Option<String>,
    pub frame_theme: i32,
    pub display_item_ids: Vec<String>,
    pub rank_score: i32,
    pub rank_tier: i32,
    pub unlocked_tiers: Vec<i32>,
}

/// The limits of a user's library and how much of them is used.
pub struct UserLimits {
    pub max_songs: i64,
    pub current_song_count: i64,
    pub max_storage_bytes: i64,
    pub used_storage_bytes: i64,
    pub playlist_limit: i64,
    pub current_playlist_count: i64,
    pub song_per_playlist_limit: i64,
}

/// Where an image (the avatar or a badge) stands.
pub enum AvatarState {
    /// Not asked for yet.
    NotLoaded,
    /// Being fetched.
    Downloading,
    /// Fetched; these are the image file's bytes.
    Ready { bytes: Vec<u8> },
}

/// The mathematical value of an [`AvatarState`].
pub enum AvatarView {
    NotLoaded,
    Downloading,
    Ready(Seq<u8>),
}

impl View for AvatarState {
    type V = AvatarView;

    open spec fn view(&self) -> AvatarView {
        match self {
            AvatarState::NotLoaded => AvatarView::NotLoaded,
            AvatarState::Downloading => AvatarView::Downloading,
            AvatarState::Ready { bytes } => AvatarView::Ready(bytes@),
        }
    }
}

/// What arrives for the profile page, after the caller fetched it (and, for images,
/// read the fetched file).
pub enum ProfileEvent {
    HeaderLoaded(ProfileHeader),
    AvatarRead(Vec<u8>),
    LimitsLoaded(UserLimits),
    BadgesLoaded(Vec<Badge>),
    BadgeImageRead(String, Vec<u8>),
}

/// The profile page's state. `badge_images` records badge images by badge id; for
/// each id the latest entry counts (see [`image_of`]).
pub struct ProfileState {
    pub profile_data: Option<ProfileHeader>,
    pub avatar_state: AvatarState,
    pub user_limits: Option<UserLimits>,
    pub badges: Vec<Badge>,
    pub badge_images: Vec<(String, AvatarState)>,
}

/// The state of the image of badge `id`: that of the latest entry for it, if any.
pub open spec fn image_of(images: Seq<(String, AvatarState)>, id: Seq<char>) -> Option<AvatarView>
    decreases images.len(),
{
    if images.len() == 0 {
        None
    } else if images.last().0@ == id {
        Some(images.last().1@)
    } else {
        image_of(images.drop_last(), id)
    }
}

/// The badges whose image is to be fetched, in order: unlocked ones with an image of
/// their own that is not recorded yet, as their id and their image's id.
pub open spec fn to_download(badges: Seq<Badge>, images: Seq<(String, AvatarState)>) -> Seq<(Seq<char>, Seq<char>)>
    decreases badges.len(),
{
    if badges.len() == 0 {
        seq![]
    } else {
        let b = badges.last();
        let rest = to_download(badges.drop_last(), images);
        if b.unlocked && image_of(images, b.id@) is None && b.media is Some {
            rest.push((b.id@, b.media->Some_0.cloudflare_id@))
        } else {
            rest
        }
    }
}

/// A badge whose image is recorded, being fetched or fetched, is never listed for
/// fetching; so a badge's image is fetched once.
pub proof fn law_recorded_images_are_not_fetched(badges: Seq<Badge>, images: Seq<(String, AvatarState)>, id: Seq<char>)
    requires
        image_of(images, id) is Some,
    ensures
        forall|i: int| 0 <= i < to_download(badges, images).len() ==> (#[trigger] to_download(badges, images)[i]).0 != id,
    decreases badges.len(),
{
    if badges.len() > 0 {
        let rest = badges.drop_last();
        law_recorded_images_are_not_fetched(rest, images, id);
        let td = to_download(badges, images);
        let tr = to_download(rest, images);
        assert forall|i: int| 0 <= i < td.len() implies (#[trigger] td[i]).0 != id by {
            if i < tr.len() {
                assert(td[i] == tr[i]);
            } else {
                assert(td[i].0 == badges.last().id@);
            }
        }
    }
}

/// Every unlocked badge with an image of its own that is not recorded is listed for
/// fetching, with its image's id.
pub proof fn law_missing_images_are_fetched(badges: Seq<Badge>, images: Seq<(String, AvatarState)>, j: int)
    requires
        0 <= j < badges.len(),
        badges[j].unlocked,
        image_of(images, badges[j].id@) is None,
        badges[j].media is Some,
    ensures
        to_download(badges, images).contains((badges[j].id@, badges[j].media->Some_0.cloudflare_id@)),
    decreases badges.len(),
{
    let rest = badges.drop_last();
    let td = to_download(badges, images);
    if j < badges.len() - 1 {
        assert(rest[j] == badges[j]);
        law_missing_images_are_fetched(rest, images, j);
        let tr = to_download(rest, images);
        let k = choose|k: int| 0 <= k < tr.len() && tr[k] == (badges[j].id@, badges[j].media->Some_0.cloudflare_id@);
        assert(td[k] == tr[k]);
    } else {
        assert(badges.last() == badges[j]);
        assert(td[td.len() - 1] == (badges[j].id@, badges[j].media->Some_0.cloudflare_id@));
    }
}

/// The colour role of a badge's border, by rarity.
#[derive(Debug, Clone, Copy, PartialEq, Eq, Structural)]
pub enum BadgeTone {
    TextSecondary,
    Primary,
    Accent,
    AccentLight,
    TextMuted,
}

/// The border colour role of a badge of the given rarity: common, rare, epic and
/// legendary badges in rising tones, anything else muted.
pub fn badge_tone(rarity: i32) -> (t: BadgeTone)
    ensures
        t == (if rarity == 0 { BadgeTone::TextSecondary }
            else if rarity == 1 { BadgeTone::Primary }
            else if rarity == 2 { BadgeTone::Accent }
            else if rarity == 3 { BadgeTone::AccentLight }
            else { BadgeTone::TextMuted }),
{
    match rarity {
        0 => BadgeTone::TextSecondary,
        1 => BadgeTone::Primary,
        2 => BadgeTone::Accent,
        3 => BadgeTone::AccentLight,
        _ => BadgeTone::TextMuted,
    }
}

/// The decimal text of an integer, with a minus sign when negative.
pub open spec fn signed_decimal(n: int) -> Seq<char> {
    if n < 0 { seq!['-'] + decimal((-n) as nat) } else { decimal(n as nat) }
}

/// The experience line of a profile: the experience so far, a slash, and the
/// experience at which the next level is reached.
pub fn xp_label(total_xp: i32, xp_to_next_level: i32) -> (s: String)
    requires
        i32::MIN <= total_xp + xp_to_next_level <= i32::MAX,
    ensures
        s@ == signed_decimal(total_xp as int) + seq!['/'] + signed_decimal(total_xp + xp_to_next_level),
{
    let mut out: Vec<char> = Vec::new();
    crate::text::push_signed_decimal(&mut out, total_xp as i64);
    out.push('/');
    crate::text::push_signed_decimal(&mut out, (total_xp + xp_to_next_level) as i64);
    let s = crate::text::string_of(&out);
    assert(s@ =~= signed_decimal(total_xp as int) + seq!['/'] + signed_decimal(total_xp + xp_to_next_level));
    s
}

impl ProfileState {
    /// A page with nothing loaded.
    pub fn new() -> (s: Self)
        ensures
            s.profile_data is None,
            s.avatar_state@ == AvatarView::NotLoaded,
            s.user_limits is None,
            s.badges@.len() == 0,
            s.badge_images@.len() == 0,
    {
        ProfileState {
            profile_data: None,
            avatar_state: AvatarState::NotLoaded,
            user_limits: None,
            badges: Vec::new(),
            badge_images: Vec::new(),
        }
    }

    /// Records what arrived: the header, the avatar's bytes, the limits, the badges,
    /// or the bytes of a badge's image. Everything else is left as it was.
    pub fn apply(&mut self, event: ProfileEvent)
        ensures
            match event {
                ProfileEvent::HeaderLoaded(h) => {
                    &&& final(self).profile_data == Some(h)
                    &&& final(self).avatar_state == old(self).avatar_state
                    &&& final(self).user_limits == old(self).user_limits
                    &&& final(self).badges == old(self).badges
                    &&& final(self).badge_images == old(self).badge_images
                },
                ProfileEvent::AvatarRead(bytes) => {
                    &&& final(self).profile_data == old(self).profile_data
                    &&& final(self).avatar_state@ == AvatarView::Ready(bytes@)
                    &&& final(self).user_limits == old(self).user_limits
                    &&& final(self).badges == old(self).badges
                    &&& final(self).badge_images == old(self).badge_images
                },
                ProfileEvent::LimitsLoaded(l) => {
                    &&& final(self).profile_data == old(self).profile_data
                    &&& final(self).avatar_state == old(self).avatar_state
                    &&& final(self).user_limits == Some(l)
                    &&& final(self).badges == old(self).badges
                    &&& final(self).badge_images == old(self).badge_images
                },
                ProfileEvent::BadgesLoaded(b) => {
                    &&& final(self).profile_data == old(self).profile_data
                    &&& final(self).avatar_state == old(self).avatar_state
                    &&& final(self).user_limits == old(self).user_limits
                    &&& final(self).badges == b
                    &&& final(self).badge_images == old(self).badge_images
                },
                ProfileEvent::BadgeImageRead(id, bytes) => {
                    &&& final(self).profile_data == old(self).profile_data
                    &&& final(self).avatar_state == old(self).avatar_state
                    &&& final(self).user_limits == old(self).user_limits
                    &&& final(self).badges == old(self).badges
                    &&& forall|k: Seq<char>| #[trigger] image_of(final(self).badge_images@, k)
                        == if k == id@ { Some(AvatarView::Ready(bytes@)) } else { image_of(old(self).badge_images@, k) }
                },
            },
    {
        match event {
            ProfileEvent::HeaderLoaded(h) => {
                self.profile_data = Some(h);
            },
            ProfileEvent::AvatarRead(bytes) => {
                self.avatar_state = AvatarState::Ready { bytes };
            },
            ProfileEvent::LimitsLoaded(l) => {
                self.user_limits = Some(l);
            },
            ProfileEvent::BadgesLoaded(b) => {
                self.badges = b;
            },
            ProfileEvent::BadgeImageRead(id, bytes) => {
                let ghost before = self.badge_images@;
                let ghost key = id@;
                self.badge_images.push((id, AvatarState::Ready { bytes }));
                assert(self.badge_images@.drop_last() =~= before);
                assert forall|k: Seq<char>| #[trigger] image_of(self.badge_images@, k)
                    == if k == key { Some(AvatarView::Ready(bytes@)) } else { image_of(before, k) } by {}
            },
        }
    }

    /// The index of the entry that counts for badge `id`, if any.
    fn image_index(&self, id: &str) -> (r: Option<usize>)
        ensures
            match r {
                Some(i) => i < self.badge_images@.len()
                    && image_of(self.badge_images@, id@) == Some(self.badge_images@[i as int].1@),
                None => image_of(self.badge_images@, id@) is None,
            },
    {
        let mut i = self.badge_images.len();
        assert(self.badge_images@.take(i as int) =~= self.badge_images@);
        while i > 0
            invariant
                i <= self.badge_images@.len(),
                image_of(self.badge_images@, id@) == image_of(self.badge_images@.take(i as int), id@),
            decreases i,
        {
            let ghost prefix = self.badge_images@.take(i as int);
            assert(prefix.drop_last() =~= self.badge_images@.take(i - 1));
            if same_text(self.badge_images[i - 1].0.as_str(), id) {
                return Some(i - 1);
            }
            i -= 1;
        }
        assert(self.badge_images@.take(0).len() == 0);
        None
    }

    /// What is recorded of badge `id`'s image, if anything.
    pub fn badge_image(&self, id: &str) -> (r: Option<&AvatarState>)
        ensures
            match r {
                Some(s) => image_of(self.badge_images@, id@) == Some(s@),
                None => image_of(self.badge_images@, id@) is None,
            },
    {
        match self.image_index(id) {
            Some(i) => Some(&self.badge_images[i].1),
            None => None,
        }
    }

    /// Marks badge `id`'s image as being fetched, unless something is recorded of it
    /// already; says whether the fetch is to be started.
    pub fn start_badge_download(&mut self, id: &str) -> (start: bool)
        ensures
            start == (image_of(old(self).badge_images@, id@) is None),
            image_of(final(self).badge_images@, id@) is Some,
            final(self).profile_data == old(self).profile_data,
            final(self).avatar_state == old(self).avatar_state,
            final(self).user_limits == old(self).user_limits,
            final(self).badges == old(self).badges,
            forall|k: Seq<char>| #[trigger] image_of(final(self).badge_images@, k)
                == if k == id@ && start { Some(AvatarView::Downloading) } else { image_of(old(self).badge_images@, k) },
    {
        if self.image_index(id).is_some() {
            return false;
        }
        let ghost before = self.badge_images@;
        let owned = id.to_owned();
        self.badge_images.push((owned, AvatarState::Downloading));
        assert(self.badge_images@.drop_last() =~= before);
        assert forall|k: Seq<char>| #[trigger] image_of(self.badge_images@, k)
            == if k == id@ { Some(AvatarView::Downloading) } else { image_of(before, k) } by {}
        true
    }

    /// The avatar URL of the loaded profile header, if any.
    pub open spec fn avatar_url_view(&self) -> Option<Seq<char>> {
        match self.profile_data {
            Some(h) => match h.avatar_url {
                Some(a) => Some(a@),
                None => None,
            },
            None => None,
        }
    }

    /// The avatar to fetch now: the profile's avatar URL, while nothing of the avatar is
    /// loaded nor being fetched.
    pub fn avatar_to_fetch(&self) -> (r: Option<String>)
        ensures
            (match r { Some(u) => Some(u@), None => None })
                == if self.avatar_state is NotLoaded { self.avatar_url_view() } else { None },
    {
        match (&self.avatar_state, &self.profile_data) {
            (AvatarState::NotLoaded, Some(h)) => match &h.avatar_url {
                Some(a) => Some(a.clone()),
                None => None,
            },
            _ => None,
        }
    }

    /// Marks the avatar as being fetched, unless it is already; says whether the fetch
    /// is to be started.
    pub fn start_avatar_download(&mut self) -> (start: bool)
        ensures
            start == !(old(self).avatar_state is Downloading),
            start ==> final(self).avatar_state@ == AvatarView::Downloading,
            !start ==> final(self).avatar_state == old(self).avatar_state,
            final(self).profile_data == old(self).profile_data,
            final(self).user_limits == old(self).user_limits,
            final(self).badges == old(self).badges,
            final(self).badge_images == old(self).badge_images,
    {
        if let AvatarState::Downloading = self.avatar_state {
            return false;
        }
        self.avatar_state = AvatarState::Downloading;
        true
    }

    /// The badges whose image is to be fetched now, as pairs of the badge's id and its
    /// image's id.
    pub fn badges_to_download(&self) -> (r: Vec<(String, String)>)
        ensures
            r@.map_values(|p: (String, String)| (p.0@, p.1@)) == to_download(self.badges@, self.badge_images@),
    {
        let mut out: Vec<(String, String)> = Vec::new();
        let mut i: usize = 0;
        while i < self.badges.len()
            invariant
                i <= self.badges@.len(),
                out@.map_values(|p: (String, String)| (p.0@, p.1@)) == to_download(self.badges@.take(i as int), self.badge_images@),
            decreases self.badges@.len() - i,
        {
            let b = &self.badges[i];
            let ghost prev = out@;
            assert(self.badges@.take(i + 1).drop_last() =~= self.badges@.take(i as int));
            assert(self.badges@.take(i + 1).last() == self.badges@[i as int]);
            if b.unlocked && self.image_index(b.id.as_str()).is_none() {
                match &b.media {
                    Some(m) => {
                        out.push((b.id.clone(), m.cloudflare_id.clone()));
                        assert(out@.map_values(|p: (String, String)| (p.0@, p.1@))
                            =~= prev.map_values(|p: (String, String)| (p.0@, p.1@)).push((b.id@, m.cloudflare_id@)));
                    },
                    None => {},
                }
            }
            i += 1;
        }
        assert(self.badges@.take(self.badges@.len() as int) =~= self.badges@);
        out
    }
}

} // verus!
