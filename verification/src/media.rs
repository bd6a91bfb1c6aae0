//! Where media is fetched from: audio on the storage host, images on the image host,
//! and the names of cached stream files.

use vstd::prelude::*;
use crate::api::Song;
use crate::ids::uuid_simple;
use crate::text::{chars_of, contains_chars, has_prefix, has_substring, hex_lower, push_all, push_str,
    replace_all, replace_all_chars, starts_with, string_of, trim_leading, trim_start_char};

verus! {

/// The storage host that serves audio files.
pub const STORAGE_BASE: &'static str = "https://storage.neurokaraoke.com/";

/// The audio URL of a database song: its opus file, else its absolute path, on the storage host.
pub open spec fn song_audio_url_of(song: Song) -> Option<Seq<char>> {
    match song.opus {
        Some(p) => Some(STORAGE_BASE@ + p@),
        None => match song.absolute_path {
            Some(p) => Some(STORAGE_BASE@ + p@),
            None => None,
        },
    }
}

/// The audio URL of a database song, if it has an audio file.
pub fn song_audio_url(song: &Song) -> (u: Option<String>)
    ensures
        match u { Some(s) => Some(s@), None => None } == song_audio_url_of(*song),
{
    let path = match &song.opus {
        Some(p) => Some(p),
        None => match &song.absolute_path {
            Some(p) => Some(p),
            None => None,
        },
    };
    match path {
        Some(p) => {
            let mut out: Vec<char> = Vec::new();
            push_str(&mut out, STORAGE_BASE);
            push_str(&mut out, p.as_str());
            Some(string_of(&out))
        },
        None => None,
    }
}

/// The URL a playlist entry's audio is streamed from: absolute URLs as given, paths on
/// the storage host (leading slashes dropped); the bare site host is moved to the
/// storage host, and spaces are written `%20`.
pub open spec fn stream_url_of(audio_url: Seq<char>) -> Seq<char> {
    let absolute = if has_prefix(audio_url, "http://"@) || has_prefix(audio_url, "https://"@) {
        audio_url
    } else {
        STORAGE_BASE@ + trim_leading(audio_url, '/')
    };
    let rehosted = if has_substring(absolute, "https://neurokaraoke.com/"@) {
        replace_all(absolute, "https://neurokaraoke.com/"@, "https://storage.neurokaraoke.com/"@)
    } else {
        absolute
    };
    replace_all(rehosted, " "@, "%20"@)
}

/// The URL a playlist entry's audio is streamed from.
pub fn stream_url(audio_url: &str) -> (u: String)
    ensures
        u@ == stream_url_of(audio_url@),
{
    let mut absolute: Vec<char> = Vec::new();
    if starts_with(audio_url, "http://") || starts_with(audio_url, "https://") {
        push_str(&mut absolute, audio_url);
        assert(absolute@ =~= audio_url@);
    } else {
        push_str(&mut absolute, STORAGE_BASE);
        let cs = chars_of(audio_url);
        let trimmed = trim_start_char(&cs, '/');
        push_all(&mut absolute, &trimmed);
    }
    proof {
        reveal_strlit("https://neurokaraoke.com/");
        reveal_strlit(" ");
    }
    let site = chars_of("https://neurokaraoke.com/");
    let storage = chars_of("https://storage.neurokaraoke.com/");
    let rehosted = if contains_chars(&absolute, &site) {
        replace_all_chars(&absolute, &site, &storage)
    } else {
        absolute
    };
    let space = chars_of(" ");
    let escaped = chars_of("%20");
    let out = replace_all_chars(&rehosted, &space, &escaped);
    string_of(&out)
}

/// The small cover-art image of a song on the image host, by the image's id.
pub open spec fn thumbnail_url_of(cloudflare_id: Seq<char>) -> Seq<char> {
    "https://images.neurokaraoke.com/WxURxyML82UkE7gY-PiBKw/"@ + cloudflare_id + "/w=70,h=70,fit=cover,quality=90"@
}

/// The small cover-art image of a song on the image host.
pub fn cover_art_thumbnail_url(cloudflare_id: &str) -> (u: String)
    ensures
        u@ == thumbnail_url_of(cloudflare_id@),
{
    let mut out: Vec<char> = Vec::new();
    push_str(&mut out, "https://images.neurokaraoke.com/WxURxyML82UkE7gY-PiBKw/");
    push_str(&mut out, cloudflare_id);
    push_str(&mut out, "/w=70,h=70,fit=cover,quality=90");
    string_of(&out)
}

/// The URL of a user's avatar: absolute URLs as given, paths as the public variant on the site.
pub open spec fn avatar_url_of(avatar_url: Seq<char>) -> Seq<char> {
    if has_prefix(avatar_url, "http://"@) || has_prefix(avatar_url, "https://"@) {
        avatar_url
    } else {
        "https://neurokaraoke.com"@ + avatar_url + "/public"@
    }
}

/// The URL of a user's avatar.
pub fn avatar_image_url(avatar_url: &str) -> (u: String)
    ensures
        u@ == avatar_url_of(avatar_url@),
{
    let mut out: Vec<char> = Vec::new();
    if starts_with(avatar_url, "http://") || starts_with(avatar_url, "https://") {
        push_str(&mut out, avatar_url);
        assert(out@ =~= avatar_url@);
    } else {
        push_str(&mut out, "https://neurokaraoke.com");
        push_str(&mut out, avatar_url);
        push_str(&mut out, "/public");
    }
    string_of(&out)
}

/// The public variant of a badge image on the image host.
pub fn badge_image_url(image_path: &str) -> (u: String)
    ensures
        u@ == "https://images.neurokaraoke.com/"@ + image_path@ + "/public"@,
{
    let mut out: Vec<char> = Vec::new();
    push_str(&mut out, "https://images.neurokaraoke.com/");
    push_str(&mut out, image_path);
    push_str(&mut out, "/public");
    string_of(&out)
}

/// The name of the cached stream file of a song: its UUID in simple form and `.mp3`.
pub fn stream_file_name(id: u128) -> (n: String)
    ensures
        n@ == hex_lower(id as nat, 32) + ".mp3"@,
{
    let simple = uuid_simple(id);
    let mut out: Vec<char> = Vec::new();
    push_str(&mut out, simple.as_str());
    push_str(&mut out, ".mp3");
    string_of(&out)
}

// ---------------------------------------------------------------------------
// Laws
// ---------------------------------------------------------------------------

/// Replacing every space leaves none.
pub proof fn lemma_no_space_after_escaping(s: Seq<char>)
    ensures
        !replace_all(s, " "@, "%20"@).contains(' '),
    decreases s.len(),
{
    reveal_strlit(" ");
    reveal_strlit("%20");
    if s.len() > 0 {
        let rest = s.subrange(1, s.len() as int);
        lemma_no_space_after_escaping(rest);
        if has_prefix(s, " "@) {
            assert(s.subrange(" "@.len() as int, s.len() as int) =~= rest);
            let r = replace_all(s, " "@, "%20"@);
            assert(r == "%20"@ + replace_all(rest, " "@, "%20"@));
            assert forall|i: int| 0 <= i < r.len() implies r[i] != ' ' by {
                if i >= 3 {
                    assert(r[i] == replace_all(rest, " "@, "%20"@)[i - 3]);
                }
            }
        } else {
            let r = replace_all(s, " "@, "%20"@);
            assert(s[0] != ' ') by {
                if s[0] == ' ' {
                    assert(s.subrange(0, 1) =~= " "@);
                }
            }
            assert forall|i: int| 0 <= i < r.len() implies r[i] != ' ' by {
                if i >= 1 {
                    assert(r[i] == replace_all(rest, " "@, "%20"@)[i - 1]);
                }
            }
        }
    }
}

/// A stream URL never holds a raw space.
pub proof fn law_stream_url_has_no_space(audio_url: Seq<char>)
    ensures
        !stream_url_of(audio_url).contains(' '),
{
    let absolute = if has_prefix(audio_url, "http://"@) || has_prefix(audio_url, "https://"@) {
        audio_url
    } else {
        STORAGE_BASE@ + trim_leading(audio_url, '/')
    };
    let rehosted = if has_substring(absolute, "https://neurokaraoke.com/"@) {
        replace_all(absolute, "https://neurokaraoke.com/"@, "https://storage.neurokaraoke.com/"@)
    } else {
        absolute
    };
    lemma_no_space_after_escaping(rehosted);
}

/// An absolute `https` URL without spaces and without the bare site host is streamed as given.
pub proof fn law_stream_url_keeps_clean_urls(audio_url: Seq<char>)
    requires
        has_prefix(audio_url, "https://"@),
        !audio_url.contains(' '),
        !has_substring(audio_url, "https://neurokaraoke.com/"@),
    ensures
        stream_url_of(audio_url) == audio_url,
{
    lemma_replace_without_match(audio_url);
}

proof fn lemma_replace_without_match(s: Seq<char>)
    requires
        !s.contains(' '),
    ensures
        replace_all(s, " "@, "%20"@) == s,
    decreases s.len(),
{
    reveal_strlit(" ");
    if s.len() > 0 {
        let rest = s.subrange(1, s.len() as int);
        assert(!rest.contains(' ')) by {
            if rest.contains(' ') {
                let i = choose|i: int| 0 <= i < rest.len() && rest[i] == ' ';
                assert(s[i + 1] == ' ');
            }
        }
        lemma_replace_without_match(rest);
        assert(!has_prefix(s, " "@)) by {
            if has_prefix(s, " "@) {
                assert(s.subrange(0, 1)[0] == ' ');
                assert(s[0] == ' ');
            }
        }
        assert(seq![s[0]] + rest =~= s);
    }
}

} // verus!
