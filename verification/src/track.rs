//! The track and user data model, and the stream-selection logic.
//!
//! These types mirror the remote service's JSON shapes; the shell around
//! the library deserializes into its own copies and converts. The methods
//! on [`Track`] — picking the best transcoding and formatting a duration —
//! are the part with logic, and they are verified here.

use vstd::prelude::*;
use vstd::string::*;
use vstd::utf8::encode_utf8;
use crate::text::{contains_seq, contains_sub, eq_bytes};

verus! {

/// A user profile.
#[derive(Debug, Clone)]
pub struct User {
    pub id: u64,
    pub username: String,
    pub avatar_url: Option<String>,
    pub followers_count: u32,
    pub followings_count: u32,
    pub track_count: u32,
    pub playlist_count: u32,
    pub permalink_url: Option<String>,
}

/// Simplified user info embedded in tracks.
#[derive(Debug, Clone)]
pub struct TrackUser {
    pub id: u64,
    pub username: String,
    pub avatar_url: Option<String>,
}

/// An audio transcoding's format.
#[derive(Debug, Clone)]
pub struct TranscodingFormat {
    pub protocol: String,
    pub mime_type: String,
}

/// One audio transcoding option.
#[derive(Debug, Clone)]
pub struct Transcoding {
    pub url: String,
    pub format: TranscodingFormat,
    pub quality: Option<String>,
}

/// Media container with transcoding options.
#[derive(Debug, Clone)]
pub struct Media {
    pub transcodings: Vec<Transcoding>,
}

/// A track. Playlists may return stubs with only an id; `is_complete`
/// tells them apart.
#[derive(Debug, Clone)]
pub struct Track {
    pub id: u64,
    pub title: String,
    pub user: TrackUser,
    pub artwork_url: Option<String>,
    /// Duration in milliseconds.
    pub duration: u64,
    pub media: Option<Media>,
    pub permalink_url: Option<String>,
    pub playback_count: u64,
    pub likes_count: u64,
    /// Token authorizing stream access.
    pub track_authorization: Option<String>,
}

/// A liked track.
#[derive(Debug, Clone)]
pub struct LikeItem {
    pub track: Track,
    pub created_at: String,
}

/// Paginated response of likes.
#[derive(Debug, Clone)]
pub struct LikesResponse {
    pub collection: Vec<LikeItem>,
    pub next_href: Option<String>,
}

/// Paginated response of tracks.
#[derive(Debug, Clone)]
pub struct TracksResponse {
    pub collection: Vec<Track>,
    pub next_href: Option<String>,
}

/// A playlist with its tracks embedded.
#[derive(Debug, Clone)]
pub struct PlaylistWithTracks {
    pub id: u64,
    pub title: String,
    pub artwork_url: Option<String>,
    pub track_count: u32,
    pub tracks: Vec<Track>,
}

/// An album (a kind of playlist).
#[derive(Debug, Clone)]
pub struct Album {
    pub id: u64,
    pub title: String,
    pub artwork_url: Option<String>,
    pub track_count: u32,
    pub release_date: Option<String>,
    pub user: TrackUser,
    pub permalink_url: Option<String>,
}

/// Paginated response of albums.
#[derive(Debug, Clone)]
pub struct AlbumsResponse {
    pub collection: Vec<Album>,
    pub next_href: Option<String>,
}

/// The resolved stream-URL response.
#[derive(Debug, Clone)]
pub struct StreamUrlResponse {
    pub url: String,
}

// ---------------------------------------------------------------------------
// Stream selection.
// ---------------------------------------------------------------------------

/// The UTF-8 bytes of a string value.
pub open spec fn string_bytes(s: String) -> Seq<u8> {
    encode_utf8(s@)
}

/// A direct (progressive) transcoding.
pub open spec fn is_progressive(t: Transcoding) -> bool {
    string_bytes(t.format.protocol) == "progressive".spec_bytes()
}

/// A segmented (hls) transcoding.
pub open spec fn is_hls(t: Transcoding) -> bool {
    string_bytes(t.format.protocol) == "hls".spec_bytes()
}

/// An audio/mpeg transcoding, which decodes most reliably.
pub open spec fn is_mpeg(t: Transcoding) -> bool {
    contains_seq(string_bytes(t.format.mime_type), "mpeg".spec_bytes())
}

/// A transcoding whose URL carries one of the encrypted-stream markers.
pub open spec fn is_encrypted_url(t: Transcoding) -> bool {
    contains_seq(string_bytes(t.url), "ctr-encrypted-hls".spec_bytes()) || contains_seq(
        string_bytes(t.url),
        "cbc-encrypted-hls".spec_bytes(),
    )
}

/// A transcoding whose URL mentions encryption at all. The plain-stream
/// fallback shuns these, a broader test than the two exact markers above.
pub open spec fn mentions_encryption(t: Transcoding) -> bool {
    contains_seq(string_bytes(t.url), "encrypted".spec_bytes())
}

/// Index of the first transcoding satisfying `p`, if any.
pub open spec fn first_where(ts: Seq<Transcoding>, p: spec_fn(Transcoding) -> bool) -> Option<int>
    decreases ts.len(),
{
    if ts.len() == 0 {
        None
    } else if p(ts[0]) {
        Some(0int)
    } else {
        match first_where(ts.drop_first(), p) {
            Some(i) => Some(i + 1),
            None => None,
        }
    }
}

pub proof fn lemma_first_where_found(ts: Seq<Transcoding>, p: spec_fn(Transcoding) -> bool, i: int)
    requires
        0 <= i < ts.len(),
        p(ts[i]),
        forall|j: int| 0 <= j < i ==> !p(ts[j]),
    ensures
        first_where(ts, p) == Some(i),
    decreases ts.len(),
{
    if i == 0 {
    } else {
        assert(p(ts.drop_first()[i - 1]));
        assert(forall|j: int| 0 <= j < i - 1 ==> !p(ts.drop_first()[j]));
        lemma_first_where_found(ts.drop_first(), p, i - 1);
    }
}

pub proof fn lemma_first_where_none(ts: Seq<Transcoding>, p: spec_fn(Transcoding) -> bool)
    requires
        forall|j: int| 0 <= j < ts.len() ==> !p(ts[j]),
    ensures
        first_where(ts, p) is None,
    decreases ts.len(),
{
    if ts.len() > 0 {
        assert(forall|j: int| 0 <= j < ts.drop_first().len() ==> !p(ts.drop_first()[j]));
        lemma_first_where_none(ts.drop_first(), p);
    }
}

/// What `progressive_transcoding` returns: the first progressive mpeg
/// entry, else the first progressive entry, else nothing.
pub open spec fn progressive_choice(ts: Seq<Transcoding>) -> Option<int> {
    match first_where(ts, |t: Transcoding| is_progressive(t) && is_mpeg(t)) {
        Some(i) => Some(i),
        None => first_where(ts, |t: Transcoding| is_progressive(t)),
    }
}

/// What `hls_transcoding` returns: the first hls mpeg entry, else the
/// first hls entry whose URL says nothing of encryption, else nothing.
pub open spec fn hls_choice(ts: Seq<Transcoding>) -> Option<int> {
    match first_where(ts, |t: Transcoding| is_hls(t) && is_mpeg(t)) {
        Some(i) => Some(i),
        None => first_where(ts, |t: Transcoding| is_hls(t) && !mentions_encryption(t)),
    }
}

/// What `encrypted_hls_transcoding` returns: the first entry whose URL
/// marks it as encrypted.
pub open spec fn encrypted_choice(ts: Seq<Transcoding>) -> Option<int> {
    first_where(ts, |t: Transcoding| is_encrypted_url(t))
}

fn is_progressive_exec(t: &Transcoding) -> (r: bool)
    ensures
        r == is_progressive(*t),
{
    eq_bytes(t.format.protocol.as_str().as_bytes(), "progressive".as_bytes())
}

fn is_hls_exec(t: &Transcoding) -> (r: bool)
    ensures
        r == is_hls(*t),
{
    eq_bytes(t.format.protocol.as_str().as_bytes(), "hls".as_bytes())
}

fn is_mpeg_exec(t: &Transcoding) -> (r: bool)
    ensures
        r == is_mpeg(*t),
{
    contains_sub(t.format.mime_type.as_str().as_bytes(), "mpeg".as_bytes())
}

fn is_encrypted_url_exec(t: &Transcoding) -> (r: bool)
    ensures
        r == is_encrypted_url(*t),
{
    contains_sub(t.url.as_str().as_bytes(), "ctr-encrypted-hls".as_bytes()) || contains_sub(
        t.url.as_str().as_bytes(),
        "cbc-encrypted-hls".as_bytes(),
    )
}

fn mentions_encryption_exec(t: &Transcoding) -> (r: bool)
    ensures
        r == mentions_encryption(*t),
{
    contains_sub(t.url.as_str().as_bytes(), "encrypted".as_bytes())
}

/// Find the first matching transcoding in a vector, for a matched pair of
/// an executable test and its specification predicate.
fn find_first_prog_mpeg(ts: &Vec<Transcoding>) -> (r: Option<usize>)
    ensures
        match r {
            Some(i) => first_where(ts@, |t: Transcoding| is_progressive(t) && is_mpeg(t)) == Some(
                i as int,
            ) && i < ts@.len(),
            None => first_where(ts@, |t: Transcoding| is_progressive(t) && is_mpeg(t)) is None,
        },
{
    let ghost p = |t: Transcoding| is_progressive(t) && is_mpeg(t);
    let mut i: usize = 0;
    while i < ts.len()
        invariant
            i <= ts@.len(),
            p == (|t: Transcoding| is_progressive(t) && is_mpeg(t)),
            forall|j: int| 0 <= j < i ==> !p(ts@[j]),
        decreases ts@.len() - i,
    {
        let hit = is_progressive_exec(&ts[i]) && is_mpeg_exec(&ts[i]);
        if hit {
            proof {
                lemma_first_where_found(ts@, p, i as int);
            }
            return Some(i);
        }
        i += 1;
    }
    proof {
        lemma_first_where_none(ts@, p);
    }
    None
}

fn find_first_prog(ts: &Vec<Transcoding>) -> (r: Option<usize>)
    ensures
        match r {
            Some(i) => first_where(ts@, |t: Transcoding| is_progressive(t)) == Some(i as int) && i
                < ts@.len(),
            None => first_where(ts@, |t: Transcoding| is_progressive(t)) is None,
        },
{
    let ghost p = |t: Transcoding| is_progressive(t);
    let mut i: usize = 0;
    while i < ts.len()
        invariant
            i <= ts@.len(),
            p == (|t: Transcoding| is_progressive(t)),
            forall|j: int| 0 <= j < i ==> !p(ts@[j]),
        decreases ts@.len() - i,
    {
        let hit = is_progressive_exec(&ts[i]);
        if hit {
            proof {
                lemma_first_where_found(ts@, p, i as int);
            }
            return Some(i);
        }
        i += 1;
    }
    proof {
        lemma_first_where_none(ts@, p);
    }
    None
}

fn find_first_hls_mpeg(ts: &Vec<Transcoding>) -> (r: Option<usize>)
    ensures
        match r {
            Some(i) => first_where(ts@, |t: Transcoding| is_hls(t) && is_mpeg(t)) == Some(i as int)
                && i < ts@.len(),
            None => first_where(ts@, |t: Transcoding| is_hls(t) && is_mpeg(t)) is None,
        },
{
    let ghost p = |t: Transcoding| is_hls(t) && is_mpeg(t);
    let mut i: usize = 0;
    while i < ts.len()
        invariant
            i <= ts@.len(),
            p == (|t: Transcoding| is_hls(t) && is_mpeg(t)),
            forall|j: int| 0 <= j < i ==> !p(ts@[j]),
        decreases ts@.len() - i,
    {
        let hit = is_hls_exec(&ts[i]) && is_mpeg_exec(&ts[i]);
        if hit {
            proof {
                lemma_first_where_found(ts@, p, i as int);
            }
            return Some(i);
        }
        i += 1;
    }
    proof {
        lemma_first_where_none(ts@, p);
    }
    None
}

fn find_first_hls_clear(ts: &Vec<Transcoding>) -> (r: Option<usize>)
    ensures
        match r {
            Some(i) => first_where(ts@, |t: Transcoding| is_hls(t) && !mentions_encryption(t))
                == Some(i as int) && i < ts@.len(),
            None => first_where(
                ts@,
                |t: Transcoding| is_hls(t) && !mentions_encryption(t),
            ) is None,
        },
{
    let ghost p = |t: Transcoding| is_hls(t) && !mentions_encryption(t);
    let mut i: usize = 0;
    while i < ts.len()
        invariant
            i <= ts@.len(),
            p == (|t: Transcoding| is_hls(t) && !mentions_encryption(t)),
            forall|j: int| 0 <= j < i ==> !p(ts@[j]),
        decreases ts@.len() - i,
    {
        let hit = is_hls_exec(&ts[i]) && !mentions_encryption_exec(&ts[i]);
        if hit {
            proof {
                lemma_first_where_found(ts@, p, i as int);
            }
            return Some(i);
        }
        i += 1;
    }
    proof {
        lemma_first_where_none(ts@, p);
    }
    None
}

fn find_first_encrypted(ts: &Vec<Transcoding>) -> (r: Option<usize>)
    ensures
        match r {
            Some(i) => first_where(ts@, |t: Transcoding| is_encrypted_url(t)) == Some(i as int) && i
                < ts@.len(),
            None => first_where(ts@, |t: Transcoding| is_encrypted_url(t)) is None,
        },
{
    let ghost p = |t: Transcoding| is_encrypted_url(t);
    let mut i: usize = 0;
    while i < ts.len()
        invariant
            i <= ts@.len(),
            p == (|t: Transcoding| is_encrypted_url(t)),
            forall|j: int| 0 <= j < i ==> !p(ts@[j]),
        decreases ts@.len() - i,
    {
        let hit = is_encrypted_url_exec(&ts[i]);
        if hit {
            proof {
                lemma_first_where_found(ts@, p, i as int);
            }
            return Some(i);
        }
        i += 1;
    }
    proof {
        lemma_first_where_none(ts@, p);
    }
    None
}

impl Track {
    /// A complete track, as opposed to a playlist stub that carries only an
    /// id and must be fetched separately.
    pub fn is_complete(&self) -> (r: bool)
        ensures
            r == (self.title@.len() > 0 && self.user.username@.len() > 0),
    {
        !self.title.as_str().is_empty() && !self.user.username.as_str().is_empty()
    }

    /// The first progressive transcoding, preferring mpeg.
    pub fn progressive_transcoding(&self) -> (r: Option<&Transcoding>)
        ensures
            match self.media {
                Option::None => r is None,
                Option::Some(m) => match progressive_choice(m.transcodings@) {
                    Some(i) => r matches Some(t) && *t == m.transcodings@[i],
                    None => r is None,
                },
            },
    {
        match &self.media {
            Some(m) => {
                match find_first_prog_mpeg(&m.transcodings) {
                    Some(i) => Some(&m.transcodings[i]),
                    None => match find_first_prog(&m.transcodings) {
                        Some(i) => Some(&m.transcodings[i]),
                        None => None,
                    },
                }
            },
            None => None,
        }
    }

    /// The first plain segmented transcoding, preferring mpeg; the
    /// fallback skips any entry whose URL mentions encryption.
    pub fn hls_transcoding(&self) -> (r: Option<&Transcoding>)
        ensures
            match self.media {
                Option::None => r is None,
                Option::Some(m) => match hls_choice(m.transcodings@) {
                    Some(i) => r matches Some(t) && *t == m.transcodings@[i],
                    None => r is None,
                },
            },
    {
        match &self.media {
            Some(m) => {
                match find_first_hls_mpeg(&m.transcodings) {
                    Some(i) => Some(&m.transcodings[i]),
                    None => match find_first_hls_clear(&m.transcodings) {
                        Some(i) => Some(&m.transcodings[i]),
                        None => None,
                    },
                }
            },
            None => None,
        }
    }

    /// The first transcoding whose URL marks it as encrypted.
    pub fn encrypted_hls_transcoding(&self) -> (r: Option<&Transcoding>)
        ensures
            match self.media {
                Option::None => r is None,
                Option::Some(m) => match encrypted_choice(m.transcodings@) {
                    Some(i) => r matches Some(t) && *t == m.transcodings@[i],
                    None => r is None,
                },
            },
    {
        match &self.media {
            Some(m) => {
                match find_first_encrypted(&m.transcodings) {
                    Some(i) => Some(&m.transcodings[i]),
                    None => None,
                }
            },
            None => None,
        }
    }

    /// The best available transcoding: plain segmented first, then
    /// progressive, then encrypted segmented as a last resort.
    pub fn best_transcoding(&self) -> (r: Option<&Transcoding>)
        ensures
            match self.media {
                Option::None => r is None,
                Option::Some(m) => ({
                    let ts = m.transcodings@;
                    match hls_choice(ts) {
                        Some(i) => r matches Some(t) && *t == ts[i],
                        None => match progressive_choice(ts) {
                            Some(i) => r matches Some(t) && *t == ts[i],
                            None => match encrypted_choice(ts) {
                                Some(i) => r matches Some(t) && *t == ts[i],
                                None => r is None,
                            },
                        },
                    }
                }),
            },
    {
        if let Some(t) = self.hls_transcoding() {
            return Some(t);
        }
        if let Some(t) = self.progressive_transcoding() {
            return Some(t);
        }
        self.encrypted_hls_transcoding()
    }
}

// ---------------------------------------------------------------------------
// Duration formatting.
// ---------------------------------------------------------------------------

/// The one-character string for a decimal digit.
pub open spec fn digit_str(d: int) -> Seq<char> {
    if d == 0 {
        "0"@
    } else if d == 1 {
        "1"@
    } else if d == 2 {
        "2"@
    } else if d == 3 {
        "3"@
    } else if d == 4 {
        "4"@
    } else if d == 5 {
        "5"@
    } else if d == 6 {
        "6"@
    } else if d == 7 {
        "7"@
    } else if d == 8 {
        "8"@
    } else {
        "9"@
    }
}

/// Decimal digits of `n` as characters, most significant first.
pub open spec fn dec_chars(n: nat) -> Seq<char>
    decreases n,
{
    if n < 10 {
        digit_str(n as int)
    } else {
        dec_chars(n / 10) + digit_str((n % 10) as int)
    }
}

/// A duration in milliseconds as `M:SS`: whole minutes, a colon, and the
/// seconds padded to two digits.
pub open spec fn spec_duration_mmss(duration: u64) -> Seq<char> {
    let ts = duration as nat / 1000;
    let mins = ts / 60;
    let secs = ts % 60;
    dec_chars(mins) + ":"@ + (if secs < 10 {
        "0"@ + digit_str(secs as int)
    } else {
        dec_chars(secs)
    })
}

fn digit_literal(d: u64) -> (r: &'static str)
    requires
        d < 10,
    ensures
        r@ == digit_str(d as int),
{
    if d == 0 {
        "0"
    } else if d == 1 {
        "1"
    } else if d == 2 {
        "2"
    } else if d == 3 {
        "3"
    } else if d == 4 {
        "4"
    } else if d == 5 {
        "5"
    } else if d == 6 {
        "6"
    } else if d == 7 {
        "7"
    } else if d == 8 {
        "8"
    } else {
        "9"
    }
}

fn push_dec_chars(out: &mut String, n: u64)
    ensures
        final(out)@ == old(out)@ + dec_chars(n as nat),
    decreases n,
{
    if n < 10 {
        out.append(digit_literal(n));
        proof {
            assert(out@ =~= old(out)@ + dec_chars(n as nat));
        }
    } else {
        push_dec_chars(out, n / 10);
        out.append(digit_literal(n % 10));
        proof {
            assert(out@ =~= old(out)@ + dec_chars(n as nat));
        }
    }
}

impl Track {
    /// The track duration formatted as minutes and two-digit seconds.
    pub fn duration_formatted(&self) -> (r: String)
        ensures
            r@ == spec_duration_mmss(self.duration),
    {
        let total_secs = self.duration / 1000;
        let mins = total_secs / 60;
        let secs = total_secs % 60;
        let mut out = String::new();
        push_dec_chars(&mut out, mins);
        out.append(":");
        if secs < 10 {
            out.append("0");
            out.append(digit_literal(secs));
        } else {
            push_dec_chars(&mut out, secs);
        }
        proof {
            assert(out@ =~= spec_duration_mmss(self.duration));
        }
        out
    }
}

} // verus!
