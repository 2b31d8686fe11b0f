//! Media-manifest parsing for segmented (HLS-style) audio streams.
//!
//! A manifest is a line-oriented text file. This module parses a *media*
//! manifest into an ordered segment list, an optional encryption descriptor
//! (taken from the first key tag), and an optional initialization-segment
//! reference. A *master* manifest — one that declares variant streams —
//! is a hard parse error. Relative segment URIs are resolved against the
//! directory of the manifest's own URL.

use vstd::prelude::*;
use vstd::string::*;
use crate::text::{
    all_digits, contains_seq, contains_sub, digits_val, eq_bytes, find_byte, first_index_of, is_prefix_of,
    last_index_of, lemma_digits_val_bound, lemma_pow10_le, matches_at, parse_digits,
    parse_digits_spec, pow10, rfind_byte, starts_with, sub_to_vec,
};

verus! {

/// One media segment referenced by a manifest.
#[derive(Debug, Clone, PartialEq, Eq)]
pub struct HlsSegment {
    /// Fully resolved segment URL.
    pub uri: Vec<u8>,
    /// Declared duration, in milliseconds.
    pub duration_ms: u64,
    /// Optional `(length, offset)` byte range.
    pub byte_range: Option<(u64, u64)>,
}

/// Encryption descriptor taken from the first key tag of a manifest.
#[derive(Debug, Clone, PartialEq, Eq)]
pub struct HlsEncryption {
    pub method: Vec<u8>,
    pub uri: Option<Vec<u8>>,
    pub iv: Option<Vec<u8>>,
    pub keyformat: Option<Vec<u8>>,
}

/// A parsed media manifest.
#[derive(Debug, Clone, PartialEq, Eq)]
pub struct HlsStream {
    pub segments: Vec<HlsSegment>,
    pub target_duration: u64,
    pub encryption: Option<HlsEncryption>,
    /// Initialization segment URL, to be fetched before any media segment.
    pub init_segment_url: Option<Vec<u8>>,
}

/// Why a manifest was rejected.
#[derive(Clone, Copy, Debug, PartialEq, Eq, Structural)]
pub enum ManifestError {
    /// The input does not begin with the playlist header tag.
    NotAPlaylist,
    /// The input declares variant streams instead of a flat segment list.
    MasterPlaylist,
    /// A tag the parser relies on carries an unreadable value.
    Malformed,
}

#[verifier::ext_equal]
pub struct HlsSegmentView {
    pub uri: Seq<u8>,
    pub duration_ms: u64,
    pub byte_range: Option<(u64, u64)>,
}

#[verifier::ext_equal]
pub struct HlsEncryptionView {
    pub method: Seq<u8>,
    pub uri: Option<Seq<u8>>,
    pub iv: Option<Seq<u8>>,
    pub keyformat: Option<Seq<u8>>,
}

#[verifier::ext_equal]
pub struct HlsStreamView {
    pub segments: Seq<HlsSegmentView>,
    pub target_duration: u64,
    pub encryption: Option<HlsEncryptionView>,
    pub init_segment_url: Option<Seq<u8>>,
}

impl View for HlsSegment {
    type V = HlsSegmentView;

    open spec fn view(&self) -> HlsSegmentView {
        HlsSegmentView { uri: self.uri@, duration_ms: self.duration_ms, byte_range: self.byte_range }
    }
}

impl DeepView for HlsSegment {
    type V = HlsSegmentView;

    open spec fn deep_view(&self) -> HlsSegmentView {
        self@
    }
}

impl View for HlsEncryption {
    type V = HlsEncryptionView;

    open spec fn view(&self) -> HlsEncryptionView {
        HlsEncryptionView {
            method: self.method@,
            uri: self.uri.deep_view(),
            iv: self.iv.deep_view(),
            keyformat: self.keyformat.deep_view(),
        }
    }
}

impl DeepView for HlsEncryption {
    type V = HlsEncryptionView;

    open spec fn deep_view(&self) -> HlsEncryptionView {
        self@
    }
}

impl View for HlsStream {
    type V = HlsStreamView;

    open spec fn view(&self) -> HlsStreamView {
        HlsStreamView {
            segments: self.segments.deep_view(),
            target_duration: self.target_duration,
            encryption: match self.encryption {
                Some(e) => Some(e@),
                None => None,
            },
            init_segment_url: self.init_segment_url.deep_view(),
        }
    }
}

impl DeepView for HlsStream {
    type V = HlsStreamView;

    open spec fn deep_view(&self) -> HlsStreamView {
        self@
    }
}

// ---------------------------------------------------------------------------
// Splitting the input into lines.
// ---------------------------------------------------------------------------

/// Split on LF bytes; `cur` is the part of the current line read so far.
pub open spec fn split_lines_rec(s: Seq<u8>, cur: Seq<u8>) -> Seq<Seq<u8>>
    decreases s.len(),
{
    if s.len() == 0 {
        seq![cur]
    } else if s[0] == 10 {
        seq![cur] + split_lines_rec(s.drop_first(), seq![])
    } else {
        split_lines_rec(s.drop_first(), cur.push(s[0]))
    }
}

/// The lines of `s`, split on LF.
pub open spec fn split_lines(s: Seq<u8>) -> Seq<Seq<u8>> {
    split_lines_rec(s, seq![])
}

/// A line with one trailing CR removed, so CRLF input parses like LF input.
pub open spec fn strip_cr(s: Seq<u8>) -> Seq<u8> {
    if s.len() > 0 && s.last() == 13 {
        s.drop_last()
    } else {
        s
    }
}

/// Split a byte slice into its LF-separated lines.
pub fn split_lines_exec(s: &[u8]) -> (r: Vec<Vec<u8>>)
    ensures
        r.deep_view() == split_lines(s@),
{
    let n = s.len();
    let mut out: Vec<Vec<u8>> = Vec::new();
    let mut cur: Vec<u8> = Vec::new();
    let mut i: usize = 0;
    proof {
        assert(s@.subrange(0, n as int) =~= s@);
        assert(out.deep_view() =~= Seq::<Seq<u8>>::empty());
        assert(Seq::<Seq<u8>>::empty() + split_lines_rec(s@, seq![]) =~= split_lines_rec(
            s@,
            seq![],
        ));
    }
    while i < n
        invariant
            i <= n == s@.len(),
            split_lines(s@) == out.deep_view() + split_lines_rec(
                s@.subrange(i as int, n as int),
                cur@,
            ),
        decreases n - i,
    {
        let b = s[i];
        proof {
            let rest = s@.subrange(i as int, n as int);
            assert(rest[0] == s@[i as int]);
            assert(rest.drop_first() =~= s@.subrange(i + 1, n as int));
        }
        if b == 10 {
            let ghost old_out = out.deep_view();
            let ghost cur_v = cur@;
            out.push(cur);
            cur = Vec::new();
            proof {
                assert(out.deep_view() =~~= old_out.push(cur_v));
                assert(old_out.push(cur_v) + split_lines_rec(s@.subrange(i + 1, n as int), seq![])
                    =~= old_out + (seq![cur_v] + split_lines_rec(
                    s@.subrange(i + 1, n as int),
                    seq![],
                )));
            }
        } else {
            cur.push(b);
        }
        i += 1;
    }
    proof {
        assert(s@.subrange(n as int, n as int) =~= Seq::<u8>::empty());
        assert(split_lines_rec(Seq::<u8>::empty(), cur@) =~= seq![cur@]);
    }
    let ghost old_out = out.deep_view();
    let ghost cur_v = cur@;
    out.push(cur);
    proof {
        assert(out.deep_view() =~~= old_out.push(cur_v));
        assert(old_out + seq![cur_v] =~= old_out.push(cur_v));
    }
    out
}

/// Length of `line` once a trailing CR is dropped.
pub fn stripped_len(line: &[u8]) -> (r: usize)
    ensures
        r <= line@.len(),
        line@.subrange(0, r as int) == strip_cr(line@),
{
    let n = line.len();
    if n > 0 && line[n - 1] == 13 {
        proof {
            assert(line@.subrange(0, n - 1) =~= line@.drop_last());
        }
        n - 1
    } else {
        proof {
            assert(line@.subrange(0, n as int) =~= line@);
        }
        n
    }
}


// ---------------------------------------------------------------------------
// Attribute lists (`NAME=value,NAME="quoted,value",...`).
// ---------------------------------------------------------------------------

/// Split an attribute list on commas, except inside double quotes.
pub open spec fn split_attrs_rec(s: Seq<u8>, cur: Seq<u8>, inq: bool) -> Seq<Seq<u8>>
    decreases s.len(),
{
    if s.len() == 0 {
        seq![cur]
    } else if s[0] == 34 {
        split_attrs_rec(s.drop_first(), cur.push(34), !inq)
    } else if s[0] == 44 && !inq {
        seq![cur] + split_attrs_rec(s.drop_first(), seq![], false)
    } else {
        split_attrs_rec(s.drop_first(), cur.push(s[0]), inq)
    }
}

pub open spec fn split_attrs(s: Seq<u8>) -> Seq<Seq<u8>> {
    split_attrs_rec(s, seq![], false)
}

/// Strip one pair of surrounding double quotes, if present.
pub open spec fn unquote(v: Seq<u8>) -> Seq<u8> {
    if v.len() >= 2 && v[0] == 34 && v.last() == 34 {
        v.subrange(1, v.len() - 1)
    } else {
        v
    }
}

/// The (unquoted) value of the first attribute named `name`, if any.
pub open spec fn attr_value(attrs: Seq<Seq<u8>>, name: Seq<u8>) -> Option<Seq<u8>>
    decreases attrs.len(),
{
    if attrs.len() == 0 {
        None
    } else {
        let a = attrs[0];
        if a.len() > name.len() && a.subrange(0, name.len() as int) == name && a[name.len() as int]
            == 61 {
            Some(unquote(a.subrange(name.len() as int + 1, a.len() as int)))
        } else {
            attr_value(attrs.drop_first(), name)
        }
    }
}

/// Split an attribute list on commas outside quotes.
pub fn split_attrs_exec(s: &[u8]) -> (r: Vec<Vec<u8>>)
    ensures
        r.deep_view() == split_attrs(s@),
{
    let n = s.len();
    let mut out: Vec<Vec<u8>> = Vec::new();
    let mut cur: Vec<u8> = Vec::new();
    let mut inq = false;
    let mut i: usize = 0;
    proof {
        assert(s@.subrange(0, n as int) =~= s@);
        assert(out.deep_view() =~= Seq::<Seq<u8>>::empty());
        assert(Seq::<Seq<u8>>::empty() + split_attrs_rec(s@, seq![], false) =~= split_attrs_rec(
            s@,
            seq![],
            false,
        ));
    }
    while i < n
        invariant
            i <= n == s@.len(),
            split_attrs(s@) == out.deep_view() + split_attrs_rec(
                s@.subrange(i as int, n as int),
                cur@,
                inq,
            ),
        decreases n - i,
    {
        let b = s[i];
        proof {
            let rest = s@.subrange(i as int, n as int);
            assert(rest[0] == s@[i as int]);
            assert(rest.drop_first() =~= s@.subrange(i + 1, n as int));
        }
        if b == 34 {
            cur.push(34);
            inq = !inq;
        } else if b == 44 && !inq {
            let ghost old_out = out.deep_view();
            let ghost cur_v = cur@;
            out.push(cur);
            cur = Vec::new();
            proof {
                assert(out.deep_view() =~~= old_out.push(cur_v));
                assert(old_out.push(cur_v) + split_attrs_rec(
                    s@.subrange(i + 1, n as int),
                    seq![],
                    false,
                ) =~= old_out + (seq![cur_v] + split_attrs_rec(
                    s@.subrange(i + 1, n as int),
                    seq![],
                    false,
                )));
            }
        } else {
            cur.push(b);
        }
        i += 1;
    }
    proof {
        assert(s@.subrange(n as int, n as int) =~= Seq::<u8>::empty());
        assert(split_attrs_rec(Seq::<u8>::empty(), cur@, inq) =~= seq![cur@]);
    }
    let ghost old_out = out.deep_view();
    let ghost cur_v = cur@;
    out.push(cur);
    proof {
        assert(out.deep_view() =~~= old_out.push(cur_v));
        assert(old_out + seq![cur_v] =~= old_out.push(cur_v));
    }
    out
}

/// Strip one pair of surrounding double quotes from an attribute value.
pub fn unquote_exec(v: &[u8]) -> (r: Vec<u8>)
    ensures
        r@ == unquote(v@),
{
    let n = v.len();
    if n >= 2 && v[0] == 34 && v[n - 1] == 34 {
        sub_to_vec(v, 1, n - 1)
    } else {
        sub_to_vec(v, 0, n)
    }
}

/// Look up an attribute by name in a parsed attribute list.
pub fn attr_value_exec(attrs: &Vec<Vec<u8>>, name: &[u8]) -> (r: Option<Vec<u8>>)
    ensures
        match r {
            Some(v) => attr_value(attrs.deep_view(), name@) == Some(v@),
            None => attr_value(attrs.deep_view(), name@) is None,
        },
{
    let nl = name.len();
    let mut i: usize = 0;
    proof {
        assert(attrs.deep_view().skip(0) =~= attrs.deep_view());
    }
    while i < attrs.len()
        invariant
            i <= attrs@.len(),
            attrs.deep_view().len() == attrs@.len(),
            nl == name@.len(),
            attr_value(attrs.deep_view(), name@) == attr_value(
                attrs.deep_view().skip(i as int),
                name@,
            ),
        decreases attrs@.len() - i,
    {
        let a = &attrs[i];
        proof {
            let rem = attrs.deep_view().skip(i as int);
            assert(rem[0] =~= a.deep_view());
            assert(a.deep_view() =~= a@);
            assert(rem.drop_first() =~= attrs.deep_view().skip(i + 1));
        }
        let matches = a.len() > nl && matches_at(a.as_slice(), name, 0) && a[nl] == 61;
        if matches {
            proof {
                let rem = attrs.deep_view().skip(i as int);
                assert(rem[0].subrange(0, name@.len() as int) == a@.subrange(
                    0,
                    name@.len() as int,
                ));
            }
            let v = unquote_exec(&a.as_slice()[nl + 1..a.len()]);
            proof {
                let rem = attrs.deep_view().skip(i as int);
                assert(rem[0].subrange(name@.len() as int + 1, rem[0].len() as int) =~= a@.subrange(
                    nl + 1,
                    a@.len() as int,
                ));
            }
            return Some(v);
        }
        proof {
            let rem = attrs.deep_view().skip(i as int);
            if rem[0].len() > name@.len() && rem[0][name@.len() as int] == 61 {
                assert(rem[0].subrange(0, name@.len() as int) =~= a@.subrange(
                    0,
                    name@.len() as int,
                ));
            }
        }
        i += 1;
    }
    proof {
        assert(attrs.deep_view().skip(attrs@.len() as int) =~= Seq::<Seq<u8>>::empty());
    }
    None
}


// ---------------------------------------------------------------------------
// Numeric tag values and URI resolution.
// ---------------------------------------------------------------------------

/// Milliseconds contributed by a fractional-seconds digit string: the first
/// three digits, padded with zeros on the right.
pub open spec fn frac_ms_spec(fp: Seq<u8>) -> Option<u64> {
    if fp.len() >= 1 && all_digits(fp) {
        if fp.len() >= 3 {
            Some(digits_val(fp.subrange(0, 3)) as u64)
        } else if fp.len() == 2 {
            Some((digits_val(fp) * 10) as u64)
        } else {
            Some((digits_val(fp) * 100) as u64)
        }
    } else {
        None
    }
}

/// A decimal duration in seconds (`SS` or `SS.FFF...`), read as milliseconds.
/// The whole-second part may have at most fifteen digits.
pub open spec fn parse_duration_ms_spec(s: Seq<u8>) -> Option<u64> {
    match first_index_of(s, 46) {
        None => match parse_digits_spec(s, 15) {
            Some(v) => Some((v * 1000) as u64),
            None => None,
        },
        Some(i) => {
            let ip = s.subrange(0, i);
            let fp = s.subrange(i + 1, s.len() as int);
            match (parse_digits_spec(ip, 15), frac_ms_spec(fp)) {
                (Some(v), Some(f)) => Some((v * 1000 + f) as u64),
                _ => None,
            }
        },
    }
}

/// A byte range `LENGTH` or `LENGTH@OFFSET`; a missing offset reads as zero.
pub open spec fn parse_byte_range_spec(s: Seq<u8>) -> Option<(u64, u64)> {
    match first_index_of(s, 64) {
        None => match parse_digits_spec(s, 19) {
            Some(n) => Some((n, 0u64)),
            None => None,
        },
        Some(i) => {
            let np = s.subrange(0, i);
            let op = s.subrange(i + 1, s.len() as int);
            match (parse_digits_spec(np, 19), parse_digits_spec(op, 19)) {
                (Some(n), Some(o)) => Some((n, o)),
                _ => None,
            }
        },
    }
}

fn all_digits_exec(s: &[u8]) -> (r: bool)
    ensures
        r == all_digits(s@),
{
    let mut i: usize = 0;
    while i < s.len()
        invariant
            i <= s@.len(),
            forall|j: int| 0 <= j < i ==> crate::text::is_digit(#[trigger] s@[j]),
        decreases s@.len() - i,
    {
        let b = s[i];
        if b < 48 || b > 57 {
            return false;
        }
        i += 1;
    }
    true
}

fn frac_ms(fp: &[u8]) -> (r: Option<u64>)
    ensures
        r == frac_ms_spec(fp@),
{
    if fp.len() < 1 || !all_digits_exec(fp) {
        return None;
    }
    if fp.len() >= 3 {
        let head = &fp[0..3];
        assert(all_digits(head@));
        let r = parse_digits(head, 3);
        assert(r is Some);
        r
    } else {
        let r = parse_digits(fp, 2);
        match r {
            Some(v) => {
                proof {
                    lemma_digits_val_bound(fp@);
                    lemma_pow10_le(fp@.len() as nat, 2);
                    assert(pow10(2) == 100) by {
                        reveal_with_fuel(pow10, 3);
                    }
                }
                if fp.len() == 2 {
                    Some(v * 10)
                } else {
                    Some(v * 100)
                }
            },
            None => {
                assert(false);
                None
            },
        }
    }
}

/// Parse a decimal duration in seconds into milliseconds.
pub fn parse_duration_ms(s: &[u8]) -> (r: Option<u64>)
    ensures
        r == parse_duration_ms_spec(s@),
{
    proof {
        assert(pow10(15) == 1000000000000000) by {
            reveal_with_fuel(pow10, 16);
        }
    }
    let n = s.len();
    match find_byte(s, 46) {
        None => {
            match parse_digits(s, 15) {
                Some(v) => {
                    proof {
                        lemma_digits_val_bound(s@);
                        lemma_pow10_le(s@.len() as nat, 15);
                    }
                    Some(v * 1000)
                },
                None => None,
            }
        },
        Some(i) => {
            let ip = &s[0..i];
            let fp = &s[i + 1..n];
            let vo = parse_digits(ip, 15);
            let fo = frac_ms(fp);
            match (vo, fo) {
                (Some(v), Some(f)) => {
                    proof {
                        lemma_digits_val_bound(ip@);
                        lemma_pow10_le(ip@.len() as nat, 15);
                        assert(f < 1000) by {
                            if fp@.len() >= 3 {
                                lemma_digits_val_bound(fp@.subrange(0, 3));
                                lemma_pow10_le(3, 3);
                                assert(pow10(3) == 1000) by {
                                    reveal_with_fuel(pow10, 4);
                                }
                            } else {
                                lemma_digits_val_bound(fp@);
                                lemma_pow10_le(fp@.len() as nat, 2);
                                assert(pow10(1) == 10 && pow10(2) == 100) by {
                                    reveal_with_fuel(pow10, 3);
                                }
                            }
                        }
                    }
                    Some(v * 1000 + f)
                },
                _ => None,
            }
        },
    }
}

/// Parse a byte-range tag value.
pub fn parse_byte_range(s: &[u8]) -> (r: Option<(u64, u64)>)
    ensures
        r == parse_byte_range_spec(s@),
{
    let n = s.len();
    match find_byte(s, 64) {
        None => {
            match parse_digits(s, 19) {
                Some(n) => Some((n, 0)),
                None => None,
            }
        },
        Some(i) => {
            let np = &s[0..i];
            let op = &s[i + 1..n];
            match (parse_digits(np, 19), parse_digits(op, 19)) {
                (Some(n), Some(o)) => Some((n, o)),
                _ => None,
            }
        },
    }
}

/// The directory part of a URL: everything before the last slash, or the
/// whole URL when it has no slash.
pub open spec fn base_dir(base: Seq<u8>) -> Seq<u8> {
    match last_index_of(base, 47) {
        Some(i) => base.subrange(0, i),
        None => base,
    }
}

/// Resolve a manifest-relative URI: absolute (`http...`) URIs pass through,
/// others are joined to the manifest URL's directory with a slash.
pub open spec fn resolve_uri(base: Seq<u8>, uri: Seq<u8>) -> Seq<u8> {
    if is_prefix_of("http".spec_bytes(), uri) {
        uri
    } else {
        base_dir(base) + seq![47u8] + uri
    }
}

/// Resolve a segment or init-segment URI against the manifest URL.
pub fn resolve_uri_exec(base: &[u8], uri: &[u8]) -> (r: Vec<u8>)
    ensures
        r@ == resolve_uri(base@, uri@),
{
    if starts_with(uri, "http".as_bytes()) {
        let r = sub_to_vec(uri, 0, uri.len());
        proof {
            assert(uri@.subrange(0, uri@.len() as int) =~= uri@);
        }
        r
    } else {
        let mut r = match rfind_byte(base, 47) {
            Some(i) => sub_to_vec(base, 0, i),
            None => sub_to_vec(base, 0, base.len()),
        };
        proof {
            assert(base@.subrange(0, base@.len() as int) =~= base@);
        }
        let ghost dir = r@;
        r.push(47);
        let mut k: usize = 0;
        while k < uri.len()
            invariant
                k <= uri@.len(),
                r@ =~= dir + seq![47u8] + uri@.subrange(0, k as int),
            decreases uri@.len() - k,
        {
            r.push(uri[k]);
            assert(r@ =~= dir + seq![47u8] + uri@.subrange(0, k + 1));
            k += 1;
        }
        proof {
            assert(uri@.subrange(0, uri@.len() as int) =~= uri@);
        }
        r
    }
}


// ---------------------------------------------------------------------------
// Key and map tags.
// ---------------------------------------------------------------------------

/// Read an encryption descriptor from a key tag's attribute list.
/// The method attribute is mandatory; the others are optional.
pub open spec fn parse_key_spec(rest: Seq<u8>) -> Option<HlsEncryptionView> {
    let attrs = split_attrs(rest);
    match attr_value(attrs, "METHOD".spec_bytes()) {
        Some(m) => Some(
            HlsEncryptionView {
                method: m,
                uri: attr_value(attrs, "URI".spec_bytes()),
                iv: attr_value(attrs, "IV".spec_bytes()),
                keyformat: attr_value(attrs, "KEYFORMAT".spec_bytes()),
            },
        ),
        None => None,
    }
}

/// Read the initialization-segment URI from a map tag's attribute list,
/// resolved against the manifest URL.
pub open spec fn parse_map_spec(rest: Seq<u8>, base: Seq<u8>) -> Option<Seq<u8>> {
    match attr_value(split_attrs(rest), "URI".spec_bytes()) {
        Some(u) => Some(resolve_uri(base, u)),
        None => None,
    }
}

fn parse_key(rest: &[u8]) -> (r: Option<HlsEncryption>)
    ensures
        match r {
            Some(e) => parse_key_spec(rest@) == Some(e@),
            None => parse_key_spec(rest@) is None,
        },
{
    let attrs = split_attrs_exec(rest);
    match attr_value_exec(&attrs, "METHOD".as_bytes()) {
        Some(m) => {
            let uri = attr_value_exec(&attrs, "URI".as_bytes());
            let iv = attr_value_exec(&attrs, "IV".as_bytes());
            let keyformat = attr_value_exec(&attrs, "KEYFORMAT".as_bytes());
            let e = HlsEncryption { method: m, uri, iv, keyformat };
            proof {
                let sp = parse_key_spec(rest@);
                assert(sp matches Some(ev) && ev =~= e@);
            }
            Some(e)
        },
        None => None,
    }
}

fn parse_map(rest: &[u8], base: &[u8]) -> (r: Option<Vec<u8>>)
    ensures
        match r {
            Some(u) => parse_map_spec(rest@, base@) == Some(u@),
            None => parse_map_spec(rest@, base@) is None,
        },
{
    let attrs = split_attrs_exec(rest);
    match attr_value_exec(&attrs, "URI".as_bytes()) {
        Some(u) => Some(resolve_uri_exec(base, u.as_slice())),
        None => None,
    }
}

// ---------------------------------------------------------------------------
// The per-line parsing step and its fold over all lines.
// ---------------------------------------------------------------------------

/// Parser state carried from line to line.
pub struct ParseAcc {
    pub segments: Vec<HlsSegment>,
    pub target_duration: u64,
    pub encryption: Option<HlsEncryption>,
    pub init_segment_url: Option<Vec<u8>>,
    /// Duration from the most recent info tag, not yet attached to a segment.
    pub pending_duration: Option<u64>,
    /// Byte range from the most recent range tag, not yet attached.
    pub pending_range: Option<(u64, u64)>,
    /// Set when a tag value could not be read; the input is then rejected.
    pub failed: bool,
}

#[verifier::ext_equal]
pub struct ParseAccView {
    pub segments: Seq<HlsSegmentView>,
    pub target_duration: u64,
    pub encryption: Option<HlsEncryptionView>,
    pub init_segment_url: Option<Seq<u8>>,
    pub pending_duration: Option<u64>,
    pub pending_range: Option<(u64, u64)>,
    pub failed: bool,
}

impl View for ParseAcc {
    type V = ParseAccView;

    open spec fn view(&self) -> ParseAccView {
        ParseAccView {
            segments: self.segments.deep_view(),
            target_duration: self.target_duration,
            encryption: match self.encryption {
                Some(e) => Some(e@),
                None => None,
            },
            init_segment_url: self.init_segment_url.deep_view(),
            pending_duration: self.pending_duration,
            pending_range: self.pending_range,
            failed: self.failed,
        }
    }
}

/// The parser state before any line is read.
pub open spec fn init_acc() -> ParseAccView {
    ParseAccView {
        segments: seq![],
        target_duration: 0,
        encryption: None,
        init_segment_url: None,
        pending_duration: None,
        pending_range: None,
        failed: false,
    }
}

/// How one manifest line transforms the parser state.
pub open spec fn line_step(acc: ParseAccView, raw: Seq<u8>, base: Seq<u8>) -> ParseAccView {
    let line = strip_cr(raw);
    if acc.failed {
        acc
    } else if line.len() == 0 {
        acc
    } else if is_prefix_of("#EXTINF:".spec_bytes(), line) {
        let rest = line.subrange("#EXTINF:".spec_bytes().len() as int, line.len() as int);
        let val = match first_index_of(rest, 44) {
            Some(c) => rest.subrange(0, c),
            None => rest,
        };
        match parse_duration_ms_spec(val) {
            Some(d) => ParseAccView { pending_duration: Some(d), ..acc },
            None => ParseAccView { failed: true, ..acc },
        }
    } else if is_prefix_of("#EXT-X-TARGETDURATION:".spec_bytes(), line) {
        let rest = line.subrange(
            "#EXT-X-TARGETDURATION:".spec_bytes().len() as int,
            line.len() as int,
        );
        match parse_digits_spec(rest, 19) {
            Some(d) => ParseAccView { target_duration: d, ..acc },
            None => ParseAccView { failed: true, ..acc },
        }
    } else if is_prefix_of("#EXT-X-BYTERANGE:".spec_bytes(), line) {
        let rest = line.subrange("#EXT-X-BYTERANGE:".spec_bytes().len() as int, line.len() as int);
        match parse_byte_range_spec(rest) {
            Some(br) => ParseAccView { pending_range: Some(br), ..acc },
            None => ParseAccView { failed: true, ..acc },
        }
    } else if is_prefix_of("#EXT-X-KEY:".spec_bytes(), line) {
        if acc.encryption is Some {
            acc
        } else {
            let rest = line.subrange("#EXT-X-KEY:".spec_bytes().len() as int, line.len() as int);
            match parse_key_spec(rest) {
                Some(e) => ParseAccView { encryption: Some(e), ..acc },
                None => ParseAccView { failed: true, ..acc },
            }
        }
    } else if is_prefix_of("#EXT-X-MAP:".spec_bytes(), line) {
        if acc.init_segment_url is Some {
            acc
        } else {
            let rest = line.subrange("#EXT-X-MAP:".spec_bytes().len() as int, line.len() as int);
            match parse_map_spec(rest, base) {
                Some(u) => ParseAccView { init_segment_url: Some(u), ..acc },
                None => ParseAccView { failed: true, ..acc },
            }
        }
    } else if line[0] == 35 {
        acc
    } else {
        ParseAccView {
            segments: acc.segments.push(
                HlsSegmentView {
                    uri: resolve_uri(base, line),
                    duration_ms: match acc.pending_duration {
                        Some(d) => d,
                        None => 0,
                    },
                    byte_range: acc.pending_range,
                },
            ),
            pending_duration: None,
            pending_range: None,
            ..acc
        }
    }
}

/// Fold `line_step` over the lines from index `i` on.
pub open spec fn parse_fold(
    lines: Seq<Seq<u8>>,
    base: Seq<u8>,
    i: int,
    acc: ParseAccView,
) -> ParseAccView
    decreases lines.len() - i,
{
    if i < 0 || i >= lines.len() {
        acc
    } else {
        parse_fold(lines, base, i + 1, line_step(acc, lines[i], base))
    }
}


/// Apply one manifest line to the parser state.
fn step_line(acc: &mut ParseAcc, raw: &[u8], base: &[u8])
    ensures
        final(acc)@ == line_step(old(acc)@, raw@, base@),
{
    let ghost target = line_step(old(acc)@, raw@, base@);
    if acc.failed {
        return ;
    }
    let m = stripped_len(raw);
    let line = &raw[0..m];
    proof {
        assert(line@ == strip_cr(raw@));
    }
    let n = line.len();
    if n == 0 {
        return ;
    }
    let tag_inf = "#EXTINF:".as_bytes();
    let tag_td = "#EXT-X-TARGETDURATION:".as_bytes();
    let tag_br = "#EXT-X-BYTERANGE:".as_bytes();
    let tag_key = "#EXT-X-KEY:".as_bytes();
    let tag_map = "#EXT-X-MAP:".as_bytes();
    if starts_with(line, tag_inf) {
        let rest = &line[tag_inf.len()..n];
        let d = match find_byte(rest, 44) {
            Some(c) => parse_duration_ms(&rest[0..c]),
            None => parse_duration_ms(rest),
        };
        match d {
            Some(d) => {
                acc.pending_duration = Some(d);
            },
            None => {
                acc.failed = true;
            },
        }
        assert(acc@ =~~= target);
    } else if starts_with(line, tag_td) {
        let rest = &line[tag_td.len()..n];
        match parse_digits(rest, 19) {
            Some(d) => {
                acc.target_duration = d;
            },
            None => {
                acc.failed = true;
            },
        }
        assert(acc@ =~~= target);
    } else if starts_with(line, tag_br) {
        let rest = &line[tag_br.len()..n];
        match parse_byte_range(rest) {
            Some(br) => {
                acc.pending_range = Some(br);
            },
            None => {
                acc.failed = true;
            },
        }
        assert(acc@ =~~= target);
    } else if starts_with(line, tag_key) {
        if acc.encryption.is_some() {
            assert(acc@ =~~= target);
            return ;
        }
        let rest = &line[tag_key.len()..n];
        match parse_key(rest) {
            Some(e) => {
                acc.encryption = Some(e);
            },
            None => {
                acc.failed = true;
            },
        }
        assert(acc@ =~~= target);
    } else if starts_with(line, tag_map) {
        if acc.init_segment_url.is_some() {
            assert(acc@ =~~= target);
            return ;
        }
        let rest = &line[tag_map.len()..n];
        match parse_map(rest, base) {
            Some(u) => {
                acc.init_segment_url = Some(u);
            },
            None => {
                acc.failed = true;
            },
        }
        assert(acc@ =~~= target);
    } else if line[0] == 35 {
        assert(acc@ =~~= target);
        return ;
    } else {
        let uri = resolve_uri_exec(base, line);
        let dur = match acc.pending_duration {
            Some(d) => d,
            None => 0,
        };
        let seg = HlsSegment { uri, duration_ms: dur, byte_range: acc.pending_range };
        let ghost old_segs = acc.segments.deep_view();
        let ghost seg_v = seg@;
        acc.segments.push(seg);
        acc.pending_duration = None;
        acc.pending_range = None;
        proof {
            assert(acc.segments.deep_view() =~~= old_segs.push(seg_v));
            assert(acc@ =~~= target);
        }
    }
}

// ---------------------------------------------------------------------------
// The manifest parser.
// ---------------------------------------------------------------------------

/// What parsing yields: a stream description for a well-formed media
/// manifest, an error for anything else. A master manifest — one with a
/// variant-stream tag — is always rejected.
pub open spec fn spec_parse_manifest(data: Seq<u8>, base: Seq<u8>) -> Result<
    HlsStreamView,
    ManifestError,
> {
    let lines = split_lines(data);
    if !(lines.len() > 0 && strip_cr(lines[0]) == "#EXTM3U".spec_bytes()) {
        Err(ManifestError::NotAPlaylist)
    } else if exists|i: int|
        0 <= i < lines.len() && is_prefix_of(
            "#EXT-X-STREAM-INF".spec_bytes(),
            #[trigger] strip_cr(lines[i]),
        ) {
        Err(ManifestError::MasterPlaylist)
    } else {
        let acc = parse_fold(lines, base, 0, init_acc());
        if acc.failed {
            Err(ManifestError::Malformed)
        } else {
            Ok(
                HlsStreamView {
                    segments: acc.segments,
                    target_duration: acc.target_duration,
                    encryption: acc.encryption,
                    init_segment_url: acc.init_segment_url,
                },
            )
        }
    }
}

/// Parse a media manifest fetched from `base_url` into a stream description.
pub fn parse_media_playlist(data: &[u8], base_url: &[u8]) -> (r: Result<HlsStream, ManifestError>)
    ensures
        ({
            let sp = spec_parse_manifest(data@, base_url@);
            match r {
                Ok(m) => sp == Ok::<HlsStreamView, ManifestError>(m@),
                Err(e) => sp == Err::<HlsStreamView, ManifestError>(e),
            }
        }),
{
    let lines = split_lines_exec(data);
    let ghost ldv = lines.deep_view();
    let nl = lines.len();
    proof {
        assert(ldv.len() == lines@.len());
    }
    if nl == 0 {
        return Err(ManifestError::NotAPlaylist);
    }
    let first = &lines[0];
    let m0 = stripped_len(first.as_slice());
    let hdr = eq_bytes(&first.as_slice()[0..m0], "#EXTM3U".as_bytes());
    proof {
        assert(ldv[0] =~= first@);
    }
    if !hdr {
        return Err(ManifestError::NotAPlaylist);
    }
    proof {
        assert(strip_cr(ldv[0]) == "#EXTM3U".spec_bytes());
    }
    let tag_master = "#EXT-X-STREAM-INF".as_bytes();
    let mut i: usize = 0;
    while i < nl
        invariant
            i <= nl == lines@.len(),
            nl >= 1,
            ldv == lines.deep_view(),
            ldv.len() == lines@.len(),
            ldv == split_lines(data@),
            tag_master@ == "#EXT-X-STREAM-INF".spec_bytes(),
            strip_cr(ldv[0]) == "#EXTM3U".spec_bytes(),
            forall|j: int|
                0 <= j < i ==> !is_prefix_of(
                    "#EXT-X-STREAM-INF".spec_bytes(),
                    #[trigger] strip_cr(ldv[j]),
                ),
        decreases nl - i,
    {
        let li = &lines[i];
        let sl = li.as_slice();
        let mm = stripped_len(sl);
        let sub = &sl[0..mm];
        proof {
            assert(ldv[i as int] =~= li@);
            assert(sub@ == strip_cr(li@));
        }
        if starts_with(sub, tag_master) {
            proof {
                assert(is_prefix_of("#EXT-X-STREAM-INF".spec_bytes(), strip_cr(ldv[i as int])));
            }
            return Err(ManifestError::MasterPlaylist);
        }
        proof {
            assert(!is_prefix_of("#EXT-X-STREAM-INF".spec_bytes(), strip_cr(ldv[i as int])));
        }
        i += 1;
    }
    let mut acc = ParseAcc {
        segments: Vec::new(),
        target_duration: 0,
        encryption: None,
        init_segment_url: None,
        pending_duration: None,
        pending_range: None,
        failed: false,
    };
    proof {
        assert(acc.segments.deep_view() =~= Seq::<HlsSegmentView>::empty());
        assert(acc@ =~~= init_acc());
    }
    let mut k: usize = 0;
    while k < nl
        invariant
            k <= nl == lines@.len(),
            nl >= 1,
            ldv == lines.deep_view(),
            ldv.len() == lines@.len(),
            ldv == split_lines(data@),
            strip_cr(ldv[0]) == "#EXTM3U".spec_bytes(),
            forall|j: int|
                0 <= j < ldv.len() ==> !is_prefix_of(
                    "#EXT-X-STREAM-INF".spec_bytes(),
                    #[trigger] strip_cr(ldv[j]),
                ),
            parse_fold(ldv, base_url@, 0, init_acc()) == parse_fold(ldv, base_url@, k as int, acc@),
        decreases nl - k,
    {
        let ghost acc_before = acc@;
        proof {
            assert(ldv[k as int] =~= lines@[k as int]@);
        }
        step_line(&mut acc, lines[k].as_slice(), base_url);
        proof {
            assert(parse_fold(ldv, base_url@, k as int, acc_before) == parse_fold(
                ldv,
                base_url@,
                k + 1,
                line_step(acc_before, ldv[k as int], base_url@),
            ));
        }
        k += 1;
    }
    if acc.failed {
        return Err(ManifestError::Malformed);
    }
    let m = HlsStream {
        segments: acc.segments,
        target_duration: acc.target_duration,
        encryption: acc.encryption,
        init_segment_url: acc.init_segment_url,
    };
    proof {
        let sp = spec_parse_manifest(data@, base_url@);
        assert(sp matches Ok(v) && v =~~= m@);
    }
    Ok(m)
}

/// A manifest that declares a variant stream is always rejected: parsing
/// yields an error, never a partially filled stream description.
pub proof fn lemma_master_manifest_rejected(data: Seq<u8>, base: Seq<u8>, i: int)
    requires
        0 <= i < split_lines(data).len(),
        is_prefix_of("#EXT-X-STREAM-INF".spec_bytes(), strip_cr(split_lines(data)[i])),
    ensures
        spec_parse_manifest(data, base) is Err,
        (split_lines(data).len() > 0 && strip_cr(split_lines(data)[0])
            == "#EXTM3U".spec_bytes()) ==> spec_parse_manifest(data, base) == Err::<
            HlsStreamView,
            ManifestError,
        >(ManifestError::MasterPlaylist),
{
    assert(is_prefix_of("#EXT-X-STREAM-INF".spec_bytes(), strip_cr(split_lines(data)[i])));
}

// ---------------------------------------------------------------------------
// Commercial-DRM classification.
// ---------------------------------------------------------------------------

/// The exact commercial-DRM rule: the key format names a known DRM system,
/// or an AES method is combined with a key URI.
pub open spec fn spec_is_commercial_drm(e: HlsEncryptionView) -> bool {
    (e.keyformat matches Some(k) && (contains_seq(k, "playready".spec_bytes()) || contains_seq(
        k,
        "widevine".spec_bytes(),
    ) || contains_seq(k, "fairplay".spec_bytes()) || contains_seq(k, "urn:uuid".spec_bytes())))
        || (contains_seq(e.method, "AES".spec_bytes()) && e.uri is Some)
}

/// Decide whether an encryption descriptor demands the resolver fallback.
pub fn is_commercial_drm(e: &HlsEncryption) -> (r: bool)
    ensures
        r == spec_is_commercial_drm(e@),
{
    let kf_flag = match &e.keyformat {
        Some(k) => {
            proof {
                assert(k.deep_view() =~= k@);
            }
            contains_sub(k.as_slice(), "playready".as_bytes()) || contains_sub(
                k.as_slice(),
                "widevine".as_bytes(),
            ) || contains_sub(k.as_slice(), "fairplay".as_bytes()) || contains_sub(
                k.as_slice(),
                "urn:uuid".as_bytes(),
            )
        },
        None => false,
    };
    kf_flag || (contains_sub(e.method.as_slice(), "AES".as_bytes()) && e.uri.is_some())
}

/// The fallback decision is a function of the method, the key format, and
/// key-URI presence alone — the IV and the key URI's contents never matter.
pub proof fn lemma_drm_rule_inputs(e1: HlsEncryptionView, e2: HlsEncryptionView)
    requires
        e1.method == e2.method,
        e1.keyformat == e2.keyformat,
        e1.uri is Some <==> e2.uri is Some,
    ensures
        spec_is_commercial_drm(e1) == spec_is_commercial_drm(e2),
{
}

} // verus!
