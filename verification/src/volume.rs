//! Interpretation of the sound server's volume report.
//!
//! The system volume is read by asking the sound server's command-line
//! client, whose report lists each channel as `... / NN% / ...` on one
//! line. Running the client is I/O and stays outside the library; what its
//! captured output means — the first percentage among the slash-separated
//! fields — is decided here.

use vstd::prelude::*;
use crate::text::{parse_digits, parse_digits_spec, trim, trim_spec};

verus! {

/// Split on slashes; `cur` is the field read so far.
pub open spec fn split_fields_rec(s: Seq<u8>, cur: Seq<u8>) -> Seq<Seq<u8>>
    decreases s.len(),
{
    if s.len() == 0 {
        seq![cur]
    } else if s[0] == 47 {
        seq![cur] + split_fields_rec(s.drop_first(), seq![])
    } else {
        split_fields_rec(s.drop_first(), cur.push(s[0]))
    }
}

/// `t` with every trailing percent sign removed.
pub open spec fn strip_percents(t: Seq<u8>) -> Seq<u8>
    decreases t.len(),
{
    if t.len() > 0 && t.last() == 37 {
        strip_percents(t.drop_last())
    } else {
        t
    }
}

/// The percentage one field yields: after trimming it must end in a
/// percent sign, and what stands before the signs must read as a number
/// that a 32-bit parse would accept.
pub open spec fn field_percent(f: Seq<u8>) -> Option<u64> {
    let t = trim_spec(f);
    if t.len() > 0 && t.last() == 37 {
        let num = trim_spec(strip_percents(t));
        match parse_digits_spec(num, 10) {
            Some(v) => if v <= u32::MAX {
                Some(v)
            } else {
                None
            },
            None => None,
        }
    } else {
        None
    }
}

/// The first field that yields a percentage.
pub open spec fn first_percent(fields: Seq<Seq<u8>>) -> Option<u64>
    decreases fields.len(),
{
    if fields.len() == 0 {
        None
    } else {
        match field_percent(fields[0]) {
            Some(v) => Some(v),
            None => first_percent(fields.drop_first()),
        }
    }
}

/// What a volume report means: the first `NN%` among its slash-separated
/// fields, as a plain number.
pub open spec fn spec_volume_percent(out: Seq<u8>) -> Option<u64> {
    first_percent(split_fields_rec(out, Seq::<u8>::empty()))
}

/// Split a report into its slash-separated fields.
fn split_fields(s: &[u8]) -> (r: Vec<Vec<u8>>)
    ensures
        r.deep_view() == split_fields_rec(s@, Seq::<u8>::empty()),
{
    let n = s.len();
    let mut out: Vec<Vec<u8>> = Vec::new();
    let mut cur: Vec<u8> = Vec::new();
    let mut i: usize = 0;
    proof {
        assert(s@.subrange(0, n as int) =~= s@);
        assert(out.deep_view() =~= Seq::<Seq<u8>>::empty());
        assert(Seq::<Seq<u8>>::empty() + split_fields_rec(s@, seq![]) =~= split_fields_rec(
            s@,
            seq![],
        ));
    }
    while i < n
        invariant
            i <= n == s@.len(),
            split_fields_rec(s@, Seq::<u8>::empty()) == out.deep_view() + split_fields_rec(
                s@.subrange(i as int, n as int),
                cur@,
            ),
        decreases n - i,
    {
        let b = s[i];
        proof {
            let rest = s@.subrange(i as int, n as int);
            assert(rest[0] == s@[i as int]);
            assert(rest.drop_first() =~= s@.subrange(i + 1, n as int));
        }
        if b == 47 {
            let ghost old_out = out.deep_view();
            let ghost cur_v = cur@;
            out.push(cur);
            cur = Vec::new();
            proof {
                assert(out.deep_view() =~~= old_out.push(cur_v));
                assert(old_out.push(cur_v) + split_fields_rec(
                    s@.subrange(i + 1, n as int),
                    seq![],
                ) =~= old_out + (seq![cur_v] + split_fields_rec(
                    s@.subrange(i + 1, n as int),
                    seq![],
                )));
            }
        } else {
            cur.push(b);
        }
        i += 1;
    }
    proof {
        assert(s@.subrange(n as int, n as int) =~= Seq::<u8>::empty());
        assert(split_fields_rec(Seq::<u8>::empty(), cur@) =~= seq![cur@]);
    }
    let ghost old_out = out.deep_view();
    let ghost cur_v = cur@;
    out.push(cur);
    proof {
        assert(out.deep_view() =~~= old_out.push(cur_v));
        assert(old_out + seq![cur_v] =~= old_out.push(cur_v));
    }
    out
}

/// Read the percentage one field carries, if any.
fn field_percent_exec(f: &[u8]) -> (r: Option<u64>)
    ensures
        r == field_percent(f@),
{
    let t = trim(f);
    let n = t.len();
    if n == 0 || t[n - 1] != 37 {
        return None;
    }
    let mut m: usize = n;
    proof {
        assert(t@.subrange(0, n as int) =~= t@);
    }
    while m > 0 && t[m - 1] == 37
        invariant
            m <= n == t@.len(),
            strip_percents(t@) == strip_percents(t@.subrange(0, m as int)),
        decreases m,
    {
        proof {
            let cur = t@.subrange(0, m as int);
            assert(cur.last() == t@[m - 1]);
            assert(cur.drop_last() =~= t@.subrange(0, m - 1));
        }
        m -= 1;
    }
    proof {
        let cur = t@.subrange(0, m as int);
        if m > 0 {
            assert(cur.last() == t@[m - 1]);
        }
        assert(strip_percents(cur) == cur);
        assert(t@.subrange(0, n as int) =~= t@);
    }
    let core = trim(&t.as_slice()[0..m]);
    match parse_digits(core.as_slice(), 10) {
        Some(v) => {
            if v <= 4294967295u64 {
                Some(v)
            } else {
                None
            }
        },
        None => None,
    }
}

/// Read the volume percentage from a captured report: the first
/// slash-separated field that ends in a percent sign and carries a number.
pub fn parse_volume_percent(out: &[u8]) -> (r: Option<u64>)
    ensures
        r == spec_volume_percent(out@),
{
    let fields = split_fields(out);
    let ghost fdv = fields.deep_view();
    let mut i: usize = 0;
    proof {
        assert(fdv.skip(0) =~= fdv);
    }
    while i < fields.len()
        invariant
            i <= fields@.len(),
            fdv == fields.deep_view(),
            fdv.len() == fields@.len(),
            fdv == split_fields_rec(out@, Seq::<u8>::empty()),
            spec_volume_percent(out@) == first_percent(fdv.skip(i as int)),
        decreases fields@.len() - i,
    {
        let f = &fields[i];
        proof {
            let rem = fdv.skip(i as int);
            assert(rem[0] =~= f@);
            assert(rem.drop_first() =~= fdv.skip(i + 1));
        }
        let r = field_percent_exec(f.as_slice());
        if r.is_some() {
            return r;
        }
        i += 1;
    }
    proof {
        assert(fdv.skip(fields@.len() as int) =~= Seq::<Seq<u8>>::empty());
    }
    None
}

} // verus!
