//! Decisions of the inbound fan-out service, which copies each request to
//! every configured target and answers with the first successful reply.

use vstd::prelude::*;
use crate::text::{lower_seq, strs, trim, split_parts};
use crate::number::uint_text;

verus! {

/// A target without its trailing `/` characters.
pub open spec fn without_trailing_slashes(s: Seq<char>) -> Seq<char>
    decreases s.len(),
{
    if s.len() > 0 && s.last() == '/' {
        without_trailing_slashes(s.drop_last())
    } else {
        s
    }
}

/// The targets named in a comma-separated list: trimmed, blank entries
/// skipped, trailing `/` removed.
pub open spec fn targets_of(parts: Seq<Seq<char>>) -> Seq<Seq<char>>
    decreases parts.len(),
{
    if parts.len() == 0 {
        Seq::empty()
    } else {
        let r = targets_of(parts.drop_last());
        let t = trim(parts.last());
        if t.len() == 0 {
            r
        } else {
            r.push(without_trailing_slashes(t))
        }
    }
}

fn strip_trailing_slashes(v: &[char]) -> (r: Vec<char>)
    ensures
        r@ == without_trailing_slashes(v@),
{
    let mut end: usize = v.len();
    proof {
        assert(v@.subrange(0, end as int) =~= v@);
    }
    while end > 0 && v[end - 1] == '/'
        invariant
            end <= v@.len(),
            without_trailing_slashes(v@.subrange(0, end as int)) == without_trailing_slashes(v@),
        decreases end,
    {
        proof {
            assert(v@.subrange(0, end as int).drop_last() =~= v@.subrange(0, end - 1));
        }
        end = end - 1;
    }
    let r = crate::text::slice_range(v, 0, end);
    proof {
        if r@.len() > 0 {
            assert(r@.last() == v@[end - 1]);
        }
    }
    r
}

/// The fan-out targets from the `FANOUT_TARGETS` setting (empty when unset).
pub fn parse_targets(raw: Option<&str>) -> (r: Vec<String>)
    ensures
        strs(r@) == (match raw {
            Some(s) => targets_of(split_parts(s@, ',')),
            None => Seq::empty(),
        }),
{
    let raw = match raw {
        Some(s) => s,
        None => {
            let r: Vec<String> = Vec::new();
            proof {
                assert(strs(r@) =~= Seq::<Seq<char>>::empty());
            }
            return r;
        },
    };
    let parts = crate::text::split_on(raw, ',');
    let ghost ps = strs(parts@);
    let mut targets: Vec<String> = Vec::new();
    let mut i: usize = 0;
    proof {
        assert(ps.take(0) =~= Seq::<Seq<char>>::empty());
        assert(strs(targets@) =~= Seq::<Seq<char>>::empty());
    }
    while i < parts.len()
        invariant
            i <= parts@.len(),
            ps == strs(parts@),
            strs(targets@) == targets_of(ps.take(i as int)),
        decreases parts@.len() - i,
    {
        proof {
            assert(ps.take(i + 1).drop_last() =~= ps.take(i as int));
            assert(ps.take(i + 1).last() == parts@[i as int]@);
        }
        let v = crate::text::to_chars(parts[i].as_str());
        let t = crate::text::trim_chars(v.as_slice());
        if t.len() > 0 {
            let n = strip_trailing_slashes(t.as_slice());
            let ghost before = targets@;
            targets.push(crate::text::from_chars(n.as_slice()));
            proof {
                assert(strs(targets@) =~= strs(before).push(n@));
            }
        }
        i = i + 1;
    }
    proof {
        assert(ps.take(parts@.len() as int) =~= ps);
    }
    targets
}

/// Headers that are not copied to the targets: `connection`, `host` and
/// `content-length`, in any case.
pub open spec fn skipped_header(name: Seq<char>) -> bool {
    let l = lower_seq(name);
    l == "connection"@ || l == "host"@ || l == "content-length"@
}

/// Whether a header is left out of the forwarded request.
pub fn should_skip_header(name: &str) -> (r: bool)
    ensures
        r == skipped_header(name@),
{
    let l = crate::text::lower_str(name);
    let l = l.as_str();
    crate::text::str_eq(l, "connection") || crate::text::str_eq(l, "host") || crate::text::str_eq(l, "content-length")
}

/// The address a request for `path` (with its query) is sent to on `target`.
pub fn forward_url(target: &str, path: &str) -> (r: String)
    ensures
        r@ == target@ + path@,
{
    crate::text::concat2(target, path)
}

/// The port setting: a `u16` when it reads as one, else 9100.
pub fn fanout_port(raw: Option<&str>) -> (r: u16)
    ensures
        r as int == (match raw {
            Some(s) => match uint_text(s@) {
                Some(v) => if v <= u16::MAX { v } else { 9100 },
                None => 9100,
            },
            None => 9100,
        }),
{
    match raw {
        Some(s) => {
            proof {
                crate::number::lemma_uint_text_nonneg(s@);
            }
            match crate::number::parse_u64(s) {
                Some(v) => if v <= 65535 {
                    v as u16
                } else {
                    9100
                },
                None => 9100,
            }
        },
        None => 9100,
    }
}

/// The timeout setting in seconds: a positive `u64` when it reads as one,
/// else 15.
pub fn fanout_timeout_secs(raw: Option<&str>) -> (r: u64)
    ensures
        r as int == (match raw {
            Some(s) => match uint_text(s@) {
                Some(v) => if 0 < v <= u64::MAX { v } else { 15 },
                None => 15,
            },
            None => 15,
        }),
{
    match raw {
        Some(s) => {
            proof {
                crate::number::lemma_uint_text_nonneg(s@);
            }
            match crate::number::parse_u64(s) {
                Some(v) => if v > 0 {
                    v
                } else {
                    15
                },
                None => 15,
            }
        },
        None => 15,
    }
}

/// What the fan-out answers once the targets replied: the first successful
/// reply, else a bad-gateway status.
#[derive(Debug, Clone)]
pub enum FanoutAnswer {
    /// Relay the reply at this position of the replies.
    Relay(usize),
    BadGateway,
}

/// Position of the first success status (200 to 299) among `statuses`.
pub open spec fn first_success(statuses: Seq<u16>) -> Option<int>
    decreases statuses.len(),
{
    if statuses.len() == 0 {
        None
    } else if 200 <= statuses[0] && statuses[0] <= 299 {
        Some(0)
    } else {
        match first_success(statuses.drop_first()) {
            Some(i) => Some(i + 1),
            None => None,
        }
    }
}

/// Chooses the reply to relay from the statuses of the replies, in the
/// order they arrived.
pub fn choose_reply(statuses: &Vec<u16>) -> (r: FanoutAnswer)
    ensures
        match first_success(statuses@) {
            Some(i) => r matches FanoutAnswer::Relay(k) && k == i,
            None => r is BadGateway,
        },
{
    let mut i: usize = 0;
    proof {
        assert(statuses@.skip(0) =~= statuses@);
    }
    while i < statuses.len()
        invariant
            i <= statuses@.len(),
            match first_success(statuses@) {
                Some(k) => match first_success(statuses@.skip(i as int)) {
                    Some(j) => k == i + j,
                    None => false,
                },
                None => first_success(statuses@.skip(i as int)) is None,
            },
        decreases statuses@.len() - i,
    {
        proof {
            assert(statuses@.skip(i as int).drop_first() =~= statuses@.skip(i + 1));
            assert(statuses@.skip(i as int)[0] == statuses@[i as int]);
        }
        let s = statuses[i];
        if 200 <= s && s <= 299 {
            return FanoutAnswer::Relay(i);
        }
        i = i + 1;
    }
    FanoutAnswer::BadGateway
}

} // verus!
