//! Command-line argument helpers of the workspace tools.

use vstd::prelude::*;
use crate::text::{strs, starts_with};
use crate::number::uint_text;

verus! {

/// The character a backslash escape stands for, if it is one of `\n`, `\t`,
/// `\r` and `\\`.
pub open spec fn escaped(c: char) -> Option<char> {
    if c == 'n' {
        Some('\n')
    } else if c == 't' {
        Some('\t')
    } else if c == 'r' {
        Some('\r')
    } else if c == '\\' {
        Some('\\')
    } else {
        None
    }
}

/// The text with its escapes replaced; a backslash before any other
/// character, or at the end, stays as it is.
pub open spec fn unescaped(s: Seq<char>) -> Seq<char>
    decreases s.len(),
{
    if s.len() == 0 {
        Seq::empty()
    } else if s[0] == '\\' && s.len() > 1 && escaped(s[1]) is Some {
        seq![escaped(s[1]).unwrap()] + unescaped(s.skip(2))
    } else {
        seq![s[0]] + unescaped(s.skip(1))
    }
}

/// Processes escape sequences (`\n`, `\t`, `\r`, `\\`).
pub fn unescape_string(s: &str) -> (r: String)
    ensures
        r@ == unescaped(s@),
{
    let v = crate::text::to_chars(s);
    let mut out: Vec<char> = Vec::new();
    let mut i: usize = 0;
    proof {
        assert(v@.skip(0) =~= v@);
    }
    while i < v.len()
        invariant
            i <= v@.len(),
            out@ + unescaped(v@.skip(i as int)) == unescaped(v@),
        decreases v@.len() - i,
    {
        let ghost rest = v@.skip(i as int);
        let c = v[i];
        let mut step: usize = 1;
        let mut emit = c;
        if c == '\\' && i + 1 < v.len() {
            let d = v[i + 1];
            if d == 'n' {
                emit = '\n';
                step = 2;
            } else if d == 't' {
                emit = '\t';
                step = 2;
            } else if d == 'r' {
                emit = '\r';
                step = 2;
            } else if d == '\\' {
                emit = '\\';
                step = 2;
            }
        }
        proof {
            assert(rest[0] == c);
            if i + 1 < v@.len() {
                assert(rest[1] == v@[i + 1]);
            }
            assert(rest.skip(step as int) =~= v@.skip(i + step));
            assert(unescaped(rest) == seq![emit] + unescaped(v@.skip(i + step)));
        }
        out.push(emit);
        i = i + step;
        proof {
            assert(out@ + unescaped(v@.skip(i as int)) =~= (out@.drop_last() + seq![emit]) + unescaped(v@.skip(i as int)));
        }
    }
    proof {
        assert(v@.skip(i as int) =~= Seq::<char>::empty());
        assert(out@ + Seq::<char>::empty() =~= out@);
    }
    crate::text::from_chars(out.as_slice())
}

/// The raw value of `flag`: from the first argument that is `flag=value`
/// (all the text after `flag=`) or exactly `flag` (the next argument).
pub open spec fn flag_value(args: Seq<Seq<char>>, flag: Seq<char>) -> Option<Seq<char>>
    decreases args.len(),
{
    if args.len() == 0 {
        None
    } else if starts_with(args[0], flag + "="@) {
        Some(args[0].skip(flag.len() as int + 1))
    } else if args[0] == flag {
        if args.len() > 1 {
            Some(args[1])
        } else {
            None
        }
    } else {
        flag_value(args.drop_first(), flag)
    }
}

/// The value given for `flag`, taken as written.
pub fn parse_arg_raw(args: &Vec<String>, flag: &str) -> (r: Option<String>)
    ensures
        crate::text::opt_str(r) == flag_value(strs(args@), flag@),
{
    let ghost a = strs(args@);
    let with_eq = crate::text::concat2(flag, "=");
    let prefix = crate::text::to_chars(with_eq.as_str());
    let mut i: usize = 0;
    proof {
        assert(a.skip(0) =~= a);
    }
    while i < args.len()
        invariant
            i <= args@.len(),
            a == strs(args@),
            prefix@ == flag@ + "="@,
            flag_value(a, flag@) == flag_value(a.skip(i as int), flag@),
        decreases args@.len() - i,
    {
        let ghost rest = a.skip(i as int);
        proof {
            assert(rest[0] == args@[i as int]@);
            assert(rest.drop_first() =~= a.skip(i + 1));
        }
        let arg = crate::text::to_chars(args[i].as_str());
        if crate::text::starts_with_chars(arg.as_slice(), prefix.as_slice()) {
            let value = crate::text::slice_range(arg.as_slice(), prefix.len(), arg.len());
            proof {
                reveal_strlit("=");
                assert(value@ =~= rest[0].skip(flag@.len() as int + 1));
            }
            return Some(crate::text::from_chars(value.as_slice()));
        }
        if crate::text::str_eq(args[i].as_str(), flag) {
            if i + 1 < args.len() {
                proof {
                    assert(rest[1] == args@[i + 1]@);
                }
                return Some(args[i + 1].clone());
            } else {
                return None;
            }
        }
        i = i + 1;
    }
    None
}

/// The value given for `flag`, with its escape sequences processed.
pub fn parse_arg(args: &Vec<String>, flag: &str) -> (r: Option<String>)
    ensures
        crate::text::opt_str(r) == (match flag_value(strs(args@), flag@) {
            Some(v) => Some(unescaped(v)),
            None => None,
        }),
{
    match parse_arg_raw(args, flag) {
        Some(v) => Some(unescape_string(v.as_str())),
        None => None,
    }
}

/// Whether `flag` is one of the arguments.
pub fn has_flag(args: &Vec<String>, flag: &str) -> (r: bool)
    ensures
        r == strs(args@).contains(flag@),
{
    crate::text::contains_string(args, flag)
}

/// The argument following the first occurrence of `key` that has one.
pub open spec fn key_value(args: Seq<Seq<char>>, key: Seq<char>) -> Option<Seq<char>>
    decreases args.len(),
{
    if args.len() < 2 {
        None
    } else if args[0] == key {
        Some(args[1])
    } else {
        key_value(args.drop_first(), key)
    }
}

fn find_key_value(args: &Vec<String>, key: &str) -> (r: Option<String>)
    ensures
        crate::text::opt_str(r) == key_value(strs(args@), key@),
{
    let ghost a = strs(args@);
    let mut i: usize = 0;
    proof {
        assert(a.skip(0) =~= a);
    }
    while args.len() - i >= 2
        invariant
            i <= args@.len(),
            a == strs(args@),
            key_value(a, key@) == key_value(a.skip(i as int), key@),
        decreases args@.len() - i,
    {
        let ghost rest = a.skip(i as int);
        proof {
            assert(rest[0] == args@[i as int]@);
            assert(rest[1] == args@[i + 1]@);
            assert(rest.drop_first() =~= a.skip(i + 1));
        }
        if crate::text::str_eq(args[i].as_str(), key) {
            return Some(args[i + 1].clone());
        }
        i = i + 1;
    }
    proof {
        assert(a.skip(i as int).len() < 2);
    }
    None
}

/// The value after `key`, or `default`.
pub fn parse_arg_or(args: &Vec<String>, key: &str, default: &str) -> (r: String)
    ensures
        r@ == (match key_value(strs(args@), key@) {
            Some(v) => v,
            None => default@,
        }),
{
    match find_key_value(args, key) {
        Some(v) => v,
        None => crate::text::owned(default),
    }
}

/// A positive count written as `text`, or the default.
pub open spec fn count_value(text: Seq<char>, default: usize) -> usize {
    match uint_text(text) {
        Some(n) => if 0 < n <= usize::MAX {
            n as usize
        } else {
            default
        },
        None => default,
    }
}

/// The positive number after `key`, or `default` when it is absent, not a
/// number, or zero.
pub fn parse_arg_usize(args: &Vec<String>, key: &str, default: usize) -> (r: usize)
    ensures
        r == (match key_value(strs(args@), key@) {
            Some(v) => count_value(v, default),
            None => default,
        }),
{
    match find_key_value(args, key) {
        Some(v) => match crate::number::parse_usize(v.as_str()) {
            Some(n) if n == 0 => {
                proof {
                    crate::number::lemma_uint_text_nonneg(v@);
                }
                default
            },
            Some(n) => {
                proof {
                    crate::number::lemma_uint_text_nonneg(v@);
                }
                n
            },
            None => default,
        },
        None => default,
    }
}

} // verus!
