//! Command-line options of the bench.

use vstd::prelude::*;
use crate::campaign::{str_eq, Opts};

verus! {

/// Index of the first argument equal to `flag`, or `args.len()`.
pub open spec fn flag_index(args: Seq<String>, flag: Seq<char>, from: int) -> int
    decreases args.len() - from,
{
    if 0 <= from < args.len() {
        if args[from]@ == flag {
            from
        } else {
            flag_index(args, flag, from + 1)
        }
    } else {
        args.len() as int
    }
}

/// Some argument equals `flag`.
pub open spec fn has_flag(args: Seq<String>, flag: Seq<char>) -> bool {
    exists|i: int| 0 <= i < args.len() && args[i]@ == flag
}

/// The value after the first occurrence of `flag`, if there is one.
pub open spec fn flag_value(args: Seq<String>, flag: Seq<char>) -> Option<Seq<char>> {
    let i = flag_index(args, flag, 0);
    if i + 1 < args.len() {
        Some(args[i + 1]@)
    } else {
        None
    }
}

proof fn lemma_flag_index(args: Seq<String>, flag: Seq<char>, from: int)
    requires
        0 <= from <= args.len(),
    ensures
        from <= flag_index(args, flag, from) <= args.len(),
        flag_index(args, flag, from) < args.len() ==> args[flag_index(args, flag, from)]@ == flag,
        forall|k: int| from <= k < flag_index(args, flag, from) ==> args[k]@ != flag,
    decreases args.len() - from,
{
    if from < args.len() && args[from]@ != flag {
        lemma_flag_index(args, flag, from + 1);
    }
}

/// Position of `flag` in `args`, or `args.len()`.
fn find_flag(args: &[String], flag: &str) -> (i: usize)
    ensures
        i == flag_index(args@, flag@, 0),
{
    proof {
        lemma_flag_index(args@, flag@, 0);
    }
    let mut i: usize = 0;
    while i < args.len()
        invariant
            i <= args@.len(),
            flag_index(args@, flag@, 0) == flag_index(args@, flag@, i as int),
        decreases args@.len() - i,
    {
        if str_eq(args[i].as_str(), flag) {
            return i;
        }
        i = i + 1;
    }
    i
}

pub fn arg_val(args: &[String], flag: &str) -> (r: Option<String>)
    ensures
        match flag_value(args@, flag@) {
            Some(v) => r matches Some(s) && s@ == v,
            None => r is None,
        },
{
    let i = find_flag(args, flag);
    if i < args.len() && i + 1 < args.len() {
        Some(args[i + 1].clone())
    } else {
        None
    }
}

fn any_arg(args: &[String], flag: &str) -> (r: bool)
    ensures
        r == has_flag(args@, flag@),
{
    proof {
        lemma_flag_index(args@, flag@, 0);
    }
    find_flag(args, flag) < args.len()
}

/// A decimal digit.
pub open spec fn is_digit(c: char) -> bool {
    '0' <= c <= '9'
}

/// Value of a string of decimal digits.
pub open spec fn digits_value(s: Seq<char>) -> nat
    decreases s.len(),
{
    if s.len() == 0 {
        0
    } else {
        digits_value(s.drop_last()) * 10 + (s.last() as nat - 48) as nat
    }
}

/// An unsigned integer in decimal: an optional `+`, then one or more digits,
/// nothing else, and a value not above `max`.
pub open spec fn parse_unsigned(s: Seq<char>, max: nat) -> Option<nat> {
    let body = if s.len() > 0 && s[0] == '+' {
        s.skip(1)
    } else {
        s
    };
    if body.len() > 0 && (forall|i: int| 0 <= i < body.len() ==> is_digit(#[trigger] body[i]))
        && digits_value(body) <= max {
        Some(digits_value(body))
    } else {
        None
    }
}

/// `str::parse::<u32>`: the value of an optional `+` followed by decimal
/// digits, when it fits; an error (here `None`) otherwise, as the standard
/// library documents for `u32::from_str`.
#[verifier::external_body]
fn parse_u32(s: &str) -> (r: Option<u32>)
    ensures
        match parse_unsigned(s@, u32::MAX as nat) {
            Some(v) => r == Some(v as u32),
            None => r is None,
        },
{
    s.parse::<u32>().ok()
}

/// `str::parse::<u16>`: as `parse_u32`, for values up to `u16::MAX`.
#[verifier::external_body]
fn parse_u16(s: &str) -> (r: Option<u16>)
    ensures
        match parse_unsigned(s@, u16::MAX as nat) {
            Some(v) => r == Some(v as u16),
            None => r is None,
        },
{
    s.parse::<u16>().ok()
}

/// The number after `flag`, or `default` when the flag is missing or its value
/// does not parse.
pub open spec fn numeric_option(args: Seq<String>, flag: Seq<char>, max: nat, default: nat) -> nat {
    match flag_value(args, flag) {
        Some(v) => match parse_unsigned(v, max) {
            Some(n) => n,
            None => default,
        },
        None => default,
    }
}

/// The known profile names.
pub open spec fn known_profile(name: Seq<char>) -> bool {
    name == "clean"@ || name == "fuzz"@ || name == "emi"@ || name == "stress"@ || name == "delay"@
}

/// Profile named by the arguments: the `--profile` value when it is known,
/// "fuzz" otherwise.
pub open spec fn profile_choice(args: Seq<String>) -> Seq<char> {
    match flag_value(args, "--profile"@) {
        Some(v) => if known_profile(v) {
            v
        } else {
            "fuzz"@
        },
        None => "fuzz"@,
    }
}

/// The profile as a static name, and whether `name` was unknown.
fn profile_name(name: &str) -> (r: (&'static str, bool))
    ensures
        known_profile(name@) ==> r.0@ == name@ && !r.1,
        !known_profile(name@) ==> r.0@ == "fuzz"@ && r.1,
{
    if str_eq(name, "clean") {
        ("clean", false)
    } else if str_eq(name, "fuzz") {
        ("fuzz", false)
    } else if str_eq(name, "emi") {
        ("emi", false)
    } else if str_eq(name, "stress") {
        ("stress", false)
    } else if str_eq(name, "delay") {
        ("delay", false)
    } else {
        ("fuzz", true)
    }
}

/// Campaign options from the command line, with the profile name to warn
/// about when it is not a known profile (the campaign then uses "fuzz").
pub fn parse_args(args: &[String]) -> (r: (Opts, Option<String>))
    ensures
        r.0.simulated == has_flag(args@, "--simulate"@),
        r.0.seed == numeric_option(args@, "--seed"@, u32::MAX as nat, 42),
        r.0.packets == numeric_option(args@, "--packets"@, u16::MAX as nat, 1500),
        r.0.cadence_ms == numeric_option(args@, "--cadence-ms"@, u16::MAX as nat, 5),
        r.0.profile@ == profile_choice(args@),
        r.0.quiet == has_flag(args@, "--quiet"@),
        match flag_value(args@, "--profile"@) {
            Some(v) => if known_profile(v) {
                r.1 is None
            } else {
                r.1 matches Some(s) && s@ == v
            },
            None => r.1 is None,
        },
{
    let seed = match arg_val(args, "--seed") {
        Some(s) => match parse_u32(s.as_str()) {
            Some(v) => v,
            None => 42,
        },
        None => 42,
    };
    let packets = match arg_val(args, "--packets") {
        Some(s) => match parse_u16(s.as_str()) {
            Some(v) => v,
            None => 1500,
        },
        None => 1500,
    };
    let cadence_ms = match arg_val(args, "--cadence-ms") {
        Some(s) => match parse_u16(s.as_str()) {
            Some(v) => v,
            None => 5,
        },
        None => 5,
    };
    let (profile, unknown) = match arg_val(args, "--profile") {
        Some(s) => {
            let (p, bad) = profile_name(s.as_str());
            (p, if bad { Some(s) } else { None })
        },
        None => ("fuzz", None),
    };
    proof {
        reveal_strlit("fuzz");
    }
    let opts = Opts {
        simulated: any_arg(args, "--simulate"),
        seed,
        packets,
        cadence_ms,
        profile,
        quiet: any_arg(args, "--quiet"),
    };
    (opts, unknown)
}

} // verus!
