//! Choosing the injector's serial port among the ports the system lists.

use vstd::prelude::*;
use vstd::string::StrSliceExecFns;

verus! {

/// `p` occurs in `s` starting at position `i`.
pub open spec fn occurs_at(s: Seq<char>, p: Seq<char>, i: int) -> bool {
    0 <= i && i + p.len() <= s.len() && s.subrange(i, i + p.len()) == p
}

/// `p` occurs in `s` as a contiguous run of characters.
pub open spec fn has_infix(s: Seq<char>, p: Seq<char>) -> bool {
    exists|i: int| #[trigger] occurs_at(s, p, i)
}

/// A device name that looks like the injector's USB serial link: a USB UART
/// (`ttyUSB`), a USB modem such as the ST-LINK virtual COM port (`usbmodem`,
/// `ttyACM`), or a macOS call-out device (`cu.`).
pub open spec fn injector_like(name: Seq<char>) -> bool {
    has_infix(name, "ttyUSB"@) || has_infix(name, "usbmodem"@) || has_infix(name, "ttyACM"@)
        || has_infix(name, "cu."@)
}

/// `p` occurs in `s` at position `i`.
fn infix_at(s: &str, p: &str, i: usize, slen: usize, plen: usize) -> (r: bool)
    requires
        slen == s@.len(),
        plen == p@.len(),
        i + plen <= slen,
    ensures
        r == occurs_at(s@, p@, i as int),
{
    let mut k: usize = 0;
    while k < plen
        invariant
            slen == s@.len(),
            plen == p@.len(),
            i + plen <= slen,
            k <= plen,
            forall|m: int| 0 <= m < k ==> s@[i + m] == p@[m],
        decreases plen - k,
    {
        if s.get_char(i + k) != p.get_char(k) {
            assert(s@.subrange(i as int, i + plen)[k as int] != p@[k as int]);
            return false;
        }
        k = k + 1;
    }
    assert(s@.subrange(i as int, i + plen) =~= p@);
    true
}

/// Whether `p` occurs in `s`.
fn contains(s: &str, p: &str) -> (r: bool)
    ensures
        r == has_infix(s@, p@),
{
    let slen = s.unicode_len();
    let plen = p.unicode_len();
    if plen > slen {
        return false;
    }
    let last = slen - plen;
    let mut i: usize = 0;
    loop
        invariant
            slen == s@.len(),
            plen == p@.len(),
            last == slen - plen,
            i <= last,
            forall|j: int| 0 <= j < i ==> !#[trigger] occurs_at(s@, p@, j),
        ensures
            forall|j: int| 0 <= j <= last ==> !#[trigger] occurs_at(s@, p@, j),
        decreases last - i,
    {
        if infix_at(s, p, i, slen, plen) {
            return true;
        }
        if i == last {
            break;
        }
        i = i + 1;
    }
    assert forall|j: int| #[trigger] occurs_at(s@, p@, j) implies j <= last by {}
    false
}

fn looks_like_injector(name: &str) -> (r: bool)
    ensures
        r == injector_like(name@),
{
    contains(name, "ttyUSB") || contains(name, "usbmodem") || contains(name, "ttyACM")
        || contains(name, "cu.")
}

/// The first listed port whose name looks like the injector's link, if any.
pub fn pick_port(names: &[String]) -> (r: Option<String>)
    ensures
        match r {
            Some(p) => exists|i: int|
                0 <= i < names@.len() && names@[i]@ == p@ && injector_like(p@) && forall|j: int|
                    0 <= j < i ==> !injector_like(#[trigger] names@[j]@),
            None => forall|j: int| 0 <= j < names@.len() ==> !injector_like(#[trigger] names@[j]@),
        },
{
    let mut i: usize = 0;
    while i < names.len()
        invariant
            i <= names@.len(),
            forall|j: int| 0 <= j < i ==> !injector_like(#[trigger] names@[j]@),
        decreases names@.len() - i,
    {
        if looks_like_injector(names[i].as_str()) {
            let p = names[i].clone();
            assert(names@[i as int]@ == p@);
            return Some(p);
        }
        i = i + 1;
    }
    None
}

} // verus!
