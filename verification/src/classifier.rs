//! Classification of the tunnel process's diagnostic output.
//!
//! Each line of diagnostic text is matched, case-insensitively, against
//! a small ordered rule table of substrings.  A match either reports
//! the tunnel as established or marks a fatal condition; every other
//! line is informational and changes no status.  Matching folds ASCII
//! letters only: the patterns themselves are plain ASCII.

use vstd::prelude::*;
use vstd::string::StrSliceExecFns;

verus! {

/// Code point of a character with an upper-case ASCII letter folded to
/// its lower-case form.
pub open spec fn fold_code(c: char) -> int {
    if 65 <= c as u32 && c as u32 <= 90 {
        c as u32 + 32
    } else {
        c as u32 as int
    }
}

/// Two characters are equal up to ASCII case.
pub open spec fn chars_eq_ci(a: char, b: char) -> bool {
    fold_code(a) == fold_code(b)
}

/// `pat` occurs in `hay` at position `i`, up to ASCII case.
pub open spec fn matches_at(hay: Seq<char>, pat: Seq<char>, i: int) -> bool {
    forall|j: int| 0 <= j < pat.len() ==> chars_eq_ci(hay[i + j], pat[j])
}

/// `pat` occurs somewhere in `hay`, up to ASCII case.
pub open spec fn contains_ci(hay: Seq<char>, pat: Seq<char>) -> bool {
    exists|i: int| 0 <= i && i + pat.len() <= hay.len() && matches_at(hay, pat, i)
}

/// What one diagnostic line means for the connection's status.
#[derive(Clone, Copy, Debug, PartialEq, Eq, Structural)]
pub enum LineClass {
    /// The tunnel is up: report `connected`.
    Established,
    /// The remote port could not be claimed: report `error`, fatal.
    FatalPortForward,
    /// Authentication was refused: report `error`, fatal.
    FatalAuth,
    /// No status change.
    Informational,
}

/// The rule table, first match wins: session-established phrases, then
/// the failed remote forward, then the refused authentication.
pub open spec fn spec_classify(line: Seq<char>) -> LineClass {
    if contains_ci(line, "entering interactive session"@) || contains_ci(
        line,
        "remote forward success"@,
    ) || contains_ci(line, "authenticated to"@) || contains_ci(
        line,
        "authentication succeeded"@,
    ) {
        LineClass::Established
    } else if contains_ci(line, "remote port forwarding failed"@) {
        LineClass::FatalPortForward
    } else if contains_ci(line, "permission denied"@) {
        LineClass::FatalAuth
    } else {
        LineClass::Informational
    }
}

/// A fatal class: the generic exit-code error is suppressed after it.
pub open spec fn is_fatal(c: LineClass) -> bool {
    c == LineClass::FatalPortForward || c == LineClass::FatalAuth
}

/// The characters of `s`, in order.
fn str_chars(s: &str) -> (v: Vec<char>)
    ensures
        v@ == s@,
{
    let n = s.unicode_len();
    let mut v: Vec<char> = Vec::new();
    let mut i: usize = 0;
    while i < n
        invariant
            n == s@.len(),
            i <= n,
            v@ == s@.subrange(0, i as int),
        decreases n - i,
    {
        v.push(s.get_char(i));
        i = i + 1;
        proof {
            assert(v@ =~= s@.subrange(0, i as int));
        }
    }
    proof {
        assert(v@ =~= s@);
    }
    v
}

/// Whether two characters are equal up to ASCII case.
fn eq_ci(a: char, b: char) -> (r: bool)
    ensures
        r == chars_eq_ci(a, b),
{
    let x = a as u32;
    let y = b as u32;
    let fx = if 65 <= x && x <= 90 {
        x + 32
    } else {
        x
    };
    let fy = if 65 <= y && y <= 90 {
        y + 32
    } else {
        y
    };
    fx == fy
}

/// Whether `pat` occurs in `hay`, up to ASCII case.
fn contains_ci_chars(hay: &Vec<char>, pat: &Vec<char>) -> (r: bool)
    ensures
        r == contains_ci(hay@, pat@),
{
    if pat.len() == 0 {
        proof {
            assert(matches_at(hay@, pat@, 0));
        }
        return true;
    }
    if pat.len() > hay.len() {
        return false;
    }
    let bound = hay.len() - pat.len();
    let mut i: usize = 0;
    while i <= bound
        invariant
            1 <= pat@.len() <= hay@.len(),
            hay@.len() <= usize::MAX,
            bound == hay@.len() - pat@.len(),
            i <= bound + 1,
            forall|k: int| 0 <= k < i ==> !matches_at(hay@, pat@, k),
        decreases bound + 1 - i,
    {
        let mut j: usize = 0;
        let mut hit = true;
        while hit && j < pat.len()
            invariant
                1 <= pat@.len() <= hay@.len(),
                hay@.len() <= usize::MAX,
                i + pat@.len() <= hay@.len(),
                j <= pat@.len(),
                hit ==> forall|k: int| 0 <= k < j ==> chars_eq_ci(hay@[i + k], pat@[k]),
                !hit ==> !matches_at(hay@, pat@, i as int),
            decreases pat@.len() - j + (if hit { 1int } else { 0int }),
        {
            if !eq_ci(hay[i + j], pat[j]) {
                hit = false;
            } else {
                j = j + 1;
            }
        }
        if hit {
            proof {
                assert(matches_at(hay@, pat@, i as int));
            }
            return true;
        }
        i = i + 1;
    }
    proof {
        assert(forall|k: int| 0 <= k && k + pat@.len() <= hay@.len() ==> !matches_at(
            hay@,
            pat@,
            k,
        ));
    }
    false
}

/// Whether `pat` occurs in `line`, up to ASCII case.
pub fn line_contains(line: &str, pat: &str) -> (r: bool)
    ensures
        r == contains_ci(line@, pat@),
{
    let hay = str_chars(line);
    let needle = str_chars(pat);
    contains_ci_chars(&hay, &needle)
}

/// Classifies one diagnostic line by the rule table.
pub fn classify_line(line: &str) -> (c: LineClass)
    ensures
        c == spec_classify(line@),
{
    if line_contains(line, "entering interactive session") || line_contains(
        line,
        "remote forward success",
    ) || line_contains(line, "authenticated to") || line_contains(
        line,
        "authentication succeeded",
    ) {
        LineClass::Established
    } else if line_contains(line, "remote port forwarding failed") {
        LineClass::FatalPortForward
    } else if line_contains(line, "permission denied") {
        LineClass::FatalAuth
    } else {
        LineClass::Informational
    }
}

} // verus!
