//! Scanner verdicts and the parsing of the scanner's response line.
//!
//! The wire protocol (connecting to the scanner socket, descriptor passing,
//! stream upload) is socket I/O and lives with the binaries; what is
//! specified and verified here is the classification of a response line into
//! exactly one verdict.

use vstd::prelude::*;

use crate::strutil::has_suffix;
use crate::strutil::matches_at;

verus! {

/// Result of a virus scan operation.
#[derive(Debug, Clone, PartialEq, Eq)]
pub enum ScanResult {
    /// File is clean.
    Clean,
    /// File is infected, with the detected signature name.
    Infected(String),
    /// Scan error (permission denied, corrupted file, scanner unavailable).
    Error,
    /// File was not found (moved or deleted before the scan).
    NotFound,
}

/// The last position at or below `i` where `needle` occurs in `hay`, if any.
pub open spec fn find_last_from(hay: Seq<char>, needle: Seq<char>, i: int) -> Option<int>
    decreases i + 1,
{
    if i < 0 {
        None
    } else if matches_at(hay, needle, i) {
        Some(i)
    } else {
        find_last_from(hay, needle, i - 1)
    }
}

/// The last position where `needle` occurs in `hay`, if any.
pub open spec fn find_last(hay: Seq<char>, needle: Seq<char>) -> Option<int> {
    find_last_from(hay, needle, hay.len() - needle.len())
}

/// `s` with every copy of the non-empty suffix `suf` removed from its end.
pub open spec fn trim_suffix_rec(s: Seq<char>, suf: Seq<char>) -> Seq<char>
    decreases s.len() when suf.len() > 0
{
    if suf.len() > 0 && has_suffix(s, suf) && s.len() >= suf.len() {
        trim_suffix_rec(s.subrange(0, s.len() - suf.len()), suf)
    } else {
        s
    }
}

/// The signature name in a `... <signature> FOUND` response: the text after
/// the last `": "`, with the trailing `" FOUND"` removed; `unknown` when no
/// `": "` separator is present.
pub open spec fn clam_signature(s: Seq<char>) -> Seq<char> {
    match find_last(s, ": "@) {
        Some(i) => trim_suffix_rec(s.subrange(i + 2, s.len() as int), " FOUND"@),
        None => "unknown"@,
    }
}

/// Find the last occurrence of `needle` in `hay`.
fn rfind_str(hay: &str, needle: &str) -> (r: Option<usize>)
    ensures
        match r {
            Some(i) => find_last(hay@, needle@) == Some(i as int),
            None => find_last(hay@, needle@) is None,
        },
{
    let hn = hay.unicode_len();
    let nn = needle.unicode_len();
    if nn > hn {
        return None;
    }
    let mut i: usize = hn - nn;
    loop
        invariant
            hn == hay@.len(),
            nn == needle@.len(),
            nn <= hn,
            0 <= i <= hn - nn,
            find_last(hay@, needle@) == find_last_from(hay@, needle@, i as int),
        decreases i,
    {
        if crate::strutil::check_match_at(hay, needle, i) {
            return Some(i);
        }
        if i == 0 {
            return None;
        }
        i = i - 1;
    }
}

/// Strip every trailing copy of `suf` from `s`.
fn trim_suffix<'a>(s: &'a str, suf: &str) -> (r: &'a str)
    requires
        suf@.len() > 0,
    ensures
        r@ == trim_suffix_rec(s@, suf@),
{
    let mut cur = s;
    let sn = suf.unicode_len();
    loop
        invariant
            sn == suf@.len(),
            sn > 0,
            trim_suffix_rec(s@, suf@) == trim_suffix_rec(cur@, suf@),
        decreases cur@.len(),
    {
        let cn = cur.unicode_len();
        if !crate::strutil::ends_with_str(cur, suf) {
            return cur;
        }
        cur = cur.substring_char(0, cn - sn);
    }
}

/// The scanner client type.  The socket conversation is carried out by the
/// binaries; the response classification below is its specified core.
pub struct ClamAVScanner;

impl ClamAVScanner {
    /// The verdict for one scanner response: text ending `OK` is clean;
    /// otherwise text ending `FOUND` names an infection; all else,
    /// whether ending `ERROR` or malformed, counts as an error.  This
    /// classification never yields `NotFound`.
    pub fn parse_response(response: &str, name_for_logging: &str) -> (r: ScanResult)
        ensures
            match r {
                ScanResult::Clean => has_suffix(response@, "OK"@),
                ScanResult::Infected(sig) => !has_suffix(response@, "OK"@) && has_suffix(
                    response@,
                    "FOUND"@,
                ) && sig@ == clam_signature(response@),
                ScanResult::Error => !has_suffix(response@, "OK"@) && !has_suffix(
                    response@,
                    "FOUND"@,
                ),
                ScanResult::NotFound => false,
            },
    {
        let _ = name_for_logging;
        if crate::strutil::ends_with_str(response, "OK") {
            return ScanResult::Clean;
        }
        if crate::strutil::ends_with_str(response, "FOUND") {
            let n = response.unicode_len();
            let sig = match rfind_str(response, ": ") {
                Some(i) => {
                    proof {
                        reveal_strlit(": ");
                        reveal_strlit(" FOUND");
                        lemma_find_last_matches(response@, ": "@, i as int);
                    }
                    let rest = response.substring_char(i + 2, n);
                    trim_suffix(rest, " FOUND")
                },
                None => "unknown",
            };
            return ScanResult::Infected(String::from_str(sig));
        }
        ScanResult::Error
    }
}

/// When `find_last` reports position `i`, the needle indeed matches there.
proof fn lemma_find_last_matches(hay: Seq<char>, needle: Seq<char>, i: int)
    requires
        find_last(hay, needle) == Some(i),
    ensures
        matches_at(hay, needle, i),
{
    lemma_find_last_from_matches(hay, needle, hay.len() - needle.len(), i);
}

proof fn lemma_find_last_from_matches(hay: Seq<char>, needle: Seq<char>, j: int, i: int)
    requires
        find_last_from(hay, needle, j) == Some(i),
    ensures
        matches_at(hay, needle, i),
    decreases j + 1,
{
    if j >= 0 && !matches_at(hay, needle, j) {
        lemma_find_last_from_matches(hay, needle, j - 1, i);
    }
}

} // verus!
