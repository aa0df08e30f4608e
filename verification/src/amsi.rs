//! Antimalware scan interface: the names under which memory is handed in,
//! and what a verdict means.

use crate::memory_module::{MemoryAlertKind, MemoryMatch, MemoryMatcher};
use crate::memory_scanner::MemoryRegion;
use crate::text::{chars_of, numeral, push_number, signed_decimal, signed_numeral};
use vstd::prelude::*;
use vstd::slice::slice_subrange;
use vstd::string::*;

verus! {

/// The lowest result that counts as a detection.
pub const AMSI_RESULT_DETECTED: i32 = 32768;

/// The code of a call that succeeded.
pub const S_OK: i32 = 0;

/// The hits that a verdict stands for: none where the call failed or the
/// result is below the threshold.
pub fn amsi_verdict(hr: i32, result: i32) -> (r: Vec<MemoryMatch>)
    ensures
        r@.len() == if hr == S_OK && result >= AMSI_RESULT_DETECTED {
            1int
        } else {
            0int
        },
        r@.len() == 1 ==> r@[0].alert_type == MemoryAlertKind::AmsiMatch && r@[0].description@
            == "AMSI detected malicious content (result="@ + signed_numeral(result as int) + ")"@,
{
    let mut out: Vec<MemoryMatch> = Vec::new();
    if hr == S_OK && result >= AMSI_RESULT_DETECTED {
        let n = signed_decimal(result as i64);
        out.push(
            MemoryMatch {
                alert_type: MemoryAlertKind::AmsiMatch,
                description: "AMSI detected malicious content (result=".to_owned().concat(
                    n.as_str(),
                ).concat(")"),
            },
        );
    }
    out
}

/// The UTF-16 units of a character.
pub open spec fn utf16_units(c: char) -> Seq<u16> {
    let u = c as u32;
    if u < 0x1_0000 {
        seq![u as u16]
    } else {
        let v = (u - 0x1_0000) as u32;
        seq![(0xd800 + v / 0x400) as u16, (0xdc00 + v % 0x400) as u16]
    }
}

/// A text in UTF-16.
pub open spec fn utf16_of(s: Seq<char>) -> Seq<u16>
    decreases s.len(),
{
    if s.len() == 0 {
        Seq::empty()
    } else {
        utf16_of(s.drop_last()) + utf16_units(s.last())
    }
}

/// A text in UTF-16 with a zero at its end.
pub fn utf16_with_nul(s: &str) -> (r: Vec<u16>)
    ensures
        r@ == utf16_of(s@).push(0),
{
    let chars = chars_of(s);
    let mut out: Vec<u16> = Vec::new();
    let mut i: usize = 0;
    assert(chars@.take(0) =~= Seq::empty());
    while i < chars.len()
        invariant
            i <= chars@.len(),
            out@ == utf16_of(chars@.take(i as int)),
        decreases chars@.len() - i,
    {
        let ghost before = out@;
        assert(chars@.take(i + 1).drop_last() =~= chars@.take(i as int));
        let u: u32 = chars[i] as u32;
        if u < 0x1_0000 {
            out.push(u as u16);
        } else {
            let v: u32 = u - 0x1_0000;
            out.push((0xd800 + v / 0x400) as u16);
            out.push((0xdc00 + v % 0x400) as u16);
        }
        assert(out@ =~= before + utf16_units(chars@[i as int]));
        i += 1;
    }
    assert(chars@.take(i as int) =~= chars@);
    out.push(0);
    out
}

/// The name under which the memory of a process at `base` is handed in.
pub open spec fn content_name(pid: u32, base: u64) -> Seq<char> {
    if pid == 0 {
        Seq::empty()
    } else {
        "pid="@ + numeral(pid as nat, 10) + "@base=0x"@ + numeral(base as nat, 16)
    }
}

/// The name under which a region is handed in, in UTF-16 with a zero at its
/// end.
pub fn content_name_for(pid: u32, region: &MemoryRegion) -> (r: Vec<u16>)
    ensures
        r@ == utf16_of(content_name(pid, region.base)).push(0),
{
    let mut s = String::new();
    if pid != 0 {
        s = "pid=".to_owned();
        push_number(&mut s, pid as u128, 10);
        s = s.concat("@base=0x");
        push_number(&mut s, region.base as u128, 16);
    }
    assert(s@ =~= content_name(pid, region.base));
    utf16_with_nul(s.as_str())
}

/// Memory that holds the trigger is reported with the description.
#[derive(Debug, Clone)]
pub struct CannedAmsiResult {
    pub trigger: Vec<u8>,
    pub description: String,
}

/// `needle` stands somewhere in `hay`.
pub open spec fn holds_run(hay: Seq<u8>, needle: Seq<u8>) -> bool {
    exists|i: int| run_at(hay, needle, i)
}

/// `needle` stands in `hay` at index `i`.
pub open spec fn run_at(hay: Seq<u8>, needle: Seq<u8>, i: int) -> bool {
    0 <= i <= hay.len() - needle.len() && hay.subrange(i, i + needle.len()) == needle
}

fn same_octets(a: &[u8], b: &[u8]) -> (r: bool)
    ensures
        r == (a@ == b@),
{
    if a.len() != b.len() {
        return false;
    }
    let mut i: usize = 0;
    while i < a.len()
        invariant
            i <= a@.len(),
            a@.len() == b@.len(),
            forall|k: int| 0 <= k < i ==> a@[k] == b@[k],
        decreases a@.len() - i,
    {
        if a[i] != b[i] {
            assert(a@[i as int] != b@[i as int]);
            return false;
        }
        i += 1;
    }
    assert(a@ =~= b@);
    true
}

/// Whether `needle` stands somewhere in `haystack`. What is empty stands
/// everywhere.
pub fn contains_subslice(haystack: &[u8], needle: &[u8]) -> (r: bool)
    ensures
        r == holds_run(haystack@, needle@),
{
    if needle.len() > haystack.len() {
        return false;
    }
    let last: usize = haystack.len() - needle.len();
    let mut i: usize = 0;
    loop
        invariant
            last + needle.len() == haystack.len(),
            i <= last,
            forall|k: int| 0 <= k < i ==> !run_at(haystack@, needle@, k),
        decreases last - i,
    {
        let here = slice_subrange(haystack, i, i + needle.len());
        if same_octets(here, needle) {
            assert(run_at(haystack@, needle@, i as int));
            return true;
        }
        assert(!run_at(haystack@, needle@, i as int));
        if i == last {
            return false;
        }
        i += 1;
    }
}

/// The descriptions of the verdicts among the first `n` whose trigger the
/// memory holds.
pub open spec fn triggered(canned: Seq<CannedAmsiResult>, bytes: Seq<u8>, n: int) -> Seq<Seq<char>>
    decreases n,
{
    if n <= 0 {
        Seq::empty()
    } else {
        let front = triggered(canned, bytes, n - 1);
        if holds_run(bytes, canned[n - 1].trigger@) {
            front.push(canned[n - 1].description@)
        } else {
            front
        }
    }
}

/// Provider with canned verdicts.
#[derive(Debug)]
pub struct MockAmsiProvider {
    canned: Vec<CannedAmsiResult>,
    submissions: u32,
}

impl MockAmsiProvider {
    /// The canned verdicts.
    pub closed spec fn verdicts(&self) -> Seq<CannedAmsiResult> {
        self.canned@
    }

    /// How often memory was handed in.
    pub closed spec fn count(&self) -> u32 {
        self.submissions
    }

    pub fn new(canned: Vec<CannedAmsiResult>) -> (r: MockAmsiProvider)
        ensures
            r.verdicts() == canned@,
            r.count() == 0,
    {
        MockAmsiProvider { canned, submissions: 0 }
    }

    /// How often memory was handed in.
    pub fn submissions(&self) -> (r: u32)
        ensures
            r == self.count(),
    {
        self.submissions
    }
}

impl MemoryMatcher for MockAmsiProvider {
    fn match_bytes(&mut self, pid: u32, region: &MemoryRegion, bytes: &[u8]) -> (r: Vec<MemoryMatch>)
        ensures
            final(self).verdicts() == old(self).verdicts(),
            final(self).count() == if old(self).count() == u32::MAX {
                0
            } else {
                old(self).count() + 1
            },
            r@.map_values(|m: MemoryMatch| m.description@) == triggered(
                old(self).verdicts(),
                bytes@,
                old(self).verdicts().len() as int,
            ),
            forall|i: int|
                0 <= i < r@.len() ==> (#[trigger] r@[i]).alert_type == MemoryAlertKind::AmsiMatch,
    {
        self.submissions = self.submissions.wrapping_add(1);
        let mut out: Vec<MemoryMatch> = Vec::new();
        let mut i: usize = 0;
        assert(out@.map_values(|m: MemoryMatch| m.description@) =~= Seq::empty());
        while i < self.canned.len()
            invariant
                i <= self.canned@.len(),
                self.canned == old(self).canned,
                self.submissions == if old(self).submissions == u32::MAX {
                    0
                } else {
                    old(self).submissions + 1
                },
                out@.map_values(|m: MemoryMatch| m.description@) == triggered(
                    self.canned@,
                    bytes@,
                    i as int,
                ),
                forall|k: int|
                    0 <= k < out@.len() ==> (#[trigger] out@[k]).alert_type
                        == MemoryAlertKind::AmsiMatch,
            decreases self.canned@.len() - i,
        {
            if contains_subslice(bytes, self.canned[i].trigger.as_slice()) {
                let ghost before = out@;
                let m = MemoryMatch {
                    alert_type: MemoryAlertKind::AmsiMatch,
                    description: self.canned[i].description.clone(),
                };
                out.push(m);
                assert(out@.map_values(|m: MemoryMatch| m.description@) =~= before.map_values(
                    |m: MemoryMatch| m.description@,
                ).push(m.description@));
            }
            i += 1;
        }
        out
    }
}

} // verus!
