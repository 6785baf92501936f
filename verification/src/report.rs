//! The self-test ("doctor") report: checks are recorded as they run and the
//! report text is assembled at the end.

use vstd::prelude::*;
use crate::text::{decimal, format_decimal, join, owned, seq_join};

verus! {

/// One recorded check: `PASS` or `FAIL`, the check's name, then its detail
/// on an indented line.
pub open spec fn check_text(passed: bool, what: Seq<char>, detail: Seq<char>) -> Seq<char> {
    (if passed { "PASS  "@ } else { "FAIL  "@ }) + what + "\n      "@ + detail
}

/// Whether a recorded check is a failed one.
pub open spec fn is_failed_check(c: Seq<char>) -> bool {
    c.len() >= 6 && c.subrange(0, 6) == "FAIL  "@
}

/// Number of failed checks among `checks`.
pub open spec fn fail_count(checks: Seq<Seq<char>>) -> nat
    decreases checks.len(),
{
    if checks.len() == 0 {
        0
    } else {
        fail_count(checks.drop_last()) + if is_failed_check(checks.last()) { 1nat } else { 0nat }
    }
}

/// The closing verdict of a report.
pub open spec fn verdict_text(fails: nat) -> Seq<char> {
    if fails == 0 {
        "\n\nRESULT: ALL CHECKS PASSED — the engine stack works on this machine."@
    } else {
        "\n\nRESULT: "@ + decimal(fails) + " check(s) failed. Send this whole file to support.\nMost common fixes: extract the FULL archive (both .exe files together), allow bevyforge-runtime.exe in Windows Defender, or update GPU drivers."@
    }
}

/// The header lines of a report.
pub open spec fn header_lines(version: Seq<char>, os: Seq<char>, arch: Seq<char>, port: u16, when: Seq<char>) -> Seq<Seq<char>> {
    seq![
        "BevyForge doctor — v"@ + version,
        "platform: "@ + os + " "@ + arch + " | port "@ + decimal(port as nat) + " | "@ + when,
    ]
}

/// A self-test report in progress.
pub struct Report {
    lines: Vec<String>,
    fails: usize,
}

impl Report {
    /// The checks recorded so far, in order.
    pub closed spec fn checks(&self) -> Seq<Seq<char>> {
        self.lines@.map_values(|s: String| s@)
    }

    /// Number of failed checks.
    pub closed spec fn failures(&self) -> nat {
        self.fails as nat
    }

    /// The failure count is the number of failed checks recorded.
    pub open spec fn wf(&self) -> bool {
        self.failures() == fail_count(self.checks())
    }

    /// An empty report.
    pub fn new() -> (r: Self)
        ensures
            r.wf(),
            r.checks() == Seq::<Seq<char>>::empty(),
            r.failures() == 0,
    {
        let r = Report { lines: Vec::new(), fails: 0 };
        assert(r.checks() =~= Seq::<Seq<char>>::empty());
        r
    }

    /// Record a passed check.
    pub fn ok(&mut self, what: &str, detail: &str)
        requires
            old(self).wf(),
        ensures
            final(self).wf(),
            final(self).checks() == old(self).checks().push(check_text(true, what@, detail@)),
            final(self).failures() == old(self).failures(),
    {
        let mut l = owned("PASS  ");
        l.append(what);
        l.append("\n      ");
        l.append(detail);
        let ghost lv = l@;
        self.lines.push(l);
        assert(self.checks() =~= old(self).checks().push(lv));
        proof {
            reveal_strlit("PASS  ");
            reveal_strlit("FAIL  ");
            assert(self.checks().drop_last() =~= old(self).checks());
            assert(lv.subrange(0, 6) =~= "PASS  "@);
            assert(!is_failed_check(lv)) by {
                if lv.subrange(0, 6) == "FAIL  "@ {
                    assert(lv.subrange(0, 6)[0] == 'P');
                }
            }
        }
    }

    /// Record a failed check.
    pub fn fail(&mut self, what: &str, detail: &str)
        requires
            old(self).wf(),
            old(self).failures() < usize::MAX,
        ensures
            final(self).wf(),
            final(self).checks() == old(self).checks().push(check_text(false, what@, detail@)),
            final(self).failures() == old(self).failures() + 1,
    {
        self.fails = self.fails + 1;
        let mut l = owned("FAIL  ");
        l.append(what);
        l.append("\n      ");
        l.append(detail);
        let ghost lv = l@;
        self.lines.push(l);
        assert(self.checks() =~= old(self).checks().push(lv));
        proof {
            reveal_strlit("FAIL  ");
            assert(self.checks().drop_last() =~= old(self).checks());
            assert(lv.subrange(0, 6) =~= "FAIL  "@);
        }
    }

    /// Number of failed checks.
    pub fn failed(&self) -> (n: usize)
        ensures
            n == self.failures(),
    {
        self.fails
    }

    /// The report text: the header (editor `version`, platform `os` and
    /// `arch`, `port`, the time `when`), every check, separated by blank
    /// lines, then the verdict and a final newline.
    pub fn finish(self, port: u16, version: &str, os: &str, arch: &str, when: &str) -> (r: String)
        ensures
            r@ == seq_join(header_lines(version@, os@, arch@, port, when@) + self.checks(), "\n\n"@)
                + verdict_text(self.failures()) + "\n"@,
    {
        let mut all: Vec<String> = Vec::new();
        let mut h0 = owned("BevyForge doctor — v");
        h0.append(version);
        all.push(h0);
        let mut h1 = owned("platform: ");
        h1.append(os);
        h1.append(" ");
        h1.append(arch);
        h1.append(" | port ");
        let p = format_decimal(port as u64);
        h1.append(p.as_str());
        h1.append(" | ");
        h1.append(when);
        all.push(h1);
        let n = self.lines.len();
        let mut i: usize = 0;
        while i < n
            invariant
                n == self.lines@.len(),
                i <= n,
                all@.map_values(|s: String| s@) == header_lines(version@, os@, arch@, port, when@)
                    + self.checks().subrange(0, i as int),
            decreases n - i,
        {
            let ghost before = all@.map_values(|s: String| s@);
            let c = self.lines[i].clone();
            assert(c@ == self.checks()[i as int]);
            all.push(c);
            i = i + 1;
            assert(all@.map_values(|s: String| s@) =~= before.push(self.checks()[i - 1]));
            assert(all@.map_values(|s: String| s@) =~= header_lines(version@, os@, arch@, port, when@)
                + self.checks().subrange(0, i as int));
        }
        assert(self.checks().subrange(0, n as int) =~= self.checks());
        let mut text = join(&all, "\n\n");
        if self.fails == 0 {
            text.append("\n\nRESULT: ALL CHECKS PASSED — the engine stack works on this machine.");
        } else {
            text.append("\n\nRESULT: ");
            let f = format_decimal(self.fails as u64);
            text.append(f.as_str());
            text.append(" check(s) failed. Send this whole file to support.\nMost common fixes: extract the FULL archive (both .exe files together), allow bevyforge-runtime.exe in Windows Defender, or update GPU drivers.");
        }
        text.append("\n");
        text
    }
}

} // verus!
