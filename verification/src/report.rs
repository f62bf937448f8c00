//! What each cycle reports, exactly.
//!
//! Every line the runner prints is built here, and each builder's
//! contract gives the exact text, up to the styled fragments (see
//! `style`). Quiet mode is part of every contract: with `verbose`
//! false no builder produces a status line, and the per-cycle output
//! is exactly the mirrored command output or nothing at all.

use vstd::prelude::*;

use crate::digits::{dec_digits, is_digit, u64_to_dec, lemma_dec_digits_are_digits};
use crate::policy::RepeatPolicy;
use crate::style;
use crate::style::{no_esc, styled};

verus! {

/// What one launch attempt came to: a completed command (whatever its
/// exit status) with its captured streams, or a failure to start it.
pub enum CycleOutcome {
    Success { ok: bool, stdout: String, stderr: String },
    LaunchFailure { reason: String },
}

impl CycleOutcome {
    /// Whether the command was launched and ran to completion.
    pub open spec fn is_success_spec(self) -> bool {
        match self {
            CycleOutcome::Success { .. } => true,
            CycleOutcome::LaunchFailure { .. } => false,
        }
    }

    /// Whether the command itself reported success.
    pub open spec fn ok_spec(self) -> bool {
        match self {
            CycleOutcome::Success { ok, .. } => ok,
            CycleOutcome::LaunchFailure { .. } => false,
        }
    }

    /// The captured standard output, empty on a launch failure.
    pub open spec fn stdout_spec(self) -> Seq<char> {
        match self {
            CycleOutcome::Success { stdout, .. } => stdout@,
            CycleOutcome::LaunchFailure { .. } => Seq::<char>::empty(),
        }
    }

    /// The captured standard error, empty on a launch failure.
    pub open spec fn stderr_spec(self) -> Seq<char> {
        match self {
            CycleOutcome::Success { stderr, .. } => stderr@,
            CycleOutcome::LaunchFailure { .. } => Seq::<char>::empty(),
        }
    }

    /// The launch error's description, empty on success.
    pub open spec fn reason_spec(self) -> Seq<char> {
        match self {
            CycleOutcome::Success { .. } => Seq::<char>::empty(),
            CycleOutcome::LaunchFailure { reason } => reason@,
        }
    }

    /// Whether the run may continue after this outcome.
    pub fn is_success(&self) -> (r: bool)
        ensures
            r == self.is_success_spec(),
    {
        match self {
            CycleOutcome::Success { .. } => true,
            CycleOutcome::LaunchFailure { .. } => false,
        }
    }
}

/// The announcement before a wait: the interval in styled decimal.
pub open spec fn announce_text(t: Seq<char>, secs: nat) -> bool {
    exists|f: Seq<char>|
        styled(f, dec_digits(secs)) && t == "Next command in "@ + f + " seconds.\n"@
}

/// The progress line between two sleep chunks.
pub open spec fn progress_text(t: Seq<char>, elapsed: nat, remaining: nat) -> bool {
    exists|f1: Seq<char>, f2: Seq<char>|
        styled(f1, dec_digits(elapsed)) && styled(f2, dec_digits(remaining)) && t == f1
            + " seconds elapsed! "@ + f2 + " seconds remaining.\n"@
}

/// A fragment standing for `s`: whenever `s` is free of escape
/// characters, the fragment is a styled rendering of it.
pub open spec fn styled_frag(f: Seq<char>, s: Seq<char>) -> bool {
    no_esc(s) ==> styled(f, s)
}

/// The status line before an issued command's mirrored output.
pub open spec fn issued_text(t: Seq<char>, cmd: Seq<char>) -> bool {
    exists|f: Seq<char>| styled_frag(f, cmd) && t == "Issued command "@ + f + ".\n"@
}

/// The success-or-failure label of a completed command.
pub open spec fn status_text(t: Seq<char>, ok: bool) -> bool {
    exists|f: Seq<char>|
        styled(f, if ok { "succeeded"@ } else { "failed"@ }) && t == "Command "@ + f + ":\n"@
}

/// The diagnostic for a launch failure: the attempted command and the
/// underlying error's description.
pub open spec fn failure_text(t: Seq<char>, cmd: Seq<char>, reason: Seq<char>) -> bool {
    exists|f1: Seq<char>, f2: Seq<char>|
        styled(f1, "Failed to execute"@) && styled_frag(f2, cmd) && t == f1 + ": "@ + f2
            + "\nReason: "@ + reason + "\n"@
}

/// The count reported between cycles of a bounded run.
pub open spec fn remaining_text(t: Seq<char>, n: nat) -> bool {
    exists|f: Seq<char>| styled(f, dec_digits(n)) && t == f + " repeats remaining.\n"@
}

/// A decimal numeral never contains the escape character.
pub proof fn lemma_digits_no_esc(n: nat)
    ensures
        no_esc(dec_digits(n)),
{
    lemma_dec_digits_are_digits(n);
    assert forall|i: int| 0 <= i < dec_digits(n).len() implies dec_digits(n)[i] != '\x1b' by {
        assert(is_digit(dec_digits(n)[i]));
        assert(('\x1b' as u32) == 27);
    }
}

/// The pre-wait announcement; nothing in quiet mode.
pub fn announce_message(verbose: bool, interval: u64) -> (r: Option<String>)
    ensures
        verbose == r is Some,
        r is Some ==> announce_text(r->0@, interval as nat),
{
    if verbose {
        let frag = style::green_bold(u64_to_dec(interval).as_str());
        let mut m = String::from_str("Next command in ");
        m.append(frag.as_str());
        m.append(" seconds.\n");
        proof {
            lemma_digits_no_esc(interval as nat);
            assert(m@ =~= "Next command in "@ + frag@ + " seconds.\n"@);
            assert(styled(frag@, dec_digits(interval as nat)) && m@ == "Next command in "@
                + frag@ + " seconds.\n"@);
            assert(announce_text(m@, interval as nat));
        }
        Some(m)
    } else {
        None
    }
}

/// The remainder as the progress line quotes it: rounded up by one
/// for the truncation of the measured elapsed time, saturating at the
/// machine limit.
pub open spec fn rounded_remaining(remaining: u64) -> nat {
    if remaining == u64::MAX {
        remaining as nat
    } else {
        (remaining + 1) as nat
    }
}

/// The progress line after a completed sleep chunk, quoting the
/// measured elapsed seconds and the remaining seconds rounded up by
/// one; nothing in quiet mode.
pub fn progress_message(verbose: bool, elapsed: u64, remaining: u64) -> (r: Option<String>)
    ensures
        verbose == r is Some,
        r is Some ==> progress_text(r->0@, elapsed as nat, rounded_remaining(remaining)),
{
    if verbose {
        let display: u64 = if remaining == u64::MAX {
            remaining
        } else {
            remaining + 1
        };
        let f1 = style::green(u64_to_dec(elapsed).as_str());
        let f2 = style::green(u64_to_dec(display).as_str());
        let mut m = f1;
        let ghost f1v = m@;
        m.append(" seconds elapsed! ");
        m.append(f2.as_str());
        m.append(" seconds remaining.\n");
        proof {
            lemma_digits_no_esc(elapsed as nat);
            lemma_digits_no_esc(display as nat);
            assert(m@ =~= f1v + " seconds elapsed! "@ + f2@ + " seconds remaining.\n"@);
            assert(styled(f1v, dec_digits(elapsed as nat)) && styled(
                f2@,
                dec_digits(display as nat),
            ) && m@ == f1v + " seconds elapsed! "@ + f2@ + " seconds remaining.\n"@);
            assert(display as nat == rounded_remaining(remaining));
            assert(progress_text(m@, elapsed as nat, rounded_remaining(remaining)));
        }
        Some(m)
    } else {
        None
    }
}

/// Everything one cycle writes to the two standard streams after the
/// launch attempt.
pub struct CycleReport {
    /// Text for this process's standard output.
    pub out: String,
    /// Text for this process's standard error.
    pub err: String,
    /// Whether the run may go on: false exactly on a launch failure.
    pub continue_run: bool,
}

/// What a cycle reports once the launch attempt is over.
///
/// On a launch failure nothing goes to standard output and the
/// diagnostic goes to standard error, and the run stops. On a
/// completed command, standard output carries the verbose status
/// lines and, with mirroring on, the captured output verbatim, while
/// standard error carries the captured error stream verbatim; with
/// mirroring off the captured streams are discarded. In quiet mode
/// the mirrored output is all there is.
pub fn cycle_output(outcome: &CycleOutcome, cmd: &str, mirror: bool, verbose: bool) -> (rep:
    CycleReport)
    ensures
        rep.continue_run == outcome.is_success_spec(),
        !outcome.is_success_spec() ==> rep.out@ == Seq::<char>::empty(),
        !outcome.is_success_spec() ==> failure_text(rep.err@, cmd@, outcome.reason_spec()),
        outcome.is_success_spec() && mirror ==> rep.err@ == outcome.stderr_spec(),
        outcome.is_success_spec() && !mirror ==> rep.err@ == Seq::<char>::empty(),
        outcome.is_success_spec() && verbose && mirror ==> (exists|a: Seq<char>, b: Seq<char>|
            issued_text(a, cmd@) && status_text(b, outcome.ok_spec()) && rep.out@ == a + b
                + outcome.stdout_spec()),
        outcome.is_success_spec() && verbose && !mirror ==> (exists|a: Seq<char>|
            issued_text(a, cmd@) && rep.out@ == a + "\n"@),
        outcome.is_success_spec() && !verbose && mirror ==> rep.out@ == outcome.stdout_spec(),
        outcome.is_success_spec() && !verbose && !mirror ==> rep.out@ == Seq::<char>::empty(),
        mirror ==> (exists|p: Seq<char>| rep.out@ == p + outcome.stdout_spec()),
{
    match outcome {
        CycleOutcome::LaunchFailure { reason } => {
            let f1 = style::red_bold("Failed to execute");
            let f2 = style::blue_bold(cmd);
            let mut err = f1;
            let ghost f1v = err@;
            err.append(": ");
            err.append(f2.as_str());
            err.append("\nReason: ");
            err.append(reason.as_str());
            err.append("\n");
            proof {
                reveal_strlit("Failed to execute");
                assert(no_esc("Failed to execute"@));
                assert(err@ =~= f1v + ": "@ + f2@ + "\nReason: "@ + reason@ + "\n"@);
                assert(styled(f1v, "Failed to execute"@) && styled_frag(f2@, cmd@) && err@ == f1v
                    + ": "@ + f2@ + "\nReason: "@ + reason@ + "\n"@);
                assert(failure_text(err@, cmd@, reason@));
            }
            let out = String::new();
            proof {
                assert(outcome.stdout_spec() == Seq::<char>::empty());
                assert(out@ =~= Seq::<char>::empty() + Seq::<char>::empty());
                assert(exists|p: Seq<char>| out@ == p + outcome.stdout_spec());
            }
            CycleReport { out, err, continue_run: false }
        },
        CycleOutcome::Success { ok, stdout, stderr } => {
            let mut out = String::new();
            let ghost mut issued: Seq<char> = Seq::<char>::empty();
            let ghost mut status: Seq<char> = Seq::<char>::empty();
            if verbose {
                let f = style::blue_bold(cmd);
                out.append("Issued command ");
                out.append(f.as_str());
                out.append(".\n");
                proof {
                    issued = out@;
                    assert(issued =~= "Issued command "@ + f@ + ".\n"@);
                    assert(styled_frag(f@, cmd@) && issued == "Issued command "@ + f@ + ".\n"@);
                    assert(issued_text(issued, cmd@));
                }
            }
            if mirror {
                if verbose {
                    let sf = if *ok {
                        let s = style::green_bold("succeeded");
                        proof {
                            reveal_strlit("succeeded");
                            assert(no_esc("succeeded"@));
                        }
                        s
                    } else {
                        let s = style::red_bold("failed");
                        proof {
                            reveal_strlit("failed");
                            assert(no_esc("failed"@));
                        }
                        s
                    };
                    out.append("Command ");
                    out.append(sf.as_str());
                    out.append(":\n");
                    proof {
                        status = "Command "@ + sf@ + ":\n"@;
                        assert(styled(sf@, if *ok { "succeeded"@ } else { "failed"@ }) && status
                            == "Command "@ + sf@ + ":\n"@);
                        assert(status_text(status, *ok));
                        assert(out@ =~= issued + status);
                    }
                }
                out.append(stdout.as_str());
                proof {
                    if verbose {
                        assert(out@ =~= issued + status + stdout@);
                    } else {
                        assert(out@ =~= stdout@);
                        assert(out@ =~= Seq::<char>::empty() + stdout@);
                    }
                }
            } else {
                if verbose {
                    out.append("\n");
                    proof {
                        assert(out@ =~= issued + "\n"@);
                    }
                }
            }
            let mut err = String::new();
            if mirror {
                err.append(stderr.as_str());
                proof {
                    assert(err@ =~= stderr@);
                }
            }
            proof {
                assert(outcome.ok_spec() == *ok);
                assert(outcome.stdout_spec() == stdout@);
                if mirror {
                    if verbose {
                        assert(out@ == (issued + status) + stdout@);
                        assert(exists|a: Seq<char>, b: Seq<char>|
                            issued_text(a, cmd@) && status_text(b, outcome.ok_spec()) && out@ == a
                                + b + stdout@);
                        assert(exists|p: Seq<char>| out@ == p + stdout@);
                    } else {
                        assert(out@ == Seq::<char>::empty() + stdout@);
                        assert(exists|p: Seq<char>| out@ == p + stdout@);
                    }
                }
            }
            CycleReport { out, err, continue_run: true }
        },
    }
}

/// The count still owed, reported between cycles of a bounded run;
/// nothing in quiet mode, after the last cycle, or under an infinite
/// policy.
pub fn remaining_message(verbose: bool, policy: &RepeatPolicy) -> (r: Option<String>)
    ensures
        (r is Some) == (verbose && policy.remaining_spec() > 0),
        r is Some ==> remaining_text(r->0@, policy.remaining_spec()),
{
    if verbose {
        match policy {
            RepeatPolicy::Bounded(n) => {
                if *n > 0 {
                    let frag = style::yellow_bold(u64_to_dec(*n).as_str());
                    let mut m = frag;
                    let ghost fv = m@;
                    m.append(" repeats remaining.\n");
                    proof {
                        lemma_digits_no_esc(*n as nat);
                        assert(m@ =~= fv + " repeats remaining.\n"@);
                        assert(styled(fv, dec_digits(*n as nat)) && m@ == fv
                            + " repeats remaining.\n"@);
                        assert(remaining_text(m@, policy.remaining_spec()));
                    }
                    Some(m)
                } else {
                    None
                }
            },
            RepeatPolicy::Infinite => None,
        }
    } else {
        None
    }
}

} // verus!
