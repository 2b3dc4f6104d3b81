//! Prerequisite checker: two external tools — a Python interpreter and a
//! git binary — must be installed and invocable before the companion
//! server can be provisioned.
//!
//! The application invokes each tool with its version flag and hands the
//! outcome in; the decision logic is a two-step state machine, so that a
//! failing first probe ends the check at once and the second tool is
//! never invoked.

use vstd::prelude::*;

verus! {

/// The outcome of invoking a tool with its version flag.
pub enum ToolProbe {
    /// The tool could not be invoked at all.
    Failed,
    /// The tool ran; the payload is what it wrote to standard output.
    Output(Vec<u8>),
}

/// The mathematical view of a probe outcome.
pub enum ProbeView {
    Failed,
    Output(Seq<u8>),
}

impl View for ToolProbe {
    type V = ProbeView;

    open spec fn view(&self) -> ProbeView {
        match self {
            ToolProbe::Failed => ProbeView::Failed,
            ToolProbe::Output(o) => ProbeView::Output(o@),
        }
    }
}

/// Where the check stands: which tool to probe next, or the final answer.
pub enum ReqCheckState {
    /// The interpreter probe is pending.
    ProbePython,
    /// The interpreter passed; the version-control probe is pending.
    ProbeGit,
    /// The check is over with this answer.
    Done(String),
}

/// The mathematical view of the check's state.
pub enum ReqStateView {
    ProbePython,
    ProbeGit,
    Done(Seq<char>),
}

impl View for ReqCheckState {
    type V = ReqStateView;

    open spec fn view(&self) -> ReqStateView {
        match self {
            ReqCheckState::ProbePython => ReqStateView::ProbePython,
            ReqCheckState::ProbeGit => ReqStateView::ProbeGit,
            ReqCheckState::Done(m) => ReqStateView::Done(m@),
        }
    }
}

/// `Python ` — the banner the interpreter's version output must begin
/// with.
pub open spec fn python_banner() -> Seq<u8> {
    seq![80u8, 121u8, 116u8, 104u8, 111u8, 110u8, 32u8]
}

/// `git version ` — the banner the version-control tool's output must
/// begin with.
pub open spec fn git_banner() -> Seq<u8> {
    seq![103u8, 105u8, 116u8, 32u8, 118u8, 101u8, 114u8, 115u8, 105u8, 111u8, 110u8, 32u8]
}

/// A probe passes when the tool ran and its output begins with the
/// expected banner.
pub open spec fn banner_ok(banner: Seq<u8>, p: ProbeView) -> bool {
    p matches ProbeView::Output(o) && banner.is_prefix_of(o)
}

/// The check's transition: what one probe outcome makes of the state.
pub open spec fn spec_step(st: ReqStateView, p: ProbeView) -> ReqStateView {
    match st {
        ReqStateView::ProbePython => {
            if banner_ok(python_banner(), p) {
                ReqStateView::ProbeGit
            } else if p is Failed {
                ReqStateView::Done("Python is not installed, or not loadable"@)
            } else {
                ReqStateView::Done("Python is not installed"@)
            }
        },
        ReqStateView::ProbeGit => {
            if banner_ok(git_banner(), p) {
                ReqStateView::Done("success"@)
            } else if p is Failed {
                ReqStateView::Done("Git is not installed, or not loadable"@)
            } else {
                ReqStateView::Done("Git is not installed"@)
            }
        },
        ReqStateView::Done(m) => ReqStateView::Done(m),
    }
}

/// The state the check begins in.
pub fn requirements_start() -> (r: ReqCheckState)
    ensures
        r@ == ReqStateView::ProbePython,
{
    ReqCheckState::ProbePython
}

/// `Python ` as bytes.
fn python_banner_bytes() -> (r: Vec<u8>)
    ensures
        r@ == python_banner(),
{
    let v: Vec<u8> = vec![80u8, 121u8, 116u8, 104u8, 111u8, 110u8, 32u8];
    proof {
        assert(v@ =~= python_banner());
    }
    v
}

/// `git version ` as bytes.
fn git_banner_bytes() -> (r: Vec<u8>)
    ensures
        r@ == git_banner(),
{
    let v: Vec<u8> = vec![
        103u8,
        105u8,
        116u8,
        32u8,
        118u8,
        101u8,
        114u8,
        115u8,
        105u8,
        111u8,
        110u8,
        32u8,
    ];
    proof {
        assert(v@ =~= git_banner());
    }
    v
}

/// Advances the check by one probe outcome.
pub fn requirements_step(st: &ReqCheckState, probe: &ToolProbe) -> (r: ReqCheckState)
    ensures
        r@ == spec_step(st@, probe@),
{
    match st {
        ReqCheckState::ProbePython => {
            match probe {
                ToolProbe::Failed => ReqCheckState::Done(
                    String::from_str("Python is not installed, or not loadable"),
                ),
                ToolProbe::Output(o) => {
                    let banner = python_banner_bytes();
                    if crate::util::starts_with(o, &banner) {
                        ReqCheckState::ProbeGit
                    } else {
                        ReqCheckState::Done(String::from_str("Python is not installed"))
                    }
                },
            }
        },
        ReqCheckState::ProbeGit => {
            match probe {
                ToolProbe::Failed => ReqCheckState::Done(
                    String::from_str("Git is not installed, or not loadable"),
                ),
                ToolProbe::Output(o) => {
                    let banner = git_banner_bytes();
                    if crate::util::starts_with(o, &banner) {
                        ReqCheckState::Done(String::from_str("success"))
                    } else {
                        ReqCheckState::Done(String::from_str("Git is not installed"))
                    }
                },
            }
        },
        ReqCheckState::Done(m) => ReqCheckState::Done(m.clone()),
    }
}

/// The whole check ends in `success` exactly when both probes carry their
/// banners; any other pair of outcomes ends in a diagnostic.
pub proof fn lemma_success_iff_both_banners(p1: ProbeView, p2: ProbeView)
    ensures
        spec_step(spec_step(ReqStateView::ProbePython, p1), p2) == ReqStateView::Done("success"@)
            <==> (banner_ok(python_banner(), p1) && banner_ok(git_banner(), p2)),
{
    reveal_strlit("success");
    reveal_strlit("Python is not installed, or not loadable");
    reveal_strlit("Python is not installed");
    reveal_strlit("Git is not installed, or not loadable");
    reveal_strlit("Git is not installed");
    assert("success"@.len() == 7);
    assert("Python is not installed, or not loadable"@.len() != 7);
    assert("Python is not installed"@.len() != 7);
    assert("Git is not installed, or not loadable"@.len() != 7);
    assert("Git is not installed"@.len() != 7);
}

/// A first probe that misses its banner ends the check at once: the state
/// for the second tool is never reached, so that tool is never invoked.
pub proof fn lemma_first_failure_short_circuits(p: ProbeView)
    ensures
        !banner_ok(python_banner(), p) ==> (spec_step(ReqStateView::ProbePython, p)
            matches ReqStateView::Done(_)),
        banner_ok(python_banner(), p) ==> spec_step(ReqStateView::ProbePython, p)
            == ReqStateView::ProbeGit,
{
}

} // verus!
