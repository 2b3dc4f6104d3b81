//! Companion-server provisioner: a state machine that ensures the
//! server's code is present locally — cloning a fixed remote repository
//! on first use — and launches it from a platform-specific entry script.
//!
//! The application performs the filesystem and process work (probing
//! directories, running the clone, renaming, spawning) and feeds each
//! outcome back as an event; the machine decides what happens next.  The
//! rename to the canonical installation name is the atomic "installed"
//! marker: once the installation directory is present, cloning is never
//! attempted again.

use vstd::prelude::*;

verus! {

/// Where the provisioner stands.
#[derive(Clone, Copy, PartialEq, Eq, Structural, Debug)]
pub enum ProvisionState {
    /// The application base directory must exist before anything else.
    EnsureBase,
    /// Probe whether the installation directory is already present.
    CheckInstall,
    /// The installation is absent: clone the remote repository.
    CloneRepo,
    /// The clone arrived under its repository name: rename it to the
    /// canonical installation name.
    RenameClone,
    /// The installation is present: spawn the entry script.
    Launch,
    /// The server was spawned; ownership has passed to the OS.
    Done,
    /// The clone failed; the operation ends silently.
    Aborted,
}

/// What the application reports back.
#[derive(Clone, Copy, PartialEq, Eq, Structural, Debug)]
pub enum ProvisionEvent {
    /// The base directory exists (it was found or just created).
    BaseReady,
    /// Whether the installation directory is present.
    InstallChecked { present: bool },
    /// Whether the clone command succeeded.
    CloneFinished { ok: bool },
    /// The cloned directory now carries the canonical name.
    Renamed,
    /// The entry script was spawned.
    Spawned,
}

/// What the application must do next in a given state.
#[derive(Clone, Copy, PartialEq, Eq, Structural, Debug)]
pub enum ProvisionAction {
    /// Create the base directory if it is missing.
    EnsureBaseDir,
    /// Probe for the installation directory.
    ProbeInstallDir,
    /// Run the clone of the fixed remote repository.
    RunClone,
    /// Rename the cloned directory to the canonical installation name.
    RenameClonedDir,
    /// Spawn the platform's entry script from the installation directory.
    SpawnEntry,
    /// Nothing: the operation is over.
    Finish,
}

/// The provisioner's transition: an event that does not belong to the
/// state changes nothing.
pub open spec fn spec_step(st: ProvisionState, ev: ProvisionEvent) -> ProvisionState {
    match (st, ev) {
        (ProvisionState::EnsureBase, ProvisionEvent::BaseReady) => ProvisionState::CheckInstall,
        (ProvisionState::CheckInstall, ProvisionEvent::InstallChecked { present }) => {
            if present {
                ProvisionState::Launch
            } else {
                ProvisionState::CloneRepo
            }
        },
        (ProvisionState::CloneRepo, ProvisionEvent::CloneFinished { ok }) => {
            if ok {
                ProvisionState::RenameClone
            } else {
                ProvisionState::Aborted
            }
        },
        (ProvisionState::RenameClone, ProvisionEvent::Renamed) => ProvisionState::Launch,
        (ProvisionState::Launch, ProvisionEvent::Spawned) => ProvisionState::Done,
        _ => st,
    }
}

/// The action each state asks of the application.
pub open spec fn spec_action(st: ProvisionState) -> ProvisionAction {
    match st {
        ProvisionState::EnsureBase => ProvisionAction::EnsureBaseDir,
        ProvisionState::CheckInstall => ProvisionAction::ProbeInstallDir,
        ProvisionState::CloneRepo => ProvisionAction::RunClone,
        ProvisionState::RenameClone => ProvisionAction::RenameClonedDir,
        ProvisionState::Launch => ProvisionAction::SpawnEntry,
        ProvisionState::Done => ProvisionAction::Finish,
        ProvisionState::Aborted => ProvisionAction::Finish,
    }
}

/// The state a provisioning run begins in.
pub fn provision_start() -> (r: ProvisionState)
    ensures
        r == ProvisionState::EnsureBase,
{
    ProvisionState::EnsureBase
}

/// Advances the provisioner by one reported event.
pub fn provision_step(st: ProvisionState, ev: ProvisionEvent) -> (r: ProvisionState)
    ensures
        r == spec_step(st, ev),
{
    match (st, ev) {
        (ProvisionState::EnsureBase, ProvisionEvent::BaseReady) => ProvisionState::CheckInstall,
        (ProvisionState::CheckInstall, ProvisionEvent::InstallChecked { present }) => {
            if present {
                ProvisionState::Launch
            } else {
                ProvisionState::CloneRepo
            }
        },
        (ProvisionState::CloneRepo, ProvisionEvent::CloneFinished { ok }) => {
            if ok {
                ProvisionState::RenameClone
            } else {
                ProvisionState::Aborted
            }
        },
        (ProvisionState::RenameClone, ProvisionEvent::Renamed) => ProvisionState::Launch,
        (ProvisionState::Launch, ProvisionEvent::Spawned) => ProvisionState::Done,
        (other, _) => other,
    }
}

/// What the application must do in the given state.
pub fn provision_action(st: ProvisionState) -> (r: ProvisionAction)
    ensures
        r == spec_action(st),
{
    match st {
        ProvisionState::EnsureBase => ProvisionAction::EnsureBaseDir,
        ProvisionState::CheckInstall => ProvisionAction::ProbeInstallDir,
        ProvisionState::CloneRepo => ProvisionAction::RunClone,
        ProvisionState::RenameClone => ProvisionAction::RenameClonedDir,
        ProvisionState::Launch => ProvisionAction::SpawnEntry,
        ProvisionState::Done => ProvisionAction::Finish,
        ProvisionState::Aborted => ProvisionAction::Finish,
    }
}

/// The state after a whole sequence of reported events.
pub open spec fn run_from(st: ProvisionState, evs: Seq<ProvisionEvent>) -> ProvisionState
    decreases evs.len(),
{
    if evs.len() == 0 {
        st
    } else {
        run_from(spec_step(st, evs[0]), evs.drop_first())
    }
}

/// The clone state is entered only from a probe that reported the
/// installation directory absent.
pub proof fn lemma_clone_needs_absent(st: ProvisionState, ev: ProvisionEvent)
    ensures
        (st != ProvisionState::CloneRepo && spec_step(st, ev) == ProvisionState::CloneRepo) ==> (st
            == ProvisionState::CheckInstall && ev == (ProvisionEvent::InstallChecked {
            present: false,
        })),
{
}

/// A run in which every probe of the installation directory reports it
/// present never enters the clone state — in particular, a second
/// provisioning call made after the installation directory exists makes
/// zero clone attempts.
pub proof fn lemma_present_run_never_clones(st: ProvisionState, evs: Seq<ProvisionEvent>)
    requires
        st != ProvisionState::CloneRepo,
        forall|i: int|
            0 <= i < evs.len() ==> #[trigger] evs[i] != (ProvisionEvent::InstallChecked {
                present: false,
            }),
    ensures
        run_from(st, evs) != ProvisionState::CloneRepo,
        forall|k: int|
            0 <= k <= evs.len() ==> #[trigger] run_from(st, evs.take(k))
                != ProvisionState::CloneRepo,
    decreases evs.len(),
{
    if evs.len() == 0 {
        assert forall|k: int| 0 <= k <= evs.len() implies #[trigger] run_from(st, evs.take(k))
            != ProvisionState::CloneRepo by {
            assert(evs.take(k) =~= evs);
        }
    } else {
        let st1 = spec_step(st, evs[0]);
        lemma_clone_needs_absent(st, evs[0]);
        assert(st1 != ProvisionState::CloneRepo);
        let tail = evs.drop_first();
        assert(forall|i: int|
            0 <= i < tail.len() ==> #[trigger] tail[i] != (ProvisionEvent::InstallChecked {
                present: false,
            }));
        lemma_present_run_never_clones(st1, tail);
        assert forall|k: int| 0 <= k <= evs.len() implies #[trigger] run_from(st, evs.take(k))
            != ProvisionState::CloneRepo by {
            if k == 0 {
                assert(evs.take(0) =~= Seq::<ProvisionEvent>::empty());
            } else {
                let tk = evs.take(k);
                assert(tk[0] == evs[0]);
                assert(tk.drop_first() =~= tail.take(k - 1));
                assert(run_from(st, tk) == run_from(st1, tail.take(k - 1)));
            }
        }
    }
}

/// The platform's entry script: `run.cmd` on the Windows family,
/// `run.sh` everywhere else.
pub fn entry_script(windows: bool) -> (r: String)
    ensures
        windows ==> r@ == "run.cmd"@,
        !windows ==> r@ == "run.sh"@,
{
    if windows {
        String::from_str("run.cmd")
    } else {
        String::from_str("run.sh")
    }
}

/// The fixed remote repository the companion server is cloned from.
pub fn repo_url() -> (r: String)
    ensures
        r@ == "https://github.com/kwaroran/risu-exllama-connector.git"@,
{
    String::from_str("https://github.com/kwaroran/risu-exllama-connector.git")
}

/// The directory name the clone arrives under.
pub fn cloned_dir_name() -> (r: String)
    ensures
        r@ == "risu-exllama-connector"@,
{
    String::from_str("risu-exllama-connector")
}

/// The canonical installation directory name.
pub fn install_dir_name() -> (r: String)
    ensures
        r@ == "local_server"@,
{
    String::from_str("local_server")
}

/// The application-private base directory name.
pub fn base_dir_name() -> (r: String)
    ensures
        r@ == "co.aiclient.risu"@,
{
    String::from_str("co.aiclient.risu")
}

} // verus!
