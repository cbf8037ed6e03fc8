//! The supervisor state machine.
//!
//! The runner loop owns one [`Vaultvisor`] value.  The effectful steps of
//! the loop (spawning, signalling, writing files) are planned here and
//! recorded here, so that the central exclusion and ordering invariants
//! are checked: at most one live child, every spawn preceded by an
//! installation of the same binary, and a termination between any two
//! spawns.

use vstd::prelude::*;

use crate::bin_name::{derive_bin_name, derive_name_spec, join_path, join_path_bytes, NameOutcome};
use crate::byteseq::{bytes_eq, clone_bytes};
use crate::error::Error;
use crate::release::{ClientRelease, DownloadedRelease};

verus! {

/// Nominal block period of the chain, in seconds: how long the runner
/// loop sleeps between release checks.
pub const BLOCK_TIME_SECS: u64 = 6;

/// File mode of an installed binary: owner read, write and execute.
pub const BIN_FILE_MODE: u32 = 0o700;

/// One entry of the supervisor's lifecycle history.
pub ghost enum LifecycleEvent {
    /// A binary with the given name was written to disk.
    Installed(Seq<u8>),
    /// A child process was spawned from the binary with the given name.
    Spawned(Seq<u8>),
    /// The child process was terminated and reaped.
    Terminated,
    /// The downloaded binary was removed from disk.
    Deleted,
}

/// Every spawn is preceded by an installation of the same binary name.
pub open spec fn spawns_installed(h: Seq<LifecycleEvent>) -> bool {
    forall|i: int|
        0 <= i < h.len() && (#[trigger] h[i]) is Spawned ==> exists|j: int|
            0 <= j < i && h[j] == LifecycleEvent::Installed(h[i]->Spawned_0)
}

/// Between any two spawns there is a termination.
pub open spec fn spawns_separated(h: Seq<LifecycleEvent>) -> bool {
    forall|i: int, j: int|
        0 <= i < j < h.len() && (#[trigger] h[i]) is Spawned && (#[trigger] h[j]) is Spawned
            ==> exists|k: int| i < k < j && h[k] is Terminated
}

/// No termination event follows position `i`.
pub open spec fn no_terminate_after(h: Seq<LifecycleEvent>, i: int) -> bool {
    forall|j: int| i < j < h.len() ==> !((#[trigger] h[j]) is Terminated)
}

/// Some spawn has not been followed by a termination: a child is live.
pub open spec fn live_spawn(h: Seq<LifecycleEvent>) -> bool {
    exists|i: int| 0 <= i < h.len() && (#[trigger] h[i]) is Spawned && no_terminate_after(h, i)
}

/// The history records an installation of the given binary name.
pub open spec fn installed_in(h: Seq<LifecycleEvent>, name: Seq<u8>) -> bool {
    exists|i: int| 0 <= i < h.len() && #[trigger] h[i] == LifecycleEvent::Installed(name)
}

proof fn lemma_push_preserves_spawns_installed(h: Seq<LifecycleEvent>, e: LifecycleEvent)
    requires
        spawns_installed(h),
        e is Spawned ==> installed_in(h, e->Spawned_0),
    ensures
        spawns_installed(h.push(e)),
{
    let h1 = h.push(e);
    assert forall|i: int| 0 <= i < h1.len() && (#[trigger] h1[i]) is Spawned implies exists|j: int|
        0 <= j < i && h1[j] == LifecycleEvent::Installed(h1[i]->Spawned_0) by {
        if i < h.len() {
            assert(h1[i] == h[i]);
            assert(h[i] is Spawned);
            let j = choose|j: int| 0 <= j < i && h[j] == LifecycleEvent::Installed(
                h[i]->Spawned_0,
            );
            assert(h1[j] == LifecycleEvent::Installed(h1[i]->Spawned_0));
        } else {
            assert(h1[i] == e);
            let j = choose|j: int| 0 <= j < h.len() && #[trigger] h[j] == LifecycleEvent::Installed(
                e->Spawned_0,
            );
            assert(h1[j] == LifecycleEvent::Installed(h1[i]->Spawned_0));
        }
    }
}

proof fn lemma_push_preserves_spawns_separated(h: Seq<LifecycleEvent>, e: LifecycleEvent)
    requires
        spawns_separated(h),
        e is Spawned ==> !live_spawn(h),
    ensures
        spawns_separated(h.push(e)),
{
    let h1 = h.push(e);
    assert forall|i: int, j: int|
        0 <= i < j < h1.len() && (#[trigger] h1[i]) is Spawned && (#[trigger] h1[j]) is Spawned
        implies exists|k: int| i < k < j && h1[k] is Terminated by {
        assert(h1[i] == h[i]);
        if j < h.len() {
            assert(h1[j] == h[j]);
            let k = choose|k: int| i < k < j && h[k] is Terminated;
            assert(i < k < j && h1[k] is Terminated);
        } else {
            assert(h1[j] == e);
            assert(!live_spawn(h));
            assert(h[i] is Spawned);
            assert(!no_terminate_after(h, i));
            let k = choose|k: int| i < k < h.len() && (#[trigger] h[k]) is Terminated;
            assert(h1[k] == h[k]);
            assert(i < k < j && h1[k] is Terminated);
        }
    }
}

proof fn lemma_push_plain_preserves_live(h: Seq<LifecycleEvent>, e: LifecycleEvent)
    requires
        !(e is Spawned),
        !(e is Terminated),
    ensures
        live_spawn(h.push(e)) == live_spawn(h),
{
    let h1 = h.push(e);
    if live_spawn(h) {
        let i = choose|i: int|
            0 <= i < h.len() && (#[trigger] h[i]) is Spawned && no_terminate_after(h, i);
        assert(h1[i] is Spawned);
        assert forall|j: int| i < j < h1.len() implies !((#[trigger] h1[j]) is Terminated) by {
            if j < h.len() {
                assert(h1[j] == h[j]);
            } else {
                assert(h1[j] == e);
            }
        }
        assert(live_spawn(h1));
    }
    if live_spawn(h1) {
        let i = choose|i: int|
            0 <= i < h1.len() && (#[trigger] h1[i]) is Spawned && no_terminate_after(h1, i);
        assert(i < h.len());
        assert(h[i] is Spawned);
        assert forall|j: int| i < j < h.len() implies !((#[trigger] h[j]) is Terminated) by {
            assert(h1[j] == h[j]);
            assert(!(h1[j] is Terminated));
        }
        assert(live_spawn(h));
    }
}

proof fn lemma_push_spawned_live(h: Seq<LifecycleEvent>, e: LifecycleEvent)
    requires
        e is Spawned,
    ensures
        live_spawn(h.push(e)),
{
    let h1 = h.push(e);
    let i = h.len() as int;
    assert(h1[i] == e);
    assert(no_terminate_after(h1, i));
    assert(live_spawn(h1));
}

proof fn lemma_push_terminated_kills_live(h: Seq<LifecycleEvent>)
    ensures
        !live_spawn(h.push(LifecycleEvent::Terminated)),
{
    let h1 = h.push(LifecycleEvent::Terminated);
    let t = h.len() as int;
    assert(h1[t] is Terminated);
    assert forall|i: int|
        !(0 <= i < h1.len() && (#[trigger] h1[i]) is Spawned && no_terminate_after(h1, i)) by {
        if 0 <= i < h1.len() && h1[i] is Spawned {
            assert(i != t);
            assert(i < t < h1.len());
            assert(!no_terminate_after(h1, i));
        }
    }
}

proof fn lemma_push_preserves_installed_in(
    h: Seq<LifecycleEvent>,
    e: LifecycleEvent,
    name: Seq<u8>,
)
    requires
        installed_in(h, name),
    ensures
        installed_in(h.push(e), name),
{
    let h1 = h.push(e);
    let i = choose|i: int| 0 <= i < h.len() && #[trigger] h[i] == LifecycleEvent::Installed(name);
    assert(h1[i] == LifecycleEvent::Installed(name));
}

/// What the effectful half of an installation needs to know: the name
/// to install under, the full path to write, and the file mode to set.
#[derive(Clone, Debug, PartialEq, Eq)]
pub struct InstallPlan {
    /// Final path segment of the release URI.
    pub bin_name: Vec<u8>,
    /// Download directory joined with the binary name.
    pub bin_path: Vec<u8>,
    /// Mode the written file must carry.
    pub mode: u32,
}

/// What a timer tick asks the runner loop to do next.
#[derive(Debug, PartialEq, Eq)]
pub enum TickAction {
    /// Nothing changed; sleep until the next tick.
    Noop,
    /// A new release was announced: terminate, uninstall, install, spawn.
    Upgrade(ClientRelease),
    /// A non-recoverable condition surfaced.
    Fail(Error),
}

/// The supervisor state: the recorded download, the live child, and the
/// configuration the children are launched with.
pub struct Vaultvisor {
    /// Arguments passed verbatim to every spawned child.
    pub vault_args: Vec<String>,
    /// Bytes of the directory binaries are installed into.
    pub download_path: Vec<u8>,
    /// Process id of the live child, if one was spawned and not reaped.
    pub child_proc: Option<u32>,
    /// The release materialized on disk, if any.
    pub downloaded_release: Option<DownloadedRelease>,
    /// Lifecycle history, kept for the exclusion and ordering laws.
    pub history: Ghost<Seq<LifecycleEvent>>,
}

impl Vaultvisor {
    /// The state invariant, maintained by every operation.
    pub open spec fn wf(self) -> bool {
        &&& spawns_installed(self.history@)
        &&& spawns_separated(self.history@)
        &&& (self.child_proc is Some ==> self.downloaded_release is Some)
        &&& (self.child_proc is Some <==> live_spawn(self.history@))
        &&& (self.downloaded_release matches Some(d) ==> d.wf() && installed_in(
            self.history@,
            d.bin_name@,
        ))
    }

    /// A fresh supervisor: nothing downloaded, no child.
    pub fn new(vault_args: Vec<String>, download_path: Vec<u8>) -> (v: Vaultvisor)
        ensures
            v.wf(),
            v.vault_args == vault_args,
            v.download_path == download_path,
            v.child_proc is None,
            v.downloaded_release is None,
            v.history@ == Seq::<LifecycleEvent>::empty(),
    {
        Vaultvisor {
            vault_args,
            download_path,
            child_proc: None,
            downloaded_release: None,
            history: Ghost(Seq::empty()),
        }
    }

    /// The plan of an installation of `release`, if its URI yields a
    /// binary name.
    pub open spec fn download_plan_ok(self, release: ClientRelease, plan: InstallPlan) -> bool {
        &&& derive_name_spec(release.uri@) is Name
        &&& plan.bin_name@ == derive_name_spec(release.uri@)->Name_0
        &&& plan.bin_name@.len() > 0
        &&& plan.bin_path@ == join_path(self.download_path@, plan.bin_name@)
        &&& plan.mode == BIN_FILE_MODE
    }

    /// Decides where and under what name `release` is to be installed.
    ///
    /// The effectful caller then writes the fetched bytes to
    /// `plan.bin_path`, sets `plan.mode`, and records the installation
    /// with [`Vaultvisor::record_download_binary`].
    pub fn plan_download_binary(&self, release: &ClientRelease) -> (r: Result<InstallPlan, Error>)
        ensures
            derive_name_spec(release.uri@) is Name ==> (r matches Ok(p) && self.download_plan_ok(
                *release,
                p,
            )),
            derive_name_spec(release.uri@) is BadUrl ==> r == Err::<InstallPlan, Error>(
                Error::UrlParseError,
            ),
            derive_name_spec(release.uri@) is NoSegment ==> r == Err::<InstallPlan, Error>(
                Error::NameDerivationError,
            ),
    {
        match derive_bin_name(&release.uri) {
            Err(e) => Err(e),
            Ok(nm) => {
                let path = join_path_bytes(&self.download_path, &nm);
                Ok(InstallPlan { bin_name: nm, bin_path: path, mode: BIN_FILE_MODE })
            },
        }
    }

    /// Records that the binary of `release` was written to disk as the
    /// plan demanded.
    pub fn record_download_binary(&mut self, release: ClientRelease, plan: InstallPlan)
        requires
            old(self).wf(),
            old(self).child_proc is None,
            release.wf(),
            old(self).download_plan_ok(release, plan),
        ensures
            final(self).wf(),
            final(self).downloaded_release matches Some(d) && d.release == release && d.path
                == plan.bin_path && d.bin_name == plan.bin_name,
            final(self).child_proc == old(self).child_proc,
            final(self).vault_args == old(self).vault_args,
            final(self).download_path == old(self).download_path,
            final(self).history@ == old(self).history@.push(
                LifecycleEvent::Installed(plan.bin_name@),
            ),
    {
        let ghost h0 = self.history@;
        let ghost nm = plan.bin_name@;
        self.downloaded_release = Some(
            DownloadedRelease { release, path: plan.bin_path, bin_name: plan.bin_name },
        );
        self.history = Ghost(h0.push(LifecycleEvent::Installed(nm)));
        proof {
            let h1 = self.history@;
            lemma_push_preserves_spawns_installed(h0, LifecycleEvent::Installed(nm));
            lemma_push_preserves_spawns_separated(h0, LifecycleEvent::Installed(nm));
            lemma_push_plain_preserves_live(h0, LifecycleEvent::Installed(nm));
            assert(h1[h0.len() as int] == LifecycleEvent::Installed(nm));
            assert(installed_in(h1, nm));
        }
    }

    /// Decides the command the runner loop is to spawn: the path the
    /// binary was installed at, the download directory joined with the
    /// binary name.  Refuses when a child is live or no binary is
    /// installed.
    pub fn plan_run_binary(&self) -> (r: Result<Vec<u8>, Error>)
        ensures
            self.child_proc is Some ==> r == Err::<Vec<u8>, Error>(Error::ChildProcessExists),
            self.child_proc is None && self.downloaded_release is None ==> r == Err::<
                Vec<u8>,
                Error,
            >(Error::NoDownloadedRelease),
            self.child_proc is None ==> (self.downloaded_release matches Some(d) ==> (r matches Ok(
                c,
            ) && c@ == d.path@)),
    {
        if self.child_proc.is_some() {
            return Err(Error::ChildProcessExists);
        }
        match &self.downloaded_release {
            None => Err(Error::NoDownloadedRelease),
            Some(d) => Ok(clone_bytes(&d.path)),
        }
    }

    /// Records that the planned spawn happened and the child with the
    /// given process id is now live.
    pub fn record_spawned(&mut self, pid: u32)
        requires
            old(self).wf(),
            old(self).child_proc is None,
            old(self).downloaded_release is Some,
        ensures
            final(self).wf(),
            final(self).child_proc == Some(pid),
            final(self).downloaded_release == old(self).downloaded_release,
            final(self).vault_args == old(self).vault_args,
            final(self).download_path == old(self).download_path,
            final(self).history@ == old(self).history@.push(
                LifecycleEvent::Spawned(old(self).downloaded_release->Some_0.bin_name@),
            ),
    {
        let ghost h0 = self.history@;
        let ghost nm = self.downloaded_release->Some_0.bin_name@;
        self.child_proc = Some(pid);
        self.history = Ghost(h0.push(LifecycleEvent::Spawned(nm)));
        proof {
            assert(installed_in(h0, nm));
            lemma_push_preserves_spawns_installed(h0, LifecycleEvent::Spawned(nm));
            lemma_push_preserves_spawns_separated(h0, LifecycleEvent::Spawned(nm));
            lemma_push_spawned_live(h0, LifecycleEvent::Spawned(nm));
            lemma_push_preserves_installed_in(h0, LifecycleEvent::Spawned(nm), nm);
        }
    }

    /// Decides which process the runner loop is to terminate: the
    /// process id of the live child.  Nothing is recorded until the
    /// signal and the reaping have succeeded.
    ///
    /// On an empty state reports `NoChildProcess`.
    pub fn plan_terminate(&self) -> (r: Result<u32, Error>)
        ensures
            self.child_proc is None ==> r == Err::<u32, Error>(Error::NoChildProcess),
            self.child_proc matches Some(pid) ==> r == Ok::<u32, Error>(pid),
    {
        match self.child_proc {
            None => Err(Error::NoChildProcess),
            Some(pid) => Ok(pid),
        }
    }

    /// Records that the live child was signalled and reaped.  Called
    /// only once the termination has actually happened, so a failed
    /// signal leaves the child on the books.
    pub fn record_terminated(&mut self)
        requires
            old(self).wf(),
            old(self).child_proc is Some,
        ensures
            final(self).wf(),
            final(self).child_proc is None,
            final(self).downloaded_release == old(self).downloaded_release,
            final(self).vault_args == old(self).vault_args,
            final(self).download_path == old(self).download_path,
            final(self).history@ == old(self).history@.push(LifecycleEvent::Terminated),
    {
        let ghost h0 = self.history@;
        self.child_proc = None;
        self.history = Ghost(h0.push(LifecycleEvent::Terminated));
        proof {
            lemma_push_preserves_spawns_installed(h0, LifecycleEvent::Terminated);
            lemma_push_preserves_spawns_separated(h0, LifecycleEvent::Terminated);
            lemma_push_terminated_kills_live(h0);
            let ghost dl = self.downloaded_release;
            match dl {
                Some(d) => {
                    lemma_push_preserves_installed_in(h0, LifecycleEvent::Terminated, d.bin_name@);
                },
                None => {},
            }
        }
    }

    /// Decides which file the runner loop is to remove: the path of
    /// the recorded download.  Nothing is recorded until the removal
    /// has actually happened.
    ///
    /// On an empty state reports `NoDownloadedRelease` and, taking the
    /// state by shared reference, changes nothing, however often it is
    /// called.
    pub fn plan_delete_download(&self) -> (r: Result<Vec<u8>, Error>)
        ensures
            self.downloaded_release is None ==> r == Err::<Vec<u8>, Error>(
                Error::NoDownloadedRelease,
            ),
            self.downloaded_release matches Some(d) ==> (r matches Ok(p) && p@ == d.path@),
    {
        match &self.downloaded_release {
            None => Err(Error::NoDownloadedRelease),
            Some(d) => Ok(clone_bytes(&d.path)),
        }
    }

    /// Records that the downloaded binary was removed from disk.
    /// Called only once the removal has actually happened, so a failed
    /// removal leaves the download on the books.
    pub fn record_deleted(&mut self)
        requires
            old(self).wf(),
            old(self).child_proc is None,
            old(self).downloaded_release is Some,
        ensures
            final(self).wf(),
            final(self).downloaded_release is None,
            final(self).child_proc == old(self).child_proc,
            final(self).vault_args == old(self).vault_args,
            final(self).download_path == old(self).download_path,
            final(self).history@ == old(self).history@.push(LifecycleEvent::Deleted),
    {
        let ghost h0 = self.history@;
        self.downloaded_release = None;
        self.history = Ghost(h0.push(LifecycleEvent::Deleted));
        proof {
            lemma_push_preserves_spawns_installed(h0, LifecycleEvent::Deleted);
            lemma_push_preserves_spawns_separated(h0, LifecycleEvent::Deleted);
            lemma_push_plain_preserves_live(h0, LifecycleEvent::Deleted);
        }
    }

    /// Decides what a timer tick means: nothing to do, an upgrade to a
    /// newly announced release, or a non-recoverable failure.
    ///
    /// A missing value on the chain is no change; a release with the
    /// installed URI is no change; only a different URI upgrades.
    pub fn plan_tick(&self, read: Result<Option<ClientRelease>, Error>) -> (a: TickAction)
        ensures
            read matches Err(er) ==> a == TickAction::Fail(er),
            read == Ok::<Option<ClientRelease>, Error>(None) ==> a == TickAction::Noop,
            read matches Ok(Some(nr)) ==> {
                if self.downloaded_release is None {
                    a == TickAction::Fail(Error::NoDownloadedRelease)
                } else if nr.uri@ == self.downloaded_release->Some_0.release.uri@ {
                    a == TickAction::Noop
                } else {
                    a matches TickAction::Upgrade(u) && u == nr
                }
            },
    {
        match read {
            Err(er) => TickAction::Fail(er),
            Ok(None) => TickAction::Noop,
            Ok(Some(nr)) => match &self.downloaded_release {
                None => TickAction::Fail(Error::NoDownloadedRelease),
                Some(d) => {
                    if bytes_eq(&nr.uri, &d.release.uri) {
                        TickAction::Noop
                    } else {
                        TickAction::Upgrade(nr)
                    }
                },
            },
        }
    }
}

/// Decides how the loop starts from the first chain read: the announced
/// release, or `NoCurrentRelease` when the chain has none.
pub fn plan_bootstrap(read: Result<Option<ClientRelease>, Error>) -> (r: Result<
    ClientRelease,
    Error,
>)
    ensures
        read matches Err(er) ==> r == Err::<ClientRelease, Error>(er),
        read == Ok::<Option<ClientRelease>, Error>(None) ==> r == Err::<ClientRelease, Error>(
            Error::NoCurrentRelease,
        ),
        read matches Ok(Some(cr)) ==> (r matches Ok(c) && c == cr),
{
    match read {
        Err(er) => Err(er),
        Ok(None) => Err(Error::NoCurrentRelease),
        Ok(Some(cr)) => Ok(cr),
    }
}

/// Law: a live child implies a prior installation with the same binary
/// name.  Every spawn event in a well-formed supervisor's history is
/// preceded by an installation of exactly the name it ran.
pub proof fn lemma_spawn_preceded_by_install(v: Vaultvisor, i: int)
    requires
        v.wf(),
        0 <= i < v.history@.len(),
        v.history@[i] is Spawned,
    ensures
        exists|j: int|
            0 <= j < i && v.history@[j] == LifecycleEvent::Installed(v.history@[i]->Spawned_0),
{
}

/// Law: for any two spawn events in a well-formed supervisor's history,
/// a termination strictly separates them; the earlier child was reaped
/// before the later one was launched.
pub proof fn lemma_terminate_between_spawns(v: Vaultvisor, i: int, j: int)
    requires
        v.wf(),
        0 <= i < j < v.history@.len(),
        v.history@[i] is Spawned,
        v.history@[j] is Spawned,
    ensures
        exists|k: int| i < k < j && v.history@[k] is Terminated,
{
}

} // verus!
