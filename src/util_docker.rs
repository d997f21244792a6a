//! The sandbox driver's decisions: which image and container a name picks,
//! what a sandboxed run is configured with, and the life of one ephemeral
//! container from lookup to removal. The engine calls themselves are made
//! by the caller, which reports each outcome back as an event.

use vstd::prelude::*;

use crate::text::concat;

verus! {

/// Stack limit of every container: unlimited, for deep recursion in the
/// analyzers.
pub const STACK_UNLIMITED: i64 = -1;

/// Default timeout for sandboxed execution, in milliseconds.
pub const DEFAULT_SANDBOX_TIMEOUT_MS: u64 = 60000;

/// Exit status of the execution.
#[derive(Clone, Copy, Debug, PartialEq, Eq, Structural)]
pub enum ExitStatus {
    Success,
    Failure,
    Timeout,
}

/// Why a run failed.
#[derive(Clone, Copy, Debug, PartialEq, Eq, Structural)]
pub enum Fault {
    /// A container with the ephemeral name already exists.
    ContainerExists,
    /// No image carries the tag.
    ImageMissing,
    /// The engine warned while creating the container.
    CreateWarning,
    /// An engine call failed.
    Engine,
    /// The container wrote to its standard input stream.
    StdinMessage,
    /// The engine reported two exit codes.
    ConflictingStatus,
    /// The engine reported no exit code.
    NoStatus,
    /// The command to commit did not succeed.
    AbortCommit,
    /// An event that the current phase does not expect.
    Protocol,
    /// More than one image carries the tag.
    AmbiguousImage,
    /// More than one container carries the name.
    AmbiguousContainer,
    /// The image is still missing after its build.
    BuildMissing,
}

/// The description of a fault.
pub open spec fn fault_text(f: Fault) -> Seq<char> {
    match f {
        Fault::ContainerExists => "docker container already exists with the ephemeral name"@,
        Fault::ImageMissing => "docker image does not exist"@,
        Fault::CreateWarning => "unexpected warning in docker container creation"@,
        Fault::Engine => "docker engine request failed"@,
        Fault::StdinMessage => "unexpected message to stdin"@,
        Fault::ConflictingStatus => "conflicting status code"@,
        Fault::NoStatus => "not receiving a status code"@,
        Fault::AbortCommit => "aborting commit due to execution failure"@,
        Fault::Protocol => "unexpected event in container lifecycle"@,
        Fault::AmbiguousImage => "more than one image with the tag"@,
        Fault::AmbiguousContainer => "more than one container with the name"@,
        Fault::BuildMissing => "unable to locate the image after its build"@,
    }
}

impl Fault {
    /// A description of the fault.
    pub fn message(&self) -> (r: String)
        ensures
            r@ == fault_text(*self),
    {
        match self {
            Fault::ContainerExists => String::from_str(
                "docker container already exists with the ephemeral name",
            ),
            Fault::ImageMissing => String::from_str("docker image does not exist"),
            Fault::CreateWarning => String::from_str(
                "unexpected warning in docker container creation",
            ),
            Fault::Engine => String::from_str("docker engine request failed"),
            Fault::StdinMessage => String::from_str("unexpected message to stdin"),
            Fault::ConflictingStatus => String::from_str("conflicting status code"),
            Fault::NoStatus => String::from_str("not receiving a status code"),
            Fault::AbortCommit => String::from_str("aborting commit due to execution failure"),
            Fault::Protocol => String::from_str("unexpected event in container lifecycle"),
            Fault::AmbiguousImage => String::from_str("more than one image with the tag"),
            Fault::AmbiguousContainer => String::from_str("more than one container with the name"),
            Fault::BuildMissing => String::from_str("unable to locate the image after its build"),
        }
    }
}

/// The name of the ephemeral container that a driver runs from `tag`.
pub open spec fn ephemeral_name(tag: Seq<char>, driver: Seq<char>) -> Seq<char> {
    tag + "-ephemeral-"@ + driver
}

/// The name of the ephemeral container that driver `driver` runs from `tag`.
pub fn ephemeral_container_name(tag: &str, driver: &str) -> (r: String)
    ensures
        r@ == ephemeral_name(tag@, driver@),
{
    let a = concat(tag, "-ephemeral-");
    concat(a.as_str(), driver)
}

/// The name of the sibling driver that runs beside driver `name`.
pub fn sideline_name(name: &str) -> (r: String)
    ensures
        r@ == name@ + "-sideline"@,
{
    concat(name, "-sideline")
}

/// A bind mount as the engine takes it: `host:container`.
pub fn bind_spec(host: &str, container: &str) -> (r: String)
    ensures
        r@ == host@ + ":"@ + container@,
{
    let a = concat(host, ":");
    concat(a.as_str(), container)
}

/// Where a run is in the life of its container.
#[derive(Clone, Copy, Debug, PartialEq, Eq, Structural)]
pub enum Phase {
    /// Asking whether a container with the ephemeral name exists.
    LookupName,
    /// Asking for the image of the tag.
    LookupImage,
    /// Creating the container.
    Creating,
    /// Starting the container.
    Starting,
    /// Following the container's output.
    Following,
    /// Collecting the exit code.
    Waiting,
    /// Committing the container as a new image.
    Committing,
    /// Removing the container.
    Removing,
    /// Finished.
    Done,
}

/// What the engine answered to the last request.
pub enum Event {
    /// The container with the ephemeral name, if any.
    NameLookup(Option<String>),
    /// The image of the tag, if any.
    ImageLookup(Option<String>),
    /// The container was created, with or without warnings.
    Created { id: String, warnings: bool },
    /// The container started.
    Started,
    /// One frame of output, `elapsed_ms` after the start; `stdin` when it was
    /// written to standard input.
    Frame { stdin: bool, elapsed_ms: u64 },
    /// The output stream reported bytes remaining; following goes on.
    Transient,
    /// The output stream ended.
    LogsEnd,
    /// One exit code from the wait stream.
    Code(i64),
    /// The wait stream ended.
    WaitEnd,
    /// The container was committed.
    Committed,
    /// The container was removed.
    Removed,
    /// The request failed.
    Failed,
}

/// What the caller must do next.
pub enum Action {
    /// Look for a container with this name.
    LookupContainer(String),
    /// Look for the image with this tag.
    LookupImage(String),
    /// Create the container from this image, with the run's configuration.
    Create(String),
    /// Start this container.
    Start(String),
    /// Read the next frame of this container's output.
    NextFrame(String),
    /// Read the next frame of this container's wait stream.
    NextCode(String),
    /// Commit this container under this repository name.
    Commit(String, String),
    /// Remove this container, forcibly and with its volumes.
    Remove(String),
    /// Return this outcome.
    Finish(Result<ExitStatus, Fault>),
}

/// One run of a command in an ephemeral container.
pub struct Run {
    /// Image tag to run from.
    pub tag: String,
    /// Name of the ephemeral container.
    pub name: String,
    /// Repository to commit the container to after success.
    pub commit: Option<String>,
    /// Command to run.
    pub cmd: Vec<String>,
    /// Whether the container may reach the network.
    pub net: bool,
    /// Whether the container gets a terminal.
    pub tty: bool,
    /// Whether output is mirrored to the driver's own console.
    pub console: bool,
    /// Wall-clock limit, in milliseconds.
    pub timeout_ms: Option<u64>,
    /// Bind mounts, `host:container`.
    pub binds: Vec<String>,
    /// Working directory in the container.
    pub workdir: Option<String>,
    /// Whether the container's standard input is attached.
    pub attach_stdin: bool,
    /// Whether the container's standard output and error are attached.
    pub attach_output: bool,
    /// Soft and hard stack limit of the container; -1 lifts it.
    pub stack_limit: i64,
    /// Where the run is.
    pub phase: Phase,
    /// The container, once created.
    pub container: Option<String>,
    /// Whether the container may still exist.
    pub live: bool,
    /// The first exit code received.
    pub code: Option<i64>,
    /// The exit status decided.
    pub status: Option<ExitStatus>,
    /// The fault to report once the container is gone.
    pub fault: Option<Fault>,
}

/// `a` and `b` run the same command under the same configuration.
pub open spec fn same_config(a: Run, b: Run) -> bool {
    &&& a.tag == b.tag && a.name == b.name && a.commit == b.commit
    &&& a.cmd == b.cmd && a.net == b.net && a.tty == b.tty && a.console == b.console
    &&& a.timeout_ms == b.timeout_ms && a.binds == b.binds && a.workdir == b.workdir
    &&& a.attach_stdin == b.attach_stdin && a.attach_output == b.attach_output
    &&& a.stack_limit == b.stack_limit
}

/// Whether a phase holds a created container.
pub open spec fn holds_container(p: Phase) -> bool {
    match p {
        Phase::Starting | Phase::Following | Phase::Waiting | Phase::Committing
        | Phase::Removing => true,
        _ => false,
    }
}

impl Run {
    /// The run's own consistency: a container exists exactly in the phases
    /// that hold one, until its removal is confirmed.
    pub open spec fn inv(&self) -> bool {
        &&& holds_container(self.phase) ==> self.container is Some && self.live
        &&& !holds_container(self.phase) && self.phase != Phase::Done ==> !self.live
        &&& self.phase == Phase::Removing ==> (self.fault is Some || self.status is Some)
        &&& self.phase == Phase::Committing ==> self.status == Some(ExitStatus::Success)
    }

    /// A run of `cmd` from `tag` by driver `driver`, committed to `commit`
    /// on success when that is given.
    pub fn new(
        driver: &str,
        tag: &str,
        commit: Option<String>,
        cmd: Vec<String>,
        net: bool,
        tty: bool,
        console: bool,
        timeout_ms: Option<u64>,
        binds: Vec<String>,
        workdir: Option<String>,
    ) -> (r: (Run, Action))
        ensures
            r.0.inv(),
            r.0.phase == Phase::LookupName,
            !r.0.live,
            r.0.tag@ == tag@,
            r.0.name@ == ephemeral_name(tag@, driver@),
            r.0.commit == commit,
            r.0.cmd == cmd,
            r.0.net == net,
            r.0.tty == tty,
            r.0.console == console,
            r.0.timeout_ms == timeout_ms,
            r.0.binds == binds,
            r.0.workdir == workdir,
            !r.0.attach_stdin,
            r.0.attach_output,
            r.0.stack_limit == STACK_UNLIMITED,
            r.0.container is None,
            r.0.code is None,
            r.0.status is None,
            r.0.fault is None,
            r.1 matches Action::LookupContainer(n) && n@ == ephemeral_name(tag@, driver@),
    {
        let name = ephemeral_container_name(tag, driver);
        let ask = ephemeral_container_name(tag, driver);
        (
            Run {
                tag: String::from_str(tag),
                name,
                commit,
                cmd,
                net,
                tty,
                console,
                timeout_ms,
                binds,
                workdir,
                attach_stdin: false,
                attach_output: true,
                stack_limit: STACK_UNLIMITED,
                phase: Phase::LookupName,
                container: None,
                live: false,
                code: None,
                status: None,
                fault: None,
            },
            Action::LookupContainer(ask),
        )
    }

    /// A sandboxed run: no network, a terminal, output discarded, and the
    /// timeout given or else the default.
    pub fn sandbox(
        driver: &str,
        tag: &str,
        cmd: Vec<String>,
        timeout_ms: Option<u64>,
        binds: Vec<String>,
        workdir: Option<String>,
    ) -> (r: (Run, Action))
        ensures
            r.0.inv(),
            r.0.phase == Phase::LookupName,
            r.0.tag@ == tag@,
            r.0.name@ == ephemeral_name(tag@, driver@),
            r.0.commit is None,
            r.0.cmd == cmd,
            !r.0.net,
            r.0.tty,
            !r.0.console,
            r.0.timeout_ms == Some(
                match timeout_ms {
                    Some(t) => t,
                    None => DEFAULT_SANDBOX_TIMEOUT_MS,
                },
            ),
            r.0.binds == binds,
            r.0.workdir == workdir,
            !r.0.attach_stdin,
            r.0.attach_output,
            r.0.stack_limit == STACK_UNLIMITED,
            r.1 matches Action::LookupContainer(n) && n@ == ephemeral_name(tag@, driver@),
    {
        let t = match timeout_ms {
            Some(t) => t,
            None => DEFAULT_SANDBOX_TIMEOUT_MS,
        };
        Run::new(driver, tag, None, cmd, false, true, false, Some(t), binds, workdir)
    }

    /// Remove the container, keeping what is to be reported.
    fn to_removal(&mut self) -> (a: Action)
        requires
            old(self).container is Some,
            old(self).fault is Some || old(self).status is Some,
        ensures
            same_config(*old(self), *final(self)),
            final(self).phase == Phase::Removing,
            final(self).live,
            final(self).container == old(self).container,
            final(self).fault == old(self).fault,
            final(self).status == old(self).status,
            final(self).code == old(self).code,
            is_remove(a, old(self).container->0@),
    {
        self.phase = Phase::Removing;
        self.live = true;
        let id = match &self.container {
            Some(c) => c.clone(),
            None => String::new(),
        };
        Action::Remove(id)
    }

    /// Stop with `f`: at once when no container exists, else after its
    /// removal.
    fn fail(&mut self, f: Fault) -> (a: Action)
        requires
            old(self).inv(),
            old(self).phase != Phase::Done,
        ensures
            same_config(*old(self), *final(self)),
            final(self).inv(),
            holds_container(old(self).phase) ==> final(self).phase == Phase::Removing
                && final(self).fault == Some(f) && is_remove(a, old(self).container->0@),
            !holds_container(old(self).phase) ==> final(self).phase == Phase::Done
                && final(self).live == false && final(self).fault == Some(f)
                && a == Action::Finish(Err(f)),
            final(self).status == old(self).status,
            final(self).code == old(self).code,
            final(self).container == old(self).container,
    {
        self.fault = Some(f);
        if self.container.is_some() && self.live {
            self.to_removal()
        } else {
            self.phase = Phase::Done;
            Action::Finish(Err(f))
        }
    }

    /// The exit status is known: commit it when asked and it succeeded, else
    /// remove the container.
    fn decided(&mut self, s: ExitStatus) -> (a: Action)
        requires
            old(self).inv(),
            holds_container(old(self).phase),
        ensures
            same_config(*old(self), *final(self)),
            final(self).inv(),
            final(self).status == Some(s),
            final(self).code == old(self).code,
            final(self).container == old(self).container,
            final(self).live,
            match old(self).commit {
                Some(repo) => if s == ExitStatus::Success {
                    final(self).phase == Phase::Committing && final(self).fault == old(self).fault
                        && is_commit(a, old(self).container->0@, repo@)
                } else {
                    final(self).phase == Phase::Removing && final(self).fault == Some(
                        Fault::AbortCommit,
                    ) && is_remove(a, old(self).container->0@)
                },
                None => final(self).phase == Phase::Removing && final(self).fault == old(
                    self,
                ).fault && is_remove(a, old(self).container->0@),
            },
    {
        self.status = Some(s);
        let repo = match &self.commit {
            Some(r) => Some(r.clone()),
            None => None,
        };
        match repo {
            Some(repo) => {
                if matches!(s, ExitStatus::Success) {
                    self.phase = Phase::Committing;
                    let id = match &self.container {
                        Some(c) => c.clone(),
                        None => String::new(),
                    };
                    Action::Commit(id, repo)
                } else {
                    self.fault = Some(Fault::AbortCommit);
                    self.to_removal()
                }
            },
            None => self.to_removal(),
        }
    }

    /// Advance the run by the engine's answer to the last action, and say
    /// what to do next.
    pub fn step(&mut self, event: Event) -> (a: Action)
        requires
            old(self).inv(),
        ensures
            final(self).inv(),
            run_step(*old(self), event, *final(self), a),
    {
        match self.phase {
            Phase::LookupName => match event {
                Event::NameLookup(None) => {
                    self.phase = Phase::LookupImage;
                    Action::LookupImage(self.tag.clone())
                },
                Event::NameLookup(Some(_)) => self.fail(Fault::ContainerExists),
                Event::Failed => self.fail(Fault::Engine),
                _ => self.fail(Fault::Protocol),
            },
            Phase::LookupImage => match event {
                Event::ImageLookup(Some(image)) => {
                    self.phase = Phase::Creating;
                    Action::Create(image)
                },
                Event::ImageLookup(None) => self.fail(Fault::ImageMissing),
                Event::Failed => self.fail(Fault::Engine),
                _ => self.fail(Fault::Protocol),
            },
            Phase::Creating => match event {
                Event::Created { id, warnings } => {
                    let start = id.clone();
                    self.container = Some(id);
                    self.live = true;
                    if warnings {
                        self.fault = Some(Fault::CreateWarning);
                        self.to_removal()
                    } else {
                        self.phase = Phase::Starting;
                        Action::Start(start)
                    }
                },
                Event::Failed => self.fail(Fault::Engine),
                _ => self.fail(Fault::Protocol),
            },
            Phase::Starting => match event {
                Event::Started => {
                    self.phase = Phase::Following;
                    Action::NextFrame(self.container_id())
                },
                Event::Failed => self.fail(Fault::Engine),
                _ => self.fail(Fault::Protocol),
            },
            Phase::Following => match event {
                Event::Frame { stdin, elapsed_ms } => {
                    if stdin {
                        self.fail(Fault::StdinMessage)
                    } else if timed_out(self.timeout_ms, elapsed_ms) {
                        self.decided(ExitStatus::Timeout)
                    } else {
                        Action::NextFrame(self.container_id())
                    }
                },
                Event::Transient => Action::NextFrame(self.container_id()),
                Event::LogsEnd => {
                    self.phase = Phase::Waiting;
                    Action::NextCode(self.container_id())
                },
                Event::Failed => self.fail(Fault::Engine),
                _ => self.fail(Fault::Protocol),
            },
            Phase::Waiting => match event {
                Event::Code(c) => {
                    if self.code.is_none() {
                        self.code = Some(c);
                        Action::NextCode(self.container_id())
                    } else {
                        self.fail(Fault::ConflictingStatus)
                    }
                },
                Event::WaitEnd => match self.code {
                    None => self.fail(Fault::NoStatus),
                    Some(c) => {
                        if c == 0 {
                            self.decided(ExitStatus::Success)
                        } else {
                            self.decided(ExitStatus::Failure)
                        }
                    },
                },
                Event::Failed => self.fail(Fault::Engine),
                _ => self.fail(Fault::Protocol),
            },
            Phase::Committing => match event {
                Event::Committed => self.to_removal(),
                Event::Failed => self.fail(Fault::Engine),
                _ => self.fail(Fault::Protocol),
            },
            Phase::Removing => match event {
                Event::Removed => {
                    self.phase = Phase::Done;
                    self.live = false;
                    Action::Finish(self.outcome())
                },
                _ => {
                    self.phase = Phase::Done;
                    Action::Finish(Err(Fault::Engine))
                },
            },
            Phase::Done => Action::Finish(Err(Fault::Protocol)),
        }
    }

    fn container_id(&self) -> (r: String)
        requires
            self.container is Some,
        ensures
            r@ == self.container->0@,
    {
        match &self.container {
            Some(c) => c.clone(),
            None => String::new(),
        }
    }

    /// What a finished run reports: its fault, else its exit status.
    fn outcome(&self) -> (r: Result<ExitStatus, Fault>)
        requires
            self.fault is Some || self.status is Some,
        ensures
            r == run_outcome(self.fault, self.status),
    {
        match self.fault {
            Some(f) => Err(f),
            None => match self.status {
                Some(s) => Ok(s),
                None => Err(Fault::Protocol),
            },
        }
    }
}

/// What a finished run reports: its fault, else its exit status.
pub open spec fn run_outcome(fault: Option<Fault>, status: Option<ExitStatus>) -> Result<
    ExitStatus,
    Fault,
> {
    match fault {
        Some(f) => Err(f),
        None => Ok(status->0),
    }
}

/// Whether a frame `elapsed_ms` after the start exceeds the limit.
pub open spec fn exceeds(timeout_ms: Option<u64>, elapsed_ms: u64) -> bool {
    match timeout_ms {
        Some(t) => elapsed_ms > t,
        None => false,
    }
}

fn timed_out(timeout_ms: Option<u64>, elapsed_ms: u64) -> (r: bool)
    ensures
        r == exceeds(timeout_ms, elapsed_ms),
{
    match timeout_ms {
        Some(t) => elapsed_ms > t,
        None => false,
    }
}

/// `a` removes the container `c`.
pub open spec fn is_remove(a: Action, c: Seq<char>) -> bool {
    a matches Action::Remove(r) && r@ == c
}

/// `a` reads the next output frame of the container `c`.
pub open spec fn is_next_frame(a: Action, c: Seq<char>) -> bool {
    a matches Action::NextFrame(r) && r@ == c
}

/// `a` reads the next exit code of the container `c`.
pub open spec fn is_next_code(a: Action, c: Seq<char>) -> bool {
    a matches Action::NextCode(r) && r@ == c
}

/// `a` starts the container `c`.
pub open spec fn is_start(a: Action, c: Seq<char>) -> bool {
    a matches Action::Start(r) && r@ == c
}

/// `a` commits the container `c` to `repo`.
pub open spec fn is_commit(a: Action, c: Seq<char>, repo: Seq<char>) -> bool {
    a matches Action::Commit(r, t) && r@ == c && t@ == repo
}

/// `a` looks up the image of `tag`.
pub open spec fn is_lookup_image(a: Action, tag: Seq<char>) -> bool {
    a matches Action::LookupImage(t) && t@ == tag
}

/// The step of `m` by `e` decides the exit status: a frame past the
/// deadline, or the end of the wait stream after one exit code.
pub open spec fn sets_status(m: Run, e: Event) -> bool {
    match (m.phase, e) {
        (Phase::Following, Event::Frame { stdin, elapsed_ms }) => !stdin && exceeds(
            m.timeout_ms,
            elapsed_ms,
        ),
        (Phase::Waiting, Event::WaitEnd) => m.code is Some,
        _ => false,
    }
}

/// The fault that the step of `m` by `e` raises, if any. A step that raises
/// none keeps the run's fault as it was.
pub open spec fn raised(m: Run, e: Event) -> Option<Fault> {
    match (m.phase, e) {
        (Phase::Removing, _) | (Phase::Done, _) => None,
        (_, Event::Failed) => Some(Fault::Engine),
        (Phase::LookupName, Event::NameLookup(found)) => if found is Some {
            Some(Fault::ContainerExists)
        } else {
            None
        },
        (Phase::LookupImage, Event::ImageLookup(found)) => if found is Some {
            None
        } else {
            Some(Fault::ImageMissing)
        },
        (Phase::Creating, Event::Created { id, warnings }) => if warnings {
            Some(Fault::CreateWarning)
        } else {
            None
        },
        (Phase::Starting, Event::Started) => None,
        (Phase::Following, Event::Frame { stdin, elapsed_ms }) => if stdin {
            Some(Fault::StdinMessage)
        } else if exceeds(m.timeout_ms, elapsed_ms) && m.commit is Some {
            Some(Fault::AbortCommit)
        } else {
            None
        },
        (Phase::Following, Event::Transient) | (Phase::Following, Event::LogsEnd) => None,
        (Phase::Waiting, Event::Code(_)) => if m.code is None {
            None
        } else {
            Some(Fault::ConflictingStatus)
        },
        (Phase::Waiting, Event::WaitEnd) => match m.code {
            None => Some(Fault::NoStatus),
            Some(c) => if m.commit is Some && c != 0 {
                Some(Fault::AbortCommit)
            } else {
                None
            },
        },
        (Phase::Committing, Event::Committed) => None,
        _ => Some(Fault::Protocol),
    }
}

/// One step of a run, from `m` by `e` to `n` with action `a`.
pub open spec fn run_step(m: Run, e: Event, n: Run, a: Action) -> bool {
    &&& same_config(m, n)
    &&& n.fault == match raised(m, e) {
        Some(f) => Some(f),
        None => m.fault,
    }
    &&& (sets_status(m, e) || n.status == m.status)
    &&& (m.phase == Phase::Waiting && m.code is None && e is Code) || n.code == m.code
    &&& (a is Finish <==> n.phase == Phase::Done)
    &&& n.phase == Phase::Removing ==> is_remove(a, n.container->0@)
    &&& m.phase != Phase::Creating ==> n.container == m.container
    &&& match (m.phase, e) {
        (Phase::LookupName, Event::NameLookup(None)) => n.phase == Phase::LookupImage
            && is_lookup_image(a, m.tag@),
        (Phase::LookupName, Event::NameLookup(Some(_))) => n.phase == Phase::Done
            && a == Action::Finish(Err(Fault::ContainerExists)),
        (Phase::LookupImage, Event::ImageLookup(Some(image))) => n.phase == Phase::Creating
            && a == Action::Create(image),
        (Phase::LookupImage, Event::ImageLookup(None)) => n.phase == Phase::Done && a
            == Action::Finish(Err(Fault::ImageMissing)),
        (Phase::Creating, Event::Created { id, warnings }) => n.container == Some(id) && n.live
            && if warnings {
            n.phase == Phase::Removing && n.fault == Some(Fault::CreateWarning)
                && is_remove(a, id@)
        } else {
            n.phase == Phase::Starting && is_start(a, id@)
        },
        (Phase::Starting, Event::Started) => n.phase == Phase::Following
            && is_next_frame(a, m.container->0@),
        (Phase::Following, Event::Frame { stdin, elapsed_ms }) => if stdin {
            n.phase == Phase::Removing && n.fault == Some(Fault::StdinMessage)
        } else if exceeds(m.timeout_ms, elapsed_ms) {
            n.status == Some(ExitStatus::Timeout) && n.phase == Phase::Removing && (m.commit is Some
                ==> n.fault == Some(Fault::AbortCommit))
        } else {
            n.phase == Phase::Following && is_next_frame(a, m.container->0@)
        },
        (Phase::Following, Event::Transient) => n.phase == Phase::Following
            && is_next_frame(a, m.container->0@),
        (Phase::Following, Event::LogsEnd) => n.phase == Phase::Waiting
            && is_next_code(a, m.container->0@),
        (Phase::Waiting, Event::Code(c)) => if m.code is None {
            n.phase == Phase::Waiting && n.code == Some(c)
        } else {
            n.phase == Phase::Removing && n.fault == Some(Fault::ConflictingStatus)
        },
        (Phase::Waiting, Event::WaitEnd) => match m.code {
            None => n.phase == Phase::Removing && n.fault == Some(Fault::NoStatus),
            Some(c) => n.status == Some(
                if c == 0 {
                    ExitStatus::Success
                } else {
                    ExitStatus::Failure
                },
            ) && match m.commit {
                Some(repo) => if c == 0 {
                    n.phase == Phase::Committing && is_commit(a, m.container->0@, repo@)
                } else {
                    n.phase == Phase::Removing && n.fault == Some(Fault::AbortCommit)
                },
                None => n.phase == Phase::Removing && is_remove(a, m.container->0@),
            },
        },
        (Phase::Committing, Event::Committed) => n.phase == Phase::Removing
            && is_remove(a, m.container->0@),
        (Phase::Removing, Event::Removed) => n.phase == Phase::Done && !n.live && a
            == Action::Finish(run_outcome(m.fault, m.status)),
        (Phase::Removing, _) => n.phase == Phase::Done && a == Action::Finish(
            Err(Fault::Engine),
        ),
        (Phase::Done, _) => n.phase == Phase::Done && a == Action::Finish(Err(Fault::Protocol)),
        (_, Event::Failed) => if holds_container(m.phase) {
            n.phase == Phase::Removing && n.fault == Some(Fault::Engine)
                && is_remove(a, m.container->0@)
        } else {
            n.phase == Phase::Done && a == Action::Finish(Err(Fault::Engine))
        },
        _ => if holds_container(m.phase) {
            n.phase == Phase::Removing && n.fault == Some(Fault::Protocol)
        } else {
            n.phase == Phase::Done && a == Action::Finish(Err(Fault::Protocol))
        },
    }
}


/// A run that reports an exit status has seen its container removed: the
/// only step that finishes with a status is the confirmed removal.
pub proof fn lemma_status_after_removal(m: Run, e: Event, n: Run, a: Action)
    requires
        m.inv(),
        run_step(m, e, n, a),
        a matches Action::Finish(Ok(_)),
    ensures
        m.phase == Phase::Removing,
        e is Removed,
        !n.live,
{
}

/// A run that finishes from a phase holding a container does so only from
/// its removal: confirmed, or reported as an engine fault when the engine
/// refused it.
pub proof fn lemma_finish_only_by_removal(m: Run, e: Event, n: Run, a: Action)
    requires
        m.inv(),
        run_step(m, e, n, a),
        holds_container(m.phase),
        n.phase == Phase::Done,
    ensures
        m.phase == Phase::Removing,
        e is Removed ==> !n.live,
        !(e is Removed) ==> a == Action::Finish(Err(Fault::Engine)),
{
}


/// A run whose container ended with exit code zero, with no fault so far
/// and nothing to commit, removes the container and reports success.
pub proof fn lemma_clean_exit(m: Run, n: Run, a: Action, n2: Run, a2: Action)
    requires
        m.inv(),
        m.phase == Phase::Waiting,
        m.code == Some(0i64),
        m.fault is None,
        m.commit is None,
        run_step(m, Event::WaitEnd, n, a),
        run_step(n, Event::Removed, n2, a2),
    ensures
        is_remove(a, m.container->0@),
        a2 == Action::Finish(Ok(ExitStatus::Success)),
        !n2.live,
{
}

/// A commit run whose command succeeded commits the container, removes it,
/// and reports success.
pub proof fn lemma_commit_success(
    m: Run,
    n: Run,
    a: Action,
    n2: Run,
    a2: Action,
    n3: Run,
    a3: Action,
)
    requires
        m.inv(),
        m.phase == Phase::Waiting,
        m.code == Some(0i64),
        m.fault is None,
        m.commit is Some,
        run_step(m, Event::WaitEnd, n, a),
        run_step(n, Event::Committed, n2, a2),
        run_step(n2, Event::Removed, n3, a3),
    ensures
        is_commit(a, m.container->0@, m.commit->0@),
        is_remove(a2, m.container->0@),
        a3 == Action::Finish(Ok(ExitStatus::Success)),
        !n3.live,
{
}

/// A frame past the deadline turns a sandboxed run to removing its
/// container at once, and the next answer finishes the run.
pub proof fn lemma_timeout_removes(m: Run, e: Event, n: Run, a: Action, e2: Event, n2: Run, a2: Action)
    requires
        m.inv(),
        m.phase == Phase::Following,
        m.commit is None,
        e matches Event::Frame { stdin, elapsed_ms } && !stdin && exceeds(m.timeout_ms, elapsed_ms),
        run_step(m, e, n, a),
        run_step(n, e2, n2, a2),
    ensures
        n.phase == Phase::Removing,
        n.status == Some(ExitStatus::Timeout),
        is_remove(a, m.container->0@),
        n2.phase == Phase::Done,
        e2 is Removed ==> !n2.live && a2 == Action::Finish(run_outcome(n.fault, n.status)),
{
}


/// An image as the engine lists it.
pub struct ImageInfo {
    pub id: String,
    pub repo_tags: Vec<String>,
}

/// A container as the engine lists it.
pub struct ContainerInfo {
    pub id: Option<String>,
    pub names: Option<Vec<String>>,
    pub image: Option<String>,
    pub image_id: Option<String>,
}

/// The image carries `tag` as its latest version.
pub open spec fn image_tagged(i: ImageInfo, tag: Seq<char>) -> bool {
    exists|k: int| 0 <= k < i.repo_tags@.len() && (#[trigger] i.repo_tags@[k])@ == tag + ":latest"@
}

/// What a lookup among listed items found: none, one id (possibly listed
/// several times), or several ids.
pub open spec fn lookup_result(
    ids: Seq<Seq<char>>,
    r: Result<Option<String>, Fault>,
    ambiguous: Fault,
) -> bool {
    match r {
        Ok(None) => ids.len() == 0,
        Ok(Some(id)) => ids.len() > 0 && forall|k: int| 0 <= k < ids.len() ==> ids[k] == id@,
        Err(f) => f == ambiguous && exists|a: int, b: int|
            0 <= a < ids.len() && 0 <= b < ids.len() && ids[a] != ids[b],
    }
}

/// The ids of the images that carry `tag`, in listing order.
pub open spec fn tagged_ids(images: Seq<ImageInfo>, tag: Seq<char>) -> Seq<Seq<char>>
    decreases images.len(),
{
    if images.len() == 0 {
        Seq::empty()
    } else if image_tagged(images.last(), tag) {
        tagged_ids(images.drop_last(), tag).push(images.last().id@)
    } else {
        tagged_ids(images.drop_last(), tag)
    }
}

/// The container is listed under `name`, with or without the engine's
/// leading slash.
pub open spec fn container_named(c: ContainerInfo, name: Seq<char>) -> bool {
    &&& c.id is Some
    &&& c.names matches Some(ns) && exists|k: int|
        0 <= k < ns@.len() && ((#[trigger] ns@[k])@ == name || ns@[k]@ == "/"@ + name)
}

/// The ids of the containers listed under `name`, in listing order.
pub open spec fn named_ids(cs: Seq<ContainerInfo>, name: Seq<char>) -> Seq<Seq<char>>
    decreases cs.len(),
{
    if cs.len() == 0 {
        Seq::empty()
    } else if container_named(cs.last(), name) {
        named_ids(cs.drop_last(), name).push(cs.last().id->0@)
    } else {
        named_ids(cs.drop_last(), name)
    }
}

/// The container was made from the image `image`.
pub open spec fn container_of(c: ContainerInfo, image: Seq<char>) -> bool {
    c.id is Some && ((c.image matches Some(i) && i@ == image) || (c.image_id matches Some(i)
        && i@ == image))
}

/// The ids of the containers made from `image`, in listing order.
pub open spec fn image_container_ids(cs: Seq<ContainerInfo>, image: Seq<char>) -> Seq<Seq<char>>
    decreases cs.len(),
{
    if cs.len() == 0 {
        Seq::empty()
    } else if container_of(cs.last(), image) {
        image_container_ids(cs.drop_last(), image).push(cs.last().id->0@)
    } else {
        image_container_ids(cs.drop_last(), image)
    }
}

fn has_string(v: &Vec<String>, s: &str) -> (r: bool)
    ensures
        r == exists|k: int| 0 <= k < v@.len() && (#[trigger] v@[k])@ == s@,
{
    let mut i: usize = 0;
    while i < v.len()
        invariant
            i <= v@.len(),
            forall|k: int| 0 <= k < i ==> (#[trigger] v@[k])@ != s@,
        decreases v@.len() - i,
    {
        if crate::text::same_text(v[i].as_str(), s) {
            return true;
        }
        i = i + 1;
    }
    false
}

/// Fold one more matching id into a lookup.
fn merge_id(found: &mut Option<String>, ambiguous: &mut bool, id: &String, ids: Ghost<Seq<Seq<char>>>)
    requires
        !*old(ambiguous) ==> match *old(found) {
            None => ids@.len() == 0,
            Some(f) => ids@.len() > 0 && forall|k: int| 0 <= k < ids@.len() ==> ids@[k] == f@,
        },
        *old(ambiguous) ==> exists|a: int, b: int|
            0 <= a < ids@.len() && 0 <= b < ids@.len() && ids@[a] != ids@[b],
    ensures
        !*final(ambiguous) ==> match *final(found) {
            None => ids@.push(id@).len() == 0,
            Some(f) => forall|k: int| 0 <= k < ids@.push(id@).len() ==> ids@.push(id@)[k] == f@,
        },
        *final(ambiguous) ==> exists|a: int, b: int|
            0 <= a < ids@.push(id@).len() && 0 <= b < ids@.push(id@).len() && ids@.push(id@)[a]
                != ids@.push(id@)[b],
{
    let ghost n = ids@.push(id@);
    if *ambiguous {
        proof {
            let (a, b) = choose|a: int, b: int|
                0 <= a < ids@.len() && 0 <= b < ids@.len() && ids@[a] != ids@[b];
            assert(n[a] != n[b]);
        }
        return;
    }
    match found {
        None => {
            *found = Some(id.clone());
        },
        Some(f) => {
            if *f != *id {
                *ambiguous = true;
                proof {
                    assert(n[0] == f@);
                    assert(n[ids@.len() as int] == id@);
                }
            }
        },
    }
}

/// Query an image by its tag among the listed images.
pub fn get_image(images: &Vec<ImageInfo>, tag: &str) -> (r: Result<Option<String>, Fault>)
    ensures
        lookup_result(tagged_ids(images@, tag@), r, Fault::AmbiguousImage),
{
    let latest = concat(tag, ":latest");
    let mut found: Option<String> = None;
    let mut ambiguous = false;
    let mut i: usize = 0;
    while i < images.len()
        invariant
            i <= images@.len(),
            latest@ == tag@ + ":latest"@,
            !ambiguous ==> match found {
                None => tagged_ids(images@.subrange(0, i as int), tag@).len() == 0,
                Some(f) => tagged_ids(images@.subrange(0, i as int), tag@).len() > 0 && forall|k: int|
                    0 <= k < tagged_ids(images@.subrange(0, i as int), tag@).len() ==> tagged_ids(
                        images@.subrange(0, i as int),
                        tag@,
                    )[k] == f@,
            },
            ambiguous ==> exists|a: int, b: int|
                0 <= a < tagged_ids(images@.subrange(0, i as int), tag@).len() && 0 <= b
                    < tagged_ids(images@.subrange(0, i as int), tag@).len() && tagged_ids(
                    images@.subrange(0, i as int),
                    tag@,
                )[a] != tagged_ids(images@.subrange(0, i as int), tag@)[b],
        decreases images@.len() - i,
    {
        let ghost ids = tagged_ids(images@.subrange(0, i as int), tag@);
        proof {
            assert(images@.subrange(0, i + 1).drop_last() =~= images@.subrange(0, i as int));
        }
        if has_string(&images[i].repo_tags, latest.as_str()) {
            merge_id(&mut found, &mut ambiguous, &images[i].id, Ghost(ids));
        }
        i = i + 1;
    }
    proof {
        assert(images@.subrange(0, images@.len() as int) =~= images@);
    }
    if ambiguous {
        Err(Fault::AmbiguousImage)
    } else {
        Ok(found)
    }
}


fn is_named(c: &ContainerInfo, name: &str, slashed: &str) -> (r: bool)
    requires
        slashed@ == "/"@ + name@,
    ensures
        r == container_named(*c, name@),
{
    match (&c.id, &c.names) {
        (Some(_), Some(ns)) => {
            let plain = has_string(ns, name);
            let with_slash = has_string(ns, slashed);
            proof {
                if container_named(*c, name@) {
                    let k = choose|k: int|
                        0 <= k < ns@.len() && ((#[trigger] ns@[k])@ == name@ || ns@[k]@ == "/"@
                            + name@);
                    assert(ns@[k]@ == name@ || ns@[k]@ == slashed@);
                }
            }
            plain || with_slash
        },
        _ => false,
    }
}

/// Query a container by its name among the listed containers.
pub fn get_container(containers: &Vec<ContainerInfo>, name: &str) -> (r: Result<
    Option<String>,
    Fault,
>)
    ensures
        lookup_result(named_ids(containers@, name@), r, Fault::AmbiguousContainer),
{
    let slashed = concat("/", name);
    let mut found: Option<String> = None;
    let mut ambiguous = false;
    let mut i: usize = 0;
    while i < containers.len()
        invariant
            i <= containers@.len(),
            slashed@ == "/"@ + name@,
            !ambiguous ==> match found {
                None => named_ids(containers@.subrange(0, i as int), name@).len() == 0,
                Some(f) => named_ids(containers@.subrange(0, i as int), name@).len() > 0
                    && forall|k: int|
                    0 <= k < named_ids(containers@.subrange(0, i as int), name@).len()
                        ==> named_ids(containers@.subrange(0, i as int), name@)[k] == f@,
            },
            ambiguous ==> exists|a: int, b: int|
                0 <= a < named_ids(containers@.subrange(0, i as int), name@).len() && 0 <= b
                    < named_ids(containers@.subrange(0, i as int), name@).len() && named_ids(
                    containers@.subrange(0, i as int),
                    name@,
                )[a] != named_ids(containers@.subrange(0, i as int), name@)[b],
        decreases containers@.len() - i,
    {
        let ghost ids = named_ids(containers@.subrange(0, i as int), name@);
        proof {
            assert(containers@.subrange(0, i + 1).drop_last() =~= containers@.subrange(
                0,
                i as int,
            ));
        }
        let c = &containers[i];
        if is_named(c, name, slashed.as_str()) {
            proof {
                assert(named_ids(containers@.subrange(0, i + 1), name@) == ids.push(
                    containers@[i as int].id->0@,
                ));
            }
            match &c.id {
                Some(id) => merge_id(&mut found, &mut ambiguous, id, Ghost(ids)),
                None => {},
            }
        } else {
            proof {
                assert(named_ids(containers@.subrange(0, i + 1), name@) == ids);
            }
        }
        i = i + 1;
    }
    proof {
        assert(containers@.subrange(0, containers@.len() as int) =~= containers@);
    }
    if ambiguous {
        Err(Fault::AmbiguousContainer)
    } else {
        Ok(found)
    }
}

/// The containers made from the image `image`, to delete before it.
pub fn containers_of_image(containers: &Vec<ContainerInfo>, image: &str) -> (r: Vec<String>)
    ensures
        r@.map_values(|s: String| s@) == image_container_ids(containers@, image@),
{
    let mut r: Vec<String> = Vec::new();
    let mut i: usize = 0;
    while i < containers.len()
        invariant
            i <= containers@.len(),
            r@.map_values(|s: String| s@) == image_container_ids(
                containers@.subrange(0, i as int),
                image@,
            ),
        decreases containers@.len() - i,
    {
        proof {
            assert(containers@.subrange(0, i + 1).drop_last() =~= containers@.subrange(
                0,
                i as int,
            ));
        }
        let c = &containers[i];
        let from_image = match &c.image {
            Some(x) => crate::text::same_text(x.as_str(), image),
            None => false,
        };
        let from_image_id = match &c.image_id {
            Some(x) => crate::text::same_text(x.as_str(), image),
            None => false,
        };
        if from_image || from_image_id {
            match &c.id {
                Some(id) => {
                    let ghost prev = r@;
                    r.push(id.clone());
                    proof {
                        assert(r@.map_values(|s: String| s@) =~= prev.map_values(|s: String| s@).push(
                            id@,
                        ));
                    }
                },
                None => {},
            }
        }
        i = i + 1;
    }
    proof {
        assert(containers@.subrange(0, containers@.len() as int) =~= containers@);
    }
    r
}

/// What to do with an image before building it anew.
#[derive(Clone, Debug, PartialEq, Eq)]
pub enum Prepare {
    /// No image carries the tag: build it.
    Fresh,
    /// The image exists and is kept: do nothing.
    Reuse,
    /// The image exists and is forced out: delete it, with its containers,
    /// then build.
    Replace(String),
}

/// Decide what becomes of an existing image before a build: kept unless
/// `force`, else deleted.
pub fn prepare(existing: Option<String>, force: bool) -> (r: Prepare)
    ensures
        match existing {
            None => r == Prepare::Fresh,
            Some(id) => if force {
                r == Prepare::Replace(id)
            } else {
                r == Prepare::Reuse
            },
        },
{
    match existing {
        None => Prepare::Fresh,
        Some(id) => if force {
            Prepare::Replace(id)
        } else {
            Prepare::Reuse
        },
    }
}

/// Confirm that a build left an image under its tag.
pub fn confirm_built(found: Option<String>) -> (r: Result<String, Fault>)
    ensures
        match found {
            Some(id) => r == Ok::<String, Fault>(id),
            None => r == Err::<String, Fault>(Fault::BuildMissing),
        },
{
    match found {
        Some(id) => Ok(id),
        None => Err(Fault::BuildMissing),
    }
}

} // verus!
