use vstd::prelude::*;

verus! {

/// A compiler backend that the toolchain can target.
#[derive(Debug, Clone, Copy, PartialEq, Eq, Structural, Hash)]
pub enum Backend {
    Wasm,
    WasmGC,
    Js,
    Native,
}

/// The canonical flag of a backend, as the toolchain and the dashboard spell it.
pub open spec fn backend_flag(b: Backend) -> Seq<char> {
    match b {
        Backend::Wasm => "wasm"@,
        Backend::WasmGC => "wasm-gc"@,
        Backend::Js => "js"@,
        Backend::Native => "native"@,
    }
}

impl Backend {
    pub fn to_flag(&self) -> (r: &'static str)
        ensures
            r@ == backend_flag(*self),
    {
        match self {
            Backend::Wasm => "wasm",
            Backend::WasmGC => "wasm-gc",
            Backend::Js => "js",
            Backend::Native => "native",
        }
    }
}


/// An operating system that a source may be tested on.
#[derive(Debug, Clone, Copy, PartialEq, Eq, Structural, Hash)]
pub enum OS {
    Linux,
    MacOS,
    Windows,
}

/// The canonical flag of an operating system.
pub open spec fn os_flag(os: OS) -> Seq<char> {
    match os {
        OS::Linux => "linux"@,
        OS::MacOS => "macos"@,
        OS::Windows => "windows"@,
    }
}

impl OS {
    pub fn to_flag(&self) -> (r: &'static str)
        ensures
            r@ == os_flag(*self),
    {
        match self {
            OS::Linux => "linux",
            OS::MacOS => "macos",
            OS::Windows => "windows",
        }
    }
}

/// A package of the registry or a git repository, with the versions (or
/// revisions) to test, where to test them, and its stable index in the
/// source list.
#[derive(Debug, Clone)]
pub enum MooncakeSource {
    MooncakesIO {
        name: String,
        version: Vec<String>,
        running_os: Vec<OS>,
        running_backend: Vec<Backend>,
        index: usize,
    },
    Git {
        url: String,
        rev: Vec<String>,
        running_os: Vec<OS>,
        running_backend: Vec<Backend>,
        index: usize,
    },
}

impl MooncakeSource {
    /// The index of the source in the source list.
    pub open spec fn index_of(&self) -> usize {
        match self {
            MooncakeSource::MooncakesIO { index, .. } => *index,
            MooncakeSource::Git { index, .. } => *index,
        }
    }

    /// The package name or the clone URL.
    pub open spec fn locator(&self) -> Seq<char> {
        match self {
            MooncakeSource::MooncakesIO { name, .. } => name@,
            MooncakeSource::Git { url, .. } => url@,
        }
    }

    /// The versions or revisions declared for the source, in order.
    pub open spec fn revisions(&self) -> Seq<String> {
        match self {
            MooncakeSource::MooncakesIO { version, .. } => version@,
            MooncakeSource::Git { rev, .. } => rev@,
        }
    }

    /// The operating systems that the source is allowed to run on.
    pub open spec fn os_set(&self) -> Seq<OS> {
        match self {
            MooncakeSource::MooncakesIO { running_os, .. } => running_os@,
            MooncakeSource::Git { running_os, .. } => running_os@,
        }
    }

    /// The backends that the source is allowed to run with.
    pub open spec fn backend_set(&self) -> Seq<Backend> {
        match self {
            MooncakeSource::MooncakesIO { running_backend, .. } => running_backend@,
            MooncakeSource::Git { running_backend, .. } => running_backend@,
        }
    }

    pub fn get_index(&self) -> (r: usize)
        ensures
            r == self.index_of(),
    {
        match self {
            MooncakeSource::MooncakesIO { index, .. } => *index,
            MooncakeSource::Git { index, .. } => *index,
        }
    }
}

/// One toolchain command of the matrix, with the backend it targets.
#[derive(Debug, Clone, Copy, PartialEq, Eq, Structural)]
pub enum MoonCommand {
    Check(Backend),
    Build(Backend),
    Test(Backend),
}

/// The argument list of a command. A third-party project only has its tests
/// built, a first-party project has them run.
pub open spec fn command_args(c: MoonCommand, first_party: bool) -> Seq<Seq<char>> {
    match c {
        MoonCommand::Check(b) => seq!["check"@, "-q"@, "--target"@, backend_flag(b)],
        MoonCommand::Build(b) => seq!["build"@, "-q"@, "--target"@, backend_flag(b)],
        MoonCommand::Test(b) => if first_party {
            seq!["test"@, "-q"@, "--target"@, backend_flag(b)]
        } else {
            seq!["test"@, "-q"@, "--build-only"@, "--target"@, backend_flag(b)]
        },
    }
}

/// The view of a list of string slices as a sequence of character sequences.
pub open spec fn strs_view(v: Seq<&str>) -> Seq<Seq<char>> {
    v.map_values(|s: &str| s@)
}

impl MoonCommand {
    /// The backend that the command targets.
    pub open spec fn backend(self) -> Backend {
        match self {
            MoonCommand::Check(b) => b,
            MoonCommand::Build(b) => b,
            MoonCommand::Test(b) => b,
        }
    }

    pub fn args(&self, is_moonbit_community: bool) -> (r: Vec<&'static str>)
        ensures
            strs_view(r@) == command_args(*self, is_moonbit_community),
    {
        let r = match self {
            MoonCommand::Check(backend) => vec!["check", "-q", "--target", backend.to_flag()],
            MoonCommand::Build(backend) => vec!["build", "-q", "--target", backend.to_flag()],
            MoonCommand::Test(backend) => {
                if is_moonbit_community {
                    vec!["test", "-q", "--target", backend.to_flag()]
                } else {
                    vec!["test", "-q", "--build-only", "--target", backend.to_flag()]
                }
            },
        };
        assert(strs_view(r@) =~= command_args(*self, is_moonbit_community));
        r
    }
}


/// A toolchain release track.
#[derive(Debug, Clone, Copy, PartialEq, Eq, Structural)]
pub enum ToolChainLabel {
    Stable,
    Bleeding,
}

/// The toolchain that one channel of a run used.
#[derive(Debug, Clone)]
pub struct ToolChainVersion {
    pub label: ToolChainLabel,
    pub moon_version: String,
    pub moonc_version: String,
}

/// The outcome class of one matrix cell.
#[derive(Debug, Clone, Copy, PartialEq, Eq, Structural)]
pub enum Status {
    Success,
    Failure,
    Skipped,
}

/// The outcome of one matrix cell.
#[derive(Debug, Clone)]
pub struct ExecuteResult {
    pub status: Status,
    pub start_time: String,
    pub elapsed: u64,
    pub stdout: String,
    pub stderr: String,
}

/// Whether `r` is the sentinel of a cell that was never attempted.
pub open spec fn is_skip(r: ExecuteResult) -> bool {
    &&& r.status == Status::Skipped
    &&& r.start_time@.len() == 0
    &&& r.elapsed == 0
    &&& r.stdout@.len() == 0
    &&& r.stderr@.len() == 0
}

impl ExecuteResult {
    pub fn skip_result() -> (r: Self)
        ensures
            is_skip(r),
    {
        Self {
            status: Status::Skipped,
            start_time: String::new(),
            elapsed: 0,
            stdout: String::new(),
            stderr: String::new(),
        }
    }
}

/// The outcomes of one command on each backend.
#[derive(Debug, Clone)]
pub struct BackendState {
    pub wasm: ExecuteResult,
    pub wasm_gc: ExecuteResult,
    pub js: ExecuteResult,
    pub native: ExecuteResult,
}

impl BackendState {
    /// The outcome on backend `b`.
    pub open spec fn on(self, b: Backend) -> ExecuteResult {
        match b {
            Backend::Wasm => self.wasm,
            Backend::WasmGC => self.wasm_gc,
            Backend::Js => self.js,
            Backend::Native => self.native,
        }
    }

    fn skipped() -> (r: Self)
        ensures
            forall|b: Backend| is_skip(#[trigger] r.on(b)),
    {
        BackendState {
            wasm: ExecuteResult::skip_result(),
            wasm_gc: ExecuteResult::skip_result(),
            js: ExecuteResult::skip_result(),
            native: ExecuteResult::skip_result(),
        }
    }

    fn set(&mut self, b: Backend, r: ExecuteResult)
        ensures
            forall|b2: Backend|
                #[trigger] final(self).on(b2) == if b2 == b {
                    r
                } else {
                    old(self).on(b2)
                },
    {
        match b {
            Backend::Wasm => self.wasm = r,
            Backend::WasmGC => self.wasm_gc = r,
            Backend::Js => self.js = r,
            Backend::Native => self.native = r,
        }
    }
}

/// The check, build and test outcomes of one fetched version of a source.
#[derive(Debug, Clone)]
pub struct CBT {
    pub check: BackendState,
    pub build: BackendState,
    pub test: BackendState,
}

impl CBT {
    /// The outcome of command `c` (on the backend it targets).
    pub open spec fn slot(self, c: MoonCommand) -> ExecuteResult {
        match c {
            MoonCommand::Check(b) => self.check.on(b),
            MoonCommand::Build(b) => self.build.on(b),
            MoonCommand::Test(b) => self.test.on(b),
        }
    }

    /// A CBT whose twelve cells all hold the skip sentinel.
    pub fn skipped() -> (r: Self)
        ensures
            forall|c: MoonCommand| is_skip(#[trigger] r.slot(c)),
    {
        let r = CBT {
            check: BackendState::skipped(),
            build: BackendState::skipped(),
            test: BackendState::skipped(),
        };
        assert forall|c: MoonCommand| is_skip(#[trigger] r.slot(c)) by {
            match c {
                MoonCommand::Check(b) => assert(is_skip(r.check.on(b))),
                MoonCommand::Build(b) => assert(is_skip(r.build.on(b))),
                MoonCommand::Test(b) => assert(is_skip(r.test.on(b))),
            }
        }
        r
    }

    /// Stores the outcome of command `c`, leaving the other cells as they were.
    pub fn set(&mut self, c: MoonCommand, r: ExecuteResult)
        ensures
            forall|c2: MoonCommand|
                #[trigger] final(self).slot(c2) == if c2 == c {
                    r
                } else {
                    old(self).slot(c2)
                },
    {
        match c {
            MoonCommand::Check(b) => self.check.set(b, r),
            MoonCommand::Build(b) => self.build.set(b, r),
            MoonCommand::Test(b) => self.test.set(b, r),
        }
        assert forall|c2: MoonCommand|
            #[trigger] self.slot(c2) == if c2 == c {
                r
            } else {
                old(self).slot(c2)
            } by {
            match c2 {
                MoonCommand::Check(b) => assert(self.check.on(b) == old(self).check.on(b) || c2 == c),
                MoonCommand::Build(b) => assert(self.build.on(b) == old(self).build.on(b) || c2 == c),
                MoonCommand::Test(b) => assert(self.test.on(b) == old(self).test.on(b) || c2 == c),
            }
        }
    }
}

/// The results of one source on one channel: one entry per declared version
/// or revision, absent where fetching it failed.
#[derive(Debug, Clone)]
pub struct BuildState {
    pub source: usize,
    pub cbts: Vec<Option<CBT>>,
}


/// `data` holds one build state per source, in the order of `sources`, each
/// naming its source's index.
pub open spec fn aligned(sources: Seq<MooncakeSource>, data: Seq<BuildState>) -> bool {
    &&& data.len() == sources.len()
    &&& forall|i: int| 0 <= i < data.len() ==> #[trigger] data[i].source == sources[i].index_of()
}

/// The document of one run: both channels' toolchains and results over the
/// same source list.
#[derive(Debug, Clone)]
pub struct MoonBuildDashboard {
    pub run_id: String,
    pub run_number: String,
    pub start_time: String,
    pub sources: Vec<MooncakeSource>,
    pub stable_toolchain_version: ToolChainVersion,
    pub stable_release_data: Vec<BuildState>,
    pub bleeding_toolchain_version: ToolChainVersion,
    pub bleeding_release_data: Vec<BuildState>,
}

/// Why the results of a run cannot form a dashboard.
#[derive(Debug, Clone, Copy, PartialEq, Eq, Structural)]
pub enum AssembleError {
    /// The stable channel's results do not follow the source list.
    StableMisaligned,
    /// The bleeding channel's results do not follow the source list.
    BleedingMisaligned,
}

/// Relies on chrono's `Local::now` and `DateTime::to_rfc3339`: the current
/// time in the host's zone, as RFC 3339 text.
#[verifier::external_body]
fn now_rfc3339() -> String {
    chrono::Local::now().to_rfc3339()
}

fn check_aligned(sources: &Vec<MooncakeSource>, data: &Vec<BuildState>) -> (r: bool)
    ensures
        r == aligned(sources@, data@),
{
    if data.len() != sources.len() {
        return false;
    }
    let mut i: usize = 0;
    while i < data.len()
        invariant
            data@.len() == sources@.len(),
            i <= data@.len(),
            forall|j: int| 0 <= j < i ==> #[trigger] data@[j].source == sources@[j].index_of(),
        decreases data.len() - i,
    {
        if data[i].source != sources[i].get_index() {
            return false;
        }
        i += 1;
    }
    true
}

impl MoonBuildDashboard {
    /// Both channels' results follow the source list.
    pub open spec fn wf(&self) -> bool {
        &&& aligned(self.sources@, self.stable_release_data@)
        &&& aligned(self.sources@, self.bleeding_release_data@)
    }

    /// The dashboard of a run whose two channels gave the results given,
    /// stamped with the current time; an error names a channel whose results
    /// do not follow the source list.
    pub fn assemble(
        run_id: String,
        run_number: String,
        sources: Vec<MooncakeSource>,
        stable_toolchain_version: ToolChainVersion,
        stable_release_data: Vec<BuildState>,
        bleeding_toolchain_version: ToolChainVersion,
        bleeding_release_data: Vec<BuildState>,
    ) -> (r: Result<Self, AssembleError>)
        ensures
            !aligned(sources@, stable_release_data@) ==> r == Err::<Self, AssembleError>(
                AssembleError::StableMisaligned,
            ),
            aligned(sources@, stable_release_data@) && !aligned(sources@, bleeding_release_data@)
                ==> r == Err::<Self, AssembleError>(AssembleError::BleedingMisaligned),
            aligned(sources@, stable_release_data@) && aligned(sources@, bleeding_release_data@)
                ==> (r matches Ok(d) && {
                &&& d.wf()
                &&& d.run_id == run_id
                &&& d.run_number == run_number
                &&& d.sources == sources
                &&& d.stable_toolchain_version == stable_toolchain_version
                &&& d.stable_release_data == stable_release_data
                &&& d.bleeding_toolchain_version == bleeding_toolchain_version
                &&& d.bleeding_release_data == bleeding_release_data
            }),
    {
        if !check_aligned(&sources, &stable_release_data) {
            return Err(AssembleError::StableMisaligned);
        }
        if !check_aligned(&sources, &bleeding_release_data) {
            return Err(AssembleError::BleedingMisaligned);
        }
        Ok(MoonBuildDashboard {
            run_id,
            run_number,
            start_time: now_rfc3339(),
            sources,
            stable_toolchain_version,
            stable_release_data,
            bleeding_toolchain_version,
            bleeding_release_data,
        })
    }
}

} // verus!
