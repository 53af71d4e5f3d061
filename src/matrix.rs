use vstd::prelude::*;

use crate::text::{contains_seq, contains_str};
use crate::dashboard::{
    command_args, is_skip, strs_view, Backend, ExecuteResult, MoonCommand, Status, CBT, OS,
};

verus! {

/// The organization whose projects count as first-party.
pub const FIRST_PARTY_ORG: &'static str = "moonbitlang";

/// Offset from UTC, in seconds, of the timestamps recorded for matrix cells.
pub const TIMESTAMP_OFFSET_SECS: i32 = 28800;

/// The commands run for one matching OS entry: check, build and test for
/// each allowed backend, in the order of the allow-set.
pub open spec fn backend_steps(bs: Seq<Backend>) -> Seq<MoonCommand>
    decreases bs.len(),
{
    if bs.len() == 0 {
        Seq::empty()
    } else {
        let b = bs.last();
        backend_steps(bs.drop_last()) + seq![
            MoonCommand::Check(b),
            MoonCommand::Build(b),
            MoonCommand::Test(b),
        ]
    }
}

/// The commands that the matrix runs, in order: the cross product of the OS
/// allow-set and the backend allow-set, where only OS entries equal to the
/// host contribute. A host that occurs twice in the OS allow-set runs its
/// backends twice.
pub open spec fn matrix_plan(oses: Seq<OS>, bs: Seq<Backend>, host: OS) -> Seq<MoonCommand>
    decreases oses.len(),
{
    if oses.len() == 0 {
        Seq::empty()
    } else {
        matrix_plan(oses.drop_last(), bs, host) + if oses.last() == host {
            backend_steps(bs)
        } else {
            Seq::empty()
        }
    }
}

/// The result that the last run of command `c` recorded, where `results[i]`
/// is the result of `plan[i]`; `None` if `c` never ran.
pub open spec fn last_result(
    plan: Seq<MoonCommand>,
    results: Seq<ExecuteResult>,
    c: MoonCommand,
) -> Option<ExecuteResult>
    decreases plan.len(),
{
    if plan.len() == 0 {
        None
    } else if plan.last() == c {
        Some(results[plan.len() - 1])
    } else {
        last_result(plan.drop_last(), results, c)
    }
}

/// A cell holds the last result of its command, or the skip sentinel.
pub open spec fn slot_holds(r: ExecuteResult, expected: Option<ExecuteResult>) -> bool {
    match expected {
        Some(e) => r == e,
        None => is_skip(r),
    }
}

/// `cbt` is what the matrix yields when the commands of `plan` were run and
/// gave `results`, one for each, none of them skipped.
pub open spec fn matrix_outcome(
    plan: Seq<MoonCommand>,
    results: Seq<ExecuteResult>,
    cbt: CBT,
) -> bool {
    &&& results.len() == plan.len()
    &&& forall|i: int| 0 <= i < results.len() ==> #[trigger] results[i].status != Status::Skipped
    &&& forall|c: MoonCommand| slot_holds(#[trigger] cbt.slot(c), last_result(plan, results, c))
}

/// Whether the source counts as a project of `org`: its package name or its
/// URL contains the organization's name.
pub fn is_first_party(source: &crate::dashboard::MooncakeSource, org: &str) -> (r: bool)
    ensures
        r == contains_seq(source.locator(), org@),
{
    match source {
        crate::dashboard::MooncakeSource::MooncakesIO { name, .. } => contains_str(name.as_str(), org),
        crate::dashboard::MooncakeSource::Git { url, .. } => contains_str(url.as_str(), org),
    }
}


/// The commands that the matrix runs for the given allow-sets on `host`.
pub fn matrix_plan_of(running_os: &Vec<OS>, running_backend: &Vec<Backend>, host: OS) -> (r: Vec<
    MoonCommand,
>)
    ensures
        r@ == matrix_plan(running_os@, running_backend@, host),
{
    let ghost bs = running_backend@;
    let mut plan: Vec<MoonCommand> = Vec::new();
    let mut i: usize = 0;
    while i < running_os.len()
        invariant
            i <= running_os@.len(),
            bs == running_backend@,
            plan@ == matrix_plan(running_os@.take(i as int), bs, host),
        decreases running_os.len() - i,
    {
        let ghost before = plan@;
        if running_os[i] == host {
            let mut j: usize = 0;
            while j < running_backend.len()
                invariant
                    j <= bs.len(),
                    bs == running_backend@,
                    plan@ == before + backend_steps(bs.take(j as int)),
                decreases running_backend.len() - j,
            {
                let b = running_backend[j];
                plan.push(MoonCommand::Check(b));
                plan.push(MoonCommand::Build(b));
                plan.push(MoonCommand::Test(b));
                assert(bs.take(j + 1).drop_last() =~= bs.take(j as int));
                assert(plan@ =~= before + backend_steps(bs.take(j + 1)));
                j += 1;
            }
            assert(bs.take(bs.len() as int) =~= bs);
        }
        assert(running_os@.take(i + 1).drop_last() =~= running_os@.take(i as int));
        i += 1;
    }
    assert(running_os@.take(running_os@.len() as int) =~= running_os@);
    plan
}

/// What the command runner reports of a command that it could start.
#[derive(Debug, Clone)]
pub struct CommandOutput {
    pub success: bool,
    pub elapsed_ms: u64,
    pub stdout: String,
    pub stderr: String,
}

/// What became of one command of the matrix.
#[derive(Debug, Clone)]
pub enum CommandOutcome {
    /// The process ran to its end.
    Completed(CommandOutput),
    /// The process could not be started.
    LaunchFailed,
}

/// `r` records the output `o`: success or failure by the exit status, with
/// its duration and captured text.
pub open spec fn records(r: ExecuteResult, o: CommandOutput) -> bool {
    &&& r.status == if o.success {
        Status::Success
    } else {
        Status::Failure
    }
    &&& r.elapsed == o.elapsed_ms
    &&& r.stdout == o.stdout
    &&& r.stderr == o.stderr
}

/// The cell result for a command that ran, stamped with `start_time`.
pub fn execute_result(output: CommandOutput, start_time: String) -> (r: ExecuteResult)
    ensures
        records(r, output),
        r.start_time == start_time,
{
    let status = if output.success {
        Status::Success
    } else {
        Status::Failure
    };
    ExecuteResult {
        status,
        start_time,
        elapsed: output.elapsed_ms,
        stdout: output.stdout,
        stderr: output.stderr,
    }
}

/// Relies on chrono's `Local::now`, converted to a fixed offset of
/// `offset_secs` seconds east of UTC and formatted as
/// `%Y-%m-%d %H:%M:%S.%3f`: the current time. `FixedOffset::east_opt` accepts
/// any offset strictly within one day.
#[verifier::external_body]
fn timestamp_now(offset_secs: i32) -> String
    requires
        -86400 < offset_secs < 86400,
{
    let offset = chrono::FixedOffset::east_opt(offset_secs).unwrap();
    chrono::Local::now().with_timezone(&offset).format("%Y-%m-%d %H:%M:%S.%3f").to_string()
}

/// What the driver of a matrix run is asked to do next.
#[derive(Debug)]
pub enum MatrixAction {
    /// Run the toolchain with `args`, after a best-effort clean of the working
    /// directory when `clean_first` holds, and report the outcome.
    Run { command: MoonCommand, args: Vec<&'static str>, clean_first: bool },
    /// Nothing is left to run.
    Done,
}

/// Why a matrix run yields no CBT.
#[derive(Debug, Clone, Copy, PartialEq, Eq, Structural)]
pub enum MatrixError {
    /// The toolchain process for `command` could not be started.
    LaunchFailed { command: MoonCommand },
}

/// A matrix run in progress: the commands planned, how many have reported,
/// and the cells filled so far.
pub struct MatrixRun {
    plan: Vec<MoonCommand>,
    pos: usize,
    cbt: CBT,
    results: Ghost<Seq<ExecuteResult>>,
    failed: Option<MoonCommand>,
    first_party: bool,
}

impl MatrixRun {
    /// The commands that the run executes, in order.
    pub closed spec fn plan(&self) -> Seq<MoonCommand> {
        self.plan@
    }

    /// The results recorded so far, one for each command of the plan that
    /// ran.
    pub closed spec fn results(&self) -> Seq<ExecuteResult> {
        self.results@
    }

    /// The command that could not be started, if any.
    pub closed spec fn failed(&self) -> Option<MoonCommand> {
        self.failed
    }

    /// Whether the tests of the source are run rather than only built.
    pub closed spec fn first_party(&self) -> bool {
        self.first_party
    }

    /// Whether nothing is left to do.
    pub open spec fn finished(&self) -> bool {
        self.failed() is Some || self.results().len() == self.plan().len()
    }

    pub closed spec fn wf(&self) -> bool {
        &&& self.pos == self.results@.len()
        &&& self.pos <= self.plan@.len()
        &&& matrix_outcome(self.plan@.take(self.pos as int), self.results@, self.cbt)
    }

    /// Starts a run over the allow-sets on `host`: every cell skipped,
    /// nothing run yet.
    pub fn new(running_os: &Vec<OS>, running_backend: &Vec<Backend>, host: OS, first_party: bool) -> (r: Self)
        ensures
            r.wf(),
            r.plan() == matrix_plan(running_os@, running_backend@, host),
            r.results() == Seq::<ExecuteResult>::empty(),
            r.failed() is None,
            r.first_party() == first_party,
    {
        let plan = matrix_plan_of(running_os, running_backend, host);
        let r = MatrixRun {
            plan,
            pos: 0,
            cbt: CBT::skipped(),
            results: Ghost(Seq::empty()),
            failed: None,
            first_party,
        };
        assert(r.plan@.take(0) =~= Seq::<MoonCommand>::empty());
        r
    }

    pub fn is_finished(&self) -> (r: bool)
        requires
            self.wf(),
        ensures
            r == self.finished(),
    {
        self.failed.is_some() || self.pos == self.plan.len()
    }

    /// The next command to run, with a clean before the first command of
    /// each backend; `Done` once the run is finished.
    pub fn next_action(&self) -> (a: MatrixAction)
        requires
            self.wf(),
        ensures
            self.finished() ==> a is Done,
            !self.finished() ==> (a matches MatrixAction::Run { command, args, clean_first } && {
                &&& command == self.plan()[self.results().len() as int]
                &&& strs_view(args@) == command_args(command, self.first_party())
                &&& clean_first == command is Check
            }),
    {
        if self.failed.is_some() || self.pos == self.plan.len() {
            return MatrixAction::Done;
        }
        let command = self.plan[self.pos];
        let args = command.args(self.first_party);
        let clean_first = match command {
            MoonCommand::Check(_) => true,
            _ => false,
        };
        MatrixAction::Run { command, args, clean_first }
    }

    /// Takes in the outcome of the command that `next_action` named. A
    /// completed command fills its cell, stamped with the current time; a
    /// command that could not start ends the run.
    pub fn record(&mut self, outcome: CommandOutcome)
        requires
            old(self).wf(),
            !old(self).finished(),
        ensures
            final(self).wf(),
            final(self).plan() == old(self).plan(),
            final(self).first_party() == old(self).first_party(),
            match outcome {
                CommandOutcome::Completed(o) => {
                    &&& final(self).failed() is None
                    &&& final(self).results().len() == old(self).results().len() + 1
                    &&& final(self).results().drop_last() == old(self).results()
                    &&& records(final(self).results().last(), o)
                },
                CommandOutcome::LaunchFailed => {
                    &&& final(self).failed() == Some(old(self).plan()[old(self).results().len() as int])
                    &&& final(self).results() == old(self).results()
                },
            },
    {
        let command = self.plan[self.pos];
        let len = self.plan.len();
        assert(self.pos < len);
        let next: usize = self.pos + 1;
        match outcome {
            CommandOutcome::Completed(o) => {
                let start_time = timestamp_now(TIMESTAMP_OFFSET_SECS);
                let r = execute_result(o, start_time);
                let ghost old_results = self.results@;
                self.cbt.set(command, r);
                self.results = Ghost(self.results@.push(r));
                self.pos = next;
                proof {
                    let p = self.plan@.take(self.pos as int);
                    assert(p.drop_last() =~= self.plan@.take(self.pos - 1));
                    assert(self.results@.drop_last() =~= old_results);
                    assert forall|c: MoonCommand| last_result(p, self.results@, c) == if c == command {
                        Some(r)
                    } else {
                        last_result(p.drop_last(), old_results, c)
                    } by {
                        lemma_last_result_prefix(p.drop_last(), old_results, self.results@, c);
                    }
                    assert forall|k: int| 0 <= k < self.results@.len() implies #[trigger] self.results@[k].status
                        != Status::Skipped by {
                        if k < old_results.len() {
                            assert(self.results@[k] == old_results[k]);
                        }
                    }
                }
            },
            CommandOutcome::LaunchFailed => {
                self.failed = Some(command);
            },
        }
    }

    /// The CBT of a run that finished without a launch failure, or the
    /// command that could not be started.
    pub fn finish(self) -> (r: Result<CBT, MatrixError>)
        requires
            self.wf(),
            self.finished(),
        ensures
            match self.failed() {
                Some(c) => r == Err::<CBT, MatrixError>(MatrixError::LaunchFailed { command: c }),
                None => r matches Ok(cbt) && matrix_outcome(self.plan(), self.results(), cbt),
            },
    {
        match self.failed {
            Some(command) => Err(MatrixError::LaunchFailed { command }),
            None => {
                assert(self.plan@.take(self.pos as int) =~= self.plan@);
                Ok(self.cbt)
            },
        }
    }
}

/// Results beyond the end of a plan do not change what it recorded.
proof fn lemma_last_result_prefix(
    plan: Seq<MoonCommand>,
    results: Seq<ExecuteResult>,
    longer: Seq<ExecuteResult>,
    c: MoonCommand,
)
    requires
        plan.len() <= results.len(),
        results.len() <= longer.len(),
        forall|i: int| 0 <= i < results.len() ==> results[i] == longer[i],
    ensures
        last_result(plan, results, c) == last_result(plan, longer, c),
    decreases plan.len(),
{
    if plan.len() > 0 {
        lemma_last_result_prefix(plan.drop_last(), results, longer, c);
    }
}


proof fn lemma_concat_contains<T>(a: Seq<T>, b: Seq<T>, x: T)
    ensures
        (a + b).contains(x) <==> a.contains(x) || b.contains(x),
{
    if a.contains(x) {
        let i = choose|i: int| 0 <= i < a.len() && a[i] == x;
        assert((a + b)[i] == x);
    }
    if b.contains(x) {
        let i = choose|i: int| 0 <= i < b.len() && b[i] == x;
        assert((a + b)[a.len() + i] == x);
    }
    if (a + b).contains(x) {
        let i = choose|i: int| 0 <= i < (a + b).len() && (a + b)[i] == x;
        if i < a.len() {
            assert(a[i] == x);
        } else {
            assert(b[i - a.len()] == x);
        }
    }
}

proof fn lemma_backend_steps_contains(bs: Seq<Backend>, c: MoonCommand)
    ensures
        backend_steps(bs).contains(c) <==> bs.contains(c.backend()),
    decreases bs.len(),
{
    if bs.len() > 0 {
        let b = bs.last();
        let tail = seq![MoonCommand::Check(b), MoonCommand::Build(b), MoonCommand::Test(b)];
        lemma_backend_steps_contains(bs.drop_last(), c);
        lemma_concat_contains(backend_steps(bs.drop_last()), tail, c);
        lemma_concat_contains(bs.drop_last(), seq![b], c.backend());
        assert(bs =~= bs.drop_last() + seq![b]);
        if tail.contains(c) {
            let i = choose|i: int| 0 <= i < tail.len() && tail[i] == c;
            assert(seq![b][0] == c.backend());
        }
        if seq![b].contains(c.backend()) {
            match c {
                MoonCommand::Check(_) => assert(tail[0] == c),
                MoonCommand::Build(_) => assert(tail[1] == c),
                MoonCommand::Test(_) => assert(tail[2] == c),
            }
        }
    }
}

proof fn lemma_plan_contains(oses: Seq<OS>, bs: Seq<Backend>, host: OS, c: MoonCommand)
    ensures
        matrix_plan(oses, bs, host).contains(c) <==> oses.contains(host) && bs.contains(c.backend()),
    decreases oses.len(),
{
    if oses.len() > 0 {
        let o = oses.last();
        let tail = if o == host {
            backend_steps(bs)
        } else {
            Seq::empty()
        };
        lemma_plan_contains(oses.drop_last(), bs, host, c);
        lemma_concat_contains(matrix_plan(oses.drop_last(), bs, host), tail, c);
        lemma_concat_contains(oses.drop_last(), seq![o], host);
        lemma_backend_steps_contains(bs, c);
        assert(oses =~= oses.drop_last() + seq![o]);
        if seq![o].contains(host) {
            assert(seq![o][0] == host);
        }
        if o == host {
            assert(seq![o][0] == host);
        }
    }
}

proof fn lemma_last_result_present(plan: Seq<MoonCommand>, results: Seq<ExecuteResult>, c: MoonCommand)
    requires
        results.len() == plan.len(),
        forall|i: int| 0 <= i < results.len() ==> #[trigger] results[i].status != Status::Skipped,
    ensures
        last_result(plan, results, c) is Some <==> plan.contains(c),
        last_result(plan, results, c) matches Some(r) ==> r.status != Status::Skipped,
    decreases plan.len(),
{
    if plan.len() > 0 {
        let p = plan.drop_last();
        lemma_last_result_prefix(p, results.drop_last(), results, c);
        lemma_last_result_present(p, results.drop_last(), c);
        lemma_concat_contains(p, seq![plan.last()], c);
        assert(plan =~= p + seq![plan.last()]);
        if seq![plan.last()].contains(c) {
            assert(seq![plan.last()][0] == c);
        }
        if plan.last() == c {
            assert(seq![plan.last()][0] == c);
        }
        assert(results[plan.len() - 1].status != Status::Skipped);
    }
}

/// The check, build and test cells of backend `b` all ran.
pub open spec fn cells_ran(cbt: CBT, b: Backend) -> bool {
    &&& cbt.check.on(b).status != Status::Skipped
    &&& cbt.build.on(b).status != Status::Skipped
    &&& cbt.test.on(b).status != Status::Skipped
}

/// The check, build and test cells of backend `b` all hold the skip
/// sentinel.
pub open spec fn cells_skipped(cbt: CBT, b: Backend) -> bool {
    &&& is_skip(cbt.check.on(b))
    &&& is_skip(cbt.build.on(b))
    &&& is_skip(cbt.test.on(b))
}

/// With an empty OS allow-set nothing runs: each of the twelve cells holds
/// the skip sentinel, with zero elapsed time and empty output.
pub proof fn lemma_empty_os_set_all_skipped(
    bs: Seq<Backend>,
    host: OS,
    results: Seq<ExecuteResult>,
    cbt: CBT,
)
    requires
        matrix_outcome(matrix_plan(Seq::empty(), bs, host), results, cbt),
    ensures
        forall|c: MoonCommand| is_skip(#[trigger] cbt.slot(c)),
{
    assert forall|c: MoonCommand| is_skip(#[trigger] cbt.slot(c)) by {
        assert(slot_holds(cbt.slot(c), last_result(matrix_plan(Seq::empty(), bs, host), results, c)));
    }
}

/// The three cells of a backend go together: they all ran when the host is
/// in the OS allow-set and the backend in the backend allow-set, and
/// otherwise all hold the skip sentinel.
pub proof fn lemma_backend_cells_together(
    oses: Seq<OS>,
    bs: Seq<Backend>,
    host: OS,
    results: Seq<ExecuteResult>,
    cbt: CBT,
)
    requires
        matrix_outcome(matrix_plan(oses, bs, host), results, cbt),
    ensures
        forall|b: Backend| oses.contains(host) && bs.contains(b) ==> #[trigger] cells_ran(cbt, b),
        forall|b: Backend| !(oses.contains(host) && bs.contains(b)) ==> #[trigger] cells_skipped(cbt, b),
{
    let plan = matrix_plan(oses, bs, host);
    assert forall|c: MoonCommand|
        (oses.contains(host) && bs.contains(c.backend()) ==> #[trigger] cbt.slot(c).status != Status::Skipped)
        && (!(oses.contains(host) && bs.contains(c.backend())) ==> is_skip(cbt.slot(c))) by {
        lemma_plan_contains(oses, bs, host, c);
        lemma_last_result_present(plan, results, c);
        assert(slot_holds(cbt.slot(c), last_result(plan, results, c)));
    }
    assert forall|b: Backend| oses.contains(host) && bs.contains(b) implies #[trigger] cells_ran(cbt, b) by {
        assert(cbt.slot(MoonCommand::Check(b)).status != Status::Skipped);
        assert(cbt.slot(MoonCommand::Build(b)).status != Status::Skipped);
        assert(cbt.slot(MoonCommand::Test(b)).status != Status::Skipped);
    }
    assert forall|b: Backend| !(oses.contains(host) && bs.contains(b)) implies #[trigger] cells_skipped(cbt, b) by {
        assert(is_skip(cbt.slot(MoonCommand::Check(b))));
        assert(is_skip(cbt.slot(MoonCommand::Build(b))));
        assert(is_skip(cbt.slot(MoonCommand::Test(b))));
    }
}

proof fn lemma_last_result_agree(
    plan: Seq<MoonCommand>,
    r1: Seq<ExecuteResult>,
    r2: Seq<ExecuteResult>,
    c: MoonCommand,
)
    requires
        r1.len() == plan.len(),
        r2.len() == plan.len(),
        forall|i: int| 0 <= i < plan.len() ==> #[trigger] same_outcome(r1[i], r2[i]),
    ensures
        last_result(plan, r1, c) is Some <==> last_result(plan, r2, c) is Some,
        last_result(plan, r1, c) is Some ==> same_outcome(
            last_result(plan, r1, c)->0,
            last_result(plan, r2, c)->0,
        ),
    decreases plan.len(),
{
    if plan.len() > 0 {
        let p = plan.drop_last();
        lemma_last_result_prefix(p, r1.drop_last(), r1, c);
        lemma_last_result_prefix(p, r2.drop_last(), r2, c);
        lemma_last_result_agree(p, r1.drop_last(), r2.drop_last(), c);
        assert(same_outcome(r1[plan.len() - 1], r2[plan.len() - 1]));
    }
}

/// Two results agree on everything but their start time and elapsed time.
pub open spec fn same_outcome(a: ExecuteResult, b: ExecuteResult) -> bool {
    &&& a.status == b.status
    &&& a.stdout@ == b.stdout@
    &&& a.stderr@ == b.stderr@
}

/// Running the matrix twice on the same inputs, with a toolchain that gives
/// each command the same exit status and output both times, yields CBTs
/// whose cells differ at most in start time and elapsed time.
pub proof fn lemma_rerun_same_cells(
    oses: Seq<OS>,
    bs: Seq<Backend>,
    host: OS,
    r1: Seq<ExecuteResult>,
    cbt1: CBT,
    r2: Seq<ExecuteResult>,
    cbt2: CBT,
)
    requires
        matrix_outcome(matrix_plan(oses, bs, host), r1, cbt1),
        matrix_outcome(matrix_plan(oses, bs, host), r2, cbt2),
        forall|i: int| 0 <= i < r1.len() ==> #[trigger] same_outcome(r1[i], r2[i]),
    ensures
        forall|c: MoonCommand| #[trigger] same_outcome(cbt1.slot(c), cbt2.slot(c)),
{
    let plan = matrix_plan(oses, bs, host);
    assert forall|c: MoonCommand| #[trigger] same_outcome(cbt1.slot(c), cbt2.slot(c)) by {
        lemma_last_result_agree(plan, r1, r2, c);
        assert(slot_holds(cbt1.slot(c), last_result(plan, r1, c)));
        assert(slot_holds(cbt2.slot(c), last_result(plan, r2, c)));
        if last_result(plan, r1, c) is None {
            assert(cbt1.slot(c).stdout@ =~= cbt2.slot(c).stdout@);
            assert(cbt1.slot(c).stderr@ =~= cbt2.slot(c).stderr@);
        }
    }
}

} // verus!
