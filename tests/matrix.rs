use moon_dashboard::dashboard::{Backend, MoonCommand, MooncakeSource, Status, CBT, OS};
use moon_dashboard::matrix::{
    execute_result, is_first_party, matrix_plan_of, CommandOutcome, CommandOutput, MatrixAction, MatrixError,
    MatrixRun, FIRST_PARTY_ORG,
};
use moon_dashboard::text::{contains_str, replace_char_str, rfind_str};

fn output(success: bool, elapsed_ms: u64, text: &str) -> CommandOutcome {
    CommandOutcome::Completed(CommandOutput {
        success,
        elapsed_ms,
        stdout: text.to_string(),
        stderr: format!("err {}", text),
    })
}

/// Drives a run to its end, answering each command with `answer`, and
/// returns the commands asked for, with their arguments and clean flags.
fn drive(
    run: &mut MatrixRun,
    answer: &dyn Fn(MoonCommand) -> CommandOutcome,
) -> Vec<(MoonCommand, Vec<&'static str>, bool)> {
    let mut asked = vec![];
    loop {
        match run.next_action() {
            MatrixAction::Done => break,
            MatrixAction::Run { command, args, clean_first } => {
                asked.push((command, args, clean_first));
                run.record(answer(command));
            }
        }
    }
    asked
}

fn all_cells(cbt: &CBT) -> Vec<&moon_dashboard::dashboard::ExecuteResult> {
    let mut v = vec![];
    for s in [&cbt.check, &cbt.build, &cbt.test] {
        v.push(&s.wasm);
        v.push(&s.wasm_gc);
        v.push(&s.js);
        v.push(&s.native);
    }
    v
}

#[test]
fn plan_filters_by_host() {
    let plan = matrix_plan_of(
        &vec![OS::Linux, OS::MacOS, OS::Windows],
        &vec![Backend::Wasm, Backend::Js],
        OS::MacOS,
    );
    assert_eq!(
        plan,
        vec![
            MoonCommand::Check(Backend::Wasm),
            MoonCommand::Build(Backend::Wasm),
            MoonCommand::Test(Backend::Wasm),
            MoonCommand::Check(Backend::Js),
            MoonCommand::Build(Backend::Js),
            MoonCommand::Test(Backend::Js),
        ]
    );
}

#[test]
fn plan_repeats_for_repeated_host() {
    let plan = matrix_plan_of(&vec![OS::Linux, OS::Linux], &vec![Backend::Native], OS::Linux);
    assert_eq!(plan.len(), 6);
    assert_eq!(plan[3], MoonCommand::Check(Backend::Native));
}

#[test]
fn plan_empty_when_host_not_allowed() {
    let plan = matrix_plan_of(&vec![OS::Windows], &vec![Backend::Wasm], OS::Linux);
    assert!(plan.is_empty());
}

#[test]
fn run_fills_cells_in_order() {
    let mut run = MatrixRun::new(&vec![OS::Linux], &vec![Backend::Wasm], OS::Linux, false);
    let asked = drive(&mut run, &|c| match c {
        MoonCommand::Test(_) => output(false, 30, "t"),
        MoonCommand::Build(_) => output(true, 20, "b"),
        MoonCommand::Check(_) => output(true, 10, "c"),
    });
    assert_eq!(asked.len(), 3);
    assert_eq!(asked[0].0, MoonCommand::Check(Backend::Wasm));
    assert_eq!(asked[0].1, vec!["check", "-q", "--target", "wasm"]);
    assert!(asked[0].2);
    assert_eq!(asked[1].0, MoonCommand::Build(Backend::Wasm));
    assert!(!asked[1].2);
    assert_eq!(asked[2].1, vec!["test", "-q", "--build-only", "--target", "wasm"]);
    assert!(!asked[2].2);
    let cbt = run.finish().unwrap();
    assert!(matches!(cbt.check.wasm.status, Status::Success));
    assert_eq!(cbt.check.wasm.elapsed, 10);
    assert_eq!(cbt.check.wasm.stdout, "c");
    assert_eq!(cbt.check.wasm.stderr, "err c");
    assert!(!cbt.check.wasm.start_time.is_empty());
    assert!(matches!(cbt.build.wasm.status, Status::Success));
    assert!(matches!(cbt.test.wasm.status, Status::Failure));
    assert_eq!(cbt.test.wasm.elapsed, 30);
    assert!(matches!(cbt.check.js.status, Status::Skipped));
    assert!(matches!(cbt.test.native.status, Status::Skipped));
}

#[test]
fn first_party_tests_are_run() {
    let mut run = MatrixRun::new(&vec![OS::Windows], &vec![Backend::Js], OS::Windows, true);
    let asked = drive(&mut run, &|_| output(true, 1, ""));
    assert_eq!(asked[2].1, vec!["test", "-q", "--target", "js"]);
}

#[test]
fn empty_os_set_gives_all_skipped() {
    let mut run = MatrixRun::new(
        &vec![],
        &vec![Backend::Wasm, Backend::WasmGC, Backend::Js, Backend::Native],
        OS::Linux,
        false,
    );
    assert!(run.is_finished());
    let asked = drive(&mut run, &|_| output(true, 1, "x"));
    assert!(asked.is_empty());
    let cbt = run.finish().unwrap();
    let cells = all_cells(&cbt);
    assert_eq!(cells.len(), 12);
    for c in cells {
        assert!(matches!(c.status, Status::Skipped));
        assert_eq!(c.elapsed, 0);
        assert_eq!(c.stdout, "");
        assert_eq!(c.stderr, "");
        assert_eq!(c.start_time, "");
    }
}

#[test]
fn backend_cells_go_together() {
    let mut run = MatrixRun::new(
        &vec![OS::MacOS, OS::Linux],
        &vec![Backend::Js, Backend::Native],
        OS::Linux,
        false,
    );
    drive(&mut run, &|_| output(false, 2, "x"));
    let cbt = run.finish().unwrap();
    for s in [&cbt.check, &cbt.build, &cbt.test] {
        assert!(matches!(s.js.status, Status::Failure));
        assert!(matches!(s.native.status, Status::Failure));
        assert!(matches!(s.wasm.status, Status::Skipped));
        assert!(matches!(s.wasm_gc.status, Status::Skipped));
    }
}

#[test]
fn other_host_leaves_cells_skipped() {
    let mut run = MatrixRun::new(&vec![OS::MacOS, OS::Windows], &vec![Backend::Wasm], OS::Linux, false);
    let asked = drive(&mut run, &|_| output(true, 2, "x"));
    assert!(asked.is_empty());
    let cbt = run.finish().unwrap();
    assert!(matches!(cbt.check.wasm.status, Status::Skipped));
    assert!(matches!(cbt.build.wasm.status, Status::Skipped));
    assert!(matches!(cbt.test.wasm.status, Status::Skipped));
}

#[test]
fn repeated_host_entry_overwrites() {
    let mut run = MatrixRun::new(&vec![OS::Linux, OS::Linux], &vec![Backend::Wasm], OS::Linux, false);
    let mut calls = 0u64;
    loop {
        match run.next_action() {
            MatrixAction::Done => break,
            MatrixAction::Run { .. } => {
                calls += 1;
                run.record(output(calls <= 3, calls, "x"));
            }
        }
    }
    assert_eq!(calls, 6);
    let cbt = run.finish().unwrap();
    assert!(matches!(cbt.check.wasm.status, Status::Failure));
    assert_eq!(cbt.check.wasm.elapsed, 4);
    assert_eq!(cbt.test.wasm.elapsed, 6);
}

#[test]
fn rerun_gives_same_statuses() {
    let answer = |c: MoonCommand| match c {
        MoonCommand::Build(Backend::Js) => output(false, 7, "b"),
        _ => output(true, 3, "ok"),
    };
    let mut first = MatrixRun::new(&vec![OS::Linux], &vec![Backend::Js, Backend::Wasm], OS::Linux, true);
    drive(&mut first, &answer);
    let mut second = MatrixRun::new(&vec![OS::Linux], &vec![Backend::Js, Backend::Wasm], OS::Linux, true);
    drive(&mut second, &answer);
    let a = first.finish().unwrap();
    let b = second.finish().unwrap();
    for (x, y) in all_cells(&a).into_iter().zip(all_cells(&b)) {
        assert_eq!(format!("{:?}", x.status), format!("{:?}", y.status));
        assert_eq!(x.stdout, y.stdout);
        assert_eq!(x.stderr, y.stderr);
    }
    assert!(matches!(a.build.js.status, Status::Failure));
}

#[test]
fn launch_failure_ends_run() {
    let mut run = MatrixRun::new(&vec![OS::Linux], &vec![Backend::WasmGC], OS::Linux, false);
    run.record(output(true, 1, "c"));
    run.record(CommandOutcome::LaunchFailed);
    assert!(run.is_finished());
    assert!(matches!(run.next_action(), MatrixAction::Done));
    assert_eq!(
        run.finish().unwrap_err(),
        MatrixError::LaunchFailed { command: MoonCommand::Build(Backend::WasmGC) }
    );
}

#[test]
fn first_party_by_name_or_url() {
    let pkg = MooncakeSource::MooncakesIO {
        name: "moonbitlang/x".to_string(),
        version: vec![],
        running_os: vec![],
        running_backend: vec![],
        index: 0,
    };
    let repo = MooncakeSource::Git {
        url: "https://github.com/someone/lib".to_string(),
        rev: vec![],
        running_os: vec![],
        running_backend: vec![],
        index: 1,
    };
    assert!(is_first_party(&pkg, FIRST_PARTY_ORG));
    assert!(!is_first_party(&repo, FIRST_PARTY_ORG));
    assert!(is_first_party(&repo, "someone"));
}

#[test]
fn text_helpers() {
    assert!(contains_str("abcabc", "ca"));
    assert!(!contains_str("abc", "abcd"));
    assert!(contains_str("abc", ""));
    assert_eq!(rfind_str("a.b.index.index", ".index"), Some(9));
    assert_eq!(rfind_str("abc", "x"), None);
    assert_eq!(replace_char_str("a\\b\\c", '\\', "/"), "a/b/c");
    assert_eq!(replace_char_str("é\\ü", '\\', "/"), "é/ü");
}

#[test]
fn execute_result_records_output() {
    let ok = execute_result(
        CommandOutput { success: true, elapsed_ms: 12, stdout: "o".to_string(), stderr: "e".to_string() },
        "2024-01-01 00:00:00.000".to_string(),
    );
    assert!(matches!(ok.status, Status::Success));
    assert_eq!(ok.elapsed, 12);
    assert_eq!(ok.stdout, "o");
    assert_eq!(ok.stderr, "e");
    assert_eq!(ok.start_time, "2024-01-01 00:00:00.000");
    let failed = execute_result(
        CommandOutput { success: false, elapsed_ms: 0, stdout: String::new(), stderr: String::new() },
        String::new(),
    );
    assert!(matches!(failed.status, Status::Failure));
}
