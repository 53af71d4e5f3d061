use moon_dashboard::config::{get_mooncake_sources, Mooncake, ReposConfig};
use moon_dashboard::orchestrator::{BuildAction, BuildRun};
use moon_dashboard::dashboard::{
    AssembleError, Backend, BuildState, ExecuteResult, MoonBuildDashboard, MoonCommand,
    MooncakeSource, Status, ToolChainLabel, ToolChainVersion, CBT, OS,
};

fn registry_source(index: usize) -> MooncakeSource {
    MooncakeSource::MooncakesIO {
        name: "user/pkg".to_string(),
        version: vec!["0.1.0".to_string()],
        running_os: vec![OS::Linux],
        running_backend: vec![Backend::Wasm],
        index,
    }
}

fn toolchain(label: ToolChainLabel) -> ToolChainVersion {
    ToolChainVersion {
        label,
        moon_version: "moon 0.1".to_string(),
        moonc_version: "v0.1".to_string(),
    }
}

#[test]
fn backend_flags() {
    assert_eq!(Backend::Wasm.to_flag(), "wasm");
    assert_eq!(Backend::WasmGC.to_flag(), "wasm-gc");
    assert_eq!(Backend::Js.to_flag(), "js");
    assert_eq!(Backend::Native.to_flag(), "native");
}

#[test]
fn os_flags() {
    assert_eq!(OS::Linux.to_flag(), "linux");
    assert_eq!(OS::MacOS.to_flag(), "macos");
    assert_eq!(OS::Windows.to_flag(), "windows");
}

#[test]
fn command_args_per_kind() {
    assert_eq!(
        MoonCommand::Check(Backend::Wasm).args(false),
        vec!["check", "-q", "--target", "wasm"]
    );
    assert_eq!(
        MoonCommand::Build(Backend::Native).args(true),
        vec!["build", "-q", "--target", "native"]
    );
    assert_eq!(
        MoonCommand::Test(Backend::Js).args(true),
        vec!["test", "-q", "--target", "js"]
    );
    assert_eq!(
        MoonCommand::Test(Backend::WasmGC).args(false),
        vec!["test", "-q", "--build-only", "--target", "wasm-gc"]
    );
}

#[test]
fn skip_result_is_empty() {
    let r = ExecuteResult::skip_result();
    assert!(matches!(r.status, Status::Skipped));
    assert_eq!(r.start_time, "");
    assert_eq!(r.elapsed, 0);
    assert_eq!(r.stdout, "");
    assert_eq!(r.stderr, "");
}

#[test]
fn source_index_of_both_variants() {
    assert_eq!(registry_source(7).get_index(), 7);
    let git = MooncakeSource::Git {
        url: "https://github.com/a/b".to_string(),
        rev: vec![],
        running_os: vec![],
        running_backend: vec![],
        index: 3,
    };
    assert_eq!(git.get_index(), 3);
}

#[test]
fn cbt_set_touches_one_cell() {
    let mut cbt = CBT::skipped();
    let r = ExecuteResult {
        status: Status::Success,
        start_time: "t".to_string(),
        elapsed: 5,
        stdout: "out".to_string(),
        stderr: String::new(),
    };
    cbt.set(MoonCommand::Build(Backend::Js), r);
    assert!(matches!(cbt.build.js.status, Status::Success));
    assert_eq!(cbt.build.js.elapsed, 5);
    assert!(matches!(cbt.check.js.status, Status::Skipped));
    assert!(matches!(cbt.build.wasm.status, Status::Skipped));
    assert!(matches!(cbt.test.js.status, Status::Skipped));
}

#[test]
fn assemble_aligned_dashboard() {
    let sources = vec![registry_source(0), registry_source(1)];
    let stable = vec![
        BuildState { source: 0, cbts: vec![None] },
        BuildState { source: 1, cbts: vec![Some(CBT::skipped())] },
    ];
    let bleeding = vec![
        BuildState { source: 0, cbts: vec![None] },
        BuildState { source: 1, cbts: vec![None] },
    ];
    let d = MoonBuildDashboard::assemble(
        "12".to_string(),
        "3".to_string(),
        sources,
        toolchain(ToolChainLabel::Stable),
        stable,
        toolchain(ToolChainLabel::Bleeding),
        bleeding,
    )
    .unwrap();
    assert_eq!(d.run_id, "12");
    assert_eq!(d.run_number, "3");
    assert_eq!(d.sources.len(), 2);
    assert_eq!(d.stable_release_data.len(), 2);
    assert_eq!(d.bleeding_release_data.len(), 2);
    for i in 0..2 {
        assert_eq!(d.stable_release_data[i].source, d.sources[i].get_index());
        assert_eq!(d.bleeding_release_data[i].source, d.sources[i].get_index());
    }
    assert!(!d.start_time.is_empty());
}

#[test]
fn assemble_rejects_misaligned_channels() {
    let short = MoonBuildDashboard::assemble(
        "0".to_string(),
        "0".to_string(),
        vec![registry_source(0)],
        toolchain(ToolChainLabel::Stable),
        vec![],
        toolchain(ToolChainLabel::Bleeding),
        vec![BuildState { source: 0, cbts: vec![] }],
    );
    assert!(matches!(short, Err(AssembleError::StableMisaligned)));
    let swapped = MoonBuildDashboard::assemble(
        "0".to_string(),
        "0".to_string(),
        vec![registry_source(0), registry_source(1)],
        toolchain(ToolChainLabel::Stable),
        vec![BuildState { source: 0, cbts: vec![] }, BuildState { source: 1, cbts: vec![] }],
        toolchain(ToolChainLabel::Bleeding),
        vec![BuildState { source: 1, cbts: vec![] }, BuildState { source: 0, cbts: vec![] }],
    );
    assert!(matches!(swapped, Err(AssembleError::BleedingMisaligned)));
}

#[test]
fn dashboard_channels_follow_sources() {
    let config = ReposConfig {
        github_repos: vec![],
        mooncakes: vec![
            Mooncake { name: "a/b".to_string(), version: "1.0.0".to_string(), running_os: None, running_backend: None },
            Mooncake { name: "a/c".to_string(), version: "0.1.0".to_string(), running_os: None, running_backend: None },
        ],
    };
    let sources = get_mooncake_sources(&Some("https://github.com/x/y".to_string()), &Some(config));
    let channel = |fail: bool| -> Vec<BuildState> {
        sources
            .iter()
            .map(|src| {
                let mut run = BuildRun::new(src);
                loop {
                    match run.next_action() {
                        BuildAction::Clone { .. } => run.record_cloned(),
                        BuildAction::Fetch { .. } if fail => run.record_fetch_failed(),
                        BuildAction::Fetch { .. } => run.record_cbt(CBT::skipped()),
                        BuildAction::Done => break,
                    }
                }
                run.finish()
            })
            .collect()
    };
    let stable = channel(false);
    let bleeding = channel(true);
    let d = MoonBuildDashboard::assemble(
        "0".to_string(),
        "0".to_string(),
        sources.clone(),
        toolchain(ToolChainLabel::Stable),
        stable,
        toolchain(ToolChainLabel::Bleeding),
        bleeding,
    )
    .unwrap();
    assert_eq!(d.stable_release_data.len(), 3);
    assert_eq!(d.bleeding_release_data.len(), 3);
    for i in 0..3 {
        assert_eq!(d.stable_release_data[i].source, i);
        assert_eq!(d.bleeding_release_data[i].source, d.sources[i].get_index());
    }
    assert!(d.stable_release_data[0].cbts.is_empty());
    assert!(d.stable_release_data[1].cbts[0].is_some());
    assert!(d.bleeding_release_data[2].cbts[0].is_none());
}
