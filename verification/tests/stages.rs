//! Per-stage checks: composer, dependency merger, workspace initializer,
//! build driver and the shared model types.

use wasm_rpc_stubgen::compilation::build_outcome;
use wasm_rpc_stubgen::compilation::plan_build;
use wasm_rpc_stubgen::composition::compose;
use wasm_rpc_stubgen::composition::Component;
use wasm_rpc_stubgen::composition::ComposeFailure;
use wasm_rpc_stubgen::composition::ExportItem;
use wasm_rpc_stubgen::composition::ImportItem;
use wasm_rpc_stubgen::composition::Sig;
use wasm_rpc_stubgen::dependencies::merge;
use wasm_rpc_stubgen::dependencies::MergeOutcome;
use wasm_rpc_stubgen::files::FileEntry;
use wasm_rpc_stubgen::add_stub_dependency;
use wasm_rpc_stubgen::initialize_workspace;
use wasm_rpc_stubgen::AddStubDependencyArgs;
use wasm_rpc_stubgen::model::Format;
use wasm_rpc_stubgen::model::PathBufOrStdin;
use wasm_rpc_stubgen::model::ProjectAction;
use wasm_rpc_stubgen::model::Role;
use wasm_rpc_stubgen::model::AccountId;
use wasm_rpc_stubgen::InitializeWorkspaceArgs;
use wasm_rpc_stubgen::WasmRpcOverride;

fn sig(params: &[&str], results: &[&str]) -> Sig {
    Sig {
        params: params.iter().map(|s| String::from(*s)).collect(),
        results: results.iter().map(|s| String::from(*s)).collect(),
    }
}

fn export(name: &str, s: Sig) -> ExportItem {
    ExportItem { name: String::from(name), sig: s }
}

fn import(name: &str, s: Sig, optional: bool) -> ImportItem {
    ImportItem { name: String::from(name), sig: s, optional }
}

fn entry(path: &str, content: &str) -> FileEntry {
    FileEntry { path: String::from(path), content: String::from(content) }
}

#[test]
fn composing_with_the_satisfying_stub_leaves_no_import() {
    let caller = Component {
        exports: vec![export("app.run", sig(&[], &[]))],
        imports: vec![import("math.add", sig(&["u32", "u32"], &["u32"]), false)],
    };
    let stub = Component {
        exports: vec![export("math.add", sig(&["u32", "u32"], &["u32"]))],
        imports: vec![],
    };
    let composed = compose(&caller, &vec![stub]).expect("composition must succeed");
    assert_eq!(composed.imports.len(), 0);
    assert_eq!(composed.exports.len(), 1);
    assert_eq!(composed.exports[0].name, "app.run");
}

#[test]
fn removing_the_needed_stub_fails_naming_the_import() {
    let caller = Component {
        exports: vec![],
        imports: vec![import("math.add", sig(&["u32", "u32"], &["u32"]), false)],
    };
    let err = compose(&caller, &Vec::new()).err().expect("must fail");
    assert_eq!(err.failures.len(), 1);
    match &err.failures[0] {
        ComposeFailure::UnresolvedImport(name) => assert_eq!(name, "math.add"),
        _ => panic!("expected an unresolved import"),
    }
}

#[test]
fn ambiguous_exports_are_rejected_not_picked() {
    let caller = Component {
        exports: vec![],
        imports: vec![import("math.add", sig(&["u32", "u32"], &["u32"]), false)],
    };
    let stub_a = Component {
        exports: vec![export("math.add", sig(&["u32", "u32"], &["u32"]))],
        imports: vec![],
    };
    let stub_b = Component {
        exports: vec![export("math.add", sig(&["u64"], &["u64"]))],
        imports: vec![],
    };
    let err = compose(&caller, &vec![stub_a, stub_b]).err().expect("must fail");
    assert_eq!(err.failures.len(), 1);
    match &err.failures[0] {
        ComposeFailure::AmbiguousImport(name) => assert_eq!(name, "math.add"),
        _ => panic!("expected an ambiguous import"),
    }
}

#[test]
fn optional_unaddressed_imports_pass_through() {
    let caller = Component {
        exports: vec![],
        imports: vec![
            import("math.add", sig(&["u32", "u32"], &["u32"]), false),
            import("log.debug", sig(&["string"], &[]), true),
        ],
    };
    let stub = Component {
        exports: vec![export("math.add", sig(&["u32", "u32"], &["u32"]))],
        imports: vec![],
    };
    let composed = compose(&caller, &vec![stub]).expect("composition must succeed");
    assert_eq!(composed.imports.len(), 1);
    assert_eq!(composed.imports[0].name, "log.debug");
}

#[test]
fn merge_copies_skips_and_reports_writes() {
    let src = vec![entry("deps/stub/a.wit", "alpha"), entry("deps/stub/b.wit", "beta")];
    let dst = vec![entry("deps/stub/a.wit", "alpha"), entry("world.wit", "world w\nend\n")];
    match merge(&src, &dst, false, false) {
        MergeOutcome::Applied { new_dst, writes, .. } => {
            assert_eq!(writes, vec![String::from("deps/stub/b.wit")]);
            assert_eq!(new_dst.len(), 3);
            assert_eq!(new_dst[2].path, "deps/stub/b.wit");
            assert_eq!(new_dst[2].content, "beta");
        }
        _ => panic!("expected the merge to apply"),
    }
}

#[test]
fn merging_twice_writes_nothing_and_keeps_dst() {
    let src = vec![entry("a.wit", "alpha"), entry("b.wit", "beta")];
    let dst = vec![entry("c.wit", "gamma")];
    let first = match merge(&src, &dst, false, false) {
        MergeOutcome::Applied { new_dst, .. } => new_dst,
        _ => panic!("first merge must apply"),
    };
    match merge(&src, &first, false, false) {
        MergeOutcome::Applied { new_dst, writes, .. } => {
            assert_eq!(writes.len(), 0);
            assert_eq!(new_dst.len(), first.len());
            for (x, y) in new_dst.iter().zip(first.iter()) {
                assert_eq!(x.path, y.path);
                assert_eq!(x.content, y.content);
            }
        }
        _ => panic!("second merge must apply"),
    }
}

#[test]
fn a_changed_file_conflicts_and_overwrite_restores_it() {
    let src = vec![entry("a.wit", "alpha"), entry("b.wit", "beta")];
    let dst = vec![entry("a.wit", "alpha"), entry("b.wit", "changed by hand")];
    match merge(&src, &dst, false, false) {
        MergeOutcome::Conflicts { paths } => {
            assert_eq!(paths, vec![String::from("b.wit")]);
        }
        _ => panic!("expected a conflict"),
    }
    match merge(&src, &dst, true, false) {
        MergeOutcome::Applied { new_dst, writes, .. } => {
            assert_eq!(writes, vec![String::from("b.wit")]);
            assert_eq!(new_dst[1].content, "beta");
        }
        _ => panic!("overwrite must apply"),
    }
}

#[test]
fn the_merge_outcome_carries_the_manifest_update_decision() {
    let src = vec![entry("a.wit", "alpha")];
    let dst: Vec<FileEntry> = Vec::new();
    let args = AddStubDependencyArgs {
        stub_wit_root: String::from("stub/wit"),
        dest_wit_root: String::from("caller/wit"),
        overwrite: false,
        update_cargo_toml: true,
    };
    match add_stub_dependency(&args, &src, &dst) {
        MergeOutcome::Applied { update_manifest, .. } => assert!(update_manifest),
        _ => panic!("the merge must apply"),
    }
    let args_no = AddStubDependencyArgs { update_cargo_toml: false, ..args };
    match add_stub_dependency(&args_no, &src, &dst) {
        MergeOutcome::Applied { update_manifest, .. } => assert!(!update_manifest),
        _ => panic!("the merge must apply"),
    }
}

#[test]
fn workspace_description_orders_the_four_stages_per_pair() {
    let tasks = initialize_workspace(&InitializeWorkspaceArgs {
        targets: vec![String::from("t1")],
        callers: vec![String::from("c1"), String::from("c2")],
        wasm_rpc_override: WasmRpcOverride {
            wasm_rpc_path_override: None,
            wasm_rpc_version_override: None,
        },
    });
    let names: Vec<&str> = tasks.iter().map(|t| t.name.as_str()).collect();
    assert_eq!(
        names,
        vec![
            "generate-t1",
            "build-t1-stub",
            "add-stub-dependency-t1-c1",
            "add-stub-dependency-t1-c2",
            "compose-c1",
            "build-flow-c1",
            "compose-c2",
            "build-flow-c2",
        ]
    );
    assert_eq!(tasks[1].dependencies, vec![String::from("generate-t1")]);
    assert_eq!(tasks[2].dependencies, vec![String::from("build-t1-stub")]);
    assert_eq!(tasks[4].dependencies, vec![String::from("add-stub-dependency-t1-c1")]);
    assert_eq!(tasks[5].dependencies, vec![String::from("compose-c1")]);
    assert_eq!(tasks[5].command.len(), 0);
    assert_eq!(
        tasks[4].command,
        vec![
            String::from("compose"),
            String::from("--source-wasm"),
            String::from("c1.wasm"),
            String::from("--stub-wasm"),
            String::from("t1-stub.wasm"),
            String::from("--dest-wasm"),
            String::from("c1-composed.wasm"),
        ]
    );
}

#[test]
fn build_plans_are_deterministic_and_offline_aware() {
    let plan = plan_build("out", "stub.wasm", "wit", false);
    assert_eq!(plan.command, "cargo");
    assert_eq!(
        plan.args,
        vec![String::from("component"), String::from("build"), String::from("--release")]
    );
    let offline = plan_build("out", "stub.wasm", "wit", true);
    assert_eq!(offline.args.last().map(|s| s.as_str()), Some("--offline"));
}

#[test]
fn build_outcome_relays_diagnostics_verbatim() {
    assert!(build_outcome(0, String::from("")).is_ok());
    let err = build_outcome(101, String::from("error[E0308]: mismatched types")).err().unwrap();
    assert_eq!(err.0, "error[E0308]: mismatched types");
}

#[test]
fn format_names_round_trip_and_unknown_names_are_reported() {
    assert_eq!(Format::from_str("json"), Ok(Format::Json));
    assert_eq!(Format::from_str("yaml"), Ok(Format::Yaml));
    assert_eq!(Format::Json.name(), "json");
    assert_eq!(Format::Yaml.name(), "yaml");
    assert_eq!(
        Format::from_str("toml"),
        Err(String::from("Unknown format: toml. Expected one of \"json\", \"yaml\""))
    );
}

#[test]
fn role_names_round_trip() {
    let roles = [
        Role::Admin,
        Role::MarketingAdmin,
        Role::ViewProject,
        Role::DeleteProject,
        Role::CreateProject,
        Role::InstanceServer,
    ];
    for role in roles {
        assert_eq!(Role::from_str(role.name()), Ok(role));
    }
    assert!(Role::from_str("Intern").is_err());
}

#[test]
fn action_names_round_trip() {
    let actions = [
        ProjectAction::ViewTemplate,
        ProjectAction::CreateTemplate,
        ProjectAction::UpdateTemplate,
        ProjectAction::DeleteTemplate,
        ProjectAction::ViewWorker,
        ProjectAction::CreateWorker,
        ProjectAction::UpdateWorker,
        ProjectAction::DeleteWorker,
        ProjectAction::ViewProjectGrants,
        ProjectAction::CreateProjectGrants,
        ProjectAction::DeleteProjectGrants,
    ];
    for action in actions {
        assert_eq!(ProjectAction::from_str(action.name()), Ok(action));
    }
    assert!(ProjectAction::from_str("FlyToTheMoon").is_err());
}

#[test]
fn dash_selects_stdin_and_anything_else_is_a_path() {
    assert!(matches!(PathBufOrStdin::from_str("-"), PathBufOrStdin::Stdin));
    match PathBufOrStdin::from_str("a/b.wit") {
        PathBufOrStdin::Path(p) => assert_eq!(p, "a/b.wit"),
        PathBufOrStdin::Stdin => panic!("expected a path"),
    }
    let id = AccountId::new(String::from("acc-1"));
    assert_eq!(id.id, "acc-1");
}
