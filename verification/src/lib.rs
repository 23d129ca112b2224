//! Interface-stub generation and binary composition pipeline.
//!
//! Given a component's interface description, the library resolves it into a
//! typed model, derives a "stub" world whose exported functions mirror the
//! source world's exports but forward each call through a remote-invocation
//! transport, generates the source project for that stub, plans the external
//! build, merges the generated interface into another interface root as a
//! versioned dependency (with conflict protection), and statically links a
//! caller's binary with stub binaries by import/export name and signature.

pub mod compilation;
pub mod composition;
pub mod dependencies;
pub mod files;
pub mod make;
pub mod model;
pub mod seqs;
pub mod stub;
pub mod text;
pub mod wit_generate;
pub mod wit_parse;
pub mod wit_resolve;

use vstd::prelude::*;

verus! {

/// Where the generated stub takes its remote-invocation transport library
/// from: a local path or a pinned version, mutually exclusive; with neither,
/// the latest published version is used.
pub struct WasmRpcOverride {
    /// Absolute path of a local copy of the transport library.
    pub wasm_rpc_path_override: Option<String>,
    /// Version of the transport library to pin.
    pub wasm_rpc_version_override: Option<String>,
}

/// Mathematical image of a `WasmRpcOverride`.
#[verifier::ext_equal]
pub ghost struct WasmRpcOverrideView {
    pub wasm_rpc_path_override: Option<Seq<char>>,
    pub wasm_rpc_version_override: Option<Seq<char>>,
}

impl DeepView for WasmRpcOverride {
    type V = WasmRpcOverrideView;

    open spec fn deep_view(&self) -> WasmRpcOverrideView {
        WasmRpcOverrideView {
            wasm_rpc_path_override: match &self.wasm_rpc_path_override {
                Some(p) => Some(p@),
                None => None,
            },
            wasm_rpc_version_override: match &self.wasm_rpc_version_override {
                Some(v) => Some(v@),
                None => None,
            },
        }
    }
}

use crate::files::FileEntry;
use crate::files::FileEntryView;
use crate::make::MakeTask;
use crate::stub::StubConfig;
use crate::stub::SynthError;
use crate::stub::synth_spec;
use crate::wit_generate::GenConfigView;
use crate::wit_generate::gen_config_view;
use crate::wit_generate::gen_files;
use crate::wit_resolve::ResolveError;
use crate::wit_resolve::ResolvedView;
use crate::wit_resolve::WorldSelectError;
use crate::wit_resolve::all_grounded;
use crate::wit_resolve::cyclic_names;
use crate::wit_resolve::find_world;
use crate::wit_resolve::lemma_find_world_hit;
use crate::wit_resolve::merged_frags;
use crate::wit_resolve::parse_all;
use crate::wit_resolve::refs_ok;
use crate::wit_resolve::resolve_ok;
use crate::wit_resolve::resolve_spec;
use crate::wit_resolve::world_names;

/// The commands the pipeline offers; each a thin entry into one core
/// operation.
pub enum Command {
    /// Generate the remote-invocation stub project for a component.
    Generate(GenerateArgs),
    /// Generate and compile a stub into a binary module.
    Build(BuildArgs),
    /// Merge a generated stub's interface files into another component's
    /// interface root as a dependency.
    AddStubDependency(AddStubDependencyArgs),
    /// Link a caller's binary with stub binaries into one self-contained
    /// binary.
    Compose(ComposeArgs),
    /// Derive the automation description for a multi-project workspace.
    InitializeWorkspace(InitializeWorkspaceArgs),
    /// Build components with application manifests.
    AppCommand { subcommand: App },
}

/// Arguments of the generate command.
pub struct GenerateArgs {
    /// Root directory of the component's interface definition.
    pub source_wit_root: String,
    /// Where the new stub project is generated.
    pub dest_crate_root: String,
    /// World to stub; may stay unset when the root defines exactly one.
    pub world: Option<String>,
    /// Version of the generated stub unit.
    pub stub_crate_version: String,
    pub wasm_rpc_override: WasmRpcOverride,
    /// Inline all source types instead of depending on the source package.
    pub always_inline_types: bool,
}

/// Arguments of the build command.
pub struct BuildArgs {
    pub source_wit_root: String,
    /// Where the compiled stub binary is placed.
    pub dest_wasm: String,
    /// Where the regenerated interface files are placed.
    pub dest_wit_root: String,
    pub world: Option<String>,
    pub stub_crate_version: String,
    pub wasm_rpc_override: WasmRpcOverride,
    pub always_inline_types: bool,
}

/// Arguments of the add-stub-dependency command.
pub struct AddStubDependencyArgs {
    /// The interface root a generate or build run produced.
    pub stub_wit_root: String,
    /// The interface root of the component gaining the dependency.
    pub dest_wit_root: String,
    /// Overwrite destination files whose content differs.
    pub overwrite: bool,
    /// Also update the destination project's build manifest.
    pub update_cargo_toml: bool,
}

/// Arguments of the compose command.
pub struct ComposeArgs {
    /// The caller component's binary.
    pub source_wasm: String,
    /// The stub binaries to link in; several may be given.
    pub stub_wasm: Vec<String>,
    /// Where the composed binary is written.
    pub dest_wasm: String,
}

/// Arguments of the initialize-workspace command.
pub struct InitializeWorkspaceArgs {
    /// Projects whose interfaces are called remotely.
    pub targets: Vec<String>,
    /// Projects calling them through generated stubs.
    pub callers: Vec<String>,
    pub wasm_rpc_override: WasmRpcOverride,
}

/// Subcommands working over application manifests.
pub enum App {
    Build(AppBuildArgs),
    Clean(AppCleanArgs),
    CustomCommand(Vec<String>),
}

/// Arguments of the application build subcommand.
pub struct AppBuildArgs {
    /// Application manifests to use; empty selects automatic discovery.
    pub app: Vec<String>,
    /// Skip modification-time based up-to-date checks.
    pub force_build: bool,
    /// Selected build profile.
    pub profile: Option<String>,
    /// Forbid the toolchain from fetching remote dependencies.
    pub offline: bool,
}

/// Arguments of the application clean subcommand.
pub struct AppCleanArgs {
    pub app: Vec<String>,
}

/// One custom command run over application manifests.
pub struct AppCustomCommand {
    pub args: AppBuildArgs,
    pub command: String,
}

/// How application manifests are found.
pub enum ApplicationSourceMode {
    /// Walk upward from the working directory.
    Automatic,
    /// Use exactly the given manifests.
    Explicit(Vec<String>),
}

/// Chooses the manifest discovery mode: the given manifests, or automatic
/// discovery when none are given.
pub fn app_manifest_sources_to_resolve_mode(sources: Vec<String>) -> (r: ApplicationSourceMode)
    ensures
        sources@.len() == 0 ==> r is Automatic,
        sources@.len() > 0 ==> (r matches ApplicationSourceMode::Explicit(s) && s == sources),
{
    if sources.len() == 0 {
        ApplicationSourceMode::Automatic
    } else {
        ApplicationSourceMode::Explicit(sources)
    }
}

/// Why a generate run failed: each stage's typed error, carried through.
#[derive(Debug)]
pub enum GenerateError {
    Resolution(ResolveError),
    WorldSelection(WorldSelectError),
    Synthesis(SynthError),
}

/// The requested world name, as generation reads it.
pub open spec fn requested_view(world: &Option<String>) -> Option<Seq<char>> {
    match world {
        Some(n) => Some(n@),
        None => None,
    }
}

/// The world index a generate run selects, when selection succeeds.
pub open spec fn selected_world_idx(m: ResolvedView, requested: Option<Seq<char>>) -> int {
    match requested {
        Some(n) => find_world(m.packages[m.root].worlds, n, 0),
        None => 0,
    }
}

/// Whether world selection succeeds on the resolved model.
pub open spec fn selection_ok(m: ResolvedView, requested: Option<Seq<char>>) -> bool {
    match requested {
        Some(n) => find_world(m.packages[m.root].worlds, n, 0) < m.packages[m.root].worlds.len(),
        None => m.packages[m.root].worlds.len() == 1,
    }
}

/// Whether a whole generate run succeeds on these sources.
pub open spec fn generate_ok(files: Seq<FileEntryView>, requested: Option<Seq<char>>) -> bool {
    &&& resolve_ok(files)
    &&& selection_ok(resolve_spec(files), requested)
    &&& synth_spec(
        resolve_spec(files),
        resolve_spec(files).packages[resolve_spec(files).root].worlds[selected_world_idx(
            resolve_spec(files),
            requested,
        )],
    ) is Ok
}

/// The files a successful generate run emits: a pure function of the source
/// file contents, the requested world and the configuration.
pub open spec fn generate_spec(
    files: Seq<FileEntryView>,
    requested: Option<Seq<char>>,
    cfg: GenConfigView,
) -> Seq<FileEntryView> {
    let m = resolve_spec(files);
    let w = m.packages[m.root].worlds[selected_world_idx(m, requested)];
    gen_files(m, synth_spec(m, w)->Ok_0, cfg)
}

/// Runs resolution, world selection, stub synthesis and code generation over
/// an interface-description root, handed in as plain file contents; yields
/// the generated stub project's files, byte for byte a function of the
/// inputs.
pub fn generate(args: &GenerateArgs, sources: &Vec<FileEntry>) -> (r: Result<
    Vec<FileEntry>,
    GenerateError,
>)
    ensures
        (r is Ok) <==> generate_ok(sources.deep_view(), requested_view(&args.world)),
        r matches Ok(out) ==> out.deep_view() == generate_spec(
            sources.deep_view(),
            requested_view(&args.world),
            gen_config_view(
                &StubConfig {
                    source_wit_root: args.source_wit_root,
                    target_root: args.dest_crate_root,
                    selected_world: args.world,
                    stub_crate_version: args.stub_crate_version,
                    wasm_rpc_override: args.wasm_rpc_override,
                    always_inline_types: args.always_inline_types,
                    seal_cargo_workspace: false,
                },
            ),
        ),
        sources.deep_view().len() == 0 ==> r == Err::<Vec<FileEntry>, GenerateError>(
            GenerateError::Resolution(ResolveError::EmptyRoot),
        ),
        sources.deep_view().len() > 0 && parse_all(sources.deep_view(), 0) is Err ==> (
        r matches Err(ge) && ge matches GenerateError::Resolution(e) && e.deep_view()
            == parse_all(sources.deep_view(), 0)->Err_0),
        sources.deep_view().len() > 0 && parse_all(sources.deep_view(), 0) is Ok && !refs_ok(
            merged_frags(parse_all(sources.deep_view(), 0)->Ok_0),
        ) ==> (r matches Err(ge) && ge matches GenerateError::Resolution(e) && (
        e matches ResolveError::Unresolved { name } && crate::wit_resolve::names_undefined_ref(
            merged_frags(parse_all(sources.deep_view(), 0)->Ok_0),
            name@,
        ))),
        sources.deep_view().len() > 0 && parse_all(sources.deep_view(), 0) is Ok && refs_ok(
            merged_frags(parse_all(sources.deep_view(), 0)->Ok_0),
        ) && crate::stub::total_types(resolve_spec(sources.deep_view())) <= usize::MAX
            && !all_grounded(
            resolve_spec(sources.deep_view()),
            crate::stub::total_types(resolve_spec(sources.deep_view())) as nat,
        ) ==> (r matches Err(ge) && ge matches GenerateError::Resolution(e) && (
        e matches ResolveError::CyclicType { names } && names.deep_view() == cyclic_names(
            resolve_spec(sources.deep_view()),
            crate::stub::total_types(resolve_spec(sources.deep_view())) as nat,
        ))),
        resolve_ok(sources.deep_view()) && !selection_ok(
            resolve_spec(sources.deep_view()),
            requested_view(&args.world),
        ) ==> (r matches Err(ge) && ge matches GenerateError::WorldSelection(e) && (
        match requested_view(&args.world) {
            Some(n) => e matches WorldSelectError::WorldNotFound { name, candidates } && name@
                == n && candidates.deep_view() == world_names(resolve_spec(sources.deep_view())),
            None => e matches WorldSelectError::NoUniqueWorld { candidates }
                && candidates.deep_view() == world_names(resolve_spec(sources.deep_view())),
        })),
        generate_ok(sources.deep_view(), requested_view(&args.world)) || !resolve_ok(
            sources.deep_view(),
        ) || !selection_ok(resolve_spec(sources.deep_view()), requested_view(&args.world))
            || (r matches Err(ge) && ge matches GenerateError::Synthesis(e) && synth_spec(
            resolve_spec(sources.deep_view()),
            resolve_spec(sources.deep_view()).packages[resolve_spec(
                sources.deep_view(),
            ).root].worlds[selected_world_idx(
                resolve_spec(sources.deep_view()),
                requested_view(&args.world),
            )],
        ) == Err::<crate::stub::StubWorldView, crate::stub::SynthErrorView>(e.deep_view())),
{
    let ghost filesv = sources.deep_view();
    let ghost reqv = requested_view(&args.world);
    let model = match crate::wit_resolve::resolve(sources) {
        Ok(m) => m,
        Err(e) => {
            return Err(GenerateError::Resolution(e));
        },
    };
    let ghost mv = model.deep_view();
    let widx = match crate::wit_resolve::select_world(&model, args.world.as_ref()) {
        Ok(i) => i,
        Err(e) => {
            return Err(GenerateError::WorldSelection(e));
        },
    };
    proof {
        assert(widx as int == selected_world_idx(mv, reqv));
        assert((widx as int) < mv.packages[mv.root].worlds.len());
    }
    let world = &model.packages[model.root].worlds[widx];
    proof {
        assert(model.packages@[model.root as int].deep_view() == mv.packages[mv.root]);
        assert(world.deep_view() == mv.packages[mv.root].worlds[widx as int]);
        assert(crate::wit_resolve::world_wf(mv, world.deep_view()));
    }
    let sw = match crate::stub::synthesize(&model, world) {
        Ok(s) => s,
        Err(e) => {
            return Err(GenerateError::Synthesis(e));
        },
    };
    let cfg = StubConfig {
        source_wit_root: args.source_wit_root.clone(),
        target_root: args.dest_crate_root.clone(),
        selected_world: match &args.world {
            Some(w) => Some(w.clone()),
            None => None,
        },
        stub_crate_version: args.stub_crate_version.clone(),
        wasm_rpc_override: WasmRpcOverride {
            wasm_rpc_path_override: match &args.wasm_rpc_override.wasm_rpc_path_override {
                Some(pth) => Some(pth.clone()),
                None => None,
            },
            wasm_rpc_version_override: match &args.wasm_rpc_override.wasm_rpc_version_override {
                Some(v) => Some(v.clone()),
                None => None,
            },
        },
        always_inline_types: args.always_inline_types,
        seal_cargo_workspace: false,
    };
    let out = crate::wit_generate::generate_project(&model, &sw, &cfg);
    proof {
        assert(generate_ok(filesv, reqv));
        assert(out.deep_view() == generate_spec(filesv, reqv, gen_config_view(&cfg)));
    }
    Ok(out)
}

/// World selection reflected: when a whole generate run succeeds, the stub
/// mirrors exactly the selected world's exports - the requested world where
/// one was named, the root package's single world otherwise - one stub
/// function of the same qualified name per export of that world, and no
/// other world contributes a function.
pub proof fn lemma_selected_world_reflected(
    files: Seq<FileEntryView>,
    requested: Option<Seq<char>>,
)
    requires
        generate_ok(files, requested),
    ensures
        requested matches Some(n) ==> resolve_spec(files).packages[resolve_spec(
            files,
        ).root].worlds[selected_world_idx(resolve_spec(files), requested)].name == n,
        requested is None ==> resolve_spec(files).packages[resolve_spec(files).root].worlds.len()
            == 1 && selected_world_idx(resolve_spec(files), requested) == 0,
        synth_spec(
            resolve_spec(files),
            resolve_spec(files).packages[resolve_spec(files).root].worlds[selected_world_idx(
                resolve_spec(files),
                requested,
            )],
        ) matches Ok(sw) && sw.functions.len() == crate::stub::world_export_funcs(
            resolve_spec(files),
            resolve_spec(files).packages[resolve_spec(files).root].worlds[selected_world_idx(
                resolve_spec(files),
                requested,
            )].exports,
        ).len() && (forall|k: int|
            0 <= k < sw.functions.len() ==> (#[trigger] sw.functions[k]).name
                == crate::stub::world_export_funcs(
                resolve_spec(files),
                resolve_spec(files).packages[resolve_spec(files).root].worlds[selected_world_idx(
                    resolve_spec(files),
                    requested,
                )].exports,
            )[k].name),
{
    let m = resolve_spec(files);
    match requested {
        Some(n) => {
            lemma_find_world_hit(m.packages[m.root].worlds, n, 0);
        },
        None => {},
    }
    let w = m.packages[m.root].worlds[selected_world_idx(m, requested)];
    let sw = synth_spec(m, w)->Ok_0;
    crate::stub::lemma_structural_fidelity(m, w, sw);
}

/// Determinism: generating from the same interface root and configuration
/// twice yields byte-identical generated files.
pub proof fn lemma_generate_deterministic(
    files: Seq<FileEntryView>,
    requested: Option<Seq<char>>,
    cfg: GenConfigView,
    out1: Seq<FileEntryView>,
    out2: Seq<FileEntryView>,
)
    requires
        out1 == generate_spec(files, requested, cfg),
        out2 == generate_spec(files, requested, cfg),
    ensures
        out1 == out2,
{
}

/// Merges a generated stub's interface files into another component's
/// interface root, as the dependency merger describes it: nothing is written
/// when any destination content conflicts and overwriting was not requested.
/// A build-manifest update is requested of the external manifest editor
/// exactly when the caller asked for one and the merge went through.
pub fn add_stub_dependency(
    args: &AddStubDependencyArgs,
    stub_files: &Vec<FileEntry>,
    dest_files: &Vec<FileEntry>,
) -> (r: crate::dependencies::MergeOutcome)
    ensures
        (r is Conflicts) <==> (!args.overwrite && crate::dependencies::conflicts(
            stub_files.deep_view(),
            dest_files.deep_view(),
        ).len() > 0),
        r matches crate::dependencies::MergeOutcome::Conflicts { paths } ==> paths.deep_view()
            == crate::dependencies::conflicts(stub_files.deep_view(), dest_files.deep_view()),
        r matches crate::dependencies::MergeOutcome::Applied { new_dst, writes, update_manifest }
            ==> new_dst.deep_view() == crate::dependencies::merged_dst(
            stub_files.deep_view(),
            dest_files.deep_view(),
            args.overwrite,
        ) && writes.deep_view() == crate::dependencies::write_paths(
            stub_files.deep_view(),
            dest_files.deep_view(),
            args.overwrite,
        ) && update_manifest == args.update_cargo_toml,
{
    crate::dependencies::merge(stub_files, dest_files, args.overwrite, args.update_cargo_toml)
}

/// Derives the automation description for a multi-project workspace: for
/// every (target, caller) pair, generate, build, add-dependency and compose,
/// ordered by task dependencies, plus one aggregate step per caller.
pub fn initialize_workspace(args: &InitializeWorkspaceArgs) -> (r: Vec<MakeTask>)
    ensures
        r.deep_view() == crate::make::make_tasks(
            args.targets.deep_view(),
            args.callers.deep_view(),
            args.wasm_rpc_override.deep_view(),
        ),
{
    crate::make::workspace_tasks(&args.targets, &args.callers, &args.wasm_rpc_override)
}

} // verus!
