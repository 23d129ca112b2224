//! Build driver decisions: plans the external toolchain invocation that
//! compiles a generated stub project into a binary module, and judges its
//! outcome. The subprocess itself runs outside the library; diagnostics of a
//! failed build are relayed verbatim, never re-interpreted.

use vstd::prelude::*;

verus! {

use crate::model::GolemError;
use crate::seqs::push_dv;

/// One planned toolchain invocation: the command, its arguments, the
/// directory to run in, and where the outputs must be placed.
pub struct BuildPlan {
    pub command: String,
    pub args: Vec<String>,
    pub project_dir: String,
    pub dest_wasm: String,
    pub dest_wit_root: String,
}

/// Mathematical image of a `BuildPlan`.
#[verifier::ext_equal]
pub ghost struct BuildPlanView {
    pub command: Seq<char>,
    pub args: Seq<Seq<char>>,
    pub project_dir: Seq<char>,
    pub dest_wasm: Seq<char>,
    pub dest_wit_root: Seq<char>,
}

impl DeepView for BuildPlan {
    type V = BuildPlanView;

    open spec fn deep_view(&self) -> BuildPlanView {
        BuildPlanView {
            command: self.command@,
            args: self.args.deep_view(),
            project_dir: self.project_dir@,
            dest_wasm: self.dest_wasm@,
            dest_wit_root: self.dest_wit_root@,
        }
    }
}

/// The toolchain arguments of one build: offline mode forbids the toolchain
/// from fetching remote dependencies, failing fast when one is missing.
pub open spec fn build_args(offline: bool) -> Seq<Seq<char>> {
    if offline {
        seq!["component"@, "build"@, "--release"@, "--offline"@]
    } else {
        seq!["component"@, "build"@, "--release"@]
    }
}

/// The invocation that compiles a generated project.
pub open spec fn build_plan_spec(
    project_dir: Seq<char>,
    dest_wasm: Seq<char>,
    dest_wit_root: Seq<char>,
    offline: bool,
) -> BuildPlanView {
    BuildPlanView {
        command: "cargo"@,
        args: build_args(offline),
        project_dir: project_dir,
        dest_wasm: dest_wasm,
        dest_wit_root: dest_wit_root,
    }
}

/// Plans the external toolchain invocation for one generated project.
pub fn plan_build(project_dir: &str, dest_wasm: &str, dest_wit_root: &str, offline: bool) -> (r:
    BuildPlan)
    ensures
        r.deep_view() == build_plan_spec(project_dir@, dest_wasm@, dest_wit_root@, offline),
{
    let mut args: Vec<String> = Vec::new();
    push_dv(&mut args, String::from_str("component"));
    push_dv(&mut args, String::from_str("build"));
    push_dv(&mut args, String::from_str("--release"));
    if offline {
        push_dv(&mut args, String::from_str("--offline"));
    }
    let r = BuildPlan {
        command: String::from_str("cargo"),
        args,
        project_dir: project_dir.to_owned(),
        dest_wasm: dest_wasm.to_owned(),
        dest_wit_root: dest_wit_root.to_owned(),
    };
    proof {
        assert(r.deep_view() =~= build_plan_spec(project_dir@, dest_wasm@, dest_wit_root@, offline));
    }
    r
}

/// Judges a finished toolchain run: exit code zero is success, anything else
/// fails with the toolchain's diagnostics relayed verbatim.
pub fn build_outcome(exit_code: i32, diagnostics: String) -> (r: Result<(), GolemError>)
    ensures
        (r is Ok) <==> exit_code == 0,
        r matches Err(e) ==> e.0@ == diagnostics@,
{
    if exit_code == 0 {
        Ok(())
    } else {
        Err(GolemError(diagnostics))
    }
}

} // verus!
