//! Workspace initializer: derives, for N target projects (owners of
//! interfaces) and M caller projects (their consumers), the full matrix of
//! generate, build, add-dependency and compose steps, as a declarative
//! automation description for an external build-manifest driver. Within one
//! (target, caller) pair the four stages are ordered by task dependencies;
//! across pairs no order is imposed. One aggregate step per caller tops the
//! description. Pure generation: nothing is built here.

use vstd::prelude::*;

verus! {

use crate::WasmRpcOverride;
use crate::WasmRpcOverrideView;
use crate::seqs::push_dv;

/// One step of the automation description: a named task, the tasks it runs
/// after, and the pipeline command line it invokes (empty for aggregates).
pub struct MakeTask {
    pub name: String,
    pub dependencies: Vec<String>,
    pub command: Vec<String>,
}

/// Mathematical image of a `MakeTask`.
#[verifier::ext_equal]
pub ghost struct MakeTaskView {
    pub name: Seq<char>,
    pub dependencies: Seq<Seq<char>>,
    pub command: Seq<Seq<char>>,
}

impl DeepView for MakeTask {
    type V = MakeTaskView;

    open spec fn deep_view(&self) -> MakeTaskView {
        MakeTaskView {
            name: self.name@,
            dependencies: self.dependencies.deep_view(),
            command: self.command.deep_view(),
        }
    }
}

/// The extra command-line arguments carrying the transport-library override.
pub open spec fn override_args(ov: WasmRpcOverrideView) -> Seq<Seq<char>> {
    match ov.wasm_rpc_path_override {
        Some(p) => seq!["--wasm-rpc-path-override"@, p],
        None => match ov.wasm_rpc_version_override {
            Some(v) => seq!["--wasm-rpc-version-override"@, v],
            None => Seq::empty(),
        },
    }
}

/// The task generating the stub project of one target.
pub open spec fn gen_task(t: Seq<char>, ov: WasmRpcOverrideView) -> MakeTaskView {
    MakeTaskView {
        name: "generate-"@ + t,
        dependencies: Seq::empty(),
        command: seq![
            "generate"@,
            "--source-wit-root"@,
            t + "/wit"@,
            "--dest-crate-root"@,
            t + "-stub"@,
        ] + override_args(ov),
    }
}

/// The task compiling one target's stub project into a binary module.
pub open spec fn build_task(t: Seq<char>, ov: WasmRpcOverrideView) -> MakeTaskView {
    MakeTaskView {
        name: "build-"@ + t + "-stub"@,
        dependencies: seq!["generate-"@ + t],
        command: seq![
            "build"@,
            "--source-wit-root"@,
            t + "/wit"@,
            "--dest-wasm"@,
            t + "-stub.wasm"@,
            "--dest-wit-root"@,
            t + "-stub/wit"@,
        ] + override_args(ov),
    }
}

/// The generate and build tasks of every target, in order.
pub open spec fn target_tasks(ts: Seq<Seq<char>>, ov: WasmRpcOverrideView) -> Seq<MakeTaskView>
    decreases ts.len(),
{
    if ts.len() == 0 {
        Seq::empty()
    } else {
        target_tasks(ts.drop_last(), ov) + seq![gen_task(ts.last(), ov), build_task(ts.last(), ov)]
    }
}

/// The task merging one target's stub interface into one caller's root.
pub open spec fn add_task(t: Seq<char>, c: Seq<char>) -> MakeTaskView {
    MakeTaskView {
        name: "add-stub-dependency-"@ + t + "-"@ + c,
        dependencies: seq!["build-"@ + t + "-stub"@],
        command: seq![
            "add-stub-dependency"@,
            "--stub-wit-root"@,
            t + "-stub/wit"@,
            "--dest-wit-root"@,
            c + "/wit"@,
        ],
    }
}

/// The merge task of one target into each caller, in caller order.
pub open spec fn add_task_fn(t: Seq<char>) -> spec_fn(Seq<char>) -> MakeTaskView {
    |c: Seq<char>| add_task(t, c)
}

/// The merge tasks of every (target, caller) pair, targets outermost.
pub open spec fn add_tasks(ts: Seq<Seq<char>>, cs: Seq<Seq<char>>) -> Seq<MakeTaskView>
    decreases ts.len(),
{
    if ts.len() == 0 {
        Seq::empty()
    } else {
        add_tasks(ts.drop_last(), cs) + cs.map_values(add_task_fn(ts.last()))
    }
}

/// The name of the merge task of one pair, from the caller's side.
pub open spec fn add_name_fn(c: Seq<char>) -> spec_fn(Seq<char>) -> Seq<char> {
    |t: Seq<char>| "add-stub-dependency-"@ + t + "-"@ + c
}

/// The `--stub-wasm` arguments naming every target's stub binary.
pub open spec fn stub_args(ts: Seq<Seq<char>>) -> Seq<Seq<char>>
    decreases ts.len(),
{
    if ts.len() == 0 {
        Seq::empty()
    } else {
        stub_args(ts.drop_last()) + seq!["--stub-wasm"@, ts.last() + "-stub.wasm"@]
    }
}

/// The task composing one caller's binary with every stub binary.
pub open spec fn compose_task(ts: Seq<Seq<char>>, c: Seq<char>) -> MakeTaskView {
    MakeTaskView {
        name: "compose-"@ + c,
        dependencies: ts.map_values(add_name_fn(c)),
        command: seq!["compose"@, "--source-wasm"@, c + ".wasm"@] + stub_args(ts) + seq![
            "--dest-wasm"@,
            c + "-composed.wasm"@,
        ],
    }
}

/// The aggregate step exposed per caller.
pub open spec fn flow_task(c: Seq<char>) -> MakeTaskView {
    MakeTaskView {
        name: "build-flow-"@ + c,
        dependencies: seq!["compose-"@ + c],
        command: Seq::empty(),
    }
}

/// The compose and aggregate tasks of every caller, in order.
pub open spec fn caller_tasks(ts: Seq<Seq<char>>, cs: Seq<Seq<char>>) -> Seq<MakeTaskView>
    decreases cs.len(),
{
    if cs.len() == 0 {
        Seq::empty()
    } else {
        caller_tasks(ts, cs.drop_last()) + seq![
            compose_task(ts, cs.last()),
            flow_task(cs.last()),
        ]
    }
}

/// The whole automation description: per-target tasks, then the merge matrix,
/// then per-caller composition and aggregate steps.
pub open spec fn make_tasks(
    ts: Seq<Seq<char>>,
    cs: Seq<Seq<char>>,
    ov: WasmRpcOverrideView,
) -> Seq<MakeTaskView> {
    target_tasks(ts, ov) + add_tasks(ts, cs) + caller_tasks(ts, cs)
}

/// Concatenation of two pieces of text.
fn cat2(a: &str, b: &str) -> (r: String)
    ensures
        r@ == a@ + b@,
{
    let mut s: String = a.to_owned();
    s.append(b);
    s
}

/// Concatenation of three pieces of text.
fn cat3(a: &str, b: &str, c: &str) -> (r: String)
    ensures
        r@ == a@ + b@ + c@,
{
    let mut s: String = a.to_owned();
    s.append(b);
    s.append(c);
    s
}

/// Appends copies of every string of `src` to `dst`.
fn extend_strings(dst: &mut Vec<String>, src: &Vec<String>)
    ensures
        final(dst).deep_view() == old(dst).deep_view() + src.deep_view(),
{
    let ghost base = dst.deep_view();
    let mut i: usize = 0;
    while i < src.len()
        invariant
            i <= src.len(),
            dst.deep_view() == base + src.deep_view().take(i as int),
        decreases src.len() - i,
    {
        push_dv(dst, src[i].clone());
        proof {
            assert(dst.deep_view() =~= base + src.deep_view().take(i as int + 1));
        }
        i += 1;
    }
    proof {
        assert(src.deep_view().take(src.len() as int) =~= src.deep_view());
        assert(dst.deep_view() =~= base + src.deep_view());
    }
}

/// The override arguments, as `override_args` lists them.
fn override_args_exec(ov: &WasmRpcOverride) -> (r: Vec<String>)
    ensures
        r.deep_view() == override_args(ov.deep_view()),
{
    let mut out: Vec<String> = Vec::new();
    match &ov.wasm_rpc_path_override {
        Some(p) => {
            push_dv(&mut out, String::from_str("--wasm-rpc-path-override"));
            push_dv(&mut out, p.clone());
            proof {
                assert(out.deep_view() =~= override_args(ov.deep_view()));
            }
        },
        None => {
            match &ov.wasm_rpc_version_override {
                Some(v) => {
                    push_dv(&mut out, String::from_str("--wasm-rpc-version-override"));
                    push_dv(&mut out, v.clone());
                    proof {
                        assert(out.deep_view() =~= override_args(ov.deep_view()));
                    }
                },
                None => {
                    proof {
                        assert(out.deep_view() =~= override_args(ov.deep_view()));
                    }
                },
            }
        },
    }
    out
}

/// The generate task of one target, as `gen_task` describes it.
fn gen_task_exec(t: &str, ov: &WasmRpcOverride) -> (r: MakeTask)
    ensures
        r.deep_view() == gen_task(t@, ov.deep_view()),
{
    let mut command: Vec<String> = Vec::new();
    push_dv(&mut command, String::from_str("generate"));
    push_dv(&mut command, String::from_str("--source-wit-root"));
    push_dv(&mut command, cat2(t, "/wit"));
    push_dv(&mut command, String::from_str("--dest-crate-root"));
    push_dv(&mut command, cat2(t, "-stub"));
    let extra = override_args_exec(ov);
    extend_strings(&mut command, &extra);
    let r = MakeTask { name: cat2("generate-", t), dependencies: Vec::new(), command };
    proof {
        assert(r.deep_view() =~= gen_task(t@, ov.deep_view()));
    }
    r
}

/// The build task of one target, as `build_task` describes it.
fn build_task_exec(t: &str, ov: &WasmRpcOverride) -> (r: MakeTask)
    ensures
        r.deep_view() == build_task(t@, ov.deep_view()),
{
    let mut command: Vec<String> = Vec::new();
    push_dv(&mut command, String::from_str("build"));
    push_dv(&mut command, String::from_str("--source-wit-root"));
    push_dv(&mut command, cat2(t, "/wit"));
    push_dv(&mut command, String::from_str("--dest-wasm"));
    push_dv(&mut command, cat2(t, "-stub.wasm"));
    push_dv(&mut command, String::from_str("--dest-wit-root"));
    push_dv(&mut command, cat2(t, "-stub/wit"));
    let extra = override_args_exec(ov);
    extend_strings(&mut command, &extra);
    let mut dependencies: Vec<String> = Vec::new();
    push_dv(&mut dependencies, cat2("generate-", t));
    let r = MakeTask { name: cat3("build-", t, "-stub"), dependencies, command };
    proof {
        assert(r.deep_view() =~= build_task(t@, ov.deep_view()));
    }
    r
}

/// The merge task of one pair, as `add_task` describes it.
fn add_task_exec(t: &str, c: &str) -> (r: MakeTask)
    ensures
        r.deep_view() == add_task(t@, c@),
{
    let mut command: Vec<String> = Vec::new();
    push_dv(&mut command, String::from_str("add-stub-dependency"));
    push_dv(&mut command, String::from_str("--stub-wit-root"));
    push_dv(&mut command, cat2(t, "-stub/wit"));
    push_dv(&mut command, String::from_str("--dest-wit-root"));
    push_dv(&mut command, cat2(c, "/wit"));
    let mut dependencies: Vec<String> = Vec::new();
    push_dv(&mut dependencies, cat3("build-", t, "-stub"));
    let mut name = cat3("add-stub-dependency-", t, "-");
    name.append(c);
    let r = MakeTask { name, dependencies, command };
    proof {
        assert(r.deep_view() =~= add_task(t@, c@));
    }
    r
}

/// The compose task of one caller, as `compose_task` describes it.
fn compose_task_exec(targets: &Vec<String>, c: &str) -> (r: MakeTask)
    ensures
        r.deep_view() == compose_task(targets.deep_view(), c@),
{
    let ghost tv = targets.deep_view();
    let mut dependencies: Vec<String> = Vec::new();
    let mut i: usize = 0;
    while i < targets.len()
        invariant
            i <= targets.len(),
            tv == targets.deep_view(),
            dependencies.deep_view() == tv.take(i as int).map_values(add_name_fn(c@)),
        decreases targets.len() - i,
    {
        let mut name = cat3("add-stub-dependency-", targets[i].as_str(), "-");
        name.append(c);
        push_dv(&mut dependencies, name);
        proof {
            assert(dependencies.deep_view() =~= tv.take(i as int + 1).map_values(add_name_fn(c@)));
        }
        i += 1;
    }
    proof {
        assert(tv.take(targets.len() as int) =~= tv);
    }
    let mut command: Vec<String> = Vec::new();
    push_dv(&mut command, String::from_str("compose"));
    push_dv(&mut command, String::from_str("--source-wasm"));
    push_dv(&mut command, cat2(c, ".wasm"));
    let ghost head = command.deep_view();
    let mut j: usize = 0;
    while j < targets.len()
        invariant
            j <= targets.len(),
            tv == targets.deep_view(),
            command.deep_view() == head + stub_args(tv.take(j as int)),
        decreases targets.len() - j,
    {
        push_dv(&mut command, String::from_str("--stub-wasm"));
        push_dv(&mut command, cat2(targets[j].as_str(), "-stub.wasm"));
        proof {
            assert(tv.take(j as int + 1).drop_last() =~= tv.take(j as int));
            assert(tv.take(j as int + 1).last() == tv[j as int]);
            assert(command.deep_view() =~= head + stub_args(tv.take(j as int + 1)));
        }
        j += 1;
    }
    proof {
        assert(tv.take(targets.len() as int) =~= tv);
    }
    push_dv(&mut command, String::from_str("--dest-wasm"));
    push_dv(&mut command, cat2(c, "-composed.wasm"));
    let r = MakeTask { name: cat2("compose-", c), dependencies, command };
    proof {
        assert(r.deep_view() =~= compose_task(tv, c@));
    }
    r
}

/// The aggregate task of one caller, as `flow_task` describes it.
fn flow_task_exec(c: &str) -> (r: MakeTask)
    ensures
        r.deep_view() == flow_task(c@),
{
    let mut dependencies: Vec<String> = Vec::new();
    push_dv(&mut dependencies, cat2("compose-", c));
    let r = MakeTask { name: cat2("build-flow-", c), dependencies, command: Vec::new() };
    proof {
        assert(r.deep_view() =~= flow_task(c@));
    }
    r
}

/// Derives the automation description for the given target and caller
/// projects: for every (target, caller) pair, generate, build, add-dependency
/// and compose, ordered by task dependencies, plus one aggregate step per
/// caller.
pub fn workspace_tasks(
    targets: &Vec<String>,
    callers: &Vec<String>,
    ov: &WasmRpcOverride,
) -> (out: Vec<MakeTask>)
    ensures
        out.deep_view() == make_tasks(targets.deep_view(), callers.deep_view(), ov.deep_view()),
{
    let ghost tv = targets.deep_view();
    let ghost cv = callers.deep_view();
    let ghost ovv = ov.deep_view();
    let mut out: Vec<MakeTask> = Vec::new();
    let mut i: usize = 0;
    while i < targets.len()
        invariant
            i <= targets.len(),
            tv == targets.deep_view(),
            ovv == ov.deep_view(),
            out.deep_view() == target_tasks(tv.take(i as int), ovv),
        decreases targets.len() - i,
    {
        push_dv(&mut out, gen_task_exec(targets[i].as_str(), ov));
        push_dv(&mut out, build_task_exec(targets[i].as_str(), ov));
        proof {
            assert(tv.take(i as int + 1).drop_last() =~= tv.take(i as int));
            assert(tv.take(i as int + 1).last() == tv[i as int]);
            assert(out.deep_view() =~= target_tasks(tv.take(i as int + 1), ovv));
        }
        i += 1;
    }
    proof {
        assert(tv.take(targets.len() as int) =~= tv);
    }
    let mut j: usize = 0;
    while j < targets.len()
        invariant
            j <= targets.len(),
            tv == targets.deep_view(),
            cv == callers.deep_view(),
            ovv == ov.deep_view(),
            out.deep_view() == target_tasks(tv, ovv) + add_tasks(tv.take(j as int), cv),
        decreases targets.len() - j,
    {
        let ghost mid = out.deep_view();
        let mut k: usize = 0;
        while k < callers.len()
            invariant
                k <= callers.len(),
                j < targets.len(),
                tv == targets.deep_view(),
                cv == callers.deep_view(),
                out.deep_view() == mid + cv.take(k as int).map_values(add_task_fn(tv[j as int])),
            decreases callers.len() - k,
        {
            push_dv(&mut out, add_task_exec(targets[j].as_str(), callers[k].as_str()));
            proof {
                assert(out.deep_view() =~= mid + cv.take(k as int + 1).map_values(
                    add_task_fn(tv[j as int]),
                ));
            }
            k += 1;
        }
        proof {
            assert(cv.take(callers.len() as int) =~= cv);
            assert(tv.take(j as int + 1).drop_last() =~= tv.take(j as int));
            assert(tv.take(j as int + 1).last() == tv[j as int]);
            assert(out.deep_view() =~= target_tasks(tv, ovv) + add_tasks(tv.take(j as int + 1), cv));
        }
        j += 1;
    }
    proof {
        assert(tv.take(targets.len() as int) =~= tv);
    }
    let mut m: usize = 0;
    while m < callers.len()
        invariant
            m <= callers.len(),
            tv == targets.deep_view(),
            cv == callers.deep_view(),
            ovv == ov.deep_view(),
            out.deep_view() == target_tasks(tv, ovv) + add_tasks(tv, cv) + caller_tasks(
                tv,
                cv.take(m as int),
            ),
        decreases callers.len() - m,
    {
        push_dv(&mut out, compose_task_exec(targets, callers[m].as_str()));
        push_dv(&mut out, flow_task_exec(callers[m].as_str()));
        proof {
            assert(cv.take(m as int + 1).drop_last() =~= cv.take(m as int));
            assert(cv.take(m as int + 1).last() == cv[m as int]);
            assert(out.deep_view() =~= target_tasks(tv, ovv) + add_tasks(tv, cv) + caller_tasks(
                tv,
                cv.take(m as int + 1),
            ));
        }
        m += 1;
    }
    proof {
        assert(cv.take(callers.len() as int) =~= cv);
        assert(out.deep_view() =~= make_tasks(tv, cv, ovv));
    }
    out
}

} // verus!
