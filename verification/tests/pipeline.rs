//! End-to-end runs of the pipeline over concrete interface roots.

use wasm_rpc_stubgen::files::FileEntry;
use wasm_rpc_stubgen::generate;
use wasm_rpc_stubgen::GenerateArgs;
use wasm_rpc_stubgen::GenerateError;
use wasm_rpc_stubgen::WasmRpcOverride;
use wasm_rpc_stubgen::wit_resolve::ResolveError;
use wasm_rpc_stubgen::composition::compose;
use wasm_rpc_stubgen::composition::Component;
use wasm_rpc_stubgen::composition::ExportItem;
use wasm_rpc_stubgen::composition::ImportItem;
use wasm_rpc_stubgen::composition::Sig;

fn no_override() -> WasmRpcOverride {
    WasmRpcOverride { wasm_rpc_path_override: None, wasm_rpc_version_override: None }
}

fn args_for(world: Option<&str>) -> GenerateArgs {
    GenerateArgs {
        source_wit_root: String::from("wit"),
        dest_crate_root: String::from("out"),
        world: world.map(String::from),
        stub_crate_version: String::from("0.0.1"),
        wasm_rpc_override: no_override(),
        always_inline_types: false,
    }
}

fn math_root() -> Vec<FileEntry> {
    vec![FileEntry {
        path: String::from("api.wit"),
        content: String::from(
            "package test:api\n\
             interface math\n\
             func add a:u32 b:u32 -> u32\n\
             end\n\
             world api\n\
             export math\n\
             end\n",
        ),
    }]
}

#[test]
fn generate_emits_stub_project_for_math_world() {
    let out = generate(&args_for(None), &math_root()).expect("generation must succeed");
    assert_eq!(out.len(), 4);
    assert_eq!(out[0].path, "wit/_stub.wit");
    assert_eq!(out[1].path, "src/lib.rs");
    assert_eq!(out[2].path, "Cargo.toml");
    assert_eq!(out[3].path, "wit/deps/test-api.wit");
    assert_eq!(
        out[3].content,
        "package test:api\n\
         interface math\n\
         func add a:u32 b:u32 -> u32\n\
         end\n"
    );
    assert_eq!(
        out[0].content,
        "package test:api-stub@0.0.1\n\
         interface stub-api\n\
         func math.add a:u32 b:u32 -> u32\n\
         end\n\
         world api-stub\n\
         export stub-api\n\
         end\n"
    );
    assert!(out[1].content.contains("\"math.add\" => decode(connection.invoke_and_await(\"test:api/math.add\", encode(args))),"));
    assert!(out[2].content.contains("name = \"api-stub\""));
    assert!(out[2].content.contains("wasm-rpc = \"*\""));
}

#[test]
fn generate_twice_yields_byte_identical_files() {
    let a = generate(&args_for(None), &math_root()).expect("generation must succeed");
    let b = generate(&args_for(None), &math_root()).expect("generation must succeed");
    assert_eq!(a.len(), b.len());
    for (x, y) in a.iter().zip(b.iter()) {
        assert_eq!(x.path, y.path);
        assert_eq!(x.content, y.content);
    }
}

#[test]
fn generate_with_version_override_pins_the_transport() {
    let mut args = args_for(None);
    args.wasm_rpc_override.wasm_rpc_version_override = Some(String::from("1.2.3"));
    let out = generate(&args, &math_root()).expect("generation must succeed");
    assert!(out[2].content.contains("wasm-rpc = \"1.2.3\""));
}

#[test]
fn generate_with_path_override_wins_over_version() {
    let mut args = args_for(None);
    args.wasm_rpc_override.wasm_rpc_path_override = Some(String::from("/opt/wasm-rpc"));
    args.wasm_rpc_override.wasm_rpc_version_override = Some(String::from("1.2.3"));
    let out = generate(&args, &math_root()).expect("generation must succeed");
    assert!(out[2].content.contains("wasm-rpc = { path = \"/opt/wasm-rpc\" }"));
}

fn two_world_root() -> Vec<FileEntry> {
    vec![FileEntry {
        path: String::from("api.wit"),
        content: String::from(
            "package test:api\n\
             interface math\n\
             func add a:u32 b:u32 -> u32\n\
             end\n\
             interface text\n\
             func upper s:string -> string\n\
             end\n\
             world a\n\
             export math\n\
             end\n\
             world b\n\
             export text\n\
             end\n",
        ),
    }]
}

#[test]
fn two_worlds_without_selection_fail_naming_both() {
    let err = generate(&args_for(None), &two_world_root()).err().expect("must fail");
    match err {
        GenerateError::WorldSelection(
            wasm_rpc_stubgen::wit_resolve::WorldSelectError::NoUniqueWorld { candidates },
        ) => {
            assert_eq!(candidates, vec![String::from("a"), String::from("b")]);
        }
        _ => panic!("expected a world-selection failure naming the candidates"),
    }
}

#[test]
fn selecting_world_a_exports_only_its_functions() {
    let out = generate(&args_for(Some("a")), &two_world_root()).expect("generation must succeed");
    assert!(out[0].content.contains("func math.add"));
    assert!(!out[0].content.contains("text.upper"));
}

#[test]
fn selecting_a_missing_world_fails_naming_candidates() {
    let err = generate(&args_for(Some("c")), &two_world_root()).err().expect("must fail");
    match err {
        GenerateError::WorldSelection(
            wasm_rpc_stubgen::wit_resolve::WorldSelectError::WorldNotFound { name, candidates },
        ) => {
            assert_eq!(name, "c");
            assert_eq!(candidates, vec![String::from("a"), String::from("b")]);
        }
        _ => panic!("expected a world-not-found failure"),
    }
}

#[test]
fn a_package_split_across_files_is_merged() {
    let files = vec![
        FileEntry {
            path: String::from("iface.wit"),
            content: String::from(
                "package test:api\n\
                 interface math\n\
                 func add a:u32 b:u32 -> u32\n\
                 end\n",
            ),
        },
        FileEntry {
            path: String::from("world.wit"),
            content: String::from(
                "package test:api\n\
                 world api\n\
                 export math\n\
                 end\n",
            ),
        },
    ];
    let out = generate(&args_for(None), &files).expect("same-package trees must merge");
    assert!(out[0].content.contains("func math.add a:u32 b:u32 -> u32"));
    // The merged package is emitted as one dependency file.
    assert_eq!(out.len(), 4);
    assert_eq!(out[3].path, "wit/deps/test-api.wit");
    assert!(out[3].content.contains("interface math"));
}

#[test]
fn cross_package_references_resolve_transitively() {
    let files = vec![
        FileEntry {
            path: String::from("api.wit"),
            content: String::from(
                "package test:api\n\
                 interface math\n\
                 func scale p:test:geom/shapes.point f:u32 -> test:geom/shapes.point\n\
                 end\n\
                 world api\n\
                 export math\n\
                 end\n",
            ),
        },
        FileEntry {
            path: String::from("deps.wit"),
            content: String::from(
                "package test:geom\n\
                 interface shapes\n\
                 record point x:u32 y:u32\n\
                 end\n",
            ),
        },
    ];
    let out = generate(&args_for(None), &files).expect("generation must succeed");
    // Without inlining, signatures reference the source types
    // package-qualified and resolve against the emitted dependency files.
    assert!(out[0]
        .content
        .contains("func math.scale p:test:geom/shapes.point f:u32 -> test:geom/shapes.point"));
    assert_eq!(out.len(), 5);
    assert_eq!(out[3].path, "wit/deps/test-api.wit");
    assert_eq!(out[4].path, "wit/deps/test-geom.wit");
    assert!(out[4].content.contains("record point x:u32 y:u32"));

    let mut inline_args = args_for(None);
    inline_args.always_inline_types = true;
    let inlined = generate(&inline_args, &files).expect("generation must succeed");
    // With inlining, the definitions stand in the stub interface itself and
    // signatures use the bare names; no dependency files are emitted.
    assert_eq!(inlined.len(), 3);
    assert!(inlined[0].content.contains("record point x:u32 y:u32"));
    assert!(inlined[0].content.contains("func math.scale p:point f:u32 -> point"));
}

#[test]
fn unresolved_reference_is_rejected_naming_the_type() {
    let files = vec![FileEntry {
        path: String::from("api.wit"),
        content: String::from(
            "package test:api\n\
             interface math\n\
             func add a:mystery -> u32\n\
             end\n\
             world api\n\
             export math\n\
             end\n",
        ),
    }];
    match generate(&args_for(None), &files) {
        Err(GenerateError::Resolution(ResolveError::Unresolved { name })) => {
            assert_eq!(name, "mystery");
        }
        _ => panic!("expected an unresolved-reference failure"),
    }
}

#[test]
fn cyclic_type_references_are_rejected_naming_participants() {
    let files = vec![FileEntry {
        path: String::from("api.wit"),
        content: String::from(
            "package test:api\n\
             interface t\n\
             record a x:b\n\
             record b y:a\n\
             end\n\
             world api\n\
             export t\n\
             end\n",
        ),
    }];
    match generate(&args_for(None), &files) {
        Err(GenerateError::Resolution(ResolveError::CyclicType { names })) => {
            assert_eq!(names, vec![String::from("a"), String::from("b")]);
        }
        _ => panic!("expected a cyclic-type failure"),
    }
}

#[test]
fn resources_become_handles_and_nested_resources_are_rejected() {
    let ok_files = vec![FileEntry {
        path: String::from("api.wit"),
        content: String::from(
            "package test:api\n\
             interface store\n\
             resource counter\n\
             func open name:string -> counter\n\
             end\n\
             world api\n\
             export store\n\
             end\n",
        ),
    }];
    let mut inline_args = args_for(None);
    inline_args.always_inline_types = true;
    let out = generate(&inline_args, &ok_files).expect("a direct resource is supported");
    assert!(out[0].content.contains("resource counter"));
    assert!(out[0].content.contains("func store.open name:string -> handle<counter>"));
    let qualified = generate(&args_for(None), &ok_files).expect("a direct resource is supported");
    assert!(qualified[0]
        .content
        .contains("func store.open name:string -> handle<test:api/store.counter>"));

    let bad_files = vec![FileEntry {
        path: String::from("api.wit"),
        content: String::from(
            "package test:api\n\
             interface store\n\
             resource counter\n\
             type counters list<counter>\n\
             func all -> counters\n\
             end\n\
             world api\n\
             export store\n\
             end\n",
        ),
    }];
    match generate(&args_for(None), &bad_files) {
        Err(GenerateError::Synthesis(e)) => {
            assert_eq!(e.func, "store.all");
            assert_eq!(e.ty, "counters");
        }
        _ => panic!("expected an unsupported-shape failure"),
    }
}

#[test]
fn malformed_file_is_rejected_naming_the_file() {
    let files = vec![FileEntry {
        path: String::from("broken.wit"),
        content: String::from("package test:api\nnonsense here\n"),
    }];
    match generate(&args_for(None), &files) {
        Err(GenerateError::Resolution(ResolveError::ParseError { path, .. })) => {
            assert_eq!(path, "broken.wit");
        }
        _ => panic!("expected a parse failure"),
    }
}

#[test]
fn the_whole_type_system_passes_through_generation() {
    let files = vec![FileEntry {
        path: String::from("api.wit"),
        content: String::from(
            "// a root exercising every declaration kind\n\
             package test:api@1.2.3\n\
             interface kitchen\n\
             record point x:u32 y:u32\n\
             variant shape circle:u32 square:point empty\n\
             enum color red green blue\n\
             flags perms read write\n\
             type pair tuple<u32,point>\n\
             type maybe option<point>\n\
             type outcome result<point,string>\n\
             type fallible result<_,string>\n\
             type points list<point>\n\
             func draw s:shape c:color -> outcome\n\
             func wide a:s64 b:f64 t:char -> named:points other:maybe\n\
             func nothing\n\
             end\n\
             world api\n\
             export kitchen\n\
             end\n",
        ),
    }];
    let mut args = args_for(None);
    args.always_inline_types = true;
    let out = generate(&args, &files).expect("generation must succeed");
    assert_eq!(out.len(), 3);
    assert!(out[0].content.contains("record point x:u32 y:u32"));
    assert!(out[0].content.contains("variant shape circle:u32 square:point empty"));
    assert!(out[0].content.contains("enum color red green blue"));
    assert!(out[0].content.contains("flags perms read write"));
    assert!(out[0].content.contains("type pair tuple<u32,point>"));
    assert!(out[0].content.contains("type maybe option<point>"));
    assert!(out[0].content.contains("type outcome result<point,string>"));
    assert!(out[0].content.contains("type fallible result<_,string>"));
    assert!(out[0].content.contains("type points list<point>"));
    assert!(out[0].content.contains("func kitchen.draw s:shape c:color -> outcome"));
    assert!(out[0]
        .content
        .contains("func kitchen.wide a:s64 b:f64 t:char -> named:points other:maybe"));
    assert!(out[0].content.contains("func kitchen.nothing\n"));
    // Structural fidelity: exactly one stub function per source export.
    assert_eq!(out[0].content.matches("func ").count(), 3);
}

#[test]
fn worlds_may_import_interfaces() {
    let files = vec![FileEntry {
        path: String::from("api.wit"),
        content: String::from(
            "package test:api\n\
             interface math\n\
             func add a:u32 b:u32 -> u32\n\
             end\n\
             interface log\n\
             func debug s:string\n\
             end\n\
             world api\n\
             import log\n\
             export math\n\
             end\n",
        ),
    }];
    let out = generate(&args_for(None), &files).expect("generation must succeed");
    assert!(out[0].content.contains("func math.add"));
    assert!(!out[0].content.contains("log.debug"));
}

#[test]
fn end_to_end_a_caller_composed_with_the_stub_loses_its_math_import() {
    // The source world `api` exports interface `math` with `add(a: u32, b:
    // u32) -> u32`; generation derives the stub that re-exposes `math.add`
    // with remote-invocation marshaling.
    let out = generate(&args_for(None), &math_root()).expect("generation must succeed");
    assert!(out[0].content.contains("func math.add a:u32 b:u32 -> u32"));
    assert!(out[1].content.contains("\"math.add\""));

    // The built stub binary's surface exports exactly the stub function; a
    // caller importing `math.add`, composed with it, keeps no `math` import.
    let sig = Sig {
        params: vec![String::from("u32"), String::from("u32")],
        results: vec![String::from("u32")],
    };
    let stub_binary = Component {
        exports: vec![ExportItem { name: String::from("math.add"), sig: Sig {
            params: sig.params.clone(),
            results: sig.results.clone(),
        } }],
        imports: vec![],
    };
    let caller_binary = Component {
        exports: vec![ExportItem { name: String::from("app.main"), sig: Sig {
            params: vec![],
            results: vec![],
        } }],
        imports: vec![ImportItem { name: String::from("math.add"), sig, optional: false }],
    };
    let composed = compose(&caller_binary, &vec![stub_binary]).expect("composition must succeed");
    assert!(composed.imports.iter().all(|i| !i.name.starts_with("math")));
    assert_eq!(composed.exports.len(), 1);
}

#[test]
fn emitted_dependency_files_are_valid_source_grammar() {
    let out = generate(&args_for(None), &math_root()).expect("generation must succeed");
    let dep = FileEntry { path: out[3].path.clone(), content: out[3].content.clone() };
    // The dependency file alone parses and resolves; only world selection
    // fails, since a dependency carries no world.
    match generate(&args_for(None), &vec![dep]) {
        Err(GenerateError::WorldSelection(
            wasm_rpc_stubgen::wit_resolve::WorldSelectError::NoUniqueWorld { candidates },
        )) => {
            assert_eq!(candidates.len(), 0);
        }
        _ => panic!("the emitted dependency file must resolve"),
    }
}

#[test]
fn empty_root_is_rejected() {
    match generate(&args_for(None), &Vec::new()) {
        Err(GenerateError::Resolution(ResolveError::EmptyRoot)) => {}
        _ => panic!("expected an empty-root failure"),
    }
}
