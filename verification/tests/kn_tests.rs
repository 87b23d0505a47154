use serverless::json::JsonValue;
use serverless::meta::StringMap;
use serverless::kn::cargo::{manifest_paths, needs_manifest_match, parse_cargo_metadata, select_binary_name};
use serverless::kn::runtime::{linux_musl_target, missing_target_message, normalize, target_installed, FunctionRuntime};
use serverless::kn::templates::{
    cargo_toml, dockerfile, python_dockerfile, python_pyproject, python_template, runtime_image_dockerfile,
};
use serverless::kn::{
    context_dir_name, copy_skips_dir, deploy_steps, fallback_config, namespace_or_default, new_config, parse_env,
    resolve_image, service_from_args, service_from_config, FuncConcurrency, FuncScale,
};

fn json(text: &str) -> JsonValue {
    parse_cargo_metadata(text.as_bytes(), "test").unwrap()
}

#[test]
fn runtime_names_are_normalized() {
    assert_eq!(normalize("  PyThOn \n"), "python");
    assert_eq!(FunctionRuntime::from_language(" Py "), Ok(FunctionRuntime::Python));
    assert_eq!(FunctionRuntime::from_language("RS"), Ok(FunctionRuntime::Rust));
    assert_eq!(FunctionRuntime::from_config("rust"), Ok(FunctionRuntime::Rust));
    assert_eq!(
        FunctionRuntime::from_language(" Go "),
        Err("unsupported function runtime go; supported runtimes: python, rust".to_string())
    );
    assert_eq!(FunctionRuntime::Python.name(), "python");
    assert_eq!(FunctionRuntime::Rust.name(), "rust");
}

#[test]
fn env_items_parse_into_a_sorted_map() {
    let items = vec!["B=2".to_string(), "A=x=y".to_string(), "B=3".to_string(), "C=".to_string()];
    let env = parse_env(&items).unwrap();
    assert_eq!(
        env.pairs().clone(),
        vec![
            ("A".to_string(), "x=y".to_string()),
            ("B".to_string(), "3".to_string()),
            ("C".to_string(), String::new()),
        ]
    );
    assert_eq!(parse_env(&vec!["NOVALUE".to_string()]), Err("--env must use NAME=VALUE, got NOVALUE".to_string()));
    assert_eq!(parse_env(&vec!["A=1".to_string(), " =v".to_string()]), Err("--env name must not be empty".to_string()));
    assert_eq!(parse_env(&Vec::new()), Ok(StringMap::new()));
}

#[test]
fn image_comes_from_flag_or_registry() {
    assert_eq!(resolve_image(Some("img:1".to_string()), None, "fn"), Ok("img:1".to_string()));
    assert_eq!(
        resolve_image(None, Some("registry.local:5000//".to_string()), "fn"),
        Ok("registry.local:5000/fn:latest".to_string())
    );
    assert_eq!(resolve_image(None, None, "fn"), Err("--registry is required unless --image is set".to_string()));
}

#[test]
fn configs_and_services() {
    let c = new_config("hello", "rust");
    assert_eq!(c.name, "hello");
    assert_eq!(c.runtime, "rust");
    assert_eq!(c.port, 8080);
    assert_eq!(c.scale, FuncScale { min_scale: 0, max_scale: 10, idle_seconds: 60 });
    assert_eq!(c.concurrency, FuncConcurrency { target: 10 });
    let fb = fallback_config(Some("dir".to_string()), "/x/dir").unwrap();
    assert_eq!(fb.runtime, "python");
    assert_eq!(fallback_config(None, "/").unwrap_err(), "failed to infer function name from /");
    let svc = service_from_config("prod", &c, "img:2");
    assert_eq!(svc.metadata.name, "hello");
    assert_eq!(svc.metadata.namespace, "prod");
    assert_eq!(svc.spec.image, "img:2");
    assert_eq!(svc.spec.scale.max_scale, 10);
    assert_eq!(svc.types.kind, "ServerlessService");
    let s2 = service_from_args("api", "nginx".to_string(), 80, None, 1, 3, 5, StringMap::new());
    assert_eq!(s2.metadata.namespace, "default");
    assert_eq!(s2.spec.scale.idle_seconds, 60);
    assert_eq!(s2.spec.concurrency.target, 5);
    assert_eq!(namespace_or_default(Some("x".to_string())), "x");
}

#[test]
fn deploy_flags_and_copy_rules() {
    assert_eq!(deploy_steps(true, false, false), (true, true));
    assert_eq!(deploy_steps(true, true, true), (false, false));
    assert!(copy_skips_dir(".git"));
    assert!(copy_skips_dir("target"));
    assert!(!copy_skips_dir("src"));
    assert_eq!(context_dir_name("fn", 42, 7), "minik8s-kn-fn-42-7");
    assert_eq!(
        context_dir_name("fn", 0, 123_456_789_012_345_678_901_234),
        "minik8s-kn-fn-0-123456789012345678901234"
    );
}

#[test]
fn python_template_files() {
    let (dirs, files) = FunctionRuntime::Python.create("hello");
    assert_eq!(dirs, vec!["function".to_string(), "tests".to_string()]);
    let paths: Vec<&str> = files.iter().map(|f| f.path.as_str()).collect();
    assert_eq!(
        paths,
        vec![
            "function/__init__.py",
            "function/func.py",
            "tests/test_func.py",
            "function/app.py",
            "requirements.txt",
            "Dockerfile",
            "pyproject.toml",
        ]
    );
    assert!(files[1].content.contains("result = {\"function\": \"hello\", \"event\": event}"));
    assert_eq!(files[1].content, python_template("hello"));
    assert!(files[2].content.contains("assert new() is not None"));
    assert!(python_dockerfile(8080).contains("ENV PORT=8080\nEXPOSE 8080\n"));
    assert_eq!(python_pyproject("hi"), "[project]\nname = \"hi\"\nversion = \"0.1.0\"\nrequires-python = \">=3.12\"\n");
}

#[test]
fn rust_template_files() {
    let (dirs, files) = FunctionRuntime::Rust.create("calc");
    assert_eq!(dirs, vec!["src".to_string()]);
    assert_eq!(files[0].path, "Cargo.toml");
    assert_eq!(files[0].content, cargo_toml("calc"));
    assert!(cargo_toml("calc").starts_with("[package]\nname = \"calc\"\n"));
    assert!(dockerfile("calc", 9000).contains("release/calc /function\nENV PORT=9000\nEXPOSE 9000\n"));
    assert_eq!(
        runtime_image_dockerfile(81),
        "FROM scratch\nCOPY function /function\nENV PORT=81\nEXPOSE 81\nCMD [\"/function\"]\n"
    );
}

#[test]
fn build_sources_are_checked_in_order() {
    assert_eq!(FunctionRuntime::Python.required_files(), vec!["function/func.py", "function/app.py", "Dockerfile"]);
    assert_eq!(FunctionRuntime::Python.check_sources("/src", &vec![true, true, true]), Ok(()));
    assert_eq!(
        FunctionRuntime::Python.check_sources("/src", &vec![true, false, false]),
        Err("/src is missing function/app.py".to_string())
    );
    assert_eq!(
        FunctionRuntime::Rust.check_sources("/r", &vec![false, false]),
        Err("/r is missing Cargo.toml".to_string())
    );
}

#[test]
fn musl_targets_and_installed_listing() {
    assert_eq!(linux_musl_target("x86_64"), Ok("x86_64-unknown-linux-musl"));
    assert_eq!(linux_musl_target("aarch64"), Ok("aarch64-unknown-linux-musl"));
    assert_eq!(
        linux_musl_target("riscv64"),
        Err("unsupported Rust function image architecture riscv64; supported: x86_64, aarch64".to_string())
    );
    let listing = "x86_64-unknown-linux-gnu\n  x86_64-unknown-linux-musl \r\n";
    assert!(target_installed(listing, "x86_64-unknown-linux-musl"));
    assert!(!target_installed(listing, "aarch64-unknown-linux-musl"));
    assert!(!target_installed("", ""));
    assert!(missing_target_message("t").ends_with("install it with `rustup target add t`"));
}

#[test]
fn binary_name_from_root_package() {
    let meta = json(
        r#"{"packages":[{"id":"other","targets":[{"kind":["bin"],"name":"wrong"}]},
            {"id":"me","targets":[{"kind":["lib"],"name":"libme"},{"kind":["bin"],"name":"calc"}]}],
            "root_package":"me"}"#,
    );
    assert!(!needs_manifest_match(&meta));
    assert_eq!(select_binary_name(&meta, &Vec::new()), Ok("calc".to_string()));
    let missing = json(r#"{"packages":[],"root_package":"me"}"#);
    assert_eq!(select_binary_name(&missing, &Vec::new()), Err("cargo metadata root package me was not found".to_string()));
}

#[test]
fn binary_name_by_manifest_or_single_package() {
    let meta = json(
        r#"{"packages":[{"manifest_path":"/a/Cargo.toml","targets":[{"kind":["bin"],"name":"a"}]},
            {"manifest_path":"/b/Cargo.toml","targets":[{"kind":["bin"],"name":"b"}]}],"root_package":null}"#,
    );
    assert!(needs_manifest_match(&meta));
    assert_eq!(
        manifest_paths(&meta),
        vec![Some("/a/Cargo.toml".to_string()), Some("/b/Cargo.toml".to_string())]
    );
    assert_eq!(select_binary_name(&meta, &vec![false, true]), Ok("b".to_string()));
    assert_eq!(
        select_binary_name(&meta, &vec![false, false]),
        Err("cargo metadata did not report a package for Cargo.toml".to_string())
    );
    let single = json(r#"{"packages":[{"targets":[{"kind":["lib"],"name":"x"}]}]}"#);
    assert_eq!(select_binary_name(&single, &Vec::new()), Err("cargo package does not define a binary target".to_string()));
    let no_targets = json(r#"{"packages":[{"id":"p"}],"root_package":"p"}"#);
    assert_eq!(select_binary_name(&no_targets, &Vec::new()), Err("cargo metadata root package has no targets".to_string()));
    let nameless = json(r#"{"packages":[{"targets":[{"kind":["bin"]}]}]}"#);
    assert_eq!(select_binary_name(&nameless, &Vec::new()), Err("cargo binary target is missing name".to_string()));
    assert_eq!(select_binary_name(&json("{}"), &Vec::new()), Err("cargo metadata did not report packages".to_string()));
}

#[test]
fn cargo_metadata_parse_errors_name_the_directory() {
    let err = parse_cargo_metadata(b"not json", "/work").unwrap_err();
    assert!(err.starts_with("failed to parse cargo metadata for /work: "));
    assert_eq!(parse_cargo_metadata(b"{\"a\":1}", "/work").unwrap(), json("{\"a\":1}"));
}

#[test]
fn python_only_command_line_refuses_other_languages() {
    assert_eq!(serverless::kn::runtime::require_python("PYTHON"), Ok(()));
    let refused = Err("only python functions are currently supported".to_string());
    assert_eq!(serverless::kn::runtime::require_python(" python"), refused);
    assert_eq!(serverless::kn::runtime::require_python("rust"), refused);
}
