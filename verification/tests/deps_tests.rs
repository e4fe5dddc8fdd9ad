use zeptoclaw::deps::health_timeout_error;
use zeptoclaw::deps::DepManager;
use zeptoclaw::deps::StartPlan;
use std::collections::HashMap;
use zeptoclaw::deps::build_start_command;
use zeptoclaw::deps::current_platform;
use zeptoclaw::deps::install_plan;
use zeptoclaw::deps::join_path;
use zeptoclaw::deps::last_path_segment;
use zeptoclaw::deps::dep_kind_label;
use zeptoclaw::deps::resolve_asset_pattern;
use zeptoclaw::deps::DepFetcher;
use zeptoclaw::deps::DepKind;
use zeptoclaw::deps::Dependency;
use zeptoclaw::deps::FetchResult;
use zeptoclaw::deps::HasDependencies;
use zeptoclaw::deps::HealthCheck;
use zeptoclaw::deps::MockFetcher;
use zeptoclaw::deps::Registry;
use zeptoclaw::deps::RegistryEntry;
use zeptoclaw::error::ZeptoError;

fn test_entry(name: &str) -> RegistryEntry {
    RegistryEntry {
        kind: "binary".to_string(),
        version: "v0.1.0".to_string(),
        installed_at: "2026-02-14T10:00:00Z".to_string(),
        path: format!("~/.zeptoclaw/deps/bin/{}", name),
        running: false,
        pid: None,
    }
}

#[test]
fn test_registry_empty_default() {
    let reg = Registry::default();
    assert!(reg.names().is_empty());
}

#[test]
fn test_registry_set_and_get() {
    let mut reg = Registry::default();
    reg.set("test-dep".to_string(), test_entry("test-dep"));
    assert!(reg.contains("test-dep"));
    let entry = reg.get("test-dep").unwrap();
    assert_eq!(entry.version, "v0.1.0");
}

#[test]
fn test_registry_remove() {
    let mut reg = Registry::default();
    reg.set("test-dep".to_string(), test_entry("test-dep"));
    let removed = reg.remove("test-dep");
    assert!(removed.is_some());
    assert!(!reg.contains("test-dep"));
}

#[test]
fn test_registry_remove_nonexistent() {
    let mut reg = Registry::default();
    assert!(reg.remove("nope").is_none());
}

#[test]
fn test_registry_names() {
    let mut reg = Registry::default();
    reg.set("a".to_string(), test_entry("a"));
    reg.set("b".to_string(), test_entry("b"));
    let mut names = reg.names();
    names.sort();
    assert_eq!(names, vec!["a", "b"]);
}

#[test]
fn test_registry_mark_running() {
    let mut reg = Registry::default();
    reg.set("dep".to_string(), test_entry("dep"));
    reg.mark_running("dep", 12345);
    let entry = reg.get("dep").unwrap();
    assert!(entry.running);
    assert_eq!(entry.pid, Some(12345));
}

#[test]
fn test_registry_mark_stopped() {
    let mut reg = Registry::default();
    reg.set("dep".to_string(), test_entry("dep"));
    reg.mark_running("dep", 12345);
    reg.mark_stopped("dep");
    let entry = reg.get("dep").unwrap();
    assert!(!entry.running);
    assert!(entry.pid.is_none());
}

#[test]
fn test_registry_stale_running() {
    let mut reg = Registry::default();
    reg.set("a".to_string(), test_entry("a"));
    reg.set("b".to_string(), test_entry("b"));
    reg.mark_running("a", 111);
    let stale = reg.stale_running();
    assert_eq!(stale.len(), 1);
    assert_eq!(stale[0].0, "a");
}

#[test]
fn test_registry_set_replaces_and_marks_unknown_noop() {
    let mut reg = Registry::default();
    reg.set("a".to_string(), test_entry("a"));
    let mut e = test_entry("a");
    e.version = "v2".to_string();
    reg.set("a".to_string(), e);
    assert_eq!(reg.names(), vec!["a".to_string()]);
    assert_eq!(reg.get("a").unwrap().version, "v2");
    reg.mark_running("zzz", 1);
    assert!(reg.get("zzz").is_none());
    assert_eq!(reg.remove("a").unwrap().version, "v2");
}

#[test]
fn test_dep_kind_binary() {
    let kind = DepKind::Binary {
        repo: "qhkm/whatsmeow-rs".to_string(),
        asset_pattern: "whatsmeow-bridge-{os}-{arch}".to_string(),
        version: "v0.1.0".to_string(),
    };
    match kind {
        DepKind::Binary { repo, .. } => assert_eq!(repo, "qhkm/whatsmeow-rs"),
        _ => panic!("expected Binary"),
    }
}

#[test]
fn test_dep_kind_docker() {
    let kind = DepKind::DockerImage {
        image: "redis".to_string(),
        tag: "7-alpine".to_string(),
        ports: vec!["6379:6379".to_string()],
    };
    match kind {
        DepKind::DockerImage { image, tag, ports } => {
            assert_eq!(image, "redis");
            assert_eq!(tag, "7-alpine");
            assert_eq!(ports.len(), 1);
        }
        _ => panic!("expected DockerImage"),
    }
}

#[test]
fn test_dep_kind_npm() {
    let kind = DepKind::NpmPackage {
        package: "@mcp/server".to_string(),
        version: "^1.0.0".to_string(),
        entry_point: "mcp-server".to_string(),
    };
    match kind {
        DepKind::NpmPackage { package, .. } => assert_eq!(package, "@mcp/server"),
        _ => panic!("expected NpmPackage"),
    }
}

#[test]
fn test_dep_kind_pip() {
    let kind = DepKind::PipPackage {
        package: "mcp-server-sqlite".to_string(),
        version: ">=1.0".to_string(),
        entry_point: "mcp-server-sqlite".to_string(),
    };
    match kind {
        DepKind::PipPackage { package, .. } => assert_eq!(package, "mcp-server-sqlite"),
        _ => panic!("expected PipPackage"),
    }
}

#[test]
fn test_health_check_websocket() {
    let hc = HealthCheck::WebSocket { url: "ws://localhost:3001".to_string() };
    assert_eq!(hc, HealthCheck::WebSocket { url: "ws://localhost:3001".to_string() });
}

#[test]
fn test_health_check_http() {
    let hc = HealthCheck::Http { url: "http://localhost:8080/health".to_string() };
    match hc {
        HealthCheck::Http { url } => assert!(url.contains("/health")),
        _ => panic!("expected Http"),
    }
}

#[test]
fn test_health_check_tcp() {
    let hc = HealthCheck::TcpPort { port: 6379 };
    assert_eq!(hc, HealthCheck::TcpPort { port: 6379 });
}

#[test]
fn test_health_check_command() {
    let hc = HealthCheck::Command { command: "redis-cli ping".to_string() };
    match hc {
        HealthCheck::Command { command } => assert!(command.contains("ping")),
        _ => panic!("expected Command"),
    }
}

#[test]
fn test_health_check_none() {
    let hc = HealthCheck::NoCheck;
    assert_eq!(hc, HealthCheck::NoCheck);
}

#[test]
fn test_dependency_empty_env_and_args() {
    let dep = Dependency {
        name: "test".to_string(),
        kind: DepKind::DockerImage { image: "redis".to_string(), tag: "latest".to_string(), ports: vec![] },
        health_check: HealthCheck::NoCheck,
        env: HashMap::new(),
        args: vec![],
    };
    assert!(dep.env.is_empty());
    assert!(dep.args.is_empty());
}

struct NoDeps;
impl HasDependencies for NoDeps {}

#[test]
fn test_has_dependencies_default_is_empty() {
    let c = NoDeps;
    assert!(c.dependencies().is_empty());
}

#[test]
fn test_current_platform_returns_known_values() {
    let (os, arch) = current_platform("linux", "x86_64");
    assert!(["darwin", "linux", "windows", "unknown"].contains(&os));
    assert!(["amd64", "arm64", "unknown"].contains(&arch));
}

#[test]
fn test_current_platform_mapping() {
    assert_eq!(current_platform("macos", "aarch64"), ("darwin", "arm64"));
    assert_eq!(current_platform("linux", "x86_64"), ("linux", "amd64"));
    assert_eq!(current_platform("freebsd", "riscv64"), ("unknown", "unknown"));
}

#[test]
fn test_resolve_asset_pattern() {
    let (os, arch) = current_platform("linux", "x86_64");
    let result = resolve_asset_pattern("binary-{os}-{arch}.tar.gz", "linux", "x86_64");
    assert_eq!(result, format!("binary-{}-{}.tar.gz", os, arch));
}

#[test]
fn test_resolve_asset_pattern_no_placeholders() {
    let result = resolve_asset_pattern("static-binary", "linux", "x86_64");
    assert_eq!(result, "static-binary");
}

#[test]
fn test_resolve_asset_pattern_repeated() {
    assert_eq!(resolve_asset_pattern("{os}{os}-{arch}", "linux", "aarch64"), "linuxlinux-arm64");
}

#[test]
fn test_dep_kind_label() {
    assert_eq!(
        dep_kind_label(&DepKind::Binary { repo: String::new(), asset_pattern: String::new(), version: String::new() }),
        "binary"
    );
    assert_eq!(
        dep_kind_label(&DepKind::DockerImage { image: String::new(), tag: String::new(), ports: vec![] }),
        "docker_image"
    );
    assert_eq!(
        dep_kind_label(&DepKind::NpmPackage { package: String::new(), version: String::new(), entry_point: String::new() }),
        "npm_package"
    );
    assert_eq!(
        dep_kind_label(&DepKind::PipPackage { package: String::new(), version: String::new(), entry_point: String::new() }),
        "pip_package"
    );
}

#[test]
fn test_fetch_result_construction() {
    let result = FetchResult { path: "/usr/local/bin/test".to_string(), version: "v1.0.0".to_string() };
    assert_eq!(result.path, "/usr/local/bin/test");
    assert_eq!(result.version, "v1.0.0");
}

#[test]
fn test_mock_fetcher_success() {
    let fetcher = MockFetcher::success("/bin/test", "v1.0.0");
    assert!(!fetcher.is_command_available("docker"));
}

#[test]
fn test_mock_fetcher_with_commands() {
    let fetcher = MockFetcher::success("/bin/test", "v1.0.0").with_commands(vec!["docker", "npm"]);
    assert!(fetcher.is_command_available("docker"));
    assert!(fetcher.is_command_available("npm"));
    assert!(!fetcher.is_command_available("pip"));
}

#[test]
fn test_mock_fetcher_install_success() {
    let mut fetcher = MockFetcher::success("/bin/test", "v1.0.0");
    let kind = DepKind::Binary { repo: "test/repo".to_string(), asset_pattern: "bin".to_string(), version: "v1.0.0".to_string() };
    let result = fetcher.install(&kind, "/tmp");
    assert!(result.is_ok());
    let fr = result.unwrap();
    assert_eq!(fr.path, "/bin/test");
    assert_eq!(fr.version, "v1.0.0");
    match fetcher.install(&kind, "/tmp") {
        Err(ZeptoError::Tool(m)) => assert_eq!(m, "No mock result configured"),
        _ => panic!("expected the second install to fail"),
    }
}

#[test]
fn test_mock_fetcher_install_failure() {
    let mut fetcher = MockFetcher::failure("test error");
    let kind = DepKind::Binary { repo: "test/repo".to_string(), asset_pattern: "bin".to_string(), version: "v1.0.0".to_string() };
    let result = fetcher.install(&kind, "/tmp");
    assert!(result.is_err());
}

#[test]
fn test_build_start_command_binary() {
    let kind = DepKind::Binary {
        repo: String::new(),
        asset_pattern: String::new(),
        version: String::new(),
    };
    let cmd = build_start_command(
        &kind,
        "/bin/test",
        &["--port".to_string(), "3001".to_string()],
    );
    assert!(cmd.is_ok());
    let cmd = cmd.unwrap();
    assert_eq!(cmd.program, "/bin/test");
    assert_eq!(cmd.args, vec!["--port", "3001"]);
}

#[test]
fn test_build_start_command_docker() {
    let kind = DepKind::DockerImage {
        image: "redis".to_string(),
        tag: "7".to_string(),
        ports: vec!["6379:6379".to_string()],
    };
    let cmd = build_start_command(&kind, "redis:7", &[]);
    assert!(cmd.is_ok());
    let cmd = cmd.unwrap();
    assert_eq!(cmd.program, "docker");
    assert_eq!(cmd.args, vec!["run", "--rm", "-p", "6379:6379", "redis:7"]);
}

#[test]
fn test_build_start_command_npm() {
    let kind = DepKind::NpmPackage {
        package: "test".to_string(),
        version: "1.0".to_string(),
        entry_point: "test-cmd".to_string(),
    };
    let cmd = build_start_command(&kind, "/node_modules", &[]);
    assert!(cmd.is_ok());
    let cmd = cmd.unwrap();
    assert_eq!(cmd.program, "npx");
    assert_eq!(cmd.args, vec!["test-cmd"]);
}

#[test]
fn test_build_start_command_pip() {
    let kind = DepKind::PipPackage {
        package: "test".to_string(),
        version: "1.0".to_string(),
        entry_point: "test-cmd".to_string(),
    };
    let cmd = build_start_command(&kind, "/venvs/test", &[]);
    assert!(cmd.is_ok());
    assert_eq!(cmd.unwrap().program, "/venvs/test/bin/test-cmd");
}

#[test]
fn unix_path_joining() {
    assert_eq!(join_path("/a", "b"), "/a/b");
    assert_eq!(join_path("/a/", "b"), "/a/b");
    assert_eq!(join_path("", "b"), "b");
    assert_eq!(join_path("/a", "/b"), "/b");
    assert_eq!(last_path_segment("dir/sub/file-linux"), "file-linux");
    assert_eq!(last_path_segment("plain"), "plain");
    assert_eq!(last_path_segment("dir/"), "");
}

#[test]
fn install_plan_docker_pulls_the_image() {
    let kind = DepKind::DockerImage {
        image: "redis".to_string(),
        tag: "7".to_string(),
        ports: vec![],
    };
    let plan = install_plan(&kind, "/deps", "linux", "x86_64");
    assert!(plan.create_dir.is_none());
    assert_eq!(plan.commands.len(), 1);
    assert_eq!(plan.commands[0].program, "docker");
    assert_eq!(plan.commands[0].args, vec!["pull", "redis:7"]);
    assert_eq!(plan.commands[0].spawn_error, "Failed to run docker pull: ");
    assert_eq!(plan.commands[0].failure, "docker pull failed: ");
    let f = plan.outcome.unwrap();
    assert_eq!(f.path, "redis:7");
    assert_eq!(f.version, "7");
}

#[test]
fn install_plan_npm_and_pip() {
    let npm = DepKind::NpmPackage {
        package: "srv".to_string(),
        version: "^1.0.0".to_string(),
        entry_point: "srv".to_string(),
    };
    let plan = install_plan(&npm, "/deps", "linux", "x86_64");
    assert_eq!(plan.create_dir.as_deref(), Some("/deps/node_modules"));
    assert_eq!(plan.commands[0].args, vec!["install", "--prefix", "/deps", "srv@^1.0.0"]);
    assert_eq!(plan.outcome.unwrap().path, "/deps/node_modules");

    let pip = DepKind::PipPackage {
        package: "tool".to_string(),
        version: ">=1.0".to_string(),
        entry_point: "tool".to_string(),
    };
    let plan = install_plan(&pip, "/deps", "linux", "x86_64");
    assert_eq!(plan.create_dir.as_deref(), Some("/deps/venvs/tool"));
    assert_eq!(plan.commands.len(), 2);
    assert_eq!(plan.commands[0].program, "python3");
    assert_eq!(plan.commands[0].args, vec!["-m", "venv", "/deps/venvs/tool"]);
    assert_eq!(plan.commands[1].program, "/deps/venvs/tool/bin/pip");
    assert_eq!(plan.commands[1].args, vec!["install", "tool>=1.0"]);
    assert_eq!(plan.commands[1].failure, "pip install failed: ");
}

#[test]
fn install_plan_binary_is_refused() {
    let kind = DepKind::Binary {
        repo: "qhkm/whatsmeow-rs".to_string(),
        asset_pattern: "releases/bridge-{os}-{arch}".to_string(),
        version: "v0.1.0".to_string(),
    };
    let plan = install_plan(&kind, "/deps", "linux", "x86_64");
    assert_eq!(plan.create_dir.as_deref(), Some("/deps/bin"));
    assert!(plan.commands.is_empty());
    match plan.outcome {
        Err(e) => assert_eq!(
            e,
            "Binary download not yet implemented: qhkm/whatsmeow-rs v0.1.0 -> /deps/bin/bridge-linux-amd64"
        ),
        Ok(_) => panic!("binary installs are not implemented"),
    }
}

fn npm_dep(name: &str) -> Dependency {
    Dependency {
        name: name.to_string(),
        kind: DepKind::NpmPackage {
            package: "bridge".to_string(),
            version: "1.0.0".to_string(),
            entry_point: "bridge-cli".to_string(),
        },
        health_check: HealthCheck::TcpPort { port: 3001 },
        env: HashMap::new(),
        args: vec!["--port".to_string(), "3001".to_string()],
    }
}

#[test]
fn test_dep_manager_install_start_stop() {
    let mut m = DepManager::new("/deps".to_string(), Registry::default());
    let dep = npm_dep("bridge");
    assert!(m.needs_install(&dep));
    match m.start_plan(&dep) {
        Err(ZeptoError::Tool(msg)) => assert_eq!(msg, "Dependency 'bridge' not installed, cannot start"),
        _ => panic!("expected a tool error"),
    }
    m.record_install(&dep, FetchResult { path: "/deps/node_modules".to_string(), version: "1.0.0".to_string() }, "1700000000".to_string());
    assert!(!m.needs_install(&dep));
    assert!(m.is_installed("bridge"));
    let e = m.registry().get("bridge").unwrap();
    assert_eq!(e.kind, "npm_package");
    assert_eq!(e.path, "/deps/node_modules");
    assert!(!e.running);
    match m.start_plan(&dep).unwrap() {
        StartPlan::Spawn { command, log_dir, log_path } => {
            assert_eq!(command.program, "npx");
            assert_eq!(command.args, vec!["bridge-cli", "--port", "3001"]);
            assert_eq!(log_dir, "/deps/logs");
            assert_eq!(log_path, "/deps/logs/bridge.log");
        }
        StartPlan::AlreadyRunning => panic!("not running yet"),
    }
    m.record_started("bridge", 42);
    assert!(m.is_running("bridge"));
    assert_eq!(m.registry().get("bridge").unwrap().pid, Some(42));
    assert!(matches!(m.start_plan(&dep).unwrap(), StartPlan::AlreadyRunning));
    assert_eq!(m.running_names(), vec!["bridge"]);
    assert!(m.stop_step("bridge"));
    assert!(!m.is_running("bridge"));
    assert!(!m.registry().get("bridge").unwrap().running);
    assert!(!m.stop_step("bridge"));
}

#[test]
fn test_health_timeout_error_texts() {
    assert!(health_timeout_error(&HealthCheck::NoCheck).is_none());
    let e = health_timeout_error(&HealthCheck::TcpPort { port: 3001 }).unwrap();
    assert_eq!(e.to_string(), "Tool error: Health check timed out: TCP port 3001 not reachable");
    let e = health_timeout_error(&HealthCheck::Command { command: "true".to_string() }).unwrap();
    assert_eq!(e.to_string(), "Tool error: Health check timed out: command 'true' not returning 0");
}
