use dyer_cli::cli::{needs_generation, parse_log_level, str_contains, Info, LogLevel, SubComRun, SubCommand};
use dyer_cli::manifest::resolve_manifest;
use dyer_cli::scaffold::{get_file_intro, get_file_path};

fn bytes(s: &str) -> Vec<u8> {
    s.as_bytes().to_vec()
}

fn strings(v: &[&str]) -> Vec<String> {
    v.iter().map(|s| s.to_string()).collect()
}

#[test]
fn manifest_dependencies_and_name() {
    let text = bytes(
        "[package]\nname = \"demo-app\"\nversion = \"0.1.0\"\n\n[dependencies]\ndyer = \"*\"\nserde-json = { version = \"*\" }\n\n[dev-dependencies]\nmock = \"*\"\n",
    );
    let (pkgs, name) = resolve_manifest(&text);
    assert_eq!(pkgs, vec![bytes("dyer"), bytes("serde_json")]);
    assert_eq!(name, Some(bytes("demo_app")));
}

#[test]
fn manifest_section_toggle() {
    let text = bytes("alpha = 1\n[dependencies]\nbeta = 2\n[other]\ngamma = 3\n");
    let (pkgs, name) = resolve_manifest(&text);
    assert_eq!(pkgs, vec![bytes("beta")]);
    assert_eq!(name, None);
}

#[test]
fn log_level_names_read_case_insensitively() {
    assert_eq!(parse_log_level("error"), Ok(LogLevel::Error));
    assert_eq!(parse_log_level("WARN"), Ok(LogLevel::Warn));
    assert_eq!(parse_log_level("Info"), Ok(LogLevel::Info));
    assert_eq!(parse_log_level("debug"), Ok(LogLevel::Debug));
    assert_eq!(parse_log_level("TrAcE"), Ok(LogLevel::Trace));
    assert_eq!(parse_log_level("verbose"), Err(()));
    assert_eq!("info".parse::<LogLevel>(), Ok(LogLevel::Info));
}

#[test]
fn arguments_split_into_options_and_operands() {
    let info = Info::from_args(strings(&["new", "--debug", "myproject"]));
    match info.into_subcommand() {
        SubCommand::SubComNew(n) => {
            assert_eq!(n.name, "myproject");
            assert_eq!(n.option, Some(LogLevel::Debug));
        },
        other => panic!("expected the creation subcommand, got {:?}", other),
    }
}

#[test]
fn unknown_subcommand_yields_null() {
    let info = Info::from_args(strings(&["frobnicate", "x"]));
    assert!(matches!(info.into_subcommand(), SubCommand::Null));
}

#[test]
fn missing_option_defaults_to_info_level() {
    let info = Info::from_args(strings(&["new", "myproject"]));
    match info.into_subcommand() {
        SubCommand::SubComNew(n) => {
            assert_eq!(n.name, "myproject");
            assert_eq!(n.option, Some(LogLevel::Info));
        },
        other => panic!("expected the creation subcommand, got {:?}", other),
    }
}

#[test]
fn unknown_level_option_defaults_to_info() {
    let info = Info::from_args(strings(&["new", "--loud", "myproject"]));
    match info.into_subcommand() {
        SubCommand::SubComNew(n) => {
            assert_eq!(n.option, Some(LogLevel::Info));
        },
        other => panic!("expected the creation subcommand, got {:?}", other),
    }
}

#[test]
fn scaffold_paths() {
    assert_eq!(get_file_path("readme", "demo".to_string()), "demo/README.md");
    assert_eq!(get_file_path("cargo", "demo".to_string()), "demo/Cargo.toml");
    assert_eq!(get_file_path("entity", "demo".to_string()), "demo/src/entity.rs");
    assert_eq!(get_file_path("parser", "demo".to_string()), "demo/src/parser.rs");
    assert_eq!(get_file_path("spider", "demo".to_string()), "demo/src/spider.rs");
    assert_eq!(get_file_path("middleware", "demo".to_string()), "demo/src/middleware.rs");
    assert_eq!(get_file_path("main", "demo".to_string()), "demo/src/main.rs");
    assert_eq!(get_file_path("pipeline", "demo".to_string()), "demo/src/pipeline.rs");
}

#[test]
fn scaffold_intros() {
    assert!(get_file_intro("readme").starts_with("// This is a markdown file"));
    assert!(get_file_intro("entity").contains("pub enum Entities"));
    assert!(get_file_intro("main").contains("async fn main()"));
    assert!(get_file_intro("middleware").contains("get_middleware"));
    assert!(get_file_intro("parser").contains("parse_index"));
    assert!(get_file_intro("pipeline").contains("open_pipeline"));
    assert!(get_file_intro("spider").contains("MySpider"));
    assert!(get_file_intro("cargo").starts_with("[package]"));
    assert_eq!(get_file_intro("unknown"), "");
}

#[test]
fn run_options_split_into_levels_and_passthrough() {
    let cmd = SubComRun { options: strings(&["--info", "--release", "--trace", "-q"]) };
    let (levels, passed) = cmd.split_options();
    assert_eq!(levels, strings(&["--info", "--trace"]));
    assert_eq!(passed, strings(&["--release", "-q"]));
}

#[test]
fn generation_needed_when_no_binary_mentions_the_package() {
    let paths = strings(&["./src/bin/other.rs", "./src/bin/tool.rs"]);
    assert!(needs_generation(&paths, "demo_app"));
    let paths = strings(&["./src/bin/demo_app.rs"]);
    assert!(!needs_generation(&paths, "demo_app"));
}

#[test]
fn substring_search() {
    assert!(str_contains("./src/bin/demo_app.rs", "demo_app"));
    assert!(!str_contains("./src/bin/demo.rs", "demo_app"));
    assert!(str_contains("anything", ""));
}
