use dyer_cli::errors::GenError;
use dyer_cli::metadata::{generate_main, MetaData};
use dyer_cli::scan::Category;

fn bytes(s: &str) -> Vec<u8> {
    s.as_bytes().to_vec()
}

const MANIFEST: &str = "[package]\nname = \"demo-app\"\nversion = \"0.1.0\"\n\n[dependencies]\ndyer = \"*\"\nserde = { version = \"*\" }\ntokio = \"0.2\"\n";

const MIDDLEWARE: &str = "#[middleware(hand_item)]\nasync fn handle_items(items: Vec<Entities>) {}\n";

const PIPELINE: &str = "#[pipeline(open_pipeline)]\nasync fn open_pipeline() -> Option<serde::Value> {\n    None\n}\n";

const PARSER: &str = "#[parser]\npub fn parse_index(res: Response) -> ParseResult {}\n";

const ENTITY: &str = "#[entity(entities)]\npub enum Entities {}\n";

const SPIDER: &str = "#[spider]\npub struct MySpider {}\n";

fn generate(manifest: &str, pipeline: &str) -> Result<Vec<u8>, GenError> {
    generate_main(
        &bytes(manifest),
        &bytes(MIDDLEWARE),
        &bytes(pipeline),
        &bytes(PARSER),
        &bytes(ENTITY),
        &bytes(SPIDER),
    )
}

#[test]
fn generated_entry_point_text() {
    let out = generate(MANIFEST, PIPELINE).unwrap();
    let text = String::from_utf8(out).unwrap();
    assert_eq!(text, EXPECTED);
}

#[test]
fn generation_is_deterministic() {
    let a = generate(MANIFEST, PIPELINE).unwrap();
    let b = generate(MANIFEST, PIPELINE).unwrap();
    assert_eq!(a, b);
}

#[test]
fn declared_root_resolves() {
    let mut meta = MetaData::new();
    meta.init(
        &bytes(MANIFEST),
        &bytes(MIDDLEWARE),
        &bytes(PIPELINE),
        &bytes(PARSER),
        &bytes(ENTITY),
        &bytes(SPIDER),
    )
    .unwrap();
    assert!(meta.complete_path().is_ok());
    assert_eq!(meta.complete_path().unwrap(), "");
}

#[test]
fn undeclared_root_is_rejected() {
    let pipeline = "#[pipeline(open_pipeline)]\nasync fn open_pipeline() -> Option<unknownpkg::Thing> {}\n";
    let r = generate(MANIFEST, pipeline);
    match r {
        Err(GenError::UnresolvedDependencyRoot { root, known }) => {
            assert_eq!(root, bytes("unknownpkg"));
            let names: Vec<Vec<u8>> =
                ["std", "dyer", "serde", "tokio"].iter().map(|s| bytes(s)).collect();
            assert_eq!(known, names);
        },
        other => panic!("expected an unresolved dependency root, got {:?}", other),
    }
}

#[test]
fn std_root_always_resolves() {
    let pipeline = "#[pipeline(open_pipeline)]\nasync fn open_pipeline() -> Option<std::fs::File> {}\n";
    assert!(generate(MANIFEST, pipeline).is_ok());
}

#[test]
fn missing_entities_handle_is_fatal() {
    let r = generate_main(
        &bytes(MANIFEST),
        &bytes(MIDDLEWARE),
        &bytes(PIPELINE),
        &bytes(PARSER),
        &bytes("pub enum Entities {}\n"),
        &bytes(SPIDER),
    );
    assert_eq!(r, Err(GenError::RequiredKeyMissing));
}

#[test]
fn missing_spider_handle_is_fatal() {
    let r = generate_main(
        &bytes(MANIFEST),
        &bytes(MIDDLEWARE),
        &bytes(PIPELINE),
        &bytes(PARSER),
        &bytes(ENTITY),
        &bytes("pub struct MySpider {}\n"),
    );
    assert_eq!(r, Err(GenError::RequiredKeyMissing));
}

#[test]
fn scan_failure_aborts_generation() {
    let r = generate(MANIFEST, "#[pipeline(open_pipeline)]\nasync fn open_pipeline() {}\n");
    assert_eq!(r, Err(GenError::ContentTypeNotFound));
}

#[test]
fn metadata_registries_by_category() {
    let mut meta = MetaData::new();
    meta.init(
        &bytes(MANIFEST),
        &bytes(MIDDLEWARE),
        &bytes(PIPELINE),
        &bytes(PARSER),
        &bytes(ENTITY),
        &bytes(SPIDER),
    )
    .unwrap();
    assert_eq!(meta.package_name, bytes("demo_app"));
    assert_eq!(meta.module(Category::Middleware).get_list(), "handle_items");
    assert_eq!(meta.module(Category::Entity).get(&bytes("entities")), Some(bytes("Entities")));
    assert_eq!(meta.module(Category::Spider).first_identifier(), Some(bytes("MySpider")));
    assert_eq!(
        meta.get_pkg_list(),
        "extern crate dyer;\nextern crate serde;\nextern crate tokio;"
    );
}

const EXPECTED: &str = r#"//#![allow(unused_imports)]

extern crate dyer;
extern crate serde;
extern crate tokio;
extern crate demo_app; 

use dyer::*;
use demo_app::entity::{Entities, Targ, Parg};
use demo_app::MySpider;
use demo_app::middleware::{handle_items};
use demo_app::pipeline::{open_pipeline};
use std::sync::{Arc, Mutex};


#[tokio::main]
async fn main() {
    simple_logger::SimpleLogger::new()
        .with_level(log::LevelFilter::Info)
        .init()
        .unwrap();
    let middleware = plug!( MiddleWare<Entities, Targ, Parg> {
        hand_item: handle_items
    });
    let pipeline = plug!( PipeLine<Entities, serde::Value> {
        open_pipeline: open_pipeline
    } );
    let spider = MySpider::new();
    let mut app = dyer::App::<Entities, Targ, Parg>::new();
    app.run(&spider, &middleware, pipeline).await.unwrap();
}
        "#;
