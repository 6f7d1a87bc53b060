use dyer_cli::registry::Module;
use dyer_cli::scan::scan_module;

fn bytes(s: &str) -> Vec<u8> {
    s.as_bytes().to_vec()
}

fn module_from(text: &str) -> Module {
    let records = scan_module(&bytes(text), false).unwrap().records;
    Module::from_records(bytes("./src/demo.rs"), &records)
}

#[test]
fn registry_lookup_and_listing() {
    let m = module_from(
        "#[middleware(hand_item)]\nasync fn handle_items() {}\n#[middleware(hand_err)]\nasync fn handle_errors() {}\n",
    );
    assert_eq!(m.len(), 2);
    assert_eq!(m.get(&bytes("hand_item")), Some(bytes("handle_items")));
    assert_eq!(m.get(&bytes("absent")), None);
    assert_eq!(m.get_list(), "handle_items, handle_errors");
    assert_eq!(m.get_map(), "hand_item: handle_items,\n        hand_err: handle_errors");
}

#[test]
fn later_match_for_same_key_overwrites() {
    let m = module_from(
        "#[middleware(hand_item)]\nasync fn first_handler() {}\n#[middleware(hand_item)]\nasync fn second_handler() {}\n",
    );
    assert_eq!(m.len(), 1);
    assert_eq!(m.get(&bytes("hand_item")), Some(bytes("second_handler")));
    assert_eq!(m.get_list(), "second_handler");
}

#[test]
fn first_identifier_of_empty_registry_is_none() {
    let m = Module::new(bytes("./src/spider.rs"));
    assert_eq!(m.first_identifier(), None);
    assert_eq!(m.get_list(), "");
    assert_eq!(m.get_map(), "");
}

#[test]
fn insert_binds_and_overwrites() {
    let mut m = Module::new(bytes("./src/pipeline.rs"));
    m.insert(bytes("open_pipeline"), bytes("open_v1"));
    m.insert(bytes("process_item"), bytes("store"));
    m.insert(bytes("open_pipeline"), bytes("open_v2"));
    assert_eq!(m.len(), 2);
    assert_eq!(m.get(&bytes("open_pipeline")), Some(bytes("open_v2")));
    assert_eq!(m.get_map(), "open_pipeline: open_v2,\n        process_item: store");
}
