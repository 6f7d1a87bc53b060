use dyer_cli::errors::GenError;
use dyer_cli::scan::{scan_module, Category};

fn bytes(s: &str) -> Vec<u8> {
    s.as_bytes().to_vec()
}

#[test]
fn spider_key_defaults_to_identifier() {
    let text = bytes("// spider module\n#[spider]\npub struct MySpider {}\n");
    let r = scan_module(&text, false).unwrap();
    assert_eq!(r.records.len(), 1);
    assert_eq!(r.records[0].category, Category::Spider);
    assert_eq!(r.records[0].key, bytes("MySpider"));
    assert_eq!(r.records[0].identifier, bytes("MySpider"));
    assert_eq!(r.records[0].content_type, None);
    assert_eq!(r.content_type, None);
}

#[test]
fn parser_key_defaults_to_identifier() {
    let text = bytes("#[parser]\npub fn parse_index(res: Response) -> ParseResult {}\n");
    let r = scan_module(&text, false).unwrap();
    assert_eq!(r.records.len(), 1);
    assert_eq!(r.records[0].category, Category::Parser);
    assert_eq!(r.records[0].key, bytes("parse_index"));
    assert_eq!(r.records[0].identifier, bytes("parse_index"));
}

#[test]
fn open_pipeline_inline_content_type() {
    let text = bytes(
        "#[pipeline(open_pipeline)] async fn open_pipeline() -> Option<std::fs::File> {\n    None\n}\n",
    );
    let r = scan_module(&text, true).unwrap();
    assert_eq!(r.records.len(), 1);
    assert_eq!(r.records[0].category, Category::Pipeline);
    assert_eq!(r.records[0].key, bytes("open_pipeline"));
    assert_eq!(r.records[0].identifier, bytes("open_pipeline"));
    assert_eq!(r.records[0].content_type, Some(bytes("std::fs::File")));
    assert_eq!(r.content_type, Some(bytes("std::fs::File")));
}

#[test]
fn open_pipeline_narrow_fallback() {
    let text = bytes(
        "#[pipeline(open_pipeline)]\nasync fn open_pipeline()\n-> Option<std::fs::File> {\n}\n",
    );
    let r = scan_module(&text, true).unwrap();
    assert_eq!(r.content_type, Some(bytes("std::fs::File")));
}

#[test]
fn missing_open_pipeline_type_is_fatal() {
    let text = bytes("#[pipeline(open_pipeline)]\nasync fn open_pipeline() {\n}\n");
    let r = scan_module(&text, true);
    assert_eq!(r, Err(GenError::ContentTypeNotFound));
}

#[test]
fn pipeline_without_open_hook_is_fatal() {
    let text = bytes("#[pipeline(process_item)]\nasync fn process(items: Vec<u8>) {}\n");
    let r = scan_module(&text, true);
    assert_eq!(r, Err(GenError::ContentTypeNotFound));
}

#[test]
fn empty_pipeline_module_is_fatal() {
    let text = bytes("// nothing declared yet\n");
    let r = scan_module(&text, true);
    assert_eq!(r, Err(GenError::ContentTypeNotFound));
}

#[test]
fn missing_open_hook_rescued_by_narrow_scan() {
    let text = bytes(
        "#[ pipeline ( open_pipeline ) ]\nasync fn open_pipeline() -> Option<std::fs::File> {}\n",
    );
    let r = scan_module(&text, true).unwrap();
    assert_eq!(r.records.len(), 0);
    assert_eq!(r.content_type, Some(bytes("std::fs::File")));
}

#[test]
fn non_pipeline_module_needs_no_hook() {
    let text = bytes("#[pipeline(process_item)]\nasync fn process(items: Vec<u8>) {}\n");
    let r = scan_module(&text, false).unwrap();
    assert_eq!(r.records.len(), 1);
    assert_eq!(r.content_type, None);
}

#[test]
fn explicit_key_missing_is_fatal() {
    let text = bytes("#[middleware]\nasync fn handle() {}\n");
    let r = scan_module(&text, false);
    assert_eq!(r, Err(GenError::AnnotationKeyMissing));
}

#[test]
fn marker_must_lead_its_line() {
    let text = bytes("struct X {} #[spider]\nstruct MySpider {}\n");
    let r = scan_module(&text, false).unwrap();
    assert_eq!(r.records.len(), 0);
}

#[test]
fn indented_marker_is_recognized() {
    let text = bytes("    #[entity(entities)]\n    pub enum Entities {}\n");
    let r = scan_module(&text, false).unwrap();
    assert_eq!(r.records.len(), 1);
    assert_eq!(r.records[0].key, bytes("entities"));
    assert_eq!(r.records[0].identifier, bytes("Entities"));
}

#[test]
fn keyed_marker_with_inner_spaces() {
    let text = bytes("#[middleware( hand_item )]\nfn handle_items() {}\n");
    let r = scan_module(&text, false).unwrap();
    assert_eq!(r.records.len(), 1);
    assert_eq!(r.records[0].key, bytes("hand_item"));
    assert_eq!(r.records[0].identifier, bytes("handle_items"));
}

#[test]
fn two_declarations_scan_in_file_order() {
    let text = bytes(
        "#[middleware(hand_item)]\nasync fn handle_items() {}\n\n#[middleware(hand_err)]\nasync fn handle_errors() {}\n",
    );
    let r = scan_module(&text, false).unwrap();
    assert_eq!(r.records.len(), 2);
    assert_eq!(r.records[0].key, bytes("hand_item"));
    assert_eq!(r.records[1].key, bytes("hand_err"));
}

#[test]
fn unknown_marker_name_is_skipped() {
    let text = bytes("#[derive(Debug)]\nstruct Plain {}\n#[spider]\nstruct MySpider {}\n");
    let r = scan_module(&text, false).unwrap();
    assert_eq!(r.records.len(), 1);
    assert_eq!(r.records[0].identifier, bytes("MySpider"));
}
