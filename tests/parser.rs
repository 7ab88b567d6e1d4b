use cali::parser::{get_proto_data, parse_definitions, ProtoService};

fn names(services: &[ProtoService]) -> Vec<String> {
    services.iter().map(|s| s.name.clone()).collect()
}

#[test]
fn parses_single_service_with_one_rpc() {
    let text = "service Greeter { rpc SayHello (HelloRequest) returns (HelloResponse); }";
    let services = parse_definitions(text);
    assert_eq!(services.len(), 1);
    assert_eq!(services[0].name, "Greeter");
    assert_eq!(services[0].rpcs.len(), 1);
    assert_eq!(services[0].rpcs[0].name, "SayHello");
    assert_eq!(services[0].rpcs[0].request_name, "HelloRequest");
    assert_eq!(services[0].rpcs[0].response_name, "HelloResponse");
}

#[test]
fn keeps_rpc_and_service_order() {
    let text = "syntax = \"proto3\";\npackage demo;\n\nservice Greeter {\n  rpc SayHello (HelloRequest) returns (HelloResponse);\n  rpc SayGoodbye (ByeRequest) returns (ByeResponse);\n}\n\nmessage HelloRequest { string name = 1; }\n\nservice Accounts {\n  rpc Create(CreateRequest) returns(CreateResponse) {}\n}\n";
    let services = parse_definitions(text);
    assert_eq!(names(&services), vec!["Greeter".to_string(), "Accounts".to_string()]);
    let rpcs: Vec<String> = services[0].rpcs.iter().map(|r| r.name.clone()).collect();
    assert_eq!(rpcs, vec!["SayHello".to_string(), "SayGoodbye".to_string()]);
    assert_eq!(services[1].rpcs.len(), 1);
    assert_eq!(services[1].rpcs[0].request_name, "CreateRequest");
    assert_eq!(services[1].rpcs[0].response_name, "CreateResponse");
}

#[test]
fn message_blocks_are_not_services() {
    let text = "message Greeter { string name = 1; }\nmyservice Other { rpc A (B) returns (C); }";
    assert!(parse_definitions(text).is_empty());
}

#[test]
fn unterminated_block_declares_nothing() {
    let text = "service Broken {\n  rpc SayHello (HelloRequest) returns (HelloResponse);\n";
    assert!(parse_definitions(text).is_empty());
}

#[test]
fn empty_and_unrelated_text_declare_nothing() {
    assert!(parse_definitions("").is_empty());
    assert!(parse_definitions("just some notes, no definitions").is_empty());
}

#[test]
fn service_without_rpcs_is_kept() {
    let services = parse_definitions("service Empty {}");
    assert_eq!(names(&services), vec!["Empty".to_string()]);
    assert!(services[0].rpcs.is_empty());
}

#[test]
fn malformed_rpc_is_skipped() {
    let text = "service S { rpc Bad (Req) (Resp); rpc Good (Req) returns (Resp); }";
    let services = parse_definitions(text);
    assert_eq!(services[0].rpcs.len(), 1);
    assert_eq!(services[0].rpcs[0].name, "Good");
}

#[test]
fn collects_files_in_order_and_first_name_wins() {
    let files = vec![
        "service Greeter { rpc SayHello (HelloRequest) returns (HelloResponse); }".to_string(),
        "service Accounts { rpc Create (CreateRequest) returns (CreateResponse); }\nservice Greeter { rpc Other (A) returns (B); }".to_string(),
        "not a definition file".to_string(),
    ];
    let data = get_proto_data(&files);
    assert_eq!(names(&data.services), vec!["Greeter".to_string(), "Accounts".to_string()]);
    assert_eq!(data.services[0].rpcs[0].name, "SayHello");
}

#[test]
fn no_files_give_no_services() {
    assert!(get_proto_data(&Vec::new()).services.is_empty());
}
