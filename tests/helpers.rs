use cali::helpers::{parse_port, split_host_and_port};
use cali::scaffold::create_app;

#[test]
fn splits_host_and_port() {
    assert_eq!(split_host_and_port("localhost:8080"), ("localhost", 8080));
    assert_eq!(split_host_and_port("0.0.0.0:50051"), ("0.0.0.0", 50051));
}

#[test]
fn address_without_port_gets_zero() {
    assert_eq!(split_host_and_port("localhost"), ("localhost", 0));
    assert_eq!(split_host_and_port(""), ("", 0));
}

#[test]
fn unreadable_port_gets_zero() {
    assert_eq!(split_host_and_port("host:http"), ("host", 0));
    assert_eq!(split_host_and_port("host:"), ("host", 0));
    assert_eq!(split_host_and_port("host:70000"), ("host", 0));
    assert_eq!(split_host_and_port("host:-1"), ("host", 0));
}

#[test]
fn only_the_part_before_a_second_colon_is_the_port() {
    assert_eq!(split_host_and_port("a:12:34"), ("a", 12));
}

#[test]
fn parses_ports_like_std() {
    for s in ["0", "65535", "+80", "007", "1", "65536", "", "+", "-1", " 1", "1a", "99999999999"] {
        assert_eq!(parse_port(s), s.parse::<u16>().ok(), "{}", s);
    }
}

#[test]
fn lays_out_a_new_application() {
    let layout = create_app("demo");
    assert_eq!(layout.directories.len(), 19);
    assert_eq!(layout.directories[0], "./demo/");
    assert_eq!(layout.directories[3], "./demo/interface/grpc/services");
    assert_eq!(layout.directories[18], "./demo/core/src");
    assert_eq!(layout.templated_files.len(), 16);
    assert_eq!(layout.templates.len(), 16);
    assert_eq!(layout.templated_files[0], "./demo/web/src/entry/main.rs");
    assert_eq!(layout.templates[0], "web/src/entry/main.rs");
    assert_eq!(layout.templated_files[14], "./demo/.gitignore");
    assert_eq!(layout.empty_file, "./demo/web/src/protos/mod.rs");
}
