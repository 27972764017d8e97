use dri::names::{
    encode_container_name, encode_image_name, encode_port, parse_container_name, parse_image_name,
};

#[test]
fn port_publish_argument() {
    assert_eq!(encode_port(49222), "127.0.0.1:49222:22");
    assert_eq!(encode_port(0), "127.0.0.1:0:22");
    assert_eq!(encode_port(22), "127.0.0.1:22:22");
    assert_eq!(encode_port(65535), "127.0.0.1:65535:22");
}

#[test]
fn container_identity() {
    assert_eq!(encode_container_name("foo"), "dri-ggpgpg");
}

#[test]
fn container_identity_round_trip() {
    let id = encode_container_name("my-box");
    assert_eq!(parse_container_name(&id).unwrap(), "my-box");
}

#[test]
fn container_parse_rejects_foreign() {
    assert_eq!(parse_container_name("foo"), None);
    assert_eq!(parse_container_name("web-server"), None);
    assert_eq!(parse_container_name("dri-zz"), None);
    assert_eq!(parse_container_name("dri-g"), None);
}

#[test]
fn container_parse_bare_prefix() {
    // "dri-" alone carries the empty code, which decodes to the empty name.
    assert_eq!(parse_container_name("dri-").unwrap(), "");
}

#[test]
fn image_identity() {
    assert_eq!(encode_image_name("foo"), "localhost/dri/ggpgpg:latest");
}

#[test]
fn image_identity_round_trip() {
    let id = encode_image_name("my-box");
    assert_eq!(parse_image_name(&id).unwrap(), "my-box");
}

#[test]
fn image_parse_rejects_foreign() {
    assert_eq!(parse_image_name("localhost/other/x:latest"), None);
    assert_eq!(parse_image_name("localhost/dri/ggpgpg"), None);
    assert_eq!(parse_image_name("ggpgpg:latest"), None);
    assert_eq!(parse_image_name("localhost/dri/zz:latest"), None);
    // The base image lives outside the managed namespace.
    assert_eq!(parse_image_name("localhost/drix/default:latest"), None);
}
