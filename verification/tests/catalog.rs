use dri::catalog::{
    container_list, exists_container, exists_image, image_list, port_in_use, Container, Image,
    RawContainerRecord, RawImageRecord,
};

fn image_record(name: &str, size: u64) -> RawImageRecord {
    RawImageRecord {
        names: vec![name.to_string()],
        size,
    }
}

fn container_record(name: &str, size: u64, ports: Vec<u16>) -> RawContainerRecord {
    RawContainerRecord {
        names: vec![name.to_string()],
        size,
        ports,
    }
}

#[test]
fn image_filtering_keeps_own_and_drops_foreign() {
    // encode("foo") == "ggpgpg"
    let records = vec![
        image_record("localhost/dri/ggpgpg:latest", 100),
        image_record("localhost/other/x:latest", 5),
    ];
    let images = image_list(&records);
    assert_eq!(images.len(), 1);
    assert_eq!(images[0].name, "foo");
    assert_eq!(images[0].size, 100);
}

#[test]
fn image_filtering_drops_undecodable() {
    let records = vec![
        image_record("localhost/dri/zz:latest", 7),
        image_record("localhost/dri/g:latest", 7),
        image_record("localhost/dri/pp:latest", 7),
    ];
    assert_eq!(image_list(&records).len(), 0);
}

#[test]
fn image_filtering_drops_nameless_record() {
    let records = vec![RawImageRecord {
        names: vec![],
        size: 3,
    }];
    assert_eq!(image_list(&records).len(), 0);
}

#[test]
fn sentinel_image_never_listed() {
    // encode("default") == "egfgggbgfhmgeh"
    let records = vec![
        image_record("localhost/dri/egfgggbgfhmgeh:latest", 9),
        image_record("localhost/drix/default:latest", 800),
        image_record("localhost/dri/ggpgpg:latest", 100),
    ];
    let images = image_list(&records);
    assert_eq!(images.len(), 1);
    assert_eq!(images[0].name, "foo");
}

#[test]
fn container_filtering_and_ports() {
    let records = vec![
        container_record("dri-ggpgpg", 42, vec![8022, 9000]),
        container_record("web-server", 7, vec![80]),
        container_record("dri-egfg", 13, vec![]),
    ];
    let containers = container_list(&records);
    assert_eq!(containers.len(), 2);
    assert_eq!(containers[0].name, "foo");
    assert_eq!(containers[0].size, 42);
    assert_eq!(containers[0].port, Some(8022));
    // decode("egfg") == "de"
    assert_eq!(containers[1].name, "de");
    assert_eq!(containers[1].port, None);
}

#[test]
fn membership_queries() {
    let images = vec![Image {
        name: "foo".to_string(),
        size: 100,
    }];
    assert!(exists_image(&images, "foo"));
    assert!(!exists_image(&images, "bar"));
    assert!(!exists_image(&vec![], "foo"));

    let containers = vec![Container {
        name: "foo".to_string(),
        size: 42,
        port: Some(8022),
    }];
    assert!(exists_container(&containers, "foo"));
    assert!(!exists_container(&containers, "bar"));
    assert!(!exists_container(&vec![], "foo"));

    assert!(port_in_use(&containers, 8022));
    assert!(!port_in_use(&containers, 8023));
}
