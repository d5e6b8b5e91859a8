use titlefetch::codec::MetaType;
use titlefetch::locator::{
    content_path, content_url, extract_dir, payload_path, root_container_path,
    root_container_url, title_container_path, title_container_url, type_label,
};

#[test]
fn root_locators() {
    assert_eq!(root_container_path("5.1.0"), "5.1.0/0100000000000816.nca");
    assert_eq!(
        root_container_url("https://cdn.example", 336592976),
        "https://cdn.example/t/s/0100000000000816/336592976"
    );
}

#[test]
fn title_locators() {
    assert_eq!(
        title_container_path("2.0.0", 0x0100000000000001),
        "2.0.0/0100000000000001.cnmt.nca"
    );
    assert_eq!(
        title_container_url("https://cdn.example", 0x0100000000000001, 65796, "0000000000000000"),
        "https://cdn.example/t/a/0100000000000001/65796?device_id=0000000000000000"
    );
}

#[test]
fn extracted_payload_locators() {
    let container = root_container_path("2.0.0");
    let dir = extract_dir(&container);
    assert_eq!(dir, "2.0.0/0100000000000816.nca.extracted");
    assert_eq!(
        payload_path(&dir, MetaType::SystemUpdate, 0x0100000000000816),
        "2.0.0/0100000000000816.nca.extracted/SystemUpdate_0100000000000816.cnmt"
    );
    assert_eq!(
        payload_path("d", MetaType::BootImagePackageSafe, 2),
        "d/BootImagePackageSafe_0000000000000002.cnmt"
    );
}

#[test]
fn content_locators_use_lowercase_hex() {
    let id: Vec<u8> = vec![
        0xab, 0xcd, 0xef, 0x01, 0x23, 0x45, 0x67, 0x89, 0x00, 0xff, 0x10, 0x20, 0x30, 0x40,
        0x50, 0x60,
    ];
    assert_eq!(content_path("3.0.1", &id), "3.0.1/abcdef012345678900ff102030405060.nca");
    assert_eq!(
        content_url("https://cdn.example", &id),
        "https://cdn.example/c/c/abcdef012345678900ff102030405060"
    );
}

#[test]
fn every_type_label() {
    assert_eq!(type_label(MetaType::SystemProgram), "SystemProgram");
    assert_eq!(type_label(MetaType::SystemData), "SystemData");
    assert_eq!(type_label(MetaType::SystemUpdate), "SystemUpdate");
    assert_eq!(type_label(MetaType::BootImagePackage), "BootImagePackage");
    assert_eq!(type_label(MetaType::BootImagePackageSafe), "BootImagePackageSafe");
}
