use one_kvm_ir::proto::{proto_from_name, proto_name};

#[test]
fn known_protocol_names() {
    assert_eq!(proto_name(0), "unknown");
    assert_eq!(proto_name(9), "nec");
    assert_eq!(proto_name(10), "necx");
    assert_eq!(proto_name(11), "nec32");
    assert_eq!(proto_name(20), "sharp");
    assert_eq!(proto_name(27), "xbox_dvd");
}

#[test]
fn unnamed_protocols_get_a_numbered_name() {
    assert_eq!(proto_name(28), "proto_28");
    assert_eq!(proto_name(100), "proto_100");
    assert_eq!(proto_name(65535), "proto_65535");
}

#[test]
fn names_map_back_to_their_numbers() {
    for p in 0u16..28 {
        assert_eq!(proto_from_name(&proto_name(p)), Some(p));
    }
}

#[test]
fn unknown_names_have_no_number() {
    assert_eq!(proto_from_name("proto_28"), None);
    assert_eq!(proto_from_name("NEC"), None);
    assert_eq!(proto_from_name(""), None);
    assert_eq!(proto_from_name("nec "), None);
    assert_eq!(proto_from_name("rc6_6a_32"), Some(18));
}
