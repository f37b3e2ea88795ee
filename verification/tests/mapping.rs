use mc_networking::codegen::Class;
use mc_networking::mapping::{build_classes, check_records, class_key, find_class, load_mapping, MappingRecord};

const MAPPING: &str = "# compiler: R8\nnet.minecraft.network.protocol.handshake.ClientIntentionPacket -> abc:\n    int protocolVersion -> a\n    java.lang.String hostName -> b\n    void write(net.minecraft.network.FriendlyByteBuf) -> a\nnet.minecraft.Other -> xyz:\n    int count -> a\n";

#[test]
fn loads_classes_from_mapping_text() {
    let classes = load_mapping(MAPPING.as_bytes()).unwrap();
    assert_eq!(classes.len(), 2);
    let c = &classes[0];
    assert_eq!(c.name, "net.minecraft.network.protocol.handshake.ClientIntentionPacket");
    assert_eq!(c.obfuscated_name, "abc");
    assert_eq!(c.fields.len(), 2);
    assert_eq!(c.fields[0].name, "protocolVersion");
    assert_eq!(c.fields[0].field_type, "int");
    assert_eq!(c.fields[0].obfuscated_name, "a");
    assert_eq!(c.fields[1].name, "hostName");
    assert_eq!(c.methods.len(), 1);
    assert_eq!(c.methods[0].name, "write");
    assert_eq!(c.methods[0].obfuscated_name, "a");
    assert_eq!(c.methods[0].parameters, "net.minecraft.network.FriendlyByteBuf");
    assert_eq!(c.methods[0].return_type, "void");
    assert_eq!(classes[1].obfuscated_name, "xyz");
    assert_eq!(classes[1].fields.len(), 1);
}

#[test]
fn field_before_any_class_is_refused() {
    assert!(load_mapping(b"    int x -> a\n").is_none());
}

#[test]
fn empty_mapping_has_no_classes() {
    assert!(load_mapping(b"").unwrap().is_empty());
}

fn s(x: &str) -> String {
    String::from(x)
}

#[test]
fn builds_classes_from_records() {
    let records = vec![
        MappingRecord::Header,
        MappingRecord::Class(s("p.A"), s("a")),
        MappingRecord::Field(s("int"), s("x"), s("b")),
        MappingRecord::Class(s("p.B"), s("c")),
        MappingRecord::Method(s("void"), s("run"), s("d"), s("")),
    ];
    assert!(check_records(&records));
    let classes = build_classes(&records);
    assert_eq!(classes.len(), 2);
    assert_eq!(classes[0].fields.len(), 1);
    assert_eq!(classes[0].fields[0].name, "x");
    assert_eq!(classes[0].methods.len(), 0);
    assert_eq!(classes[1].methods[0].name, "run");
}

#[test]
fn record_checks() {
    assert!(!check_records(&vec![MappingRecord::Invalid]));
    assert!(!check_records(&vec![MappingRecord::Method(s("v"), s("m"), s("a"), s(""))]));
    assert!(check_records(&vec![MappingRecord::Header]));
}

#[test]
fn class_keys() {
    assert_eq!(class_key("abc.class"), Some("abc"));
    assert_eq!(class_key(".class"), Some(""));
    assert_eq!(class_key("abc.clas"), None);
    assert_eq!(class_key("abc"), None);
}

fn class(name: &str, obfuscated: &str) -> Class {
    Class { name: s(name), obfuscated_name: s(obfuscated), fields: Vec::new(), methods: Vec::new() }
}

#[test]
fn finds_the_last_class_of_a_name() {
    let classes = vec![class("p.A", "a"), class("p.B", "b"), class("p.C", "a")];
    assert_eq!(find_class(&classes, "a").unwrap().name, "p.C");
    assert_eq!(find_class(&classes, "b").unwrap().name, "p.B");
    assert!(find_class(&classes, "z").is_none());
}
