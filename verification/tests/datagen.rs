use mc_networking::datagen::{
    native_type_to_token_stream, nameless_pdt_to_code, pdt_to_code, DataType, Delimiter, NativeType, SwitchCase,
    Token, TypeName,
};
use mc_networking::derive::enum_discriminants;

fn render(tokens: &[Token]) -> String {
    let parts: Vec<String> = tokens
        .iter()
        .map(|t| match t {
            Token::Ident(s) => s.clone(),
            Token::Punct(s) => s.clone(),
            Token::Open(Delimiter::Paren) => String::from("("),
            Token::Open(Delimiter::Brace) => String::from("{"),
            Token::Close(Delimiter::Paren) => String::from(")"),
            Token::Close(Delimiter::Brace) => String::from("}"),
        })
        .collect();
    parts.join(" ")
}

fn named(s: &str) -> TypeName {
    TypeName::Named(String::from(s))
}

fn container(fields: Vec<(TypeName, DataType)>) -> DataType {
    DataType::Native(NativeType::Container(fields))
}

#[test]
fn native_names() {
    assert_eq!(render(&native_type_to_token_stream(&NativeType::VarInt).unwrap()), "VarInt");
    assert_eq!(render(&native_type_to_token_stream(&NativeType::Bool).unwrap()), "bool");
    assert_eq!(render(&native_type_to_token_stream(&NativeType::U16).unwrap()), "u16");
    assert_eq!(render(&native_type_to_token_stream(&NativeType::I64).unwrap()), "i64");
    assert_eq!(render(&native_type_to_token_stream(&NativeType::Float32).unwrap()), "f32");
    assert_eq!(render(&native_type_to_token_stream(&NativeType::Uuid).unwrap()), "Uuid");
    assert_eq!(
        render(&native_type_to_token_stream(&NativeType::PString(Box::new(NativeType::VarInt))).unwrap()),
        "PString < VarInt >"
    );
}

#[test]
fn handshake_container() {
    let handshake = container(vec![
        (named("protocolVersion"), DataType::Native(NativeType::VarInt)),
        (named("serverHost"), DataType::Other(Some(named("string")))),
        (named("serverPort"), DataType::Native(NativeType::U16)),
        (named("nextState"), DataType::Native(NativeType::VarInt)),
    ]);
    assert_eq!(
        render(&pdt_to_code(&handshake).unwrap()),
        "protocol_version : VarInt , server_host : String , server_port : u16 , next_state : VarInt ,"
    );
}

#[test]
fn built_types_become_structs() {
    let built = DataType::Built(named("packet_legacy_server_list_ping"), NativeType::Container(vec![(
        named("payload"),
        DataType::Native(NativeType::U8),
    )]));
    assert_eq!(
        render(&pdt_to_code(&built).unwrap()),
        "struct PacketLegacyServerListPing { payload : u8 , }"
    );
}

#[test]
fn references_by_name() {
    assert_eq!(render(&pdt_to_code(&DataType::Other(Some(named("restBuffer")))).unwrap()), "Vec < u8 >");
    assert_eq!(render(&pdt_to_code(&DataType::Other(Some(named("UUID")))).unwrap()), "Uuid");
    assert!(pdt_to_code(&DataType::Other(Some(named("slot")))).is_none());
    assert!(pdt_to_code(&DataType::Other(Some(TypeName::Anonymous))).is_none());
    assert!(pdt_to_code(&DataType::Other(None)).is_none());
    assert!(pdt_to_code(&DataType::UnknownNative(String::from("x"))).is_none());
}

#[test]
fn options_and_arrays() {
    let opt = DataType::Native(NativeType::Optional(Box::new(DataType::Native(NativeType::I32))));
    assert_eq!(render(&pdt_to_code(&opt).unwrap()), "Option < i32 >");
    let array = NativeType::Array(
        Box::new(NativeType::VarInt),
        Box::new(container(vec![(named("name"), DataType::Other(Some(named("string"))))])),
    );
    assert_eq!(
        render(&native_type_to_token_stream(&array).unwrap()),
        "Array < VarInt , ( struct { name : String , } ) >"
    );
    let bad_array = NativeType::Array(Box::new(NativeType::VarInt), Box::new(DataType::Native(NativeType::U8)));
    assert!(native_type_to_token_stream(&bad_array).is_none());
}

#[test]
fn switches() {
    let switch = NativeType::Switch {
        compare_to: String::from("action"),
        fields: vec![
            (String::from("add"), SwitchCase::Type(Box::new(container(vec![(named("count"), DataType::Native(NativeType::VarInt))])))),
            (String::from("remove"), SwitchCase::Type(Box::new(container(Vec::new())))),
        ],
        has_default: false,
    };
    assert_eq!(
        render(&native_type_to_token_stream(&switch).unwrap()),
        "action :: add => struct { count : VarInt , } , action :: remove => struct { } ,"
    );
    let with_default = NativeType::Switch { compare_to: String::from("a"), fields: Vec::new(), has_default: true };
    assert!(native_type_to_token_stream(&with_default).is_none());
    let with_packet = NativeType::Switch {
        compare_to: String::from("a"),
        fields: vec![(String::from("x"), SwitchCase::Packet(String::from("packet_x")))],
        has_default: false,
    };
    assert!(native_type_to_token_stream(&with_packet).is_none());
}

#[test]
fn unsupported_natives() {
    assert!(native_type_to_token_stream(&NativeType::Void).is_none());
    assert!(native_type_to_token_stream(&NativeType::Nbt).is_none());
    assert!(native_type_to_token_stream(&NativeType::Buffer(Box::new(NativeType::VarInt))).is_none());
    assert!(pdt_to_code(&container(vec![(named("a"), DataType::Native(NativeType::RestBuffer))])).is_none());
    assert!(nameless_pdt_to_code(&DataType::Native(NativeType::U8)).is_none());
}

#[test]
fn anonymous_fields_are_named_anonymous() {
    let c = container(vec![(TypeName::Anonymous, DataType::Native(NativeType::Bool))]);
    assert_eq!(render(&pdt_to_code(&c).unwrap()), "anonymous : bool ,");
}

#[test]
fn enum_numbering() {
    assert_eq!(enum_discriminants(&vec![None, None, None]), Some(vec![0, 1, 2]));
    assert_eq!(enum_discriminants(&vec![None, Some(5), None, Some(2), None]), Some(vec![0, 5, 6, 2, 3]));
    assert_eq!(enum_discriminants(&vec![]), Some(vec![]));
    assert_eq!(enum_discriminants(&vec![Some(usize::MAX)]), None);
    assert_eq!(enum_discriminants(&vec![Some(usize::MAX - 1), None]), None);
    assert_eq!(enum_discriminants(&vec![Some(usize::MAX - 1)]), Some(vec![usize::MAX - 1]));
}
