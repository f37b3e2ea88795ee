use mc_networking::codegen::{
    check_printable, gen_packet_code, get_field, print_instruction_code, simple_name, tab_string, Class, Field,
    Instruction, InstructionType, Operation, OptionalInstructionType, Packet,
};
use mc_networking::types::{Direction, State};

fn ins(operation: Operation) -> Instruction {
    Instruction {
        field: None,
        condition: None,
        operation,
        instruction_type: OptionalInstructionType::default(),
        instructions: None,
        var: None,
        value: None,
    }
}

fn write(field: &str, ty: OptionalInstructionType) -> Instruction {
    let mut i = ins(Operation::Write);
    i.field = Some(String::from(field));
    i.instruction_type = ty;
    i
}

fn class() -> Class {
    Class {
        name: String::from("net.minecraft.network.protocol.handshake.ClientIntentionPacket"),
        obfuscated_name: String::from("abc"),
        fields: vec![
            Field { name: String::from("protocolVersion"), field_type: String::from("int"), obfuscated_name: String::from("a") },
            Field { name: String::from("hostName"), field_type: String::from("java.lang.String"), obfuscated_name: String::from("b") },
            Field { name: String::from("later"), field_type: String::from("int"), obfuscated_name: String::from("b") },
        ],
        methods: Vec::new(),
    }
}

#[test]
fn type_names() {
    assert_eq!(InstructionType::Varint.name(), "Varint");
    assert_eq!(InstructionType::VarintArray.name(), "VarintArray");
    assert_eq!(OptionalInstructionType::Known(InstructionType::ByteArray).display(), "ByteArray");
    assert_eq!(OptionalInstructionType::Other(String::from("float[]")).display(), "float[]");
    assert_eq!(OptionalInstructionType::default().display(), "None");
}

#[test]
fn tabs() {
    assert_eq!(tab_string(0), "");
    assert_eq!(tab_string(3), "\t\t\t");
}

#[test]
fn field_lookup_finds_the_last_with_the_name() {
    let c = class();
    assert_eq!(get_field(&c, &String::from("a")).unwrap().name, "protocolVersion");
    assert_eq!(get_field(&c, &String::from("b")).unwrap().name, "later");
    assert!(get_field(&c, &String::from("z")).is_none());
}

#[test]
fn prints_writes_and_stores() {
    let c = class();
    let mut store = ins(Operation::Store);
    store.var = Some(String::from("a"));
    store.value = Some(String::from("0"));
    store.instruction_type = OptionalInstructionType::Other(String::from("int"));
    let mut unknown_store = ins(Operation::Store);
    unknown_store.var = Some(String::from("q"));
    unknown_store.value = Some(String::from("x + 1"));
    let instructions = vec![
        write("a", OptionalInstructionType::Known(InstructionType::Varint)),
        write("zz", OptionalInstructionType::Known(InstructionType::String)),
        store,
        unknown_store,
    ];
    assert!(check_printable(&instructions, 1));
    let lines = print_instruction_code(&instructions, &c, 1);
    assert_eq!(
        lines,
        vec![
            "\tpub protocolVersion: Varint,",
            "\t//TODO zz: String,",
            "\tlet protocolVersion: int = 0;",
            "\t//TODO let q: None = x + 1;",
        ]
    );
}

#[test]
fn prints_nested_blocks() {
    let c = class();
    let mut if_block = ins(Operation::If);
    if_block.condition = Some(String::from("flag"));
    if_block.instructions = Some(vec![write("b", OptionalInstructionType::Known(InstructionType::Boolean))]);
    let mut else_block = ins(Operation::Else);
    else_block.instructions = Some(Vec::new());
    let mut loop_block = ins(Operation::Loop);
    loop_block.condition = Some(String::from("it.hasNext()"));
    let mut inner = ins(Operation::If);
    inner.condition = Some(String::from("deep"));
    inner.instructions = Some(vec![write("a", OptionalInstructionType::default())]);
    loop_block.instructions = Some(vec![inner]);
    let instructions = vec![if_block, else_block, loop_block];
    assert!(check_printable(&instructions, 0));
    let lines = print_instruction_code(&instructions, &c, 0);
    assert_eq!(
        lines,
        vec![
            "if flag {",
            "\tpub later: Boolean,",
            "}",
            "else {",
            "}",
            "while (it.hasNext()) {",
            "\tif deep {",
            "\t\tpub protocolVersion: None,",
            "\t}",
            "}",
        ]
    );
}

#[test]
fn unprintable_instructions_are_found() {
    assert!(!check_printable(&vec![ins(Operation::Write)], 0));
    assert!(!check_printable(&vec![ins(Operation::Increment)], 0));
    assert!(!check_printable(&vec![ins(Operation::InterfaceCall)], 0));
    assert!(!check_printable(&vec![ins(Operation::PutField)], 0));
    let mut if_without_body = ins(Operation::If);
    if_without_body.condition = Some(String::from("c"));
    assert!(!check_printable(&vec![if_without_body], 0));
    let mut nested_bad = ins(Operation::Else);
    nested_bad.instructions = Some(vec![ins(Operation::Store)]);
    assert!(!check_printable(&vec![nested_bad], 0));
    assert!(check_printable(&Vec::new(), 0));
}

#[test]
fn simple_names() {
    assert_eq!(simple_name("a.b.Cde"), "Cde");
    assert_eq!(simple_name("Plain"), "Plain");
    assert_eq!(simple_name("ends.with."), "");
    assert_eq!(simple_name(""), "");
}

#[test]
fn generates_a_packet_struct() {
    let c = class();
    let packet = Packet {
        class: String::from("abc.class"),
        direction: Direction::Serverbound,
        from_client: true,
        from_server: false,
        id: 0,
        instructions: vec![
            write("a", OptionalInstructionType::Known(InstructionType::Varint)),
            write("b", OptionalInstructionType::Known(InstructionType::String)),
        ],
        state: State::Handshaking,
    };
    let lines = gen_packet_code(&packet, &c);
    assert_eq!(
        lines,
        vec![
            "#[derive(Packet)]",
            "pub struct ClientIntentionPacket {",
            "\tpub protocolVersion: Varint,",
            "\tpub later: String,",
            "}",
        ]
    );
}
