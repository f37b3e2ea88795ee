//! Generating the Rust text of a packet struct from a packet's recorded
//! write instructions and its class's deobfuscation mapping.
use vstd::prelude::*;
use vstd::string::{StrSliceExecFns, StringExecFns};
use crate::types::{Direction, State};

verus! {

/// What an instruction does.
#[derive(Debug, Clone, Copy, PartialEq, Eq, Structural)]
pub enum Operation {
    Write,
    Store,
    If,
    Else,
    Loop,
    InterfaceCall,
    Increment,
    PutField,
}

/// The type an instruction writes or stores.
#[derive(Debug, Clone, Copy, PartialEq, Eq, Structural)]
pub enum InstructionType {
    Varint,
    Varlong,
    String,
    Short,
    ChatComponent,
    ByteArray,
    Uuid,
    Iterator,
    Identifier,
    Boolean,
    Double,
    Byte,
    Position,
    NbtCompound,
    Enum,
    Interface,
    Int,
    ItemStack,
    Float,
    Long,
    LongArray,
    Object,
    Metadata,
    VarintArray,
}

/// The name of a type, as its debug form prints it.
pub open spec fn kind_name(t: InstructionType) -> Seq<char> {
    match t {
        InstructionType::Varint => "Varint"@,
        InstructionType::Varlong => "Varlong"@,
        InstructionType::String => "String"@,
        InstructionType::Short => "Short"@,
        InstructionType::ChatComponent => "ChatComponent"@,
        InstructionType::ByteArray => "ByteArray"@,
        InstructionType::Uuid => "Uuid"@,
        InstructionType::Iterator => "Iterator"@,
        InstructionType::Identifier => "Identifier"@,
        InstructionType::Boolean => "Boolean"@,
        InstructionType::Double => "Double"@,
        InstructionType::Byte => "Byte"@,
        InstructionType::Position => "Position"@,
        InstructionType::NbtCompound => "NbtCompound"@,
        InstructionType::Enum => "Enum"@,
        InstructionType::Interface => "Interface"@,
        InstructionType::Int => "Int"@,
        InstructionType::ItemStack => "ItemStack"@,
        InstructionType::Float => "Float"@,
        InstructionType::Long => "Long"@,
        InstructionType::LongArray => "LongArray"@,
        InstructionType::Object => "Object"@,
        InstructionType::Metadata => "Metadata"@,
        InstructionType::VarintArray => "VarintArray"@,
    }
}

impl InstructionType {
    pub fn name(&self) -> (r: &'static str)
        ensures
            r@ == kind_name(*self),
    {
        match self {
            InstructionType::Varint => "Varint",
            InstructionType::Varlong => "Varlong",
            InstructionType::String => "String",
            InstructionType::Short => "Short",
            InstructionType::ChatComponent => "ChatComponent",
            InstructionType::ByteArray => "ByteArray",
            InstructionType::Uuid => "Uuid",
            InstructionType::Iterator => "Iterator",
            InstructionType::Identifier => "Identifier",
            InstructionType::Boolean => "Boolean",
            InstructionType::Double => "Double",
            InstructionType::Byte => "Byte",
            InstructionType::Position => "Position",
            InstructionType::NbtCompound => "NbtCompound",
            InstructionType::Enum => "Enum",
            InstructionType::Interface => "Interface",
            InstructionType::Int => "Int",
            InstructionType::ItemStack => "ItemStack",
            InstructionType::Float => "Float",
            InstructionType::Long => "Long",
            InstructionType::LongArray => "LongArray",
            InstructionType::Object => "Object",
            InstructionType::Metadata => "Metadata",
            InstructionType::VarintArray => "VarintArray",
        }
    }
}

/// An instruction's type: a known one, another name, or none.
#[derive(Debug)]
pub enum OptionalInstructionType {
    Known(InstructionType),
    Other(String),
    Absent,
}

impl Default for OptionalInstructionType {
    fn default() -> (r: Self)
        ensures
            r is Absent,
    {
        OptionalInstructionType::Absent
    }
}

/// How an instruction's type is printed.
pub open spec fn type_display(t: &OptionalInstructionType) -> Seq<char> {
    match t {
        OptionalInstructionType::Known(t) => kind_name(*t),
        OptionalInstructionType::Other(other) => other@,
        OptionalInstructionType::Absent => "None"@,
    }
}

impl OptionalInstructionType {
    /// The printed form of the type.
    pub fn display(&self) -> (r: String)
        ensures
            r@ == type_display(self),
    {
        match self {
            OptionalInstructionType::Known(t) => String::from_str(t.name()),
            OptionalInstructionType::Other(other) => other.clone(),
            OptionalInstructionType::Absent => String::from_str("None"),
        }
    }
}

/// One recorded instruction of a packet's writer.
#[derive(Debug)]
pub struct Instruction {
    pub field: Option<String>,
    pub condition: Option<String>,
    pub operation: Operation,
    pub instruction_type: OptionalInstructionType,
    pub instructions: Option<Vec<Instruction>>,
    pub var: Option<String>,
    pub value: Option<String>,
}

/// A field of a class: its readable name, its type and its obfuscated name.
#[derive(Debug)]
pub struct Field {
    pub name: String,
    pub field_type: String,
    pub obfuscated_name: String,
}

/// A method of a class.
#[derive(Debug)]
pub struct Method {
    pub name: String,
    pub obfuscated_name: String,
    pub parameters: String,
    pub return_type: String,
}

/// A class of the mapping. Its fields are looked up by obfuscated name; of
/// fields that share one, the last recorded is found.
#[derive(Debug)]
pub struct Class {
    pub name: String,
    pub obfuscated_name: String,
    pub fields: Vec<Field>,
    pub methods: Vec<Method>,
}

/// A packet as the extracted protocol data describes it.
#[derive(Debug)]
pub struct Packet {
    pub class: String,
    pub direction: Direction,
    pub from_client: bool,
    pub from_server: bool,
    pub id: i32,
    pub instructions: Vec<Instruction>,
    pub state: State,
}

/// The index of the last field whose obfuscated name is `key`.
pub open spec fn find_field(fields: Seq<Field>, key: Seq<char>) -> Option<int>
    decreases fields.len(),
{
    if fields.len() == 0 {
        None
    } else if fields.last().obfuscated_name@ == key {
        Some(fields.len() - 1)
    } else {
        find_field(fields.drop_last(), key)
    }
}

/// Looks a field up by its obfuscated name.
pub fn get_field<'a>(class: &'a Class, key: &String) -> (r: Option<&'a Field>)
    ensures
        match find_field(class.fields@, key@) {
            Some(i) => r == Some(&class.fields@[i]),
            None => r is None,
        },
{
    let mut i = class.fields.len();
    assert(class.fields@.take(i as int) =~= class.fields@);
    while i > 0
        invariant
            i <= class.fields@.len(),
            find_field(class.fields@, key@) == find_field(class.fields@.take(i as int), key@),
        decreases i,
    {
        let ghost prefix = class.fields@.take(i as int);
        if class.fields[i - 1].obfuscated_name == *key {
            return Some(&class.fields[i - 1]);
        }
        assert(prefix.drop_last() =~= class.fields@.take(i - 1));
        i = i - 1;
    }
    assert(class.fields@.take(0) =~= Seq::<Field>::empty());
    None
}

/// `n` tabs.
pub open spec fn tabs(n: nat) -> Seq<char>
    decreases n,
{
    if n == 0 { Seq::empty() } else { tabs((n - 1) as nat) + "\t"@ }
}

/// A string of `n` tabs.
pub fn tab_string(n: usize) -> (r: String)
    ensures
        r@ == tabs(n as nat),
{
    proof { reveal_strlit(""); }
    let mut out = String::from_str("");
    let mut i: usize = 0;
    while i < n
        invariant
            i <= n,
            out@ == tabs(i as nat),
        decreases n - i,
    {
        out.append("\t");
        i = i + 1;
    }
    out
}

/// The instructions can be printed: each has what its operation reads, and
/// none is of an operation that has no printed form.
pub open spec fn printable(instructions: Seq<Instruction>) -> bool
    decreases instructions,
{
    instructions.len() == 0 || (printable(instructions.drop_last()) && printable_one(instructions.last()))
}

/// One instruction can be printed.
pub open spec fn printable_one(ins: Instruction) -> bool
    decreases ins,
{
    match ins.operation {
        Operation::Write => ins.field is Some,
        Operation::Store => ins.var is Some && ins.value is Some,
        Operation::If | Operation::Loop => ins.condition is Some && match ins.instructions {
            Some(nested) => printable(nested@),
            None => false,
        },
        Operation::Else => match ins.instructions {
            Some(nested) => printable(nested@),
            None => false,
        },
        _ => false,
    }
}

/// The printed type of an instruction.
pub open spec fn kind_display_of(ins: &Instruction) -> Seq<char> {
    type_display(&ins.instruction_type)
}

/// Each instruction of a printable list is printable.
pub proof fn lemma_printable_item(instructions: Seq<Instruction>, i: int)
    requires
        printable(instructions),
        0 <= i < instructions.len(),
    ensures
        printable_one(instructions[i]),
    decreases instructions.len(),
{
    if i < instructions.len() - 1 {
        lemma_printable_item(instructions.drop_last(), i);
    }
}

/// How deep blocks nest in `instructions`.
pub open spec fn nesting(instructions: Seq<Instruction>) -> nat
    decreases instructions,
{
    if instructions.len() == 0 {
        0
    } else {
        let a = nesting(instructions.drop_last());
        let b = nesting_one(instructions.last());
        if a >= b { a } else { b }
    }
}

/// How deep blocks nest in one instruction.
pub open spec fn nesting_one(ins: Instruction) -> nat
    decreases ins,
{
    match ins.operation {
        Operation::If | Operation::Else | Operation::Loop => match ins.instructions {
            Some(nested) => 1 + nesting(nested@),
            None => 0,
        },
        _ => 0,
    }
}

/// Every instruction nests no deeper than the list it is in.
pub proof fn lemma_nesting_item(instructions: Seq<Instruction>, i: int)
    requires
        0 <= i < instructions.len(),
    ensures
        nesting_one(instructions[i]) <= nesting(instructions),
    decreases instructions.len(),
{
    if i < instructions.len() - 1 {
        lemma_nesting_item(instructions.drop_last(), i);
    }
}

/// The text lines printed for `instructions` at indentation `tab`.
pub open spec fn code_lines(instructions: Seq<Instruction>, fields: Seq<Field>, tab: nat) -> Seq<Seq<char>>
    decreases instructions,
{
    if instructions.len() == 0 {
        Seq::empty()
    } else {
        code_lines(instructions.drop_last(), fields, tab) + one_lines(instructions.last(), fields, tab)
    }
}

/// The text lines printed for one instruction at indentation `tab`.
pub open spec fn one_lines(ins: Instruction, fields: Seq<Field>, tab: nat) -> Seq<Seq<char>>
    decreases ins,
{
    let t = tabs(tab);
    let ty = type_display(&ins.instruction_type);
    match ins.operation {
        Operation::Write => match ins.field {
            Some(key) => match find_field(fields, key@) {
                Some(i) => seq![t + "pub "@ + fields[i].name@ + ": "@ + ty + ","@],
                None => seq![t + "//TODO "@ + key@ + ": "@ + ty + ","@],
            },
            None => Seq::empty(),
        },
        Operation::Store => match ins.var {
            Some(key) => match ins.value {
                Some(value) => match find_field(fields, key@) {
                    Some(i) => seq![t + "let "@ + fields[i].name@ + ": "@ + ty + " = "@ + value@ + ";"@],
                    None => seq![t + "//TODO let "@ + key@ + ": "@ + ty + " = "@ + value@ + ";"@],
                },
                None => Seq::empty(),
            },
            None => Seq::empty(),
        },
        Operation::If => match ins.condition {
            Some(condition) => match ins.instructions {
                Some(nested) => seq![t + "if "@ + condition@ + " {"@] + code_lines(nested@, fields, tab + 1) + seq![t + "}"@],
                None => Seq::empty(),
            },
            None => Seq::empty(),
        },
        Operation::Else => match ins.instructions {
            Some(nested) => seq![t + "else {"@] + code_lines(nested@, fields, tab + 1) + seq![t + "}"@],
            None => Seq::empty(),
        },
        Operation::Loop => match ins.condition {
            Some(condition) => match ins.instructions {
                Some(nested) => seq![t + "while ("@ + condition@ + ") {"@] + code_lines(nested@, fields, tab + 1) + seq![t + "}"@],
                None => Seq::empty(),
            },
            None => Seq::empty(),
        },
        _ => Seq::empty(),
    }
}

/// A string made of `parts` one after another.
fn concat(parts: &Vec<&str>) -> (r: String)
    ensures
        r@ == concat_spec(parts@.map_values(|p: &str| p@)),
{
    proof { reveal_strlit(""); }
    let mut out = String::from_str("");
    let ghost views = parts@.map_values(|p: &str| p@);
    for i in 0..parts.len()
        invariant
            views == parts@.map_values(|p: &str| p@),
            out@ == concat_spec(views.take(i as int)),
    {
        out.append(parts[i]);
        assert(views.take(i + 1).drop_last() =~= views.take(i as int));
    }
    assert(views.take(parts@.len() as int) =~= views);
    out
}

/// The strings of `parts` one after another.
pub open spec fn concat_spec(parts: Seq<Seq<char>>) -> Seq<char>
    decreases parts.len(),
{
    if parts.len() == 0 { Seq::empty() } else { concat_spec(parts.drop_last()) + parts.last() }
}

/// The lines printed for one instruction.
fn instruction_code(ins: &Instruction, class: &Class, tab_count: usize) -> (r: Vec<String>)
    requires
        printable_one(*ins),
        tab_count + nesting_one(*ins) <= isize::MAX,
    ensures
        r.deep_view() == one_lines(*ins, class.fields@, tab_count as nat),
    decreases ins, 0nat,
{
    let t = tab_string(tab_count);
    let ty = ins.instruction_type.display();
    let mut lines: Vec<String> = Vec::new();
    proof { reveal_with_fuel(concat_spec, 9); }
    match ins.operation {
        Operation::Write => {
            let key = ins.field.as_ref().unwrap();
            let line = match get_field(class, key) {
                Some(field) => concat(&vec![t.as_str(), "pub ", field.name.as_str(), ": ", ty.as_str(), ","]),
                None => concat(&vec![t.as_str(), "//TODO ", key.as_str(), ": ", ty.as_str(), ","]),
            };
            lines.push(line);
            assert(lines.deep_view() =~= one_lines(*ins, class.fields@, tab_count as nat));
        },
        Operation::Store => {
            let key = ins.var.as_ref().unwrap();
            let value = ins.value.as_ref().unwrap();
            let found = get_field(class, key);
            let line = match found {
                Some(field) => concat(&vec![t.as_str(), "let ", field.name.as_str(), ": ", ty.as_str(), " = ", value.as_str(), ";"]),
                None => concat(&vec![t.as_str(), "//TODO let ", key.as_str(), ": ", ty.as_str(), " = ", value.as_str(), ";"]),
            };
            assert(ins.var == Some(*key) && ins.value == Some(*value));
            lines.push(line);
            proof {
                let fields = class.fields@;
                let tt = tabs(tab_count as nat);
                let tyv = kind_display_of(ins);
                assert(ty@ == tyv);
                match find_field(fields, key@) {
                    Some(j) => {
                        assert(line@ =~= tt + "let "@ + fields[j].name@ + ": "@ + tyv + " = "@ + value@ + ";"@);
                    },
                    None => {
                        assert(line@ =~= tt + "//TODO let "@ + key@ + ": "@ + tyv + " = "@ + value@ + ";"@);
                    },
                }
            }
            assert(lines.deep_view() =~= one_lines(*ins, class.fields@, tab_count as nat));
        },
        Operation::If => {
            let condition = ins.condition.as_ref().unwrap();
            let open = concat(&vec![t.as_str(), "if ", condition.as_str(), " {"]);
            let nested = ins.instructions.as_ref().unwrap();
            lines = block_lines(open, nested, class, tab_count, &t);
            assert(lines.deep_view() =~= one_lines(*ins, class.fields@, tab_count as nat));
        },
        Operation::Else => {
            let open = concat(&vec![t.as_str(), "else {"]);
            let nested = ins.instructions.as_ref().unwrap();
            lines = block_lines(open, nested, class, tab_count, &t);
            assert(lines.deep_view() =~= one_lines(*ins, class.fields@, tab_count as nat));
        },
        Operation::Loop => {
            let condition = ins.condition.as_ref().unwrap();
            let open = concat(&vec![t.as_str(), "while (", condition.as_str(), ") {"]);
            let nested = ins.instructions.as_ref().unwrap();
            lines = block_lines(open, nested, class, tab_count, &t);
            assert(lines.deep_view() =~= one_lines(*ins, class.fields@, tab_count as nat));
        },
        _ => {},
    }
    lines
}

/// A block: its opening line, its instructions one tab deeper, and a closing brace.
fn block_lines(open: String, nested: &Vec<Instruction>, class: &Class, tab_count: usize, t: &String) -> (r: Vec<String>)
    requires
        printable(nested@),
        tab_count + 1 + nesting(nested@) <= isize::MAX,
        t@ == tabs(tab_count as nat),
    ensures
        r.deep_view() == seq![open@] + code_lines(nested@, class.fields@, (tab_count + 1) as nat) + seq![t@ + "}"@],
    decreases nested, 1nat,
{
    proof { reveal_with_fuel(concat_spec, 3); }
    let ghost open_view = open@;
    let mut lines: Vec<String> = Vec::new();
    lines.push(open);
    assert(lines.deep_view() =~= seq![open_view]);
    let inner = print_instruction_code(nested, class, tab_count + 1);
    append_lines(&mut lines, inner);
    let close = concat(&vec![t.as_str(), "}"]);
    let ghost before = lines.deep_view();
    lines.push(close);
    assert(lines.deep_view() =~= before.push(t@ + "}"@));
    lines
}

/// Moves the lines of `more` to the end of `lines`.
fn append_lines(lines: &mut Vec<String>, more: Vec<String>)
    ensures
        final(lines).deep_view() == old(lines).deep_view() + more.deep_view(),
{
    let mut more = more;
    let ghost start = lines.deep_view();
    let ghost all = more.deep_view();
    let n = more.len();
    let mut rest: Vec<String> = Vec::new();
    while more.len() > 0
        invariant
            rest.deep_view() + more.deep_view().reverse() =~= all.reverse(),
        decreases more.len(),
    {
        let ghost m = more.deep_view();
        let x = more.pop().unwrap();
        proof {
            assert(m =~= more.deep_view().push(x@));
            assert(m.reverse() =~= seq![x@] + more.deep_view().reverse());
        }
        let ghost r = rest.deep_view();
        rest.push(x);
        assert(rest.deep_view() =~= r.push(x@));
    }
    while rest.len() > 0
        invariant
            lines.deep_view() + rest.deep_view().reverse() =~= start + all,
        decreases rest.len(),
    {
        let ghost rv = rest.deep_view();
        let x = rest.pop().unwrap();
        proof {
            assert(rv =~= rest.deep_view().push(x@));
            assert(rv.reverse() =~= seq![x@] + rest.deep_view().reverse());
        }
        let ghost l = lines.deep_view();
        lines.push(x);
        assert(lines.deep_view() =~= l.push(x@));
    }
}

/// The text lines that print `instructions` at indentation `tab_count`, each
/// instruction in turn, blocks indented one tab deeper than their header.
pub fn print_instruction_code(instructions: &Vec<Instruction>, class: &Class, tab_count: usize) -> (r: Vec<String>)
    requires
        printable(instructions@),
        tab_count + nesting(instructions@) <= isize::MAX,
    ensures
        r.deep_view() == code_lines(instructions@, class.fields@, tab_count as nat),
    decreases instructions, 0nat,
{
    let mut lines: Vec<String> = Vec::new();
    assert(instructions@.take(0) =~= Seq::<Instruction>::empty());
    for i in 0..instructions.len()
        invariant
            printable(instructions@),
            tab_count + nesting(instructions@) <= isize::MAX,
            lines.deep_view() == code_lines(instructions@.take(i as int), class.fields@, tab_count as nat),
    {
        proof {
            lemma_nesting_item(instructions@, i as int);
            lemma_printable_item(instructions@, i as int);
            assert(instructions@.take(i + 1).drop_last() =~= instructions@.take(i as int));
            assert(instructions@.take(i + 1).last() == instructions@[i as int]);
        }
        let more = instruction_code(&instructions[i], class, tab_count);
        append_lines(&mut lines, more);
    }
    assert(instructions@.take(instructions@.len() as int) =~= instructions@);
    lines
}


/// Whether `instructions` can be printed at indentation `tab_count`: each is
/// printable and the deepest block still has an indentation that fits.
pub fn check_printable(instructions: &Vec<Instruction>, tab_count: usize) -> (r: bool)
    ensures
        r == (printable(instructions@) && tab_count + nesting(instructions@) <= isize::MAX),
    decreases instructions, 0nat,
{
    let mut ok = tab_count <= isize::MAX as usize;
    assert(instructions@.take(0) =~= Seq::<Instruction>::empty());
    for i in 0..instructions.len()
        invariant
            ok == (printable(instructions@.take(i as int)) && tab_count + nesting(instructions@.take(i as int)) <= isize::MAX),
    {
        proof {
            assert(instructions@.take(i + 1).drop_last() =~= instructions@.take(i as int));
            assert(instructions@.take(i + 1).last() == instructions@[i as int]);
        }
        let one = check_printable_one(&instructions[i], tab_count);
        ok = ok && one;
    }
    assert(instructions@.take(instructions@.len() as int) =~= instructions@);
    ok
}

/// Whether one instruction can be printed at indentation `tab_count`.
fn check_printable_one(ins: &Instruction, tab_count: usize) -> (r: bool)
    ensures
        r == (printable_one(*ins) && tab_count + nesting_one(*ins) <= isize::MAX),
    decreases ins, 1nat,
{
    match ins.operation {
        Operation::Write => ins.field.is_some() && tab_count <= isize::MAX as usize,
        Operation::Store => ins.var.is_some() && ins.value.is_some() && tab_count <= isize::MAX as usize,
        Operation::If | Operation::Loop | Operation::Else => {
            let has_condition = ins.operation == Operation::Else || ins.condition.is_some();
            match &ins.instructions {
                Some(nested) => {
                    if has_condition && tab_count < isize::MAX as usize {
                        check_printable(nested, tab_count + 1)
                    } else {
                        false
                    }
                },
                None => false,
            }
        },
        _ => false,
    }
}

/// The last `.`-separated segment of a name: what follows its last `.`, or
/// the whole name where it has none.
pub open spec fn last_segment(s: Seq<char>) -> Seq<char>
    decreases s.len(),
{
    if s.len() == 0 {
        s
    } else if s.last() == '.' {
        Seq::empty()
    } else {
        last_segment(s.drop_last()).push(s.last())
    }
}

/// The simple name of a dotted class name.
pub fn simple_name(name: &str) -> (r: &str)
    ensures
        r@ == last_segment(name@),
{
    let n = name.unicode_len();
    let mut i = n;
    assert(name@.take(n as int) =~= name@);
    assert(name@.subrange(n as int, n as int) =~= Seq::<char>::empty());
    while i > 0 && name.get_char(i - 1) != '.'
        invariant
            i <= n,
            n == name@.len(),
            last_segment(name@) == last_segment(name@.take(i as int)) + name@.subrange(i as int, n as int),
        decreases i,
    {
        proof {
            let s = name@.take(i as int);
            assert(s.drop_last() =~= name@.take(i - 1));
            assert(s.last() == name@[i - 1]);
            assert(name@.subrange(i - 1, n as int) =~= seq![name@[i - 1]] + name@.subrange(i as int, n as int));
            assert(last_segment(s) == last_segment(name@.take(i - 1)).push(name@[i - 1]));
            assert(last_segment(name@.take(i - 1)).push(name@[i - 1]) + name@.subrange(i as int, n as int)
                =~= last_segment(name@.take(i - 1)) + name@.subrange(i - 1, n as int));
        }
        i = i - 1;
    }
    proof {
        if i == 0 {
            assert(name@.take(0) =~= Seq::<char>::empty());
        } else {
            assert(name@.take(i as int).last() == name@[i - 1]);
        }
        assert(last_segment(name@.take(i as int)) =~= Seq::<char>::empty());
    }
    name.substring_char(i, n)
}

/// The text lines of a packet's struct: the derive line, the header with the
/// class's simple name, its fields one tab deep, and the closing brace.
pub open spec fn packet_code(instructions: Seq<Instruction>, class_name: Seq<char>, fields: Seq<Field>) -> Seq<Seq<char>> {
    seq!["#[derive(Packet)]"@, "pub struct "@ + last_segment(class_name) + " {"@]
        + code_lines(instructions, fields, 1)
        + seq!["}"@]
}

/// The text of the struct that reads and writes `packet`, named after the
/// simple name of `class`.
pub fn gen_packet_code(packet: &Packet, class: &Class) -> (r: Vec<String>)
    requires
        printable(packet.instructions@),
        1 + nesting(packet.instructions@) <= isize::MAX,
    ensures
        r.deep_view() == packet_code(packet.instructions@, class.name@, class.fields@),
{
    proof { reveal_with_fuel(concat_spec, 4); }
    let mut lines: Vec<String> = Vec::new();
    lines.push(String::from_str("#[derive(Packet)]"));
    let name = simple_name(class.name.as_str());
    lines.push(concat(&vec!["pub struct ", name, " {"]));
    let body = print_instruction_code(&packet.instructions, class, 1);
    append_lines(&mut lines, body);
    let ghost before = lines.deep_view();
    lines.push(String::from_str("}"));
    assert(lines.deep_view() =~= before.push("}"@));
    assert(lines.deep_view() =~= packet_code(packet.instructions@, class.name@, class.fields@));
    lines
}

} // verus!
