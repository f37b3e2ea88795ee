//! Generating struct definitions, as tokens, from the protocol data's
//! description of packet types.
use vstd::prelude::*;
use vstd::string::StringExecFns;
use convert_case::{Case, Casing};

verus! {

/// The name of a container field: given, or left anonymous.
#[derive(Debug)]
pub enum TypeName {
    Anonymous,
    Named(String),
}

/// What one case of a switch holds.
#[derive(Debug)]
pub enum SwitchCase {
    /// A reference to a packet by name.
    Packet(String),
    Type(Box<DataType>),
    /// A value the protocol data does not describe as a type.
    Unknown,
}

/// The protocol data's native types.
#[derive(Debug)]
pub enum NativeType {
    VarInt,
    PString(Box<NativeType>),
    Buffer(Box<NativeType>),
    Bool,
    U8,
    U16,
    U32,
    U64,
    I8,
    I16,
    I32,
    I64,
    Float32,
    Float64,
    Uuid,
    Optional(Box<DataType>),
    EntityMetadataLoop(Box<DataType>),
    TopBitSetTerminatedArray(Box<DataType>),
    BitField,
    Container(Vec<(TypeName, DataType)>),
    Switch {
        compare_to: String,
        fields: Vec<(String, SwitchCase)>,
        has_default: bool,
    },
    Void,
    /// The type of the count, then the type of the items.
    Array(Box<NativeType>, Box<DataType>),
    RestBuffer,
    Nbt,
    OptionalNbt,
    /// A native type this library does not know.
    Unlisted,
}

/// A type of the protocol data.
#[derive(Debug)]
pub enum DataType {
    Native(NativeType),
    /// Marked native, but not a known native type.
    UnknownNative(String),
    /// A named type built from a native one.
    Built(TypeName, NativeType),
    /// A type that could not be built: most often a reference to one by name.
    Other(Option<TypeName>),
}

/// The delimiters of token groups.
#[derive(Debug, Clone, Copy, PartialEq, Eq, Structural)]
pub enum Delimiter {
    Paren,
    Brace,
}

/// A token of generated code. A group is written as its opening token, its
/// contents and its closing token.
#[derive(Debug)]
pub enum Token {
    Ident(String),
    /// One or more punctuation characters written together, such as `::`.
    Punct(String),
    Open(Delimiter),
    Close(Delimiter),
}

/// A token as plain values.
pub enum TokenModel {
    Ident(Seq<char>),
    Punct(Seq<char>),
    Open(Delimiter),
    Close(Delimiter),
}

impl DeepView for Token {
    type V = TokenModel;

    open spec fn deep_view(&self) -> TokenModel {
        match self {
            Token::Ident(s) => TokenModel::Ident(s@),
            Token::Punct(s) => TokenModel::Punct(s@),
            Token::Open(d) => TokenModel::Open(*d),
            Token::Close(d) => TokenModel::Close(*d),
        }
    }
}

/// The ways of writing a name.
#[derive(Debug, Clone, Copy, PartialEq, Eq, Structural)]
pub enum NameCase {
    /// `UpperCamelCase`.
    Pascal,
    /// `snake_case`.
    Snake,
}

/// What the case converter makes of a text in a case.
pub uninterp spec fn case_converted(s: Seq<char>, case: NameCase) -> Seq<char>;

/// `convert_case::Casing::to_case` with `Case::Pascal` or `Case::Snake`: the
/// text rewritten in that case. The result is left to its name.
#[verifier::external_body]
fn convert_case(s: &str, case: NameCase) -> (r: String)
    ensures
        r@ == case_converted(s@, case),
{
    match case {
        NameCase::Pascal => s.to_case(Case::Pascal),
        NameCase::Snake => s.to_case(Case::Snake),
    }
}

/// The text of a field name: `Anonymous` for an anonymous one.
pub open spec fn name_text(t: TypeName) -> Seq<char> {
    match t {
        TypeName::Anonymous => "Anonymous"@,
        TypeName::Named(n) => n@,
    }
}

pub open spec fn ident(s: Seq<char>) -> Seq<TokenModel> {
    seq![TokenModel::Ident(s)]
}

pub open spec fn punct(s: Seq<char>) -> Seq<TokenModel> {
    seq![TokenModel::Punct(s)]
}

/// `inner` between the delimiters `d`.
pub open spec fn group(d: Delimiter, inner: Seq<TokenModel>) -> Seq<TokenModel> {
    seq![TokenModel::Open(d)] + inner + seq![TokenModel::Close(d)]
}

/// `name<args>`.
pub open spec fn generic(name: Seq<char>, args: Seq<TokenModel>) -> Seq<TokenModel> {
    ident(name) + punct("<"@) + args + punct(">"@)
}

/// The tokens that stand for a type: a type expression, or a struct
/// definition for a built type; `None` for the types generation does not cover.
pub open spec fn type_code(dt: DataType) -> Option<Seq<TokenModel>>
    decreases dt,
{
    match dt {
        DataType::Native(nt) => native_code(nt),
        DataType::UnknownNative(_) => None,
        DataType::Built(name, value) => match native_code(value) {
            Some(body) => Some(ident("struct"@) + ident(case_converted(name_text(name), NameCase::Pascal)) + group(Delimiter::Brace, body)),
            None => None,
        },
        DataType::Other(name) => match name {
            Some(TypeName::Named(n)) => if n@ == "string"@ {
                Some(ident("String"@))
            } else if n@ == "restBuffer"@ {
                Some(generic("Vec"@, ident("u8"@)))
            } else if n@ == "UUID"@ {
                Some(ident("Uuid"@))
            } else {
                None
            },
            _ => None,
        },
    }
}

/// The tokens that stand for a native type.
pub open spec fn native_code(nt: NativeType) -> Option<Seq<TokenModel>>
    decreases nt,
{
    match nt {
        NativeType::VarInt => Some(ident("VarInt"@)),
        NativeType::PString(count_type) => match native_code(*count_type) {
            Some(c) => Some(generic("PString"@, c)),
            None => None,
        },
        NativeType::Bool => Some(ident("bool"@)),
        NativeType::U8 => Some(ident("u8"@)),
        NativeType::U16 => Some(ident("u16"@)),
        NativeType::U32 => Some(ident("u32"@)),
        NativeType::U64 => Some(ident("u64"@)),
        NativeType::I8 => Some(ident("i8"@)),
        NativeType::I16 => Some(ident("i16"@)),
        NativeType::I32 => Some(ident("i32"@)),
        NativeType::I64 => Some(ident("i64"@)),
        NativeType::Float32 => Some(ident("f32"@)),
        NativeType::Float64 => Some(ident("f64"@)),
        NativeType::Uuid => Some(ident("Uuid"@)),
        NativeType::Optional(inner) => match type_code(*inner) {
            Some(c) => Some(generic("Option"@, c)),
            None => None,
        },
        NativeType::Container(items) => fields_code(items@),
        NativeType::Switch { compare_to, fields, has_default } => if has_default {
            None
        } else {
            cases_code(compare_to@, fields@)
        },
        NativeType::Array(count_type, array_type) => match native_code(*count_type) {
            Some(c) => match nameless_code(*array_type) {
                Some(a) => Some(generic("Array"@, c + punct(","@) + group(Delimiter::Paren, a))),
                None => None,
            },
            None => None,
        },
        _ => None,
    }
}

/// The fields of a container: for each, its name in snake case, `:`, its
/// type and `,`.
pub open spec fn fields_code(items: Seq<(TypeName, DataType)>) -> Option<Seq<TokenModel>>
    decreases items,
{
    if items.len() == 0 {
        Some(Seq::empty())
    } else {
        match fields_code(items.drop_last()) {
            Some(before) => match type_code(items.last().1) {
                Some(t) => Some(before + ident(case_converted(name_text(items.last().0), NameCase::Snake)) + punct(":"@) + t + punct(","@)),
                None => None,
            },
            None => None,
        }
    }
}

/// An anonymous struct of a container's fields; only containers have one.
pub open spec fn nameless_code(dt: DataType) -> Option<Seq<TokenModel>>
    decreases dt,
{
    match dt {
        DataType::Native(NativeType::Container(items)) => match fields_code(items@) {
            Some(f) => Some(ident("struct"@) + group(Delimiter::Brace, f)),
            None => None,
        },
        _ => None,
    }
}

/// The arms of a switch on `compare_to`: `compare_to::case => type,`, each case
/// an anonymous struct.
pub open spec fn cases_code(compare_to: Seq<char>, items: Seq<(String, SwitchCase)>) -> Option<Seq<TokenModel>>
    decreases items,
{
    if items.len() == 0 {
        Some(Seq::empty())
    } else {
        match cases_code(compare_to, items.drop_last()) {
            Some(before) => match items.last().1 {
                SwitchCase::Type(pdt) => match nameless_code(*pdt) {
                    Some(t) => Some(before + ident(compare_to) + punct("::"@) + ident(items.last().0@) + punct("=>"@) + t + punct(","@)),
                    None => None,
                },
                _ => None,
            },
            None => None,
        }
    }
}


/// The tokens are those of `t`, or there are none where `t` has none.
pub open spec fn tokens_are(r: Option<Vec<Token>>, t: Option<Seq<TokenModel>>) -> bool {
    match t {
        Some(s) => r matches Some(v) && v.deep_view() == s,
        None => r is None,
    }
}

/// A single token.
fn one(t: Token) -> (r: Vec<Token>)
    ensures
        r.deep_view() == seq![t.deep_view()],
{
    let ghost g = t.deep_view();
    let mut v = Vec::new();
    v.push(t);
    assert(v.deep_view() =~= seq![g]);
    v
}

/// Moves the tokens of `more` to the end of `out`.
fn extend(out: &mut Vec<Token>, more: Vec<Token>)
    ensures
        final(out).deep_view() == old(out).deep_view() + more.deep_view(),
{
    let mut more = more;
    let ghost a = out.deep_view();
    let ghost b = more.deep_view();
    out.append(&mut more);
    assert(out.deep_view() =~= a + b);
}

fn ident_tokens(s: &str) -> (r: Vec<Token>)
    ensures
        r.deep_view() == ident(s@),
{
    one(Token::Ident(String::from_str(s)))
}

fn punct_tokens(s: &str) -> (r: Vec<Token>)
    ensures
        r.deep_view() == punct(s@),
{
    one(Token::Punct(String::from_str(s)))
}

fn group_tokens(d: Delimiter, inner: Vec<Token>) -> (r: Vec<Token>)
    ensures
        r.deep_view() == group(d, inner.deep_view()),
{
    let mut out = one(Token::Open(d));
    extend(&mut out, inner);
    extend(&mut out, one(Token::Close(d)));
    out
}

fn generic_tokens(name: &str, args: Vec<Token>) -> (r: Vec<Token>)
    ensures
        r.deep_view() == generic(name@, args.deep_view()),
{
    let mut out = ident_tokens(name);
    extend(&mut out, punct_tokens("<"));
    extend(&mut out, args);
    extend(&mut out, punct_tokens(">"));
    out
}

/// The text of a field name.
fn type_name_text(t: &TypeName) -> (r: String)
    ensures
        r@ == name_text(*t),
{
    match t {
        TypeName::Anonymous => String::from_str("Anonymous"),
        TypeName::Named(n) => n.clone(),
    }
}

/// Where the fields of a prefix have no tokens, the fields of the whole have none.
proof fn lemma_fields_prefix_none(items: Seq<(TypeName, DataType)>, j: int)
    requires
        0 <= j <= items.len(),
        fields_code(items.take(j)) is None,
    ensures
        fields_code(items) is None,
    decreases items.len(),
{
    if j < items.len() {
        assert(items.drop_last().take(j) =~= items.take(j));
        lemma_fields_prefix_none(items.drop_last(), j);
    } else {
        assert(items.take(j) =~= items);
    }
}

/// Where the cases of a prefix have no tokens, the cases of the whole have none.
proof fn lemma_cases_prefix_none(compare_to: Seq<char>, items: Seq<(String, SwitchCase)>, j: int)
    requires
        0 <= j <= items.len(),
        cases_code(compare_to, items.take(j)) is None,
    ensures
        cases_code(compare_to, items) is None,
    decreases items.len(),
{
    if j < items.len() {
        assert(items.drop_last().take(j) =~= items.take(j));
        lemma_cases_prefix_none(compare_to, items.drop_last(), j);
    } else {
        assert(items.take(j) =~= items);
    }
}

/// The tokens of a packet data type: a type expression, or the definition of a
/// built type; `None` for the types that generation does not cover.
pub fn pdt_to_code(dt: &DataType) -> (r: Option<Vec<Token>>)
    ensures
        tokens_are(r, type_code(*dt)),
    decreases dt,
{
    match dt {
        DataType::Native(nt) => native_type_to_token_stream(nt),
        DataType::UnknownNative(_) => None,
        DataType::Built(name, value) => match native_type_to_token_stream(value) {
            Some(body) => {
                let text = type_name_text(name);
                let mut out = ident_tokens("struct");
                extend(&mut out, one(Token::Ident(convert_case(text.as_str(), NameCase::Pascal))));
                extend(&mut out, group_tokens(Delimiter::Brace, body));
                Some(out)
            },
            None => None,
        },
        DataType::Other(name) => match name {
            Some(TypeName::Named(n)) => {
                if *n == String::from_str("string") {
                    Some(ident_tokens("String"))
                } else if *n == String::from_str("restBuffer") {
                    Some(generic_tokens("Vec", ident_tokens("u8")))
                } else if *n == String::from_str("UUID") {
                    Some(ident_tokens("Uuid"))
                } else {
                    None
                }
            },
            _ => None,
        },
    }
}

/// The tokens of a native type.
pub fn native_type_to_token_stream(nt: &NativeType) -> (r: Option<Vec<Token>>)
    ensures
        tokens_are(r, native_code(*nt)),
    decreases nt,
{
    match nt {
        NativeType::VarInt => Some(ident_tokens("VarInt")),
        NativeType::PString(count_type) => match native_type_to_token_stream(count_type) {
            Some(c) => Some(generic_tokens("PString", c)),
            None => None,
        },
        NativeType::Bool => Some(ident_tokens("bool")),
        NativeType::U8 => Some(ident_tokens("u8")),
        NativeType::U16 => Some(ident_tokens("u16")),
        NativeType::U32 => Some(ident_tokens("u32")),
        NativeType::U64 => Some(ident_tokens("u64")),
        NativeType::I8 => Some(ident_tokens("i8")),
        NativeType::I16 => Some(ident_tokens("i16")),
        NativeType::I32 => Some(ident_tokens("i32")),
        NativeType::I64 => Some(ident_tokens("i64")),
        NativeType::Float32 => Some(ident_tokens("f32")),
        NativeType::Float64 => Some(ident_tokens("f64")),
        NativeType::Uuid => Some(ident_tokens("Uuid")),
        NativeType::Optional(inner) => match pdt_to_code(inner) {
            Some(c) => Some(generic_tokens("Option", c)),
            None => None,
        },
        NativeType::Container(items) => fields_tokens(items),
        NativeType::Switch { compare_to, fields, has_default } => {
            if *has_default {
                None
            } else {
                cases_tokens(compare_to, fields)
            }
        },
        NativeType::Array(count_type, array_type) => match native_type_to_token_stream(count_type) {
            Some(c) => match nameless_pdt_to_code(array_type) {
                Some(a) => {
                    let mut args = c;
                    extend(&mut args, punct_tokens(","));
                    extend(&mut args, group_tokens(Delimiter::Paren, a));
                    Some(generic_tokens("Array", args))
                },
                None => None,
            },
            None => None,
        },
        _ => None,
    }
}

/// The fields of a container, each as `name: type,` with the name in snake case.
fn fields_tokens(items: &Vec<(TypeName, DataType)>) -> (r: Option<Vec<Token>>)
    ensures
        tokens_are(r, fields_code(items@)),
    decreases items,
{
    let mut out: Vec<Token> = Vec::new();
    assert(items@.take(0) =~= Seq::<(TypeName, DataType)>::empty());
    for i in 0..items.len()
        invariant
            fields_code(items@.take(i as int)) == Some(out.deep_view()),
    {
        proof {
            assert(items@.take(i + 1).drop_last() =~= items@.take(i as int));
            assert(items@.take(i + 1).last() == items@[i as int]);
        }
        let item = &items[i];
        let t = match pdt_to_code(&item.1) {
            Some(t) => t,
            None => {
                proof { lemma_fields_prefix_none(items@, i + 1); }
                return None;
            },
        };
        let text = type_name_text(&item.0);
        extend(&mut out, one(Token::Ident(convert_case(text.as_str(), NameCase::Snake))));
        extend(&mut out, punct_tokens(":"));
        extend(&mut out, t);
        extend(&mut out, punct_tokens(","));
    }
    assert(items@.take(items@.len() as int) =~= items@);
    Some(out)
}

/// An anonymous struct of a container's fields.
pub fn nameless_pdt_to_code(dt: &DataType) -> (r: Option<Vec<Token>>)
    ensures
        tokens_are(r, nameless_code(*dt)),
    decreases dt,
{
    match dt {
        DataType::Native(NativeType::Container(items)) => match fields_tokens(items) {
            Some(f) => {
                let mut out = ident_tokens("struct");
                extend(&mut out, group_tokens(Delimiter::Brace, f));
                Some(out)
            },
            None => None,
        },
        _ => None,
    }
}

/// The arms of a switch, each as `compare_to::case => struct { .. },`.
fn cases_tokens(compare_to: &String, items: &Vec<(String, SwitchCase)>) -> (r: Option<Vec<Token>>)
    ensures
        tokens_are(r, cases_code(compare_to@, items@)),
    decreases items,
{
    let mut out: Vec<Token> = Vec::new();
    assert(items@.take(0) =~= Seq::<(String, SwitchCase)>::empty());
    for i in 0..items.len()
        invariant
            cases_code(compare_to@, items@.take(i as int)) == Some(out.deep_view()),
    {
        proof {
            assert(items@.take(i + 1).drop_last() =~= items@.take(i as int));
            assert(items@.take(i + 1).last() == items@[i as int]);
        }
        let item = &items[i];
        let t = match &item.1 {
            SwitchCase::Type(pdt) => nameless_pdt_to_code(pdt),
            _ => None,
        };
        let t = match t {
            Some(t) => t,
            None => {
                proof { lemma_cases_prefix_none(compare_to@, items@, i + 1); }
                return None;
            },
        };
        extend(&mut out, one(Token::Ident(compare_to.clone())));
        extend(&mut out, punct_tokens("::"));
        extend(&mut out, one(Token::Ident(item.0.clone())));
        extend(&mut out, punct_tokens("=>"));
        extend(&mut out, t);
        extend(&mut out, punct_tokens(","));
    }
    assert(items@.take(items@.len() as int) =~= items@);
    Some(out)
}

} // verus!
