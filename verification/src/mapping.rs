//! Building the classes of a deobfuscation mapping from its records.
use vstd::prelude::*;
use vstd::string::{StrSliceExecFns, StringExecFns};
use proguard::{ProguardMapping, ProguardRecord};
use crate::codegen::{Class, Field, Method};

verus! {

/// One record of a deobfuscation mapping: a header, a class, a field or
/// method of the class before it, or a line that does not parse.
#[derive(Debug)]
pub enum MappingRecord {
    Header,
    /// The readable and the obfuscated name of a class.
    Class(String, String),
    /// The type, the readable and the obfuscated name of a field.
    Field(String, String, String),
    /// The return type, the readable and the obfuscated name, and the
    /// arguments of a method.
    Method(String, String, String, String),
    Invalid,
}

/// A mapping record as plain text values.
pub enum RecordModel {
    Header,
    Class(Seq<char>, Seq<char>),
    Field(Seq<char>, Seq<char>, Seq<char>),
    Method(Seq<char>, Seq<char>, Seq<char>, Seq<char>),
    Invalid,
}

impl DeepView for MappingRecord {
    type V = RecordModel;

    open spec fn deep_view(&self) -> RecordModel {
        match self {
            MappingRecord::Header => RecordModel::Header,
            MappingRecord::Class(o, ob) => RecordModel::Class(o@, ob@),
            MappingRecord::Field(t, o, ob) => RecordModel::Field(t@, o@, ob@),
            MappingRecord::Method(t, o, ob, a) => RecordModel::Method(t@, o@, ob@, a@),
            MappingRecord::Invalid => RecordModel::Invalid,
        }
    }
}

impl DeepView for Field {
    /// Name, type and obfuscated name.
    type V = (Seq<char>, Seq<char>, Seq<char>);

    open spec fn deep_view(&self) -> Self::V {
        (self.name@, self.field_type@, self.obfuscated_name@)
    }
}

impl DeepView for Method {
    /// Name, obfuscated name, parameters and return type.
    type V = (Seq<char>, Seq<char>, Seq<char>, Seq<char>);

    open spec fn deep_view(&self) -> Self::V {
        (self.name@, self.obfuscated_name@, self.parameters@, self.return_type@)
    }
}

/// A class as plain values: name, obfuscated name, fields and methods.
pub type ClassModel = (
    Seq<char>,
    Seq<char>,
    Seq<(Seq<char>, Seq<char>, Seq<char>)>,
    Seq<(Seq<char>, Seq<char>, Seq<char>, Seq<char>)>,
);

impl DeepView for Class {
    type V = ClassModel;

    open spec fn deep_view(&self) -> ClassModel {
        (self.name@, self.obfuscated_name@, self.fields.deep_view(), self.methods.deep_view())
    }
}

/// The records that the mapping parser reads from the text of a mapping.
pub uninterp spec fn mapping_records(source: Seq<u8>) -> Seq<RecordModel>;

/// `proguard::ProguardMapping::new` and the records of its `iter`: the records
/// the parser reads from `source`, in order, each converted to a
/// `MappingRecord` (R8 headers as headers, lines that do not parse as
/// `Invalid`). What the parser reads is left to its name.
#[verifier::external_body]
fn parse_mapping(source: &[u8]) -> (r: Vec<MappingRecord>)
    ensures
        r.deep_view() == mapping_records(source@),
{
    let mut out = Vec::new();
    for record in ProguardMapping::new(source).iter() {
        out.push(match record {
            Ok(ProguardRecord::Class { original, obfuscated }) => MappingRecord::Class(original.into(), obfuscated.into()),
            Ok(ProguardRecord::Field { ty, original, obfuscated }) => MappingRecord::Field(ty.into(), original.into(), obfuscated.into()),
            Ok(ProguardRecord::Method { ty, original, obfuscated, arguments, .. }) => MappingRecord::Method(ty.into(), original.into(), obfuscated.into(), arguments.into()),
            Ok(_) => MappingRecord::Header,
            Err(_) => MappingRecord::Invalid,
        });
    }
    out
}

/// The classes that the records describe: a class record starts a class, and
/// field and method records add to the class started last. Headers add nothing.
pub open spec fn classes_of(records: Seq<RecordModel>) -> Seq<ClassModel>
    decreases records.len(),
{
    if records.len() == 0 {
        Seq::empty()
    } else {
        let before = classes_of(records.drop_last());
        let k = before.len() - 1;
        match records.last() {
            RecordModel::Class(o, ob) => before.push((o, ob, Seq::empty(), Seq::empty())),
            RecordModel::Field(t, o, ob) => if before.len() == 0 {
                before
            } else {
                before.update(k, (before[k].0, before[k].1, before[k].2.push((o, t, ob)), before[k].3))
            },
            RecordModel::Method(t, o, ob, a) => if before.len() == 0 {
                before
            } else {
                before.update(k, (before[k].0, before[k].1, before[k].2, before[k].3.push((o, ob, a, t))))
            },
            _ => before,
        }
    }
}

/// The records make classes: every line parses, and every field and method
/// comes after a class.
pub open spec fn records_well_formed(records: Seq<RecordModel>) -> bool
    decreases records.len(),
{
    records.len() == 0 || (records_well_formed(records.drop_last()) && match records.last() {
        RecordModel::Invalid => false,
        RecordModel::Field(..) | RecordModel::Method(..) => classes_of(records.drop_last()).len() > 0,
        _ => true,
    })
}

/// Builds the classes that the records describe.
pub fn build_classes(records: &Vec<MappingRecord>) -> (r: Vec<Class>)
    requires
        records_well_formed(records.deep_view()),
    ensures
        r.deep_view() == classes_of(records.deep_view()),
{
    let ghost all = records.deep_view();
    let mut classes: Vec<Class> = Vec::new();
    assert(all.take(0) =~= Seq::<RecordModel>::empty());
    for i in 0..records.len()
        invariant
            all == records.deep_view(),
            records_well_formed(all),
            classes.deep_view() == classes_of(all.take(i as int)),
    {
        proof {
            assert(all.take(i + 1).drop_last() =~= all.take(i as int));
            assert(all.take(i + 1).last() == all[i as int]);
            lemma_well_formed_prefix(all, i + 1);
        }
        let ghost before = classes.deep_view();
        match &records[i] {
            MappingRecord::Class(readable, obfuscated) => {
                let class = Class {
                    name: readable.clone(),
                    obfuscated_name: obfuscated.clone(),
                    fields: Vec::new(),
                    methods: Vec::new(),
                };
                assert(class.fields.deep_view() =~= Seq::empty());
                assert(class.methods.deep_view() =~= Seq::empty());
                classes.push(class);
                assert(classes.deep_view() =~= before.push((readable@, obfuscated@, Seq::empty(), Seq::empty())));
            },
            MappingRecord::Field(ty, readable, obfuscated) => {
                let mut class = classes.pop().unwrap();
                let ghost c = class.deep_view();
                let ghost rest = classes.deep_view();
                class.fields.push(Field {
                    name: readable.clone(),
                    field_type: ty.clone(),
                    obfuscated_name: obfuscated.clone(),
                });
                assert(class.fields.deep_view() =~= c.2.push((readable@, ty@, obfuscated@)));
                classes.push(class);
                assert(before =~= rest.push(c));
                assert(classes.deep_view() =~= before.update(before.len() - 1, (c.0, c.1, c.2.push((readable@, ty@, obfuscated@)), c.3)));
            },
            MappingRecord::Method(ty, readable, obfuscated, arguments) => {
                let mut class = classes.pop().unwrap();
                let ghost c = class.deep_view();
                let ghost rest = classes.deep_view();
                class.methods.push(Method {
                    name: readable.clone(),
                    obfuscated_name: obfuscated.clone(),
                    parameters: arguments.clone(),
                    return_type: ty.clone(),
                });
                assert(class.methods.deep_view() =~= c.3.push((readable@, obfuscated@, arguments@, ty@)));
                classes.push(class);
                assert(before =~= rest.push(c));
                assert(classes.deep_view() =~= before.update(before.len() - 1, (c.0, c.1, c.2, c.3.push((readable@, obfuscated@, arguments@, ty@)))));
            },
            _ => {},
        }
    }
    assert(all.take(records.len() as int) =~= all);
    classes
}

/// A prefix of well-formed records is well-formed.
pub proof fn lemma_well_formed_prefix(records: Seq<RecordModel>, i: int)
    requires
        records_well_formed(records),
        0 <= i <= records.len(),
    ensures
        records_well_formed(records.take(i)),
        i > 0 ==> (records[i - 1] !is Invalid),
        i > 0 && (records[i - 1] is Field || records[i - 1] is Method) ==> classes_of(records.take(i - 1)).len() > 0,
    decreases records.len(),
{
    if i < records.len() {
        assert(records.drop_last().take(i) =~= records.take(i));
        if i > 0 {
            assert(records.drop_last().take(i - 1) =~= records.take(i - 1));
        }
        lemma_well_formed_prefix(records.drop_last(), i);
    } else {
        assert(records.take(i) =~= records);
        if i > 0 {
            assert(records.take(i - 1) =~= records.drop_last());
        }
    }
}

/// Whether the records make classes.
pub fn check_records(records: &Vec<MappingRecord>) -> (r: bool)
    ensures
        r == records_well_formed(records.deep_view()),
{
    let ghost all = records.deep_view();
    let mut ok = true;
    let mut count: usize = 0;
    assert(all.take(0) =~= Seq::<RecordModel>::empty());
    for i in 0..records.len()
        invariant
            all == records.deep_view(),
            ok == records_well_formed(all.take(i as int)),
            count == classes_of(all.take(i as int)).len(),
            count <= i,
    {
        proof {
            assert(all.take(i + 1).drop_last() =~= all.take(i as int));
            assert(all.take(i + 1).last() == all[i as int]);
        }
        match &records[i] {
            MappingRecord::Class(..) => {
                count = count + 1;
            },
            MappingRecord::Field(..) | MappingRecord::Method(..) => {
                ok = ok && count > 0;
            },
            MappingRecord::Invalid => {
                ok = false;
            },
            MappingRecord::Header => {},
        }
    }
    assert(all.take(records.len() as int) =~= all);
    ok
}

/// The classes of a mapping's text; `None` where a line does not parse or a
/// field or method comes before any class.
pub fn load_mapping(source: &[u8]) -> (r: Option<Vec<Class>>)
    ensures
        records_well_formed(mapping_records(source@)) ==> (r matches Some(c) && c.deep_view() == classes_of(mapping_records(source@))),
        !records_well_formed(mapping_records(source@)) ==> r is None,
{
    let records = parse_mapping(source);
    if check_records(&records) {
        Some(build_classes(&records))
    } else {
        None
    }
}

/// The obfuscated class name that a class file is named after: the file name
/// without its `.class` suffix.
pub open spec fn class_key_spec(class_file: Seq<char>) -> Option<Seq<char>> {
    let n = class_file.len();
    if n >= 6 && class_file.subrange(n - 6, n as int) == ".class"@ {
        Some(class_file.subrange(0, n - 6))
    } else {
        None
    }
}

/// The obfuscated class name of a class file, if it ends in `.class`.
pub fn class_key(class_file: &str) -> (r: Option<&str>)
    ensures
        match class_key_spec(class_file@) {
            Some(k) => r matches Some(s) && s@ == k,
            None => r is None,
        },
{
    proof { reveal_strlit(".class"); }
    let n = class_file.unicode_len();
    if n < 6 {
        return None;
    }
    let tail = class_file.substring_char(n - 6, n);
    let same = tail.get_char(0) == '.' && tail.get_char(1) == 'c' && tail.get_char(2) == 'l'
        && tail.get_char(3) == 'a' && tail.get_char(4) == 's' && tail.get_char(5) == 's';
    proof {
        if same {
            assert(tail@ =~= ".class"@);
        } else {
            assert(tail@ != ".class"@) by {
                if tail@ == ".class"@ {
                    assert(tail@[0] == '.' && tail@[1] == 'c' && tail@[2] == 'l');
                    assert(tail@[3] == 'a' && tail@[4] == 's' && tail@[5] == 's');
                }
            }
        }
    }
    if same {
        Some(class_file.substring_char(0, n - 6))
    } else {
        None
    }
}

/// The index of the last class whose obfuscated name is `key`.
pub open spec fn find_class_spec(classes: Seq<Class>, key: Seq<char>) -> Option<int>
    decreases classes.len(),
{
    if classes.len() == 0 {
        None
    } else if classes.last().obfuscated_name@ == key {
        Some(classes.len() - 1)
    } else {
        find_class_spec(classes.drop_last(), key)
    }
}

/// Looks a class up by its obfuscated name; of classes that share one, the
/// last is found.
pub fn find_class<'a>(classes: &'a Vec<Class>, key: &str) -> (r: Option<&'a Class>)
    ensures
        match find_class_spec(classes@, key@) {
            Some(i) => r == Some(&classes@[i]),
            None => r is None,
        },
{
    let wanted = String::from_str(key);
    let mut i = classes.len();
    assert(classes@.take(i as int) =~= classes@);
    while i > 0
        invariant
            i <= classes@.len(),
            wanted@ == key@,
            find_class_spec(classes@, key@) == find_class_spec(classes@.take(i as int), key@),
        decreases i,
    {
        let ghost prefix = classes@.take(i as int);
        if classes[i - 1].obfuscated_name == wanted {
            return Some(&classes[i - 1]);
        }
        assert(prefix.drop_last() =~= classes@.take(i - 1));
        i = i - 1;
    }
    assert(classes@.take(0) =~= Seq::<Class>::empty());
    None
}

} // verus!
