//! From schema type references to the names of generated types.

use vstd::prelude::*;
use vstd::string::*;
use inflector::cases::pascalcase::to_pascal_case;
use crate::casing::pascal_case;
use crate::generator::FileWriter;
use crate::text::str_eq;

verus! {

/// The position just behind the last `:` of `s`; 0 where `s` holds none.
pub open spec fn local_start(s: Seq<char>) -> int
    decreases s.len(),
{
    if s.len() == 0 {
        0
    } else if s.last() == ':' {
        s.len() as int
    } else {
        local_start(s.drop_last())
    }
}

/// A type reference without its namespace prefix: what follows the last
/// `:`, or the whole reference where it holds none.
pub open spec fn local_name(s: Seq<char>) -> Seq<char> {
    s.subrange(local_start(s), s.len() as int)
}

/// The schema types with a fixed target type, each with that type.
pub open spec fn mapping_table() -> Seq<(Seq<char>, Seq<char>)> {
    seq![
        ("string"@, "String"@),
        ("base64Binary"@, "String"@),
        ("decimal"@, "f64"@),
        ("integer"@, "u64"@),
        ("int"@, "u64"@),
        ("long"@, "u64"@),
        ("short"@, "u8"@),
        ("boolean"@, "bool"@),
        ("date"@, "SystemTime"@),
        ("time"@, "SystemTime"@),
    ]
}

/// The target type of the first entry at or behind `from` that is called
/// `name`.
pub open spec fn lookup(table: Seq<(Seq<char>, Seq<char>)>, name: Seq<char>, from: int) -> Option<
    Seq<char>,
>
    decreases table.len() - from,
{
    if 0 <= from < table.len() {
        if table[from].0 == name {
            Some(table[from].1)
        } else {
            lookup(table, name, from + 1)
        }
    } else {
        None
    }
}

/// The name of the generated type that a schema type reference stands for:
/// the fixed target of a type in the mapping table, the Pascal-case form of
/// the local name for any other.
pub open spec fn resolve_type(node_type: Seq<char>) -> Seq<char> {
    match lookup(mapping_table(), local_name(node_type), 0) {
        Some(target) => target,
        None => pascal_case(local_name(node_type)),
    }
}

/// A field name that is safe to use in generated code.
pub open spec fn shielded(name: Seq<char>) -> Seq<char> {
    if name == "type"@ {
        "rs_type"@
    } else {
        name
    }
}

/// Whether `s` holds no `:`.
pub open spec fn unqualified(s: Seq<char>) -> bool {
    forall|i: int| 0 <= i < s.len() ==> s[i] != ':'
}

/// Where the characters from `at` on hold no `:`, and `at` is the start or
/// lies just behind a `:`, the local name starts at `at`.
pub proof fn lemma_local_start(s: Seq<char>, at: int)
    requires
        0 <= at <= s.len(),
        at == 0 || s[at - 1] == ':',
        forall|i: int| at <= i < s.len() ==> s[i] != ':',
    ensures
        local_start(s) == at,
    decreases s.len(),
{
    if s.len() > at {
        lemma_local_start(s.drop_last(), at);
    }
}

/// The local name of a reference without a `:` is the reference; a prefix
/// and a `:` before it change nothing.
pub proof fn lemma_local_name(prefix: Seq<char>, name: Seq<char>)
    requires
        unqualified(name),
    ensures
        local_name(name) == name,
        local_name(prefix + seq![':'] + name) == name,
{
    lemma_local_start(name, 0);
    assert(name.subrange(0, name.len() as int) =~= name);
    let whole = prefix + seq![':'] + name;
    let at = (prefix.len() + 1) as int;
    assert(whole[at - 1] == ':');
    assert forall|i: int| at <= i < whole.len() implies whole[i] != ':' by {
        assert(whole[i] == name[i - at]);
    }
    lemma_local_start(whole, at);
    assert(whole.subrange(at, whole.len() as int) =~= name);
}

/// The names in the mapping table hold no `:` and differ from each other.
pub proof fn lemma_mapping_table()
    ensures
        mapping_table().len() == 10,
        forall|i: int| 0 <= i < 10 ==> unqualified(#[trigger] mapping_table()[i].0),
        forall|i: int, j: int|
            0 <= i < j < 10 ==> mapping_table()[i].0 != mapping_table()[j].0,
{
    reveal_strlit("string");
    reveal_strlit("base64Binary");
    reveal_strlit("decimal");
    reveal_strlit("integer");
    reveal_strlit("int");
    reveal_strlit("long");
    reveal_strlit("short");
    reveal_strlit("boolean");
    reveal_strlit("date");
    reveal_strlit("time");
    let t = mapping_table();
    assert(t[0].0 == "string"@);
    assert(t[1].0 == "base64Binary"@);
    assert(t[2].0 == "decimal"@);
    assert(t[3].0 == "integer"@);
    assert(t[4].0 == "int"@);
    assert(t[5].0 == "long"@);
    assert(t[6].0 == "short"@);
    assert(t[7].0 == "boolean"@);
    assert(t[8].0 == "date"@);
    assert(t[9].0 == "time"@);
    assert(t[2].0[0] == 'd' && t[3].0[0] == 'i' && t[7].0[0] == 'b');
    assert(t[5].0[0] == 'l' && t[8].0[0] == 'd' && t[9].0[0] == 't');
}

/// Every schema type of the mapping table resolves to its fixed target
/// type, with or without a namespace prefix before it, whatever the prefix.
pub proof fn lemma_primitive_resolution(prefix: Seq<char>, entry: int)
    requires
        0 <= entry < mapping_table().len(),
    ensures
        resolve_type(mapping_table()[entry].0) == mapping_table()[entry].1,
        resolve_type(prefix + seq![':'] + mapping_table()[entry].0) == mapping_table()[entry].1,
{
    lemma_mapping_table();
    let name = mapping_table()[entry].0;
    lemma_local_name(prefix, name);
    lemma_lookup_finds(entry, 0);
}

proof fn lemma_lookup_finds(entry: int, from: int)
    requires
        0 <= from <= entry < mapping_table().len(),
    ensures
        lookup(mapping_table(), mapping_table()[entry].0, from) == Some(mapping_table()[entry].1),
    decreases entry - from,
{
    lemma_mapping_table();
    if from < entry {
        lemma_lookup_finds(entry, from + 1);
    }
}

impl FileWriter {
    /// A type reference without its namespace prefix.
    pub fn split_type<'a>(&self, node_type: &'a str) -> (local: &'a str)
        ensures
            local@ == local_name(node_type@),
    {
        let len = node_type.unicode_len();
        let mut at: usize = len;
        while at > 0 && node_type.get_char(at - 1) != ':'
            invariant
                at <= len,
                len == node_type@.len(),
                forall|i: int| at <= i < len ==> node_type@[i] != ':',
            decreases at,
        {
            at = at - 1;
        }
        proof {
            lemma_local_start(node_type@, at as int);
        }
        node_type.substring_char(at, len)
    }

    /// The name of the generated type that a schema type reference stands
    /// for.
    pub fn fetch_type(&self, node_type: &str) -> (target: String)
        ensures
            target@ == resolve_type(node_type@),
    {
        let name = self.split_type(node_type);
        proof {
            reveal_with_fuel(lookup, 11);
        }
        if str_eq(name, "string") || str_eq(name, "base64Binary") {
            "String".to_string()
        } else if str_eq(name, "decimal") {
            "f64".to_string()
        } else if str_eq(name, "integer") || str_eq(name, "int") || str_eq(name, "long") {
            "u64".to_string()
        } else if str_eq(name, "short") {
            "u8".to_string()
        } else if str_eq(name, "boolean") {
            "bool".to_string()
        } else if str_eq(name, "date") || str_eq(name, "time") {
            "SystemTime".to_string()
        } else {
            to_pascal_case(name)
        }
    }

    /// A field name that is safe to use in generated code: `type`, a
    /// reserved word, becomes `rs_type`; every other name stays.
    pub fn shield_reserved_names<'a>(&self, field_name: &'a str) -> (safe: &'a str)
        ensures
            safe@ == shielded(field_name@),
    {
        if str_eq(field_name, "type") {
            "rs_type"
        } else {
            field_name
        }
    }
}

} // verus!
