use code_generator::generator::FileWriter;

#[test]
fn primitives_resolve_to_their_fixed_types() {
    let fw = FileWriter::default();
    assert_eq!(fw.fetch_type("string"), "String");
    assert_eq!(fw.fetch_type("base64Binary"), "String");
    assert_eq!(fw.fetch_type("decimal"), "f64");
    assert_eq!(fw.fetch_type("integer"), "u64");
    assert_eq!(fw.fetch_type("int"), "u64");
    assert_eq!(fw.fetch_type("long"), "u64");
    assert_eq!(fw.fetch_type("short"), "u8");
    assert_eq!(fw.fetch_type("boolean"), "bool");
    assert_eq!(fw.fetch_type("date"), "SystemTime");
    assert_eq!(fw.fetch_type("time"), "SystemTime");
}

#[test]
fn primitives_resolve_whatever_the_prefix() {
    let fw = FileWriter::default();
    assert_eq!(fw.fetch_type("xs:string"), "String");
    assert_eq!(fw.fetch_type("xsd:base64Binary"), "String");
    assert_eq!(fw.fetch_type("s:decimal"), "f64");
    assert_eq!(fw.fetch_type("xs:integer"), "u64");
    assert_eq!(fw.fetch_type("anything:int"), "u64");
    assert_eq!(fw.fetch_type("a:b:long"), "u64");
    assert_eq!(fw.fetch_type(":short"), "u8");
    assert_eq!(fw.fetch_type("xs:boolean"), "bool");
    assert_eq!(fw.fetch_type("xs:date"), "SystemTime");
    assert_eq!(fw.fetch_type("xs:time"), "SystemTime");
}

#[test]
fn other_types_resolve_to_the_pascal_case_of_their_local_name() {
    let fw = FileWriter::default();
    assert_eq!(fw.fetch_type("tns:fooBar"), "FooBar");
    assert_eq!(fw.fetch_type("foo_bar"), "FooBar");
    assert_eq!(fw.fetch_type("tns:SayHelloRequest"), "SayHelloRequest");
    assert_eq!(fw.fetch_type("xs:dateTime"), "DateTime");
    assert_eq!(fw.fetch_type("String"), "String");
}

#[test]
fn split_type_keeps_what_follows_the_last_colon() {
    let fw = FileWriter::default();
    assert_eq!(fw.split_type("xs:string"), "string");
    assert_eq!(fw.split_type("string"), "string");
    assert_eq!(fw.split_type("a:b:c"), "c");
    assert_eq!(fw.split_type("trailing:"), "");
    assert_eq!(fw.split_type(":leading"), "leading");
    assert_eq!(fw.split_type(""), "");
    assert_eq!(fw.split_type("pr\u{e9}fixe:\u{e9}t\u{e9}"), "\u{e9}t\u{e9}");
}

#[test]
fn only_the_reserved_word_is_shielded() {
    let fw = FileWriter::default();
    assert_eq!(fw.shield_reserved_names("type"), "rs_type");
    assert_eq!(fw.shield_reserved_names("types"), "types");
    assert_eq!(fw.shield_reserved_names("Type"), "Type");
    assert_eq!(fw.shield_reserved_names("name"), "name");
    assert_eq!(fw.shield_reserved_names(""), "");
}
