use code_generator::generator::FileWriter;
use code_generator::section::Section;
use code_generator::xml::{XmlAttribute, XmlNode};

const TYPES_HEADER: &str =
    "pub mod types {\nuse yaserde::{{YaSerialize, YaDeserialize}};\n\nuse super::*;\n\n";
const FOOTER: &str = "}\n\n";
const DERIVE: &str = "#[derive(Debug, Default, YaSerialize, YaDeserialize)]\n";

fn el(name: &str, attributes: &[(&str, &str)], children: Vec<XmlNode>) -> XmlNode {
    XmlNode {
        element: true,
        name: name.to_string(),
        attributes: attributes
            .iter()
            .map(|(n, v)| XmlAttribute { name: n.to_string(), value: v.to_string() })
            .collect(),
        children,
    }
}

fn text() -> XmlNode {
    XmlNode { element: false, name: String::new(), attributes: Vec::new(), children: Vec::new() }
}

fn types_writer() -> FileWriter {
    let mut fw = FileWriter::default();
    fw.check_section(Section::Types);
    fw
}

fn types_text(fw: &mut FileWriter) -> String {
    let out = fw.read_for_output();
    assert_eq!(out.len(), 5);
    out[1].clone()
}

fn body(text: &str) -> String {
    format!("{}{}{}", TYPES_HEADER, text, FOOTER)
}

#[test]
fn a_top_level_element_is_an_alias() {
    let mut fw = types_writer();
    fw.print_element(&el("element", &[("name", "Foo"), ("type", "xs:string")], vec![]));
    assert_eq!(types_text(&mut fw), body("pub type Foo = String;\n\n"));
}

#[test]
fn an_alias_takes_the_pascal_case_of_both_names() {
    let mut fw = types_writer();
    fw.print_element(&el("element", &[("name", "orderId"), ("type", "tns:order_key")], vec![]));
    assert_eq!(types_text(&mut fw), body("pub type OrderId = OrderKey;\n\n"));
}

#[test]
fn an_element_without_name_or_type_writes_nothing() {
    let mut fw = types_writer();
    fw.print_element(&el("element", &[("type", "xs:string")], vec![]));
    fw.print_element(&el("element", &[("name", "Foo")], vec![]));
    fw.print_element(&text());
    assert_eq!(types_text(&mut fw), body(""));
}

#[test]
fn max_occurs_of_one_still_repeats_the_field() {
    let mut fw = types_writer();
    let complex = el(
        "complexType",
        &[("name", "Bag")],
        vec![el(
            "sequence",
            &[],
            vec![el("element", &[("name", "item"), ("type", "xs:int"), ("maxOccurs", "1")], vec![])],
        )],
    );
    fw.print_complex_element(&complex, "Bag");
    assert_eq!(
        types_text(&mut fw),
        body(&format!(
            "{}#[yaserde(rename = \"Bag\", default)]\npub struct Bag {{\n\t#[yaserde(rename = \"item\", default)]\n\tpub item: Vec<u64>,\n}}\n\n",
            DERIVE
        ))
    );
}

#[test]
fn fields_are_plain_optional_or_repeated() {
    let mut fw = types_writer();
    let complex = el(
        "complexType",
        &[],
        vec![
            text(),
            el(
                "sequence",
                &[],
                vec![
                    text(),
                    el("element", &[("name", "plainField"), ("type", "xs:string")], vec![]),
                    el("element", &[("name", "maybe"), ("type", "xs:decimal"), ("nillable", "false")], vec![]),
                    el("element", &[("name", "many"), ("type", "xs:boolean"), ("maxOccurs", "unbounded")], vec![]),
                    el(
                        "element",
                        &[("name", "both"), ("type", "tns:thing"), ("nillable", "true"), ("maxOccurs", "3")],
                        vec![],
                    ),
                    el("element", &[("name", "type"), ("type", "xs:short")], vec![]),
                    text(),
                ],
            ),
        ],
    );
    fw.print_complex_element(&complex, "fieldKinds");
    let expected = format!(
        "{}{}{}{}{}{}{}{}",
        DERIVE,
        "#[yaserde(rename = \"fieldKinds\", default)]\npub struct FieldKinds {\n",
        "\t#[yaserde(rename = \"plainField\", default)]\n\tpub plain_field: String,\n",
        "\t#[yaserde(rename = \"maybe\", default)]\n\tpub maybe: Option<f64>,\n",
        "\t#[yaserde(rename = \"many\", default)]\n\tpub many: Vec<bool>,\n",
        "\t#[yaserde(rename = \"both\", default)]\n\tpub both: Vec<Thing>,\n",
        "\t#[yaserde(rename = \"type\", default)]\n\tpub rs_type: u8,\n",
        "}\n\n"
    );
    assert_eq!(types_text(&mut fw), body(&expected));
}

#[test]
fn a_target_namespace_prefixes_records_and_fields() {
    let mut fw = types_writer();
    fw.set_target_name_space(Some("urn:example".to_string()));
    let complex = el(
        "complexType",
        &[],
        vec![el("sequence", &[], vec![el("element", &[("name", "id"), ("type", "xs:long")], vec![])])],
    );
    fw.print_complex_element(&complex, "Order");
    let expected = format!(
        "{}{}{}{}",
        DERIVE,
        "#[yaserde(prefix = \"ns\", namespace = \"ns: urn:example\", rename = \"Order\", default)]\npub struct Order {\n",
        "\t#[yaserde(prefix = \"ns\", rename = \"id\", default)]\n\tpub id: u64,\n",
        "}\n\n"
    );
    assert_eq!(types_text(&mut fw), body(&expected));
}

#[test]
fn a_nested_record_stands_before_the_record_that_holds_it() {
    let mut fw = types_writer();
    let inner = el(
        "element",
        &[("name", "inner")],
        vec![el(
            "complexType",
            &[],
            vec![el(
                "sequence",
                &[],
                vec![el("element", &[("name", "deep"), ("type", "xs:date"), ("nillable", "true")], vec![])],
            )],
        )],
    );
    let outer = el(
        "element",
        &[("name", "outer")],
        vec![el(
            "complexType",
            &[],
            vec![el(
                "sequence",
                &[],
                vec![
                    el("element", &[("name", "before"), ("type", "xs:string")], vec![]),
                    inner,
                    el("element", &[("name", "after"), ("type", "xs:integer")], vec![]),
                ],
            )],
        )],
    );
    fw.print_element(&outer);
    assert_eq!(fw.level(), 0);
    let expected = format!(
        "{}{}{}{}{}{}{}{}{}",
        DERIVE,
        "#[yaserde(rename = \"inner\", default)]\npub struct Inner {\n",
        "\t#[yaserde(rename = \"deep\", default)]\n\tpub deep: Option<SystemTime>,\n",
        "}\n\n",
        DERIVE,
        "#[yaserde(rename = \"outer\", default)]\npub struct Outer {\n",
        "\t#[yaserde(rename = \"before\", default)]\n\tpub before: String,\n",
        "\t#[yaserde(rename = \"after\", default)]\n\tpub after: u64,\n",
        "}\n\n"
    );
    assert_eq!(types_text(&mut fw), body(&expected));
}

#[test]
fn an_extension_is_a_flattened_base_and_its_own_fields() {
    let mut fw = types_writer();
    let complex = el(
        "complexType",
        &[("name", "Derived")],
        vec![el(
            "complexContent",
            &[],
            vec![el(
                "extension",
                &[("base", "tns:BaseType")],
                vec![el(
                    "sequence",
                    &[],
                    vec![el("element", &[("name", "extra"), ("type", "xs:string")], vec![])],
                )],
            )],
        )],
    );
    fw.print_complex_element(&complex, "Derived");
    let expected = format!(
        "{}{}{}{}{}{}",
        DERIVE,
        "#[yaserde(rename = \"Derived\", default)]\npub struct Derived {\n",
        "\t#[yaserde(flatten)]\n",
        "\tpub base_type: BaseType,\n",
        "\t#[yaserde(rename = \"extra\", default)]\n\tpub extra: String,\n",
        "}\n\n"
    );
    assert_eq!(types_text(&mut fw), body(&expected));
}

#[test]
fn an_extension_without_base_keeps_the_flatten_line() {
    let mut fw = types_writer();
    fw.inc_level();
    fw.print_complex_content(&el("complexContent", &[], vec![el("extension", &[], vec![])]));
    fw.print_extension(&el("extension", &[("base", "xs:string")], vec![]));
    fw.dec_level();
    assert_eq!(types_text(&mut fw), body("\t#[yaserde(flatten)]\n\tpub string: String,\n"));
}

#[test]
fn a_sequence_writes_every_child_with_a_name() {
    let mut fw = types_writer();
    fw.inc_level();
    fw.print_sequence(&el(
        "sequence",
        &[],
        vec![
            el("element", &[("name", "a"), ("type", "xs:int")], vec![]),
            el("any", &[], vec![]),
            el("attribute", &[("name", "b"), ("type", "xs:string")], vec![]),
        ],
    ));
    fw.dec_level();
    assert_eq!(
        types_text(&mut fw),
        body("\t#[yaserde(rename = \"a\", default)]\n\tpub a: u64,\n\t#[yaserde(rename = \"b\", default)]\n\tpub b: String,\n")
    );
}
