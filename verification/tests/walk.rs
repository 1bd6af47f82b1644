use code_generator::document::Document;
use code_generator::generator::FileWriter;
use code_generator::section::Section;
use code_generator::walker::{activated, find_document, no_marks, GenError};

const PREAMBLE: &str = "use yaserde::{{YaSerialize, YaDeserialize}};\n            use std::io::{Read, Write};\n            use soap_client::soap::Header;\n            use soap_client::envelop;\n            \n            ";
const FOOTER: &str = "}\n\n";
const DERIVE: &str = "#[derive(Debug, Default, YaSerialize, YaDeserialize)]\n";
const XS: &str = "xmlns:xs=\"http://www.w3.org/2001/XMLSchema\"";

fn header(module: &str) -> String {
    format!(
        "pub mod {} {{\nuse yaserde::{{{{YaSerialize, YaDeserialize}}}};\n\nuse super::*;\n\n",
        module
    )
}

fn empty(module: &str) -> String {
    format!("{}{}", header(module), FOOTER)
}

fn doc(path: &str, text: &str) -> Document {
    Document::parse(path.to_string(), text).unwrap()
}

fn run(entry: &str, files: &Vec<Document>) -> Result<Vec<String>, GenError> {
    let mut fw = FileWriter::default();
    fw.process_file("base", entry, files)
}

fn greeter_wsdl() -> String {
    format!(
        "<?xml version=\"1.0\"?>
<definitions xmlns=\"http://schemas.xmlsoap.org/wsdl/\" {} xmlns:tns=\"urn:greet\" xmlns:soap=\"http://schemas.xmlsoap.org/wsdl/soap/\" targetNamespace=\"urn:greet\">
  <types>
    <xs:schema targetNamespace=\"urn:greet\">
      <xs:element name=\"sayHello\">
        <xs:complexType>
          <xs:sequence>
            <xs:element name=\"name\" type=\"xs:string\"/>
          </xs:sequence>
        </xs:complexType>
      </xs:element>
      <xs:element name=\"greeting\" type=\"xs:string\"/>
    </xs:schema>
  </types>
  <message name=\"SayHelloRequest\">
    <part name=\"parameters\" element=\"tns:sayHello\"/>
  </message>
  <message name=\"SayHelloResponse\">
    <part name=\"parameters\" element=\"tns:greeting\"/>
  </message>
  <portType name=\"Greeter\">
    <operation name=\"sayHello\">
      <input name=\"SayHelloRequest\" message=\"tns:SayHelloRequest\"/>
      <output name=\"SayHelloResponse\" message=\"tns:SayHelloResponse\"/>
    </operation>
  </portType>
  <binding name=\"GreeterSoap\" type=\"tns:Greeter\">
    <soap:binding style=\"document\"/>
  </binding>
</definitions>",
        XS
    )
}

#[test]
fn one_top_level_element_yields_one_alias() {
    let files = vec![doc(
        "base/entry.xsd",
        &format!("<xs:schema {}><xs:element name=\"Foo\" type=\"xs:string\"/></xs:schema>", XS),
    )];
    let out = run("entry.xsd", &files).unwrap();
    assert_eq!(out.len(), 5);
    assert_eq!(out[0], PREAMBLE);
    assert_eq!(out[1], format!("{}pub type Foo = String;\n\n{}", header("types"), FOOTER));
    assert_eq!(out[2], empty("messages"));
    assert_eq!(out[3], empty("ports"));
    assert_eq!(out[4], empty("bindings"));
}

#[test]
fn one_element_in_the_types_of_a_description_yields_one_alias() {
    let files = vec![doc(
        "base/service.wsdl",
        "<definitions><types><xs:schema xmlns:xs='http://www.w3.org/2001/XMLSchema'><xs:element name='Foo' type='xs:string'/></xs:schema></types></definitions>",
    )];
    let out = run("service.wsdl", &files).unwrap();
    assert_eq!(out[0], PREAMBLE);
    assert_eq!(out[1], format!("{}pub type Foo = String;\n\n{}", header("types"), FOOTER));
    assert_eq!(out[1].matches("Foo").count(), 1);
    assert_eq!(out[2], empty("messages"));
    assert_eq!(out[3], empty("ports"));
    assert_eq!(out[4], empty("bindings"));
}

#[test]
fn reading_for_output_leaves_nothing_behind() {
    let mut fw = FileWriter::default();
    fw.check_section(Section::PortTypes);
    fw.write("trait;".to_string());
    fw.delayed_write("alias;".to_string());
    fw.check_section(Section::Types);
    fw.inc_level();
    fw.write("outer;".to_string());
    fw.inc_level();
    fw.write("inner;".to_string());
    let out = fw.read_for_output();
    assert_eq!(out[1], format!("{}inner;outer;{}", header("types"), FOOTER));
    assert_eq!(out[3], format!("{}trait;alias;{}", header("ports"), FOOTER));
}

#[test]
fn one_operation_yields_one_method_and_two_aliases() {
    let files = vec![doc(
        "base/greeter.wsdl",
        "<definitions xmlns=\"http://schemas.xmlsoap.org/wsdl/\" xmlns:tns=\"urn:greet\">
  <portType name=\"Greeter\">
    <operation name=\"sayHello\">
      <input name=\"SayHelloRequest\" message=\"tns:SayHelloRequest\"/>
      <output name=\"SayHelloResponse\" message=\"tns:SayHelloResponse\"/>
    </operation>
  </portType>
</definitions>",
    )];
    let out = run("greeter.wsdl", &files).unwrap();
    let expected = format!(
        "{}{}{}{}{}{}{}",
        header("ports"),
        "pub trait Greeter {\n",
        "\tfn say_hello (&self, say_hello_request: SayHelloRequest) -> SayHelloResponse;\n",
        "}\n\n",
        "pub type SayHelloRequest = messages::SayHelloRequest;\n",
        "pub type SayHelloResponse = messages::SayHelloResponse;\n",
        FOOTER
    );
    assert_eq!(out[3], expected);
    assert_eq!(out[0], PREAMBLE);
    assert_eq!(out[1], empty("types"));
    assert_eq!(out[2], empty("messages"));
    assert_eq!(out[4], empty("bindings"));
}

#[test]
fn a_service_description_fills_every_section() {
    let files = vec![doc("base/greeter.wsdl", &greeter_wsdl())];
    let out = run("greeter.wsdl", &files).unwrap();
    assert_eq!(out[0], PREAMBLE);
    let types = format!(
        "{}{}{}{}{}{}{}",
        header("types"),
        DERIVE,
        "#[yaserde(prefix = \"ns\", namespace = \"ns: urn:greet\", rename = \"sayHello\", default)]\npub struct SayHello {\n",
        "\t#[yaserde(prefix = \"ns\", rename = \"name\", default)]\n\tpub name: String,\n",
        "}\n\n",
        "pub type Greeting = String;\n\n",
        FOOTER
    );
    assert_eq!(out[1], types);
    let messages = format!(
        "{}{}{}{}{}{}{}{}{}{}",
        header("messages"),
        DERIVE,
        "#[yaserde(rename = \"SayHelloRequest\", default)]\npub struct SayHelloRequest {\n",
        "\t#[yaserde(flatten)]\n\tpub parameters: types::SayHello,\n",
        "}\n\n",
        DERIVE,
        "#[yaserde(rename = \"SayHelloResponse\", default)]\npub struct SayHelloResponse {\n",
        "\t#[yaserde(flatten)]\n\tpub parameters: types::Greeting,\n",
        "}\n\n",
        FOOTER
    );
    assert_eq!(out[2], messages);
    let ports = format!(
        "{}{}{}{}{}{}{}",
        header("ports"),
        "pub trait Greeter {\n",
        "\tfn say_hello (&self, say_hello_request: SayHelloRequest) -> SayHelloResponse;\n",
        "}\n\n",
        "pub type SayHelloRequest = messages::SayHelloRequest;\n",
        "pub type SayHelloResponse = messages::SayHelloResponse;\n",
        FOOTER
    );
    assert_eq!(out[3], ports);
    let bindings = format!(
        "{}{}{}{}{}",
        header("bindings"),
        "pub struct GreeterSoap {}\n\nimpl ports::Greeter for GreeterSoap {\n",
        "}\n\n",
        "impl Default for GreeterSoap {\n\tfn default() -> Self {\n\t\tGreeterSoap{}\n\t}\n\t}\n",
        FOOTER
    );
    assert_eq!(out[4], bindings);
}

#[test]
fn two_runs_on_the_same_input_give_the_same_text() {
    let files = vec![doc("base/greeter.wsdl", &greeter_wsdl())];
    let first = run("greeter.wsdl", &files).unwrap();
    let second = run("greeter.wsdl", &files).unwrap();
    assert_eq!(first, second);
    let again = vec![doc("base/greeter.wsdl", &greeter_wsdl())];
    assert_eq!(run("greeter.wsdl", &again).unwrap(), first);
    assert!(first[1].starts_with("pub mod types {"));
    assert!(first[2].starts_with("pub mod messages {"));
    assert!(first[3].starts_with("pub mod ports {"));
    assert!(first[4].starts_with("pub mod bindings {"));
}

#[test]
fn an_import_is_walked_in_place() {
    let entry = format!(
        "<xs:schema {}>
  <xs:element name=\"Before\" type=\"xs:boolean\"/>
  <xs:import namespace=\"urn:c\" schemaLocation=\"common.xsd\"/>
  <xs:import namespace=\"urn:none\"/>
  <xs:element name=\"Top\" type=\"xs:string\"/>
  <xs:complexType name=\"Box\">
    <xs:sequence><xs:element name=\"w\" type=\"xs:int\"/></xs:sequence>
  </xs:complexType>
  <xs:complexType><xs:sequence/></xs:complexType>
</xs:schema>",
        XS
    );
    let common = format!(
        "<xs:schema {} targetNamespace=\"urn:c\"><xs:element name=\"Shared\" type=\"xs:int\"/></xs:schema>",
        XS
    );
    let files = vec![doc("base/common.xsd", &common), doc("base/entry.xsd", &entry)];
    let out = run("entry.xsd", &files).unwrap();
    let types = format!(
        "{}{}{}{}{}{}{}{}{}",
        header("types"),
        "pub type Before = bool;\n\n",
        "pub type Shared = u64;\n\n",
        "pub type Top = String;\n\n",
        DERIVE,
        "#[yaserde(prefix = \"ns\", namespace = \"ns: urn:c\", rename = \"Box\", default)]\npub struct Box {\n",
        "\t#[yaserde(prefix = \"ns\", rename = \"w\", default)]\n\tpub w: u64,\n",
        "}\n\n",
        FOOTER
    );
    assert_eq!(out[1], types);
}

#[test]
fn a_document_imported_twice_is_walked_twice() {
    let entry = format!(
        "<xs:schema {}><xs:import schemaLocation=\"c.xsd\"/><xs:import schemaLocation=\"c.xsd\"/></xs:schema>",
        XS
    );
    let c = format!("<xs:schema {}><xs:element name=\"C\" type=\"xs:short\"/></xs:schema>", XS);
    let files = vec![doc("base/entry.xsd", &entry), doc("base/c.xsd", &c)];
    let out = run("entry.xsd", &files).unwrap();
    assert_eq!(out[1], format!("{}pub type C = u8;\n\npub type C = u8;\n\n{}", header("types"), FOOTER));
}

#[test]
fn a_missing_entry_document_is_reported() {
    let files: Vec<Document> = Vec::new();
    match run("entry.xsd", &files) {
        Err(GenError::MissingFile(path)) => assert_eq!(path, "base/entry.xsd"),
        other => panic!("unexpected outcome: {:?}", other),
    }
}

#[test]
fn a_missing_import_is_reported() {
    let entry = format!(
        "<xs:schema {}><xs:element name=\"A\" type=\"xs:string\"/><xs:import schemaLocation=\"sub/common.xsd\"/></xs:schema>",
        XS
    );
    let files = vec![doc("base/entry.xsd", &entry), doc("base/common.xsd", &entry)];
    match run("entry.xsd", &files) {
        Err(GenError::MissingFile(path)) => assert_eq!(path, "base/sub/common.xsd"),
        other => panic!("unexpected outcome: {:?}", other),
    }
}

#[test]
fn a_document_that_imports_itself_is_reported() {
    let a = format!("<xs:schema {}><xs:import schemaLocation=\"a.xsd\"/></xs:schema>", XS);
    let files = vec![doc("base/a.xsd", &a)];
    match run("a.xsd", &files) {
        Err(GenError::ImportCycle(path)) => assert_eq!(path, "base/a.xsd"),
        other => panic!("unexpected outcome: {:?}", other),
    }
}

#[test]
fn an_import_cycle_through_another_document_is_reported() {
    let a = format!("<xs:schema {}><xs:import schemaLocation=\"b.xsd\"/></xs:schema>", XS);
    let b = format!("<xs:schema {}><xs:import schemaLocation=\"a.xsd\"/></xs:schema>", XS);
    let files = vec![doc("base/a.xsd", &a), doc("base/b.xsd", &b)];
    match run("a.xsd", &files) {
        Err(GenError::ImportCycle(path)) => assert_eq!(path, "base/a.xsd"),
        other => panic!("unexpected outcome: {:?}", other),
    }
    match run("b.xsd", &files) {
        Err(GenError::ImportCycle(path)) => assert_eq!(path, "base/b.xsd"),
        other => panic!("unexpected outcome: {:?}", other),
    }
}

#[test]
fn documents_can_be_handed_in_as_they_are_asked_for() {
    let entry = format!(
        "<xs:schema {}><xs:import schemaLocation=\"one.xsd\"/><xs:import schemaLocation=\"two.xsd\"/></xs:schema>",
        XS
    );
    let one = format!(
        "<xs:schema {}><xs:import schemaLocation=\"two.xsd\"/><xs:element name=\"One\" type=\"xs:int\"/></xs:schema>",
        XS
    );
    let two = format!("<xs:schema {}><xs:element name=\"Two\" type=\"xs:int\"/></xs:schema>", XS);
    let disk = vec![("base/entry.xsd", entry), ("base/one.xsd", one), ("base/two.xsd", two)];
    let mut files: Vec<Document> = Vec::new();
    let mut asked: Vec<String> = Vec::new();
    let out = loop {
        match run("entry.xsd", &files) {
            Ok(out) => break out,
            Err(GenError::MissingFile(path)) => {
                let text = &disk.iter().find(|(p, _)| *p == path).unwrap().1;
                files.push(doc(&path, text));
                asked.push(path);
            }
            Err(other) => panic!("unexpected outcome: {:?}", other),
        }
    };
    assert_eq!(asked, vec!["base/entry.xsd", "base/one.xsd", "base/two.xsd"]);
    assert_eq!(
        out[1],
        format!(
            "{}pub type Two = u64;\n\npub type One = u64;\n\npub type Two = u64;\n\n{}",
            header("types"),
            FOOTER
        )
    );
}

#[test]
fn the_first_document_of_a_path_is_used() {
    let first = format!("<xs:schema {}><xs:element name=\"First\" type=\"xs:int\"/></xs:schema>", XS);
    let second = format!("<xs:schema {}><xs:element name=\"Second\" type=\"xs:int\"/></xs:schema>", XS);
    let files = vec![doc("base/e.xsd", &first), doc("base/e.xsd", &second)];
    assert_eq!(find_document(&files, "base/e.xsd"), Some(0));
    assert_eq!(find_document(&files, "base/f.xsd"), None);
    let out = run("e.xsd", &files).unwrap();
    assert_eq!(out[1], format!("{}pub type First = u64;\n\n{}", header("types"), FOOTER));
}

#[test]
fn marks_are_set_one_at_a_time() {
    let none = no_marks(3);
    assert_eq!(none, vec![false, false, false]);
    let one = activated(&none, 1);
    assert_eq!(one, vec![false, true, false]);
    assert_eq!(activated(&one, 0), vec![true, true, false]);
    assert_eq!(activated(&one, 1), vec![false, true, false]);
    assert!(no_marks(0).is_empty());
}

#[test]
fn schema_and_definitions_are_found_at_any_depth() {
    let files = vec![doc(
        "base/odd.xml",
        &format!(
            "<wrapper {}><inner><xs:schema><xs:element name=\"Deep\" type=\"xs:long\"/></xs:schema></inner><xs:element name=\"Stray\" type=\"xs:long\"/></wrapper>",
            XS
        ),
    )];
    let out = run("odd.xml", &files).unwrap();
    assert_eq!(out[1], format!("{}pub type Deep = u64;\n\n{}", header("types"), FOOTER));
}

#[test]
fn text_is_routed_to_the_current_section() {
    let mut fw = FileWriter::default();
    assert_eq!(fw.current_section(), Section::Root);
    assert_eq!(fw.level(), 0);
    fw.write("root;".to_string());
    fw.check_section(Section::Types);
    assert_eq!(fw.current_section(), Section::Types);
    fw.write("types;".to_string());
    fw.delayed_write("later;".to_string());
    fw.check_section(Section::Messages);
    fw.write("messages;".to_string());
    fw.flush_delayed_buffer();
    fw.check_section(Section::Types);
    fw.write("more;".to_string());
    fw.flush_delayed_buffer();
    fw.check_section(Section::Bindings);
    fw.inc_level();
    assert_eq!(fw.level(), 1);
    fw.write("nested;".to_string());
    fw.set_level(0);
    fw.write("flat;".to_string());
    let out = fw.read_for_output();
    assert_eq!(out[0], "root;");
    assert_eq!(out[1], format!("{}types;more;later;{}", header("types"), FOOTER));
    assert_eq!(out[2], format!("{}messages;{}", header("messages"), FOOTER));
    assert_eq!(out[3], empty("ports"));
    assert_eq!(out[4], format!("{}nested;flat;{}", header("bindings"), FOOTER));
}

#[test]
fn seen_types_belong_to_their_section() {
    let mut fw = FileWriter::default();
    fw.check_section(Section::PortTypes);
    fw.seen_type("alias".to_string());
    assert!(fw.have_seen_type("alias".to_string()));
    fw.check_section(Section::Bindings);
    assert!(!fw.have_seen_type("alias".to_string()));
    fw.reset_defined_types();
    fw.check_section(Section::PortTypes);
    assert!(fw.have_seen_type("alias".to_string()));
    fw.reset_defined_types();
    assert!(!fw.have_seen_type("alias".to_string()));
}

#[test]
fn the_settings_of_a_run_can_be_read_back() {
    let mut fw = FileWriter::default();
    assert_eq!(fw.base_path(), "");
    assert_eq!(fw.target_name_space(), None);
    assert!(!fw.has_target_name_space());
    fw.set_base_path("some/dir".to_string());
    fw.set_target_name_space(Some("urn:t".to_string()));
    assert_eq!(fw.base_path(), "some/dir");
    assert_eq!(fw.target_name_space(), Some("urn:t"));
    assert!(fw.has_target_name_space());
    fw.set_target_name_space(None);
    assert_eq!(fw.target_name_space(), None);
    fw.print_header();
    assert_eq!(fw.read_for_output()[0], PREAMBLE);
}
