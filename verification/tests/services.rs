use code_generator::generator::FileWriter;
use code_generator::xml::{XmlAttribute, XmlNode};

const FOOTER: &str = "}\n\n";
const DERIVE: &str = "#[derive(Debug, Default, YaSerialize, YaDeserialize)]\n";
const ENVELOPE_HEAD: &str = "#[derive(Debug, Default, YaSerialize, YaDeserialize)]
        #[yaserde(
            root = \"Envelope\",
            namespace = \"soapenv: http://schemas.xmlsoap.org/soap/envelope/\",
            prefix = \"soapenv\"
        )]
        pub struct ";
const ENVELOPE_FIELDS: &str = "SoapEnvelope {
            #[yaserde(rename = \"encodingStyle\", prefix = \"soapenv\", attribute)]
            pub encoding_style: String,
            #[yaserde(rename = \"tns\", prefix = \"xmlns\", attribute)]
            pub tnsattr: String,
            #[yaserde(rename = \"urn\", prefix = \"xmlns\", attribute)]
            pub urnattr: Option<String>,
            #[yaserde(rename = \"xsi\", prefix = \"xmlns\", attribute)]
            pub xsiattr: String,
            #[yaserde(rename = \"Header\", prefix = \"soapenv\")]
            pub header: Option<Header>,
            #[yaserde(rename = \"Body\", prefix = \"soapenv\")]
            pub body: ";
const ENVELOPE_TAIL: &str = ",
        }
        ";

fn header(module: &str) -> String {
    format!(
        "pub mod {} {{\nuse yaserde::{{{{YaSerialize, YaDeserialize}}}};\n\nuse super::*;\n\n",
        module
    )
}

fn el(name: &str, attributes: &[(&str, &str)], children: Vec<XmlNode>) -> XmlNode {
    XmlNode {
        element: true,
        name: name.to_string(),
        attributes: attributes
            .iter()
            .map(|(n, v)| XmlAttribute { name: n.to_string(), value: v.to_string() })
            .collect(),
        children,
    }
}

fn text() -> XmlNode {
    XmlNode { element: false, name: String::new(), attributes: Vec::new(), children: Vec::new() }
}

fn section(fw: &mut FileWriter, at: usize) -> String {
    let out = fw.read_for_output();
    assert_eq!(out.len(), 5);
    out[at].clone()
}

fn records(name: &str, operation: &str) -> String {
    format!(
        "{}pub struct Soap{} {{\n\t#[yaserde(rename = \"{}\", default)]\n\tpub body: ports::{},\n}}\n{}{}{}Soap{}{}\n",
        DERIVE, name, operation, name, ENVELOPE_HEAD, name, ENVELOPE_FIELDS, name, ENVELOPE_TAIL
    )
}

#[test]
fn a_message_wraps_the_element_of_its_part() {
    let mut fw = FileWriter::default();
    fw.print_message(&el(
        "message",
        &[("name", "getOrderRequest")],
        vec![text(), el("part", &[("name", "parameters"), ("element", "tns:getOrder")], vec![]), text()],
    ));
    let expected = format!(
        "{}{}{}{}{}{}",
        header("messages"),
        DERIVE,
        "#[yaserde(rename = \"getOrderRequest\", default)]\npub struct GetOrderRequest {\n",
        "\t#[yaserde(flatten)]\n\tpub parameters: types::GetOrder,\n",
        "}\n\n",
        FOOTER
    );
    assert_eq!(section(&mut fw, 2), expected);
}

#[test]
fn a_message_with_two_parts_has_the_field_of_the_first() {
    let mut fw = FileWriter::default();
    fw.print_message(&el(
        "message",
        &[("name", "GetReq")],
        vec![
            el("part", &[("name", "parameters"), ("element", "tns:GetReqElem")], vec![]),
            el("part", &[("name", "extra"), ("element", "tns:Other")], vec![]),
        ],
    ));
    let expected = format!(
        "{}{}{}{}{}{}",
        header("messages"),
        DERIVE,
        "#[yaserde(rename = \"GetReq\", default)]\npub struct GetReq {\n",
        "\t#[yaserde(flatten)]\n\tpub parameters: types::GetReqElem,\n",
        "}\n\n",
        FOOTER
    );
    assert_eq!(section(&mut fw, 2), expected);
}

#[test]
fn a_message_without_usable_part_is_an_empty_record() {
    let mut fw = FileWriter::default();
    fw.print_message(&el("message", &[("name", "Empty")], vec![]));
    fw.print_message(&el(
        "message",
        &[("name", "Typed")],
        vec![el("part", &[("name", "body"), ("type", "xs:string")], vec![])],
    ));
    fw.print_message(&el("message", &[], vec![el("part", &[("name", "p"), ("element", "e")], vec![])]));
    let expected = format!(
        "{}{}{}{}{}{}{}{}",
        header("messages"),
        DERIVE,
        "#[yaserde(rename = \"Empty\", default)]\npub struct Empty {\n",
        "}\n\n",
        DERIVE,
        "#[yaserde(rename = \"Typed\", default)]\npub struct Typed {\n",
        "}\n\n",
        FOOTER
    );
    assert_eq!(section(&mut fw, 2), expected);
}

#[test]
fn a_part_called_type_gets_a_safe_field_name() {
    let mut fw = FileWriter::default();
    fw.print_part(&el("part", &[("name", "type"), ("element", "xs:string")], vec![]));
    assert_eq!(section(&mut fw, 0), "\t#[yaserde(flatten)]\n\tpub rs_type: types::String,\n");
}

#[test]
fn a_port_type_is_a_trait_followed_by_its_aliases() {
    let mut fw = FileWriter::default();
    fw.print_port_type(&el(
        "portType",
        &[("name", "Greeter")],
        vec![
            text(),
            el(
                "operation",
                &[("name", "sayHello")],
                vec![
                    el("input", &[("name", "SayHelloRequest"), ("message", "tns:SayHelloRequest")], vec![]),
                    el("output", &[("name", "SayHelloResponse"), ("message", "tns:SayHelloResponse")], vec![]),
                ],
            ),
            text(),
        ],
    ));
    let expected = format!(
        "{}{}{}{}{}{}{}",
        header("ports"),
        "pub trait Greeter {\n",
        "\tfn say_hello (&self, say_hello_request: SayHelloRequest) -> SayHelloResponse;\n",
        "}\n\n",
        "pub type SayHelloRequest = messages::SayHelloRequest;\n",
        "pub type SayHelloResponse = messages::SayHelloResponse;\n",
        FOOTER
    );
    assert_eq!(section(&mut fw, 3), expected);
}

#[test]
fn a_fault_makes_the_method_return_a_result() {
    let mut fw = FileWriter::default();
    fw.print_port_type(&el(
        "portType",
        &[("name", "orders")],
        vec![el(
            "operation",
            &[("name", "GetOrder")],
            vec![
                el("input", &[("name", "getOrderIn"), ("message", "tns:getOrderRequest")], vec![]),
                el("output", &[("name", "getOrderOut"), ("message", "tns:getOrderResponse")], vec![]),
                el("fault", &[("name", "orderFault"), ("message", "tns:orderFaultMessage")], vec![]),
            ],
        )],
    ));
    let expected = format!(
        "{}{}{}{}{}{}{}{}",
        header("ports"),
        "pub trait Orders {\n",
        "\tfn get_order (&self, get_order_in: GetOrderIn) -> Result<GetOrderOut, OrderFault>;\n",
        "}\n\n",
        "pub type GetOrderIn = messages::GetOrderRequest;\n",
        "pub type GetOrderOut = messages::GetOrderResponse;\n",
        "pub type OrderFault = messages::OrderFaultMessage;\n",
        FOOTER
    );
    assert_eq!(section(&mut fw, 3), expected);
}

#[test]
fn an_operation_without_messages_has_an_empty_signature() {
    let mut fw = FileWriter::default();
    fw.print_operation(&el(
        "operation",
        &[("name", "ping")],
        vec![
            el("input", &[("name", "noMessage")], vec![]),
            el("fault", &[("name", "f"), ("message", "tns:f")], vec![]),
        ],
    ));
    fw.print_operation(&el("operation", &[], vec![]));
    fw.flush_delayed_buffer();
    assert_eq!(section(&mut fw, 0), "\tfn ping (&self, ) ;\n");
}

#[test]
fn a_shared_input_is_aliased_once_per_interface() {
    let mut fw = FileWriter::default();
    let operation = |name: &str| {
        el("operation", &[("name", name)], vec![el("input", &[("name", "Ask"), ("message", "tns:AskMsg")], vec![])])
    };
    fw.print_port_type(&el("portType", &[("name", "A")], vec![operation("first"), operation("second")]));
    fw.print_port_type(&el("portType", &[("name", "B")], vec![operation("third")]));
    let expected = format!(
        "{}{}{}{}{}{}{}{}{}{}{}",
        header("ports"),
        "pub trait A {\n",
        "\tfn first (&self, ask: Ask) ;\n",
        "\tfn second (&self, ask: Ask) ;\n",
        "}\n\n",
        "pub type Ask = messages::AskMsg;\n",
        "pub trait B {\n",
        "\tfn third (&self, ask: Ask) ;\n",
        "}\n\n",
        "pub type Ask = messages::AskMsg;\n",
        FOOTER
    );
    assert_eq!(section(&mut fw, 3), expected);
}

#[test]
fn queued_aliases_are_marked_as_seen() {
    let mut fw = FileWriter::default();
    fw.queue_port_types("in;", "out;", Some("fault;".to_string()));
    assert!(fw.have_seen_type("in;".to_string()));
    assert!(fw.have_seen_type("out;".to_string()));
    assert!(fw.have_seen_type("fault;".to_string()));
    assert!(!fw.have_seen_type("other;".to_string()));
    fw.queue_port_types("in;", "new;", Some("fault;".to_string()));
    fw.queue_port_types("new;", "in;", None);
    fw.flush_delayed_buffer();
    fw.reset_defined_types();
    assert!(!fw.have_seen_type("in;".to_string()));
    fw.queue_port_types("in;", "", None);
    fw.flush_delayed_buffer();
    assert_eq!(section(&mut fw, 0), "in;out;fault;new;in;");
}

#[test]
fn a_port_type_without_name_writes_nothing() {
    let mut fw = FileWriter::default();
    fw.print_port_type(&el(
        "portType",
        &[],
        vec![el("operation", &[("name", "op")], vec![])],
    ));
    let out = fw.read_for_output();
    assert_eq!(out[0], "");
    assert_eq!(out[3], format!("{}{}", header("ports"), FOOTER));
}

#[test]
fn a_binding_implements_its_port_type_with_stubs() {
    let mut fw = FileWriter::default();
    fw.print_binding(&el(
        "binding",
        &[("name", "GreeterBinding"), ("type", "tns:Greeter")],
        vec![
            el("binding", &[("style", "document")], vec![]),
            el(
                "operation",
                &[("name", "sayHello")],
                vec![
                    el("operation", &[("soapAction", "urn:sayHello")], vec![]),
                    el("input", &[("name", "SayHelloRequest")], vec![]),
                    el("output", &[("name", "SayHelloResponse")], vec![]),
                ],
            ),
        ],
    ));
    let expected = format!(
        "{}{}{}{}{}{}{}{}{}{}",
        header("bindings"),
        "pub struct GreeterBinding {}\n\nimpl ports::Greeter for GreeterBinding {\n",
        "\tfn say_hello (&self, say_hello_request: ports::SayHelloRequest) -> ports::SayHelloResponse {\n",
        "\tunimplemented!();\n",
        "}\n",
        "}\n\n",
        "impl Default for GreeterBinding {\n\tfn default() -> Self {\n\t\tGreeterBinding{}\n\t}\n\t}\n",
        records("SayHelloRequest", "sayHello"),
        records("SayHelloResponse", "sayHello"),
        FOOTER
    );
    assert_eq!(section(&mut fw, 4), expected);
}

#[test]
fn a_binding_operation_with_a_fault_returns_a_result() {
    let mut fw = FileWriter::default();
    fw.print_binding_operation(&el(
        "operation",
        &[("name", "getOrder")],
        vec![
            el("input", &[("name", "orderIn")], vec![]),
            el("output", &[("name", "orderOut")], vec![]),
            el("fault", &[("name", "orderFault")], vec![]),
        ],
    ));
    fw.flush_delayed_buffer();
    let expected = format!(
        "{}{}{}{}{}",
        "\tfn get_order (&self, order_in: ports::OrderIn) -> Result<ports::OrderOut, ports::OrderFault> {\n",
        "\tunimplemented!();\n",
        "}\n",
        records("OrderIn", "getOrder"),
        records("OrderOut", "getOrder"),
    );
    assert_eq!(section(&mut fw, 0), expected);
}

#[test]
fn a_binding_operation_without_input_or_output_is_a_bare_stub() {
    let mut fw = FileWriter::default();
    fw.print_binding_operation(&el(
        "operation",
        &[("name", "ping")],
        vec![el("input", &[], vec![]), el("fault", &[("name", "f")], vec![])],
    ));
    fw.print_binding_operation(&el("operation", &[], vec![el("input", &[("name", "x")], vec![])]));
    fw.flush_delayed_buffer();
    assert_eq!(section(&mut fw, 0), "\tfn ping (&self, )  {\n\tunimplemented!();\n}\n");
}

#[test]
fn a_binding_without_name_or_type_writes_nothing() {
    let mut fw = FileWriter::default();
    fw.print_binding(&el("binding", &[("name", "OnlyName")], vec![]));
    fw.print_binding(&el("binding", &[("type", "tns:OnlyType")], vec![]));
    let out = fw.read_for_output();
    assert_eq!(out[4], format!("{}{}", header("bindings"), FOOTER));
}

#[test]
fn an_envelope_names_its_record_and_its_body() {
    let fw = FileWriter::default();
    assert_eq!(
        fw.construct_soap_wrapper("Order", "SoapOrder"),
        format!("{}Order{}SoapOrder{}", ENVELOPE_HEAD, ENVELOPE_FIELDS, ENVELOPE_TAIL)
    );
}

#[test]
fn a_default_constructor_names_its_record_twice() {
    let mut fw = FileWriter::default();
    fw.print_default_constructor("Shop".to_string());
    assert_eq!(
        section(&mut fw, 0),
        "impl Default for Shop {\n\tfn default() -> Self {\n\t\tShop{}\n\t}\n\t}\n"
    );
}
