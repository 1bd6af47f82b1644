use code_generator::document::Document;
use code_generator::xml::{build_forest, RawNode, XmlAttribute, XmlNode};

fn raw(depth: usize, name: &str) -> RawNode {
    RawNode { element: true, depth, name: name.to_string(), attributes: Vec::new() }
}

fn names(nodes: &Vec<XmlNode>) -> Vec<String> {
    nodes.iter().map(|n| n.name.clone()).collect()
}

#[test]
fn a_document_is_the_tree_of_its_nodes() {
    let doc = Document::parse(
        "dir/a.xml".to_string(),
        "<a x='1' y='2'><b/>text<c><d/></c><!-- note --></a>",
    )
    .unwrap();
    assert_eq!(doc.path(), "dir/a.xml");
    let top = doc.root();
    assert!(!top.is_element());
    assert_eq!(top.children.len(), 1);
    let document_node = &top.children[0];
    assert!(!document_node.is_element());
    assert_eq!(document_node.children.len(), 1);
    let a = &document_node.children[0];
    assert!(a.is_element());
    assert_eq!(a.name, "a");
    assert_eq!(a.attributes.len(), 2);
    assert_eq!(a.attributes[0].name, "x");
    assert_eq!(a.attributes[0].value, "1");
    assert_eq!(a.attributes[1].name, "y");
    assert_eq!(a.attributes[1].value, "2");
    assert_eq!(a.children.len(), 4);
    assert!(a.children[0].has_tag_name("b"));
    assert!(!a.children[1].is_element());
    assert_eq!(a.children[1].name, "");
    assert!(a.children[2].has_tag_name("c"));
    assert_eq!(a.children[2].children.len(), 1);
    assert!(a.children[2].children[0].has_tag_name("d"));
    assert!(!a.children[3].is_element());
}

#[test]
fn tag_names_and_attribute_names_are_local() {
    let doc = Document::parse(
        "x".to_string(),
        "<xs:schema xmlns:xs='http://www.w3.org/2001/XMLSchema' xmlns:t='urn:t' t:kind='k' targetNamespace='urn:t'/>",
    )
    .unwrap();
    let schema = &doc.root().children[0].children[0];
    assert!(schema.has_tag_name("schema"));
    assert!(!schema.has_tag_name("xs:schema"));
    assert_eq!(schema.get_some_attribute("kind"), Some("k"));
    assert_eq!(schema.get_some_attribute("targetNamespace"), Some("urn:t"));
    assert_eq!(schema.get_some_attribute("xs"), None);
    assert_eq!(schema.attributes.len(), 2);
}

#[test]
fn malformed_text_is_rejected() {
    let err = Document::parse("dir/bad.xml".to_string(), "<a><b></a>").unwrap_err();
    assert_eq!(err.path, "dir/bad.xml");
    assert!(Document::parse("e".to_string(), "").is_err());
    assert!(Document::parse("t".to_string(), "just text").is_err());
}

#[test]
fn the_first_attribute_of_a_name_is_found() {
    let node = XmlNode {
        element: true,
        name: "element".to_string(),
        attributes: vec![
            XmlAttribute { name: "name".to_string(), value: "first".to_string() },
            XmlAttribute { name: "type".to_string(), value: "xs:int".to_string() },
            XmlAttribute { name: "name".to_string(), value: "second".to_string() },
        ],
        children: Vec::new(),
    };
    assert_eq!(node.get_some_attribute("name"), Some("first"));
    assert_eq!(node.get_some_attribute("type"), Some("xs:int"));
    assert_eq!(node.get_some_attribute("Name"), None);
    assert_eq!(node.get_some_attribute_as_string("name"), Some("first".to_string()));
    assert_eq!(node.get_some_attribute_as_string("missing"), None);
}

#[test]
fn the_first_child_of_a_tag_is_found() {
    let child = |name: &str, element: bool, mark: &str| XmlNode {
        element,
        name: name.to_string(),
        attributes: vec![XmlAttribute { name: "mark".to_string(), value: mark.to_string() }],
        children: Vec::new(),
    };
    let node = XmlNode {
        element: true,
        name: "message".to_string(),
        attributes: Vec::new(),
        children: vec![
            child("part", false, "not an element"),
            child("other", true, "other"),
            child("part", true, "first part"),
            child("part", true, "second part"),
        ],
    };
    assert_eq!(node.find_child("part").unwrap().get_some_attribute("mark"), Some("first part"));
    assert_eq!(node.find_child("other").unwrap().get_some_attribute("mark"), Some("other"));
    assert!(node.find_child("none").is_none());
    assert!(node.find_child("message").is_none());
}

#[test]
fn a_forest_follows_the_depths() {
    let flat = vec![raw(1, "a"), raw(2, "b"), raw(3, "c"), raw(2, "d"), raw(1, "e"), raw(2, "f")];
    let trees = build_forest(&flat, 0, flat.len());
    assert_eq!(names(&trees), vec!["a", "e"]);
    assert_eq!(names(&trees[0].children), vec!["b", "d"]);
    assert_eq!(names(&trees[0].children[0].children), vec!["c"]);
    assert!(trees[0].children[1].children.is_empty());
    assert_eq!(names(&trees[1].children), vec!["f"]);
}

#[test]
fn a_forest_of_a_part_of_the_list() {
    let flat = vec![raw(1, "a"), raw(2, "b"), raw(3, "c"), raw(2, "d")];
    assert!(build_forest(&flat, 2, 2).is_empty());
    let inner = build_forest(&flat, 1, 4);
    assert_eq!(names(&inner), vec!["b", "d"]);
    assert_eq!(names(&inner[0].children), vec!["c"]);
    let cut = build_forest(&flat, 0, 2);
    assert_eq!(names(&cut), vec!["a"]);
    assert_eq!(names(&cut[0].children), vec!["b"]);
}

#[test]
fn a_forest_keeps_every_node_of_an_uneven_list() {
    let flat = vec![raw(5, "a"), raw(9, "b"), raw(7, "c"), raw(2, "d")];
    let trees = build_forest(&flat, 0, flat.len());
    assert_eq!(names(&trees), vec!["a", "d"]);
    assert_eq!(names(&trees[0].children), vec!["b", "c"]);
}
