use code_generator::section::Section;
use code_generator::staging::ModWriter;

const TYPES_HEADER: &str =
    "pub mod types {\nuse yaserde::{{YaSerialize, YaDeserialize}};\n\nuse super::*;\n\n";

#[test]
fn root_writer_starts_empty_and_has_no_footer() {
    let mut mw = ModWriter::new(Section::Root);
    assert_eq!(mw.read_for_output(), "");
}

#[test]
fn module_writers_start_with_their_header() {
    let mut types = ModWriter::new(Section::Types);
    assert_eq!(types.read_for_output(), format!("{}}}\n\n", TYPES_HEADER));
    let mut messages = ModWriter::new(Section::Messages);
    assert_eq!(
        messages.read_for_output(),
        "pub mod messages {\nuse yaserde::{{YaSerialize, YaDeserialize}};\n\nuse super::*;\n\n}\n\n"
    );
    let mut ports = ModWriter::new(Section::PortTypes);
    assert_eq!(
        ports.read_for_output(),
        "pub mod ports {\nuse yaserde::{{YaSerialize, YaDeserialize}};\n\nuse super::*;\n\n}\n\n"
    );
    let mut bindings = ModWriter::new(Section::Bindings);
    assert_eq!(
        bindings.read_for_output(),
        "pub mod bindings {\nuse yaserde::{{YaSerialize, YaDeserialize}};\n\nuse super::*;\n\n}\n\n"
    );
}

#[test]
fn level_zero_writes_are_final_in_order() {
    let mut mw = ModWriter::new(Section::Root);
    mw.write("a".to_string(), 0);
    mw.write("b".to_string(), 0);
    assert_eq!(mw.read_for_output(), "ab");
}

#[test]
fn nested_buffers_unwind_innermost_first() {
    let mut mw = ModWriter::new(Section::Root);
    mw.set_level(1);
    mw.write("outer-open ".to_string(), 1);
    mw.set_level(2);
    mw.write("inner ".to_string(), 2);
    mw.set_level(1);
    mw.write("outer-close ".to_string(), 1);
    mw.set_level(0);
    mw.write("after".to_string(), 0);
    assert_eq!(mw.read_for_output(), "inner outer-open outer-close after");
}

#[test]
fn a_closed_level_stands_before_what_encloses_it() {
    let mut mw = ModWriter::new(Section::Root);
    mw.set_level(1);
    mw.write("A{".to_string(), 1);
    mw.set_level(2);
    mw.write("first;".to_string(), 2);
    mw.set_level(1);
    mw.set_level(2);
    mw.write("second;".to_string(), 2);
    mw.set_level(1);
    mw.write("}".to_string(), 1);
    mw.set_level(0);
    assert_eq!(mw.read_for_output(), "second;first;A{}");
}

#[test]
fn lowering_the_level_closes_the_deeper_buffers() {
    let mut mw = ModWriter::new(Section::Root);
    mw.set_level(1);
    mw.write("one;".to_string(), 1);
    mw.set_level(2);
    mw.write("two;".to_string(), 2);
    mw.set_level(1);
    mw.write("dropped;".to_string(), 2);
    mw.write("more;".to_string(), 1);
    mw.set_level(0);
    mw.write("dropped too;".to_string(), 1);
    assert_eq!(mw.read_for_output(), "two;one;more;");
}

#[test]
fn a_level_skipped_on_the_way_down_is_closed_as_well() {
    let mut mw = ModWriter::new(Section::Root);
    mw.write("final;".to_string(), 0);
    mw.set_level(1);
    mw.write("one;".to_string(), 1);
    mw.set_level(2);
    mw.write("two;".to_string(), 2);
    mw.set_level(3);
    mw.write("three;".to_string(), 3);
    mw.set_level(1);
    mw.write("tail;".to_string(), 1);
    mw.set_level(0);
    assert_eq!(mw.read_for_output(), "final;three;two;one;tail;");
}

#[test]
fn reading_for_output_closes_the_open_levels() {
    let mut mw = ModWriter::new(Section::Types);
    mw.set_level(1);
    mw.write("outer;".to_string(), 1);
    mw.set_level(2);
    mw.write("inner;".to_string(), 2);
    assert_eq!(mw.read_for_output(), format!("{}inner;outer;}}\n\n", TYPES_HEADER));
}

#[test]
fn reading_for_output_flushes_the_queue() {
    let mut mw = ModWriter::new(Section::Root);
    mw.write("body;".to_string(), 0);
    mw.delayed_write("queued;".to_string());
    assert_eq!(mw.read_for_output(), "body;queued;");
    let mut nested = ModWriter::new(Section::PortTypes);
    nested.set_level(1);
    nested.write("waiting;".to_string(), 1);
    nested.delayed_write("alias;".to_string());
    assert_eq!(
        nested.read_for_output(),
        "pub mod ports {\nuse yaserde::{{YaSerialize, YaDeserialize}};\n\nuse super::*;\n\nwaiting;alias;}\n\n"
    );
}

#[test]
fn a_write_to_a_level_without_buffer_is_dropped() {
    let mut mw = ModWriter::new(Section::Root);
    mw.write("lost".to_string(), 3);
    mw.set_level(3);
    mw.write("also lost".to_string(), 3);
    mw.write("kept".to_string(), 1);
    mw.set_level(0);
    assert_eq!(mw.read_for_output(), "kept");
}

#[test]
fn deferred_text_waits_for_the_flush() {
    let mut mw = ModWriter::new(Section::Root);
    mw.delayed_write("alias;".to_string());
    mw.write("body;".to_string(), 0);
    mw.delayed_write("second;".to_string());
    mw.flush_delayed_buffer();
    mw.write("tail".to_string(), 0);
    assert_eq!(mw.read_for_output(), "body;alias;second;tail");
}

#[test]
fn a_flush_empties_the_queue() {
    let mut mw = ModWriter::new(Section::Root);
    mw.delayed_write("one;".to_string());
    mw.flush_delayed_buffer();
    mw.delayed_write("two;".to_string());
    mw.flush_delayed_buffer();
    mw.flush_delayed_buffer();
    assert_eq!(mw.read_for_output(), "one;two;");
}

#[test]
fn a_flush_at_a_nested_level_goes_to_the_buffer_of_that_level() {
    let mut mw = ModWriter::new(Section::Root);
    mw.set_level(1);
    mw.write("open;".to_string(), 1);
    mw.delayed_write("deferred;".to_string());
    mw.flush_delayed_buffer();
    mw.write("close;".to_string(), 1);
    mw.set_level(0);
    assert_eq!(mw.read_for_output(), "open;deferred;close;");
}

#[test]
fn a_flush_without_destination_keeps_the_queue() {
    let mut mw = ModWriter::new(Section::Root);
    mw.set_level(2);
    mw.delayed_write("kept;".to_string());
    mw.flush_delayed_buffer();
    mw.set_level(0);
    mw.flush_delayed_buffer();
    assert_eq!(mw.read_for_output(), "kept;");
}

#[test]
fn seen_types_are_remembered_until_reset() {
    let mut mw = ModWriter::new(Section::PortTypes);
    assert!(!mw.have_seen_type("pub type A = messages::A;\n".to_string()));
    mw.seen_type("pub type A = messages::A;\n".to_string());
    assert!(mw.have_seen_type("pub type A = messages::A;\n".to_string()));
    assert!(!mw.have_seen_type("pub type B = messages::B;\n".to_string()));
    mw.seen_type("pub type B = messages::B;\n".to_string());
    assert!(mw.have_seen_type("pub type A = messages::A;\n".to_string()));
    mw.reset_defined_types();
    assert!(!mw.have_seen_type("pub type A = messages::A;\n".to_string()));
    assert!(!mw.have_seen_type("pub type B = messages::B;\n".to_string()));
}

#[test]
fn reading_for_output_closes_the_module() {
    let mut mw = ModWriter::new(Section::Types);
    mw.write("pub type Foo = String;\n\n".to_string(), 0);
    assert_eq!(
        mw.read_for_output(),
        format!("{}pub type Foo = String;\n\n}}\n\n", TYPES_HEADER)
    );
}
