//! Tests of the cursor, the lexical scanners, the construct parsers
//! called directly, and the scalar-datatype rendering.

use xsd_parser::model::ComplexContent;
use xsd_parser::model::SimpleDatatype;
use xsd_parser::model::XmlSchemaNode;
use xsd_parser::model::datatype_of_name;
use xsd_parser::parser::XmlSchemaParser;

#[test]
fn next_char_walks_the_input() {
    let mut parser = XmlSchemaParser::new("ab");
    assert_eq!(parser.next_char(), Some('a'));
    assert_eq!(parser.next_char(), Some('b'));
    assert_eq!(parser.next_char(), None);
    assert_eq!(parser.next_char(), None);
}

#[test]
fn tag_name_stops_at_space_or_terminator() {
    let mut parser = XmlSchemaParser::new("xs:element name=\"a\">");
    assert_eq!(parser.parse_tag_name().unwrap(), "xs:element");
    let mut parser = XmlSchemaParser::new("xs:sequence>rest");
    assert_eq!(parser.parse_tag_name().unwrap(), "xs:sequence");
    let mut parser = XmlSchemaParser::new("unterminated");
    assert_eq!(parser.parse_tag_name().unwrap(), "unterminated");
}

#[test]
fn attr_value_is_keyed_by_name() {
    let mut parser = XmlSchemaParser::new("foo=\"1\" bar=\"2\">");
    assert_eq!(parser.parse_optional_attr_value("bar").as_deref(), Some("2"));
    // the cursor moved past the captured value; foo lies behind it now
    assert_eq!(parser.parse_optional_attr_value("foo"), None);
}

#[test]
fn attr_value_absent_name_leaves_cursor() {
    let mut parser = XmlSchemaParser::new("foo=\"1\">");
    assert_eq!(parser.parse_optional_attr_value("bar"), None);
    assert_eq!(parser.parse_optional_attr_value("foo").as_deref(), Some("1"));
}

#[test]
fn attr_value_empty_value_is_absent() {
    let mut parser = XmlSchemaParser::new("foo=\"\">");
    assert_eq!(parser.parse_optional_attr_value("foo"), None);
}

#[test]
fn attr_value_does_not_search_past_tag_end() {
    let mut parser = XmlSchemaParser::new("a=\"1\"> foo=\"2\"");
    assert_eq!(parser.parse_optional_attr_value("foo"), None);
}

#[test]
fn datatype_name_strips_namespace_prefix() {
    let mut parser = XmlSchemaParser::new("xs:integer\"");
    assert_eq!(parser.parse_datatype_name().unwrap(), "integer");
    let mut parser = XmlSchemaParser::new("integer>");
    assert_eq!(parser.parse_datatype_name().unwrap(), "integer");
    let mut parser = XmlSchemaParser::new("a:b:c ");
    assert_eq!(parser.parse_datatype_name().unwrap(), "c");
}

#[test]
fn element_parser_called_directly() {
    let mut parser = XmlSchemaParser::new("name=\"Foo\">");
    let el = parser.parse_element().unwrap();
    assert_eq!(el.name, "Foo");
    assert_eq!(el.min_occurs, 1);
    assert_eq!(el.max_occurs, 1);
}

#[test]
fn element_parser_without_name_attr() {
    let mut parser = XmlSchemaParser::new("type=\"t\">");
    let el = parser.parse_element().unwrap();
    assert_eq!(el.name, "");
}

#[test]
fn simple_type_parser_called_directly() {
    let mut parser = XmlSchemaParser::new("name=\"X\"><xs:restriction base=\"xs:boolean\">");
    let st = parser.parse_simple_type().unwrap();
    assert_eq!(st.name, "X");
    assert_eq!(st.datatype, SimpleDatatype::Boolean);
}

#[test]
fn simple_type_defaults_to_string_without_type_info() {
    let mut parser = XmlSchemaParser::new("name=\"X\"><xs:restriction>");
    let st = parser.parse_simple_type().unwrap();
    assert_eq!(st.datatype, SimpleDatatype::String);
}

#[test]
fn simple_content_parser_called_directly() {
    let mut parser = XmlSchemaParser::new("<xs:extension base=\"xs:float\">");
    let sc = parser.parse_simple_content().unwrap();
    assert_eq!(sc.datatype, SimpleDatatype::Float);
}

#[test]
fn extension_parser_called_directly() {
    let mut parser = XmlSchemaParser::new("<xs:extension base=\"xs:string\">");
    let ext = parser.parse_complex_content_extension().unwrap();
    assert_eq!(ext.base_type, "string");
    assert_eq!(ext.attributes.len(), 0);
}

#[test]
fn extension_parser_rejects_other_leading_text() {
    let mut parser = XmlSchemaParser::new("<xs:extension value=\"1\">");
    let err = parser.parse_complex_content_extension().unwrap_err();
    assert_eq!(
        err,
        xsd_parser::model::SchemaError::UnexpectedCharacter('v')
    );
}

#[test]
fn sequence_parser_collects_children() {
    let input = "<xs:element name=\"A\"><xs:element name=\"B\"></xs:sequence>";
    let mut parser = XmlSchemaParser::new(input);
    let nodes = parser.parse_sequence().unwrap();
    assert_eq!(nodes.len(), 2);
    assert!(matches!(&nodes[0], XmlSchemaNode::Element(el) if el.name == "A"));
    assert!(matches!(&nodes[1], XmlSchemaNode::Element(el) if el.name == "B"));
}

#[test]
fn choice_parser_collects_children() {
    let input = "<xs:element name=\"A\"></xs:choice>";
    let mut parser = XmlSchemaParser::new(input);
    let nodes = parser.parse_choice().unwrap();
    assert_eq!(nodes.len(), 1);
}

#[test]
fn all_parser_collects_children() {
    let input = "<xs:element name=\"A\"><xs:simpleType name=\"S\">\
                 <xs:restriction base=\"xs:double\"></xs:all>";
    let mut parser = XmlSchemaParser::new(input);
    let nodes = parser.parse_all().unwrap();
    assert_eq!(nodes.len(), 2);
    assert!(matches!(&nodes[1], XmlSchemaNode::SimpleType(st)
        if st.datatype == SimpleDatatype::Double));
}

#[test]
fn particle_list_rejects_unknown_child() {
    let input = "<xs:group name=\"G\"></xs:sequence>";
    let mut parser = XmlSchemaParser::new(input);
    let err = parser.parse_sequence().unwrap_err();
    assert_eq!(
        err,
        xsd_parser::model::SchemaError::UnexpectedTag(String::from("xs:group"))
    );
}

#[test]
fn complex_type_parser_called_directly() {
    let mut parser = XmlSchemaParser::new("name=\"C\"><xs:mixedContent stuff>");
    let ct = parser.parse_complex_type().unwrap();
    assert_eq!(ct.name, "C");
    assert_eq!(ct.content, ComplexContent::MixedContent);
}

#[test]
fn canonical_names_render_lowercase() {
    assert_eq!(SimpleDatatype::Boolean.canonical_name(), "boolean");
    assert_eq!(SimpleDatatype::Decimal.canonical_name(), "decimal");
    assert_eq!(SimpleDatatype::Double.canonical_name(), "double");
    assert_eq!(SimpleDatatype::Float.canonical_name(), "float");
    assert_eq!(SimpleDatatype::Integer.canonical_name(), "integer");
    assert_eq!(SimpleDatatype::String.canonical_name(), "string");
}

#[test]
fn canonical_names_round_trip() {
    let all = vec![
        SimpleDatatype::Boolean,
        SimpleDatatype::Decimal,
        SimpleDatatype::Double,
        SimpleDatatype::Float,
        SimpleDatatype::Integer,
        SimpleDatatype::String,
    ];
    for dt in all {
        let rendered = dt.canonical_name();
        assert_eq!(datatype_of_name(&rendered), Some(dt));
    }
}

#[test]
fn datatype_of_name_rejects_unknown_names() {
    assert_eq!(datatype_of_name("date"), None);
    assert_eq!(datatype_of_name(""), None);
    assert_eq!(datatype_of_name("Integer"), None);
}
