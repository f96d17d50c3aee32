//! End-to-end tests of whole-document parsing.

use xsd_parser::model::ComplexContent;
use xsd_parser::model::Datatype;
use xsd_parser::model::SchemaError;
use xsd_parser::model::SimpleDatatype;
use xsd_parser::model::XmlSchemaNode;
use xsd_parser::parser::XmlSchemaParser;

#[test]
fn schema_tag_without_attributes() {
    let mut parser = XmlSchemaParser::new("<xs:schema>");
    let schema = parser.parse().unwrap();
    assert_eq!(schema.target_namespace, None);
    assert_eq!(schema.element_form_default, None);
    assert_eq!(schema.attribute_form_default, None);
    assert_eq!(schema.nodes.len(), 0);
}

#[test]
fn schema_tag_all_attributes() {
    let input = "<xs:schema targetNamespace=\"http://example.com/po\" \
                 elementFormDefault=\"qualified\" attributeFormDefault=\"unqualified\">";
    let mut parser = XmlSchemaParser::new(input);
    let schema = parser.parse().unwrap();
    assert_eq!(
        schema.target_namespace.as_deref(),
        Some("http://example.com/po")
    );
    assert_eq!(schema.element_form_default.as_deref(), Some("qualified"));
    assert_eq!(schema.attribute_form_default.as_deref(), Some("unqualified"));
    assert_eq!(schema.nodes.len(), 0);
}

#[test]
fn schema_tag_first_attribute_only() {
    let mut parser = XmlSchemaParser::new("<xs:schema targetNamespace=\"urn:x\">");
    let schema = parser.parse().unwrap();
    assert_eq!(schema.target_namespace.as_deref(), Some("urn:x"));
    assert_eq!(schema.element_form_default, None);
    assert_eq!(schema.attribute_form_default, None);
}

#[test]
fn schema_tag_middle_attribute_only() {
    let mut parser = XmlSchemaParser::new("<xs:schema elementFormDefault=\"qualified\">");
    let schema = parser.parse().unwrap();
    assert_eq!(schema.target_namespace, None);
    assert_eq!(schema.element_form_default.as_deref(), Some("qualified"));
    assert_eq!(schema.attribute_form_default, None);
}

#[test]
fn schema_tag_last_attribute_only() {
    let mut parser = XmlSchemaParser::new("<xs:schema attributeFormDefault=\"qualified\">");
    let schema = parser.parse().unwrap();
    assert_eq!(schema.target_namespace, None);
    assert_eq!(schema.element_form_default, None);
    assert_eq!(schema.attribute_form_default.as_deref(), Some("qualified"));
}

#[test]
fn schema_tag_first_two_attributes() {
    let input = "<xs:schema targetNamespace=\"urn:x\" elementFormDefault=\"qualified\">";
    let mut parser = XmlSchemaParser::new(input);
    let schema = parser.parse().unwrap();
    assert_eq!(schema.target_namespace.as_deref(), Some("urn:x"));
    assert_eq!(schema.element_form_default.as_deref(), Some("qualified"));
    assert_eq!(schema.attribute_form_default, None);
}

#[test]
fn schema_tag_last_two_attributes() {
    let input = "<xs:schema elementFormDefault=\"qualified\" attributeFormDefault=\"unqualified\">";
    let mut parser = XmlSchemaParser::new(input);
    let schema = parser.parse().unwrap();
    assert_eq!(schema.target_namespace, None);
    assert_eq!(schema.element_form_default.as_deref(), Some("qualified"));
    assert_eq!(schema.attribute_form_default.as_deref(), Some("unqualified"));
}

#[test]
fn schema_tag_outer_two_attributes() {
    let input = "<xs:schema targetNamespace=\"urn:x\" attributeFormDefault=\"unqualified\">";
    let mut parser = XmlSchemaParser::new(input);
    let schema = parser.parse().unwrap();
    assert_eq!(schema.target_namespace.as_deref(), Some("urn:x"));
    assert_eq!(schema.element_form_default, None);
    assert_eq!(schema.attribute_form_default.as_deref(), Some("unqualified"));
}

#[test]
fn simple_type_integer_restriction() {
    let input = "<xs:simpleType name=\"X\"><xs:restriction base=\"xs:integer\">";
    let mut parser = XmlSchemaParser::new(input);
    let schema = parser.parse().unwrap();
    assert_eq!(schema.nodes.len(), 1);
    match &schema.nodes[0] {
        XmlSchemaNode::SimpleType(st) => {
            assert_eq!(st.name, "X");
            assert_eq!(st.datatype, SimpleDatatype::Integer);
        }
        other => panic!("expected a simple type, got {:?}", other),
    }
}

#[test]
fn simple_type_all_six_datatypes() {
    let cases = vec![
        ("boolean", SimpleDatatype::Boolean),
        ("decimal", SimpleDatatype::Decimal),
        ("double", SimpleDatatype::Double),
        ("float", SimpleDatatype::Float),
        ("integer", SimpleDatatype::Integer),
        ("string", SimpleDatatype::String),
    ];
    for (name, expected) in cases {
        let input = format!(
            "<xs:simpleType name=\"T\"><xs:restriction base=\"xs:{}\">",
            name
        );
        let mut parser = XmlSchemaParser::new(&input);
        let schema = parser.parse().unwrap();
        match &schema.nodes[0] {
            XmlSchemaNode::SimpleType(st) => assert_eq!(st.datatype, expected),
            other => panic!("expected a simple type, got {:?}", other),
        }
    }
}

#[test]
fn simple_type_unsupported_datatype() {
    let input = "<xs:simpleType name=\"X\"><xs:restriction base=\"xs:date\">";
    let mut parser = XmlSchemaParser::new(input);
    let err = parser.parse().unwrap_err();
    assert_eq!(err, SchemaError::UnsupportedDatatype);
}

#[test]
fn simple_type_unexpected_end_of_input() {
    let mut parser = XmlSchemaParser::new("<xs:simpleType name=\"X\">");
    let err = parser.parse().unwrap_err();
    assert_eq!(err, SchemaError::UnexpectedEndOfInput);
}

#[test]
fn element_stub_defaults() {
    let mut parser = XmlSchemaParser::new("<xs:element name=\"Foo\">");
    let schema = parser.parse().unwrap();
    assert_eq!(schema.nodes.len(), 1);
    match &schema.nodes[0] {
        XmlSchemaNode::Element(el) => {
            assert_eq!(el.name, "Foo");
            assert_eq!(el.min_occurs, 1);
            assert_eq!(el.max_occurs, 1);
            assert_eq!(el.datatype, Datatype::SimpleType(String::new()));
        }
        other => panic!("expected an element, got {:?}", other),
    }
}

#[test]
fn attribute_stub_defaults() {
    let mut parser = XmlSchemaParser::new("<xs:attribute name=\"id\">");
    let schema = parser.parse().unwrap();
    assert_eq!(schema.nodes.len(), 1);
    match &schema.nodes[0] {
        XmlSchemaNode::Attribute(at) => {
            assert_eq!(at.name, "id");
            assert_eq!(at.datatype, Datatype::SimpleType(String::new()));
            assert_eq!(at.default_value, None);
            assert_eq!(at.fixed_value, None);
            assert_eq!(at.use_option, xsd_parser::model::UseOption::Optional);
        }
        other => panic!("expected an attribute, got {:?}", other),
    }
}

#[test]
fn complex_type_empty_sequence() {
    let input = "<xs:complexType name=\"C\"><xs:sequence></xs:sequence></xs:complexType>";
    let mut parser = XmlSchemaParser::new(input);
    let schema = parser.parse().unwrap();
    assert_eq!(schema.nodes.len(), 1);
    match &schema.nodes[0] {
        XmlSchemaNode::ComplexType(ct) => {
            assert_eq!(ct.name, "C");
            assert_eq!(ct.content, ComplexContent::Sequence);
            assert_eq!(ct.base_type, None);
            assert_eq!(ct.attributes.len(), 0);
            assert_eq!(ct.mixed_content, None);
        }
        other => panic!("expected a complex type, got {:?}", other),
    }
}

#[test]
fn complex_type_sequence_children_not_retained() {
    let input = "<xs:complexType name=\"C\"><xs:sequence><xs:element name=\"A\">\
                 <xs:element name=\"B\"></xs:sequence></xs:complexType>";
    let mut parser = XmlSchemaParser::new(input);
    let schema = parser.parse().unwrap();
    assert_eq!(schema.nodes.len(), 1);
    match &schema.nodes[0] {
        XmlSchemaNode::ComplexType(ct) => {
            assert_eq!(ct.name, "C");
            assert_eq!(ct.content, ComplexContent::Sequence);
            assert_eq!(ct.attributes.len(), 0);
        }
        other => panic!("expected a complex type, got {:?}", other),
    }
}

#[test]
fn complex_type_choice_and_all() {
    let input = "<xs:complexType name=\"C\"><xs:choice></xs:choice></xs:complexType>";
    let mut parser = XmlSchemaParser::new(input);
    let schema = parser.parse().unwrap();
    match &schema.nodes[0] {
        XmlSchemaNode::ComplexType(ct) => assert_eq!(ct.content, ComplexContent::Choice),
        other => panic!("expected a complex type, got {:?}", other),
    }
    let input = "<xs:complexType name=\"D\"><xs:all></xs:all></xs:complexType>";
    let mut parser = XmlSchemaParser::new(input);
    let schema = parser.parse().unwrap();
    match &schema.nodes[0] {
        XmlSchemaNode::ComplexType(ct) => assert_eq!(ct.content, ComplexContent::All),
        other => panic!("expected a complex type, got {:?}", other),
    }
}

#[test]
fn complex_type_mixed_skips_rest() {
    let input = "<xs:complexType name=\"C\" mixed=\"true\"><whatever>text &x; !!";
    let mut parser = XmlSchemaParser::new(input);
    let schema = parser.parse().unwrap();
    assert_eq!(schema.nodes.len(), 1);
    match &schema.nodes[0] {
        XmlSchemaNode::ComplexType(ct) => {
            assert_eq!(ct.name, "C");
            assert_eq!(ct.content, ComplexContent::MixedContent);
            assert_eq!(ct.mixed_content.as_deref(), Some("true"));
        }
        other => panic!("expected a complex type, got {:?}", other),
    }
}

#[test]
fn complex_type_mixed_false_is_not_mixed() {
    let input = "<xs:complexType name=\"C\" mixed=\"false\"><xs:sequence></xs:sequence>\
                 </xs:complexType>";
    let mut parser = XmlSchemaParser::new(input);
    let schema = parser.parse().unwrap();
    match &schema.nodes[0] {
        XmlSchemaNode::ComplexType(ct) => {
            assert_eq!(ct.content, ComplexContent::Sequence);
            assert_eq!(ct.mixed_content.as_deref(), Some("false"));
        }
        other => panic!("expected a complex type, got {:?}", other),
    }
}

#[test]
fn complex_type_simple_content() {
    let input = "<xs:complexType name=\"C\"><xs:simpleContent>\
                 <xs:extension base=\"xs:decimal\"></xs:extension>\
                 </xs:simpleContent></xs:complexType>";
    let mut parser = XmlSchemaParser::new(input);
    let schema = parser.parse().unwrap();
    match &schema.nodes[0] {
        XmlSchemaNode::ComplexType(ct) => {
            assert_eq!(ct.content, ComplexContent::SimpleContent);
            assert_eq!(ct.base_type, None);
        }
        other => panic!("expected a complex type, got {:?}", other),
    }
}

#[test]
fn complex_type_complex_content_extension() {
    let input = "<xs:complexType name=\"C\"><xs:complexContent>\
                 <xs:extension base=\"xs:string\"></xs:extension>\
                 </xs:complexContent></xs:complexType>";
    let mut parser = XmlSchemaParser::new(input);
    let schema = parser.parse().unwrap();
    match &schema.nodes[0] {
        XmlSchemaNode::ComplexType(ct) => {
            assert_eq!(ct.content, ComplexContent::ComplexContentExtension);
            assert_eq!(ct.base_type.as_deref(), Some("string"));
        }
        other => panic!("expected a complex type, got {:?}", other),
    }
}

#[test]
fn complex_type_unexpected_character() {
    let input = "<xs:complexType name=\"C\">x";
    let mut parser = XmlSchemaParser::new(input);
    let err = parser.parse().unwrap_err();
    assert_eq!(err, SchemaError::UnexpectedCharacter('x'));
}

#[test]
fn complex_type_unexpected_child_tag() {
    let input = "<xs:complexType name=\"C\"><xs:attribute name=\"a\">";
    let mut parser = XmlSchemaParser::new(input);
    let err = parser.parse().unwrap_err();
    assert_eq!(err, SchemaError::UnexpectedTag(String::from("xs:attribute")));
}

#[test]
fn unrecognized_root_tag_fails() {
    let input = "<xs:import namespace=\"urn:other\">";
    let mut parser = XmlSchemaParser::new(input);
    let err = parser.parse().unwrap_err();
    assert_eq!(err, SchemaError::UnexpectedTag(String::from("xs:import")));
}

#[test]
fn root_closing_tag_is_rejected_like_any_other() {
    let input = "<xs:element name=\"E\"></xs:element>";
    let mut parser = XmlSchemaParser::new(input);
    let err = parser.parse().unwrap_err();
    assert_eq!(err, SchemaError::UnexpectedTag(String::from("/xs:element")));
}

#[test]
fn several_root_declarations_in_order() {
    let input = "<xs:schema targetNamespace=\"urn:x\"> <xs:element name=\"E\">\
                 <xs:attribute name=\"a\">";
    let mut parser = XmlSchemaParser::new(input);
    let schema = parser.parse().unwrap();
    assert_eq!(schema.target_namespace.as_deref(), Some("urn:x"));
    assert_eq!(schema.nodes.len(), 2);
    assert!(matches!(&schema.nodes[0], XmlSchemaNode::Element(el) if el.name == "E"));
    assert!(matches!(&schema.nodes[1], XmlSchemaNode::Attribute(at) if at.name == "a"));
}

#[test]
fn duplicate_declarations_are_kept() {
    let input = "<xs:element name=\"E\"><xs:element name=\"E\">";
    let mut parser = XmlSchemaParser::new(input);
    let schema = parser.parse().unwrap();
    assert_eq!(schema.nodes.len(), 2);
}

#[test]
fn text_outside_tags_is_ignored() {
    let input = "  stray text \n<xs:element name=\"E\"> more text ";
    let mut parser = XmlSchemaParser::new(input);
    let schema = parser.parse().unwrap();
    assert_eq!(schema.nodes.len(), 1);
}

#[test]
fn empty_document_gives_empty_schema() {
    let mut parser = XmlSchemaParser::new("");
    let schema = parser.parse().unwrap();
    assert_eq!(schema.nodes.len(), 0);
    assert_eq!(schema.target_namespace, None);
}

#[test]
fn error_messages_describe_the_failure() {
    let err = SchemaError::UnexpectedTag(String::from("xs:import"));
    assert_eq!(err.message(), "Unexpected tag: xs:import");
    assert_eq!(
        SchemaError::UnsupportedDatatype.message(),
        "Unsupported datatype"
    );
    assert_eq!(
        SchemaError::UnexpectedEndOfInput.message(),
        "Unexpected end of input"
    );
    assert_eq!(
        SchemaError::UnexpectedCharacter('x').message(),
        "Unexpected character"
    );
}
