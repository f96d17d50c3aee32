//! The data model: the schema object graph that a parse produces, the
//! error kinds a parse can fail with, and — for every executable type — a
//! ghost mirror over `Seq<char>` reached through `DeepView`, which is what
//! all contracts speak about.

use vstd::prelude::*;

use crate::scan::str_eq;

verus! {

/// One of the six built-in scalar datatypes.
#[derive(Clone, Copy, Debug, PartialEq, Eq, Structural)]
pub enum SimpleDatatype {
    Boolean,
    Decimal,
    Double,
    Float,
    Integer,
    String,
}

/// Whether an attribute declaration is required or optional.
#[derive(Clone, Copy, Debug, PartialEq, Eq, Structural)]
pub enum UseOption {
    Required,
    Optional,
}

/// The flat content-model tag of a complex type: the structural
/// arrangement of its children, recorded as a label rather than a tree.
#[derive(Clone, Copy, Debug, PartialEq, Eq, Structural)]
pub enum ComplexContent {
    All,
    Choice,
    Empty,
    Element,
    Group,
    Sequence,
    SimpleContent,
    Union,
    MixedContent,
    ComplexContentExtension,
}

/// An unresolved reference to a named type: a bare name string tagged as
/// naming either a simple or a complex type, never a link into the schema.
#[derive(Clone, Debug, PartialEq, Eq)]
pub enum Datatype {
    SimpleType(String),
    ComplexType(String),
}

/// Ghost mirror of [`Datatype`].
#[verifier::ext_equal]
pub enum SpecDatatype {
    SimpleType(Seq<char>),
    ComplexType(Seq<char>),
}

impl DeepView for Datatype {
    type V = SpecDatatype;

    open spec fn deep_view(&self) -> SpecDatatype {
        match self {
            Datatype::SimpleType(s) => SpecDatatype::SimpleType(s@),
            Datatype::ComplexType(s) => SpecDatatype::ComplexType(s@),
        }
    }
}

/// An `element` declaration.
#[derive(Clone, Debug, PartialEq, Eq)]
pub struct Element {
    /// The declared name of the element.
    pub name: String,
    /// The datatype of the element.
    pub datatype: Datatype,
    /// The maximum number of times the element can occur.
    pub max_occurs: u32,
    /// The minimum number of times the element can occur.
    pub min_occurs: u32,
}

/// Ghost mirror of [`Element`].
#[verifier::ext_equal]
pub struct SpecElement {
    pub name: Seq<char>,
    pub datatype: SpecDatatype,
    pub max_occurs: u32,
    pub min_occurs: u32,
}

impl DeepView for Element {
    type V = SpecElement;

    open spec fn deep_view(&self) -> SpecElement {
        SpecElement {
            name: self.name@,
            datatype: self.datatype.deep_view(),
            max_occurs: self.max_occurs,
            min_occurs: self.min_occurs,
        }
    }
}

/// An `attribute` declaration.
#[derive(Clone, Debug, PartialEq, Eq)]
pub struct Attribute {
    pub name: String,
    pub datatype: Datatype,
    pub default_value: Option<String>,
    pub fixed_value: Option<String>,
    pub use_option: UseOption,
}

/// Ghost mirror of [`Attribute`].
#[verifier::ext_equal]
pub struct SpecAttribute {
    pub name: Seq<char>,
    pub datatype: SpecDatatype,
    pub default_value: Option<Seq<char>>,
    pub fixed_value: Option<Seq<char>>,
    pub use_option: UseOption,
}

impl DeepView for Attribute {
    type V = SpecAttribute;

    open spec fn deep_view(&self) -> SpecAttribute {
        SpecAttribute {
            name: self.name@,
            datatype: self.datatype.deep_view(),
            default_value: self.default_value.deep_view(),
            fixed_value: self.fixed_value.deep_view(),
            use_option: self.use_option,
        }
    }
}

/// A `simpleType` declaration: a named scalar datatype.
#[derive(Clone, Debug, PartialEq, Eq)]
pub struct SimpleType {
    pub name: String,
    pub datatype: SimpleDatatype,
}

/// Ghost mirror of [`SimpleType`].
#[verifier::ext_equal]
pub struct SpecSimpleType {
    pub name: Seq<char>,
    pub datatype: SimpleDatatype,
}

impl DeepView for SimpleType {
    type V = SpecSimpleType;

    open spec fn deep_view(&self) -> SpecSimpleType {
        SpecSimpleType { name: self.name@, datatype: self.datatype }
    }
}

/// A `complexType` declaration.  The attribute declarations are kept in
/// document order; the parser leaves the list empty (wiring nested
/// attribute declarations in is open future work), so its names are
/// trivially unique.
#[derive(Clone, Debug, PartialEq, Eq)]
pub struct ComplexType {
    pub name: String,
    /// The base type this complex type derives from, if any.
    pub base_type: Option<String>,
    pub attributes: Vec<Attribute>,
    pub content: ComplexContent,
    /// The value of a `mixed` attribute on the opening tag, if present.
    pub mixed_content: Option<String>,
}

/// Ghost mirror of [`ComplexType`].
#[verifier::ext_equal]
pub struct SpecComplexType {
    pub name: Seq<char>,
    pub base_type: Option<Seq<char>>,
    pub attributes: Seq<SpecAttribute>,
    pub content: ComplexContent,
    pub mixed_content: Option<Seq<char>>,
}

impl DeepView for ComplexType {
    type V = SpecComplexType;

    open spec fn deep_view(&self) -> SpecComplexType {
        SpecComplexType {
            name: self.name@,
            base_type: self.base_type.deep_view(),
            attributes: self.attributes.deep_view(),
            content: self.content,
            mixed_content: self.mixed_content.deep_view(),
        }
    }
}

/// A `simpleContent` block: textual content with a scalar datatype.
#[derive(Clone, Debug, PartialEq, Eq)]
pub struct SimpleContent {
    pub datatype: SimpleDatatype,
}

/// Ghost mirror of [`SimpleContent`].
#[verifier::ext_equal]
pub struct SpecSimpleContent {
    pub datatype: SimpleDatatype,
}

impl DeepView for SimpleContent {
    type V = SpecSimpleContent;

    open spec fn deep_view(&self) -> SpecSimpleContent {
        SpecSimpleContent { datatype: self.datatype }
    }
}

/// A `complexContent` extension: derivation by extension of a base type.
#[derive(Clone, Debug, PartialEq, Eq)]
pub struct ComplexContentExtension {
    pub base_type: String,
    pub attributes: Vec<Attribute>,
}

/// Ghost mirror of [`ComplexContentExtension`].
#[verifier::ext_equal]
pub struct SpecComplexContentExtension {
    pub base_type: Seq<char>,
    pub attributes: Seq<SpecAttribute>,
}

impl DeepView for ComplexContentExtension {
    type V = SpecComplexContentExtension;

    open spec fn deep_view(&self) -> SpecComplexContentExtension {
        SpecComplexContentExtension {
            base_type: self.base_type@,
            attributes: self.attributes.deep_view(),
        }
    }
}

/// A `complexContent` restriction: derivation by restriction of a base
/// type.  Part of the data model; the parser does not yet produce it.
#[derive(Clone, Debug, PartialEq, Eq)]
pub struct ComplexContentRestriction {
    pub base_type: String,
    pub attributes: Vec<Attribute>,
}

/// Ghost mirror of [`ComplexContentRestriction`].
#[verifier::ext_equal]
pub struct SpecComplexContentRestriction {
    pub base_type: Seq<char>,
    pub attributes: Seq<SpecAttribute>,
}

impl DeepView for ComplexContentRestriction {
    type V = SpecComplexContentRestriction;

    open spec fn deep_view(&self) -> SpecComplexContentRestriction {
        SpecComplexContentRestriction {
            base_type: self.base_type@,
            attributes: self.attributes.deep_view(),
        }
    }
}

/// One top-level schema node: the closed union over the four declaration
/// kinds that may stand at the root of a document.
#[derive(Clone, Debug, PartialEq, Eq)]
pub enum XmlSchemaNode {
    Attribute(Attribute),
    ComplexType(ComplexType),
    Element(Element),
    SimpleType(SimpleType),
}

/// Ghost mirror of [`XmlSchemaNode`].
#[verifier::ext_equal]
pub enum SpecNode {
    Attribute(SpecAttribute),
    ComplexType(SpecComplexType),
    Element(SpecElement),
    SimpleType(SpecSimpleType),
}

impl DeepView for XmlSchemaNode {
    type V = SpecNode;

    open spec fn deep_view(&self) -> SpecNode {
        match self {
            XmlSchemaNode::Attribute(a) => SpecNode::Attribute(a.deep_view()),
            XmlSchemaNode::ComplexType(c) => SpecNode::ComplexType(c.deep_view()),
            XmlSchemaNode::Element(e) => SpecNode::Element(e.deep_view()),
            XmlSchemaNode::SimpleType(s) => SpecNode::SimpleType(s.deep_view()),
        }
    }
}

/// The root of the parsed object graph: the three optional root
/// attributes of the `schema` tag and the top-level nodes in document
/// order.  Duplicate declarations are kept, not rejected.
#[derive(Clone, Debug, PartialEq, Eq)]
pub struct XmlSchema {
    pub target_namespace: Option<String>,
    pub element_form_default: Option<String>,
    pub attribute_form_default: Option<String>,
    pub nodes: Vec<XmlSchemaNode>,
}

/// Ghost mirror of [`XmlSchema`].
#[verifier::ext_equal]
pub struct SpecSchema {
    pub target_namespace: Option<Seq<char>>,
    pub element_form_default: Option<Seq<char>>,
    pub attribute_form_default: Option<Seq<char>>,
    pub nodes: Seq<SpecNode>,
}

impl DeepView for XmlSchema {
    type V = SpecSchema;

    open spec fn deep_view(&self) -> SpecSchema {
        SpecSchema {
            target_namespace: self.target_namespace.deep_view(),
            element_form_default: self.element_form_default.deep_view(),
            attribute_form_default: self.attribute_form_default.deep_view(),
            nodes: self.nodes.deep_view(),
        }
    }
}

/// The four kinds of parse failure.  Every parser function returns either
/// a fully constructed value or the first error encountered; there is no
/// recovery and no partial result.
#[derive(Clone, Debug, PartialEq, Eq)]
pub enum SchemaError {
    /// A tag name stood where the grammar does not permit it.
    UnexpectedTag(String),
    /// A character stood where only tags, spaces or terminators are valid.
    UnexpectedCharacter(char),
    /// A datatype name did not match one of the six built-in scalar kinds.
    UnsupportedDatatype,
    /// The buffer ended before a required terminator was found.
    UnexpectedEndOfInput,
}

/// Ghost mirror of [`SchemaError`].
#[verifier::ext_equal]
pub enum SpecError {
    UnexpectedTag(Seq<char>),
    UnexpectedCharacter(char),
    UnsupportedDatatype,
    UnexpectedEndOfInput,
}

impl DeepView for SchemaError {
    type V = SpecError;

    open spec fn deep_view(&self) -> SpecError {
        match self {
            SchemaError::UnexpectedTag(t) => SpecError::UnexpectedTag(t@),
            SchemaError::UnexpectedCharacter(c) => SpecError::UnexpectedCharacter(*c),
            SchemaError::UnsupportedDatatype => SpecError::UnsupportedDatatype,
            SchemaError::UnexpectedEndOfInput => SpecError::UnexpectedEndOfInput,
        }
    }
}

impl SchemaError {
    /// A descriptive message for the caller to surface to a user.
    pub fn message(&self) -> (r: String)
        ensures
            match self {
                SchemaError::UnexpectedTag(t) => r@ == "Unexpected tag: "@ + t@,
                SchemaError::UnexpectedCharacter(_) => r@ == "Unexpected character"@,
                SchemaError::UnsupportedDatatype => r@ == "Unsupported datatype"@,
                SchemaError::UnexpectedEndOfInput => r@ == "Unexpected end of input"@,
            },
    {
        match self {
            SchemaError::UnexpectedTag(t) => String::from_str("Unexpected tag: ").concat(
                t.as_str(),
            ),
            SchemaError::UnexpectedCharacter(_) => String::from_str("Unexpected character"),
            SchemaError::UnsupportedDatatype => String::from_str("Unsupported datatype"),
            SchemaError::UnexpectedEndOfInput => String::from_str("Unexpected end of input"),
        }
    }
}

/// The canonical lowercase rendering of each scalar datatype.
pub open spec fn spec_canonical_name(dt: SimpleDatatype) -> Seq<char> {
    match dt {
        SimpleDatatype::Boolean => "boolean"@,
        SimpleDatatype::Decimal => "decimal"@,
        SimpleDatatype::Double => "double"@,
        SimpleDatatype::Float => "float"@,
        SimpleDatatype::Integer => "integer"@,
        SimpleDatatype::String => "string"@,
    }
}

/// Which scalar datatype a bare (namespace-stripped) datatype name
/// denotes; `None` for a name outside the closed enumeration.
pub open spec fn spec_datatype_of(name: Seq<char>) -> Option<SimpleDatatype> {
    if name == "boolean"@ {
        Some(SimpleDatatype::Boolean)
    } else if name == "decimal"@ {
        Some(SimpleDatatype::Decimal)
    } else if name == "double"@ {
        Some(SimpleDatatype::Double)
    } else if name == "float"@ {
        Some(SimpleDatatype::Float)
    } else if name == "integer"@ {
        Some(SimpleDatatype::Integer)
    } else if name == "string"@ {
        Some(SimpleDatatype::String)
    } else {
        None
    }
}

impl SimpleDatatype {
    /// Renders the datatype in its canonical lowercase textual form.
    pub fn canonical_name(&self) -> (r: String)
        ensures
            r@ == spec_canonical_name(*self),
    {
        match self {
            SimpleDatatype::Boolean => String::from_str("boolean"),
            SimpleDatatype::Decimal => String::from_str("decimal"),
            SimpleDatatype::Double => String::from_str("double"),
            SimpleDatatype::Float => String::from_str("float"),
            SimpleDatatype::Integer => String::from_str("integer"),
            SimpleDatatype::String => String::from_str("string"),
        }
    }
}

/// Maps a bare datatype name onto the scalar enumeration.
pub fn datatype_of_name(name: &str) -> (r: Option<SimpleDatatype>)
    ensures
        r == spec_datatype_of(name@),
{
    if str_eq(name, "boolean") {
        Some(SimpleDatatype::Boolean)
    } else if str_eq(name, "decimal") {
        Some(SimpleDatatype::Decimal)
    } else if str_eq(name, "double") {
        Some(SimpleDatatype::Double)
    } else if str_eq(name, "float") {
        Some(SimpleDatatype::Float)
    } else if str_eq(name, "integer") {
        Some(SimpleDatatype::Integer)
    } else if str_eq(name, "string") {
        Some(SimpleDatatype::String)
    } else {
        None
    }
}

} // verus!
