//! The mathematical model of the grammar: one specification function per
//! parsing step, each mapping the input sequence and a cursor position to
//! the value produced and the position after it.  The contracts of the
//! executable parser state that it computes exactly these functions.
//!
//! Positions only ever move forward.  Recursive definitions re-establish
//! that bound through [`forward`], which is the identity on every
//! position an actual scan produces.

use vstd::prelude::*;

use crate::model::ComplexContent;
use crate::model::SimpleDatatype;
use crate::model::SpecAttribute;
use crate::model::SpecComplexContentExtension;
use crate::model::SpecComplexType;
use crate::model::SpecDatatype;
use crate::model::SpecElement;
use crate::model::SpecError;
use crate::model::SpecNode;
use crate::model::SpecSchema;
use crate::model::SpecSimpleContent;
use crate::model::SpecSimpleType;
use crate::model::UseOption;
use crate::model::spec_datatype_of;
use crate::scan::consumed_to;
use crate::scan::detect_stops;
use crate::scan::dtname_stops;
use crate::scan::find_attr;
use crate::scan::find_first;
use crate::scan::forward;
use crate::scan::gt_stop;
use crate::scan::lt_stop;
use crate::scan::nonspace_stops;
use crate::scan::quote_stop;
use crate::scan::strip_prefix;
use crate::scan::tag_stops;

verus! {

/// The tag name beginning at `pos`: everything up to the first `>` or
/// space, which is consumed; with no terminator the rest of the input is
/// the name.
pub open spec fn spec_tag_name(s: Seq<char>, pos: int) -> (Seq<char>, int) {
    let j = find_first(s, pos, tag_stops());
    if j < s.len() {
        (s.subrange(pos, j), j + 1)
    } else {
        (s.subrange(pos, s.len() as int), s.len() as int)
    }
}

/// The bare datatype name beginning at `pos`: scanned up to the first
/// `"`, `>` or space, with everything up to and including the last colon
/// stripped away as a namespace prefix.
pub open spec fn spec_datatype_name(s: Seq<char>, pos: int) -> (Seq<char>, int) {
    let j = find_first(s, pos, dtname_stops());
    (strip_prefix(s.subrange(pos, j)), consumed_to(s, pos, dtname_stops()))
}

/// The value of the attribute `name` within the tag the cursor stands in:
/// the region up to the first `>` is searched for `name="`, and the
/// quoted value after the first occurrence is captured, leaving the
/// cursor past its closing quote.  Absent attribute, missing closing
/// quote or empty value give `None`; in the first two cases the cursor
/// does not move.
pub open spec fn spec_attr_value(s: Seq<char>, pos: int, name: Seq<char>) -> (
    Option<Seq<char>>,
    int,
) {
    let end = find_first(s, pos, gt_stop());
    match find_attr(s, pos, end, name) {
        None => (None, pos),
        Some(i) => {
            let vs = i + name.len() + 2;
            let q = find_first(s, vs, quote_stop());
            if q >= s.len() {
                (None, pos)
            } else if q == vs {
                (None, q + 1)
            } else {
                (Some(s.subrange(vs, q)), q + 1)
            }
        },
    }
}

/// An `element` declaration: its `name` attribute is captured, the rest
/// of the opening tag is discarded, and every other field keeps its
/// default (an empty simple-type reference, occurrence bounds 1 and 1).
pub open spec fn spec_parse_element(s: Seq<char>, pos: int) -> (SpecElement, int) {
    let (nopt, p1) = spec_attr_value(s, pos, "name"@);
    let p2 = consumed_to(s, p1, gt_stop());
    let nm = match nopt {
        Some(v) => v,
        None => Seq::<char>::empty(),
    };
    (
        SpecElement {
            name: nm,
            datatype: SpecDatatype::SimpleType(Seq::<char>::empty()),
            max_occurs: 1,
            min_occurs: 1,
        },
        p2,
    )
}

/// An `attribute` declaration, symmetric to the element parser: only the
/// `name` attribute is captured; datatype, values and usage keep their
/// defaults.
pub open spec fn spec_parse_attribute(s: Seq<char>, pos: int) -> (SpecAttribute, int) {
    let (nopt, p1) = spec_attr_value(s, pos, "name"@);
    let p2 = consumed_to(s, p1, gt_stop());
    let nm = match nopt {
        Some(v) => v,
        None => Seq::<char>::empty(),
    };
    (
        SpecAttribute {
            name: nm,
            datatype: SpecDatatype::SimpleType(Seq::<char>::empty()),
            default_value: None,
            fixed_value: None,
            use_option: UseOption::Optional,
        },
        p2,
    )
}

/// The datatype detection shared by the simple-type and simple-content
/// parsers: within the child tag the cursor stands in, the first quoted
/// value is taken as a datatype reference and its bare name mapped onto
/// the scalar enumeration.  A `>` before any quote leaves the default
/// (string); the end of the input before either is an error, as is a
/// bare name outside the six built-in kinds.
pub open spec fn spec_detect_datatype(s: Seq<char>, pos: int) -> Result<
    (SimpleDatatype, int),
    SpecError,
> {
    let j = find_first(s, pos, detect_stops());
    if j >= s.len() {
        Err(SpecError::UnexpectedEndOfInput)
    } else if s[j] == '>' {
        Ok((SimpleDatatype::String, j + 1))
    } else {
        let (nm, p) = spec_datatype_name(s, j + 1);
        match spec_datatype_of(nm) {
            Some(dt) => Ok((dt, p)),
            None => Err(SpecError::UnsupportedDatatype),
        }
    }
}

/// A `simpleType` declaration: its `name` attribute, then the datatype
/// detected in its first child tag.
pub open spec fn spec_parse_simple_type(s: Seq<char>, pos: int) -> Result<
    (SpecSimpleType, int),
    SpecError,
> {
    let (nopt, p1) = spec_attr_value(s, pos, "name"@);
    let p2 = consumed_to(s, p1, gt_stop());
    let p3 = consumed_to(s, p2, lt_stop());
    let nm = match nopt {
        Some(v) => v,
        None => Seq::<char>::empty(),
    };
    match spec_detect_datatype(s, p3) {
        Ok((dt, p4)) => Ok((SpecSimpleType { name: nm, datatype: dt }, p4)),
        Err(e) => Err(e),
    }
}

/// A `simpleContent` block: the datatype detected in its nested
/// restriction or extension tag.
pub open spec fn spec_parse_simple_content(s: Seq<char>, pos: int) -> Result<
    (SpecSimpleContent, int),
    SpecError,
> {
    let p1 = consumed_to(s, pos, lt_stop());
    match spec_detect_datatype(s, p1) {
        Ok((dt, p2)) => Ok((SpecSimpleContent { datatype: dt }, p2)),
        Err(e) => Err(e),
    }
}

/// A `complexContent` extension: after the nested tag's name, the first
/// non-space character must begin the literal `base="xs`, and the bare
/// name after that prefix is the base type.  Reaching the end of the
/// input first yields an empty base type; any other character is an
/// error.  Nested attribute declarations are modeled but not populated.
pub open spec fn spec_parse_extension(s: Seq<char>, pos: int) -> Result<
    (SpecComplexContentExtension, int),
    SpecError,
> {
    let p1 = consumed_to(s, pos, tag_stops());
    let k = find_first(s, p1, nonspace_stops());
    if k >= s.len() {
        Ok(
            (
                SpecComplexContentExtension {
                    base_type: Seq::<char>::empty(),
                    attributes: Seq::<SpecAttribute>::empty(),
                },
                s.len() as int,
            ),
        )
    } else if s[k] == 'b' && k + 8 <= s.len() && s.subrange(k, k + 8) == "base=\"xs"@ {
        let (nm, p2) = spec_datatype_name(s, k + 8);
        Ok(
            (
                SpecComplexContentExtension {
                    base_type: nm,
                    attributes: Seq::<SpecAttribute>::empty(),
                },
                p2,
            ),
        )
    } else {
        Err(SpecError::UnexpectedCharacter(s[k]))
    }
}

/// Skips the remaining body of a mixed-content complex type: everything
/// through the tag `/xs:complexType`, or to the end of the input when no
/// such tag follows.
pub open spec fn spec_skip_close(s: Seq<char>, pos: int) -> int
    decreases s.len() - pos,
{
    if pos >= s.len() {
        s.len() as int
    } else {
        let j = find_first(s, pos, lt_stop());
        if j >= s.len() {
            s.len() as int
        } else {
            let (tag, p) = spec_tag_name(s, j + 1);
            if tag == "/xs:complexType"@ {
                p
            } else {
                spec_skip_close(s, forward(s, pos, p))
            }
        }
    }
}

/// A particle list (the body of a `sequence`, `choice` or `all`): child
/// `element`, `complexType` and `simpleType` declarations are parsed and
/// accumulated in document order until the matching closing tag (whose
/// name is `closer`) or the end of the input.  Closing tags of already
/// consumed children are passed over; spaces and stray `>` are ignored;
/// any other tag or character is an error.
pub open spec fn spec_particles(
    s: Seq<char>,
    pos: int,
    closer: Seq<char>,
    acc: Seq<SpecNode>,
) -> Result<(Seq<SpecNode>, int), SpecError>
    decreases s.len() - pos,
{
    if pos >= s.len() {
        Ok((acc, pos))
    } else {
        let c = s[pos];
        if c == '<' {
            let (tag, p1) = spec_tag_name(s, pos + 1);
            let p1f = forward(s, pos, p1);
            if tag == "xs:element"@ {
                let (el, p2) = spec_parse_element(s, p1f);
                spec_particles(s, forward(s, pos, p2), closer, acc.push(SpecNode::Element(el)))
            } else if tag == "xs:complexType"@ {
                match spec_parse_complex_type(s, p1f) {
                    Ok((ct, p2)) => spec_particles(
                        s,
                        forward(s, pos, p2),
                        closer,
                        acc.push(SpecNode::ComplexType(ct)),
                    ),
                    Err(e) => Err(e),
                }
            } else if tag == "xs:simpleType"@ {
                match spec_parse_simple_type(s, p1f) {
                    Ok((st, p2)) => spec_particles(
                        s,
                        forward(s, pos, p2),
                        closer,
                        acc.push(SpecNode::SimpleType(st)),
                    ),
                    Err(e) => Err(e),
                }
            } else if tag == closer {
                Ok((acc, p1))
            } else if tag.len() > 0 && tag[0] == '/' {
                spec_particles(s, p1f, closer, acc)
            } else {
                Err(SpecError::UnexpectedTag(tag))
            }
        } else if c == ' ' || c == '>' {
            spec_particles(s, pos + 1, closer, acc)
        } else {
            Err(SpecError::UnexpectedCharacter(c))
        }
    }
}

/// A `complexType` declaration.  The opening tag yields the `name` and
/// `mixed` attributes; `mixed="true"` fixes the content model to mixed
/// content and skips the remaining body.  Otherwise the children set the
/// flat content-model tag: nested particle lists are consumed but their
/// children are not retained, a `complexContent` extension contributes
/// the base type, and the construct ends at its closing tag or the end
/// of the input.
pub open spec fn spec_parse_complex_type(s: Seq<char>, pos: int) -> Result<
    (SpecComplexType, int),
    SpecError,
>
    decreases s.len() - pos,
{
    if pos >= s.len() {
        Ok(
            (
                SpecComplexType {
                    name: Seq::<char>::empty(),
                    base_type: None,
                    attributes: Seq::<SpecAttribute>::empty(),
                    content: ComplexContent::Empty,
                    mixed_content: None,
                },
                s.len() as int,
            ),
        )
    } else {
        let (nopt, p1) = spec_attr_value(s, pos, "name"@);
        let (mopt, p2) = spec_attr_value(s, p1, "mixed"@);
        let nm = match nopt {
            Some(v) => v,
            None => Seq::<char>::empty(),
        };
        let ct0 = SpecComplexType {
            name: nm,
            base_type: None,
            attributes: Seq::<SpecAttribute>::empty(),
            content: ComplexContent::Empty,
            mixed_content: mopt,
        };
        if mopt == Some("true"@) {
            let p3 = spec_skip_close(s, forward(s, pos, p2));
            Ok((SpecComplexType { content: ComplexContent::MixedContent, ..ct0 }, p3))
        } else {
            let p3 = consumed_to(s, p2, gt_stop());
            spec_ct_children(s, forward(s, pos, p3), ct0)
        }
    }
}

/// The child loop of a complex type: each recognized child tag updates
/// the flat content-model tag (the last one seen wins, as assignment
/// would), and the loop ends at the closing `complexType` tag or the end
/// of the input.
pub open spec fn spec_ct_children(s: Seq<char>, pos: int, ct: SpecComplexType) -> Result<
    (SpecComplexType, int),
    SpecError,
>
    decreases s.len() - pos,
{
    if pos >= s.len() {
        Ok((ct, pos))
    } else {
        let c = s[pos];
        if c == '<' {
            let (tag, p1) = spec_tag_name(s, pos + 1);
            let p1f = forward(s, pos, p1);
            if tag == "xs:simpleContent"@ {
                match spec_parse_simple_content(s, p1f) {
                    Ok((_sc, p2)) => spec_ct_children(
                        s,
                        forward(s, pos, p2),
                        SpecComplexType { content: ComplexContent::SimpleContent, ..ct },
                    ),
                    Err(e) => Err(e),
                }
            } else if tag == "xs:complexContent"@ {
                match spec_parse_extension(s, p1f) {
                    Ok((ext, p2)) => spec_ct_children(
                        s,
                        forward(s, pos, p2),
                        SpecComplexType {
                            content: ComplexContent::ComplexContentExtension,
                            base_type: Some(ext.base_type),
                            ..ct
                        },
                    ),
                    Err(e) => Err(e),
                }
            } else if tag == "xs:mixedContent"@ {
                Ok(
                    (
                        SpecComplexType { content: ComplexContent::MixedContent, ..ct },
                        consumed_to(s, p1f, gt_stop()),
                    ),
                )
            } else if tag == "xs:sequence"@ {
                match spec_particles(s, p1f, "/xs:sequence"@, Seq::<SpecNode>::empty()) {
                    Ok((_ch, p2)) => spec_ct_children(
                        s,
                        forward(s, pos, p2),
                        SpecComplexType { content: ComplexContent::Sequence, ..ct },
                    ),
                    Err(e) => Err(e),
                }
            } else if tag == "xs:choice"@ {
                match spec_particles(s, p1f, "/xs:choice"@, Seq::<SpecNode>::empty()) {
                    Ok((_ch, p2)) => spec_ct_children(
                        s,
                        forward(s, pos, p2),
                        SpecComplexType { content: ComplexContent::Choice, ..ct },
                    ),
                    Err(e) => Err(e),
                }
            } else if tag == "xs:all"@ {
                match spec_particles(s, p1f, "/xs:all"@, Seq::<SpecNode>::empty()) {
                    Ok((_ch, p2)) => spec_ct_children(
                        s,
                        forward(s, pos, p2),
                        SpecComplexType { content: ComplexContent::All, ..ct },
                    ),
                    Err(e) => Err(e),
                }
            } else if tag == "/xs:complexType"@ {
                Ok((ct, p1))
            } else if tag.len() > 0 && tag[0] == '/' {
                spec_ct_children(s, p1f, ct)
            } else {
                Err(SpecError::UnexpectedTag(tag))
            }
        } else if c == ' ' || c == '>' {
            spec_ct_children(s, pos + 1, ct)
        } else {
            Err(SpecError::UnexpectedCharacter(c))
        }
    }
}

/// The top-level assembly loop: the document is scanned for `<`; a
/// `schema` tag assigns the three root attributes, the four declaration
/// tags append a node, any other root-level tag fails the parse, and all
/// characters outside tags are ignored.
pub open spec fn spec_schema_nodes(s: Seq<char>, pos: int, sch: SpecSchema) -> Result<
    SpecSchema,
    SpecError,
>
    decreases s.len() - pos,
{
    if pos >= s.len() {
        Ok(sch)
    } else {
        let c = s[pos];
        if c == '<' {
            let (tag, p1) = spec_tag_name(s, pos + 1);
            let p1f = forward(s, pos, p1);
            if tag == "xs:schema"@ {
                let (tn, q1) = spec_attr_value(s, p1f, "targetNamespace"@);
                let (efd, q2) = spec_attr_value(s, q1, "elementFormDefault"@);
                let (afd, q3) = spec_attr_value(s, q2, "attributeFormDefault"@);
                spec_schema_nodes(
                    s,
                    forward(s, pos, q3),
                    SpecSchema {
                        target_namespace: tn,
                        element_form_default: efd,
                        attribute_form_default: afd,
                        nodes: sch.nodes,
                    },
                )
            } else if tag == "xs:element"@ {
                let (el, p2) = spec_parse_element(s, p1f);
                spec_schema_nodes(
                    s,
                    forward(s, pos, p2),
                    SpecSchema { nodes: sch.nodes.push(SpecNode::Element(el)), ..sch },
                )
            } else if tag == "xs:attribute"@ {
                let (at, p2) = spec_parse_attribute(s, p1f);
                spec_schema_nodes(
                    s,
                    forward(s, pos, p2),
                    SpecSchema { nodes: sch.nodes.push(SpecNode::Attribute(at)), ..sch },
                )
            } else if tag == "xs:simpleType"@ {
                match spec_parse_simple_type(s, p1f) {
                    Ok((st, p2)) => spec_schema_nodes(
                        s,
                        forward(s, pos, p2),
                        SpecSchema { nodes: sch.nodes.push(SpecNode::SimpleType(st)), ..sch },
                    ),
                    Err(e) => Err(e),
                }
            } else if tag == "xs:complexType"@ {
                match spec_parse_complex_type(s, p1f) {
                    Ok((ct, p2)) => spec_schema_nodes(
                        s,
                        forward(s, pos, p2),
                        SpecSchema { nodes: sch.nodes.push(SpecNode::ComplexType(ct)), ..sch },
                    ),
                    Err(e) => Err(e),
                }
            } else {
                Err(SpecError::UnexpectedTag(tag))
            }
        } else {
            spec_schema_nodes(s, pos + 1, sch)
        }
    }
}

/// The empty schema a parse starts from.
pub open spec fn spec_empty_schema() -> SpecSchema {
    SpecSchema {
        target_namespace: None,
        element_form_default: None,
        attribute_form_default: None,
        nodes: Seq::<SpecNode>::empty(),
    }
}

/// A whole parse from position `pos`.
pub open spec fn spec_parse_schema(s: Seq<char>, pos: int) -> Result<SpecSchema, SpecError> {
    spec_schema_nodes(s, pos, spec_empty_schema())
}

} // verus!
