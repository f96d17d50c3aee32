//! Laws of the library: properties that relate several functions of the
//! grammar, stated and proved once and for all inputs they speak of.

use vstd::prelude::*;

use crate::grammar::spec_attr_value;
use crate::grammar::spec_parse_element;
use crate::grammar::spec_empty_schema;
use crate::grammar::spec_parse_schema;
use crate::grammar::spec_schema_nodes;
use crate::grammar::spec_tag_name;
use crate::model::SimpleDatatype;
use crate::model::SpecDatatype;
use crate::model::SpecError;
use crate::model::SpecNode;
use crate::model::SpecSchema;
use crate::model::spec_canonical_name;
use crate::model::spec_datatype_of;
use crate::scan::attr_pat_at;
use crate::scan::consumed_to;
use crate::scan::find_first;
use crate::scan::gt_stop;
use crate::scan::lemma_find_attr_found;
use crate::scan::lemma_find_attr_none;
use crate::scan::lemma_find_first_bounds;
use crate::scan::lemma_find_first_is;
use crate::scan::quote_stop;
use crate::scan::tag_stops;

verus! {

/// Law: rendering any scalar datatype in its canonical textual form and
/// mapping that name back onto the enumeration reproduces the same
/// member, for all six scalar kinds.
pub proof fn lemma_datatype_round_trip(dt: SimpleDatatype)
    ensures
        spec_datatype_of(spec_canonical_name(dt)) == Some(dt),
{
    reveal_strlit("boolean");
    reveal_strlit("decimal");
    reveal_strlit("double");
    reveal_strlit("float");
    reveal_strlit("integer");
    reveal_strlit("string");
    assert("decimal"@[0] != "boolean"@[0]);
    assert("integer"@[0] != "boolean"@[0]);
    assert("integer"@[0] != "decimal"@[0]);
    assert("string"@[0] != "double"@[0]);
    assert("double"@[0] != "boolean"@[0]);
    assert("double"@[1] != "decimal"@[1]);
    assert("float"@[0] != "boolean"@[0]);
    assert("float"@[0] != "decimal"@[0]);
    assert("float"@[0] != "double"@[0]);
    assert("string"@[0] != "boolean"@[0]);
    assert("string"@[0] != "decimal"@[0]);
    assert("string"@[0] != "float"@[0]);
    assert("integer"@[0] != "double"@[0]);
    assert("integer"@[0] != "float"@[0]);
    match dt {
        SimpleDatatype::Boolean => {
            assert(spec_datatype_of("boolean"@) == Some(SimpleDatatype::Boolean));
        },
        SimpleDatatype::Decimal => {
            assert(spec_datatype_of("decimal"@) == Some(SimpleDatatype::Decimal));
        },
        SimpleDatatype::Double => {
            assert(spec_datatype_of("double"@) == Some(SimpleDatatype::Double));
        },
        SimpleDatatype::Float => {
            assert(spec_datatype_of("float"@) == Some(SimpleDatatype::Float));
        },
        SimpleDatatype::Integer => {
            assert(spec_datatype_of("integer"@) == Some(SimpleDatatype::Integer));
        },
        SimpleDatatype::String => {
            assert(spec_datatype_of("string"@) == Some(SimpleDatatype::String));
        },
    }
}

/// Law: a root-level tag outside the five recognized kinds fails the
/// whole parse with an unexpected-tag error, whatever the assembler had
/// accumulated before reaching it.
pub proof fn lemma_unrecognized_root_tag_fails(s: Seq<char>, pos: int, sch: SpecSchema)
    requires
        0 <= pos < s.len(),
        s[pos] == '<',
        ({
            let (tag, _p) = spec_tag_name(s, pos + 1);
            &&& tag != "xs:schema"@
            &&& tag != "xs:element"@
            &&& tag != "xs:attribute"@
            &&& tag != "xs:simpleType"@
            &&& tag != "xs:complexType"@
        }),
    ensures
        spec_schema_nodes(s, pos, sch) == Err::<SpecSchema, SpecError>(
            SpecError::UnexpectedTag(spec_tag_name(s, pos + 1).0),
        ),
{
}

/// How the attribute-value scanner behaves when the attribute's
/// assignment stands at a known offset, its value is nonempty, free of
/// quotes, and closed, no earlier position matches the pattern, and no
/// `>` precedes the value: the value is captured and the cursor lands
/// past its closing quote.
pub proof fn lemma_attr_value_at(s: Seq<char>, pos: int, name: Seq<char>, at: int, v: Seq<char>)
    requires
        0 <= pos <= at,
        at + name.len() + 2 + v.len() + 1 <= s.len(),
        forall|m: int| pos <= m < at ==> !attr_pat_at(s, m, name),
        s.subrange(at, at + name.len()) == name,
        s[at + name.len()] == '=',
        s[at + name.len() + 1] == '"',
        s.subrange(at + name.len() + 2, at + name.len() + 2 + v.len()) == v,
        s[at + name.len() + 2 + v.len()] == '"',
        v.len() > 0,
        forall|k: int| 0 <= k < v.len() ==> v[k] != '"',
        forall|k: int| pos <= k < at + name.len() + 2 ==> s[k] != '>',
    ensures
        spec_attr_value(s, pos, name) == (
            Some(v),
            at + name.len() + 2 + v.len() + 1,
        ),
{
    let nl = name.len() as int;
    let vs = at + nl + 2;
    let end = find_first(s, pos, gt_stop());
    lemma_find_first_bounds(s, pos, gt_stop());
    if end < vs {
        assert(s[end] == '>');
        assert(false);
    }
    assert(attr_pat_at(s, at, name));
    lemma_find_attr_found(s, pos, end, name, at);
    assert forall|k: int| vs <= k < vs + v.len() implies !quote_stop().contains(s[k]) by {
        assert(v[k - vs] == s.subrange(vs, vs + v.len() as int)[k - vs]);
        assert(s[k] == v[k - vs]);
    }
    lemma_find_first_is(s, vs, quote_stop(), vs + v.len() as int);
    assert(s.subrange(vs, vs + v.len() as int) == v);
}

/// Law: an `element` declaration whose opening tag carries a quoted
/// `name` attribute at the cursor, followed directly by the tag's `>`,
/// yields an element with exactly that name, an empty simple-type
/// reference, and occurrence bounds 1 and 1, whatever the name's text.
pub proof fn lemma_element_stub_fields(s: Seq<char>, pos: int, v: Seq<char>)
    requires
        0 <= pos,
        pos + v.len() + 8 <= s.len(),
        s.subrange(pos, pos + 6) == "name=\""@,
        s.subrange(pos + 6, pos + 6 + v.len()) == v,
        s[pos + 6 + v.len()] == '"',
        s[pos + 7 + v.len()] == '>',
        v.len() > 0,
        forall|k: int| 0 <= k < v.len() ==> v[k] != '"',
    ensures
        ({
            let (el, p) = spec_parse_element(s, pos);
            &&& el.name == v
            &&& el.datatype == SpecDatatype::SimpleType(Seq::<char>::empty())
            &&& el.min_occurs == 1
            &&& el.max_occurs == 1
            &&& p == pos + v.len() + 8
        }),
{
    reveal_strlit("name=\"");
    reveal_strlit("name");
    assert forall|i: int| 0 <= i < 6 implies s[pos + i] == "name=\""@[i] by {
        assert(s.subrange(pos, pos + 6)[i] == s[pos + i]);
    }
    assert(s.subrange(pos, pos + 4) =~= "name"@);
    assert forall|k: int| pos <= k < pos + 6 implies s[k] != '>' by {
        assert(s[k] == "name=\""@[k - pos]);
    }
    assert(s[pos + 4] == '=') by {
        assert(s.subrange(pos, pos + 6)[4] == s[pos + 4]);
    }
    assert(s[pos + 5] == '"') by {
        assert(s.subrange(pos, pos + 6)[5] == s[pos + 5]);
    }
    lemma_attr_value_at(s, pos, "name"@, pos, v);
    let q1 = pos + 7 + v.len() as int;
    lemma_find_first_is(s, q1, gt_stop(), q1);
    assert(consumed_to(s, q1, gt_stop()) == q1 + 1);
}

/// Law (schema tag, no attributes): a document consisting solely of a
/// bare `<xs:schema>` opening tag parses to the empty schema, all three
/// root attributes absent.
pub proof fn lemma_schema_tag_without_attrs(s: Seq<char>)
    requires
        s == "<xs:schema>"@,
    ensures
        spec_parse_schema(s, 0) == Ok::<SpecSchema, SpecError>(spec_empty_schema()),
{
    reveal_strlit("<xs:schema>");
    reveal_strlit("xs:schema");
    reveal_strlit("targetNamespace");
    reveal_strlit("elementFormDefault");
    reveal_strlit("attributeFormDefault");
    reveal_with_fuel(find_first, 13);
    assert(find_first(s, 1, tag_stops()) == 10);
    assert(s.subrange(1, 10) =~= "xs:schema"@);
    assert(spec_attr_value(s, 11, "targetNamespace"@) == (None::<Seq<char>>, 11int));
    assert(spec_attr_value(s, 11, "elementFormDefault"@) == (None::<Seq<char>>, 11int));
    assert(spec_attr_value(s, 11, "attributeFormDefault"@) == (None::<Seq<char>>, 11int));
    reveal_with_fuel(spec_schema_nodes, 3);
    assert(SpecSchema {
        target_namespace: None,
        element_form_default: None,
        attribute_form_default: None,
        nodes: Seq::<SpecNode>::empty(),
    } =~= spec_empty_schema());
}

/// Law (schema tag, all three attributes): a document consisting solely
/// of a `<xs:schema>` opening tag that carries the three recognized root
/// attributes in order, each with a nonempty value free of quotes and
/// tag terminators, parses to a schema holding exactly those three
/// values and no nodes.  The document is described by its pieces:
/// `<xs:schema targetNamespace="` v1 `" elementFormDefault="` v2
/// `" attributeFormDefault="` v3 `">`.
/// The pieces of a schema opening tag that carries all three root
/// attributes in order: shared precondition of the helper lemmas below.
pub open spec fn schema_tag_pieces(s: Seq<char>, v1: Seq<char>, v2: Seq<char>, v3: Seq<char>) -> bool {
    &&& v1.len() > 0 && v2.len() > 0 && v3.len() > 0
    &&& (forall|k: int| 0 <= k < v1.len() ==> v1[k] != '"' && v1[k] != '>')
    &&& (forall|k: int| 0 <= k < v2.len() ==> v2[k] != '"' && v2[k] != '>')
    &&& (forall|k: int| 0 <= k < v3.len() ==> v3[k] != '"' && v3[k] != '>')
    &&& s.len() == 76 + v1.len() + v2.len() + v3.len()
    &&& s.subrange(0, 28) == "<xs:schema targetNamespace=\""@
    &&& s.subrange(28, 28 + v1.len() as int) == v1
    &&& s.subrange(28 + v1.len() as int, 50 + v1.len() as int) == "\" elementFormDefault=\""@
    &&& s.subrange(50 + v1.len() as int, 50 + v1.len() as int + v2.len() as int) == v2
    &&& s.subrange(50 + v1.len() as int + v2.len() as int, 74 + v1.len() as int + v2.len() as int)
        == "\" attributeFormDefault=\""@
    &&& s.subrange(
        74 + v1.len() as int + v2.len() as int,
        74 + v1.len() as int + v2.len() as int + v3.len() as int,
    ) == v3
    &&& s.subrange(74 + v1.len() as int + v2.len() as int + v3.len() as int, s.len() as int)
        == "\">"@
}

proof fn lemma_schema_piece_tag(s: Seq<char>, v1: Seq<char>, v2: Seq<char>, v3: Seq<char>)
    requires
        schema_tag_pieces(s, v1, v2, v3),
    ensures
        find_first(s, 1, tag_stops()) == 10,
        s.subrange(1, 10) == "xs:schema"@,
        s[0] == '<',
{
    reveal_strlit("<xs:schema targetNamespace=\"");
    reveal_strlit("xs:schema");
    assert forall|j: int| 0 <= j < 28 implies #[trigger] s[j]
        == "<xs:schema targetNamespace=\""@[j] by {
        assert(s.subrange(0, 28)[j] == s[j]);
    }
    reveal_with_fuel(find_first, 13);
    assert(s.subrange(1, 10) =~= "xs:schema"@);
}

proof fn lemma_schema_piece_attr1(s: Seq<char>, v1: Seq<char>, v2: Seq<char>, v3: Seq<char>)
    requires
        schema_tag_pieces(s, v1, v2, v3),
    ensures
        spec_attr_value(s, 11, "targetNamespace"@) == (Some(v1), 29 + v1.len() as int),
{
    let n1 = v1.len() as int;
    reveal_strlit("<xs:schema targetNamespace=\"");
    reveal_strlit("\" elementFormDefault=\"");
    reveal_strlit("targetNamespace");
    assert forall|j: int| 0 <= j < 28 implies #[trigger] s[j]
        == "<xs:schema targetNamespace=\""@[j] by {
        assert(s.subrange(0, 28)[j] == s[j]);
    }
    assert(s[28 + n1] == '"') by {
        assert(s.subrange(28 + n1, 50 + n1)[0] == s[28 + n1]);
    }
    assert(s.subrange(11, 26) =~= "targetNamespace"@);
    lemma_attr_value_at(s, 11, "targetNamespace"@, 11, v1);
}

proof fn lemma_schema_piece_attr2(s: Seq<char>, v1: Seq<char>, v2: Seq<char>, v3: Seq<char>)
    requires
        schema_tag_pieces(s, v1, v2, v3),
    ensures
        spec_attr_value(s, 29 + v1.len() as int, "elementFormDefault"@) == (
            Some(v2),
            51 + v1.len() as int + v2.len() as int,
        ),
{
    let n1 = v1.len() as int;
    let n2 = v2.len() as int;
    let p2 = 29 + n1;
    let a2 = 30 + n1;
    reveal_strlit("\" elementFormDefault=\"");
    reveal_strlit("\" attributeFormDefault=\"");
    reveal_strlit("elementFormDefault");
    assert forall|j: int| 28 + n1 <= j < 50 + n1 implies #[trigger] s[j]
        == "\" elementFormDefault=\""@[j - 28 - n1] by {
        assert(s.subrange(28 + n1, 50 + n1)[j - 28 - n1] == s[j]);
    }
    assert forall|m: int| p2 <= m < a2 implies !attr_pat_at(s, m, "elementFormDefault"@) by {
        if attr_pat_at(s, m, "elementFormDefault"@) {
            assert(s.subrange(m, m + 18)[0] == s[m]);
        }
    }
    assert(s[50 + n1 + n2] == '"') by {
        assert(s.subrange(50 + n1 + n2, 74 + n1 + n2)[0] == s[50 + n1 + n2]);
    }
    assert(s.subrange(a2, a2 + 18) =~= "elementFormDefault"@);
    lemma_attr_value_at(s, p2, "elementFormDefault"@, a2, v2);
}

proof fn lemma_schema_piece_attr3(s: Seq<char>, v1: Seq<char>, v2: Seq<char>, v3: Seq<char>)
    requires
        schema_tag_pieces(s, v1, v2, v3),
    ensures
        spec_attr_value(s, 51 + v1.len() as int + v2.len() as int, "attributeFormDefault"@) == (
            Some(v3),
            75 + v1.len() as int + v2.len() as int + v3.len() as int,
        ),
{
    let n1 = v1.len() as int;
    let n2 = v2.len() as int;
    let n3 = v3.len() as int;
    let p3 = 51 + n1 + n2;
    let a3 = 52 + n1 + n2;
    reveal_strlit("\" attributeFormDefault=\"");
    reveal_strlit("\">");
    reveal_strlit("attributeFormDefault");
    assert forall|j: int| 50 + n1 + n2 <= j < 74 + n1 + n2 implies #[trigger] s[j]
        == "\" attributeFormDefault=\""@[j - 50 - n1 - n2] by {
        assert(s.subrange(50 + n1 + n2, 74 + n1 + n2)[j - 50 - n1 - n2] == s[j]);
    }
    assert forall|m: int| p3 <= m < a3 implies !attr_pat_at(s, m, "attributeFormDefault"@) by {
        if attr_pat_at(s, m, "attributeFormDefault"@) {
            assert(s.subrange(m, m + 20)[0] == s[m]);
        }
    }
    assert(s[74 + n1 + n2 + n3] == '"') by {
        assert(s.subrange(74 + n1 + n2 + n3, s.len() as int)[0] == s[74 + n1 + n2 + n3]);
    }
    assert(s.subrange(a3, a3 + 20) =~= "attributeFormDefault"@);
    lemma_attr_value_at(s, p3, "attributeFormDefault"@, a3, v3);
}

/// Law (schema tag, all three attributes): a document consisting solely
/// of a `<xs:schema>` opening tag that carries the three recognized root
/// attributes in order, each with a nonempty value free of quotes and
/// tag terminators, parses to a schema holding exactly those three
/// values and no nodes.  The document is described by its pieces:
/// `<xs:schema targetNamespace="` v1 `" elementFormDefault="` v2
/// `" attributeFormDefault="` v3 `">`.
pub proof fn lemma_schema_tag_with_attrs(s: Seq<char>, v1: Seq<char>, v2: Seq<char>, v3: Seq<char>)
    requires
        schema_tag_pieces(s, v1, v2, v3),
    ensures
        spec_parse_schema(s, 0) == Ok::<SpecSchema, SpecError>(
            SpecSchema {
                target_namespace: Some(v1),
                element_form_default: Some(v2),
                attribute_form_default: Some(v3),
                nodes: Seq::<SpecNode>::empty(),
            },
        ),
{
    let n1 = v1.len() as int;
    let n2 = v2.len() as int;
    let n3 = v3.len() as int;
    let q3 = 75 + n1 + n2 + n3;
    let sch1 = SpecSchema {
        target_namespace: Some(v1),
        element_form_default: Some(v2),
        attribute_form_default: Some(v3),
        nodes: Seq::<SpecNode>::empty(),
    };
    lemma_schema_piece_tag(s, v1, v2, v3);
    lemma_schema_piece_attr1(s, v1, v2, v3);
    lemma_schema_piece_attr2(s, v1, v2, v3);
    lemma_schema_piece_attr3(s, v1, v2, v3);
    reveal_strlit("\">");
    assert(s[q3] == '>') by {
        assert(s.subrange(74 + n1 + n2 + n3, s.len() as int)[1] == s[q3]);
    }
    assert(spec_schema_nodes(s, 0, spec_empty_schema()) == spec_schema_nodes(s, q3, sch1));
    assert(spec_schema_nodes(s, q3, sch1) == spec_schema_nodes(s, q3 + 1, sch1));
    assert(spec_schema_nodes(s, q3 + 1, sch1) == Ok::<SpecSchema, SpecError>(sch1));
}

/// The pieces of a schema opening tag that carries only the middle root
/// attribute: shared precondition of the helper lemma below.
pub open spec fn schema_tag_middle_piece(s: Seq<char>, v: Seq<char>) -> bool {
    &&& v.len() > 0
    &&& (forall|k: int| 0 <= k < v.len() ==> v[k] != '"' && v[k] != '>')
    &&& v[v.len() - 1] != '='
    &&& s.len() == 33 + v.len()
    &&& s.subrange(0, 31) == "<xs:schema elementFormDefault=\""@
    &&& s.subrange(31, 31 + v.len() as int) == v
    &&& s.subrange(31 + v.len() as int, s.len() as int) == "\">"@
}

#[verifier::rlimit(80)]
proof fn lemma_middle_piece_no_first_attr(s: Seq<char>, v: Seq<char>)
    requires
        schema_tag_middle_piece(s, v),
    ensures
        spec_attr_value(s, 11, "targetNamespace"@) == (None::<Seq<char>>, 11int),
{
    let n = v.len() as int;
    reveal_strlit("<xs:schema elementFormDefault=\"");
    reveal_strlit("\">");
    reveal_strlit("targetNamespace");
    assert forall|j: int| 0 <= j < 31 implies #[trigger] s[j]
        == "<xs:schema elementFormDefault=\""@[j] by {
        assert(s.subrange(0, 31)[j] == s[j]);
    }
    assert forall|j: int| 31 <= j < 31 + n implies #[trigger] s[j] == v[j - 31] by {
        assert(s.subrange(31, 31 + n)[j - 31] == s[j]);
    }
    assert forall|j: int| 31 + n <= j < 33 + n implies #[trigger] s[j] == "\">"@[j - 31 - n] by {
        assert(s.subrange(31 + n, s.len() as int)[j - 31 - n] == s[j]);
    }
    let end = find_first(s, 11, gt_stop());
    lemma_find_first_bounds(s, 11, gt_stop());
    assert forall|m: int| 11 <= m && m + 15 + 2 <= end implies !attr_pat_at(
        s,
        m,
        "targetNamespace"@,
    ) by {
        if attr_pat_at(s, m, "targetNamespace"@) {
            assert(s[m + 16] == '"');
            if m + 16 == 30 {
                assert(s.subrange(m, m + 15)[0] == s[m]);
                assert(s[14] == 'm');
            } else if m + 16 == 31 + n {
                assert(s[m + 15] == '=');
                assert(s[30 + n] == v[n - 1]);
            } else if m + 16 < 31 {
                assert(s[m + 16] == "<xs:schema elementFormDefault=\""@[m + 16]);
            } else if m + 16 < 31 + n {
                assert(s[m + 16] == v[m + 16 - 31]);
            } else {
                assert(s[m + 16] == "\">"@[m + 16 - 31 - n]);
            }
        }
    }
    lemma_find_attr_none(s, 11, end, "targetNamespace"@);
}

/// Law (schema tag, middle attribute only): a document consisting
/// solely of a `<xs:schema>` opening tag that carries only
/// `elementFormDefault` parses to a schema where exactly that attribute
/// is present: the two absent attributes stay absent even though a
/// quoted value stands in the tag.  The document is described by its
/// pieces: `<xs:schema elementFormDefault="` v `">`; the value is
/// nonempty, free of quotes and tag terminators, and does not end in
/// `=`.
pub proof fn lemma_schema_tag_middle_attr(s: Seq<char>, v: Seq<char>)
    requires
        schema_tag_middle_piece(s, v),
    ensures
        spec_parse_schema(s, 0) == Ok::<SpecSchema, SpecError>(
            SpecSchema {
                target_namespace: None,
                element_form_default: Some(v),
                attribute_form_default: None,
                nodes: Seq::<SpecNode>::empty(),
            },
        ),
{
    let n = v.len() as int;
    reveal_strlit("<xs:schema elementFormDefault=\"");
    reveal_strlit("\">");
    reveal_strlit("xs:schema");
    reveal_strlit("elementFormDefault");
    reveal_strlit("attributeFormDefault");
    assert forall|j: int| 0 <= j < 31 implies #[trigger] s[j]
        == "<xs:schema elementFormDefault=\""@[j] by {
        assert(s.subrange(0, 31)[j] == s[j]);
    }
    assert forall|j: int| 31 + n <= j < 33 + n implies #[trigger] s[j] == "\">"@[j - 31 - n] by {
        assert(s.subrange(31 + n, s.len() as int)[j - 31 - n] == s[j]);
    }
    // the opening tag's name
    assert(find_first(s, 1, tag_stops()) == 10) by {
        reveal_with_fuel(find_first, 13);
    }
    assert(s.subrange(1, 10) =~= "xs:schema"@);
    // the first recognized attribute is absent
    lemma_middle_piece_no_first_attr(s, v);
    // the second stands at the cursor
    assert(spec_attr_value(s, 11, "elementFormDefault"@) == (Some(v), 32 + n)) by {
        assert(s.subrange(11, 29) =~= "elementFormDefault"@);
        assert(s[31 + n] == '"');
        lemma_attr_value_at(s, 11, "elementFormDefault"@, 11, v);
    }
    // the third is absent: its pattern cannot fit before the tag's end
    assert(s[32 + n] == '>');
    lemma_find_first_is(s, 32 + n, gt_stop(), 32 + n);
    assert(spec_attr_value(s, 32 + n, "attributeFormDefault"@) == (None::<Seq<char>>, 32 + n));
    // the assembler sees the closing `>` and then the end of the input
    let sch1 = SpecSchema {
        target_namespace: None,
        element_form_default: Some(v),
        attribute_form_default: None,
        nodes: Seq::<SpecNode>::empty(),
    };
    assert(spec_schema_nodes(s, 0, spec_empty_schema()) == spec_schema_nodes(s, 32 + n, sch1));
    assert(spec_schema_nodes(s, 32 + n, sch1) == spec_schema_nodes(s, 33 + n, sch1));
    assert(spec_schema_nodes(s, 33 + n, sch1) == Ok::<SpecSchema, SpecError>(sch1));
}

/// The pieces of a schema opening tag that carries only the first root
/// attribute: shared precondition of the law below.
pub open spec fn schema_tag_first_piece(s: Seq<char>, v: Seq<char>) -> bool {
    &&& v.len() > 0
    &&& (forall|k: int| 0 <= k < v.len() ==> v[k] != '"' && v[k] != '>')
    &&& s.len() == 30 + v.len()
    &&& s.subrange(0, 28) == "<xs:schema targetNamespace=\""@
    &&& s.subrange(28, 28 + v.len() as int) == v
    &&& s.subrange(28 + v.len() as int, s.len() as int) == "\">"@
}

/// Law (schema tag, first attribute only): a document consisting solely
/// of a `<xs:schema>` opening tag that carries only `targetNamespace`
/// parses to a schema where exactly that attribute is present.  The
/// document is described by its pieces:
/// `<xs:schema targetNamespace="` v `">`.
pub proof fn lemma_schema_tag_first_attr(s: Seq<char>, v: Seq<char>)
    requires
        schema_tag_first_piece(s, v),
    ensures
        spec_parse_schema(s, 0) == Ok::<SpecSchema, SpecError>(
            SpecSchema {
                target_namespace: Some(v),
                element_form_default: None,
                attribute_form_default: None,
                nodes: Seq::<SpecNode>::empty(),
            },
        ),
{
    let n = v.len() as int;
    reveal_strlit("<xs:schema targetNamespace=\"");
    reveal_strlit("\">");
    reveal_strlit("xs:schema");
    reveal_strlit("targetNamespace");
    reveal_strlit("elementFormDefault");
    reveal_strlit("attributeFormDefault");
    assert forall|j: int| 0 <= j < 28 implies #[trigger] s[j]
        == "<xs:schema targetNamespace=\""@[j] by {
        assert(s.subrange(0, 28)[j] == s[j]);
    }
    assert forall|j: int| 28 + n <= j < 30 + n implies #[trigger] s[j] == "\">"@[j - 28 - n] by {
        assert(s.subrange(28 + n, s.len() as int)[j - 28 - n] == s[j]);
    }
    assert(find_first(s, 1, tag_stops()) == 10) by {
        reveal_with_fuel(find_first, 13);
    }
    assert(s.subrange(1, 10) =~= "xs:schema"@);
    assert(spec_attr_value(s, 11, "targetNamespace"@) == (Some(v), 29 + n)) by {
        assert(s.subrange(11, 26) =~= "targetNamespace"@);
        assert(s[28 + n] == '"');
        lemma_attr_value_at(s, 11, "targetNamespace"@, 11, v);
    }
    assert(s[29 + n] == '>');
    lemma_find_first_is(s, 29 + n, gt_stop(), 29 + n);
    assert(spec_attr_value(s, 29 + n, "elementFormDefault"@) == (None::<Seq<char>>, 29 + n));
    assert(spec_attr_value(s, 29 + n, "attributeFormDefault"@) == (None::<Seq<char>>, 29 + n));
    let sch1 = SpecSchema {
        target_namespace: Some(v),
        element_form_default: None,
        attribute_form_default: None,
        nodes: Seq::<SpecNode>::empty(),
    };
    assert(spec_schema_nodes(s, 0, spec_empty_schema()) == spec_schema_nodes(s, 29 + n, sch1));
    assert(spec_schema_nodes(s, 29 + n, sch1) == spec_schema_nodes(s, 30 + n, sch1));
    assert(spec_schema_nodes(s, 30 + n, sch1) == Ok::<SpecSchema, SpecError>(sch1));
}

/// The pieces of a schema opening tag that carries only the last root
/// attribute: shared precondition of the helper lemma and the law below.
pub open spec fn schema_tag_last_piece(s: Seq<char>, v: Seq<char>) -> bool {
    &&& v.len() > 0
    &&& (forall|k: int| 0 <= k < v.len() ==> v[k] != '"' && v[k] != '>')
    &&& v[v.len() - 1] != '='
    &&& s.len() == 35 + v.len()
    &&& s.subrange(0, 33) == "<xs:schema attributeFormDefault=\""@
    &&& s.subrange(33, 33 + v.len() as int) == v
    &&& s.subrange(33 + v.len() as int, s.len() as int) == "\">"@
}

#[verifier::rlimit(80)]
proof fn lemma_last_piece_absent_attrs(s: Seq<char>, v: Seq<char>)
    requires
        schema_tag_last_piece(s, v),
    ensures
        spec_attr_value(s, 11, "targetNamespace"@) == (None::<Seq<char>>, 11int),
        spec_attr_value(s, 11, "elementFormDefault"@) == (None::<Seq<char>>, 11int),
{
    let n = v.len() as int;
    reveal_strlit("<xs:schema attributeFormDefault=\"");
    reveal_strlit("\">");
    reveal_strlit("targetNamespace");
    reveal_strlit("elementFormDefault");
    assert forall|j: int| 0 <= j < 33 implies #[trigger] s[j]
        == "<xs:schema attributeFormDefault=\""@[j] by {
        assert(s.subrange(0, 33)[j] == s[j]);
    }
    assert forall|j: int| 33 <= j < 33 + n implies #[trigger] s[j] == v[j - 33] by {
        assert(s.subrange(33, 33 + n)[j - 33] == s[j]);
    }
    assert forall|j: int| 33 + n <= j < 35 + n implies #[trigger] s[j] == "\">"@[j - 33 - n] by {
        assert(s.subrange(33 + n, s.len() as int)[j - 33 - n] == s[j]);
    }
    let end = find_first(s, 11, gt_stop());
    lemma_find_first_bounds(s, 11, gt_stop());
    assert forall|m: int| 11 <= m && m + 15 + 2 <= end implies !attr_pat_at(
        s,
        m,
        "targetNamespace"@,
    ) by {
        if attr_pat_at(s, m, "targetNamespace"@) {
            assert(s[m + 16] == '"');
            if m + 16 == 32 {
                assert(s.subrange(m, m + 15)[0] == s[m]);
                assert(s[16] == 'b');
            } else if m + 16 == 33 + n {
                assert(s[m + 15] == '=');
                assert(s[32 + n] == v[n - 1]);
            }
        }
    }
    lemma_find_attr_none(s, 11, end, "targetNamespace"@);
    assert forall|m: int| 11 <= m && m + 18 + 2 <= end implies !attr_pat_at(
        s,
        m,
        "elementFormDefault"@,
    ) by {
        if attr_pat_at(s, m, "elementFormDefault"@) {
            assert(s[m + 19] == '"');
            if m + 19 == 32 {
                assert(s.subrange(m, m + 18)[0] == s[m]);
                assert(s[13] == 't');
            } else if m + 19 == 33 + n {
                assert(s[m + 18] == '=');
                assert(s[32 + n] == v[n - 1]);
            }
        }
    }
    lemma_find_attr_none(s, 11, end, "elementFormDefault"@);
}

/// Law (schema tag, last attribute only): a document consisting solely
/// of a `<xs:schema>` opening tag that carries only
/// `attributeFormDefault` parses to a schema where exactly that
/// attribute is present; the two recognized attributes that precede it
/// in the scanning order stay absent even though a quoted value stands
/// in the tag.  The document is described by its pieces:
/// `<xs:schema attributeFormDefault="` v `">`; the value is nonempty,
/// free of quotes and tag terminators, and does not end in `=`.
pub proof fn lemma_schema_tag_last_attr(s: Seq<char>, v: Seq<char>)
    requires
        schema_tag_last_piece(s, v),
    ensures
        spec_parse_schema(s, 0) == Ok::<SpecSchema, SpecError>(
            SpecSchema {
                target_namespace: None,
                element_form_default: None,
                attribute_form_default: Some(v),
                nodes: Seq::<SpecNode>::empty(),
            },
        ),
{
    let n = v.len() as int;
    reveal_strlit("<xs:schema attributeFormDefault=\"");
    reveal_strlit("\">");
    reveal_strlit("xs:schema");
    reveal_strlit("attributeFormDefault");
    assert forall|j: int| 0 <= j < 33 implies #[trigger] s[j]
        == "<xs:schema attributeFormDefault=\""@[j] by {
        assert(s.subrange(0, 33)[j] == s[j]);
    }
    assert forall|j: int| 33 + n <= j < 35 + n implies #[trigger] s[j] == "\">"@[j - 33 - n] by {
        assert(s.subrange(33 + n, s.len() as int)[j - 33 - n] == s[j]);
    }
    assert(find_first(s, 1, tag_stops()) == 10) by {
        reveal_with_fuel(find_first, 13);
    }
    assert(s.subrange(1, 10) =~= "xs:schema"@);
    lemma_last_piece_absent_attrs(s, v);
    assert(spec_attr_value(s, 11, "attributeFormDefault"@) == (Some(v), 34 + n)) by {
        assert(s.subrange(11, 31) =~= "attributeFormDefault"@);
        assert(s[33 + n] == '"');
        lemma_attr_value_at(s, 11, "attributeFormDefault"@, 11, v);
    }
    assert(s[34 + n] == '>');
    let sch1 = SpecSchema {
        target_namespace: None,
        element_form_default: None,
        attribute_form_default: Some(v),
        nodes: Seq::<SpecNode>::empty(),
    };
    assert(spec_schema_nodes(s, 0, spec_empty_schema()) == spec_schema_nodes(s, 34 + n, sch1));
    assert(spec_schema_nodes(s, 34 + n, sch1) == spec_schema_nodes(s, 35 + n, sch1));
    assert(spec_schema_nodes(s, 35 + n, sch1) == Ok::<SpecSchema, SpecError>(sch1));
}

/// The pieces of a schema opening tag that carries the first two root
/// attributes: shared precondition of the law below.
pub open spec fn schema_tag_first_two_pieces(s: Seq<char>, v1: Seq<char>, v2: Seq<char>) -> bool {
    &&& v1.len() > 0 && v2.len() > 0
    &&& (forall|k: int| 0 <= k < v1.len() ==> v1[k] != '"' && v1[k] != '>')
    &&& (forall|k: int| 0 <= k < v2.len() ==> v2[k] != '"' && v2[k] != '>')
    &&& s.len() == 52 + v1.len() + v2.len()
    &&& s.subrange(0, 28) == "<xs:schema targetNamespace=\""@
    &&& s.subrange(28, 28 + v1.len() as int) == v1
    &&& s.subrange(28 + v1.len() as int, 50 + v1.len() as int) == "\" elementFormDefault=\""@
    &&& s.subrange(50 + v1.len() as int, 50 + v1.len() as int + v2.len() as int) == v2
    &&& s.subrange(50 + v1.len() as int + v2.len() as int, s.len() as int) == "\">"@
}

/// Law (schema tag, first two attributes): a document consisting solely
/// of a `<xs:schema>` opening tag that carries `targetNamespace` and
/// `elementFormDefault`, in order, parses to a schema where exactly
/// those two are present.  The document is described by its pieces:
/// `<xs:schema targetNamespace="` v1 `" elementFormDefault="` v2 `">`.
proof fn lemma_first_two_piece_attr1(s: Seq<char>, v1: Seq<char>, v2: Seq<char>)
    requires
        schema_tag_first_two_pieces(s, v1, v2),
    ensures
        spec_attr_value(s, 11, "targetNamespace"@) == (Some(v1), 29 + v1.len() as int),
{
    let n1 = v1.len() as int;
    reveal_strlit("<xs:schema targetNamespace=\"");
    reveal_strlit("\" elementFormDefault=\"");
    reveal_strlit("targetNamespace");
    assert forall|j: int| 0 <= j < 28 implies #[trigger] s[j]
        == "<xs:schema targetNamespace=\""@[j] by {
        assert(s.subrange(0, 28)[j] == s[j]);
    }
    assert(s[28 + n1] == '"') by {
        assert(s.subrange(28 + n1, 50 + n1)[0] == s[28 + n1]);
    }
    assert(s.subrange(11, 26) =~= "targetNamespace"@);
    lemma_attr_value_at(s, 11, "targetNamespace"@, 11, v1);
}

proof fn lemma_first_two_piece_attr2(s: Seq<char>, v1: Seq<char>, v2: Seq<char>)
    requires
        schema_tag_first_two_pieces(s, v1, v2),
    ensures
        spec_attr_value(s, 29 + v1.len() as int, "elementFormDefault"@) == (
            Some(v2),
            51 + v1.len() as int + v2.len() as int,
        ),
{
    let n1 = v1.len() as int;
    let n2 = v2.len() as int;
    let p2 = 29 + n1;
    let a2 = 30 + n1;
    reveal_strlit("\" elementFormDefault=\"");
    reveal_strlit("\">");
    reveal_strlit("elementFormDefault");
    assert forall|j: int| 28 + n1 <= j < 50 + n1 implies #[trigger] s[j]
        == "\" elementFormDefault=\""@[j - 28 - n1] by {
        assert(s.subrange(28 + n1, 50 + n1)[j - 28 - n1] == s[j]);
    }
    assert forall|m: int| p2 <= m < a2 implies !attr_pat_at(s, m, "elementFormDefault"@) by {
        if attr_pat_at(s, m, "elementFormDefault"@) {
            assert(s.subrange(m, m + 18)[0] == s[m]);
        }
    }
    assert(s[50 + n1 + n2] == '"') by {
        assert(s.subrange(50 + n1 + n2, s.len() as int)[0] == s[50 + n1 + n2]);
    }
    assert(s.subrange(a2, a2 + 18) =~= "elementFormDefault"@);
    lemma_attr_value_at(s, p2, "elementFormDefault"@, a2, v2);
}

/// Law (schema tag, first two attributes): a document consisting solely
/// of a `<xs:schema>` opening tag that carries `targetNamespace` and
/// `elementFormDefault`, in order, parses to a schema where exactly
/// those two are present.  The document is described by its pieces:
/// `<xs:schema targetNamespace="` v1 `" elementFormDefault="` v2 `">`.
pub proof fn lemma_schema_tag_first_two_attrs(s: Seq<char>, v1: Seq<char>, v2: Seq<char>)
    requires
        schema_tag_first_two_pieces(s, v1, v2),
    ensures
        spec_parse_schema(s, 0) == Ok::<SpecSchema, SpecError>(
            SpecSchema {
                target_namespace: Some(v1),
                element_form_default: Some(v2),
                attribute_form_default: None,
                nodes: Seq::<SpecNode>::empty(),
            },
        ),
{
    let n1 = v1.len() as int;
    let n2 = v2.len() as int;
    reveal_strlit("<xs:schema targetNamespace=\"");
    reveal_strlit("\">");
    reveal_strlit("xs:schema");
    reveal_strlit("attributeFormDefault");
    assert forall|j: int| 0 <= j < 28 implies #[trigger] s[j]
        == "<xs:schema targetNamespace=\""@[j] by {
        assert(s.subrange(0, 28)[j] == s[j]);
    }
    assert forall|j: int| 50 + n1 + n2 <= j < 52 + n1 + n2 implies #[trigger] s[j]
        == "\">"@[j - 50 - n1 - n2] by {
        assert(s.subrange(50 + n1 + n2, s.len() as int)[j - 50 - n1 - n2] == s[j]);
    }
    assert(find_first(s, 1, tag_stops()) == 10) by {
        reveal_with_fuel(find_first, 13);
    }
    assert(s.subrange(1, 10) =~= "xs:schema"@);
    lemma_first_two_piece_attr1(s, v1, v2);
    lemma_first_two_piece_attr2(s, v1, v2);
    assert(s[51 + n1 + n2] == '>');
    lemma_find_first_is(s, 51 + n1 + n2, gt_stop(), 51 + n1 + n2);
    assert(spec_attr_value(s, 51 + n1 + n2, "attributeFormDefault"@) == (
        None::<Seq<char>>,
        51 + n1 + n2,
    ));
    let sch1 = SpecSchema {
        target_namespace: Some(v1),
        element_form_default: Some(v2),
        attribute_form_default: None,
        nodes: Seq::<SpecNode>::empty(),
    };
    assert(spec_schema_nodes(s, 0, spec_empty_schema()) == spec_schema_nodes(
        s,
        51 + n1 + n2,
        sch1,
    ));
    assert(spec_schema_nodes(s, 51 + n1 + n2, sch1) == spec_schema_nodes(s, 52 + n1 + n2, sch1));
    assert(spec_schema_nodes(s, 52 + n1 + n2, sch1) == Ok::<SpecSchema, SpecError>(sch1));
}

/// The pieces of a schema opening tag that carries the first and last
/// root attributes: shared precondition of the helper lemmas and the
/// law below.
pub open spec fn schema_tag_outer_pieces(s: Seq<char>, v1: Seq<char>, v2: Seq<char>) -> bool {
    &&& v1.len() > 0 && v2.len() > 0
    &&& (forall|k: int| 0 <= k < v1.len() ==> v1[k] != '"' && v1[k] != '>')
    &&& (forall|k: int| 0 <= k < v2.len() ==> v2[k] != '"' && v2[k] != '>')
    &&& v2[v2.len() - 1] != '='
    &&& s.len() == 54 + v1.len() + v2.len()
    &&& s.subrange(0, 28) == "<xs:schema targetNamespace=\""@
    &&& s.subrange(28, 28 + v1.len() as int) == v1
    &&& s.subrange(28 + v1.len() as int, 52 + v1.len() as int) == "\" attributeFormDefault=\""@
    &&& s.subrange(52 + v1.len() as int, 52 + v1.len() as int + v2.len() as int) == v2
    &&& s.subrange(52 + v1.len() as int + v2.len() as int, s.len() as int) == "\">"@
}

proof fn lemma_outer_piece_attr1(s: Seq<char>, v1: Seq<char>, v2: Seq<char>)
    requires
        schema_tag_outer_pieces(s, v1, v2),
    ensures
        spec_attr_value(s, 11, "targetNamespace"@) == (Some(v1), 29 + v1.len() as int),
{
    let n1 = v1.len() as int;
    reveal_strlit("<xs:schema targetNamespace=\"");
    reveal_strlit("\" attributeFormDefault=\"");
    reveal_strlit("targetNamespace");
    assert forall|j: int| 0 <= j < 28 implies #[trigger] s[j]
        == "<xs:schema targetNamespace=\""@[j] by {
        assert(s.subrange(0, 28)[j] == s[j]);
    }
    assert(s[28 + n1] == '"') by {
        assert(s.subrange(28 + n1, 52 + n1)[0] == s[28 + n1]);
    }
    assert(s.subrange(11, 26) =~= "targetNamespace"@);
    lemma_attr_value_at(s, 11, "targetNamespace"@, 11, v1);
}

#[verifier::rlimit(80)]
proof fn lemma_outer_piece_no_middle(s: Seq<char>, v1: Seq<char>, v2: Seq<char>)
    requires
        schema_tag_outer_pieces(s, v1, v2),
    ensures
        spec_attr_value(s, 29 + v1.len() as int, "elementFormDefault"@) == (
            None::<Seq<char>>,
            29 + v1.len() as int,
        ),
{
    let n1 = v1.len() as int;
    let n2 = v2.len() as int;
    let p2 = 29 + n1;
    reveal_strlit("\" attributeFormDefault=\"");
    reveal_strlit("\">");
    reveal_strlit("elementFormDefault");
    assert forall|j: int| 28 + n1 <= j < 52 + n1 implies #[trigger] s[j]
        == "\" attributeFormDefault=\""@[j - 28 - n1] by {
        assert(s.subrange(28 + n1, 52 + n1)[j - 28 - n1] == s[j]);
    }
    assert forall|j: int| 52 + n1 <= j < 52 + n1 + n2 implies #[trigger] s[j] == v2[j - 52 - n1] by {
        assert(s.subrange(52 + n1, 52 + n1 + n2)[j - 52 - n1] == s[j]);
    }
    assert forall|j: int| 52 + n1 + n2 <= j < 54 + n1 + n2 implies #[trigger] s[j]
        == "\">"@[j - 52 - n1 - n2] by {
        assert(s.subrange(52 + n1 + n2, s.len() as int)[j - 52 - n1 - n2] == s[j]);
    }
    let end = find_first(s, p2, gt_stop());
    lemma_find_first_bounds(s, p2, gt_stop());
    assert forall|m: int| p2 <= m && m + 18 + 2 <= end implies !attr_pat_at(
        s,
        m,
        "elementFormDefault"@,
    ) by {
        if attr_pat_at(s, m, "elementFormDefault"@) {
            assert(s[m + 19] == '"');
            if m + 19 == 51 + n1 {
                assert(s.subrange(m, m + 18)[0] == s[m]);
                assert(s[32 + n1] == 't');
            } else if m + 19 == 52 + n1 + n2 {
                assert(s[m + 18] == '=');
                assert(s[51 + n1 + n2] == v2[n2 - 1]);
            }
        }
    }
    lemma_find_attr_none(s, p2, end, "elementFormDefault"@);
}

proof fn lemma_outer_piece_attr3(s: Seq<char>, v1: Seq<char>, v2: Seq<char>)
    requires
        schema_tag_outer_pieces(s, v1, v2),
    ensures
        spec_attr_value(s, 29 + v1.len() as int, "attributeFormDefault"@) == (
            Some(v2),
            53 + v1.len() as int + v2.len() as int,
        ),
{
    let n1 = v1.len() as int;
    let n2 = v2.len() as int;
    let p2 = 29 + n1;
    let a2 = 30 + n1;
    reveal_strlit("\" attributeFormDefault=\"");
    reveal_strlit("\">");
    reveal_strlit("attributeFormDefault");
    assert forall|j: int| 28 + n1 <= j < 52 + n1 implies #[trigger] s[j]
        == "\" attributeFormDefault=\""@[j - 28 - n1] by {
        assert(s.subrange(28 + n1, 52 + n1)[j - 28 - n1] == s[j]);
    }
    assert forall|m: int| p2 <= m < a2 implies !attr_pat_at(s, m, "attributeFormDefault"@) by {
        if attr_pat_at(s, m, "attributeFormDefault"@) {
            assert(s.subrange(m, m + 20)[0] == s[m]);
        }
    }
    assert(s[52 + n1 + n2] == '"') by {
        assert(s.subrange(52 + n1 + n2, s.len() as int)[0] == s[52 + n1 + n2]);
    }
    assert(s.subrange(a2, a2 + 20) =~= "attributeFormDefault"@);
    lemma_attr_value_at(s, p2, "attributeFormDefault"@, a2, v2);
}

/// Law (schema tag, first and last attributes): a document consisting
/// solely of a `<xs:schema>` opening tag that carries `targetNamespace`
/// and `attributeFormDefault`, in order, parses to a schema where
/// exactly those two are present; `elementFormDefault` stays absent
/// even though quoted values stand in the tag.  The document is
/// described by its pieces:
/// `<xs:schema targetNamespace="` v1 `" attributeFormDefault="` v2
/// `">`; the second value does not end in `=`.
pub proof fn lemma_schema_tag_outer_attrs(s: Seq<char>, v1: Seq<char>, v2: Seq<char>)
    requires
        schema_tag_outer_pieces(s, v1, v2),
    ensures
        spec_parse_schema(s, 0) == Ok::<SpecSchema, SpecError>(
            SpecSchema {
                target_namespace: Some(v1),
                element_form_default: None,
                attribute_form_default: Some(v2),
                nodes: Seq::<SpecNode>::empty(),
            },
        ),
{
    let n1 = v1.len() as int;
    let n2 = v2.len() as int;
    reveal_strlit("<xs:schema targetNamespace=\"");
    reveal_strlit("\">");
    reveal_strlit("xs:schema");
    assert forall|j: int| 0 <= j < 28 implies #[trigger] s[j]
        == "<xs:schema targetNamespace=\""@[j] by {
        assert(s.subrange(0, 28)[j] == s[j]);
    }
    assert forall|j: int| 52 + n1 + n2 <= j < 54 + n1 + n2 implies #[trigger] s[j]
        == "\">"@[j - 52 - n1 - n2] by {
        assert(s.subrange(52 + n1 + n2, s.len() as int)[j - 52 - n1 - n2] == s[j]);
    }
    assert(find_first(s, 1, tag_stops()) == 10) by {
        reveal_with_fuel(find_first, 13);
    }
    assert(s.subrange(1, 10) =~= "xs:schema"@);
    lemma_outer_piece_attr1(s, v1, v2);
    lemma_outer_piece_no_middle(s, v1, v2);
    lemma_outer_piece_attr3(s, v1, v2);
    assert(s[53 + n1 + n2] == '>');
    let sch1 = SpecSchema {
        target_namespace: Some(v1),
        element_form_default: None,
        attribute_form_default: Some(v2),
        nodes: Seq::<SpecNode>::empty(),
    };
    assert(spec_schema_nodes(s, 0, spec_empty_schema()) == spec_schema_nodes(
        s,
        53 + n1 + n2,
        sch1,
    ));
    assert(spec_schema_nodes(s, 53 + n1 + n2, sch1) == spec_schema_nodes(s, 54 + n1 + n2, sch1));
    assert(spec_schema_nodes(s, 54 + n1 + n2, sch1) == Ok::<SpecSchema, SpecError>(sch1));
}

/// The pieces of a schema opening tag that carries the last two root
/// attributes: shared precondition of the helper lemmas and the law
/// below.
pub open spec fn schema_tag_last_two_pieces(s: Seq<char>, v1: Seq<char>, v2: Seq<char>) -> bool {
    &&& v1.len() > 0 && v2.len() > 0
    &&& (forall|k: int| 0 <= k < v1.len() ==> v1[k] != '"' && v1[k] != '>')
    &&& (forall|k: int| 0 <= k < v2.len() ==> v2[k] != '"' && v2[k] != '>')
    &&& v1[v1.len() - 1] != '='
    &&& v2[v2.len() - 1] != '='
    &&& s.len() == 57 + v1.len() + v2.len()
    &&& s.subrange(0, 31) == "<xs:schema elementFormDefault=\""@
    &&& s.subrange(31, 31 + v1.len() as int) == v1
    &&& s.subrange(31 + v1.len() as int, 55 + v1.len() as int) == "\" attributeFormDefault=\""@
    &&& s.subrange(55 + v1.len() as int, 55 + v1.len() as int + v2.len() as int) == v2
    &&& s.subrange(55 + v1.len() as int + v2.len() as int, s.len() as int) == "\">"@
}

#[verifier::rlimit(80)]
proof fn lemma_last_two_piece_no_first(s: Seq<char>, v1: Seq<char>, v2: Seq<char>)
    requires
        schema_tag_last_two_pieces(s, v1, v2),
    ensures
        spec_attr_value(s, 11, "targetNamespace"@) == (None::<Seq<char>>, 11int),
{
    let n1 = v1.len() as int;
    let n2 = v2.len() as int;
    reveal_strlit("<xs:schema elementFormDefault=\"");
    reveal_strlit("\" attributeFormDefault=\"");
    reveal_strlit("\">");
    reveal_strlit("targetNamespace");
    assert forall|j: int| 0 <= j < 31 implies #[trigger] s[j]
        == "<xs:schema elementFormDefault=\""@[j] by {
        assert(s.subrange(0, 31)[j] == s[j]);
    }
    assert forall|j: int| 31 <= j < 31 + n1 implies #[trigger] s[j] == v1[j - 31] by {
        assert(s.subrange(31, 31 + n1)[j - 31] == s[j]);
    }
    assert forall|j: int| 31 + n1 <= j < 55 + n1 implies #[trigger] s[j]
        == "\" attributeFormDefault=\""@[j - 31 - n1] by {
        assert(s.subrange(31 + n1, 55 + n1)[j - 31 - n1] == s[j]);
    }
    assert forall|j: int| 55 + n1 <= j < 55 + n1 + n2 implies #[trigger] s[j] == v2[j - 55 - n1] by {
        assert(s.subrange(55 + n1, 55 + n1 + n2)[j - 55 - n1] == s[j]);
    }
    assert forall|j: int| 55 + n1 + n2 <= j < 57 + n1 + n2 implies #[trigger] s[j]
        == "\">"@[j - 55 - n1 - n2] by {
        assert(s.subrange(55 + n1 + n2, s.len() as int)[j - 55 - n1 - n2] == s[j]);
    }
    let end = find_first(s, 11, gt_stop());
    lemma_find_first_bounds(s, 11, gt_stop());
    assert forall|m: int| 11 <= m && m + 15 + 2 <= end implies !attr_pat_at(
        s,
        m,
        "targetNamespace"@,
    ) by {
        if attr_pat_at(s, m, "targetNamespace"@) {
            assert(s[m + 16] == '"');
            if m + 16 == 30 {
                assert(s.subrange(m, m + 15)[0] == s[m]);
                assert(s[14] == 'm');
            } else if m + 16 == 31 + n1 {
                assert(s[m + 15] == '=');
                assert(s[30 + n1] == v1[n1 - 1]);
            } else if m + 16 == 54 + n1 {
                assert(s.subrange(m, m + 15)[0] == s[m]);
                assert(s[38 + n1] == 'b');
            } else if m + 16 == 55 + n1 + n2 {
                assert(s[m + 15] == '=');
                assert(s[54 + n1 + n2] == v2[n2 - 1]);
            }
        }
    }
    lemma_find_attr_none(s, 11, end, "targetNamespace"@);
}

proof fn lemma_last_two_piece_attr2(s: Seq<char>, v1: Seq<char>, v2: Seq<char>)
    requires
        schema_tag_last_two_pieces(s, v1, v2),
    ensures
        spec_attr_value(s, 11, "elementFormDefault"@) == (Some(v1), 32 + v1.len() as int),
{
    let n1 = v1.len() as int;
    reveal_strlit("<xs:schema elementFormDefault=\"");
    reveal_strlit("\" attributeFormDefault=\"");
    reveal_strlit("elementFormDefault");
    assert forall|j: int| 0 <= j < 31 implies #[trigger] s[j]
        == "<xs:schema elementFormDefault=\""@[j] by {
        assert(s.subrange(0, 31)[j] == s[j]);
    }
    assert(s[31 + n1] == '"') by {
        assert(s.subrange(31 + n1, 55 + n1)[0] == s[31 + n1]);
    }
    assert(s.subrange(11, 29) =~= "elementFormDefault"@);
    lemma_attr_value_at(s, 11, "elementFormDefault"@, 11, v1);
}

proof fn lemma_last_two_piece_attr3(s: Seq<char>, v1: Seq<char>, v2: Seq<char>)
    requires
        schema_tag_last_two_pieces(s, v1, v2),
    ensures
        spec_attr_value(s, 32 + v1.len() as int, "attributeFormDefault"@) == (
            Some(v2),
            56 + v1.len() as int + v2.len() as int,
        ),
{
    let n1 = v1.len() as int;
    let n2 = v2.len() as int;
    let p2 = 32 + n1;
    let a2 = 33 + n1;
    reveal_strlit("\" attributeFormDefault=\"");
    reveal_strlit("\">");
    reveal_strlit("attributeFormDefault");
    assert forall|j: int| 31 + n1 <= j < 55 + n1 implies #[trigger] s[j]
        == "\" attributeFormDefault=\""@[j - 31 - n1] by {
        assert(s.subrange(31 + n1, 55 + n1)[j - 31 - n1] == s[j]);
    }
    assert forall|m: int| p2 <= m < a2 implies !attr_pat_at(s, m, "attributeFormDefault"@) by {
        if attr_pat_at(s, m, "attributeFormDefault"@) {
            assert(s.subrange(m, m + 20)[0] == s[m]);
        }
    }
    assert(s[55 + n1 + n2] == '"') by {
        assert(s.subrange(55 + n1 + n2, s.len() as int)[0] == s[55 + n1 + n2]);
    }
    assert(s.subrange(a2, a2 + 20) =~= "attributeFormDefault"@);
    lemma_attr_value_at(s, p2, "attributeFormDefault"@, a2, v2);
}

/// Law (schema tag, last two attributes): a document consisting solely
/// of a `<xs:schema>` opening tag that carries `elementFormDefault` and
/// `attributeFormDefault`, in order, parses to a schema where exactly
/// those two are present; `targetNamespace` stays absent even though
/// quoted values stand in the tag.  The document is described by its
/// pieces: `<xs:schema elementFormDefault="` v1
/// `" attributeFormDefault="` v2 `">`; neither value ends in `=`.
pub proof fn lemma_schema_tag_last_two_attrs(s: Seq<char>, v1: Seq<char>, v2: Seq<char>)
    requires
        schema_tag_last_two_pieces(s, v1, v2),
    ensures
        spec_parse_schema(s, 0) == Ok::<SpecSchema, SpecError>(
            SpecSchema {
                target_namespace: None,
                element_form_default: Some(v1),
                attribute_form_default: Some(v2),
                nodes: Seq::<SpecNode>::empty(),
            },
        ),
{
    let n1 = v1.len() as int;
    let n2 = v2.len() as int;
    reveal_strlit("<xs:schema elementFormDefault=\"");
    reveal_strlit("\">");
    reveal_strlit("xs:schema");
    assert forall|j: int| 0 <= j < 31 implies #[trigger] s[j]
        == "<xs:schema elementFormDefault=\""@[j] by {
        assert(s.subrange(0, 31)[j] == s[j]);
    }
    assert forall|j: int| 55 + n1 + n2 <= j < 57 + n1 + n2 implies #[trigger] s[j]
        == "\">"@[j - 55 - n1 - n2] by {
        assert(s.subrange(55 + n1 + n2, s.len() as int)[j - 55 - n1 - n2] == s[j]);
    }
    assert(find_first(s, 1, tag_stops()) == 10) by {
        reveal_with_fuel(find_first, 13);
    }
    assert(s.subrange(1, 10) =~= "xs:schema"@);
    lemma_last_two_piece_no_first(s, v1, v2);
    lemma_last_two_piece_attr2(s, v1, v2);
    lemma_last_two_piece_attr3(s, v1, v2);
    assert(s[56 + n1 + n2] == '>');
    let sch1 = SpecSchema {
        target_namespace: None,
        element_form_default: Some(v1),
        attribute_form_default: Some(v2),
        nodes: Seq::<SpecNode>::empty(),
    };
    assert(spec_schema_nodes(s, 0, spec_empty_schema()) == spec_schema_nodes(
        s,
        56 + n1 + n2,
        sch1,
    ));
    assert(spec_schema_nodes(s, 56 + n1 + n2, sch1) == spec_schema_nodes(s, 57 + n1 + n2, sch1));
    assert(spec_schema_nodes(s, 57 + n1 + n2, sch1) == Ok::<SpecSchema, SpecError>(sch1));
}

} // verus!
