//! The executable parser: a forward-only character cursor over the input
//! buffer and one method per construct of the grammar.  Every method's
//! contract states that it computes exactly the corresponding function of
//! [`crate::grammar`] on the input's character sequence.

use vstd::prelude::*;

use crate::grammar::spec_attr_value;
use crate::grammar::spec_ct_children;
use crate::grammar::spec_empty_schema;
use crate::grammar::spec_parse_complex_type;
use crate::grammar::spec_parse_schema;
use crate::grammar::spec_particles;
use crate::grammar::spec_schema_nodes;
use crate::grammar::spec_skip_close;
use crate::grammar::spec_detect_datatype;
use crate::grammar::spec_parse_attribute;
use crate::grammar::spec_parse_element;
use crate::grammar::spec_parse_extension;
use crate::grammar::spec_parse_simple_content;
use crate::grammar::spec_parse_simple_type;
use crate::grammar::spec_datatype_name;
use crate::grammar::spec_tag_name;
use crate::model::Attribute;
use crate::model::ComplexContent;
use crate::model::ComplexType;
use crate::model::SpecComplexType;
use crate::model::SpecError;
use crate::model::SpecNode;
use crate::model::SpecSchema;
use crate::model::XmlSchema;
use crate::model::XmlSchemaNode;
use crate::model::ComplexContentExtension;
use crate::model::Datatype;
use crate::model::Element;
use crate::model::SchemaError;
use crate::model::SimpleContent;
use crate::model::SimpleDatatype;
use crate::model::SimpleType;
use crate::model::UseOption;
use crate::model::datatype_of_name;
use crate::scan::consumed_to;
use crate::scan::dtname_stops;
use crate::scan::attr_pat_at;
use crate::scan::find_first;
use crate::scan::gt_stop;
use crate::scan::forward;
use crate::scan::lemma_find_attr_found;
use crate::scan::lemma_find_attr_none;
use crate::scan::lemma_find_first_bounds;
use crate::scan::lemma_find_first_is;
use crate::scan::lemma_strip_prefix_push;
use crate::scan::lt_stop;
use crate::scan::nonspace_stops;
use crate::scan::str_eq;
use crate::scan::strip_prefix;

verus! {

/// The index of the first occurrence of `a` at or after `from`, or the
/// length of `s` when there is none.
fn scan_one(s: &str, from: usize, a: char) -> (j: usize)
    requires
        from as int <= s@.len(),
    ensures
        from <= j <= s@.len(),
        j as int == find_first(s@, from as int, set![a]),
        j < s@.len() ==> s@[j as int] == a,
{
    let len = s.unicode_len();
    let mut i: usize = from;
    loop
        invariant
            len == s@.len(),
            from <= i <= len,
            forall|k: int| from <= k < i ==> !(set![a].contains(#[trigger] s@[k])),
        ensures
            from <= i <= len,
            forall|k: int| from <= k < i ==> !(set![a].contains(#[trigger] s@[k])),
            i < len ==> set![a].contains(s@[i as int]),
        decreases len - i,
    {
        if i >= len {
            break ;
        }
        let c = s.get_char(i);
        if c == a {
            break ;
        }
        i = i + 1;
    }
    proof {
        lemma_find_first_is(s@, from as int, set![a], i as int);
    }
    i
}

/// The index of the first occurrence of `a` or `b` at or after `from`,
/// or the length of `s` when there is none.
fn scan_two(s: &str, from: usize, a: char, b: char) -> (j: usize)
    requires
        from as int <= s@.len(),
    ensures
        from <= j <= s@.len(),
        j as int == find_first(s@, from as int, set![a, b]),
        j < s@.len() ==> (s@[j as int] == a || s@[j as int] == b),
{
    let len = s.unicode_len();
    let mut i: usize = from;
    loop
        invariant
            len == s@.len(),
            from <= i <= len,
            forall|k: int| from <= k < i ==> !(set![a, b].contains(#[trigger] s@[k])),
        ensures
            from <= i <= len,
            forall|k: int| from <= k < i ==> !(set![a, b].contains(#[trigger] s@[k])),
            i < len ==> set![a, b].contains(s@[i as int]),
        decreases len - i,
    {
        if i >= len {
            break ;
        }
        let c = s.get_char(i);
        if c == a || c == b {
            break ;
        }
        i = i + 1;
    }
    proof {
        lemma_find_first_is(s@, from as int, set![a, b], i as int);
    }
    i
}

/// The index of the first non-space character at or after `from`, or the
/// length of `s` when there is none.
fn scan_nonspace(s: &str, from: usize) -> (j: usize)
    requires
        from as int <= s@.len(),
    ensures
        from <= j <= s@.len(),
        j as int == find_first(s@, from as int, nonspace_stops()),
        j < s@.len() ==> s@[j as int] != ' ',
{
    let len = s.unicode_len();
    let mut i: usize = from;
    loop
        invariant
            len == s@.len(),
            from <= i <= len,
            forall|k: int| from <= k < i ==> !(nonspace_stops().contains(#[trigger] s@[k])),
        ensures
            from <= i <= len,
            forall|k: int| from <= k < i ==> !(nonspace_stops().contains(#[trigger] s@[k])),
            i < len ==> nonspace_stops().contains(s@[i as int]),
        decreases len - i,
    {
        if i >= len {
            break ;
        }
        let c = s.get_char(i);
        if c != ' ' {
            break ;
        }
        i = i + 1;
    }
    proof {
        lemma_find_first_is(s@, from as int, nonspace_stops(), i as int);
    }
    i
}

/// Whether a tag name is a closing tag: nonempty and beginning with `/`.
fn starts_with_slash(t: &str) -> (r: bool)
    ensures
        r == (t@.len() > 0 && t@[0] == '/'),
{
    if t.unicode_len() > 0 {
        t.get_char(0) == '/'
    } else {
        false
    }
}

/// The parser: the input buffer and an advancing position, a count of
/// the characters consumed so far.
pub struct XmlSchemaParser<'a> {
    pub input: &'a str,
    pub position: usize,
}

impl<'a> XmlSchemaParser<'a> {
    /// The cursor never stands past the end of the input.
    pub open spec fn wf(&self) -> bool {
        self.position <= self.input@.len()
    }

    /// A parser at the start of `input`.
    pub fn new(input: &'a str) -> (r: Self)
        ensures
            r.wf(),
            r.input@ == input@,
            r.position == 0,
    {
        Self { input, position: 0 }
    }

    /// Yields the next character and advances, or signals exhaustion and
    /// stays put.
    pub fn next_char(&mut self) -> (r: Option<char>)
        requires
            old(self).wf(),
        ensures
            final(self).wf(),
            final(self).input@ == old(self).input@,
            old(self).position < old(self).input@.len() ==> r == Some(
                old(self).input@[old(self).position as int],
            ) && final(self).position == old(self).position + 1,
            old(self).position >= old(self).input@.len() ==> r is None && final(self).position == old(self).position,
    {
        if self.position < self.input.unicode_len() {
            let c = self.input.get_char(self.position);
            self.position = self.position + 1;
            Some(c)
        } else {
            None
        }
    }

    /// Consumes up to and including the next `>`, or the whole rest of
    /// the input.
    fn skip_past_gt(&mut self)
        requires
            old(self).wf(),
        ensures
            final(self).wf(),
            final(self).input@ == old(self).input@,
            old(self).position <= final(self).position,
            final(self).position as int == consumed_to(
                old(self).input@,
                old(self).position as int,
                gt_stop(),
            ),
    {
        let len = self.input.unicode_len();
        let j = scan_one(self.input, self.position, '>');
        self.position = if j < len {
            j + 1
        } else {
            len
        };
    }

    /// Consumes up to and including the next `<`, or the whole rest of
    /// the input.
    fn skip_past_lt(&mut self)
        requires
            old(self).wf(),
        ensures
            final(self).wf(),
            final(self).input@ == old(self).input@,
            old(self).position <= final(self).position,
            final(self).position as int == consumed_to(
                old(self).input@,
                old(self).position as int,
                lt_stop(),
            ),
    {
        let len = self.input.unicode_len();
        let j = scan_one(self.input, self.position, '<');
        self.position = if j < len {
            j + 1
        } else {
            len
        };
    }

    /// Reads a tag name: everything up to the first `>` or space, which
    /// is consumed.  Never fails.
    pub fn parse_tag_name(&mut self) -> (r: Result<String, SchemaError>)
        requires
            old(self).wf(),
        ensures
            final(self).wf(),
            final(self).input@ == old(self).input@,
            old(self).position <= final(self).position,
            r matches Ok(nm) && ({
                let (t, p) = spec_tag_name(old(self).input@, old(self).position as int);
                nm@ == t && final(self).position as int == p
            }),
    {
        let len = self.input.unicode_len();
        let start = self.position;
        let j = scan_two(self.input, start, '>', ' ');
        let name = String::from_str(self.input.substring_char(start, j));
        self.position = if j < len {
            j + 1
        } else {
            len
        };
        Ok(name)
    }

    /// Reads a bare datatype name: scans to the first `"`, `>` or space
    /// (consumed) and strips everything up to the last colon as a
    /// namespace prefix.  Never fails.
    pub fn parse_datatype_name(&mut self) -> (r: Result<String, SchemaError>)
        requires
            old(self).wf(),
        ensures
            final(self).wf(),
            final(self).input@ == old(self).input@,
            old(self).position <= final(self).position,
            r matches Ok(nm) && ({
                let (t, p) = spec_datatype_name(old(self).input@, old(self).position as int);
                nm@ == t && final(self).position as int == p
            }),
    {
        let ghost s = self.input@;
        let len = self.input.unicode_len();
        let start = self.position;
        let mut i: usize = start;
        let mut seg: usize = start;
        proof {
            assert(s.subrange(start as int, start as int) =~= s.subrange(
                start as int,
                start as int,
            ));
        }
        loop
            invariant
                len == s.len(),
                s == self.input@,
                self.wf(),
                start <= seg <= i <= len,
                forall|k: int| start <= k < i ==> !(dtname_stops().contains(#[trigger] s[k])),
                strip_prefix(s.subrange(start as int, i as int)) == s.subrange(
                    seg as int,
                    i as int,
                ),
            ensures
                start <= seg <= i <= len,
                forall|k: int| start <= k < i ==> !(dtname_stops().contains(#[trigger] s[k])),
                strip_prefix(s.subrange(start as int, i as int)) == s.subrange(
                    seg as int,
                    i as int,
                ),
                i < len ==> dtname_stops().contains(s[i as int]),
            decreases len - i,
        {
            if i >= len {
                break ;
            }
            let c = self.input.get_char(i);
            if c == '"' || c == '>' || c == ' ' {
                break ;
            }
            proof {
                let raw = s.subrange(start as int, i as int);
                lemma_strip_prefix_push(raw, s[i as int]);
                assert(raw.push(s[i as int]) =~= s.subrange(start as int, i as int + 1));
                if s[i as int] != ':' {
                    assert(strip_prefix(raw).push(s[i as int]) =~= s.subrange(
                        seg as int,
                        i as int + 1,
                    ));
                }
            }
            if c == ':' {
                seg = i + 1;
                proof {
                    assert(s.subrange(seg as int, i as int + 1) =~= Seq::<char>::empty());
                }
            }
            i = i + 1;
        }
        proof {
            lemma_find_first_is(s, start as int, dtname_stops(), i as int);
        }
        let name = String::from_str(self.input.substring_char(seg, i));
        self.position = if i < len {
            i + 1
        } else {
            len
        };
        Ok(name)
    }

    /// Searches the tag the cursor stands in (the region up to the next
    /// `>`) for `attr_name="` and captures the quoted value after its
    /// first occurrence, leaving the cursor past the closing quote.
    /// Returns `None`, without moving, when the attribute is absent or
    /// its closing quote is missing, and `None` past the quotes when the
    /// value is empty.
    pub fn parse_optional_attr_value(&mut self, attr_name: &str) -> (r: Option<String>)
        requires
            old(self).wf(),
        ensures
            final(self).wf(),
            final(self).input@ == old(self).input@,
            old(self).position <= final(self).position,
            ({
                let (v, p) = spec_attr_value(
                    old(self).input@,
                    old(self).position as int,
                    attr_name@,
                );
                r.deep_view() == v && final(self).position as int == p
            }),
            r is Some ==> old(self).position < final(self).position,
    {
        let ghost s = self.input@;
        let ghost pat = attr_name@;
        let len = self.input.unicode_len();
        let start = self.position;
        let pat_len = attr_name.unicode_len();
        let end = scan_one(self.input, start, '>');
        let mut i: usize = start;
        let mut found: bool = false;
        loop
            invariant
                len == s.len(),
                s == self.input@,
                self.wf(),
                pat == attr_name@,
                pat_len == pat.len(),
                start <= i <= end <= len,
                end as int == find_first(s, start as int, gt_stop()),
                forall|m: int| start <= m < i ==> !attr_pat_at(s, m, pat),
                found ==> i + pat_len + 2 <= end && attr_pat_at(s, i as int, pat),
            ensures
                start <= i <= end,
                forall|m: int| start <= m < i ==> !attr_pat_at(s, m, pat),
                found ==> i + pat_len + 2 <= end && attr_pat_at(s, i as int, pat),
                !found ==> !(end - i >= 2 && end - i - 2 >= pat_len),
            decreases end - i,
        {
            if !(end - i >= 2 && end - i - 2 >= pat_len) {
                break ;
            }
            let is_pat = crate::scan::str_prefix_at(self.input, i, attr_name);
            if is_pat {
                let ce = self.input.get_char(i + pat_len);
                let cq = self.input.get_char(i + pat_len + 1);
                if ce == '=' && cq == '"' {
                    found = true;
                    break ;
                }
            }
            proof {
                assert(!attr_pat_at(s, i as int, pat));
            }
            i = i + 1;
        }
        if !found {
            proof {
                assert forall|m: int| start <= m && m + pat.len() + 2 <= end as int implies !attr_pat_at(
                    s,
                    m,
                    pat,
                ) by {
                    if m >= i {
                        assert(m + pat.len() + 2 > end);
                    }
                }
                lemma_find_attr_none(s, start as int, end as int, pat);
            }
            return None;
        }
        proof {
            lemma_find_attr_found(s, start as int, end as int, pat, i as int);
        }
        let vs = i + pat_len + 2;
        let q = scan_one(self.input, vs, '"');
        if q >= len {
            return None;
        }
        self.position = q + 1;
        if q == vs {
            return None;
        }
        let v = String::from_str(self.input.substring_char(vs, q));
        Some(v)
    }

    /// Parses an `element` declaration: the `name` attribute of the
    /// opening tag, with the rest of the tag discarded.  Never fails;
    /// the datatype and occurrence bounds keep their defaults.
    pub fn parse_element(&mut self) -> (r: Result<Element, SchemaError>)
        requires
            old(self).wf(),
        ensures
            final(self).wf(),
            final(self).input@ == old(self).input@,
            old(self).position <= final(self).position,
            r matches Ok(el) && ({
                let (sel, p) = spec_parse_element(old(self).input@, old(self).position as int);
                el.deep_view() == sel && final(self).position as int == p
            }),
    {
        let nopt = self.parse_optional_attr_value("name");
        let name = match nopt {
            Some(n) => n,
            None => String::new(),
        };
        self.skip_past_gt();
        let el = Element {
            name,
            datatype: Datatype::SimpleType(String::new()),
            max_occurs: 1,
            min_occurs: 1,
        };
        proof {
            let (sel, _p) = spec_parse_element(old(self).input@, old(self).position as int);
            assert(el.deep_view() =~= sel);
        }
        Ok(el)
    }

    /// Parses an `attribute` declaration, symmetric to the element
    /// parser: only the `name` attribute is captured.  Never fails.
    pub fn parse_attribute(&mut self) -> (r: Result<Attribute, SchemaError>)
        requires
            old(self).wf(),
        ensures
            final(self).wf(),
            final(self).input@ == old(self).input@,
            old(self).position <= final(self).position,
            r matches Ok(at) && ({
                let (sat, p) = spec_parse_attribute(old(self).input@, old(self).position as int);
                at.deep_view() == sat && final(self).position as int == p
            }),
    {
        let nopt = self.parse_optional_attr_value("name");
        let name = match nopt {
            Some(n) => n,
            None => String::new(),
        };
        self.skip_past_gt();
        let at = Attribute {
            name,
            datatype: Datatype::SimpleType(String::new()),
            default_value: None,
            fixed_value: None,
            use_option: UseOption::Optional,
        };
        proof {
            let (sat, _p) = spec_parse_attribute(old(self).input@, old(self).position as int);
            assert(at.deep_view() =~= sat);
        }
        Ok(at)
    }

    /// The datatype detection shared by the simple-type and
    /// simple-content parsers: takes the first quoted value of the child
    /// tag the cursor stands in and maps its bare name onto the scalar
    /// enumeration.
    fn detect_datatype(&mut self) -> (r: Result<SimpleDatatype, SchemaError>)
        requires
            old(self).wf(),
        ensures
            final(self).wf(),
            final(self).input@ == old(self).input@,
            old(self).position <= final(self).position,
            match spec_detect_datatype(old(self).input@, old(self).position as int) {
                Ok(pair) => r matches Ok(dt) && dt == pair.0 && final(self).position as int
                    == pair.1,
                Err(e) => r matches Err(er) && er.deep_view() == e,
            },
    {
        let len = self.input.unicode_len();
        let j = scan_two(self.input, self.position, '"', '>');
        if j >= len {
            return Err(SchemaError::UnexpectedEndOfInput);
        }
        let c = self.input.get_char(j);
        self.position = j + 1;
        if c == '>' {
            return Ok(SimpleDatatype::String);
        }
        let nm = match self.parse_datatype_name() {
            Ok(n) => n,
            Err(e) => return Err(e),
        };
        match datatype_of_name(nm.as_str()) {
            Some(dt) => Ok(dt),
            None => Err(SchemaError::UnsupportedDatatype),
        }
    }

    /// Parses a `simpleType` declaration: the `name` attribute of the
    /// opening tag, then the datatype detected in the first child tag.
    pub fn parse_simple_type(&mut self) -> (r: Result<SimpleType, SchemaError>)
        requires
            old(self).wf(),
        ensures
            final(self).wf(),
            final(self).input@ == old(self).input@,
            old(self).position <= final(self).position,
            match spec_parse_simple_type(old(self).input@, old(self).position as int) {
                Ok(pair) => r matches Ok(st) && st.deep_view() == pair.0 && final(self).position as int == pair.1,
                Err(e) => r matches Err(er) && er.deep_view() == e,
            },
    {
        let nopt = self.parse_optional_attr_value("name");
        let name = match nopt {
            Some(n) => n,
            None => String::new(),
        };
        self.skip_past_gt();
        self.skip_past_lt();
        let dt = match self.detect_datatype() {
            Ok(d) => d,
            Err(e) => return Err(e),
        };
        let st = SimpleType { name, datatype: dt };
        proof {
            match spec_parse_simple_type(old(self).input@, old(self).position as int) {
                Ok(pair) => {
                    assert(st.deep_view() =~= pair.0);
                },
                Err(_e) => {},
            }
        }
        Ok(st)
    }

    /// Parses a `simpleContent` block: skips to its nested restriction
    /// or extension tag and detects the datatype there.
    pub fn parse_simple_content(&mut self) -> (r: Result<SimpleContent, SchemaError>)
        requires
            old(self).wf(),
        ensures
            final(self).wf(),
            final(self).input@ == old(self).input@,
            old(self).position <= final(self).position,
            match spec_parse_simple_content(old(self).input@, old(self).position as int) {
                Ok(pair) => r matches Ok(sc) && sc.deep_view() == pair.0 && final(self).position as int == pair.1,
                Err(e) => r matches Err(er) && er.deep_view() == e,
            },
    {
        self.skip_past_lt();
        let dt = match self.detect_datatype() {
            Ok(d) => d,
            Err(e) => return Err(e),
        };
        Ok(SimpleContent { datatype: dt })
    }

    /// Parses a `complexContent` extension: the first non-space
    /// character after the nested tag's name must begin the literal
    /// `base="xs`, and the bare name after that prefix becomes the base
    /// type.
    pub fn parse_complex_content_extension(&mut self) -> (r: Result<
        ComplexContentExtension,
        SchemaError,
    >)
        requires
            old(self).wf(),
        ensures
            final(self).wf(),
            final(self).input@ == old(self).input@,
            old(self).position <= final(self).position,
            match spec_parse_extension(old(self).input@, old(self).position as int) {
                Ok(pair) => r matches Ok(ext) && ext.deep_view() == pair.0 && final(self).position as int == pair.1,
                Err(e) => r matches Err(er) && er.deep_view() == e,
            },
    {
        let ghost s = self.input@;
        let len = self.input.unicode_len();
        let j0 = scan_two(self.input, self.position, '>', ' ');
        self.position = if j0 < len {
            j0 + 1
        } else {
            len
        };
        let k = scan_nonspace(self.input, self.position);
        if k >= len {
            self.position = len;
            let ext = ComplexContentExtension { base_type: String::new(), attributes: Vec::new() };
            proof {
                match spec_parse_extension(old(self).input@, old(self).position as int) {
                    Ok(pair) => {
                        assert(ext.deep_view() =~= pair.0);
                    },
                    Err(_e) => {},
                }
            }
            return Ok(ext);
        }
        let c = self.input.get_char(k);
        proof {
            reveal_strlit("base=\"xs");
        }
        if c == 'b' && crate::scan::str_prefix_at(self.input, k, "base=\"xs") {
            self.position = k + 8;
            let nm = match self.parse_datatype_name() {
                Ok(n) => n,
                Err(e) => return Err(e),
            };
            let ext = ComplexContentExtension { base_type: nm, attributes: Vec::new() };
            proof {
                match spec_parse_extension(old(self).input@, old(self).position as int) {
                    Ok(pair) => {
                        assert(ext.deep_view() =~= pair.0);
                    },
                    Err(_e) => {},
                }
            }
            return Ok(ext);
        }
        Err(SchemaError::UnexpectedCharacter(c))
    }

    /// Skips the remaining body of a mixed-content complex type, through
    /// its closing tag or to the end of the input.
    #[verifier::loop_isolation(false)]
    fn skip_close(&mut self)
        requires
            old(self).wf(),
        ensures
            final(self).wf(),
            final(self).input@ == old(self).input@,
            old(self).position <= final(self).position,
            final(self).position as int == spec_skip_close(
                old(self).input@,
                old(self).position as int,
            ),
    {
        let ghost s = self.input@;
        let ghost pos0 = self.position as int;
        let len = self.input.unicode_len();
        loop
            invariant
                self.wf(),
                self.input@ == s,
                pos0 <= self.position as int,
                spec_skip_close(s, pos0) == spec_skip_close(s, self.position as int),
            decreases s.len() - self.position,
        {
            let ghost p_it = self.position as int;
            let j = scan_one(self.input, self.position, '<');
            if j >= len {
                self.position = len;
                return ;
            }
            self.position = j + 1;
            let tag = self.parse_tag_name().unwrap();
            if str_eq(tag.as_str(), "/xs:complexType") {
                return ;
            }
            proof {
                let pr = spec_tag_name(s, j + 1);
                assert(forward(s, p_it, pr.1) == pr.1);
            }
        }
    }

    /// Parses a particle list: the children of a `sequence`, `choice` or
    /// `all` arrangement, up to the closing tag named `closer`.
    #[verifier::loop_isolation(false)]
    fn parse_particle_list(&mut self, closer: &str) -> (r: Result<Vec<XmlSchemaNode>, SchemaError>)
        requires
            old(self).wf(),
        ensures
            final(self).wf(),
            final(self).input@ == old(self).input@,
            old(self).position <= final(self).position,
            match spec_particles(
                old(self).input@,
                old(self).position as int,
                closer@,
                Seq::<SpecNode>::empty(),
            ) {
                Ok(pair) => r matches Ok(ns) && ns.deep_view() == pair.0 && final(self).position as int == pair.1,
                Err(e) => r matches Err(er) && er.deep_view() == e,
            },
        decreases old(self).input@.len() - old(self).position, 0int,
    {
        let ghost s = self.input@;
        let ghost pos0 = self.position as int;
        let ghost cl = closer@;
        let mut nodes: Vec<XmlSchemaNode> = Vec::new();
        proof {
            assert(nodes.deep_view() =~= Seq::<SpecNode>::empty());
        }
        loop
            invariant
                self.wf(),
                self.input@ == s,
                pos0 <= self.position as int,
                spec_particles(s, pos0, cl, Seq::<SpecNode>::empty()) == spec_particles(
                    s,
                    self.position as int,
                    cl,
                    nodes.deep_view(),
                ),
            decreases s.len() - self.position,
        {
            let ghost p_it = self.position as int;
            let ghost acc_it = nodes.deep_view();
            let ch = match self.next_char() {
                Some(c) => c,
                None => { return Ok(nodes) },
            };
            if ch == '<' {
                let tag = self.parse_tag_name().unwrap();
                proof {
                    let pr = spec_tag_name(s, p_it + 1);
                    assert(forward(s, p_it, pr.1) == pr.1);
                }
                if str_eq(tag.as_str(), "xs:element") {
                    let ghost p1 = self.position as int;
                    let el = self.parse_element().unwrap();
                    nodes.push(XmlSchemaNode::Element(el));
                    proof {
                        let pr = spec_parse_element(s, p1);
                        assert(forward(s, p_it, pr.1) == pr.1);
                        assert(nodes.deep_view() =~= acc_it.push(SpecNode::Element(pr.0)));
                    }
                } else if str_eq(tag.as_str(), "xs:complexType") {
                    let ghost p1 = self.position as int;
                    let ct = match self.parse_complex_type() {
                        Ok(c) => c,
                        Err(e) => { return Err(e) },
                    };
                    nodes.push(XmlSchemaNode::ComplexType(ct));
                    proof {
                        match spec_parse_complex_type(s, p1) {
                            Ok(pair) => {
                                assert(forward(s, p_it, pair.1) == pair.1);
                                assert(nodes.deep_view() =~= acc_it.push(
                                    SpecNode::ComplexType(pair.0),
                                ));
                            },
                            Err(_e) => {},
                        }
                    }
                } else if str_eq(tag.as_str(), "xs:simpleType") {
                    let ghost p1 = self.position as int;
                    let st = match self.parse_simple_type() {
                        Ok(c) => c,
                        Err(e) => { return Err(e) },
                    };
                    nodes.push(XmlSchemaNode::SimpleType(st));
                    proof {
                        match spec_parse_simple_type(s, p1) {
                            Ok(pair) => {
                                assert(forward(s, p_it, pair.1) == pair.1);
                                assert(nodes.deep_view() =~= acc_it.push(
                                    SpecNode::SimpleType(pair.0),
                                ));
                            },
                            Err(_e) => {},
                        }
                    }
                } else if str_eq(tag.as_str(), closer) {
                    return Ok(nodes);
                } else if starts_with_slash(tag.as_str()) {
                    // a closing tag of an already consumed child
                } else {
                    return Err(SchemaError::UnexpectedTag(tag));
                }
            } else if ch == ' ' || ch == '>' {
                // tolerated between children
            } else {
                return Err(SchemaError::UnexpectedCharacter(ch));
            }
        }
    }

    /// Parses the children of an `xs:sequence` arrangement, up to its
    /// closing tag.
    pub fn parse_sequence(&mut self) -> (r: Result<Vec<XmlSchemaNode>, SchemaError>)
        requires
            old(self).wf(),
        ensures
            final(self).wf(),
            final(self).input@ == old(self).input@,
            old(self).position <= final(self).position,
            match spec_particles(
                old(self).input@,
                old(self).position as int,
                "/xs:sequence"@,
                Seq::<SpecNode>::empty(),
            ) {
                Ok(pair) => r matches Ok(ns) && ns.deep_view() == pair.0 && final(self).position as int == pair.1,
                Err(e) => r matches Err(er) && er.deep_view() == e,
            },
        decreases old(self).input@.len() - old(self).position, 1int,
    {
        self.parse_particle_list("/xs:sequence")
    }

    /// Parses the children of an `xs:choice` arrangement, up to its
    /// closing tag.
    pub fn parse_choice(&mut self) -> (r: Result<Vec<XmlSchemaNode>, SchemaError>)
        requires
            old(self).wf(),
        ensures
            final(self).wf(),
            final(self).input@ == old(self).input@,
            old(self).position <= final(self).position,
            match spec_particles(
                old(self).input@,
                old(self).position as int,
                "/xs:choice"@,
                Seq::<SpecNode>::empty(),
            ) {
                Ok(pair) => r matches Ok(ns) && ns.deep_view() == pair.0 && final(self).position as int == pair.1,
                Err(e) => r matches Err(er) && er.deep_view() == e,
            },
        decreases old(self).input@.len() - old(self).position, 1int,
    {
        self.parse_particle_list("/xs:choice")
    }

    /// Parses the children of an `xs:all` arrangement, up to its closing
    /// tag.
    pub fn parse_all(&mut self) -> (r: Result<Vec<XmlSchemaNode>, SchemaError>)
        requires
            old(self).wf(),
        ensures
            final(self).wf(),
            final(self).input@ == old(self).input@,
            old(self).position <= final(self).position,
            match spec_particles(
                old(self).input@,
                old(self).position as int,
                "/xs:all"@,
                Seq::<SpecNode>::empty(),
            ) {
                Ok(pair) => r matches Ok(ns) && ns.deep_view() == pair.0 && final(self).position as int == pair.1,
                Err(e) => r matches Err(er) && er.deep_view() == e,
            },
        decreases old(self).input@.len() - old(self).position, 1int,
    {
        self.parse_particle_list("/xs:all")
    }

    /// Parses a `complexType` declaration: the `name` and `mixed`
    /// attributes of the opening tag, then the children, which set the
    /// flat content-model tag; nested particles are consumed but not
    /// retained.
    #[verifier::loop_isolation(false)]
    pub fn parse_complex_type(&mut self) -> (r: Result<ComplexType, SchemaError>)
        requires
            old(self).wf(),
        ensures
            final(self).wf(),
            final(self).input@ == old(self).input@,
            old(self).position <= final(self).position,
            match spec_parse_complex_type(old(self).input@, old(self).position as int) {
                Ok(pair) => r matches Ok(ct) && ct.deep_view() == pair.0 && final(self).position as int == pair.1,
                Err(e) => r matches Err(er) && er.deep_view() == e,
            },
        decreases old(self).input@.len() - old(self).position, 2int,
    {
        let ghost s = self.input@;
        let ghost pos0 = self.position as int;
        let len = self.input.unicode_len();
        if self.position >= len {
            let ct = ComplexType {
                name: String::new(),
                base_type: None,
                attributes: Vec::new(),
                content: ComplexContent::Empty,
                mixed_content: None,
            };
            proof {
                match spec_parse_complex_type(s, pos0) {
                    Ok(pair) => {
                        assert(ct.deep_view() =~= pair.0);
                    },
                    Err(_e) => {},
                }
            }
            return Ok(ct);
        }
        let nopt = self.parse_optional_attr_value("name");
        let name = match nopt {
            Some(n) => n,
            None => String::new(),
        };
        let mopt = self.parse_optional_attr_value("mixed");
        let ghost p2g = self.position as int;
        let is_mixed = match &mopt {
            Some(v) => str_eq(v.as_str(), "true"),
            None => false,
        };
        let ghost ct0 = SpecComplexType {
            name: name@,
            base_type: None,
            attributes: Seq::empty(),
            content: ComplexContent::Empty,
            mixed_content: mopt.deep_view(),
        };
        if is_mixed {
            proof {
                assert(forward(s, pos0, p2g) == p2g);
            }
            self.skip_close();
            let ct = ComplexType {
                name,
                base_type: None,
                attributes: Vec::new(),
                content: ComplexContent::MixedContent,
                mixed_content: mopt,
            };
            proof {
                match spec_parse_complex_type(s, pos0) {
                    Ok(pair) => {
                        assert(ct.deep_view() =~= pair.0);
                    },
                    Err(_e) => {},
                }
            }
            return Ok(ct);
        }
        self.skip_past_gt();
        let ghost p3g = self.position as int;
        proof {
            lemma_find_first_bounds(s, p2g, gt_stop());
            assert(forward(s, pos0, p3g) == p3g);
            assert(spec_parse_complex_type(s, pos0) == spec_ct_children(s, p3g, ct0));
        }
        let mut content = ComplexContent::Empty;
        let mut base_type: Option<String> = None;
        loop
            invariant
                self.wf(),
                self.input@ == s,
                p3g <= self.position as int,
                spec_ct_children(
                    s,
                    self.position as int,
                    SpecComplexType {
                        name: name@,
                        base_type: base_type.deep_view(),
                        attributes: Seq::empty(),
                        content: content,
                        mixed_content: mopt.deep_view(),
                    },
                ) == spec_ct_children(s, p3g, ct0),
            decreases s.len() - self.position,
        {
            let ghost p_it = self.position as int;
            let ghost cur = SpecComplexType {
                name: name@,
                base_type: base_type.deep_view(),
                attributes: Seq::empty(),
                content: content,
                mixed_content: mopt.deep_view(),
            };
            let ch = match self.next_char() {
                Some(c) => c,
                None => {
                    let ct = ComplexType {
                        name,
                        base_type,
                        attributes: Vec::new(),
                        content,
                        mixed_content: mopt,
                    };
                    proof {
                        assert(ct.deep_view() =~= cur);
                    }
                    return Ok(ct);
                },
            };
            if ch == '<' {
                let tag = self.parse_tag_name().unwrap();
                proof {
                    let pr = spec_tag_name(s, p_it + 1);
                    assert(forward(s, p_it, pr.1) == pr.1);
                }
                if str_eq(tag.as_str(), "xs:simpleContent") {
                    let ghost pc = self.position as int;
                    match self.parse_simple_content() {
                        Ok(_sc) => {
                            content = ComplexContent::SimpleContent;
                        },
                        Err(e) => { return Err(e) },
                    }
                    proof {
                        match spec_parse_simple_content(s, pc) {
                            Ok(pair) => {
                                assert(forward(s, p_it, pair.1) == pair.1);
                            },
                            Err(_e) => {},
                        }
                    }
                } else if str_eq(tag.as_str(), "xs:complexContent") {
                    let ghost pc = self.position as int;
                    match self.parse_complex_content_extension() {
                        Ok(ext) => {
                            content = ComplexContent::ComplexContentExtension;
                            base_type = Some(ext.base_type);
                        },
                        Err(e) => { return Err(e) },
                    }
                    proof {
                        match spec_parse_extension(s, pc) {
                            Ok(pair) => {
                                assert(forward(s, p_it, pair.1) == pair.1);
                            },
                            Err(_e) => {},
                        }
                    }
                } else if str_eq(tag.as_str(), "xs:mixedContent") {
                    self.skip_past_gt();
                    let ct = ComplexType {
                        name,
                        base_type,
                        attributes: Vec::new(),
                        content: ComplexContent::MixedContent,
                        mixed_content: mopt,
                    };
                    proof {
                        assert(ct.deep_view() =~= SpecComplexType {
                            content: ComplexContent::MixedContent,
                            ..cur
                        });
                    }
                    return Ok(ct);
                } else if str_eq(tag.as_str(), "xs:sequence") {
                    let ghost pc = self.position as int;
                    match self.parse_sequence() {
                        Ok(_ns) => {
                            content = ComplexContent::Sequence;
                        },
                        Err(e) => { return Err(e) },
                    }
                    proof {
                        match spec_particles(s, pc, "/xs:sequence"@, Seq::<SpecNode>::empty()) {
                            Ok(pair) => {
                                assert(forward(s, p_it, pair.1) == pair.1);
                            },
                            Err(_e) => {},
                        }
                    }
                } else if str_eq(tag.as_str(), "xs:choice") {
                    let ghost pc = self.position as int;
                    match self.parse_choice() {
                        Ok(_ns) => {
                            content = ComplexContent::Choice;
                        },
                        Err(e) => { return Err(e) },
                    }
                    proof {
                        match spec_particles(s, pc, "/xs:choice"@, Seq::<SpecNode>::empty()) {
                            Ok(pair) => {
                                assert(forward(s, p_it, pair.1) == pair.1);
                            },
                            Err(_e) => {},
                        }
                    }
                } else if str_eq(tag.as_str(), "xs:all") {
                    let ghost pc = self.position as int;
                    match self.parse_all() {
                        Ok(_ns) => {
                            content = ComplexContent::All;
                        },
                        Err(e) => { return Err(e) },
                    }
                    proof {
                        match spec_particles(s, pc, "/xs:all"@, Seq::<SpecNode>::empty()) {
                            Ok(pair) => {
                                assert(forward(s, p_it, pair.1) == pair.1);
                            },
                            Err(_e) => {},
                        }
                    }
                } else if str_eq(tag.as_str(), "/xs:complexType") {
                    let ct = ComplexType {
                        name,
                        base_type,
                        attributes: Vec::new(),
                        content,
                        mixed_content: mopt,
                    };
                    proof {
                        assert(ct.deep_view() =~= cur);
                    }
                    return Ok(ct);
                } else if starts_with_slash(tag.as_str()) {
                    // a closing tag of an already consumed child
                } else {
                    return Err(SchemaError::UnexpectedTag(tag));
                }
            } else if ch == ' ' || ch == '>' {
                // tolerated between children
            } else {
                return Err(SchemaError::UnexpectedCharacter(ch));
            }
        }
    }

    /// Parses a whole document from the current position: scans for
    /// tags, dispatches on the five recognized root tag names, and
    /// accumulates the schema.  Any other root-level tag fails the
    /// parse; characters outside tags are ignored.
    #[verifier::loop_isolation(false)]
    pub fn parse(&mut self) -> (r: Result<XmlSchema, SchemaError>)
        requires
            old(self).wf(),
        ensures
            final(self).wf(),
            final(self).input@ == old(self).input@,
            old(self).position <= final(self).position,
            match spec_parse_schema(old(self).input@, old(self).position as int) {
                Ok(sch) => r matches Ok(x) && x.deep_view() == sch,
                Err(e) => r matches Err(er) && er.deep_view() == e,
            },
    {
        let ghost s = self.input@;
        let ghost pos0 = self.position as int;
        let mut schema = XmlSchema {
            target_namespace: None,
            element_form_default: None,
            attribute_form_default: None,
            nodes: Vec::new(),
        };
        proof {
            assert(schema.deep_view() =~= spec_empty_schema());
        }
        loop
            invariant
                self.wf(),
                self.input@ == s,
                pos0 <= self.position as int,
                spec_schema_nodes(s, self.position as int, schema.deep_view())
                    == spec_schema_nodes(s, pos0, spec_empty_schema()),
            decreases s.len() - self.position,
        {
            let ghost p_it = self.position as int;
            let ghost sch_it = schema.deep_view();
            let ch = match self.next_char() {
                Some(c) => c,
                None => { return Ok(schema) },
            };
            if ch == '<' {
                let tag = self.parse_tag_name().unwrap();
                proof {
                    let pr = spec_tag_name(s, p_it + 1);
                    assert(forward(s, p_it, pr.1) == pr.1);
                }
                if str_eq(tag.as_str(), "xs:schema") {
                    let tn = self.parse_optional_attr_value("targetNamespace");
                    let efd = self.parse_optional_attr_value("elementFormDefault");
                    let afd = self.parse_optional_attr_value("attributeFormDefault");
                    schema.target_namespace = tn;
                    schema.element_form_default = efd;
                    schema.attribute_form_default = afd;
                    proof {
                        assert(forward(s, p_it, self.position as int) == self.position as int);
                        assert(schema.deep_view() =~= SpecSchema {
                            target_namespace: schema.target_namespace.deep_view(),
                            element_form_default: schema.element_form_default.deep_view(),
                            attribute_form_default: schema.attribute_form_default.deep_view(),
                            nodes: sch_it.nodes,
                        });
                    }
                } else if str_eq(tag.as_str(), "xs:element") {
                    let ghost pc = self.position as int;
                    let el = self.parse_element().unwrap();
                    schema.nodes.push(XmlSchemaNode::Element(el));
                    proof {
                        let pr = spec_parse_element(s, pc);
                        assert(forward(s, p_it, pr.1) == pr.1);
                        assert(schema.deep_view() =~= SpecSchema {
                            nodes: sch_it.nodes.push(SpecNode::Element(pr.0)),
                            ..sch_it
                        });
                    }
                } else if str_eq(tag.as_str(), "xs:attribute") {
                    let ghost pc = self.position as int;
                    let at = self.parse_attribute().unwrap();
                    schema.nodes.push(XmlSchemaNode::Attribute(at));
                    proof {
                        let pr = spec_parse_attribute(s, pc);
                        assert(forward(s, p_it, pr.1) == pr.1);
                        assert(schema.deep_view() =~= SpecSchema {
                            nodes: sch_it.nodes.push(SpecNode::Attribute(pr.0)),
                            ..sch_it
                        });
                    }
                } else if str_eq(tag.as_str(), "xs:simpleType") {
                    let ghost pc = self.position as int;
                    let st = match self.parse_simple_type() {
                        Ok(c) => c,
                        Err(e) => { return Err(e) },
                    };
                    schema.nodes.push(XmlSchemaNode::SimpleType(st));
                    proof {
                        match spec_parse_simple_type(s, pc) {
                            Ok(pair) => {
                                assert(forward(s, p_it, pair.1) == pair.1);
                                assert(schema.deep_view() =~= SpecSchema {
                                    nodes: sch_it.nodes.push(SpecNode::SimpleType(pair.0)),
                                    ..sch_it
                                });
                            },
                            Err(_e) => {},
                        }
                    }
                } else if str_eq(tag.as_str(), "xs:complexType") {
                    let ghost pc = self.position as int;
                    let ct = match self.parse_complex_type() {
                        Ok(c) => c,
                        Err(e) => { return Err(e) },
                    };
                    schema.nodes.push(XmlSchemaNode::ComplexType(ct));
                    proof {
                        match spec_parse_complex_type(s, pc) {
                            Ok(pair) => {
                                assert(forward(s, p_it, pair.1) == pair.1);
                                assert(schema.deep_view() =~= SpecSchema {
                                    nodes: sch_it.nodes.push(SpecNode::ComplexType(pair.0)),
                                    ..sch_it
                                });
                            },
                            Err(_e) => {},
                        }
                    }
                } else {
                    return Err(SchemaError::UnexpectedTag(tag));
                }
            } else {
                // characters outside tags are ignored
            }
        }
    }
}

} // verus!
