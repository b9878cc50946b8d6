//! A small XML reader: it turns a character stream into a tree of elements.
//!
//! This layer plays the part of the external XML collaborator: the mapping
//! rules that give a document its meaning live elsewhere and are specified
//! against the element tree, not against raw text. The reader keeps, for
//! each element, its local name (namespace prefixes are dropped), its
//! attributes, its concatenated character data, and its child elements in
//! document order. Comments, processing instructions and the XML
//! declaration are skipped; `&amp;`, `&lt;`, `&gt;`, `&quot;` and `&apos;`
//! are decoded; CDATA sections become character data.
//!
//! The reader's meaning is the specification function [`doc_of`]: the
//! executable functions return exactly what it assigns to the input text,
//! element for element, or nothing exactly when it assigns nothing.

use vstd::prelude::*;

use crate::text::chars_eq_chars;
use crate::text::range_eq_str;

verus! {

/// One attribute of an element, with the namespace prefix dropped from its
/// name.
pub struct Attr {
    pub name: Vec<char>,
    pub value: Vec<char>,
}

/// One XML element: local name, attributes, concatenated character data,
/// and child elements in document order.
pub struct Elem {
    pub name: Vec<char>,
    pub attrs: Vec<Attr>,
    pub text: Vec<char>,
    pub kids: Vec<Elem>,
}

/// The mathematical value of an attribute.
pub ghost struct AttrV {
    pub name: Seq<char>,
    pub value: Seq<char>,
}

/// The mathematical value of an element tree.
pub ghost struct ElemV {
    pub name: Seq<char>,
    pub attrs: Seq<AttrV>,
    pub text: Seq<char>,
    pub kids: Seq<ElemV>,
}

pub open spec fn attr_v(a: Attr) -> AttrV {
    AttrV { name: a.name@, value: a.value@ }
}

/// The mathematical values of a sequence of attributes.
pub open spec fn attrs_v(s: Seq<Attr>) -> Seq<AttrV>
    decreases s.len(),
{
    if s.len() == 0 {
        Seq::empty()
    } else {
        attrs_v(s.drop_last()).push(attr_v(s.last()))
    }
}

/// `attrs_v` maps `attr_v` over the sequence, element by element.
pub proof fn lemma_attrs_v(s: Seq<Attr>)
    ensures
        attrs_v(s).len() == s.len(),
        forall|i: int| 0 <= i < s.len() ==> attrs_v(s)[i] == attr_v(s[i]),
    decreases s.len(),
{
    if s.len() > 0 {
        lemma_attrs_v(s.drop_last());
    }
}

/// The mathematical values of a sequence of elements.
pub open spec fn elems_v(s: Seq<Elem>) -> Seq<ElemV>
    decreases s,
    via elems_v_decreases
{
    if s.len() == 0 {
        Seq::empty()
    } else {
        elems_v(s.drop_last()).push(elem_v(s.last()))
    }
}

#[via_fn]
proof fn elems_v_decreases(s: Seq<Elem>) {
    if s.len() > 0 {
        vstd::seq::axiom_seq_index_decreases(s, s.len() - 1);
        assert(decreases_to!(s => s.drop_last())) by {
            vstd::seq::axiom_seq_len_decreases(s, s.drop_last());
        }
    }
}

/// `elems_v` maps `elem_v` over the sequence, element by element.
pub proof fn lemma_elems_v(s: Seq<Elem>)
    ensures
        elems_v(s).len() == s.len(),
        forall|i: int| 0 <= i < s.len() ==> elems_v(s)[i] == elem_v(s[i]),
    decreases s,
{
    if s.len() > 0 {
        lemma_elems_v(s.drop_last());
    }
}

/// The mathematical value of an element, its children included.
pub open spec fn elem_v(e: Elem) -> ElemV
    decreases e,
    via elem_v_decreases
{
    ElemV { name: e.name@, attrs: attrs_v(e.attrs@), text: e.text@, kids: elems_v(e.kids@) }
}

#[via_fn]
proof fn elem_v_decreases(e: Elem) {
    broadcast use vstd::std_specs::vec::group_vec_axioms;

    assert(decreases_to!(e => e.kids));
    assert(decreases_to!(e.kids => e.kids@));
}

pub open spec fn is_space(c: char) -> bool {
    c == ' ' || c == '\t' || c == '\n' || c == '\r'
}

fn space(c: char) -> (r: bool)
    ensures
        r == is_space(c),
{
    c == ' ' || c == '\t' || c == '\n' || c == '\r'
}

/// Whether `c` may stand in a tag or attribute name.
pub open spec fn is_name_char(c: char) -> bool {
    !(is_space(c) || c == '<' || c == '>' || c == '/' || c == '=' || c == '"' || c == '\'' || c
        == '&' || c == ';' || c == '?' || c == '!')
}

fn name_char(c: char) -> (r: bool)
    ensures
        r == is_name_char(c),
{
    !(c == ' ' || c == '\t' || c == '\n' || c == '\r' || c == '<' || c == '>' || c == '/' || c
        == '=' || c == '"' || c == '\'' || c == '&' || c == ';' || c == '?' || c == '!')
}

// ---------------------------------------------------------------------------
// The reader's meaning: a recursive descent over the character sequence.
// Each function mirrors its executable counterpart step for step; the
// bound guards around recursive calls keep the recursion well-founded and
// always hold of the values the executable reader produces.
// ---------------------------------------------------------------------------
/// The index just past the first occurrence of `a b` at or after `i`.
pub open spec fn find2_s(s: Seq<char>, i: int, a: char, b: char) -> Option<int>
    decreases s.len() - i
        when 0 <= i <= s.len()
{
    if s.len() - i > 1 {
        if s[i] == a && s[i + 1] == b {
            Some(i + 2)
        } else {
            find2_s(s, i + 1, a, b)
        }
    } else {
        None
    }
}

/// The index just past the first occurrence of `a b c` at or after `i`.
pub open spec fn find3_s(s: Seq<char>, i: int, a: char, b: char, c: char) -> Option<int>
    decreases s.len() - i
        when 0 <= i <= s.len()
{
    if s.len() - i > 2 {
        if s[i] == a && s[i + 1] == b && s[i + 2] == c {
            Some(i + 3)
        } else {
            find3_s(s, i + 1, a, b, c)
        }
    } else {
        None
    }
}

/// The first index at or after `i` that holds a non-space character.
pub open spec fn skip_spaces_s(s: Seq<char>, i: int) -> int
    decreases s.len() - i
        when 0 <= i <= s.len()
{
    if i < s.len() && is_space(s[i]) {
        skip_spaces_s(s, i + 1)
    } else {
        i
    }
}

/// Where the scan for an entity's `';'` stops: at the `';'`, or at the
/// end of input, or after five name characters.
pub open spec fn scan_semi_s(s: Seq<char>, i: int, e: int) -> int
    decreases s.len() - e
        when 0 <= e <= s.len()
{
    if e < s.len() && e - i <= 5 && s[e] != ';' {
        scan_semi_s(s, i, e + 1)
    } else {
        e
    }
}

/// One character entity starting at the `'&'` at index `i`: the decoded
/// character and the index just past the `';'`.
pub open spec fn parse_entity_s(s: Seq<char>, i: int) -> Option<(char, int)> {
    if !(0 <= i && i < s.len()) {
        None
    } else {
        let e = scan_semi_s(s, i, i + 1);
        if e >= s.len() || s[e] != ';' {
            None
        } else {
            let nm = s.subrange(i + 1, e);
            if nm == ("amp")@ {
                Some(('&', e + 1))
            } else if nm == ("lt")@ {
                Some(('<', e + 1))
            } else if nm == ("gt")@ {
                Some(('>', e + 1))
            } else if nm == ("quot")@ {
                Some(('"', e + 1))
            } else if nm == ("apos")@ {
                Some(('\'', e + 1))
            } else {
                None
            }
        }
    }
}

/// The first index at or after `i` that holds no name character.
pub open spec fn name_end_s(s: Seq<char>, i: int) -> int
    decreases s.len() - i
        when 0 <= i <= s.len()
{
    if i < s.len() && is_name_char(s[i]) {
        name_end_s(s, i + 1)
    } else {
        i
    }
}

/// The index of the first `':'` in `s` at or after `i`, or `s.len()`.
pub open spec fn first_colon_s(s: Seq<char>, i: int) -> int
    decreases s.len() - i
        when 0 <= i <= s.len()
{
    if i >= s.len() {
        i
    } else if s[i] == ':' {
        i
    } else {
        first_colon_s(s, i + 1)
    }
}

/// A tag or attribute name starting at index `i`: its local part (what
/// follows the first `':'`, or the whole name) and the index just past
/// the name.
pub open spec fn parse_name_s(s: Seq<char>, i: int) -> Option<(Seq<char>, int)> {
    if !(0 <= i <= s.len()) {
        None
    } else {
        let e = name_end_s(s, i);
        if e == i || !(i <= e <= s.len()) {
            None
        } else {
            let nm = s.subrange(i, e);
            let c = first_colon_s(nm, 0);
            if c == nm.len() {
                Some((nm, e))
            } else if c + 1 >= nm.len() {
                None
            } else {
                Some((nm.subrange(c + 1, nm.len() as int), e))
            }
        }
    }
}

/// A quoted attribute value from index `i` up to the closing quote `q`,
/// appended to `acc`: the value and the index just past the quote.
pub open spec fn parse_value_s(s: Seq<char>, i: int, q: char, acc: Seq<char>) -> Option<
    (Seq<char>, int),
>
    decreases s.len() - i
        when 0 <= i <= s.len()
{
    if i >= s.len() {
        None
    } else {
        let c = s[i];
        if c == q {
            Some((acc, i + 1))
        } else if c == '<' {
            None
        } else if c == '&' {
            match parse_entity_s(s, i) {
                Some((ch, j)) => if i < j <= s.len() {
                    parse_value_s(s, j, q, acc.push(ch))
                } else {
                    None
                },
                None => None,
            }
        } else {
            parse_value_s(s, i + 1, q, acc.push(c))
        }
    }
}

/// The attribute list of a start tag from index `i`, appended to `acc`:
/// the attributes, the index just past the `'>'` or `'/>'`, and whether
/// the tag closed itself.
pub open spec fn parse_attrs_s(s: Seq<char>, i: int, acc: Seq<AttrV>) -> Option<
    (Seq<AttrV>, int, bool),
>
    decreases s.len() - i
        when 0 <= i <= s.len()
{
    let cur = skip_spaces_s(s, i);
    if !(i <= cur <= s.len()) || cur >= s.len() {
        None
    } else {
        let c = s[cur];
        if c == '/' {
            if s.len() - cur > 1 && s[cur + 1] == '>' {
                Some((acc, cur + 2, true))
            } else {
                None
            }
        } else if c == '>' {
            Some((acc, cur + 1, false))
        } else {
            match parse_name_s(s, cur) {
                None => None,
                Some((aname, c2)) => {
                    let c3 = skip_spaces_s(s, c2);
                    if !(0 <= c3 <= s.len()) || c3 >= s.len() || s[c3] != '=' {
                        None
                    } else {
                        let c4 = skip_spaces_s(s, c3 + 1);
                        if !(0 <= c4 <= s.len()) || c4 >= s.len() {
                            None
                        } else {
                            let q = s[c4];
                            if !(q == '"' || q == '\'') {
                                None
                            } else {
                                match parse_value_s(s, c4 + 1, q, Seq::empty()) {
                                    None => None,
                                    Some((aval, c5)) => if i < c5 <= s.len() {
                                        parse_attrs_s(
                                            s,
                                            c5,
                                            acc.push(AttrV { name: aname, value: aval }),
                                        )
                                    } else {
                                        None
                                    },
                                }
                            }
                        }
                    }
                },
            }
        }
    }
}

/// A CDATA section's raw characters from index `i` (just past
/// `<![CDATA[`), appended to `text`: the grown text and the index just
/// past the closing `]]>`.
pub open spec fn parse_cdata_s(s: Seq<char>, i: int, text: Seq<char>) -> Option<(Seq<char>, int)>
    decreases s.len() - i
        when 0 <= i <= s.len()
{
    if s.len() - i > 2 {
        if s[i] == ']' && s[i + 1] == ']' && s[i + 2] == '>' {
            Some((text, i + 3))
        } else {
            parse_cdata_s(s, i + 1, text.push(s[i]))
        }
    } else {
        None
    }
}

/// An element's content from index `i` up to and including its matching
/// close tag, with `text` and `kids` read so far: the finished element
/// and the index just past the close tag.
pub open spec fn parse_content_s(
    s: Seq<char>,
    i: int,
    name: Seq<char>,
    attrs: Seq<AttrV>,
    text: Seq<char>,
    kids: Seq<ElemV>,
) -> Option<(ElemV, int)>
    decreases s.len() - i, 1int
        when 0 <= i <= s.len()
{
    if i >= s.len() {
        None
    } else {
        let c = s[i];
        if c == '<' {
            if s.len() - i > 1 && s[i + 1] == '/' {
                match parse_name_s(s, i + 2) {
                    None => None,
                    Some((cname, c2)) => {
                        if cname != name || !(0 <= c2 <= s.len()) {
                            None
                        } else {
                            let c3 = skip_spaces_s(s, c2);
                            if !(0 <= c3 <= s.len()) || c3 >= s.len() || s[c3] != '>' {
                                None
                            } else {
                                Some((ElemV { name, attrs, text, kids }, c3 + 1))
                            }
                        }
                    },
                }
            } else if s.len() - i > 3 && s[i + 1] == '!' && s[i + 2] == '-' && s[i + 3] == '-' {
                match find3_s(s, i + 4, '-', '-', '>') {
                    Some(j) => if i < j <= s.len() {
                        parse_content_s(s, j, name, attrs, text, kids)
                    } else {
                        None
                    },
                    None => None,
                }
            } else if s.len() - i >= 9 && s[i + 1] == '!' && s.subrange(i + 1, i + 9) == (
            "![CDATA[")@ {
                match parse_cdata_s(s, i + 9, text) {
                    Some((text2, j)) => if i < j <= s.len() {
                        parse_content_s(s, j, name, attrs, text2, kids)
                    } else {
                        None
                    },
                    None => None,
                }
            } else if s.len() - i > 1 && s[i + 1] == '?' {
                match find2_s(s, i + 2, '?', '>') {
                    Some(j) => if i < j <= s.len() {
                        parse_content_s(s, j, name, attrs, text, kids)
                    } else {
                        None
                    },
                    None => None,
                }
            } else if s.len() - i > 1 && s[i + 1] == '!' {
                // document type declarations are not accepted here
                None
            } else {
                match parse_element_s(s, i) {
                    Some((kid, j)) => if i < j <= s.len() {
                        parse_content_s(s, j, name, attrs, text, kids.push(kid))
                    } else {
                        None
                    },
                    None => None,
                }
            }
        } else if c == '&' {
            match parse_entity_s(s, i) {
                Some((ch, j)) => if i < j <= s.len() {
                    parse_content_s(s, j, name, attrs, text.push(ch), kids)
                } else {
                    None
                },
                None => None,
            }
        } else {
            parse_content_s(s, i + 1, name, attrs, text.push(c), kids)
        }
    }
}

/// One element starting at the `'<'` at index `i`: the element and the
/// index just past its closing tag.
pub open spec fn parse_element_s(s: Seq<char>, i: int) -> Option<(ElemV, int)>
    decreases s.len() - i, 0int
        when 0 <= i <= s.len()
{
    if i >= s.len() || s[i] != '<' {
        None
    } else {
        match parse_name_s(s, i + 1) {
            None => None,
            Some((name, cur)) => {
                if !(i < cur <= s.len()) {
                    None
                } else {
                    match parse_attrs_s(s, cur, Seq::empty()) {
                        None => None,
                        Some((attrs, j, selfclosing)) => {
                            if selfclosing {
                                Some(
                                    (
                                        ElemV {
                                            name,
                                            attrs,
                                            text: Seq::empty(),
                                            kids: Seq::empty(),
                                        },
                                        j,
                                    ),
                                )
                            } else if i < j <= s.len() {
                                parse_content_s(s, j, name, attrs, Seq::empty(), Seq::empty())
                            } else {
                                None
                            }
                        },
                    }
                }
            },
        }
    }
}

/// Whitespace, comments and processing instructions skipped from `i`: the
/// first index of other content, or nothing on an unterminated construct.
pub open spec fn skip_misc_s(s: Seq<char>, i: int) -> Option<int>
    decreases s.len() - i
        when 0 <= i <= s.len()
{
    if i < s.len() && is_space(s[i]) {
        skip_misc_s(s, i + 1)
    } else if s.len() - i > 1 && s[i] == '<' && s[i + 1] == '?' {
        match find2_s(s, i + 2, '?', '>') {
            Some(j) => if i < j <= s.len() {
                skip_misc_s(s, j)
            } else {
                None
            },
            None => None,
        }
    } else if s.len() - i > 3 && s[i] == '<' && s[i + 1] == '!' && s[i + 2] == '-' && s[i + 3]
        == '-' {
        match find3_s(s, i + 4, '-', '-', '>') {
            Some(j) => if i < j <= s.len() {
                skip_misc_s(s, j)
            } else {
                None
            },
            None => None,
        }
    } else {
        Some(i)
    }
}

/// The element tree of a whole document: an optional byte-order mark,
/// misc, one root element, misc, end of input — or nothing when the text
/// is not a well-formed document.
pub open spec fn doc_of(s: Seq<char>) -> Option<ElemV> {
    let st: int = if s.len() > 0 && s[0] == '\u{feff}' {
        1
    } else {
        0
    };
    match skip_misc_s(s, st) {
        None => None,
        Some(i) => {
            if !(0 <= i <= s.len()) {
                None
            } else {
                match parse_element_s(s, i) {
                    None => None,
                    Some((root, j)) => {
                        if !(0 <= j <= s.len()) {
                            None
                        } else {
                            match skip_misc_s(s, j) {
                                None => None,
                                Some(k) => if k == s.len() {
                                    Some(root)
                                } else {
                                    None
                                },
                            }
                        }
                    },
                }
            }
        },
    }
}

// ---------------------------------------------------------------------------
// The executable reader, proved equal to its meaning
// ---------------------------------------------------------------------------
/// Scans for the two characters `a b` and returns the index just past them.
fn find2(v: &Vec<char>, i: usize, a: char, b: char) -> (r: Option<usize>)
    requires
        i <= v@.len(),
    ensures
        match r {
            Some(j) => i < j <= v@.len() && find2_s(v@, i as int, a, b) == Some(j as int),
            None => find2_s(v@, i as int, a, b) is None,
        },
{
    let mut cur = i;
    while v.len() - cur > 1
        invariant
            i <= cur <= v@.len(),
            find2_s(v@, i as int, a, b) == find2_s(v@, cur as int, a, b),
        decreases v@.len() - cur,
    {
        if v[cur] == a && v[cur + 1] == b {
            return Some(cur + 2);
        }
        cur = cur + 1;
    }
    None
}

/// Scans for the three characters `a b c` and returns the index just past
/// them.
fn find3(v: &Vec<char>, i: usize, a: char, b: char, c: char) -> (r: Option<usize>)
    requires
        i <= v@.len(),
    ensures
        match r {
            Some(j) => i < j <= v@.len() && find3_s(v@, i as int, a, b, c) == Some(j as int),
            None => find3_s(v@, i as int, a, b, c) is None,
        },
{
    let mut cur = i;
    while v.len() - cur > 2
        invariant
            i <= cur <= v@.len(),
            find3_s(v@, i as int, a, b, c) == find3_s(v@, cur as int, a, b, c),
        decreases v@.len() - cur,
    {
        if v[cur] == a && v[cur + 1] == b && v[cur + 2] == c {
            return Some(cur + 3);
        }
        cur = cur + 1;
    }
    None
}

/// Returns the first index at or after `i` that holds a non-space
/// character, or the end of input.
fn skip_spaces(v: &Vec<char>, i: usize) -> (r: usize)
    requires
        i <= v@.len(),
    ensures
        i <= r <= v@.len(),
        r as int == skip_spaces_s(v@, i as int),
{
    let mut cur = i;
    while cur < v.len() && space(v[cur])
        invariant
            i <= cur <= v@.len(),
            skip_spaces_s(v@, i as int) == skip_spaces_s(v@, cur as int),
        decreases v@.len() - cur,
    {
        cur = cur + 1;
    }
    cur
}

/// Decodes one character entity starting at the `'&'` at index `i`.
fn parse_entity(v: &Vec<char>, i: usize) -> (r: Option<(char, usize)>)
    requires
        i < v@.len(),
    ensures
        match r {
            Some(p) => i < p.1 <= v@.len() && parse_entity_s(v@, i as int) == Some(
                (p.0, p.1 as int),
            ),
            None => parse_entity_s(v@, i as int) is None,
        },
{
    proof {
        assert(v@.len() == v.len());
    }
    let mut e = i + 1;
    while e < v.len() && e - i <= 5 && !(v[e] == ';')
        invariant
            i < e,
            e <= v@.len(),
            scan_semi_s(v@, i as int, i + 1) == scan_semi_s(v@, i as int, e as int),
        decreases v@.len() - e,
    {
        e = e + 1;
    }
    assert(scan_semi_s(v@, i as int, i + 1) == e);
    if e >= v.len() || !(v[e] == ';') {
        return None;
    }
    let c = if range_eq_str(v, i + 1, e, "amp") {
        '&'
    } else if range_eq_str(v, i + 1, e, "lt") {
        '<'
    } else if range_eq_str(v, i + 1, e, "gt") {
        '>'
    } else if range_eq_str(v, i + 1, e, "quot") {
        '"'
    } else if range_eq_str(v, i + 1, e, "apos") {
        '\''
    } else {
        return None;
    };
    Some((c, e + 1))
}

/// Reads a tag or attribute name starting at index `i` and returns its
/// local part: what follows the first `':'`, or the whole name.
fn parse_name(v: &Vec<char>, i: usize) -> (r: Option<(Vec<char>, usize)>)
    requires
        i <= v@.len(),
    ensures
        match r {
            Some(p) => i < p.1 <= v@.len() && parse_name_s(v@, i as int) == Some(
                (p.0@, p.1 as int),
            ),
            None => parse_name_s(v@, i as int) is None,
        },
{
    let mut cur = i;
    let mut name: Vec<char> = Vec::new();
    while cur < v.len() && name_char(v[cur])
        invariant
            i <= cur <= v@.len(),
            name@ == v@.subrange(i as int, cur as int),
            name_end_s(v@, i as int) == name_end_s(v@, cur as int),
        decreases v@.len() - cur,
    {
        let c = v[cur];
        name.push(c);
        proof {
            assert(v@.subrange(i as int, cur + 1) =~= v@.subrange(i as int, cur as int).push(
                v@[cur as int],
            ));
        }
        cur = cur + 1;
    }
    assert(name_end_s(v@, i as int) == cur);
    if cur == i {
        return None;
    }
    let ghost nm = v@.subrange(i as int, cur as int);
    // the local part: what follows the first ':'
    let mut lc: usize = 0;
    while lc < name.len() && !(name[lc] == ':')
        invariant
            0 <= lc <= name@.len(),
            name@ == nm,
            first_colon_s(nm, 0) == first_colon_s(nm, lc as int),
        decreases name@.len() - lc,
    {
        lc = lc + 1;
    }
    assert(first_colon_s(nm, 0) == lc);
    if lc == name.len() {
        return Some((name, cur));
    }
    if lc + 1 >= name.len() {
        // a trailing ':' leaves no local name
        return None;
    }
    let mut local: Vec<char> = Vec::new();
    let mut k = lc + 1;
    while k < name.len()
        invariant
            lc + 1 <= k <= name@.len(),
            name@ == nm,
            local@ == nm.subrange(lc + 1, k as int),
        decreases name@.len() - k,
    {
        let c = name[k];
        local.push(c);
        proof {
            assert(nm.subrange(lc + 1, k + 1) =~= nm.subrange(lc + 1, k as int).push(nm[k as int]));
        }
        k = k + 1;
    }
    Some((local, cur))
}

/// Skips whitespace, comments and processing instructions starting at `i`.
fn skip_misc(v: &Vec<char>, i: usize) -> (r: Option<usize>)
    requires
        i <= v@.len(),
    ensures
        match r {
            Some(j) => i <= j <= v@.len() && skip_misc_s(v@, i as int) == Some(j as int),
            None => skip_misc_s(v@, i as int) is None,
        },
{
    let mut cur = i;
    let mut go = true;
    while go
        invariant
            i <= cur <= v@.len(),
            go ==> skip_misc_s(v@, i as int) == skip_misc_s(v@, cur as int),
            !go ==> skip_misc_s(v@, i as int) == Some(cur as int),
        decreases v@.len() - cur, (if go {
            1int
        } else {
            0int
        }),
    {
        if cur < v.len() && space(v[cur]) {
            cur = cur + 1;
        } else if v.len() - cur > 1 && v[cur] == '<' && v[cur + 1] == '?' {
            cur = match find2(v, cur + 2, '?', '>') {
                Some(j) => j,
                None => {
                    return None;
                },
            };
        } else if v.len() - cur > 3 && v[cur] == '<' && v[cur + 1] == '!' && v[cur + 2] == '-'
            && v[cur + 3] == '-' {
            cur = match find3(v, cur + 4, '-', '-', '>') {
                Some(j) => j,
                None => {
                    return None;
                },
            };
        } else {
            go = false;
        }
    }
    Some(cur)
}

/// Copies a CDATA section's raw characters onto `text`; `i` points just
/// past `<![CDATA[`. Returns the index just past the closing `]]>`.
fn parse_cdata(v: &Vec<char>, i: usize, text: &mut Vec<char>) -> (r: Option<usize>)
    requires
        i <= v@.len(),
    ensures
        match r {
            Some(j) => i < j <= v@.len() && parse_cdata_s(v@, i as int, old(text)@) == Some(
                (final(text)@, j as int),
            ),
            None => parse_cdata_s(v@, i as int, old(text)@) is None,
        },
{
    let mut cur = i;
    while v.len() - cur > 2
        invariant
            i <= cur <= v@.len(),
            parse_cdata_s(v@, i as int, old(text)@) == parse_cdata_s(v@, cur as int, text@),
        decreases v@.len() - cur,
    {
        if v[cur] == ']' && v[cur + 1] == ']' && v[cur + 2] == '>' {
            return Some(cur + 3);
        }
        let c = v[cur];
        text.push(c);
        cur = cur + 1;
    }
    None
}

/// Reads one element starting at the `'<'` at index `i` and returns it,
/// with the index just past its closing tag, exactly as
/// [`parse_element_s`] assigns. Returns `None` on malformed input:
/// unbalanced or mismatched tags, an unterminated construct, an unknown
/// entity, or a stray character where a tag was expected.
pub fn parse_element(v: &Vec<char>, i: usize) -> (r: Option<(Elem, usize)>)
    requires
        i <= v@.len(),
    ensures
        match r {
            Some(p) => i < p.1 <= v@.len() && parse_element_s(v@, i as int) == Some(
                (elem_v(p.0), p.1 as int),
            ),
            None => parse_element_s(v@, i as int) is None,
        },
    decreases v@.len() - i,
{
    if i >= v.len() || !(v[i] == '<') {
        return None;
    }
    let (name, cur0) = match parse_name(v, i + 1) {
        Some(p) => p,
        None => {
            return None;
        },
    };
    let mut cur = cur0;
    let mut attrs: Vec<Attr> = Vec::new();
    proof {
        assert(attrs_v(attrs@) =~= Seq::<AttrV>::empty());
    }
    // the start tag's attribute list
    loop
        invariant_except_break
            i < v@.len(),
            i < cur <= v@.len(),
            parse_element_s(v@, i as int) == (match parse_attrs_s(
                v@,
                cur as int,
                attrs_v(attrs@),
            ) {
                None => None,
                Some((at, j, true)) => Some(
                    (
                        ElemV { name: name@, attrs: at, text: Seq::empty(), kids: Seq::empty() },
                        j,
                    ),
                ),
                Some((at, j, false)) => if i < j <= v@.len() {
                    parse_content_s(v@, j, name@, at, Seq::empty(), Seq::empty())
                } else {
                    None
                },
            }),
        ensures
            i < cur <= v@.len(),
            parse_element_s(v@, i as int) == parse_content_s(
                v@,
                cur as int,
                name@,
                attrs_v(attrs@),
                Seq::empty(),
                Seq::empty(),
            ),
        decreases v@.len() - cur,
    {
        let ghost at0 = attrs_v(attrs@);
        let ghost it0 = cur;
        cur = skip_spaces(v, cur);
        if cur >= v.len() {
            return None;
        }
        let c = v[cur];
        if c == '/' {
            if v.len() - cur > 1 && v[cur + 1] == '>' {
                proof {
                    assert(parse_attrs_s(v@, it0 as int, at0) == Some(
                        (at0, cur + 2, true),
                    ));
                }
                let e = Elem { name, attrs, text: Vec::new(), kids: Vec::new() };
                proof {
                    assert(elem_v(e) == ElemV {
                        name: e.name@,
                        attrs: at0,
                        text: Seq::empty(),
                        kids: Seq::empty(),
                    });
                }
                return Some((e, cur + 2));
            }
            proof {
                assert(parse_attrs_s(v@, it0 as int, at0) is None);
            }
            return None;
        }
        if c == '>' {
            cur = cur + 1;
            proof {
                assert(parse_attrs_s(v@, it0 as int, at0) == Some((at0, cur as int, false)));
            }
            break ;
        }
        let (aname, c2) = match parse_name(v, cur) {
            Some(p) => p,
            None => {
                proof {
                    assert(parse_attrs_s(v@, it0 as int, at0) is None);
                }
                return None;
            },
        };
        cur = c2;
        cur = skip_spaces(v, cur);
        if cur >= v.len() || !(v[cur] == '=') {
            proof {
                assert(parse_attrs_s(v@, it0 as int, at0) is None);
            }
            return None;
        }
        cur = cur + 1;
        cur = skip_spaces(v, cur);
        if cur >= v.len() {
            proof {
                assert(parse_attrs_s(v@, it0 as int, at0) is None);
            }
            return None;
        }
        let q = v[cur];
        if !(q == '"' || q == '\'') {
            proof {
                assert(parse_attrs_s(v@, it0 as int, at0) is None);
            }
            return None;
        }
        cur = cur + 1;
        let ghost v0 = cur;
        proof {
            assert(parse_attrs_s(v@, it0 as int, at0) == (match parse_value_s(
                v@,
                v0 as int,
                q,
                Seq::empty(),
            ) {
                None => None,
                Some((aval2, c5)) => if it0 < c5 <= v@.len() {
                    parse_attrs_s(v@, c5, at0.push(AttrV { name: aname@, value: aval2 }))
                } else {
                    None
                },
            }));
        }
        let mut aval: Vec<char> = Vec::new();
        loop
            invariant_except_break
                i < v@.len(),
                it0 < cur <= v@.len(),
                parse_value_s(v@, v0 as int, q, Seq::empty()) == parse_value_s(
                    v@,
                    cur as int,
                    q,
                    aval@,
                ),
                parse_attrs_s(v@, it0 as int, at0) == (match parse_value_s(
                    v@,
                    v0 as int,
                    q,
                    Seq::empty(),
                ) {
                    None => None,
                    Some((aval2, c5)) => if it0 < c5 <= v@.len() {
                        parse_attrs_s(v@, c5, at0.push(AttrV { name: aname@, value: aval2 }))
                    } else {
                        None
                    },
                }),
                parse_element_s(v@, i as int) == (match parse_attrs_s(v@, it0 as int, at0) {
                    None => None,
                    Some((at, j, true)) => Some(
                        (
                            ElemV {
                                name: name@,
                                attrs: at,
                                text: Seq::empty(),
                                kids: Seq::empty(),
                            },
                            j,
                        ),
                    ),
                    Some((at, j, false)) => if i < j <= v@.len() {
                        parse_content_s(v@, j, name@, at, Seq::empty(), Seq::empty())
                    } else {
                        None
                    },
                }),
            ensures
                it0 < cur <= v@.len(),
                parse_value_s(v@, v0 as int, q, Seq::empty()) == Some((aval@, cur as int)),
            decreases v@.len() - cur,
        {
            if cur >= v.len() {
                return None;
            }
            let vc = v[cur];
            if vc == q {
                cur = cur + 1;
                break ;
            }
            if vc == '<' {
                return None;
            }
            if vc == '&' {
                let (ch, c3) = match parse_entity(v, cur) {
                    Some(p) => p,
                    None => {
                        return None;
                    },
                };
                aval.push(ch);
                cur = c3;
            } else {
                aval.push(vc);
                cur = cur + 1;
            }
        }
        let ghost ap = attrs@;
        attrs.push(Attr { name: aname, value: aval });
        proof {
            assert(attrs@ == ap.push(attrs@.last()));
            lemma_attrs_v_push(ap, attrs@.last());
            assert(attr_v(attrs@.last()) == AttrV { name: aname@, value: aval@ });
            assert(parse_attrs_s(v@, it0 as int, at0) == parse_attrs_s(
                v@,
                cur as int,
                attrs_v(attrs@),
            ));
        }
    }
    // the element's content, up to the matching close tag
    let mut text: Vec<char> = Vec::new();
    let mut kids: Vec<Elem> = Vec::new();
    proof {
        assert(elems_v(kids@) =~= Seq::<ElemV>::empty());
    }
    loop
        invariant
            i < cur <= v@.len(),
            parse_element_s(v@, i as int) == parse_content_s(
                v@,
                cur as int,
                name@,
                attrs_v(attrs@),
                text@,
                elems_v(kids@),
            ),
        decreases v@.len() - cur,
    {
        if cur >= v.len() {
            return None;
        }
        let c = v[cur];
        if c == '<' {
            if v.len() - cur > 1 && v[cur + 1] == '/' {
                // the closing tag
                let (cname, c2) = match parse_name(v, cur + 2) {
                    Some(p) => p,
                    None => {
                        return None;
                    },
                };
                if !chars_eq_chars(&cname, &name) {
                    return None;
                }
                let c3 = skip_spaces(v, c2);
                if c3 >= v.len() || !(v[c3] == '>') {
                    return None;
                }
                proof {
                    assert(parse_content_s(
                        v@,
                        cur as int,
                        name@,
                        attrs_v(attrs@),
                        text@,
                        elems_v(kids@),
                    ) == Some(
                        (
                            ElemV {
                                name: name@,
                                attrs: attrs_v(attrs@),
                                text: text@,
                                kids: elems_v(kids@),
                            },
                            c3 + 1,
                        ),
                    ));
                }
                let e = Elem { name, attrs, text, kids };
                return Some((e, c3 + 1));
            }
            if v.len() - cur > 3 && v[cur + 1] == '!' && v[cur + 2] == '-' && v[cur + 3] == '-' {
                cur = match find3(v, cur + 4, '-', '-', '>') {
                    Some(j) => j,
                    None => {
                        return None;
                    },
                };
            } else if v.len() - cur >= 9 && v[cur + 1] == '!' && range_eq_str(
                v,
                cur + 1,
                cur + 9,
                "![CDATA[",
            ) {
                cur = match parse_cdata(v, cur + 9, &mut text) {
                    Some(j) => j,
                    None => {
                        return None;
                    },
                };
            } else if v.len() - cur > 1 && v[cur + 1] == '?' {
                cur = match find2(v, cur + 2, '?', '>') {
                    Some(j) => j,
                    None => {
                        return None;
                    },
                };
            } else if v.len() - cur > 1 && v[cur + 1] == '!' {
                // document type declarations are not accepted here
                return None;
            } else {
                let (kid, c2) = match parse_element(v, cur) {
                    Some(p) => p,
                    None => {
                        return None;
                    },
                };
                proof {
                    lemma_elems_v_push(kids@, kid);
                }
                kids.push(kid);
                cur = c2;
            }
        } else if c == '&' {
            let (ch, c2) = match parse_entity(v, cur) {
                Some(p) => p,
                None => {
                    return None;
                },
            };
            text.push(ch);
            cur = c2;
        } else {
            text.push(c);
            cur = cur + 1;
        }
    }
}

/// Appending one element extends its sequence of values by its value.
pub proof fn lemma_elems_v_push(s: Seq<Elem>, e: Elem)
    ensures
        elems_v(s.push(e)) == elems_v(s).push(elem_v(e)),
{
    assert(s.push(e).drop_last() =~= s);
    assert(s.push(e).last() == e);
}

/// Appending one attribute extends its sequence of values by its value.
pub proof fn lemma_attrs_v_push(s: Seq<Attr>, a: Attr)
    ensures
        attrs_v(s.push(a)) == attrs_v(s).push(attr_v(a)),
{
    assert(s.push(a).drop_last() =~= s);
    assert(s.push(a).last() == a);
}

/// Reads a whole document — optional byte-order mark, misc, one root
/// element, misc, end of input — returning exactly the tree that
/// [`doc_of`] assigns to the text, or `None` exactly when it assigns
/// nothing.
pub fn parse_document(v: &Vec<char>) -> (r: Option<Elem>)
    ensures
        match r {
            Some(root) => doc_of(v@) == Some(elem_v(root)),
            None => doc_of(v@) is None,
        },
{
    let mut i: usize = 0;
    if v.len() > 0 && v[0] == '\u{feff}' {
        i = 1;
    }
    i = match skip_misc(v, i) {
        Some(j) => j,
        None => {
            return None;
        },
    };
    let (root, j) = match parse_element(v, i) {
        Some(p) => p,
        None => {
            return None;
        },
    };
    let k = match skip_misc(v, j) {
        Some(j2) => j2,
        None => {
            return None;
        },
    };
    if k != v.len() {
        return None;
    }
    Some(root)
}

} // verus!
