//! The mapper: translates an XML element tree into the TCX model.
//!
//! Every model field is bound to a tag name by the rules here. The
//! binding is case-sensitive and exact. A scalar field's value may stand
//! in an attribute or in a leaf child element of that name; a structured
//! field's value stands in child elements only. An absent optional field
//! maps to the "none" state; an absent required field, a duplicated
//! single-valued field, malformed text, or an out-of-vocabulary
//! enumeration value is a mapping error. Unrecognized tags and attributes
//! are ignored everywhere.

use vstd::prelude::*;

use crate::text::is_digits;
use crate::text::digits_val;
use crate::text::dec_ok;
use crate::text::dec_canon;
use crate::text::plain_dec_ok;
use crate::text::milli_val;
use crate::text::parse_u64;
use crate::text::parse_milli;
use crate::text::canon_decimal;
use crate::text::chars_eq_str;
use crate::text::string_from_chars;
use crate::xml::AttrV;
use crate::xml::Elem;
use crate::xml::ElemV;
use crate::xml::attr_v;
use crate::xml::lemma_attrs_v;
use crate::xml::elem_v;
use crate::xml::elems_v;
use crate::xml::lemma_elems_v;
use crate::tcx::TcxError;
use crate::tcx::Decimal;
use crate::tcx::Timestamp;
use crate::tcx::Bpm;
use crate::tcx::Intensity;
use crate::tcx::TriggerMethod;
use crate::tcx::Ns3Tpx;
use crate::tcx::Extensions;
use crate::tcx::Position;
use crate::tcx::HeartRate;
use crate::tcx::Trackpoint;
use crate::tcx::Track;
use crate::tcx::ActivityLap;
use crate::tcx::Activity;
use crate::tcx::Activities;
use crate::tcx::NameKeyReference;
use crate::tcx::CourseFolder;
use crate::tcx::Courses;
use crate::tcx::History;
use crate::tcx::Workouts;
use crate::tcx::Folders;
use crate::tcx::TrainingCenterDatabase;
use crate::tcx::CoursePointType;
use crate::tcx::CoursePointName;
use crate::tcx::CoursePoint;
use crate::tcx::CourseLap;
use crate::tcx::Course;
use crate::tcx::AbstractSource;

verus! {

broadcast use vstd::std_specs::control_flow::group_control_flow_axioms;

// ---------------------------------------------------------------------------
// Occurrences of a name among an element's children and attributes
// ---------------------------------------------------------------------------
/// The children named `n`, in document order.
pub open spec fn named(s: Seq<ElemV>, n: Seq<char>) -> Seq<ElemV>
    decreases s.len(),
{
    if s.len() == 0 {
        Seq::empty()
    } else {
        named(s.drop_last(), n) + (if s.last().name == n {
            seq![s.last()]
        } else {
            Seq::empty()
        })
    }
}

/// The values of the attributes named `n`, in order.
pub open spec fn attr_vals(s: Seq<AttrV>, n: Seq<char>) -> Seq<Seq<char>>
    decreases s.len(),
{
    if s.len() == 0 {
        Seq::empty()
    } else {
        attr_vals(s.drop_last(), n) + (if s.last().name == n {
            seq![s.last().value]
        } else {
            Seq::empty()
        })
    }
}

/// How often the scalar field `n` occurs: as an attribute or as a child
/// element.
pub open spec fn scalar_count(e: ElemV, n: Seq<char>) -> int {
    attr_vals(e.attrs, n).len() as int + named(e.kids, n).len() as int
}

/// The text of the scalar field `n`'s single occurrence: the attribute's
/// value, or the child element's character data.
pub open spec fn scalar_text(e: ElemV, n: Seq<char>) -> Seq<char> {
    if attr_vals(e.attrs, n).len() > 0 {
        attr_vals(e.attrs, n)[0]
    } else {
        named(e.kids, n)[0].text
    }
}

/// The well-formed shapes of an optional scalar field `n`: at most one
/// occurrence, and a child occurrence must be a leaf element.
pub open spec fn scalar_opt_ok(e: ElemV, n: Seq<char>) -> bool {
    &&& scalar_count(e, n) <= 1
    &&& forall|k: int|
        0 <= k < named(e.kids, n).len() ==> (#[trigger] named(e.kids, n)[k]).kids.len() == 0
}

/// A required scalar field `n`: exactly one well-shaped occurrence.
pub open spec fn scalar_req_ok(e: ElemV, n: Seq<char>) -> bool {
    scalar_opt_ok(e, n) && scalar_count(e, n) == 1
}

/// The well-formed shapes of an optional structured field `n`: at most
/// one child of that name, and no attribute of that name.
pub open spec fn child_opt_ok(e: ElemV, n: Seq<char>) -> bool {
    attr_vals(e.attrs, n).len() == 0 && named(e.kids, n).len() <= 1
}

/// A repeated structured field `n` admits any number of children but no
/// attribute of that name.
pub open spec fn rep_ok(e: ElemV, n: Seq<char>) -> bool {
    attr_vals(e.attrs, n).len() == 0
}

/// The single child named `n`.
pub open spec fn kid0(e: ElemV, n: Seq<char>) -> ElemV {
    named(e.kids, n)[0]
}

// ---------------------------------------------------------------------------
// Which error a faulty field yields
// ---------------------------------------------------------------------------
/// The error for a misshapen scalar field: a duplicate occurrence is
/// reported as such, and a child occurrence that is not a leaf as a bad
/// value, naming the field either way.
pub open spec fn scalar_shape_err(e: ElemV, n: Seq<char>, err: TcxError) -> bool {
    if scalar_count(e, n) > 1 {
        err matches TcxError::DuplicateField { tag } && tag@ == n
    } else {
        err matches TcxError::BadValue { tag } && tag@ == n
    }
}

/// The error for a misshapen structured field: an attribute of that name
/// is a bad value, a duplicated child is a duplicate, naming the field.
pub open spec fn child_shape_err(e: ElemV, n: Seq<char>, err: TcxError) -> bool {
    if attr_vals(e.attrs, n).len() > 0 {
        err matches TcxError::BadValue { tag } && tag@ == n
    } else {
        err matches TcxError::DuplicateField { tag } && tag@ == n
    }
}

/// The error for an optional scalar field whose single occurrence has
/// malformed text.
pub open spec fn val_field_err(e: ElemV, n: Seq<char>, err: TcxError) -> bool {
    if !scalar_opt_ok(e, n) {
        scalar_shape_err(e, n, err)
    } else {
        err matches TcxError::BadValue { tag } && tag@ == n
    }
}

/// The error for a required scalar field: absence is reported as a
/// missing field, malformed text as a bad value, naming the field.
pub open spec fn req_field_err(e: ElemV, n: Seq<char>, err: TcxError) -> bool {
    if !scalar_opt_ok(e, n) {
        scalar_shape_err(e, n, err)
    } else if scalar_count(e, n) == 0 {
        err matches TcxError::MissingField { tag } && tag@ == n
    } else {
        err matches TcxError::BadValue { tag } && tag@ == n
    }
}

/// The error for an enumeration field whose text is outside its
/// vocabulary: it names the enumeration and carries the offending value.
pub open spec fn enum_field_err(e: ElemV, n: Seq<char>, err: TcxError) -> bool {
    if !scalar_opt_ok(e, n) {
        scalar_shape_err(e, n, err)
    } else {
        err matches TcxError::BadEnum { tag, value } && tag@ == n && value@ == scalar_text(e, n)
    }
}

/// The error for a required timestamp field: absence is a missing field;
/// text that chrono rejects names the field and carries the text.
pub open spec fn ts_field_err(e: ElemV, n: Seq<char>, err: TcxError) -> bool {
    if !scalar_opt_ok(e, n) {
        scalar_shape_err(e, n, err)
    } else if scalar_count(e, n) == 0 {
        err matches TcxError::MissingField { tag } && tag@ == n
    } else {
        err matches TcxError::BadTimestamp { tag, value } && tag@ == n && value@ == scalar_text(
            e,
            n,
        )
    }
}

/// The error for a required text field: its text cannot be malformed, so
/// only absence or a misshapen occurrence fails it.
pub open spec fn str_req_err(e: ElemV, n: Seq<char>, err: TcxError) -> bool {
    if !scalar_opt_ok(e, n) {
        scalar_shape_err(e, n, err)
    } else {
        err matches TcxError::MissingField { tag } && tag@ == n
    }
}

// ---------------------------------------------------------------------------
// Lemmas about occurrence sequences
// ---------------------------------------------------------------------------
/// Extending a prefix by one element extends its `named` selection by
/// that element exactly when the name matches.
pub proof fn lemma_named_step(q: Seq<ElemV>, k: int, n: Seq<char>)
    requires
        0 <= k < q.len(),
    ensures
        named(q.take(k + 1), n) == named(q.take(k), n) + (if q[k].name == n {
            seq![q[k]]
        } else {
            Seq::<ElemV>::empty()
        }),
{
    assert(q.take(k + 1).drop_last() =~= q.take(k));
    assert(q.take(k + 1).last() == q[k]);
}

pub proof fn lemma_attr_step(q: Seq<AttrV>, k: int, n: Seq<char>)
    requires
        0 <= k < q.len(),
    ensures
        attr_vals(q.take(k + 1), n) == attr_vals(q.take(k), n) + (if q[k].name == n {
            seq![q[k].value]
        } else {
            Seq::<Seq<char>>::empty()
        }),
{
    assert(q.take(k + 1).drop_last() =~= q.take(k));
    assert(q.take(k + 1).last() == q[k]);
}

/// Every element selected by `named` is an element of the sequence.
pub proof fn lemma_named_sub(s: Seq<ElemV>, n: Seq<char>, i: int)
    requires
        0 <= i < named(s, n).len(),
    ensures
        exists|j: int| 0 <= j < s.len() && named(s, n)[i] == s[j],
    decreases s.len(),
{
    if s.len() > 0 {
        let d = s.drop_last();
        if i < named(d, n).len() {
            lemma_named_sub(d, n, i);
            let j = choose|j: int| 0 <= j < d.len() && named(d, n)[i] == d[j];
            assert(named(s, n)[i] == s[j]);
        } else {
            assert(named(s, n)[i] == s[s.len() - 1]);
        }
    }
}

// ---------------------------------------------------------------------------
// Locating a field's occurrence
// ---------------------------------------------------------------------------
/// Where the scalar field `n`'s single occurrence stands.
enum ScalarAt {
    Attr(usize),
    Kid(usize),
}

/// Finds the occurrence of the scalar field `n` in `e`, checking its
/// shape: `Ok(Some(_))` for exactly one well-shaped occurrence,
/// `Ok(None)` for none, and a mapping error for a duplicate or a child
/// occurrence that is not a leaf.
fn find_scalar(e: &Elem, n: &str) -> (r: Result<Option<ScalarAt>, TcxError>)
    ensures
        ({
            let ev = elem_v(*e);
            match r {
                Ok(Some(at)) => {
                    &&& scalar_opt_ok(ev, n@)
                    &&& scalar_count(ev, n@) == 1
                    &&& match at {
                        ScalarAt::Attr(j) => j < e.attrs@.len() && e.attrs@[j as int].value@
                            == scalar_text(ev, n@),
                        ScalarAt::Kid(j) => j < e.kids@.len() && e.kids@[j as int].text@
                            == scalar_text(ev, n@),
                    }
                },
                Ok(None) => scalar_opt_ok(ev, n@) && scalar_count(ev, n@) == 0,
                Err(err) => !scalar_opt_ok(ev, n@) && scalar_shape_err(ev, n@, err),
            }
        }),
{
    let ghost ev = elem_v(*e);
    proof {
        lemma_elems_v(e.kids@);
        lemma_attrs_v(e.attrs@);
    }
    // count the attribute occurrences, remembering the first
    let mut na: usize = 0;
    let mut ai: usize = 0;
    let mut i: usize = 0;
    while i < e.attrs.len()
        invariant
            0 <= i <= e.attrs@.len(),
            ev == elem_v(*e),
            ev.attrs.len() == e.attrs@.len(),
            forall|k: int| 0 <= k < ev.attrs.len() ==> ev.attrs[k] == attr_v(e.attrs@[k]),
            na == attr_vals(ev.attrs.take(i as int), n@).len(),
            na > 0 ==> ai < e.attrs@.len() && e.attrs@[ai as int].value@ == attr_vals(
                ev.attrs.take(i as int),
                n@,
            )[0],
            na <= i,
        decreases e.attrs@.len() - i,
    {
        proof {
            lemma_attr_step(ev.attrs, i as int, n@);
        }
        if chars_eq_str(&e.attrs[i].name, n) {
            if na == 0 {
                ai = i;
            }
            na = na + 1;
        }
        i = i + 1;
    }
    proof {
        assert(ev.attrs.take(ev.attrs.len() as int) =~= ev.attrs);
    }
    // count the child occurrences, remembering the first
    let mut nk: usize = 0;
    let mut ki: usize = 0;
    let mut k: usize = 0;
    while k < e.kids.len()
        invariant
            0 <= k <= e.kids@.len(),
            ev == elem_v(*e),
            ev.kids.len() == e.kids@.len(),
            forall|j: int| 0 <= j < ev.kids.len() ==> ev.kids[j] == elem_v(e.kids@[j]),
            nk == named(ev.kids.take(k as int), n@).len(),
            nk > 0 ==> ki < e.kids@.len() && elem_v(e.kids@[ki as int]) == named(
                ev.kids.take(k as int),
                n@,
            )[0],
            nk <= k,
        decreases e.kids@.len() - k,
    {
        proof {
            lemma_named_step(ev.kids, k as int, n@);
        }
        if chars_eq_str(&e.kids[k].name, n) {
            if nk == 0 {
                ki = k;
            }
            nk = nk + 1;
        }
        k = k + 1;
    }
    proof {
        assert(ev.kids.take(ev.kids.len() as int) =~= ev.kids);
    }
    if na > 1 || nk > 1 || (na == 1 && nk == 1) {
        return Err(TcxError::DuplicateField { tag: n.to_owned() });
    }
    if na == 1 {
        return Ok(Some(ScalarAt::Attr(ai)));
    }
    if nk == 1 {
        proof {
            lemma_elems_v(e.kids@[ki as int].kids@);
        }
        if e.kids[ki].kids.len() > 0 {
            return Err(TcxError::BadValue { tag: n.to_owned() });
        }
        return Ok(Some(ScalarAt::Kid(ki)));
    }
    Ok(None)
}

/// What a prefix selects is a prefix of what the whole selects.
proof fn lemma_named_prefix_le(s: Seq<ElemV>, k: int, n: Seq<char>)
    requires
        0 <= k <= s.len(),
    ensures
        named(s.take(k), n).len() <= named(s, n).len(),
        named(s, n).take(named(s.take(k), n).len() as int) == named(s.take(k), n),
    decreases s.len() - k,
{
    if k < s.len() {
        lemma_named_step(s, k, n);
        lemma_named_prefix_le(s, k + 1, n);
        let p = named(s.take(k), n);
        let q = named(s.take(k + 1), n);
        assert(q.take(p.len() as int) =~= p);
        assert(named(s, n).take(p.len() as int) =~= named(s, n).take(q.len() as int).take(
            p.len() as int,
        ));
    } else {
        assert(s.take(k) =~= s);
    }
}

proof fn lemma_attr_prefix_le(s: Seq<AttrV>, k: int, n: Seq<char>)
    requires
        0 <= k <= s.len(),
    ensures
        attr_vals(s.take(k), n).len() <= attr_vals(s, n).len(),
    decreases s.len() - k,
{
    if k < s.len() {
        lemma_attr_step(s, k, n);
        lemma_attr_prefix_le(s, k + 1, n);
    } else {
        assert(s.take(k) =~= s);
    }
}

/// Finds the single child element named `n`: its index for one
/// occurrence, `None` for none, and a mapping error for a duplicate or
/// for an attribute of that name.
fn find_child(e: &Elem, n: &str) -> (r: Result<Option<usize>, TcxError>)
    ensures
        ({
            let ev = elem_v(*e);
            match r {
                Ok(Some(j)) => {
                    &&& child_opt_ok(ev, n@)
                    &&& named(ev.kids, n@).len() == 1
                    &&& j < e.kids@.len()
                    &&& elem_v(e.kids@[j as int]) == kid0(ev, n@)
                },
                Ok(None) => child_opt_ok(ev, n@) && named(ev.kids, n@).len() == 0,
                Err(err) => !child_opt_ok(ev, n@) && child_shape_err(ev, n@, err),
            }
        }),
{
    let ghost ev = elem_v(*e);
    proof {
        lemma_elems_v(e.kids@);
        lemma_attrs_v(e.attrs@);
    }
    // no attribute of this name is accepted for a structured field
    let mut i: usize = 0;
    while i < e.attrs.len()
        invariant
            0 <= i <= e.attrs@.len(),
            ev == elem_v(*e),
            ev.attrs.len() == e.attrs@.len(),
            forall|k: int| 0 <= k < ev.attrs.len() ==> ev.attrs[k] == attr_v(e.attrs@[k]),
            attr_vals(ev.attrs.take(i as int), n@).len() == 0,
        decreases e.attrs@.len() - i,
    {
        proof {
            lemma_attr_step(ev.attrs, i as int, n@);
        }
        if chars_eq_str(&e.attrs[i].name, n) {
            proof {
                lemma_attr_prefix_le(ev.attrs, i + 1, n@);
            }
            return Err(TcxError::BadValue { tag: n.to_owned() });
        }
        i = i + 1;
    }
    proof {
        assert(ev.attrs.take(ev.attrs.len() as int) =~= ev.attrs);
    }
    let mut found: Option<usize> = None;
    let mut k: usize = 0;
    while k < e.kids.len()
        invariant
            0 <= k <= e.kids@.len(),
            ev == elem_v(*e),
            ev.kids.len() == e.kids@.len(),
            forall|j: int| 0 <= j < ev.kids.len() ==> ev.kids[j] == elem_v(e.kids@[j]),
            attr_vals(ev.attrs, n@).len() == 0,
            named(ev.kids.take(k as int), n@).len() <= 1,
            match found {
                Some(j) => {
                    &&& named(ev.kids.take(k as int), n@).len() == 1
                    &&& j < e.kids@.len()
                    &&& elem_v(e.kids@[j as int]) == named(ev.kids.take(k as int), n@)[0]
                },
                None => named(ev.kids.take(k as int), n@).len() == 0,
            },
        decreases e.kids@.len() - k,
    {
        proof {
            lemma_named_step(ev.kids, k as int, n@);
        }
        if chars_eq_str(&e.kids[k].name, n) {
            if found.is_some() {
                proof {
                    lemma_named_prefix_le(ev.kids, k + 1, n@);
                }
                return Err(TcxError::DuplicateField { tag: n.to_owned() });
            }
            found = Some(k);
        }
        k = k + 1;
    }
    proof {
        assert(ev.kids.take(ev.kids.len() as int) =~= ev.kids);
    }
    Ok(found)
}

// ---------------------------------------------------------------------------
// Typed scalar fields
// ---------------------------------------------------------------------------
pub open spec fn dec_opt_ok(e: ElemV, n: Seq<char>) -> bool {
    scalar_opt_ok(e, n) && (scalar_count(e, n) == 1 ==> dec_ok(scalar_text(e, n)))
}

pub open spec fn dec_req_ok(e: ElemV, n: Seq<char>) -> bool {
    scalar_req_ok(e, n) && dec_ok(scalar_text(e, n))
}

pub open spec fn dec_opt_from(e: ElemV, n: Seq<char>, v: Option<Decimal>) -> bool {
    if scalar_count(e, n) == 1 {
        match v {
            Some(d) => d.text@ == dec_canon(scalar_text(e, n)),
            None => false,
        }
    } else {
        v is None
    }
}

pub open spec fn dec_req_from(e: ElemV, n: Seq<char>, d: Decimal) -> bool {
    d.text@ == dec_canon(scalar_text(e, n))
}

/// A heart-rate value: an unsigned decimal literal whose value fits in
/// `u32::MAX` thousandths of a beat per minute.
pub open spec fn bpm_text_ok(t: Seq<char>) -> bool {
    plain_dec_ok(t) && milli_val(t) <= u32::MAX
}

pub open spec fn bpm_opt_ok(e: ElemV, n: Seq<char>) -> bool {
    scalar_opt_ok(e, n) && (scalar_count(e, n) == 1 ==> bpm_text_ok(scalar_text(e, n)))
}

pub open spec fn bpm_req_ok(e: ElemV, n: Seq<char>) -> bool {
    scalar_req_ok(e, n) && bpm_text_ok(scalar_text(e, n))
}

pub open spec fn bpm_opt_from(e: ElemV, n: Seq<char>, v: Option<Bpm>) -> bool {
    if scalar_count(e, n) == 1 {
        match v {
            Some(b) => b.milli == milli_val(scalar_text(e, n)),
            None => false,
        }
    } else {
        v is None
    }
}

/// An unsigned integer with an upper bound (cadence, calories, watts,
/// version numbers).
pub open spec fn uint_text_ok(t: Seq<char>, max: int) -> bool {
    is_digits(t) && digits_val(t) <= max
}

pub open spec fn uint_opt_ok(e: ElemV, n: Seq<char>, max: int) -> bool {
    scalar_opt_ok(e, n) && (scalar_count(e, n) == 1 ==> uint_text_ok(scalar_text(e, n), max))
}

pub open spec fn uint_req_ok(e: ElemV, n: Seq<char>, max: int) -> bool {
    scalar_req_ok(e, n) && uint_text_ok(scalar_text(e, n), max)
}

pub open spec fn str_opt_ok(e: ElemV, n: Seq<char>) -> bool {
    scalar_opt_ok(e, n)
}

pub open spec fn str_opt_from(e: ElemV, n: Seq<char>, v: Option<String>) -> bool {
    if scalar_count(e, n) == 1 {
        match v {
            Some(s) => s@ == scalar_text(e, n),
            None => false,
        }
    } else {
        v is None
    }
}

pub open spec fn str_req_from(e: ElemV, n: Seq<char>, s: String) -> bool {
    s@ == scalar_text(e, n)
}

/// A required timestamp: chrono accepts its text as RFC 3339.
pub open spec fn ts_req_ok(e: ElemV, n: Seq<char>) -> bool {
    scalar_req_ok(e, n) && crate::time::utc_norm(scalar_text(e, n)) is Some
}

pub open spec fn ts_req_from(e: ElemV, n: Seq<char>, ts: Timestamp) -> bool {
    match crate::time::utc_norm(scalar_text(e, n)) {
        Some(x) => ts.text@ == x,
        None => false,
    }
}

/// Strict decoding of the `Intensity` vocabulary: the text must equal a
/// member exactly, or the value is outside the vocabulary.
pub open spec fn intensity_of(t: Seq<char>) -> Option<Intensity> {
    if t == ("Active")@ {
        Some(Intensity::Active)
    } else if t == ("Resting")@ {
        Some(Intensity::Resting)
    } else {
        None
    }
}

/// Strict decoding of the `TriggerMethod` vocabulary.
pub open spec fn trigger_of(t: Seq<char>) -> Option<TriggerMethod> {
    if t == ("Manual")@ {
        Some(TriggerMethod::Manual)
    } else if t == ("Distance")@ {
        Some(TriggerMethod::Distance)
    } else if t == ("Location")@ {
        Some(TriggerMethod::Location)
    } else if t == ("Time")@ {
        Some(TriggerMethod::Time)
    } else if t == ("HeartRate")@ {
        Some(TriggerMethod::HeartRate)
    } else {
        None
    }
}

pub open spec fn intensity_opt_ok(e: ElemV, n: Seq<char>) -> bool {
    scalar_opt_ok(e, n) && (scalar_count(e, n) == 1 ==> intensity_of(scalar_text(e, n)) is Some)
}

pub open spec fn intensity_opt_from(e: ElemV, n: Seq<char>, v: Option<Intensity>) -> bool {
    if scalar_count(e, n) == 1 {
        v == intensity_of(scalar_text(e, n)) && v is Some
    } else {
        v is None
    }
}

pub open spec fn trigger_opt_ok(e: ElemV, n: Seq<char>) -> bool {
    scalar_opt_ok(e, n) && (scalar_count(e, n) == 1 ==> trigger_of(scalar_text(e, n)) is Some)
}

pub open spec fn trigger_opt_from(e: ElemV, n: Seq<char>, v: Option<TriggerMethod>) -> bool {
    if scalar_count(e, n) == 1 {
        v == trigger_of(scalar_text(e, n)) && v is Some
    } else {
        v is None
    }
}

// ---------------------------------------------------------------------------
// Reading typed scalar fields
// ---------------------------------------------------------------------------
/// The text of the occurrence that `find_scalar` located.
fn scalar_chars<'a>(e: &'a Elem, at: &ScalarAt, Ghost(n): Ghost<Seq<char>>) -> (t: &'a Vec<char>)
    requires
        ({
            let ev = elem_v(*e);
            match *at {
                ScalarAt::Attr(j) => j < e.attrs@.len() && e.attrs@[j as int].value@
                    == scalar_text(ev, n),
                ScalarAt::Kid(j) => j < e.kids@.len() && e.kids@[j as int].text@ == scalar_text(
                    ev,
                    n,
                ),
            }
        }),
    ensures
        t@ == scalar_text(elem_v(*e), n),
{
    match at {
        ScalarAt::Attr(j) => &e.attrs[*j].value,
        ScalarAt::Kid(j) => &e.kids[*j].text,
    }
}

fn read_dec_opt(e: &Elem, n: &str) -> (r: Result<Option<Decimal>, TcxError>)
    ensures
        r is Ok <==> dec_opt_ok(elem_v(*e), n@),
        r matches Ok(v) ==> dec_opt_from(elem_v(*e), n@, v),
        r matches Err(err) ==> val_field_err(elem_v(*e), n@, err),
{
    match find_scalar(e, n)? {
        None => Ok(None),
        Some(at) => {
            let t = scalar_chars(e, &at, Ghost(n@));
            proof {
                assert(t@.subrange(0, t@.len() as int) =~= t@);
            }
            match canon_decimal(t, 0, t.len()) {
                Some(c) => Ok(Some(Decimal { text: string_from_chars(&c) })),
                None => Err(TcxError::BadValue { tag: n.to_owned() }),
            }
        },
    }
}

fn read_dec_req(e: &Elem, n: &str) -> (r: Result<Decimal, TcxError>)
    ensures
        r is Ok <==> dec_req_ok(elem_v(*e), n@),
        r matches Ok(d) ==> dec_req_from(elem_v(*e), n@, d),
        r matches Err(err) ==> req_field_err(elem_v(*e), n@, err),
{
    match find_scalar(e, n)? {
        None => Err(TcxError::MissingField { tag: n.to_owned() }),
        Some(at) => {
            let t = scalar_chars(e, &at, Ghost(n@));
            proof {
                assert(t@.subrange(0, t@.len() as int) =~= t@);
            }
            match canon_decimal(t, 0, t.len()) {
                Some(c) => Ok(Decimal { text: string_from_chars(&c) }),
                None => Err(TcxError::BadValue { tag: n.to_owned() }),
            }
        },
    }
}

fn read_bpm_opt(e: &Elem, n: &str) -> (r: Result<Option<Bpm>, TcxError>)
    ensures
        r is Ok <==> bpm_opt_ok(elem_v(*e), n@),
        r matches Ok(v) ==> bpm_opt_from(elem_v(*e), n@, v),
        r matches Err(err) ==> val_field_err(elem_v(*e), n@, err),
{
    match find_scalar(e, n)? {
        None => Ok(None),
        Some(at) => {
            let t = scalar_chars(e, &at, Ghost(n@));
            proof {
                assert(t@.subrange(0, t@.len() as int) =~= t@);
            }
            match parse_milli(t, 0, t.len()) {
                Some(m) => Ok(Some(Bpm { milli: m })),
                None => Err(TcxError::BadValue { tag: n.to_owned() }),
            }
        },
    }
}

fn read_bpm_req(e: &Elem, n: &str) -> (r: Result<Bpm, TcxError>)
    ensures
        r is Ok <==> bpm_req_ok(elem_v(*e), n@),
        r matches Ok(b) ==> b.milli == milli_val(scalar_text(elem_v(*e), n@)),
        r matches Err(err) ==> req_field_err(elem_v(*e), n@, err),
{
    match find_scalar(e, n)? {
        None => Err(TcxError::MissingField { tag: n.to_owned() }),
        Some(at) => {
            let t = scalar_chars(e, &at, Ghost(n@));
            proof {
                assert(t@.subrange(0, t@.len() as int) =~= t@);
            }
            match parse_milli(t, 0, t.len()) {
                Some(m) => Ok(Bpm { milli: m }),
                None => Err(TcxError::BadValue { tag: n.to_owned() }),
            }
        },
    }
}

fn read_u8_opt(e: &Elem, n: &str) -> (r: Result<Option<u8>, TcxError>)
    ensures
        r is Ok <==> uint_opt_ok(elem_v(*e), n@, u8::MAX as int),
        r matches Err(err) ==> val_field_err(elem_v(*e), n@, err),
        r matches Ok(v) ==> (if scalar_count(elem_v(*e), n@) == 1 {
            match v {
                Some(x) => x == digits_val(scalar_text(elem_v(*e), n@)),
                None => false,
            }
        } else {
            v is None
        }),
{
    match find_scalar(e, n)? {
        None => Ok(None),
        Some(at) => {
            let t = scalar_chars(e, &at, Ghost(n@));
            proof {
                assert(t@.subrange(0, t@.len() as int) =~= t@);
            }
            match parse_u64(t, 0, t.len()) {
                Some(x) if x <= u8::MAX as u64 => Ok(Some(x as u8)),
                _ => Err(TcxError::BadValue { tag: n.to_owned() }),
            }
        },
    }
}

fn read_u16_opt(e: &Elem, n: &str) -> (r: Result<Option<u16>, TcxError>)
    ensures
        r is Ok <==> uint_opt_ok(elem_v(*e), n@, u16::MAX as int),
        r matches Err(err) ==> val_field_err(elem_v(*e), n@, err),
        r matches Ok(v) ==> (if scalar_count(elem_v(*e), n@) == 1 {
            match v {
                Some(x) => x == digits_val(scalar_text(elem_v(*e), n@)),
                None => false,
            }
        } else {
            v is None
        }),
{
    match find_scalar(e, n)? {
        None => Ok(None),
        Some(at) => {
            let t = scalar_chars(e, &at, Ghost(n@));
            proof {
                assert(t@.subrange(0, t@.len() as int) =~= t@);
            }
            match parse_u64(t, 0, t.len()) {
                Some(x) if x <= u16::MAX as u64 => Ok(Some(x as u16)),
                _ => Err(TcxError::BadValue { tag: n.to_owned() }),
            }
        },
    }
}

fn read_u16_req(e: &Elem, n: &str) -> (r: Result<u16, TcxError>)
    ensures
        r is Ok <==> uint_req_ok(elem_v(*e), n@, u16::MAX as int),
        r matches Ok(x) ==> x == digits_val(scalar_text(elem_v(*e), n@)),
        r matches Err(err) ==> req_field_err(elem_v(*e), n@, err),
{
    match read_u16_opt(e, n)? {
        Some(x) => Ok(x),
        None => Err(TcxError::MissingField { tag: n.to_owned() }),
    }
}

fn read_str_opt(e: &Elem, n: &str) -> (r: Result<Option<String>, TcxError>)
    ensures
        r is Ok <==> str_opt_ok(elem_v(*e), n@),
        r matches Ok(v) ==> str_opt_from(elem_v(*e), n@, v),
        r matches Err(err) ==> scalar_shape_err(elem_v(*e), n@, err),
{
    match find_scalar(e, n)? {
        None => Ok(None),
        Some(at) => {
            let t = scalar_chars(e, &at, Ghost(n@));
            Ok(Some(string_from_chars(t)))
        },
    }
}

fn read_str_req(e: &Elem, n: &str) -> (r: Result<String, TcxError>)
    ensures
        r is Ok <==> scalar_req_ok(elem_v(*e), n@),
        r matches Ok(s) ==> str_req_from(elem_v(*e), n@, s),
        r matches Err(err) ==> str_req_err(elem_v(*e), n@, err),
{
    match read_str_opt(e, n)? {
        Some(s) => Ok(s),
        None => Err(TcxError::MissingField { tag: n.to_owned() }),
    }
}

fn read_ts_req(e: &Elem, n: &str) -> (r: Result<Timestamp, TcxError>)
    ensures
        r is Ok <==> ts_req_ok(elem_v(*e), n@),
        r matches Ok(ts) ==> ts_req_from(elem_v(*e), n@, ts),
        r matches Err(err) ==> ts_field_err(elem_v(*e), n@, err),
{
    match find_scalar(e, n)? {
        None => Err(TcxError::MissingField { tag: n.to_owned() }),
        Some(at) => {
            let t = scalar_chars(e, &at, Ghost(n@));
            let s = string_from_chars(t);
            match crate::time::normalize_timestamp(s.as_str()) {
                Some(norm) => Ok(Timestamp { text: norm }),
                None => Err(TcxError::BadTimestamp { tag: n.to_owned(), value: s }),
            }
        },
    }
}

fn read_intensity_opt(e: &Elem, n: &str) -> (r: Result<Option<Intensity>, TcxError>)
    ensures
        r is Ok <==> intensity_opt_ok(elem_v(*e), n@),
        r matches Ok(v) ==> intensity_opt_from(elem_v(*e), n@, v),
        r matches Err(err) ==> enum_field_err(elem_v(*e), n@, err),
{
    match find_scalar(e, n)? {
        None => Ok(None),
        Some(at) => {
            let t = scalar_chars(e, &at, Ghost(n@));
            if chars_eq_str(t, "Active") {
                Ok(Some(Intensity::Active))
            } else if chars_eq_str(t, "Resting") {
                Ok(Some(Intensity::Resting))
            } else {
                Err(TcxError::BadEnum { tag: n.to_owned(), value: string_from_chars(t) })
            }
        },
    }
}

fn read_trigger_opt(e: &Elem, n: &str) -> (r: Result<Option<TriggerMethod>, TcxError>)
    ensures
        r is Ok <==> trigger_opt_ok(elem_v(*e), n@),
        r matches Ok(v) ==> trigger_opt_from(elem_v(*e), n@, v),
        r matches Err(err) ==> enum_field_err(elem_v(*e), n@, err),
{
    match find_scalar(e, n)? {
        None => Ok(None),
        Some(at) => {
            let t = scalar_chars(e, &at, Ghost(n@));
            if chars_eq_str(t, "Manual") {
                Ok(Some(TriggerMethod::Manual))
            } else if chars_eq_str(t, "Distance") {
                Ok(Some(TriggerMethod::Distance))
            } else if chars_eq_str(t, "Location") {
                Ok(Some(TriggerMethod::Location))
            } else if chars_eq_str(t, "Time") {
                Ok(Some(TriggerMethod::Time))
            } else if chars_eq_str(t, "HeartRate") {
                Ok(Some(TriggerMethod::HeartRate))
            } else {
                Err(TcxError::BadEnum { tag: n.to_owned(), value: string_from_chars(t) })
            }
        },
    }
}

// ---------------------------------------------------------------------------
// Entity mappers
// ---------------------------------------------------------------------------
pub open spec fn ns3tpx_ok(e: ElemV) -> bool {
    &&& dec_opt_ok(e, ("Speed")@)
    &&& uint_opt_ok(e, ("Watts")@, u16::MAX as int)
}

pub open spec fn ns3tpx_from(e: ElemV, m: Ns3Tpx) -> bool {
    &&& dec_opt_from(e, ("Speed")@, m.speed)
    &&& (if scalar_count(e, ("Watts")@) == 1 {
        match m.watts {
            Some(x) => x == digits_val(scalar_text(e, ("Watts")@)),
            None => false,
        }
    } else {
        m.watts is None
    })
}

/// Maps a `TPX` power/speed extension element.
pub fn map_ns3tpx(e: &Elem) -> (r: Result<Ns3Tpx, TcxError>)
    ensures
        r is Ok <==> ns3tpx_ok(elem_v(*e)),
        r matches Ok(m) ==> ns3tpx_from(elem_v(*e), m),
        r matches Err(err) ==> ns3tpx_err(elem_v(*e), err),
{
    let speed = read_dec_opt(e, "Speed")?;
    let watts = read_u16_opt(e, "Watts")?;
    Ok(Ns3Tpx { speed, watts })
}

pub open spec fn extensions_ok(e: ElemV) -> bool {
    &&& child_opt_ok(e, ("TPX")@)
    &&& (named(e.kids, ("TPX")@).len() == 1 ==> ns3tpx_ok(kid0(e, ("TPX")@)))
}

pub open spec fn extensions_from(e: ElemV, m: Extensions) -> bool {
    match m.tpx {
        Some(x) => named(e.kids, ("TPX")@).len() == 1 && ns3tpx_from(kid0(e, ("TPX")@), x),
        None => named(e.kids, ("TPX")@).len() == 0,
    }
}

/// Maps an `Extensions` element. Only the `TPX` extension is recognized;
/// other extension content is dropped.
pub fn map_extensions(e: &Elem) -> (r: Result<Extensions, TcxError>)
    ensures
        r is Ok <==> extensions_ok(elem_v(*e)),
        r matches Ok(m) ==> extensions_from(elem_v(*e), m),
        r matches Err(err) ==> extensions_err(elem_v(*e), err),
{
    let tpx = match find_child(e, "TPX")? {
        None => None,
        Some(j) => Some(map_ns3tpx(&e.kids[j])?),
    };
    Ok(Extensions { tpx })
}

pub open spec fn position_ok(e: ElemV) -> bool {
    &&& dec_req_ok(e, ("LatitudeDegrees")@)
    &&& dec_req_ok(e, ("LongitudeDegrees")@)
}

pub open spec fn position_from(e: ElemV, p: Position) -> bool {
    &&& dec_req_from(e, ("LatitudeDegrees")@, p.latitude)
    &&& dec_req_from(e, ("LongitudeDegrees")@, p.longitude)
}

/// Maps a `Position` element.
pub fn map_position(e: &Elem) -> (r: Result<Position, TcxError>)
    ensures
        r is Ok <==> position_ok(elem_v(*e)),
        r matches Ok(p) ==> position_from(elem_v(*e), p),
        r matches Err(err) ==> position_err(elem_v(*e), err),
{
    let latitude = read_dec_req(e, "LatitudeDegrees")?;
    let longitude = read_dec_req(e, "LongitudeDegrees")?;
    Ok(Position { latitude, longitude })
}

pub open spec fn heart_rate_ok(e: ElemV) -> bool {
    bpm_req_ok(e, ("Value")@)
}

pub open spec fn heart_rate_from(e: ElemV, h: HeartRate) -> bool {
    h.value.milli == milli_val(scalar_text(e, ("Value")@))
}

/// Maps a `HeartRateBpm` element: its required `Value`.
pub fn map_heart_rate(e: &Elem) -> (r: Result<HeartRate, TcxError>)
    ensures
        r is Ok <==> heart_rate_ok(elem_v(*e)),
        r matches Ok(h) ==> heart_rate_from(elem_v(*e), h),
        r matches Err(err) ==> heart_rate_err(elem_v(*e), err),
{
    let value = read_bpm_req(e, "Value")?;
    Ok(HeartRate { value })
}

pub open spec fn trackpoint_ok(e: ElemV) -> bool {
    &&& ts_req_ok(e, ("Time")@)
    &&& child_opt_ok(e, ("Position")@)
    &&& (named(e.kids, ("Position")@).len() == 1 ==> position_ok(kid0(e, ("Position")@)))
    &&& dec_opt_ok(e, ("AltitudeMeters")@)
    &&& dec_opt_ok(e, ("DistanceMeters")@)
    &&& child_opt_ok(e, ("HeartRateBpm")@)
    &&& (named(e.kids, ("HeartRateBpm")@).len() == 1 ==> heart_rate_ok(kid0(e, ("HeartRateBpm")@)))
    &&& uint_opt_ok(e, ("Cadence")@, u8::MAX as int)
    &&& child_opt_ok(e, ("Extensions")@)
    &&& (named(e.kids, ("Extensions")@).len() == 1 ==> extensions_ok(kid0(e, ("Extensions")@)))
}

pub open spec fn trackpoint_from(e: ElemV, m: Trackpoint) -> bool {
    &&& ts_req_from(e, ("Time")@, m.time)
    &&& match m.position {
        Some(p) => named(e.kids, ("Position")@).len() == 1 && position_from(
            kid0(e, ("Position")@),
            p,
        ),
        None => named(e.kids, ("Position")@).len() == 0,
    }
    &&& dec_opt_from(e, ("AltitudeMeters")@, m.altitude_meters)
    &&& dec_opt_from(e, ("DistanceMeters")@, m.distance_meters)
    &&& match m.heart_rate {
        Some(h) => named(e.kids, ("HeartRateBpm")@).len() == 1 && heart_rate_from(
            kid0(e, ("HeartRateBpm")@),
            h,
        ),
        None => named(e.kids, ("HeartRateBpm")@).len() == 0,
    }
    &&& (if scalar_count(e, ("Cadence")@) == 1 {
        match m.cadence {
            Some(x) => x == digits_val(scalar_text(e, ("Cadence")@)),
            None => false,
        }
    } else {
        m.cadence is None
    })
    &&& match m.extensions {
        Some(x) => named(e.kids, ("Extensions")@).len() == 1 && extensions_from(
            kid0(e, ("Extensions")@),
            x,
        ),
        None => named(e.kids, ("Extensions")@).len() == 0,
    }
}

/// Maps a `Trackpoint` element.
pub fn map_trackpoint(e: &Elem) -> (r: Result<Trackpoint, TcxError>)
    ensures
        r is Ok <==> trackpoint_ok(elem_v(*e)),
        r matches Ok(m) ==> trackpoint_from(elem_v(*e), m),
        r matches Err(err) ==> trackpoint_err(elem_v(*e), err),
{
    let time = read_ts_req(e, "Time")?;
    let position = match find_child(e, "Position")? {
        None => None,
        Some(j) => Some(map_position(&e.kids[j])?),
    };
    let altitude_meters = read_dec_opt(e, "AltitudeMeters")?;
    let distance_meters = read_dec_opt(e, "DistanceMeters")?;
    let heart_rate = match find_child(e, "HeartRateBpm")? {
        None => None,
        Some(j) => Some(map_heart_rate(&e.kids[j])?),
    };
    let cadence = read_u8_opt(e, "Cadence")?;
    let extensions = match find_child(e, "Extensions")? {
        None => None,
        Some(j) => Some(map_extensions(&e.kids[j])?),
    };
    Ok(Trackpoint { time, position, altitude_meters, distance_meters, heart_rate, cadence, extensions })
}

pub open spec fn track_ok(e: ElemV) -> bool {
    &&& rep_ok(e, ("Trackpoint")@)
    &&& forall|i: int|
        0 <= i < named(e.kids, ("Trackpoint")@).len() ==> trackpoint_ok(
            #[trigger] named(e.kids, ("Trackpoint")@)[i],
        )
}

pub open spec fn track_from(e: ElemV, m: Track) -> bool {
    &&& m.trackpoints@.len() == named(e.kids, ("Trackpoint")@).len()
    &&& forall|i: int|
        0 <= i < named(e.kids, ("Trackpoint")@).len() ==> trackpoint_from(
            named(e.kids, ("Trackpoint")@)[i],
            #[trigger] m.trackpoints@[i],
        )
}

/// Checks that no attribute carries the name of a structured field.
fn no_attr(e: &Elem, n: &str) -> (r: Result<(), TcxError>)
    ensures
        r is Ok <==> attr_vals(elem_v(*e).attrs, n@).len() == 0,
        r matches Err(err) ==> err matches TcxError::BadValue { tag } && tag@ == n@,
{
    let ghost ev = elem_v(*e);
    proof {
        lemma_attrs_v(e.attrs@);
    }
    let mut i: usize = 0;
    while i < e.attrs.len()
        invariant
            0 <= i <= e.attrs@.len(),
            ev == elem_v(*e),
            ev.attrs.len() == e.attrs@.len(),
            forall|k: int| 0 <= k < ev.attrs.len() ==> ev.attrs[k] == attr_v(e.attrs@[k]),
            attr_vals(ev.attrs.take(i as int), n@).len() == 0,
        decreases e.attrs@.len() - i,
    {
        proof {
            lemma_attr_step(ev.attrs, i as int, n@);
        }
        if chars_eq_str(&e.attrs[i].name, n) {
            proof {
                lemma_attr_prefix_le(ev.attrs, i + 1, n@);
            }
            return Err(TcxError::BadValue { tag: n.to_owned() });
        }
        i = i + 1;
    }
    proof {
        assert(ev.attrs.take(ev.attrs.len() as int) =~= ev.attrs);
    }
    Ok(())
}

/// Maps a `Track` element: its repeated `Trackpoint` children, in
/// document order.
pub fn map_track(e: &Elem) -> (r: Result<Track, TcxError>)
    ensures
        r is Ok <==> track_ok(elem_v(*e)),
        r matches Ok(m) ==> track_from(elem_v(*e), m),
        r matches Err(err) ==> track_err(elem_v(*e), err),
{
    let ghost ev = elem_v(*e);
    let ghost n = ("Trackpoint")@;
    proof {
        lemma_elems_v(e.kids@);
    }
    no_attr(e, "Trackpoint")?;
    let mut trackpoints: Vec<Trackpoint> = Vec::new();
    let mut k: usize = 0;
    while k < e.kids.len()
        invariant
            0 <= k <= e.kids@.len(),
            ev == elem_v(*e),
            n == ("Trackpoint")@,
            ev.kids.len() == e.kids@.len(),
            forall|j: int| 0 <= j < ev.kids.len() ==> ev.kids[j] == elem_v(e.kids@[j]),
            attr_vals(ev.attrs, n).len() == 0,
            trackpoints@.len() == named(ev.kids.take(k as int), n).len(),
            forall|i: int|
                0 <= i < trackpoints@.len() ==> trackpoint_ok(
                    #[trigger] named(ev.kids.take(k as int), n)[i],
                ) && trackpoint_from(named(ev.kids.take(k as int), n)[i], trackpoints@[i]),
        decreases e.kids@.len() - k,
    {
        proof {
            lemma_named_step(ev.kids, k as int, n);
        }
        if chars_eq_str(&e.kids[k].name, "Trackpoint") {
            let tp = match map_trackpoint(&e.kids[k]) {
                Ok(tp) => tp,
                Err(err) => {
                    proof {
                        lemma_named_prefix_le(ev.kids, k as int, n);
                        lemma_named_prefix_le(ev.kids, k + 1, n);
                        let p = named(ev.kids.take(k as int), n);
                        assert(named(ev.kids.take(k + 1), n)[p.len() as int] == ev.kids[k as int]);
                        assert(named(ev.kids, n)[p.len() as int] == ev.kids[k as int]);
                        assert forall|j: int| 0 <= j < p.len() implies #[trigger] trackpoint_ok(
                            named(ev.kids, n)[j],
                        ) by {
                            assert(named(ev.kids, n)[j] == p[j]);
                        }
                        assert(!trackpoint_ok(named(ev.kids, n)[p.len() as int]));
                    }
                    return Err(err);
                },
            };
            trackpoints.push(tp);
        }
        k = k + 1;
    }
    proof {
        assert(ev.kids.take(ev.kids.len() as int) =~= ev.kids);
    }
    Ok(Track { trackpoints })
}

pub open spec fn activity_lap_ok(e: ElemV) -> bool {
    &&& dec_req_ok(e, ("TotalTimeSeconds")@)
    &&& dec_req_ok(e, ("DistanceMeters")@)
    &&& dec_opt_ok(e, ("MaximumSpeed")@)
    &&& uint_req_ok(e, ("Calories")@, u16::MAX as int)
    &&& bpm_opt_ok(e, ("AverageHeartRate")@)
    &&& bpm_opt_ok(e, ("MaximumHeartRate")@)
    &&& intensity_opt_ok(e, ("Intensity")@)
    &&& uint_opt_ok(e, ("Cadence")@, u8::MAX as int)
    &&& trigger_opt_ok(e, ("TriggerMethod")@)
    &&& rep_ok(e, ("Track")@)
    &&& forall|i: int|
        0 <= i < named(e.kids, ("Track")@).len() ==> track_ok(#[trigger] named(e.kids, ("Track")@)[i])
    &&& str_opt_ok(e, ("Notes")@)
    &&& child_opt_ok(e, ("Extensions")@)
    &&& (named(e.kids, ("Extensions")@).len() == 1 ==> extensions_ok(kid0(e, ("Extensions")@)))
}

pub open spec fn activity_lap_from(e: ElemV, m: ActivityLap) -> bool {
    &&& dec_req_from(e, ("TotalTimeSeconds")@, m.total_time_seconds)
    &&& dec_req_from(e, ("DistanceMeters")@, m.distance_meters)
    &&& dec_opt_from(e, ("MaximumSpeed")@, m.maximum_speed)
    &&& m.calories == digits_val(scalar_text(e, ("Calories")@))
    &&& bpm_opt_from(e, ("AverageHeartRate")@, m.average_heart_rate)
    &&& bpm_opt_from(e, ("MaximumHeartRate")@, m.maximum_heart_rate)
    &&& intensity_opt_from(e, ("Intensity")@, m.intensity)
    &&& (if scalar_count(e, ("Cadence")@) == 1 {
        match m.cadence {
            Some(x) => x == digits_val(scalar_text(e, ("Cadence")@)),
            None => false,
        }
    } else {
        m.cadence is None
    })
    &&& trigger_opt_from(e, ("TriggerMethod")@, m.trigger_method)
    &&& m.tracks@.len() == named(e.kids, ("Track")@).len()
    &&& forall|i: int|
        0 <= i < named(e.kids, ("Track")@).len() ==> track_from(
            named(e.kids, ("Track")@)[i],
            #[trigger] m.tracks@[i],
        )
    &&& str_opt_from(e, ("Notes")@, m.notes)
    &&& match m.extensions {
        Some(x) => named(e.kids, ("Extensions")@).len() == 1 && extensions_from(
            kid0(e, ("Extensions")@),
            x,
        ),
        None => named(e.kids, ("Extensions")@).len() == 0,
    }
}

/// Maps a `Lap` element of an activity.
pub fn map_activity_lap(e: &Elem) -> (r: Result<ActivityLap, TcxError>)
    ensures
        r is Ok <==> activity_lap_ok(elem_v(*e)),
        r matches Ok(m) ==> activity_lap_from(elem_v(*e), m),
        r matches Err(err) ==> activity_lap_err(elem_v(*e), err),
{
    let ghost ev = elem_v(*e);
    let ghost n = ("Track")@;
    proof {
        lemma_elems_v(e.kids@);
    }
    let total_time_seconds = read_dec_req(e, "TotalTimeSeconds")?;
    let distance_meters = read_dec_req(e, "DistanceMeters")?;
    let maximum_speed = read_dec_opt(e, "MaximumSpeed")?;
    let calories = read_u16_req(e, "Calories")?;
    let average_heart_rate = read_bpm_opt(e, "AverageHeartRate")?;
    let maximum_heart_rate = read_bpm_opt(e, "MaximumHeartRate")?;
    let intensity = read_intensity_opt(e, "Intensity")?;
    let cadence = read_u8_opt(e, "Cadence")?;
    let trigger_method = read_trigger_opt(e, "TriggerMethod")?;
    no_attr(e, "Track")?;
    let mut tracks: Vec<Track> = Vec::new();
    let mut k: usize = 0;
    while k < e.kids.len()
        invariant
            0 <= k <= e.kids@.len(),
            ev == elem_v(*e),
            n == ("Track")@,
            ev.kids.len() == e.kids@.len(),
            forall|j: int| 0 <= j < ev.kids.len() ==> ev.kids[j] == elem_v(e.kids@[j]),
            attr_vals(ev.attrs, n).len() == 0,
            dec_req_ok(ev, ("TotalTimeSeconds")@),
            dec_req_ok(ev, ("DistanceMeters")@),
            dec_opt_ok(ev, ("MaximumSpeed")@),
            uint_req_ok(ev, ("Calories")@, u16::MAX as int),
            bpm_opt_ok(ev, ("AverageHeartRate")@),
            bpm_opt_ok(ev, ("MaximumHeartRate")@),
            intensity_opt_ok(ev, ("Intensity")@),
            uint_opt_ok(ev, ("Cadence")@, u8::MAX as int),
            trigger_opt_ok(ev, ("TriggerMethod")@),
            tracks@.len() == named(ev.kids.take(k as int), n).len(),
            forall|i: int|
                0 <= i < tracks@.len() ==> track_ok(#[trigger] named(ev.kids.take(k as int), n)[i])
                    && track_from(named(ev.kids.take(k as int), n)[i], tracks@[i]),
        decreases e.kids@.len() - k,
    {
        proof {
            lemma_named_step(ev.kids, k as int, n);
        }
        if chars_eq_str(&e.kids[k].name, "Track") {
            let tr = match map_track(&e.kids[k]) {
                Ok(tr) => tr,
                Err(err) => {
                    proof {
                        lemma_named_prefix_le(ev.kids, k as int, n);
                        lemma_named_prefix_le(ev.kids, k + 1, n);
                        let p = named(ev.kids.take(k as int), n);
                        assert(named(ev.kids.take(k + 1), n)[p.len() as int] == ev.kids[k as int]);
                        assert(named(ev.kids, n)[p.len() as int] == ev.kids[k as int]);
                        assert forall|j: int| 0 <= j < p.len() implies #[trigger] track_ok(
                            named(ev.kids, n)[j],
                        ) by {
                            assert(named(ev.kids, n)[j] == p[j]);
                        }
                        assert(!track_ok(named(ev.kids, n)[p.len() as int]));
                    }
                    return Err(err);
                },
            };
            tracks.push(tr);
        }
        k = k + 1;
    }
    proof {
        assert(ev.kids.take(ev.kids.len() as int) =~= ev.kids);
    }
    let notes = read_str_opt(e, "Notes")?;
    let extensions = match find_child(e, "Extensions")? {
        None => None,
        Some(j) => Some(map_extensions(&e.kids[j])?),
    };
    Ok(ActivityLap {
        total_time_seconds,
        distance_meters,
        maximum_speed,
        calories,
        average_heart_rate,
        maximum_heart_rate,
        intensity,
        cadence,
        trigger_method,
        tracks,
        notes,
        extensions,
    })
}

pub open spec fn activity_ok(e: ElemV) -> bool {
    &&& scalar_req_ok(e, ("Sport")@)
    &&& scalar_req_ok(e, ("Id")@)
    &&& rep_ok(e, ("Lap")@)
    &&& forall|i: int|
        0 <= i < named(e.kids, ("Lap")@).len() ==> activity_lap_ok(
            #[trigger] named(e.kids, ("Lap")@)[i],
        )
    &&& str_opt_ok(e, ("Notes")@)
    &&& child_opt_ok(e, ("Extensions")@)
    &&& (named(e.kids, ("Extensions")@).len() == 1 ==> extensions_ok(kid0(e, ("Extensions")@)))
}

pub open spec fn activity_from(e: ElemV, m: Activity) -> bool {
    &&& str_req_from(e, ("Sport")@, m.sport)
    &&& str_req_from(e, ("Id")@, m.id)
    &&& m.laps@.len() == named(e.kids, ("Lap")@).len()
    &&& forall|i: int|
        0 <= i < named(e.kids, ("Lap")@).len() ==> activity_lap_from(
            named(e.kids, ("Lap")@)[i],
            #[trigger] m.laps@[i],
        )
    &&& str_opt_from(e, ("Notes")@, m.notes)
    &&& match m.extensions {
        Some(x) => named(e.kids, ("Extensions")@).len() == 1 && extensions_from(
            kid0(e, ("Extensions")@),
            x,
        ),
        None => named(e.kids, ("Extensions")@).len() == 0,
    }
}

/// Maps an `Activity` element: its `Sport` (usually an attribute), `Id`,
/// and repeated `Lap` children.
pub fn map_activity(e: &Elem) -> (r: Result<Activity, TcxError>)
    ensures
        r is Ok <==> activity_ok(elem_v(*e)),
        r matches Ok(m) ==> activity_from(elem_v(*e), m),
        r matches Err(err) ==> activity_err(elem_v(*e), err),
{
    let ghost ev = elem_v(*e);
    let ghost n = ("Lap")@;
    proof {
        lemma_elems_v(e.kids@);
    }
    let sport = read_str_req(e, "Sport")?;
    let id = read_str_req(e, "Id")?;
    no_attr(e, "Lap")?;
    let mut laps: Vec<ActivityLap> = Vec::new();
    let mut k: usize = 0;
    while k < e.kids.len()
        invariant
            0 <= k <= e.kids@.len(),
            ev == elem_v(*e),
            n == ("Lap")@,
            ev.kids.len() == e.kids@.len(),
            forall|j: int| 0 <= j < ev.kids.len() ==> ev.kids[j] == elem_v(e.kids@[j]),
            attr_vals(ev.attrs, n).len() == 0,
            scalar_req_ok(ev, ("Sport")@),
            scalar_req_ok(ev, ("Id")@),
            laps@.len() == named(ev.kids.take(k as int), n).len(),
            forall|i: int|
                0 <= i < laps@.len() ==> activity_lap_ok(
                    #[trigger] named(ev.kids.take(k as int), n)[i],
                ) && activity_lap_from(named(ev.kids.take(k as int), n)[i], laps@[i]),
        decreases e.kids@.len() - k,
    {
        proof {
            lemma_named_step(ev.kids, k as int, n);
        }
        if chars_eq_str(&e.kids[k].name, "Lap") {
            let lap = match map_activity_lap(&e.kids[k]) {
                Ok(lap) => lap,
                Err(err) => {
                    proof {
                        lemma_named_prefix_le(ev.kids, k as int, n);
                        lemma_named_prefix_le(ev.kids, k + 1, n);
                        let p = named(ev.kids.take(k as int), n);
                        assert(named(ev.kids.take(k + 1), n)[p.len() as int] == ev.kids[k as int]);
                        assert(named(ev.kids, n)[p.len() as int] == ev.kids[k as int]);
                        assert forall|j: int| 0 <= j < p.len() implies #[trigger] activity_lap_ok(
                            named(ev.kids, n)[j],
                        ) by {
                            assert(named(ev.kids, n)[j] == p[j]);
                        }
                        assert(!activity_lap_ok(named(ev.kids, n)[p.len() as int]));
                    }
                    return Err(err);
                },
            };
            laps.push(lap);
        }
        k = k + 1;
    }
    proof {
        assert(ev.kids.take(ev.kids.len() as int) =~= ev.kids);
    }
    let notes = read_str_opt(e, "Notes")?;
    let extensions = match find_child(e, "Extensions")? {
        None => None,
        Some(j) => Some(map_extensions(&e.kids[j])?),
    };
    Ok(Activity { sport, id, laps, notes, extensions })
}

pub open spec fn activities_ok(e: ElemV) -> bool {
    &&& rep_ok(e, ("Activity")@)
    &&& forall|i: int|
        0 <= i < named(e.kids, ("Activity")@).len() ==> activity_ok(
            #[trigger] named(e.kids, ("Activity")@)[i],
        )
}

pub open spec fn activities_from(e: ElemV, m: Activities) -> bool {
    &&& m.activities@.len() == named(e.kids, ("Activity")@).len()
    &&& forall|i: int|
        0 <= i < named(e.kids, ("Activity")@).len() ==> activity_from(
            named(e.kids, ("Activity")@)[i],
            #[trigger] m.activities@[i],
        )
}

/// Maps an `Activities` element: its repeated `Activity` children, in
/// document order.
pub fn map_activities(e: &Elem) -> (r: Result<Activities, TcxError>)
    ensures
        r is Ok <==> activities_ok(elem_v(*e)),
        r matches Ok(m) ==> activities_from(elem_v(*e), m),
        r matches Err(err) ==> activities_err(elem_v(*e), err),
{
    let ghost ev = elem_v(*e);
    let ghost n = ("Activity")@;
    proof {
        lemma_elems_v(e.kids@);
    }
    no_attr(e, "Activity")?;
    let mut activities: Vec<Activity> = Vec::new();
    let mut k: usize = 0;
    while k < e.kids.len()
        invariant
            0 <= k <= e.kids@.len(),
            ev == elem_v(*e),
            n == ("Activity")@,
            ev.kids.len() == e.kids@.len(),
            forall|j: int| 0 <= j < ev.kids.len() ==> ev.kids[j] == elem_v(e.kids@[j]),
            attr_vals(ev.attrs, n).len() == 0,
            activities@.len() == named(ev.kids.take(k as int), n).len(),
            forall|i: int|
                0 <= i < activities@.len() ==> activity_ok(
                    #[trigger] named(ev.kids.take(k as int), n)[i],
                ) && activity_from(named(ev.kids.take(k as int), n)[i], activities@[i]),
        decreases e.kids@.len() - k,
    {
        proof {
            lemma_named_step(ev.kids, k as int, n);
        }
        if chars_eq_str(&e.kids[k].name, "Activity") {
            let act = match map_activity(&e.kids[k]) {
                Ok(act) => act,
                Err(err) => {
                    proof {
                        lemma_named_prefix_le(ev.kids, k as int, n);
                        lemma_named_prefix_le(ev.kids, k + 1, n);
                        let p = named(ev.kids.take(k as int), n);
                        assert(named(ev.kids.take(k + 1), n)[p.len() as int] == ev.kids[k as int]);
                        assert(named(ev.kids, n)[p.len() as int] == ev.kids[k as int]);
                        assert forall|j: int| 0 <= j < p.len() implies #[trigger] activity_ok(
                            named(ev.kids, n)[j],
                        ) by {
                            assert(named(ev.kids, n)[j] == p[j]);
                        }
                        assert(!activity_ok(named(ev.kids, n)[p.len() as int]));
                    }
                    return Err(err);
                },
            };
            activities.push(act);
        }
        k = k + 1;
    }
    proof {
        assert(ev.kids.take(ev.kids.len() as int) =~= ev.kids);
    }
    Ok(Activities { activities })
}

/// A presence-only field: an empty placeholder entity whose content is
/// ignored.
pub open spec fn presence_ok(e: ElemV, n: Seq<char>) -> bool {
    child_opt_ok(e, n)
}

pub open spec fn course_folder_ok(e: ElemV) -> bool
    decreases e,
    via course_folder_ok_dec
{
    &&& child_opt_ok(e, ("Folder")@)
    &&& (named(e.kids, ("Folder")@).len() == 1 ==> course_folder_ok(kid0(e, ("Folder")@)))
    &&& str_opt_ok(e, ("Notes")@)
    &&& child_opt_ok(e, ("CourseNameRef")@)
    &&& child_opt_ok(e, ("Extensions")@)
    &&& (named(e.kids, ("Extensions")@).len() == 1 ==> extensions_ok(kid0(e, ("Extensions")@)))
}

#[via_fn]
proof fn course_folder_ok_dec(e: ElemV) {
    lemma_course_folder_dec(e);
}

/// The single `Folder` child of a course folder stands below it in the
/// element tree.
proof fn lemma_course_folder_dec(e: ElemV)
    ensures
        named(e.kids, ("Folder")@).len() > 0 ==> decreases_to!(e => kid0(e, ("Folder")@)),
{
    let f = ("Folder")@;
    if named(e.kids, f).len() > 0 {
        lemma_named_sub(e.kids, f, 0);
        let j = choose|j: int| 0 <= j < e.kids.len() && named(e.kids, f)[0] == e.kids[j];
        assert(decreases_to!(e => e.kids));
        vstd::seq::axiom_seq_index_decreases(e.kids, j);
        assert(decreases_to!(e.kids => e.kids[j]));
    }
}

pub open spec fn course_folder_from(e: ElemV, m: CourseFolder) -> bool
    decreases e,
    via course_folder_from_dec
{
    &&& match *m.folder {
        Some(inner) => named(e.kids, ("Folder")@).len() == 1 && course_folder_from(
            kid0(e, ("Folder")@),
            inner,
        ),
        None => named(e.kids, ("Folder")@).len() == 0,
    }
    &&& str_opt_from(e, ("Notes")@, m.notes)
    &&& match m.course_name_ref {
        Some(_) => named(e.kids, ("CourseNameRef")@).len() == 1,
        None => named(e.kids, ("CourseNameRef")@).len() == 0,
    }
    &&& match m.extensions {
        Some(x) => named(e.kids, ("Extensions")@).len() == 1 && extensions_from(
            kid0(e, ("Extensions")@),
            x,
        ),
        None => named(e.kids, ("Extensions")@).len() == 0,
    }
}

#[via_fn]
proof fn course_folder_from_dec(e: ElemV, m: CourseFolder) {
    lemma_course_folder_dec(e);
}

/// Maps a `CourseFolder` (or nested `Folder`) element. Folders nest
/// through at most one `Folder` child per level, forming a chain.
pub fn map_course_folder(e: &Elem) -> (r: Result<CourseFolder, TcxError>)
    ensures
        r is Ok <==> course_folder_ok(elem_v(*e)),
        r matches Ok(m) ==> course_folder_from(elem_v(*e), m),
        r matches Err(err) ==> course_folder_err(elem_v(*e), err),
    decreases *e,
{
    let ghost ev = elem_v(*e);
    proof {
        lemma_elems_v(e.kids@);
        lemma_attrs_v(e.attrs@);
    }
    let folder = match find_child(e, "Folder")? {
        None => None,
        Some(j) => {
            proof {
                broadcast use vstd::std_specs::vec::group_vec_axioms;

                assert(decreases_to!(*e => e.kids));
                assert(decreases_to!(e.kids => e.kids@));
                vstd::seq::axiom_seq_index_decreases(e.kids@, j as int);
            }
            Some(map_course_folder(&e.kids[j])?)
        },
    };
    let notes = read_str_opt(e, "Notes")?;
    let course_name_ref = match find_child(e, "CourseNameRef")? {
        None => None,
        Some(_) => Some(NameKeyReference {}),
    };
    let extensions = match find_child(e, "Extensions")? {
        None => None,
        Some(j) => Some(map_extensions(&e.kids[j])?),
    };
    Ok(CourseFolder { folder: Box::new(folder), notes, course_name_ref, extensions })
}

pub open spec fn courses_ok(e: ElemV) -> bool {
    &&& child_opt_ok(e, ("CourseFolder")@)
    &&& (named(e.kids, ("CourseFolder")@).len() == 1 ==> course_folder_ok(
        kid0(e, ("CourseFolder")@),
    ))
    &&& child_opt_ok(e, ("Extensions")@)
    &&& (named(e.kids, ("Extensions")@).len() == 1 ==> extensions_ok(kid0(e, ("Extensions")@)))
}

pub open spec fn courses_from(e: ElemV, m: Courses) -> bool {
    &&& match m.folder {
        Some(f) => named(e.kids, ("CourseFolder")@).len() == 1 && course_folder_from(
            kid0(e, ("CourseFolder")@),
            f,
        ),
        None => named(e.kids, ("CourseFolder")@).len() == 0,
    }
    &&& match m.extensions {
        Some(x) => named(e.kids, ("Extensions")@).len() == 1 && extensions_from(
            kid0(e, ("Extensions")@),
            x,
        ),
        None => named(e.kids, ("Extensions")@).len() == 0,
    }
}

/// Maps a `Courses` element.
pub fn map_courses(e: &Elem) -> (r: Result<Courses, TcxError>)
    ensures
        r is Ok <==> courses_ok(elem_v(*e)),
        r matches Ok(m) ==> courses_from(elem_v(*e), m),
        r matches Err(err) ==> courses_err(elem_v(*e), err),
{
    let folder = match find_child(e, "CourseFolder")? {
        None => None,
        Some(j) => Some(map_course_folder(&e.kids[j])?),
    };
    let extensions = match find_child(e, "Extensions")? {
        None => None,
        Some(j) => Some(map_extensions(&e.kids[j])?),
    };
    Ok(Courses { folder, extensions })
}

pub open spec fn folders_ok(e: ElemV) -> bool {
    &&& presence_ok(e, ("History")@)
    &&& presence_ok(e, ("Workouts")@)
    &&& child_opt_ok(e, ("Courses")@)
    &&& (named(e.kids, ("Courses")@).len() == 1 ==> courses_ok(kid0(e, ("Courses")@)))
}

pub open spec fn folders_from(e: ElemV, m: Folders) -> bool {
    &&& match m.history {
        Some(_) => named(e.kids, ("History")@).len() == 1,
        None => named(e.kids, ("History")@).len() == 0,
    }
    &&& match m.workouts {
        Some(_) => named(e.kids, ("Workouts")@).len() == 1,
        None => named(e.kids, ("Workouts")@).len() == 0,
    }
    &&& match m.courses {
        Some(c) => named(e.kids, ("Courses")@).len() == 1 && courses_from(
            kid0(e, ("Courses")@),
            c,
        ),
        None => named(e.kids, ("Courses")@).len() == 0,
    }
}

/// Maps a `Folders` element: `History` and `Workouts` carry presence
/// only.
pub fn map_folders(e: &Elem) -> (r: Result<Folders, TcxError>)
    ensures
        r is Ok <==> folders_ok(elem_v(*e)),
        r matches Ok(m) ==> folders_from(elem_v(*e), m),
        r matches Err(err) ==> folders_err(elem_v(*e), err),
{
    let history = match find_child(e, "History")? {
        None => None,
        Some(_) => Some(History {}),
    };
    let workouts = match find_child(e, "Workouts")? {
        None => None,
        Some(_) => Some(Workouts {}),
    };
    let courses = match find_child(e, "Courses")? {
        None => None,
        Some(j) => Some(map_courses(&e.kids[j])?),
    };
    Ok(Folders { history, workouts, courses })
}

pub open spec fn tcdb_ok(e: ElemV) -> bool {
    &&& child_opt_ok(e, ("Activities")@)
    &&& (named(e.kids, ("Activities")@).len() == 1 ==> activities_ok(kid0(e, ("Activities")@)))
    &&& child_opt_ok(e, ("Folders")@)
    &&& (named(e.kids, ("Folders")@).len() == 1 ==> folders_ok(kid0(e, ("Folders")@)))
    &&& child_opt_ok(e, ("Courses")@)
    &&& (named(e.kids, ("Courses")@).len() == 1 ==> courses_ok(kid0(e, ("Courses")@)))
    &&& child_opt_ok(e, ("Extensions")@)
    &&& (named(e.kids, ("Extensions")@).len() == 1 ==> extensions_ok(kid0(e, ("Extensions")@)))
}

pub open spec fn tcdb_from(e: ElemV, m: TrainingCenterDatabase) -> bool {
    &&& match m.activities {
        Some(a) => named(e.kids, ("Activities")@).len() == 1 && activities_from(
            kid0(e, ("Activities")@),
            a,
        ),
        None => named(e.kids, ("Activities")@).len() == 0,
    }
    &&& match m.folders {
        Some(f) => named(e.kids, ("Folders")@).len() == 1 && folders_from(
            kid0(e, ("Folders")@),
            f,
        ),
        None => named(e.kids, ("Folders")@).len() == 0,
    }
    &&& match m.courses {
        Some(c) => named(e.kids, ("Courses")@).len() == 1 && courses_from(
            kid0(e, ("Courses")@),
            c,
        ),
        None => named(e.kids, ("Courses")@).len() == 0,
    }
    &&& match m.extensions {
        Some(x) => named(e.kids, ("Extensions")@).len() == 1 && extensions_from(
            kid0(e, ("Extensions")@),
            x,
        ),
        None => named(e.kids, ("Extensions")@).len() == 0,
    }
}

/// Maps the root element of a TCX document. The root's own name is not
/// checked; its `Activities`, `Folders`, `Courses` and `Extensions`
/// children are mapped, and any other content is ignored.
pub fn map_tcdb(e: &Elem) -> (r: Result<TrainingCenterDatabase, TcxError>)
    ensures
        r is Ok <==> tcdb_ok(elem_v(*e)),
        r matches Ok(m) ==> tcdb_from(elem_v(*e), m),
        r matches Err(err) ==> tcdb_err(elem_v(*e), err),
{
    let activities = match find_child(e, "Activities")? {
        None => None,
        Some(j) => Some(map_activities(&e.kids[j])?),
    };
    let folders = match find_child(e, "Folders")? {
        None => None,
        Some(j) => Some(map_folders(&e.kids[j])?),
    };
    let courses = match find_child(e, "Courses")? {
        None => None,
        Some(j) => Some(map_courses(&e.kids[j])?),
    };
    let extensions = match find_child(e, "Extensions")? {
        None => None,
        Some(j) => Some(map_extensions(&e.kids[j])?),
    };
    Ok(TrainingCenterDatabase { activities, folders, courses, extensions })
}


// ---------------------------------------------------------------------------
// Which error a faulty document yields: for each entity, the error of the
// first faulty field in mapping order, descending into the child entity
// where a structured field is faulty inside.
// ---------------------------------------------------------------------------
pub open spec fn ns3tpx_err(e: ElemV, err: TcxError) -> bool {
    if !dec_opt_ok(e, ("Speed")@) {
        val_field_err(e, ("Speed")@, err)
    } else if !uint_opt_ok(e, ("Watts")@, u16::MAX as int) {
        val_field_err(e, ("Watts")@, err)
    } else {
        false
    }
}

pub open spec fn extensions_err(e: ElemV, err: TcxError) -> bool {
    if !child_opt_ok(e, ("TPX")@) {
        child_shape_err(e, ("TPX")@, err)
    } else if named(e.kids, ("TPX")@).len() == 1 && !ns3tpx_ok(kid0(e, ("TPX")@)) {
        ns3tpx_err(kid0(e, ("TPX")@), err)
    } else {
        false
    }
}

pub open spec fn position_err(e: ElemV, err: TcxError) -> bool {
    if !dec_req_ok(e, ("LatitudeDegrees")@) {
        req_field_err(e, ("LatitudeDegrees")@, err)
    } else if !dec_req_ok(e, ("LongitudeDegrees")@) {
        req_field_err(e, ("LongitudeDegrees")@, err)
    } else {
        false
    }
}

pub open spec fn heart_rate_err(e: ElemV, err: TcxError) -> bool {
    if !bpm_req_ok(e, ("Value")@) {
        req_field_err(e, ("Value")@, err)
    } else {
        false
    }
}

pub open spec fn trackpoint_err(e: ElemV, err: TcxError) -> bool {
    if !ts_req_ok(e, ("Time")@) {
        ts_field_err(e, ("Time")@, err)
    } else if !child_opt_ok(e, ("Position")@) {
        child_shape_err(e, ("Position")@, err)
    } else if named(e.kids, ("Position")@).len() == 1 && !position_ok(kid0(e, ("Position")@)) {
        position_err(kid0(e, ("Position")@), err)
    } else if !dec_opt_ok(e, ("AltitudeMeters")@) {
        val_field_err(e, ("AltitudeMeters")@, err)
    } else if !dec_opt_ok(e, ("DistanceMeters")@) {
        val_field_err(e, ("DistanceMeters")@, err)
    } else if !child_opt_ok(e, ("HeartRateBpm")@) {
        child_shape_err(e, ("HeartRateBpm")@, err)
    } else if named(e.kids, ("HeartRateBpm")@).len() == 1 && !heart_rate_ok(
        kid0(e, ("HeartRateBpm")@),
    ) {
        heart_rate_err(kid0(e, ("HeartRateBpm")@), err)
    } else if !uint_opt_ok(e, ("Cadence")@, u8::MAX as int) {
        val_field_err(e, ("Cadence")@, err)
    } else if !child_opt_ok(e, ("Extensions")@) {
        child_shape_err(e, ("Extensions")@, err)
    } else if named(e.kids, ("Extensions")@).len() == 1 && !extensions_ok(kid0(e, ("Extensions")@)) {
        extensions_err(kid0(e, ("Extensions")@), err)
    } else {
        false
    }
}

pub open spec fn track_err(e: ElemV, err: TcxError) -> bool {
    let tps = named(e.kids, ("Trackpoint")@);
    if !rep_ok(e, ("Trackpoint")@) {
        err matches TcxError::BadValue { tag } && tag@ == ("Trackpoint")@
    } else {
        exists|i: int|
            0 <= i < tps.len() && !(#[trigger] trackpoint_ok(tps[i])) && (forall|j: int|
                0 <= j < i ==> #[trigger] trackpoint_ok(tps[j])) && trackpoint_err(tps[i], err)
    }
}

pub open spec fn activity_lap_err(e: ElemV, err: TcxError) -> bool {
    if !dec_req_ok(e, ("TotalTimeSeconds")@) {
        req_field_err(e, ("TotalTimeSeconds")@, err)
    } else if !dec_req_ok(e, ("DistanceMeters")@) {
        req_field_err(e, ("DistanceMeters")@, err)
    } else if !dec_opt_ok(e, ("MaximumSpeed")@) {
        val_field_err(e, ("MaximumSpeed")@, err)
    } else if !uint_req_ok(e, ("Calories")@, u16::MAX as int) {
        req_field_err(e, ("Calories")@, err)
    } else if !bpm_opt_ok(e, ("AverageHeartRate")@) {
        val_field_err(e, ("AverageHeartRate")@, err)
    } else if !bpm_opt_ok(e, ("MaximumHeartRate")@) {
        val_field_err(e, ("MaximumHeartRate")@, err)
    } else if !intensity_opt_ok(e, ("Intensity")@) {
        enum_field_err(e, ("Intensity")@, err)
    } else if !uint_opt_ok(e, ("Cadence")@, u8::MAX as int) {
        val_field_err(e, ("Cadence")@, err)
    } else if !trigger_opt_ok(e, ("TriggerMethod")@) {
        enum_field_err(e, ("TriggerMethod")@, err)
    } else if !rep_ok(e, ("Track")@) {
        err matches TcxError::BadValue { tag } && tag@ == ("Track")@
    } else if exists|i: int|
        0 <= i < named(e.kids, ("Track")@).len() && !(#[trigger] track_ok(
            named(e.kids, ("Track")@)[i],
        )) {
        exists|i: int|
            0 <= i < named(e.kids, ("Track")@).len() && !(#[trigger] track_ok(
                named(e.kids, ("Track")@)[i],
            )) && (forall|j: int|
                0 <= j < i ==> #[trigger] track_ok(named(e.kids, ("Track")@)[j])) && track_err(
                named(e.kids, ("Track")@)[i],
                err,
            )
    } else if !str_opt_ok(e, ("Notes")@) {
        scalar_shape_err(e, ("Notes")@, err)
    } else if !child_opt_ok(e, ("Extensions")@) {
        child_shape_err(e, ("Extensions")@, err)
    } else if named(e.kids, ("Extensions")@).len() == 1 && !extensions_ok(kid0(e, ("Extensions")@)) {
        extensions_err(kid0(e, ("Extensions")@), err)
    } else {
        false
    }
}

pub open spec fn activity_err(e: ElemV, err: TcxError) -> bool {
    if !scalar_req_ok(e, ("Sport")@) {
        str_req_err(e, ("Sport")@, err)
    } else if !scalar_req_ok(e, ("Id")@) {
        str_req_err(e, ("Id")@, err)
    } else if !rep_ok(e, ("Lap")@) {
        err matches TcxError::BadValue { tag } && tag@ == ("Lap")@
    } else if exists|i: int|
        0 <= i < named(e.kids, ("Lap")@).len() && !(#[trigger] activity_lap_ok(
            named(e.kids, ("Lap")@)[i],
        )) {
        exists|i: int|
            0 <= i < named(e.kids, ("Lap")@).len() && !(#[trigger] activity_lap_ok(
                named(e.kids, ("Lap")@)[i],
            )) && (forall|j: int|
                0 <= j < i ==> #[trigger] activity_lap_ok(
                    named(e.kids, ("Lap")@)[j],
                )) && activity_lap_err(named(e.kids, ("Lap")@)[i], err)
    } else if !str_opt_ok(e, ("Notes")@) {
        scalar_shape_err(e, ("Notes")@, err)
    } else if !child_opt_ok(e, ("Extensions")@) {
        child_shape_err(e, ("Extensions")@, err)
    } else if named(e.kids, ("Extensions")@).len() == 1 && !extensions_ok(kid0(e, ("Extensions")@)) {
        extensions_err(kid0(e, ("Extensions")@), err)
    } else {
        false
    }
}

pub open spec fn activities_err(e: ElemV, err: TcxError) -> bool {
    if !rep_ok(e, ("Activity")@) {
        err matches TcxError::BadValue { tag } && tag@ == ("Activity")@
    } else {
        exists|i: int|
            0 <= i < named(e.kids, ("Activity")@).len() && !(#[trigger] activity_ok(
                named(e.kids, ("Activity")@)[i],
            )) && (forall|j: int|
                0 <= j < i ==> #[trigger] activity_ok(
                    named(e.kids, ("Activity")@)[j],
                )) && activity_err(named(e.kids, ("Activity")@)[i], err)
    }
}

pub open spec fn course_folder_err(e: ElemV, err: TcxError) -> bool
    decreases e,
    via course_folder_err_dec
{
    if !child_opt_ok(e, ("Folder")@) {
        child_shape_err(e, ("Folder")@, err)
    } else if named(e.kids, ("Folder")@).len() == 1 && !course_folder_ok(kid0(e, ("Folder")@)) {
        course_folder_err(kid0(e, ("Folder")@), err)
    } else if !str_opt_ok(e, ("Notes")@) {
        scalar_shape_err(e, ("Notes")@, err)
    } else if !child_opt_ok(e, ("CourseNameRef")@) {
        child_shape_err(e, ("CourseNameRef")@, err)
    } else if !child_opt_ok(e, ("Extensions")@) {
        child_shape_err(e, ("Extensions")@, err)
    } else if named(e.kids, ("Extensions")@).len() == 1 && !extensions_ok(kid0(e, ("Extensions")@)) {
        extensions_err(kid0(e, ("Extensions")@), err)
    } else {
        false
    }
}

#[via_fn]
proof fn course_folder_err_dec(e: ElemV, err: TcxError) {
    lemma_course_folder_dec(e);
}

pub open spec fn courses_err(e: ElemV, err: TcxError) -> bool {
    if !child_opt_ok(e, ("CourseFolder")@) {
        child_shape_err(e, ("CourseFolder")@, err)
    } else if named(e.kids, ("CourseFolder")@).len() == 1 && !course_folder_ok(
        kid0(e, ("CourseFolder")@),
    ) {
        course_folder_err(kid0(e, ("CourseFolder")@), err)
    } else if !child_opt_ok(e, ("Extensions")@) {
        child_shape_err(e, ("Extensions")@, err)
    } else if named(e.kids, ("Extensions")@).len() == 1 && !extensions_ok(kid0(e, ("Extensions")@)) {
        extensions_err(kid0(e, ("Extensions")@), err)
    } else {
        false
    }
}

pub open spec fn folders_err(e: ElemV, err: TcxError) -> bool {
    if !child_opt_ok(e, ("History")@) {
        child_shape_err(e, ("History")@, err)
    } else if !child_opt_ok(e, ("Workouts")@) {
        child_shape_err(e, ("Workouts")@, err)
    } else if !child_opt_ok(e, ("Courses")@) {
        child_shape_err(e, ("Courses")@, err)
    } else if named(e.kids, ("Courses")@).len() == 1 && !courses_ok(kid0(e, ("Courses")@)) {
        courses_err(kid0(e, ("Courses")@), err)
    } else {
        false
    }
}

pub open spec fn tcdb_err(e: ElemV, err: TcxError) -> bool {
    if !child_opt_ok(e, ("Activities")@) {
        child_shape_err(e, ("Activities")@, err)
    } else if named(e.kids, ("Activities")@).len() == 1 && !activities_ok(
        kid0(e, ("Activities")@),
    ) {
        activities_err(kid0(e, ("Activities")@), err)
    } else if !child_opt_ok(e, ("Folders")@) {
        child_shape_err(e, ("Folders")@, err)
    } else if named(e.kids, ("Folders")@).len() == 1 && !folders_ok(kid0(e, ("Folders")@)) {
        folders_err(kid0(e, ("Folders")@), err)
    } else if !child_opt_ok(e, ("Courses")@) {
        child_shape_err(e, ("Courses")@, err)
    } else if named(e.kids, ("Courses")@).len() == 1 && !courses_ok(kid0(e, ("Courses")@)) {
        courses_err(kid0(e, ("Courses")@), err)
    } else if !child_opt_ok(e, ("Extensions")@) {
        child_shape_err(e, ("Extensions")@, err)
    } else if named(e.kids, ("Extensions")@).len() == 1 && !extensions_ok(kid0(e, ("Extensions")@)) {
        extensions_err(kid0(e, ("Extensions")@), err)
    } else {
        false
    }
}


pub open spec fn course_point_name_err(e: ElemV, err: TcxError) -> bool {
    req_field_err(e, ("token")@, err)
}

pub open spec fn course_point_err(e: ElemV, err: TcxError) -> bool {
    if !child_opt_ok(e, ("Name")@) {
        child_shape_err(e, ("Name")@, err)
    } else if named(e.kids, ("Name")@).len() == 1 && !course_point_name_ok(kid0(e, ("Name")@)) {
        course_point_name_err(kid0(e, ("Name")@), err)
    } else if !ts_req_ok(e, ("Time")@) {
        ts_field_err(e, ("Time")@, err)
    } else if !child_opt_ok(e, ("Position")@) {
        child_shape_err(e, ("Position")@, err)
    } else if named(e.kids, ("Position")@).len() == 1 && !position_ok(kid0(e, ("Position")@)) {
        position_err(kid0(e, ("Position")@), err)
    } else if !dec_opt_ok(e, ("AltitudeMeters")@) {
        val_field_err(e, ("AltitudeMeters")@, err)
    } else if !cpt_opt_ok(e, ("PointType")@) {
        enum_field_err(e, ("PointType")@, err)
    } else if !str_opt_ok(e, ("Notes")@) {
        scalar_shape_err(e, ("Notes")@, err)
    } else if !child_opt_ok(e, ("Extensions")@) {
        child_shape_err(e, ("Extensions")@, err)
    } else if named(e.kids, ("Extensions")@).len() == 1 && !extensions_ok(kid0(e, ("Extensions")@)) {
        extensions_err(kid0(e, ("Extensions")@), err)
    } else {
        false
    }
}

pub open spec fn course_lap_err(e: ElemV, err: TcxError) -> bool {
    if !dec_req_ok(e, ("TotalTimeSeconds")@) {
        req_field_err(e, ("TotalTimeSeconds")@, err)
    } else if !dec_req_ok(e, ("DistanceMeters")@) {
        req_field_err(e, ("DistanceMeters")@, err)
    } else if !child_opt_ok(e, ("BeginPosition")@) {
        child_shape_err(e, ("BeginPosition")@, err)
    } else if named(e.kids, ("BeginPosition")@).len() == 1 && !position_ok(
        kid0(e, ("BeginPosition")@),
    ) {
        position_err(kid0(e, ("BeginPosition")@), err)
    } else if !dec_opt_ok(e, ("BeginAltitudeMeters")@) {
        val_field_err(e, ("BeginAltitudeMeters")@, err)
    } else if !child_opt_ok(e, ("EndPosition")@) {
        child_shape_err(e, ("EndPosition")@, err)
    } else if named(e.kids, ("EndPosition")@).len() == 1 && !position_ok(kid0(e, ("EndPosition")@)) {
        position_err(kid0(e, ("EndPosition")@), err)
    } else if !dec_req_ok(e, ("EndAltitudeMeters")@) {
        req_field_err(e, ("EndAltitudeMeters")@, err)
    } else if !bpm_opt_ok(e, ("AverageHeartRateBpm")@) {
        val_field_err(e, ("AverageHeartRateBpm")@, err)
    } else if !bpm_opt_ok(e, ("MaximumHeartRate")@) {
        val_field_err(e, ("MaximumHeartRate")@, err)
    } else if !intensity_opt_ok(e, ("Intensity")@) {
        enum_field_err(e, ("Intensity")@, err)
    } else if !uint_opt_ok(e, ("Cadence")@, u8::MAX as int) {
        val_field_err(e, ("Cadence")@, err)
    } else if !child_opt_ok(e, ("Extensions")@) {
        child_shape_err(e, ("Extensions")@, err)
    } else if named(e.kids, ("Extensions")@).len() == 1 && !extensions_ok(kid0(e, ("Extensions")@)) {
        extensions_err(kid0(e, ("Extensions")@), err)
    } else {
        false
    }
}

pub open spec fn course_err(e: ElemV, err: TcxError) -> bool {
    if !child_opt_ok(e, ("CourseLap")@) {
        child_shape_err(e, ("CourseLap")@, err)
    } else if named(e.kids, ("CourseLap")@).len() == 1 && !course_lap_ok(kid0(e, ("CourseLap")@)) {
        course_lap_err(kid0(e, ("CourseLap")@), err)
    } else if !rep_ok(e, ("Track")@) {
        err matches TcxError::BadValue { tag } && tag@ == ("Track")@
    } else if exists|i: int|
        0 <= i < named(e.kids, ("Track")@).len() && !(#[trigger] track_ok(
            named(e.kids, ("Track")@)[i],
        )) {
        exists|i: int|
            0 <= i < named(e.kids, ("Track")@).len() && !(#[trigger] track_ok(
                named(e.kids, ("Track")@)[i],
            )) && (forall|j: int|
                0 <= j < i ==> #[trigger] track_ok(named(e.kids, ("Track")@)[j])) && track_err(
                named(e.kids, ("Track")@)[i],
                err,
            )
    } else if !str_opt_ok(e, ("Notes")@) {
        scalar_shape_err(e, ("Notes")@, err)
    } else if !child_opt_ok(e, ("CoursePoint")@) {
        child_shape_err(e, ("CoursePoint")@, err)
    } else if named(e.kids, ("CoursePoint")@).len() == 1 && !course_point_ok(
        kid0(e, ("CoursePoint")@),
    ) {
        course_point_err(kid0(e, ("CoursePoint")@), err)
    } else if !child_opt_ok(e, ("Creator")@) {
        child_shape_err(e, ("Creator")@, err)
    } else if !child_opt_ok(e, ("Extensions")@) {
        child_shape_err(e, ("Extensions")@, err)
    } else if named(e.kids, ("Extensions")@).len() == 1 && !extensions_ok(kid0(e, ("Extensions")@)) {
        extensions_err(kid0(e, ("Extensions")@), err)
    } else {
        false
    }
}

// ---------------------------------------------------------------------------
// Laws
// ---------------------------------------------------------------------------
/// For any well-formed document whose `Activities` block holds N
/// `Activity` elements, the mapped model holds exactly N activities.
pub proof fn lemma_activity_count(t: ElemV, m: TrainingCenterDatabase)
    requires
        tcdb_ok(t),
        tcdb_from(t, m),
        named(t.kids, ("Activities")@).len() == 1,
    ensures
        m.activities is Some,
        m.activities matches Some(a) ==> a.activities@.len() == named(
            kid0(t, ("Activities")@).kids,
            ("Activity")@,
        ).len(),
{
}

/// An enumeration tag whose text is outside its vocabulary fails the
/// mapping: a lap whose single `Intensity` occurrence does not equal a
/// vocabulary member exactly cannot be mapped, so `read` fails rather
/// than defaulting.
pub proof fn lemma_enum_out_of_vocabulary(e: ElemV)
    requires
        scalar_count(e, ("Intensity")@) == 1,
        intensity_of(scalar_text(e, ("Intensity")@)) is None,
    ensures
        !activity_lap_ok(e),
{
}

/// Inserting an element whose name is not `n` changes no `named`
/// selection for `n`.
pub proof fn lemma_named_unknown_insert(s: Seq<ElemV>, i: int, x: ElemV, n: Seq<char>)
    requires
        0 <= i <= s.len(),
        x.name != n,
    ensures
        named(s.insert(i, x), n) == named(s, n),
    decreases s.len(),
{
    let s2 = s.insert(i, x);
    if i == s.len() {
        assert(s2.drop_last() =~= s);
        assert(s2.last() == x);
        assert(named(s2, n) =~= named(s, n));
    } else {
        assert(s2.drop_last() =~= s.drop_last().insert(i, x));
        assert(s2.last() == s.last());
        lemma_named_unknown_insert(s.drop_last(), i, x, n);
    }
}

/// Unknown tags are ignored at the document root: inserting a child with
/// an unrecognized name anywhere among the root's children changes
/// neither whether the document maps nor what it maps to.
pub proof fn lemma_root_unknown_tag_ignored(
    t: ElemV,
    t2: ElemV,
    i: int,
    x: ElemV,
    m: TrainingCenterDatabase,
)
    requires
        0 <= i <= t.kids.len(),
        x.name != ("Activities")@,
        x.name != ("Folders")@,
        x.name != ("Courses")@,
        x.name != ("Extensions")@,
        t2 == (ElemV { kids: t.kids.insert(i, x), ..t }),
    ensures
        tcdb_ok(t2) == tcdb_ok(t),
        tcdb_from(t2, m) == tcdb_from(t, m),
{
    lemma_named_unknown_insert(t.kids, i, x, ("Activities")@);
    lemma_named_unknown_insert(t.kids, i, x, ("Folders")@);
    lemma_named_unknown_insert(t.kids, i, x, ("Courses")@);
    lemma_named_unknown_insert(t.kids, i, x, ("Extensions")@);
}

/// Unknown tags are ignored within a lap: inserting a child with an
/// unrecognized name anywhere among a `Lap` element's children changes
/// neither whether the lap maps nor what it maps to.
pub proof fn lemma_lap_unknown_tag_ignored(t: ElemV, t2: ElemV, i: int, x: ElemV, m: ActivityLap)
    requires
        0 <= i <= t.kids.len(),
        x.name != ("TotalTimeSeconds")@,
        x.name != ("DistanceMeters")@,
        x.name != ("MaximumSpeed")@,
        x.name != ("Calories")@,
        x.name != ("AverageHeartRate")@,
        x.name != ("MaximumHeartRate")@,
        x.name != ("Intensity")@,
        x.name != ("Cadence")@,
        x.name != ("TriggerMethod")@,
        x.name != ("Track")@,
        x.name != ("Notes")@,
        x.name != ("Extensions")@,
        t2 == (ElemV { kids: t.kids.insert(i, x), ..t }),
    ensures
        activity_lap_ok(t2) == activity_lap_ok(t),
        activity_lap_from(t2, m) == activity_lap_from(t, m),
{
    lemma_named_unknown_insert(t.kids, i, x, ("TotalTimeSeconds")@);
    lemma_named_unknown_insert(t.kids, i, x, ("DistanceMeters")@);
    lemma_named_unknown_insert(t.kids, i, x, ("MaximumSpeed")@);
    lemma_named_unknown_insert(t.kids, i, x, ("Calories")@);
    lemma_named_unknown_insert(t.kids, i, x, ("AverageHeartRate")@);
    lemma_named_unknown_insert(t.kids, i, x, ("MaximumHeartRate")@);
    lemma_named_unknown_insert(t.kids, i, x, ("Intensity")@);
    lemma_named_unknown_insert(t.kids, i, x, ("Cadence")@);
    lemma_named_unknown_insert(t.kids, i, x, ("TriggerMethod")@);
    lemma_named_unknown_insert(t.kids, i, x, ("Track")@);
    lemma_named_unknown_insert(t.kids, i, x, ("Notes")@);
    lemma_named_unknown_insert(t.kids, i, x, ("Extensions")@);
}

/// Unknown tags are ignored within a trackpoint, in the same way.
pub proof fn lemma_trackpoint_unknown_tag_ignored(
    t: ElemV,
    t2: ElemV,
    i: int,
    x: ElemV,
    m: Trackpoint,
)
    requires
        0 <= i <= t.kids.len(),
        x.name != ("Time")@,
        x.name != ("Position")@,
        x.name != ("AltitudeMeters")@,
        x.name != ("DistanceMeters")@,
        x.name != ("HeartRateBpm")@,
        x.name != ("Cadence")@,
        x.name != ("Extensions")@,
        t2 == (ElemV { kids: t.kids.insert(i, x), ..t }),
    ensures
        trackpoint_ok(t2) == trackpoint_ok(t),
        trackpoint_from(t2, m) == trackpoint_from(t, m),
{
    lemma_named_unknown_insert(t.kids, i, x, ("Time")@);
    lemma_named_unknown_insert(t.kids, i, x, ("Position")@);
    lemma_named_unknown_insert(t.kids, i, x, ("AltitudeMeters")@);
    lemma_named_unknown_insert(t.kids, i, x, ("DistanceMeters")@);
    lemma_named_unknown_insert(t.kids, i, x, ("HeartRateBpm")@);
    lemma_named_unknown_insert(t.kids, i, x, ("Cadence")@);
    lemma_named_unknown_insert(t.kids, i, x, ("Extensions")@);
}

// ---------------------------------------------------------------------------
// Course entities
// ---------------------------------------------------------------------------
/// Strict decoding of the `CoursePointType` vocabulary.
pub open spec fn cpt_of(t: Seq<char>) -> Option<CoursePointType> {
    if t == ("Generic")@ {
        Some(CoursePointType::Generic)
    } else if t == ("Summit")@ {
        Some(CoursePointType::Summit)
    } else if t == ("Valley")@ {
        Some(CoursePointType::Valley)
    } else if t == ("Water")@ {
        Some(CoursePointType::Water)
    } else if t == ("Food")@ {
        Some(CoursePointType::Food)
    } else if t == ("Danger")@ {
        Some(CoursePointType::Danger)
    } else if t == ("Left")@ {
        Some(CoursePointType::Left)
    } else if t == ("Right")@ {
        Some(CoursePointType::Right)
    } else if t == ("Straight")@ {
        Some(CoursePointType::Straight)
    } else if t == ("FirstAid")@ {
        Some(CoursePointType::FirstAid)
    } else if t == ("FourthCategory")@ {
        Some(CoursePointType::FourthCategory)
    } else if t == ("ThirdCategory")@ {
        Some(CoursePointType::ThirdCategory)
    } else if t == ("SecondCategory")@ {
        Some(CoursePointType::SecondCategory)
    } else if t == ("FirstCategory")@ {
        Some(CoursePointType::FirstCategory)
    } else if t == ("HorsCategory")@ {
        Some(CoursePointType::HorsCategory)
    } else if t == ("Sprint")@ {
        Some(CoursePointType::Sprint)
    } else {
        None
    }
}

pub open spec fn cpt_opt_ok(e: ElemV, n: Seq<char>) -> bool {
    scalar_opt_ok(e, n) && (scalar_count(e, n) == 1 ==> cpt_of(scalar_text(e, n)) is Some)
}

pub open spec fn cpt_opt_from(e: ElemV, n: Seq<char>, v: Option<CoursePointType>) -> bool {
    if scalar_count(e, n) == 1 {
        v == cpt_of(scalar_text(e, n)) && v is Some
    } else {
        v is None
    }
}

fn read_cpt_opt(e: &Elem, n: &str) -> (r: Result<Option<CoursePointType>, TcxError>)
    ensures
        r is Ok <==> cpt_opt_ok(elem_v(*e), n@),
        r matches Ok(v) ==> cpt_opt_from(elem_v(*e), n@, v),
        r matches Err(err) ==> enum_field_err(elem_v(*e), n@, err),
{
    match find_scalar(e, n)? {
        None => Ok(None),
        Some(at) => {
            let t = scalar_chars(e, &at, Ghost(n@));
            if chars_eq_str(t, "Generic") {
                Ok(Some(CoursePointType::Generic))
            } else if chars_eq_str(t, "Summit") {
                Ok(Some(CoursePointType::Summit))
            } else if chars_eq_str(t, "Valley") {
                Ok(Some(CoursePointType::Valley))
            } else if chars_eq_str(t, "Water") {
                Ok(Some(CoursePointType::Water))
            } else if chars_eq_str(t, "Food") {
                Ok(Some(CoursePointType::Food))
            } else if chars_eq_str(t, "Danger") {
                Ok(Some(CoursePointType::Danger))
            } else if chars_eq_str(t, "Left") {
                Ok(Some(CoursePointType::Left))
            } else if chars_eq_str(t, "Right") {
                Ok(Some(CoursePointType::Right))
            } else if chars_eq_str(t, "Straight") {
                Ok(Some(CoursePointType::Straight))
            } else if chars_eq_str(t, "FirstAid") {
                Ok(Some(CoursePointType::FirstAid))
            } else if chars_eq_str(t, "FourthCategory") {
                Ok(Some(CoursePointType::FourthCategory))
            } else if chars_eq_str(t, "ThirdCategory") {
                Ok(Some(CoursePointType::ThirdCategory))
            } else if chars_eq_str(t, "SecondCategory") {
                Ok(Some(CoursePointType::SecondCategory))
            } else if chars_eq_str(t, "FirstCategory") {
                Ok(Some(CoursePointType::FirstCategory))
            } else if chars_eq_str(t, "HorsCategory") {
                Ok(Some(CoursePointType::HorsCategory))
            } else if chars_eq_str(t, "Sprint") {
                Ok(Some(CoursePointType::Sprint))
            } else {
                Err(TcxError::BadEnum { tag: n.to_owned(), value: string_from_chars(t) })
            }
        },
    }
}

pub open spec fn course_point_name_ok(e: ElemV) -> bool {
    uint_req_ok(e, ("token")@, u8::MAX as int)
}

pub open spec fn course_point_name_from(e: ElemV, m: CoursePointName) -> bool {
    m.token == digits_val(scalar_text(e, ("token")@))
}

/// Maps a course point's `Name` element: its required `token`.
pub fn map_course_point_name(e: &Elem) -> (r: Result<CoursePointName, TcxError>)
    ensures
        r is Ok <==> course_point_name_ok(elem_v(*e)),
        r matches Ok(m) ==> course_point_name_from(elem_v(*e), m),
        r matches Err(err) ==> course_point_name_err(elem_v(*e), err),
{
    match read_u8_opt(e, "token")? {
        Some(token) => Ok(CoursePointName { token }),
        None => Err(TcxError::MissingField { tag: "token".to_owned() }),
    }
}

pub open spec fn course_point_ok(e: ElemV) -> bool {
    &&& child_opt_ok(e, ("Name")@)
    &&& (named(e.kids, ("Name")@).len() == 1 ==> course_point_name_ok(kid0(e, ("Name")@)))
    &&& ts_req_ok(e, ("Time")@)
    &&& child_opt_ok(e, ("Position")@)
    &&& (named(e.kids, ("Position")@).len() == 1 ==> position_ok(kid0(e, ("Position")@)))
    &&& dec_opt_ok(e, ("AltitudeMeters")@)
    &&& cpt_opt_ok(e, ("PointType")@)
    &&& str_opt_ok(e, ("Notes")@)
    &&& child_opt_ok(e, ("Extensions")@)
    &&& (named(e.kids, ("Extensions")@).len() == 1 ==> extensions_ok(kid0(e, ("Extensions")@)))
}

pub open spec fn course_point_from(e: ElemV, m: CoursePoint) -> bool {
    &&& match m.name {
        Some(nm) => named(e.kids, ("Name")@).len() == 1 && course_point_name_from(
            kid0(e, ("Name")@),
            nm,
        ),
        None => named(e.kids, ("Name")@).len() == 0,
    }
    &&& ts_req_from(e, ("Time")@, m.time)
    &&& match m.position {
        Some(p) => named(e.kids, ("Position")@).len() == 1 && position_from(
            kid0(e, ("Position")@),
            p,
        ),
        None => named(e.kids, ("Position")@).len() == 0,
    }
    &&& dec_opt_from(e, ("AltitudeMeters")@, m.altitude_meters)
    &&& cpt_opt_from(e, ("PointType")@, m.point_type)
    &&& str_opt_from(e, ("Notes")@, m.notes)
    &&& match m.extensions {
        Some(x) => named(e.kids, ("Extensions")@).len() == 1 && extensions_from(
            kid0(e, ("Extensions")@),
            x,
        ),
        None => named(e.kids, ("Extensions")@).len() == 0,
    }
}

/// Maps a `CoursePoint` element: a named, timestamped waypoint.
pub fn map_course_point(e: &Elem) -> (r: Result<CoursePoint, TcxError>)
    ensures
        r is Ok <==> course_point_ok(elem_v(*e)),
        r matches Ok(m) ==> course_point_from(elem_v(*e), m),
        r matches Err(err) ==> course_point_err(elem_v(*e), err),
{
    let name = match find_child(e, "Name")? {
        None => None,
        Some(j) => Some(map_course_point_name(&e.kids[j])?),
    };
    let time = read_ts_req(e, "Time")?;
    let position = match find_child(e, "Position")? {
        None => None,
        Some(j) => Some(map_position(&e.kids[j])?),
    };
    let altitude_meters = read_dec_opt(e, "AltitudeMeters")?;
    let point_type = read_cpt_opt(e, "PointType")?;
    let notes = read_str_opt(e, "Notes")?;
    let extensions = match find_child(e, "Extensions")? {
        None => None,
        Some(j) => Some(map_extensions(&e.kids[j])?),
    };
    Ok(CoursePoint { name, time, position, altitude_meters, point_type, notes, extensions })
}

pub open spec fn course_lap_ok(e: ElemV) -> bool {
    &&& dec_req_ok(e, ("TotalTimeSeconds")@)
    &&& dec_req_ok(e, ("DistanceMeters")@)
    &&& child_opt_ok(e, ("BeginPosition")@)
    &&& (named(e.kids, ("BeginPosition")@).len() == 1 ==> position_ok(kid0(e, ("BeginPosition")@)))
    &&& dec_opt_ok(e, ("BeginAltitudeMeters")@)
    &&& child_opt_ok(e, ("EndPosition")@)
    &&& (named(e.kids, ("EndPosition")@).len() == 1 ==> position_ok(kid0(e, ("EndPosition")@)))
    &&& dec_req_ok(e, ("EndAltitudeMeters")@)
    &&& bpm_opt_ok(e, ("AverageHeartRateBpm")@)
    &&& bpm_opt_ok(e, ("MaximumHeartRate")@)
    &&& intensity_opt_ok(e, ("Intensity")@)
    &&& uint_opt_ok(e, ("Cadence")@, u8::MAX as int)
    &&& child_opt_ok(e, ("Extensions")@)
    &&& (named(e.kids, ("Extensions")@).len() == 1 ==> extensions_ok(kid0(e, ("Extensions")@)))
}

pub open spec fn course_lap_from(e: ElemV, m: CourseLap) -> bool {
    &&& dec_req_from(e, ("TotalTimeSeconds")@, m.total_time_seconds)
    &&& dec_req_from(e, ("DistanceMeters")@, m.distance_meters)
    &&& match m.begin_position {
        Some(p) => named(e.kids, ("BeginPosition")@).len() == 1 && position_from(
            kid0(e, ("BeginPosition")@),
            p,
        ),
        None => named(e.kids, ("BeginPosition")@).len() == 0,
    }
    &&& dec_opt_from(e, ("BeginAltitudeMeters")@, m.begin_altitude_meters)
    &&& match m.end_position {
        Some(p) => named(e.kids, ("EndPosition")@).len() == 1 && position_from(
            kid0(e, ("EndPosition")@),
            p,
        ),
        None => named(e.kids, ("EndPosition")@).len() == 0,
    }
    &&& dec_req_from(e, ("EndAltitudeMeters")@, m.end_altitude_meters)
    &&& bpm_opt_from(e, ("AverageHeartRateBpm")@, m.average_heart_rate)
    &&& bpm_opt_from(e, ("MaximumHeartRate")@, m.maximum_heart_rate)
    &&& intensity_opt_from(e, ("Intensity")@, m.intensity)
    &&& (if scalar_count(e, ("Cadence")@) == 1 {
        match m.cadence {
            Some(x) => x == digits_val(scalar_text(e, ("Cadence")@)),
            None => false,
        }
    } else {
        m.cadence is None
    })
    &&& match m.extensions {
        Some(x) => named(e.kids, ("Extensions")@).len() == 1 && extensions_from(
            kid0(e, ("Extensions")@),
            x,
        ),
        None => named(e.kids, ("Extensions")@).len() == 0,
    }
}

/// Maps a `CourseLap` element: timing, geometry, and heart rates.
pub fn map_course_lap(e: &Elem) -> (r: Result<CourseLap, TcxError>)
    ensures
        r is Ok <==> course_lap_ok(elem_v(*e)),
        r matches Ok(m) ==> course_lap_from(elem_v(*e), m),
        r matches Err(err) ==> course_lap_err(elem_v(*e), err),
{
    let total_time_seconds = read_dec_req(e, "TotalTimeSeconds")?;
    let distance_meters = read_dec_req(e, "DistanceMeters")?;
    let begin_position = match find_child(e, "BeginPosition")? {
        None => None,
        Some(j) => Some(map_position(&e.kids[j])?),
    };
    let begin_altitude_meters = read_dec_opt(e, "BeginAltitudeMeters")?;
    let end_position = match find_child(e, "EndPosition")? {
        None => None,
        Some(j) => Some(map_position(&e.kids[j])?),
    };
    let end_altitude_meters = read_dec_req(e, "EndAltitudeMeters")?;
    let average_heart_rate = read_bpm_opt(e, "AverageHeartRateBpm")?;
    let maximum_heart_rate = read_bpm_opt(e, "MaximumHeartRate")?;
    let intensity = read_intensity_opt(e, "Intensity")?;
    let cadence = read_u8_opt(e, "Cadence")?;
    let extensions = match find_child(e, "Extensions")? {
        None => None,
        Some(j) => Some(map_extensions(&e.kids[j])?),
    };
    Ok(CourseLap {
        total_time_seconds,
        distance_meters,
        begin_position,
        begin_altitude_meters,
        end_position,
        end_altitude_meters,
        average_heart_rate,
        maximum_heart_rate,
        intensity,
        cadence,
        extensions,
    })
}

pub open spec fn course_ok(e: ElemV) -> bool {
    &&& child_opt_ok(e, ("CourseLap")@)
    &&& (named(e.kids, ("CourseLap")@).len() == 1 ==> course_lap_ok(kid0(e, ("CourseLap")@)))
    &&& rep_ok(e, ("Track")@)
    &&& forall|i: int|
        0 <= i < named(e.kids, ("Track")@).len() ==> track_ok(#[trigger] named(e.kids, ("Track")@)[i])
    &&& str_opt_ok(e, ("Notes")@)
    &&& child_opt_ok(e, ("CoursePoint")@)
    &&& (named(e.kids, ("CoursePoint")@).len() == 1 ==> course_point_ok(kid0(e, ("CoursePoint")@)))
    &&& child_opt_ok(e, ("Creator")@)
    &&& child_opt_ok(e, ("Extensions")@)
    &&& (named(e.kids, ("Extensions")@).len() == 1 ==> extensions_ok(kid0(e, ("Extensions")@)))
}

pub open spec fn course_from(e: ElemV, m: Course) -> bool {
    &&& match m.lap {
        Some(l) => named(e.kids, ("CourseLap")@).len() == 1 && course_lap_from(
            kid0(e, ("CourseLap")@),
            l,
        ),
        None => named(e.kids, ("CourseLap")@).len() == 0,
    }
    &&& match m.tracks {
        Some(ts) => {
            &&& named(e.kids, ("Track")@).len() > 0
            &&& ts@.len() == named(e.kids, ("Track")@).len()
            &&& forall|i: int|
                0 <= i < named(e.kids, ("Track")@).len() ==> track_from(
                    named(e.kids, ("Track")@)[i],
                    #[trigger] ts@[i],
                )
        },
        None => named(e.kids, ("Track")@).len() == 0,
    }
    &&& str_opt_from(e, ("Notes")@, m.notes)
    &&& match m.course_point {
        Some(p) => named(e.kids, ("CoursePoint")@).len() == 1 && course_point_from(
            kid0(e, ("CoursePoint")@),
            p,
        ),
        None => named(e.kids, ("CoursePoint")@).len() == 0,
    }
    &&& match m.creator {
        Some(_) => named(e.kids, ("Creator")@).len() == 1,
        None => named(e.kids, ("Creator")@).len() == 0,
    }
    &&& match m.extensions {
        Some(x) => named(e.kids, ("Extensions")@).len() == 1 && extensions_from(
            kid0(e, ("Extensions")@),
            x,
        ),
        None => named(e.kids, ("Extensions")@).len() == 0,
    }
}

/// Maps a `Course` element. Zero `Track` children yield the absent
/// state; one or more yield the sequence in document order.
pub fn map_course(e: &Elem) -> (r: Result<Course, TcxError>)
    ensures
        r is Ok <==> course_ok(elem_v(*e)),
        r matches Ok(m) ==> course_from(elem_v(*e), m),
        r matches Err(err) ==> course_err(elem_v(*e), err),
{
    let ghost ev = elem_v(*e);
    let ghost n = ("Track")@;
    proof {
        lemma_elems_v(e.kids@);
    }
    let lap = match find_child(e, "CourseLap")? {
        None => None,
        Some(j) => Some(map_course_lap(&e.kids[j])?),
    };
    no_attr(e, "Track")?;
    let mut track_items: Vec<Track> = Vec::new();
    let mut k: usize = 0;
    while k < e.kids.len()
        invariant
            0 <= k <= e.kids@.len(),
            ev == elem_v(*e),
            n == ("Track")@,
            ev.kids.len() == e.kids@.len(),
            forall|j: int| 0 <= j < ev.kids.len() ==> ev.kids[j] == elem_v(e.kids@[j]),
            attr_vals(ev.attrs, n).len() == 0,
            child_opt_ok(ev, ("CourseLap")@),
            named(ev.kids, ("CourseLap")@).len() == 1 ==> course_lap_ok(kid0(ev, ("CourseLap")@)),
            track_items@.len() == named(ev.kids.take(k as int), n).len(),
            forall|i: int|
                0 <= i < track_items@.len() ==> track_ok(
                    #[trigger] named(ev.kids.take(k as int), n)[i],
                ) && track_from(named(ev.kids.take(k as int), n)[i], track_items@[i]),
        decreases e.kids@.len() - k,
    {
        proof {
            lemma_named_step(ev.kids, k as int, n);
        }
        if chars_eq_str(&e.kids[k].name, "Track") {
            let tr = match map_track(&e.kids[k]) {
                Ok(tr) => tr,
                Err(err) => {
                    proof {
                        lemma_named_prefix_le(ev.kids, k as int, n);
                        lemma_named_prefix_le(ev.kids, k + 1, n);
                        let p = named(ev.kids.take(k as int), n);
                        assert(named(ev.kids.take(k + 1), n)[p.len() as int] == ev.kids[k as int]);
                        assert(named(ev.kids, n)[p.len() as int] == ev.kids[k as int]);
                        assert forall|j: int| 0 <= j < p.len() implies #[trigger] track_ok(
                            named(ev.kids, n)[j],
                        ) by {
                            assert(named(ev.kids, n)[j] == p[j]);
                        }
                        assert(!track_ok(named(ev.kids, n)[p.len() as int]));
                    }
                    return Err(err);
                },
            };
            track_items.push(tr);
        }
        k = k + 1;
    }
    proof {
        assert(ev.kids.take(ev.kids.len() as int) =~= ev.kids);
    }
    let tracks = if track_items.len() == 0 {
        None
    } else {
        Some(track_items)
    };
    let notes = read_str_opt(e, "Notes")?;
    let course_point = match find_child(e, "CoursePoint")? {
        None => None,
        Some(j) => Some(map_course_point(&e.kids[j])?),
    };
    let creator = match find_child(e, "Creator")? {
        None => None,
        Some(_) => Some(AbstractSource {}),
    };
    let extensions = match find_child(e, "Extensions")? {
        None => None,
        Some(j) => Some(map_extensions(&e.kids[j])?),
    };
    Ok(Course { lap, tracks, notes, course_point, creator, extensions })
}

/// Unknown tags are ignored within an `Activities` block.
pub proof fn lemma_activities_unknown_tag_ignored(
    t: ElemV,
    t2: ElemV,
    i: int,
    x: ElemV,
    m: Activities,
)
    requires
        0 <= i <= t.kids.len(),
        x.name != ("Activity")@,
        t2 == (ElemV { kids: t.kids.insert(i, x), ..t }),
    ensures
        activities_ok(t2) == activities_ok(t),
        activities_from(t2, m) == activities_from(t, m),
{
    lemma_named_unknown_insert(t.kids, i, x, ("Activity")@);
    let n = ("Activity")@;
    assert(named(t2.kids, n) == named(t.kids, n));
    assert forall|j: int| 0 <= j < named(t.kids, n).len() implies #[trigger] named(t2.kids, n)[j]
        == named(t.kids, n)[j] by {}
}

/// Unknown tags are ignored within an `Activity` element.
pub proof fn lemma_activity_unknown_tag_ignored(t: ElemV, t2: ElemV, i: int, x: ElemV, m: Activity)
    requires
        0 <= i <= t.kids.len(),
        x.name != ("Sport")@,
        x.name != ("Id")@,
        x.name != ("Lap")@,
        x.name != ("Notes")@,
        x.name != ("Extensions")@,
        t2 == (ElemV { kids: t.kids.insert(i, x), ..t }),
    ensures
        activity_ok(t2) == activity_ok(t),
        activity_from(t2, m) == activity_from(t, m),
{
    lemma_named_unknown_insert(t.kids, i, x, ("Sport")@);
    lemma_named_unknown_insert(t.kids, i, x, ("Id")@);
    lemma_named_unknown_insert(t.kids, i, x, ("Lap")@);
    lemma_named_unknown_insert(t.kids, i, x, ("Notes")@);
    lemma_named_unknown_insert(t.kids, i, x, ("Extensions")@);
}

/// Unknown tags are ignored within a `Track` element.
pub proof fn lemma_track_unknown_tag_ignored(t: ElemV, t2: ElemV, i: int, x: ElemV, m: Track)
    requires
        0 <= i <= t.kids.len(),
        x.name != ("Trackpoint")@,
        t2 == (ElemV { kids: t.kids.insert(i, x), ..t }),
    ensures
        track_ok(t2) == track_ok(t),
        track_from(t2, m) == track_from(t, m),
{
    lemma_named_unknown_insert(t.kids, i, x, ("Trackpoint")@);
    let n = ("Trackpoint")@;
    assert(named(t2.kids, n) == named(t.kids, n));
    assert forall|j: int| 0 <= j < named(t.kids, n).len() implies #[trigger] named(t2.kids, n)[j]
        == named(t.kids, n)[j] by {}
}

/// Unrecognized extension content is dropped: inserting a child that is
/// not a `TPX` block into an `Extensions` element changes nothing.
pub proof fn lemma_extensions_unknown_tag_ignored(
    t: ElemV,
    t2: ElemV,
    i: int,
    x: ElemV,
    m: Extensions,
)
    requires
        0 <= i <= t.kids.len(),
        x.name != ("TPX")@,
        t2 == (ElemV { kids: t.kids.insert(i, x), ..t }),
    ensures
        extensions_ok(t2) == extensions_ok(t),
        extensions_from(t2, m) == extensions_from(t, m),
{
    lemma_named_unknown_insert(t.kids, i, x, ("TPX")@);
}

/// Unknown tags are ignored within a `TPX` extension element.
pub proof fn lemma_ns3tpx_unknown_tag_ignored(t: ElemV, t2: ElemV, i: int, x: ElemV, m: Ns3Tpx)
    requires
        0 <= i <= t.kids.len(),
        x.name != ("Speed")@,
        x.name != ("Watts")@,
        t2 == (ElemV { kids: t.kids.insert(i, x), ..t }),
    ensures
        ns3tpx_ok(t2) == ns3tpx_ok(t),
        ns3tpx_from(t2, m) == ns3tpx_from(t, m),
{
    lemma_named_unknown_insert(t.kids, i, x, ("Speed")@);
    lemma_named_unknown_insert(t.kids, i, x, ("Watts")@);
}

/// Unknown tags are ignored within a `Position` element.
pub proof fn lemma_position_unknown_tag_ignored(t: ElemV, t2: ElemV, i: int, x: ElemV, m: Position)
    requires
        0 <= i <= t.kids.len(),
        x.name != ("LatitudeDegrees")@,
        x.name != ("LongitudeDegrees")@,
        t2 == (ElemV { kids: t.kids.insert(i, x), ..t }),
    ensures
        position_ok(t2) == position_ok(t),
        position_from(t2, m) == position_from(t, m),
{
    lemma_named_unknown_insert(t.kids, i, x, ("LatitudeDegrees")@);
    lemma_named_unknown_insert(t.kids, i, x, ("LongitudeDegrees")@);
}

/// Unknown tags are ignored within a `HeartRateBpm` element.
pub proof fn lemma_heart_rate_unknown_tag_ignored(
    t: ElemV,
    t2: ElemV,
    i: int,
    x: ElemV,
    m: HeartRate,
)
    requires
        0 <= i <= t.kids.len(),
        x.name != ("Value")@,
        t2 == (ElemV { kids: t.kids.insert(i, x), ..t }),
    ensures
        heart_rate_ok(t2) == heart_rate_ok(t),
        heart_rate_from(t2, m) == heart_rate_from(t, m),
{
    lemma_named_unknown_insert(t.kids, i, x, ("Value")@);
}

/// Unknown tags are ignored within a `Folders` element.
pub proof fn lemma_folders_unknown_tag_ignored(t: ElemV, t2: ElemV, i: int, x: ElemV, m: Folders)
    requires
        0 <= i <= t.kids.len(),
        x.name != ("History")@,
        x.name != ("Workouts")@,
        x.name != ("Courses")@,
        t2 == (ElemV { kids: t.kids.insert(i, x), ..t }),
    ensures
        folders_ok(t2) == folders_ok(t),
        folders_from(t2, m) == folders_from(t, m),
{
    lemma_named_unknown_insert(t.kids, i, x, ("History")@);
    lemma_named_unknown_insert(t.kids, i, x, ("Workouts")@);
    lemma_named_unknown_insert(t.kids, i, x, ("Courses")@);
}

/// Unknown tags are ignored within a `Courses` element.
pub proof fn lemma_courses_unknown_tag_ignored(t: ElemV, t2: ElemV, i: int, x: ElemV, m: Courses)
    requires
        0 <= i <= t.kids.len(),
        x.name != ("CourseFolder")@,
        x.name != ("Extensions")@,
        t2 == (ElemV { kids: t.kids.insert(i, x), ..t }),
    ensures
        courses_ok(t2) == courses_ok(t),
        courses_from(t2, m) == courses_from(t, m),
{
    lemma_named_unknown_insert(t.kids, i, x, ("CourseFolder")@);
    lemma_named_unknown_insert(t.kids, i, x, ("Extensions")@);
}

/// Unknown tags are ignored within a course folder: inserting an
/// unrecognized-named child at the folder's own level changes nothing.
pub proof fn lemma_course_folder_unknown_tag_ignored(
    t: ElemV,
    t2: ElemV,
    i: int,
    x: ElemV,
    m: CourseFolder,
)
    requires
        0 <= i <= t.kids.len(),
        x.name != ("Folder")@,
        x.name != ("Notes")@,
        x.name != ("CourseNameRef")@,
        x.name != ("Extensions")@,
        t2 == (ElemV { kids: t.kids.insert(i, x), ..t }),
    ensures
        course_folder_ok(t2) == course_folder_ok(t),
        course_folder_from(t2, m) == course_folder_from(t, m),
{
    lemma_named_unknown_insert(t.kids, i, x, ("Folder")@);
    lemma_named_unknown_insert(t.kids, i, x, ("Notes")@);
    lemma_named_unknown_insert(t.kids, i, x, ("CourseNameRef")@);
    lemma_named_unknown_insert(t.kids, i, x, ("Extensions")@);
}

/// Unknown tags are ignored within a `Course` element.
pub proof fn lemma_course_unknown_tag_ignored(t: ElemV, t2: ElemV, i: int, x: ElemV, m: Course)
    requires
        0 <= i <= t.kids.len(),
        x.name != ("CourseLap")@,
        x.name != ("Track")@,
        x.name != ("Notes")@,
        x.name != ("CoursePoint")@,
        x.name != ("Creator")@,
        x.name != ("Extensions")@,
        t2 == (ElemV { kids: t.kids.insert(i, x), ..t }),
    ensures
        course_ok(t2) == course_ok(t),
        course_from(t2, m) == course_from(t, m),
{
    lemma_named_unknown_insert(t.kids, i, x, ("CourseLap")@);
    lemma_named_unknown_insert(t.kids, i, x, ("Track")@);
    lemma_named_unknown_insert(t.kids, i, x, ("Notes")@);
    lemma_named_unknown_insert(t.kids, i, x, ("CoursePoint")@);
    lemma_named_unknown_insert(t.kids, i, x, ("Creator")@);
    lemma_named_unknown_insert(t.kids, i, x, ("Extensions")@);
    let n = ("Track")@;
    assert(named(t2.kids, n) == named(t.kids, n));
    assert forall|j: int| 0 <= j < named(t.kids, n).len() implies #[trigger] named(t2.kids, n)[j]
        == named(t.kids, n)[j] by {}
}

/// Unknown tags are ignored within a `CourseLap` element.
pub proof fn lemma_course_lap_unknown_tag_ignored(
    t: ElemV,
    t2: ElemV,
    i: int,
    x: ElemV,
    m: CourseLap,
)
    requires
        0 <= i <= t.kids.len(),
        x.name != ("TotalTimeSeconds")@,
        x.name != ("DistanceMeters")@,
        x.name != ("BeginPosition")@,
        x.name != ("BeginAltitudeMeters")@,
        x.name != ("EndPosition")@,
        x.name != ("EndAltitudeMeters")@,
        x.name != ("AverageHeartRateBpm")@,
        x.name != ("MaximumHeartRate")@,
        x.name != ("Intensity")@,
        x.name != ("Cadence")@,
        x.name != ("Extensions")@,
        t2 == (ElemV { kids: t.kids.insert(i, x), ..t }),
    ensures
        course_lap_ok(t2) == course_lap_ok(t),
        course_lap_from(t2, m) == course_lap_from(t, m),
{
    lemma_named_unknown_insert(t.kids, i, x, ("TotalTimeSeconds")@);
    lemma_named_unknown_insert(t.kids, i, x, ("DistanceMeters")@);
    lemma_named_unknown_insert(t.kids, i, x, ("BeginPosition")@);
    lemma_named_unknown_insert(t.kids, i, x, ("BeginAltitudeMeters")@);
    lemma_named_unknown_insert(t.kids, i, x, ("EndPosition")@);
    lemma_named_unknown_insert(t.kids, i, x, ("EndAltitudeMeters")@);
    lemma_named_unknown_insert(t.kids, i, x, ("AverageHeartRateBpm")@);
    lemma_named_unknown_insert(t.kids, i, x, ("MaximumHeartRate")@);
    lemma_named_unknown_insert(t.kids, i, x, ("Intensity")@);
    lemma_named_unknown_insert(t.kids, i, x, ("Cadence")@);
    lemma_named_unknown_insert(t.kids, i, x, ("Extensions")@);
}

/// Unknown tags are ignored within a `CoursePoint` element.
pub proof fn lemma_course_point_unknown_tag_ignored(
    t: ElemV,
    t2: ElemV,
    i: int,
    x: ElemV,
    m: CoursePoint,
)
    requires
        0 <= i <= t.kids.len(),
        x.name != ("Name")@,
        x.name != ("Time")@,
        x.name != ("Position")@,
        x.name != ("AltitudeMeters")@,
        x.name != ("PointType")@,
        x.name != ("Notes")@,
        x.name != ("Extensions")@,
        t2 == (ElemV { kids: t.kids.insert(i, x), ..t }),
    ensures
        course_point_ok(t2) == course_point_ok(t),
        course_point_from(t2, m) == course_point_from(t, m),
{
    lemma_named_unknown_insert(t.kids, i, x, ("Name")@);
    lemma_named_unknown_insert(t.kids, i, x, ("Time")@);
    lemma_named_unknown_insert(t.kids, i, x, ("Position")@);
    lemma_named_unknown_insert(t.kids, i, x, ("AltitudeMeters")@);
    lemma_named_unknown_insert(t.kids, i, x, ("PointType")@);
    lemma_named_unknown_insert(t.kids, i, x, ("Notes")@);
    lemma_named_unknown_insert(t.kids, i, x, ("Extensions")@);
}

/// An enumeration value outside its vocabulary is reported as exactly
/// that: when a lap's fields before `Intensity` are sound and its single
/// `Intensity` occurrence is well-shaped but out of vocabulary, whatever
/// error the lap mapping yields names the enumeration and carries the
/// offending value.
pub proof fn lemma_enum_error_names_value(e: ElemV, err: TcxError)
    requires
        dec_req_ok(e, ("TotalTimeSeconds")@),
        dec_req_ok(e, ("DistanceMeters")@),
        dec_opt_ok(e, ("MaximumSpeed")@),
        uint_req_ok(e, ("Calories")@, u16::MAX as int),
        bpm_opt_ok(e, ("AverageHeartRate")@),
        bpm_opt_ok(e, ("MaximumHeartRate")@),
        scalar_opt_ok(e, ("Intensity")@),
        scalar_count(e, ("Intensity")@) == 1,
        intensity_of(scalar_text(e, ("Intensity")@)) is None,
        activity_lap_err(e, err),
    ensures
        err matches TcxError::BadEnum { tag, value } && tag@ == ("Intensity")@ && value@
            == scalar_text(e, ("Intensity")@),
{
}

/// An absent required field is reported as exactly that: when a lap's
/// fields before `Calories` are sound and no `Calories` occurrence
/// exists, whatever error the lap mapping yields names the missing field.
pub proof fn lemma_missing_field_error_names_field(e: ElemV, err: TcxError)
    requires
        dec_req_ok(e, ("TotalTimeSeconds")@),
        dec_req_ok(e, ("DistanceMeters")@),
        dec_opt_ok(e, ("MaximumSpeed")@),
        scalar_opt_ok(e, ("Calories")@),
        scalar_count(e, ("Calories")@) == 0,
        activity_lap_err(e, err),
    ensures
        err matches TcxError::MissingField { tag } && tag@ == ("Calories")@,
{
}

} // verus!
