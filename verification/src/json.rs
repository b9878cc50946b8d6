//! Rendering of the TCX model as JSON text.
//!
//! The output style is fixed: objects are pretty-printed with two-space
//! indentation, one field per line, in declaration order, with absent
//! optional fields rendered as `null`; arrays bracket their items
//! directly. Field names are the XML tag names the mapper binds. Every
//! physical measure is rendered as a JSON number holding its decimal
//! text; heart rates are rendered in beats per minute with their
//! thousandths.

use vstd::prelude::*;

use crate::text::chars_of;
use crate::text::u64_chars;
use crate::text::fmt_u64;
use crate::text::digit_char;
use crate::text::digit_to_char;
use crate::tcx::Decimal;
use crate::tcx::Bpm;
use crate::tcx::Intensity;
use crate::tcx::TriggerMethod;
use crate::tcx::Position;
use crate::tcx::HeartRate;
use crate::tcx::Ns3Tpx;
use crate::tcx::Extensions;
use crate::tcx::Trackpoint;
use crate::tcx::Track;
use crate::tcx::ActivityLap;
use crate::tcx::Activity;
use crate::tcx::Activities;
use crate::tcx::CourseFolder;
use crate::tcx::Courses;
use crate::tcx::Folders;
use crate::tcx::TrainingCenterDatabase;

verus! {

/// One character of a JSON string body, escaped as needed.
pub open spec fn esc_char(c: char) -> Seq<char> {
    if c == '"' {
        seq!['\\', '"']
    } else if c == '\\' {
        seq!['\\', '\\']
    } else if c == '\n' {
        seq!['\\', 'n']
    } else if c == '\r' {
        seq!['\\', 'r']
    } else if c == '\t' {
        seq!['\\', 't']
    } else if (c as u32) < 32 {
        seq!['\\', 'u', '0', '0', digit_char(((c as u32) / 16) as nat), hex_char(((c as u32) % 16) as nat)]
    } else {
        seq![c]
    }
}

pub open spec fn hex_char(d: nat) -> char {
    if d < 10 {
        digit_char(d)
    } else if d == 10 {
        'a'
    } else if d == 11 {
        'b'
    } else if d == 12 {
        'c'
    } else if d == 13 {
        'd'
    } else if d == 14 {
        'e'
    } else {
        'f'
    }
}

/// A JSON string body: every character escaped as needed.
pub open spec fn esc(s: Seq<char>) -> Seq<char>
    decreases s.len(),
{
    if s.len() == 0 {
        Seq::empty()
    } else {
        esc(s.drop_last()) + esc_char(s.last())
    }
}

/// A JSON string: the escaped body in double quotes.
pub open spec fn jstr(s: Seq<char>) -> Seq<char> {
    seq!['"'] + esc(s) + seq!['"']
}

fn hex_to_char(d: u32) -> (r: char)
    requires
        d < 16,
    ensures
        r == hex_char(d as nat),
{
    if d < 10 {
        digit_to_char(d as u64)
    } else if d == 10 {
        'a'
    } else if d == 11 {
        'b'
    } else if d == 12 {
        'c'
    } else if d == 13 {
        'd'
    } else if d == 14 {
        'e'
    } else {
        'f'
    }
}

/// Appends the characters of `s` to `out`.
pub fn push_chars(out: &mut Vec<char>, s: &Vec<char>)
    ensures
        final(out)@ == old(out)@ + s@,
{
    let mut i: usize = 0;
    while i < s.len()
        invariant
            0 <= i <= s@.len(),
            out@ == old(out)@ + s@.take(i as int),
        decreases s@.len() - i,
    {
        let c = s[i];
        out.push(c);
        proof {
            assert(old(out)@ + s@.take(i + 1) =~= (old(out)@ + s@.take(i as int)).push(
                s@[i as int],
            ));
        }
        i = i + 1;
    }
    proof {
        assert(s@.take(s@.len() as int) =~= s@);
    }
}

/// Appends the characters of the string `s` to `out`.
pub fn push_str_chars(out: &mut Vec<char>, s: &str)
    ensures
        final(out)@ == old(out)@ + s@,
{
    let v = chars_of(s);
    push_chars(out, &v);
}

/// Appends a JSON string rendering of `s` to `out`.
pub fn push_jstr(out: &mut Vec<char>, s: &str)
    ensures
        final(out)@ == old(out)@ + jstr(s@),
{
    let v = chars_of(s);
    out.push('"');
    let mut i: usize = 0;
    while i < v.len()
        invariant
            0 <= i <= v@.len(),
            v@ == s@,
            out@ == old(out)@ + seq!['"'] + esc(s@.take(i as int)),
        decreases v@.len() - i,
    {
        let c = v[i];
        proof {
            assert(s@.take(i + 1).drop_last() =~= s@.take(i as int));
            assert(s@.take(i + 1).last() == s@[i as int]);
        }
        let cu = c as u32;
        if c == '"' {
            out.push('\\');
            out.push('"');
        } else if c == '\\' {
            out.push('\\');
            out.push('\\');
        } else if c == '\n' {
            out.push('\\');
            out.push('n');
        } else if c == '\r' {
            out.push('\\');
            out.push('r');
        } else if c == '\t' {
            out.push('\\');
            out.push('t');
        } else if cu < 32 {
            out.push('\\');
            out.push('u');
            out.push('0');
            out.push('0');
            out.push(digit_to_char((cu / 16) as u64));
            out.push(hex_to_char(cu % 16));
        } else {
            out.push(c);
        }
        proof {
            assert(out@ =~= old(out)@ + seq!['"'] + esc(s@.take(i + 1)));
        }
        i = i + 1;
    }
    out.push('"');
    proof {
        assert(s@.take(s@.len() as int) =~= s@);
        assert(out@ =~= old(out)@ + jstr(s@));
    }
}

// ---------------------------------------------------------------------------
// Layout pieces
// ---------------------------------------------------------------------------
pub open spec fn jnull() -> Seq<char> {
    ("null")@
}

/// One object field line: indentation, quoted key, value, separator.
#[verifier::opaque]
pub open spec fn fld(ind2: Seq<char>, key: Seq<char>, val: Seq<char>, last: bool) -> Seq<char> {
    ind2 + seq!['"'] + key + seq!['"', ':', ' '] + val + (if last {
        seq!['\n']
    } else {
        seq![',', '\n']
    })
}

/// An object: its field lines between braces.
pub open spec fn obj(ind: Seq<char>, body: Seq<char>) -> Seq<char> {
    seq!['{', '\n'] + body + ind + seq!['}']
}

/// Array items joined by a separator.
pub open spec fn join(items: Seq<Seq<char>>, sep: Seq<char>) -> Seq<char>
    decreases items.len(),
{
    if items.len() == 0 {
        Seq::empty()
    } else if items.len() == 1 {
        items[0]
    } else {
        join(items.drop_last(), sep) + sep + items.last()
    }
}

/// An array brackets its items, separated by `", "`.
pub open spec fn jarr(items: Seq<Seq<char>>) -> Seq<char> {
    seq!['['] + join(items, seq![',', ' ']) + seq![']']
}

fn extend_ind(ind: &Vec<char>) -> (r: Vec<char>)
    ensures
        r@ == ind@ + seq![' ', ' '],
{
    let mut r: Vec<char> = Vec::new();
    push_chars(&mut r, ind);
    r.push(' ');
    r.push(' ');
    proof {
        assert(r@ =~= ind@ + seq![' ', ' ']);
    }
    r
}

fn emit_key(out: &mut Vec<char>, ind2: &Vec<char>, key: &str)
    ensures
        final(out)@ == old(out)@ + ind2@ + seq!['"'] + key@ + seq!['"', ':', ' '],
{
    push_chars(out, ind2);
    out.push('"');
    push_str_chars(out, key);
    out.push('"');
    out.push(':');
    out.push(' ');
    proof {
        assert(out@ =~= old(out)@ + ind2@ + seq!['"'] + key@ + seq!['"', ':', ' ']);
    }
}

fn emit_sep(out: &mut Vec<char>, last: bool)
    ensures
        final(out)@ == old(out)@ + (if last {
            seq!['\n']
        } else {
            seq![',', '\n']
        }),
{
    if !last {
        out.push(',');
    }
    out.push('\n');
    proof {
        if last {
            assert(out@ =~= old(out)@ + seq!['\n']);
        } else {
            assert(out@ =~= old(out)@ + seq![',', '\n']);
        }
    }
}

// ---------------------------------------------------------------------------
// Values
// ---------------------------------------------------------------------------
pub open spec fn jdec(d: Decimal) -> Seq<char> {
    d.text@
}

pub open spec fn jdec_opt(v: Option<Decimal>) -> Seq<char> {
    match v {
        Some(d) => d.text@,
        None => jnull(),
    }
}

pub open spec fn jbpm_opt(v: Option<Bpm>) -> Seq<char> {
    match v {
        Some(b) => crate::text::milli_chars(b.milli as nat),
        None => jnull(),
    }
}

pub open spec fn ju64_opt(v: Option<u64>) -> Seq<char> {
    match v {
        Some(x) => u64_chars(x as nat),
        None => jnull(),
    }
}

pub open spec fn jstr_opt(v: Option<String>) -> Seq<char> {
    match v {
        Some(s) => jstr(s@),
        None => jnull(),
    }
}

pub open spec fn jintensity_opt(v: Option<Intensity>) -> Seq<char> {
    match v {
        Some(Intensity::Active) => ("\"Active\"")@,
        Some(Intensity::Resting) => ("\"Resting\"")@,
        None => jnull(),
    }
}

pub open spec fn jtrigger_opt(v: Option<TriggerMethod>) -> Seq<char> {
    match v {
        Some(TriggerMethod::Manual) => ("\"Manual\"")@,
        Some(TriggerMethod::Distance) => ("\"Distance\"")@,
        Some(TriggerMethod::Location) => ("\"Location\"")@,
        Some(TriggerMethod::Time) => ("\"Time\"")@,
        Some(TriggerMethod::HeartRate) => ("\"HeartRate\"")@,
        None => jnull(),
    }
}

fn emit_dec(out: &mut Vec<char>, d: &Decimal)
    ensures
        final(out)@ == old(out)@ + jdec(*d),
{
    let t = chars_of(d.text.as_str());
    push_chars(out, &t);
}

fn emit_dec_opt(out: &mut Vec<char>, v: &Option<Decimal>)
    ensures
        final(out)@ == old(out)@ + jdec_opt(*v),
{
    match v {
        Some(d) => emit_dec(out, d),
        None => push_str_chars(out, "null"),
    }
}

fn emit_bpm_opt(out: &mut Vec<char>, v: &Option<Bpm>)
    ensures
        final(out)@ == old(out)@ + jbpm_opt(*v),
{
    match v {
        Some(b) => {
            let t = crate::text::fmt_milli(b.milli);
            push_chars(out, &t);
        },
        None => push_str_chars(out, "null"),
    }
}

fn emit_u8_opt(out: &mut Vec<char>, v: &Option<u8>)
    ensures
        final(out)@ == old(out)@ + (match *v {
            Some(x) => u64_chars(x as nat),
            None => jnull(),
        }),
{
    match v {
        Some(x) => {
            let t = fmt_u64(*x as u64);
            push_chars(out, &t);
        },
        None => push_str_chars(out, "null"),
    }
}

fn emit_u16_opt(out: &mut Vec<char>, v: &Option<u16>)
    ensures
        final(out)@ == old(out)@ + (match *v {
            Some(x) => u64_chars(x as nat),
            None => jnull(),
        }),
{
    match v {
        Some(x) => {
            let t = fmt_u64(*x as u64);
            push_chars(out, &t);
        },
        None => push_str_chars(out, "null"),
    }
}

fn emit_str_opt(out: &mut Vec<char>, v: &Option<String>)
    ensures
        final(out)@ == old(out)@ + jstr_opt(*v),
{
    match v {
        Some(s) => push_jstr(out, s.as_str()),
        None => push_str_chars(out, "null"),
    }
}

fn emit_intensity_opt(out: &mut Vec<char>, v: &Option<Intensity>)
    ensures
        final(out)@ == old(out)@ + jintensity_opt(*v),
{
    match v {
        Some(Intensity::Active) => push_str_chars(out, "\"Active\""),
        Some(Intensity::Resting) => push_str_chars(out, "\"Resting\""),
        None => push_str_chars(out, "null"),
    }
}

fn emit_trigger_opt(out: &mut Vec<char>, v: &Option<TriggerMethod>)
    ensures
        final(out)@ == old(out)@ + jtrigger_opt(*v),
{
    match v {
        Some(TriggerMethod::Manual) => push_str_chars(out, "\"Manual\""),
        Some(TriggerMethod::Distance) => push_str_chars(out, "\"Distance\""),
        Some(TriggerMethod::Location) => push_str_chars(out, "\"Location\""),
        Some(TriggerMethod::Time) => push_str_chars(out, "\"Time\""),
        Some(TriggerMethod::HeartRate) => push_str_chars(out, "\"HeartRate\""),
        None => push_str_chars(out, "null"),
    }
}

// ---------------------------------------------------------------------------
// Entities
// ---------------------------------------------------------------------------
#[verifier::opaque]
pub open spec fn json_position(p: Position, ind: Seq<char>) -> Seq<char> {
    let ind2 = ind + seq![' ', ' '];
    obj(
        ind,
        fld(ind2, ("LatitudeDegrees")@, jdec(p.latitude), false) + fld(
            ind2,
            ("LongitudeDegrees")@,
            jdec(p.longitude),
            true,
        ),
    )
}

fn emit_position(out: &mut Vec<char>, p: &Position, ind: &Vec<char>)
    ensures
        final(out)@ == old(out)@ + json_position(*p, ind@),
{
    let ind2 = extend_ind(ind);
    out.push('{');
    out.push('\n');
    emit_key(out, &ind2, "LatitudeDegrees");
    emit_dec(out, &p.latitude);
    emit_sep(out, false);
    emit_key(out, &ind2, "LongitudeDegrees");
    emit_dec(out, &p.longitude);
    emit_sep(out, true);
    push_chars(out, ind);
    out.push('}');
    proof {
        reveal(json_position);
        reveal(fld);
        assert(out@ =~= old(out)@ + json_position(*p, ind@));
    }
}

pub open spec fn json_position_opt(v: Option<Position>, ind: Seq<char>) -> Seq<char> {
    match v {
        Some(p) => json_position(p, ind),
        None => jnull(),
    }
}

fn emit_position_opt(out: &mut Vec<char>, v: &Option<Position>, ind: &Vec<char>)
    ensures
        final(out)@ == old(out)@ + json_position_opt(*v, ind@),
{
    match v {
        Some(p) => emit_position(out, p, ind),
        None => push_str_chars(out, "null"),
    }
}

#[verifier::opaque]
pub open spec fn json_heart_rate(h: HeartRate, ind: Seq<char>) -> Seq<char> {
    let ind2 = ind + seq![' ', ' '];
    obj(ind, fld(ind2, ("Value")@, crate::text::milli_chars(h.value.milli as nat), true))
}

fn emit_heart_rate(out: &mut Vec<char>, h: &HeartRate, ind: &Vec<char>)
    ensures
        final(out)@ == old(out)@ + json_heart_rate(*h, ind@),
{
    let ind2 = extend_ind(ind);
    out.push('{');
    out.push('\n');
    emit_key(out, &ind2, "Value");
    let t = crate::text::fmt_milli(h.value.milli);
    push_chars(out, &t);
    emit_sep(out, true);
    push_chars(out, ind);
    out.push('}');
    proof {
        reveal(json_heart_rate);
        reveal(fld);
        assert(out@ =~= old(out)@ + json_heart_rate(*h, ind@));
    }
}

#[verifier::opaque]
pub open spec fn json_ns3tpx(m: Ns3Tpx, ind: Seq<char>) -> Seq<char> {
    let ind2 = ind + seq![' ', ' '];
    obj(
        ind,
        fld(ind2, ("Speed")@, jdec_opt(m.speed), false) + fld(
            ind2,
            ("Watts")@,
            ju64_opt(match m.watts {
                Some(x) => Some(x as u64),
                None => None,
            }),
            true,
        ),
    )
}

fn emit_ns3tpx(out: &mut Vec<char>, m: &Ns3Tpx, ind: &Vec<char>)
    ensures
        final(out)@ == old(out)@ + json_ns3tpx(*m, ind@),
{
    let ind2 = extend_ind(ind);
    out.push('{');
    out.push('\n');
    emit_key(out, &ind2, "Speed");
    emit_dec_opt(out, &m.speed);
    emit_sep(out, false);
    emit_key(out, &ind2, "Watts");
    emit_u16_opt(out, &m.watts);
    emit_sep(out, true);
    push_chars(out, ind);
    out.push('}');
    proof {
        reveal(json_ns3tpx);
        reveal(fld);
        assert(out@ =~= old(out)@ + json_ns3tpx(*m, ind@));
    }
}

#[verifier::opaque]
pub open spec fn json_extensions(m: Extensions, ind: Seq<char>) -> Seq<char> {
    let ind2 = ind + seq![' ', ' '];
    obj(
        ind,
        fld(
            ind2,
            ("TPX")@,
            match m.tpx {
                Some(x) => json_ns3tpx(x, ind2),
                None => jnull(),
            },
            true,
        ),
    )
}

fn emit_extensions(out: &mut Vec<char>, m: &Extensions, ind: &Vec<char>)
    ensures
        final(out)@ == old(out)@ + json_extensions(*m, ind@),
{
    let ind2 = extend_ind(ind);
    out.push('{');
    out.push('\n');
    emit_key(out, &ind2, "TPX");
    match &m.tpx {
        Some(x) => emit_ns3tpx(out, x, &ind2),
        None => push_str_chars(out, "null"),
    }
    emit_sep(out, true);
    push_chars(out, ind);
    out.push('}');
    proof {
        reveal(json_extensions);
        reveal(fld);
        assert(out@ =~= old(out)@ + json_extensions(*m, ind@));
    }
}

pub open spec fn json_extensions_opt(v: Option<Extensions>, ind: Seq<char>) -> Seq<char> {
    match v {
        Some(x) => json_extensions(x, ind),
        None => jnull(),
    }
}

fn emit_extensions_opt(out: &mut Vec<char>, v: &Option<Extensions>, ind: &Vec<char>)
    ensures
        final(out)@ == old(out)@ + json_extensions_opt(*v, ind@),
{
    match v {
        Some(x) => emit_extensions(out, x, ind),
        None => push_str_chars(out, "null"),
    }
}

#[verifier::opaque]
pub open spec fn json_trackpoint(m: Trackpoint, ind: Seq<char>) -> Seq<char> {
    let ind2 = ind + seq![' ', ' '];
    obj(
        ind,
        fld(ind2, ("Time")@, jstr(m.time.text@), false) + fld(
            ind2,
            ("Position")@,
            json_position_opt(m.position, ind2),
            false,
        ) + fld(ind2, ("AltitudeMeters")@, jdec_opt(m.altitude_meters), false) + fld(
            ind2,
            ("DistanceMeters")@,
            jdec_opt(m.distance_meters),
            false,
        ) + fld(
            ind2,
            ("HeartRateBpm")@,
            match m.heart_rate {
                Some(h) => json_heart_rate(h, ind2),
                None => jnull(),
            },
            false,
        ) + fld(ind2, ("Cadence")@, ju64_opt(match m.cadence {
            Some(x) => Some(x as u64),
            None => None,
        }), false) + fld(ind2, ("Extensions")@, json_extensions_opt(m.extensions, ind2), true),
    )
}

#[verifier::rlimit(100)]
fn emit_trackpoint(out: &mut Vec<char>, m: &Trackpoint, ind: &Vec<char>)
    ensures
        final(out)@ == old(out)@ + json_trackpoint(*m, ind@),
{
    let ind2 = extend_ind(ind);
    let ghost iv = ind2@;
    let ghost mv = *m;
    let ghost f1 = fld(iv, ("Time")@, jstr(mv.time.text@), false);
    let ghost f2 = fld(iv, ("Position")@, json_position_opt(mv.position, iv), false);
    let ghost f3 = fld(iv, ("AltitudeMeters")@, jdec_opt(mv.altitude_meters), false);
    let ghost f4 = fld(
        iv,
        ("DistanceMeters")@,
        jdec_opt(mv.distance_meters),
        false,
    );
    let ghost f5 = fld(
        iv,
        ("HeartRateBpm")@,
        match mv.heart_rate {
            Some(h) => json_heart_rate(h, iv),
            None => jnull(),
        },
        false,
    );
    let ghost f6 = fld(iv, ("Cadence")@, ju64_opt(match mv.cadence {
        Some(x) => Some(x as u64),
        None => None,
    }), false);
    let ghost f7 = fld(iv, ("Extensions")@, json_extensions_opt(mv.extensions, iv), true);
    let ghost b0 = old(out)@ + seq!['{', '\n'];
    out.push('{');
    out.push('\n');
    assert(out@ =~= b0);
    let ghost p0 = out@;
    emit_key(out, &ind2, "Time");
    push_jstr(out, m.time.text.as_str());
    emit_sep(out, false);
    proof {
        assert(out@ =~= p0 + f1) by {
            reveal(fld);
        }
    }
    let ghost p1 = out@;
    emit_key(out, &ind2, "Position");
    emit_position_opt(out, &m.position, &ind2);
    emit_sep(out, false);
    proof {
        assert(out@ =~= p1 + f2) by {
            reveal(fld);
        }
    }
    let ghost p2 = out@;
    emit_key(out, &ind2, "AltitudeMeters");
    emit_dec_opt(out, &m.altitude_meters);
    emit_sep(out, false);
    proof {
        assert(out@ =~= p2 + f3) by {
            reveal(fld);
        }
    }
    let ghost p3 = out@;
    emit_key(out, &ind2, "DistanceMeters");
    emit_dec_opt(out, &m.distance_meters);
    emit_sep(out, false);
    proof {
        assert(out@ =~= p3 + f4) by {
            reveal(fld);
        }
    }
    let ghost p4 = out@;
    emit_key(out, &ind2, "HeartRateBpm");
    match &m.heart_rate {
        Some(h) => emit_heart_rate(out, h, &ind2),
        None => push_str_chars(out, "null"),
    }
    emit_sep(out, false);
    proof {
        assert(out@ =~= p4 + f5) by {
            reveal(fld);
        }
    }
    let ghost p5 = out@;
    emit_key(out, &ind2, "Cadence");
    emit_u8_opt(out, &m.cadence);
    emit_sep(out, false);
    proof {
        assert(out@ =~= p5 + f6) by {
            reveal(fld);
        }
    }
    let ghost p6 = out@;
    emit_key(out, &ind2, "Extensions");
    emit_extensions_opt(out, &m.extensions, &ind2);
    emit_sep(out, true);
    proof {
        assert(out@ =~= p6 + f7) by {
            reveal(fld);
        }
    }
    push_chars(out, ind);
    out.push('}');
    proof {
        assert(out@ =~= b0 + (f1 + f2 + f3 + f4 + f5 + f6 + f7) + ind@ + seq!['}']);
        assert(out@ =~= old(out)@ + json_trackpoint(*m, ind@)) by {
            reveal(json_trackpoint);
        }
    }
}

#[verifier::opaque]
pub open spec fn json_track(m: Track, ind: Seq<char>) -> Seq<char> {
    let ind2 = ind + seq![' ', ' '];
    obj(
        ind,
        fld(
            ind2,
            ("Trackpoint")@,
            jarr(Seq::new(m.trackpoints@.len(), |i: int| json_trackpoint(m.trackpoints@[i], ind2))),
            true,
        ),
    )
}

#[verifier::rlimit(100)]
fn emit_track(out: &mut Vec<char>, m: &Track, ind: &Vec<char>)
    ensures
        final(out)@ == old(out)@ + json_track(*m, ind@),
{
    let ind2 = extend_ind(ind);
    out.push('{');
    out.push('\n');
    emit_key(out, &ind2, "Trackpoint");
    let ghost items = Seq::new(
        m.trackpoints@.len(),
        |i: int| json_trackpoint(m.trackpoints@[i], ind2@),
    );
    let ghost mid = out@;
    out.push('[');
    let mut k: usize = 0;
    while k < m.trackpoints.len()
        invariant
            0 <= k <= m.trackpoints@.len(),
            items == Seq::new(
                m.trackpoints@.len(),
                |i: int| json_trackpoint(m.trackpoints@[i], ind2@),
            ),
            ind2@ == ind@ + seq![' ', ' '],
            out@ == mid + seq!['['] + join(items.take(k as int), seq![',', ' ']),
        decreases m.trackpoints@.len() - k,
    {
        if k > 0 {
            out.push(',');
            out.push(' ');
        }
        emit_trackpoint(out, &m.trackpoints[k], &ind2);
        proof {
            assert(items.take(k + 1).drop_last() =~= items.take(k as int));
            assert(items.take(k + 1).last() == items[k as int]);
            assert(out@ =~= mid + seq!['['] + join(items.take(k + 1), seq![',', ' ']));
        }
        k = k + 1;
    }
    out.push(']');
    proof {
        assert(items.take(items.len() as int) =~= items);
    }
    emit_sep(out, true);
    push_chars(out, ind);
    out.push('}');
    proof {
        reveal(json_track);
        reveal(fld);
        assert(out@ =~= old(out)@ + json_track(*m, ind@));
    }
}

/// Renders an array of tracks.
fn tracks_json(v: &Vec<Track>, ind2: &Vec<char>) -> (r: Vec<char>)
    ensures
        r@ == jarr(Seq::new(v@.len(), |i: int| json_track(v@[i], ind2@))),
{
    let ghost items = Seq::new(v@.len(), |i: int| json_track(v@[i], ind2@));
    let mut r: Vec<char> = Vec::new();
    r.push('[');
    let mut k: usize = 0;
    while k < v.len()
        invariant
            0 <= k <= v@.len(),
            items == Seq::new(v@.len(), |i: int| json_track(v@[i], ind2@)),
            r@ == seq!['['] + join(items.take(k as int), seq![',', ' ']),
        decreases v@.len() - k,
    {
        if k > 0 {
            r.push(',');
            r.push(' ');
        }
        emit_track(&mut r, &v[k], ind2);
        proof {
            assert(items.take(k + 1).drop_last() =~= items.take(k as int));
            assert(items.take(k + 1).last() == items[k as int]);
            assert(r@ =~= seq!['['] + join(items.take(k + 1), seq![',', ' ']));
        }
        k = k + 1;
    }
    r.push(']');
    proof {
        assert(items.take(items.len() as int) =~= items);
        assert(r@ =~= jarr(items));
    }
    r
}

#[verifier::opaque]
pub open spec fn json_lap_front(m: ActivityLap, ind2: Seq<char>) -> Seq<char> {
    fld(ind2, ("TotalTimeSeconds")@, jdec(m.total_time_seconds), false) + fld(
        ind2,
        ("DistanceMeters")@,
        jdec(m.distance_meters),
        false,
    ) + fld(ind2, ("MaximumSpeed")@, jdec_opt(m.maximum_speed), false) + fld(
        ind2,
        ("Calories")@,
        u64_chars(m.calories as nat),
        false,
    ) + fld(ind2, ("AverageHeartRate")@, jbpm_opt(m.average_heart_rate), false) + fld(
        ind2,
        ("MaximumHeartRate")@,
        jbpm_opt(m.maximum_heart_rate),
        false,
    )
}

#[verifier::opaque]
pub open spec fn json_lap_back(m: ActivityLap, ind2: Seq<char>) -> Seq<char> {
    fld(ind2, ("Intensity")@, jintensity_opt(m.intensity), false) + fld(
        ind2,
        ("Cadence")@,
        ju64_opt(match m.cadence {
            Some(x) => Some(x as u64),
            None => None,
        }),
        false,
    ) + fld(ind2, ("TriggerMethod")@, jtrigger_opt(m.trigger_method), false) + fld(
        ind2,
        ("Track")@,
        jarr(Seq::new(m.tracks@.len(), |i: int| json_track(m.tracks@[i], ind2))),
        false,
    ) + fld(ind2, ("Notes")@, jstr_opt(m.notes), false) + fld(
        ind2,
        ("Extensions")@,
        json_extensions_opt(m.extensions, ind2),
        true,
    )
}

#[verifier::opaque]
pub open spec fn json_lap(m: ActivityLap, ind: Seq<char>) -> Seq<char> {
    let ind2 = ind + seq![' ', ' '];
    obj(ind, json_lap_front(m, ind2) + json_lap_back(m, ind2))
}

#[verifier::rlimit(100)]
fn emit_lap_front(out: &mut Vec<char>, m: &ActivityLap, ind2: &Vec<char>)
    ensures
        final(out)@ == old(out)@ + json_lap_front(*m, ind2@),
{
    let ghost iv = ind2@;
    let ghost mv = *m;
    let ghost f1 = fld(iv, ("TotalTimeSeconds")@, jdec(mv.total_time_seconds), false);
    let ghost f2 = fld(iv, ("DistanceMeters")@, jdec(mv.distance_meters), false);
    let ghost f3 = fld(iv, ("MaximumSpeed")@, jdec_opt(mv.maximum_speed), false);
    let ghost f4 = fld(iv, ("Calories")@, u64_chars(mv.calories as nat), false);
    let ghost f5 = fld(iv, ("AverageHeartRate")@, jbpm_opt(mv.average_heart_rate), false);
    let ghost f6 = fld(iv, ("MaximumHeartRate")@, jbpm_opt(mv.maximum_heart_rate), false);
    let ghost p0 = out@;
    emit_key(out, ind2, "TotalTimeSeconds");
    emit_dec(out, &m.total_time_seconds);
    emit_sep(out, false);
    proof {
        assert(out@ =~= p0 + f1) by {
            reveal(fld);
        }
    }
    let ghost p1 = out@;
    emit_key(out, ind2, "DistanceMeters");
    emit_dec(out, &m.distance_meters);
    emit_sep(out, false);
    proof {
        assert(out@ =~= p1 + f2) by {
            reveal(fld);
        }
    }
    let ghost p2 = out@;
    emit_key(out, ind2, "MaximumSpeed");
    emit_dec_opt(out, &m.maximum_speed);
    emit_sep(out, false);
    proof {
        assert(out@ =~= p2 + f3) by {
            reveal(fld);
        }
    }
    let ghost p3 = out@;
    emit_key(out, ind2, "Calories");
    let cal = fmt_u64(m.calories as u64);
    push_chars(out, &cal);
    emit_sep(out, false);
    proof {
        assert(out@ =~= p3 + f4) by {
            reveal(fld);
        }
    }
    let ghost p4 = out@;
    emit_key(out, ind2, "AverageHeartRate");
    emit_bpm_opt(out, &m.average_heart_rate);
    emit_sep(out, false);
    proof {
        assert(out@ =~= p4 + f5) by {
            reveal(fld);
        }
    }
    let ghost p5 = out@;
    emit_key(out, ind2, "MaximumHeartRate");
    emit_bpm_opt(out, &m.maximum_heart_rate);
    emit_sep(out, false);
    proof {
        assert(out@ =~= p5 + f6) by {
            reveal(fld);
        }
        assert(out@ =~= p0 + (f1 + f2 + f3 + f4 + f5 + f6));
        assert(out@ =~= old(out)@ + json_lap_front(mv, iv)) by {
            reveal(json_lap_front);
        }
    }
}

#[verifier::rlimit(100)]
fn emit_lap_back(out: &mut Vec<char>, m: &ActivityLap, ind2: &Vec<char>)
    ensures
        final(out)@ == old(out)@ + json_lap_back(*m, ind2@),
{
    let ghost iv = ind2@;
    let ghost mv = *m;
    let ghost f7 = fld(iv, ("Intensity")@, jintensity_opt(mv.intensity), false);
    let ghost f8 = fld(iv, ("Cadence")@, ju64_opt(match mv.cadence {
        Some(x) => Some(x as u64),
        None => None,
    }), false);
    let ghost f9 = fld(iv, ("TriggerMethod")@, jtrigger_opt(mv.trigger_method), false);
    let ghost f10 = fld(
        iv,
        ("Track")@,
        jarr(Seq::new(mv.tracks@.len(), |i: int| json_track(mv.tracks@[i], iv))),
        false,
    );
    let ghost f11 = fld(iv, ("Notes")@, jstr_opt(mv.notes), false);
    let ghost f12 = fld(iv, ("Extensions")@, json_extensions_opt(mv.extensions, iv), true);
    let ghost p0 = out@;
    emit_key(out, ind2, "Intensity");
    emit_intensity_opt(out, &m.intensity);
    emit_sep(out, false);
    proof {
        assert(out@ =~= p0 + f7) by {
            reveal(fld);
        }
    }
    let ghost p1 = out@;
    emit_key(out, ind2, "Cadence");
    emit_u8_opt(out, &m.cadence);
    emit_sep(out, false);
    proof {
        assert(out@ =~= p1 + f8) by {
            reveal(fld);
        }
    }
    let ghost p2 = out@;
    emit_key(out, ind2, "TriggerMethod");
    emit_trigger_opt(out, &m.trigger_method);
    emit_sep(out, false);
    proof {
        assert(out@ =~= p2 + f9) by {
            reveal(fld);
        }
    }
    let ghost p3 = out@;
    emit_key(out, ind2, "Track");
    let arr = tracks_json(&m.tracks, ind2);
    push_chars(out, &arr);
    emit_sep(out, false);
    proof {
        assert(out@ =~= p3 + f10) by {
            reveal(fld);
        }
    }
    let ghost p4 = out@;
    emit_key(out, ind2, "Notes");
    emit_str_opt(out, &m.notes);
    emit_sep(out, false);
    proof {
        assert(out@ =~= p4 + f11) by {
            reveal(fld);
        }
    }
    let ghost p5 = out@;
    emit_key(out, ind2, "Extensions");
    emit_extensions_opt(out, &m.extensions, ind2);
    emit_sep(out, true);
    proof {
        assert(out@ =~= p5 + f12) by {
            reveal(fld);
        }
        assert(out@ =~= p0 + (f7 + f8 + f9 + f10 + f11 + f12));
        assert(out@ =~= old(out)@ + json_lap_back(mv, iv)) by {
            reveal(json_lap_back);
        }
    }
}

fn emit_lap(out: &mut Vec<char>, m: &ActivityLap, ind: &Vec<char>)
    ensures
        final(out)@ == old(out)@ + json_lap(*m, ind@),
{
    let ind2 = extend_ind(ind);
    out.push('{');
    out.push('\n');
    emit_lap_front(out, m, &ind2);
    emit_lap_back(out, m, &ind2);
    push_chars(out, ind);
    out.push('}');
    proof {
        assert(out@ =~= old(out)@ + json_lap(*m, ind@)) by {
            reveal(json_lap);
        }
    }
}

/// Renders an array of laps.
fn laps_json(v: &Vec<ActivityLap>, ind2: &Vec<char>) -> (r: Vec<char>)
    ensures
        r@ == jarr(Seq::new(v@.len(), |i: int| json_lap(v@[i], ind2@))),
{
    let ghost items = Seq::new(v@.len(), |i: int| json_lap(v@[i], ind2@));
    let mut r: Vec<char> = Vec::new();
    r.push('[');
    let mut k: usize = 0;
    while k < v.len()
        invariant
            0 <= k <= v@.len(),
            items == Seq::new(v@.len(), |i: int| json_lap(v@[i], ind2@)),
            r@ == seq!['['] + join(items.take(k as int), seq![',', ' ']),
        decreases v@.len() - k,
    {
        if k > 0 {
            r.push(',');
            r.push(' ');
        }
        emit_lap(&mut r, &v[k], ind2);
        proof {
            assert(items.take(k + 1).drop_last() =~= items.take(k as int));
            assert(items.take(k + 1).last() == items[k as int]);
            assert(r@ =~= seq!['['] + join(items.take(k + 1), seq![',', ' ']));
        }
        k = k + 1;
    }
    r.push(']');
    proof {
        assert(items.take(items.len() as int) =~= items);
        assert(r@ =~= jarr(items));
    }
    r
}

#[verifier::opaque]
pub open spec fn json_activity(m: Activity, ind: Seq<char>) -> Seq<char> {
    let ind2 = ind + seq![' ', ' '];
    obj(
        ind,
        fld(ind2, ("Sport")@, jstr(m.sport@), false) + fld(ind2, ("Id")@, jstr(m.id@), false)
            + fld(
            ind2,
            ("Lap")@,
            jarr(Seq::new(m.laps@.len(), |i: int| json_lap(m.laps@[i], ind2))),
            false,
        ) + fld(ind2, ("Notes")@, jstr_opt(m.notes), false) + fld(
            ind2,
            ("Extensions")@,
            json_extensions_opt(m.extensions, ind2),
            true,
        ),
    )
}

#[verifier::rlimit(100)]
fn emit_activity(out: &mut Vec<char>, m: &Activity, ind: &Vec<char>)
    ensures
        final(out)@ == old(out)@ + json_activity(*m, ind@),
{
    let ind2 = extend_ind(ind);
    let ghost iv = ind2@;
    let ghost mv = *m;
    let ghost f1 = fld(iv, ("Sport")@, jstr(mv.sport@), false);
    let ghost f2 = fld(iv, ("Id")@, jstr(mv.id@), false);
    let ghost f3 = fld(
        iv,
        ("Lap")@,
        jarr(Seq::new(mv.laps@.len(), |i: int| json_lap(mv.laps@[i], iv))),
        false,
    );
    let ghost f4 = fld(iv, ("Notes")@, jstr_opt(mv.notes), false);
    let ghost f5 = fld(iv, ("Extensions")@, json_extensions_opt(mv.extensions, iv), true);
    let ghost b0 = old(out)@ + seq!['{', '\n'];
    out.push('{');
    out.push('\n');
    assert(out@ =~= b0);
    let ghost p0 = out@;
    emit_key(out, &ind2, "Sport");
    push_jstr(out, m.sport.as_str());
    emit_sep(out, false);
    proof {
        assert(out@ =~= p0 + f1) by {
            reveal(fld);
        }
    }
    let ghost p1 = out@;
    emit_key(out, &ind2, "Id");
    push_jstr(out, m.id.as_str());
    emit_sep(out, false);
    proof {
        assert(out@ =~= p1 + f2) by {
            reveal(fld);
        }
    }
    let ghost p2 = out@;
    emit_key(out, &ind2, "Lap");
    let arr = laps_json(&m.laps, &ind2);
    push_chars(out, &arr);
    emit_sep(out, false);
    proof {
        assert(out@ =~= p2 + f3) by {
            reveal(fld);
        }
    }
    let ghost p3 = out@;
    emit_key(out, &ind2, "Notes");
    emit_str_opt(out, &m.notes);
    emit_sep(out, false);
    proof {
        assert(out@ =~= p3 + f4) by {
            reveal(fld);
        }
    }
    let ghost p4 = out@;
    emit_key(out, &ind2, "Extensions");
    emit_extensions_opt(out, &m.extensions, &ind2);
    emit_sep(out, true);
    proof {
        assert(out@ =~= p4 + f5) by {
            reveal(fld);
        }
    }
    push_chars(out, ind);
    out.push('}');
    proof {
        assert(out@ =~= b0 + (f1 + f2 + f3 + f4 + f5) + ind@ + seq!['}']);
        assert(out@ =~= old(out)@ + json_activity(*m, ind@)) by {
            reveal(json_activity);
        }
    }
}

#[verifier::opaque]
pub open spec fn json_activities(m: Activities, ind: Seq<char>) -> Seq<char> {
    let ind2 = ind + seq![' ', ' '];
    obj(
        ind,
        fld(
            ind2,
            ("Activity")@,
            jarr(Seq::new(m.activities@.len(), |i: int| json_activity(m.activities@[i], ind2))),
            true,
        ),
    )
}

#[verifier::rlimit(100)]
fn emit_activities(out: &mut Vec<char>, m: &Activities, ind: &Vec<char>)
    ensures
        final(out)@ == old(out)@ + json_activities(*m, ind@),
{
    let ind2 = extend_ind(ind);
    let ghost items = Seq::new(
        m.activities@.len(),
        |i: int| json_activity(m.activities@[i], ind2@),
    );
    out.push('{');
    out.push('\n');
    emit_key(out, &ind2, "Activity");
    let ghost mid = out@;
    out.push('[');
    let mut k: usize = 0;
    while k < m.activities.len()
        invariant
            0 <= k <= m.activities@.len(),
            items == Seq::new(m.activities@.len(), |i: int| json_activity(m.activities@[i], ind2@)),
            ind2@ == ind@ + seq![' ', ' '],
            out@ == mid + seq!['['] + join(items.take(k as int), seq![',', ' ']),
        decreases m.activities@.len() - k,
    {
        if k > 0 {
            out.push(',');
            out.push(' ');
        }
        emit_activity(out, &m.activities[k], &ind2);
        proof {
            assert(items.take(k + 1).drop_last() =~= items.take(k as int));
            assert(items.take(k + 1).last() == items[k as int]);
            assert(out@ =~= mid + seq!['['] + join(items.take(k + 1), seq![',', ' ']));
        }
        k = k + 1;
    }
    out.push(']');
    proof {
        assert(items.take(items.len() as int) =~= items);
    }
    emit_sep(out, true);
    push_chars(out, ind);
    out.push('}');
    proof {
        assert(out@ =~= old(out)@ + json_activities(*m, ind@)) by {
            reveal(json_activities);
            reveal(fld);
        }
    }
}

#[verifier::opaque]
pub open spec fn json_course_folder(m: CourseFolder, ind: Seq<char>) -> Seq<char>
    decreases m,
{
    let ind2 = ind + seq![' ', ' '];
    obj(
        ind,
        fld(
            ind2,
            ("Folder")@,
            match *m.folder {
                Some(inner) => json_course_folder(inner, ind2),
                None => jnull(),
            },
            false,
        ) + fld(ind2, ("Notes")@, jstr_opt(m.notes), false) + fld(
            ind2,
            ("CourseNameRef")@,
            match m.course_name_ref {
                Some(_) => ("{}")@,
                None => jnull(),
            },
            false,
        ) + fld(ind2, ("Extensions")@, json_extensions_opt(m.extensions, ind2), true),
    )
}

#[verifier::rlimit(100)]
fn emit_course_folder(out: &mut Vec<char>, m: &CourseFolder, ind: &Vec<char>)
    ensures
        final(out)@ == old(out)@ + json_course_folder(*m, ind@),
    decreases *m,
{
    let ind2 = extend_ind(ind);
    let ghost iv = ind2@;
    let ghost mv = *m;
    let ghost f1 = fld(
        iv,
        ("Folder")@,
        match *mv.folder {
            Some(inner) => json_course_folder(inner, iv),
            None => jnull(),
        },
        false,
    );
    let ghost f2 = fld(iv, ("Notes")@, jstr_opt(mv.notes), false);
    let ghost f3 = fld(
        iv,
        ("CourseNameRef")@,
        match mv.course_name_ref {
            Some(_) => ("{}")@,
            None => jnull(),
        },
        false,
    );
    let ghost f4 = fld(iv, ("Extensions")@, json_extensions_opt(mv.extensions, iv), true);
    let ghost b0 = old(out)@ + seq!['{', '\n'];
    out.push('{');
    out.push('\n');
    assert(out@ =~= b0);
    let ghost p0 = out@;
    emit_key(out, &ind2, "Folder");
    match &*m.folder {
        Some(inner) => emit_course_folder(out, inner, &ind2),
        None => push_str_chars(out, "null"),
    }
    emit_sep(out, false);
    proof {
        assert(out@ =~= p0 + f1) by {
            reveal(fld);
        }
    }
    let ghost p1 = out@;
    emit_key(out, &ind2, "Notes");
    emit_str_opt(out, &m.notes);
    emit_sep(out, false);
    proof {
        assert(out@ =~= p1 + f2) by {
            reveal(fld);
        }
    }
    let ghost p2 = out@;
    emit_key(out, &ind2, "CourseNameRef");
    match &m.course_name_ref {
        Some(_) => push_str_chars(out, "{}"),
        None => push_str_chars(out, "null"),
    }
    emit_sep(out, false);
    proof {
        assert(out@ =~= p2 + f3) by {
            reveal(fld);
        }
    }
    let ghost p3 = out@;
    emit_key(out, &ind2, "Extensions");
    emit_extensions_opt(out, &m.extensions, &ind2);
    emit_sep(out, true);
    proof {
        assert(out@ =~= p3 + f4) by {
            reveal(fld);
        }
    }
    push_chars(out, ind);
    out.push('}');
    proof {
        assert(out@ =~= b0 + (f1 + f2 + f3 + f4) + ind@ + seq!['}']);
        assert(out@ =~= old(out)@ + json_course_folder(*m, ind@)) by {
            reveal(json_course_folder);
        }
    }
}

#[verifier::opaque]
pub open spec fn json_courses(m: Courses, ind: Seq<char>) -> Seq<char> {
    let ind2 = ind + seq![' ', ' '];
    obj(
        ind,
        fld(
            ind2,
            ("CourseFolder")@,
            match m.folder {
                Some(f) => json_course_folder(f, ind2),
                None => jnull(),
            },
            false,
        ) + fld(ind2, ("Extensions")@, json_extensions_opt(m.extensions, ind2), true),
    )
}

#[verifier::rlimit(100)]
fn emit_courses(out: &mut Vec<char>, m: &Courses, ind: &Vec<char>)
    ensures
        final(out)@ == old(out)@ + json_courses(*m, ind@),
{
    let ind2 = extend_ind(ind);
    out.push('{');
    out.push('\n');
    emit_key(out, &ind2, "CourseFolder");
    match &m.folder {
        Some(f) => emit_course_folder(out, f, &ind2),
        None => push_str_chars(out, "null"),
    }
    emit_sep(out, false);
    emit_key(out, &ind2, "Extensions");
    emit_extensions_opt(out, &m.extensions, &ind2);
    emit_sep(out, true);
    push_chars(out, ind);
    out.push('}');
    proof {
        assert(out@ =~= old(out)@ + json_courses(*m, ind@)) by {
            reveal(json_courses);
            reveal(fld);
        }
    }
}

pub open spec fn json_courses_opt(v: Option<Courses>, ind: Seq<char>) -> Seq<char> {
    match v {
        Some(c) => json_courses(c, ind),
        None => jnull(),
    }
}

fn emit_courses_opt(out: &mut Vec<char>, v: &Option<Courses>, ind: &Vec<char>)
    ensures
        final(out)@ == old(out)@ + json_courses_opt(*v, ind@),
{
    match v {
        Some(c) => emit_courses(out, c, ind),
        None => push_str_chars(out, "null"),
    }
}

#[verifier::opaque]
pub open spec fn json_folders(m: Folders, ind: Seq<char>) -> Seq<char> {
    let ind2 = ind + seq![' ', ' '];
    obj(
        ind,
        fld(
            ind2,
            ("History")@,
            match m.history {
                Some(_) => ("{}")@,
                None => jnull(),
            },
            false,
        ) + fld(
            ind2,
            ("Workouts")@,
            match m.workouts {
                Some(_) => ("{}")@,
                None => jnull(),
            },
            false,
        ) + fld(ind2, ("Courses")@, json_courses_opt(m.courses, ind2), true),
    )
}

#[verifier::rlimit(100)]
fn emit_folders(out: &mut Vec<char>, m: &Folders, ind: &Vec<char>)
    ensures
        final(out)@ == old(out)@ + json_folders(*m, ind@),
{
    let ind2 = extend_ind(ind);
    out.push('{');
    out.push('\n');
    emit_key(out, &ind2, "History");
    match &m.history {
        Some(_) => push_str_chars(out, "{}"),
        None => push_str_chars(out, "null"),
    }
    emit_sep(out, false);
    emit_key(out, &ind2, "Workouts");
    match &m.workouts {
        Some(_) => push_str_chars(out, "{}"),
        None => push_str_chars(out, "null"),
    }
    emit_sep(out, false);
    emit_key(out, &ind2, "Courses");
    emit_courses_opt(out, &m.courses, &ind2);
    emit_sep(out, true);
    push_chars(out, ind);
    out.push('}');
    proof {
        assert(out@ =~= old(out)@ + json_folders(*m, ind@)) by {
            reveal(json_folders);
            reveal(fld);
        }
    }
}

/// The JSON text of a whole database, with the root object unindented.
#[verifier::opaque]
pub open spec fn json_tcdb(m: TrainingCenterDatabase) -> Seq<char> {
    let ind = Seq::<char>::empty();
    let ind2 = seq![' ', ' '];
    obj(
        ind,
        fld(
            ind2,
            ("Activities")@,
            match m.activities {
                Some(a) => json_activities(a, ind2),
                None => jnull(),
            },
            false,
        ) + fld(
            ind2,
            ("Folders")@,
            match m.folders {
                Some(f) => json_folders(f, ind2),
                None => jnull(),
            },
            false,
        ) + fld(ind2, ("Courses")@, json_courses_opt(m.courses, ind2), false) + fld(
            ind2,
            ("Extensions")@,
            json_extensions_opt(m.extensions, ind2),
            true,
        ),
    )
}

impl TrainingCenterDatabase {
    /// Renders this database as JSON text, as [`json_tcdb`] states:
    /// pretty-printed objects with two-space indentation, fields in
    /// declaration order named by their XML tag names, absent optional
    /// fields as `null`, and arrays bracketing their items.
    #[verifier::rlimit(100)]
    pub fn to_json(&self) -> (r: String)
        ensures
            r@ == json_tcdb(*self),
    {
        let mut out: Vec<char> = Vec::new();
        let ind: Vec<char> = Vec::new();
        let ind2 = extend_ind(&ind);
        out.push('{');
        out.push('\n');
        emit_key(&mut out, &ind2, "Activities");
        match &self.activities {
            Some(a) => emit_activities(&mut out, a, &ind2),
            None => push_str_chars(&mut out, "null"),
        }
        emit_sep(&mut out, false);
        emit_key(&mut out, &ind2, "Folders");
        match &self.folders {
            Some(f) => emit_folders(&mut out, f, &ind2),
            None => push_str_chars(&mut out, "null"),
        }
        emit_sep(&mut out, false);
        emit_key(&mut out, &ind2, "Courses");
        emit_courses_opt(&mut out, &self.courses, &ind2);
        emit_sep(&mut out, false);
        emit_key(&mut out, &ind2, "Extensions");
        emit_extensions_opt(&mut out, &self.extensions, &ind2);
        emit_sep(&mut out, true);
        push_chars(&mut out, &ind);
        out.push('}');
        proof {
            assert(out@ =~= json_tcdb(*self)) by {
                reveal(json_tcdb);
                reveal(fld);
            }
        }
        crate::text::string_from_chars(&out)
    }
}

} // verus!
