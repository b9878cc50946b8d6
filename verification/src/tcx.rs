//! The TCX data model: the typed tree of entities mirroring a Training
//! Center XML document, and the derivation of per-lap heart-rate
//! statistics.
//!
//! Physical measures (times, distances, speeds, altitudes, coordinates)
//! are carried as validated decimal text in [`Decimal`], exactly as they
//! stood in the document apart from a dropped `'+'` sign and redundant
//! leading zeros. Heart rates, which the aggregator sums and compares,
//! are carried as fixed-point thousandths of a beat per minute in
//! [`Bpm`]; fractional digits past the third are dropped when a document
//! is read. Timestamps are carried as RFC 3339 text normalized to UTC.

use vstd::prelude::*;

use crate::text::milli_chars;

verus! {

// ---------------------------------------------------------------------------
// Value types
// ---------------------------------------------------------------------------
/// A physical measure, as canonical decimal text.
#[derive(Debug, Clone)]
pub struct Decimal {
    pub text: String,
}

/// A point in time, as RFC 3339 text normalized to UTC.
#[derive(Debug, Clone)]
pub struct Timestamp {
    pub text: String,
}

/// A heart rate in thousandths of a beat per minute.
#[derive(Debug, Clone, Copy, PartialEq, Eq, Structural)]
pub struct Bpm {
    pub milli: u32,
}

impl Bpm {
    /// The decimal text of this rate, e.g. `140.5`.
    pub fn to_text(&self) -> (r: Vec<char>)
        ensures
            r@ == milli_chars(self.milli as nat),
    {
        crate::text::fmt_milli(self.milli)
    }
}

// ---------------------------------------------------------------------------
// Enumerations: closed vocabularies, decoded strictly
// ---------------------------------------------------------------------------
/// Describes the intensity level for laps (`CourseLap` or `ActivityLap`).
#[derive(Debug, Clone, Copy, PartialEq, Eq, Structural)]
pub enum Intensity {
    Active,
    Resting,
}

/// Describes how an event (for example, a lap) was triggered.
#[derive(Debug, Clone, Copy, PartialEq, Eq, Structural)]
pub enum TriggerMethod {
    Manual,
    Distance,
    Location,
    Time,
    HeartRate,
}

/// Describes the type of Course Point.
#[derive(Debug, Clone, Copy, PartialEq, Eq, Structural)]
pub enum CoursePointType {
    Generic,
    Summit,
    Valley,
    Water,
    Food,
    Danger,
    Left,
    Right,
    Straight,
    FirstAid,
    FourthCategory,
    ThirdCategory,
    SecondCategory,
    FirstCategory,
    HorsCategory,
    Sprint,
}

/// The build type for the software that created the TCX file.
#[derive(Debug, Clone, Copy, PartialEq, Eq, Structural)]
pub enum BuildType {
    Internal,
    Alpha,
    Beta,
    Release,
}

/// The type of speed indication used: either pace or speed.
#[derive(Debug, Clone, Copy, PartialEq, Eq, Structural)]
pub enum SpeedType {
    Pace,
    Speed,
}

// ---------------------------------------------------------------------------
// Structs
// ---------------------------------------------------------------------------
/// Version information for the software that produced the TCX file.
#[derive(Debug, Clone)]
pub struct Version {
    pub version_major: u16,
    pub version_minor: u16,
    pub build_major: Option<u16>,
    pub build_minor: Option<u16>,
}

/// Empty placeholder for creator information in the `Course` struct.
#[derive(Debug, Clone)]
pub struct AbstractSource {}

/// Empty placeholder for course name reference information in the
/// `CourseFolder` struct.
#[derive(Debug, Clone)]
pub struct NameKeyReference {}

/// NS3 TPX extension data: the well-known power/speed extension.
#[derive(Debug, Clone)]
pub struct Ns3Tpx {
    pub speed: Option<Decimal>,
    pub watts: Option<u16>,
}

/// Extension data. Only the NS3 TPX extension is modeled; unrecognized
/// extension content is dropped.
#[derive(Debug, Clone)]
pub struct Extensions {
    pub tpx: Option<Ns3Tpx>,
}

/// GPS position in degrees latitude and longitude. No range validation is
/// performed: out-of-range values pass through.
#[derive(Debug, Clone)]
pub struct Position {
    pub latitude: Decimal,
    pub longitude: Decimal,
}

/// Contains heart rate information.
#[derive(Debug, Clone)]
pub struct HeartRate {
    pub value: Bpm,
}

/// One timestamped sample within a track.
#[derive(Debug, Clone)]
pub struct Trackpoint {
    pub time: Timestamp,
    pub position: Option<Position>,
    pub altitude_meters: Option<Decimal>,
    pub distance_meters: Option<Decimal>,
    pub heart_rate: Option<HeartRate>,
    pub cadence: Option<u8>,
    pub extensions: Option<Extensions>,
}

/// A track: a list of trackpoints in document order.
#[derive(Debug, Clone)]
pub struct Track {
    pub trackpoints: Vec<Trackpoint>,
}

/// Summary information for one lap within an activity.
#[derive(Debug, Clone)]
pub struct ActivityLap {
    pub total_time_seconds: Decimal,
    pub distance_meters: Decimal,
    pub maximum_speed: Option<Decimal>,
    pub calories: u16,
    pub average_heart_rate: Option<Bpm>,
    pub maximum_heart_rate: Option<Bpm>,
    pub intensity: Option<Intensity>,
    pub cadence: Option<u8>,
    pub trigger_method: Option<TriggerMethod>,
    pub tracks: Vec<Track>,
    pub notes: Option<String>,
    pub extensions: Option<Extensions>,
}

/// High-level information about an activity: sport, identifier, and laps.
#[derive(Debug, Clone)]
pub struct Activity {
    pub sport: String,
    pub id: String,
    pub laps: Vec<ActivityLap>,
    pub notes: Option<String>,
    pub extensions: Option<Extensions>,
}

/// The list of activities found in the TCX file.
#[derive(Debug, Clone)]
pub struct Activities {
    pub activities: Vec<Activity>,
}

/// Placeholder for history information. Presence is the only signal.
#[derive(Debug, Clone)]
pub struct History {}

/// Placeholder for workouts information. Presence is the only signal.
#[derive(Debug, Clone)]
pub struct Workouts {}

/// A point of interest name within a course.
#[derive(Debug, Clone)]
pub struct CoursePointName {
    pub token: u8,
}

/// A named, timestamped waypoint within a course.
#[derive(Debug, Clone)]
pub struct CoursePoint {
    pub name: Option<CoursePointName>,
    pub time: Timestamp,
    pub position: Option<Position>,
    pub altitude_meters: Option<Decimal>,
    pub point_type: Option<CoursePointType>,
    pub notes: Option<String>,
    pub extensions: Option<Extensions>,
}

/// A lap within a course: timing and geometry.
#[derive(Debug, Clone)]
pub struct CourseLap {
    pub total_time_seconds: Decimal,
    pub distance_meters: Decimal,
    pub begin_position: Option<Position>,
    pub begin_altitude_meters: Option<Decimal>,
    pub end_position: Option<Position>,
    pub end_altitude_meters: Decimal,
    pub average_heart_rate: Option<Bpm>,
    pub maximum_heart_rate: Option<Bpm>,
    pub intensity: Option<Intensity>,
    pub cadence: Option<u8>,
    pub extensions: Option<Extensions>,
}

/// A course: an optional lap, tracks, a waypoint, notes and a creator.
#[derive(Debug, Clone)]
pub struct Course {
    pub lap: Option<CourseLap>,
    pub tracks: Option<Vec<Track>>,
    pub notes: Option<String>,
    pub course_point: Option<CoursePoint>,
    pub creator: Option<AbstractSource>,
    pub extensions: Option<Extensions>,
}

/// A folder for course information. A folder may hold one nested folder,
/// forming a chain.
#[derive(Debug)]
pub struct CourseFolder {
    pub folder: Box<Option<CourseFolder>>,
    pub notes: Option<String>,
    pub course_name_ref: Option<NameKeyReference>,
    pub extensions: Option<Extensions>,
}

/// Courses with extensions.
#[derive(Debug)]
pub struct Courses {
    pub folder: Option<CourseFolder>,
    pub extensions: Option<Extensions>,
}

/// Folders for history, workouts and courses.
#[derive(Debug)]
pub struct Folders {
    pub history: Option<History>,
    pub workouts: Option<Workouts>,
    pub courses: Option<Courses>,
}

/// The top-level entity: everything found in one TCX file.
#[derive(Debug)]
pub struct TrainingCenterDatabase {
    pub activities: Option<Activities>,
    pub folders: Option<Folders>,
    pub courses: Option<Courses>,
    pub extensions: Option<Extensions>,
}

// ---------------------------------------------------------------------------
// Errors
// ---------------------------------------------------------------------------
/// Why a document could not be mapped into the model.
#[derive(Debug, Clone, PartialEq, Eq)]
pub enum TcxError {
    /// The document is not well-formed XML: unbalanced or mismatched tags,
    /// an unterminated construct, or trailing content.
    Xml,
    /// A required field is absent.
    MissingField { tag: String },
    /// A recognized single-valued field occurs more than once.
    DuplicateField { tag: String },
    /// A recognized field's text is not a value of its type, or is out of
    /// its range.
    BadValue { tag: String },
    /// An enumeration tag's text is outside its closed vocabulary.
    BadEnum { tag: String, value: String },
    /// A timestamp is not an RFC 3339 date-time.
    BadTimestamp { tag: String, value: String },
}

// ---------------------------------------------------------------------------
// Heart-rate aggregation
// ---------------------------------------------------------------------------
/// The heart-rate samples present among a sequence of trackpoints, in
/// document order, in thousandths of a beat per minute. Trackpoints
/// without a heart-rate sample contribute nothing.
pub open spec fn hrs_of_tps(tps: Seq<Trackpoint>) -> Seq<u32>
    decreases tps.len(),
{
    if tps.len() == 0 {
        Seq::empty()
    } else {
        hrs_of_tps(tps.drop_last()) + (match tps.last().heart_rate {
            Some(h) => seq![h.value.milli],
            None => Seq::empty(),
        })
    }
}

/// The heart-rate samples present in a lap: all trackpoints across all of
/// its tracks, in document order.
pub open spec fn lap_hrs(tracks: Seq<Track>) -> Seq<u32>
    decreases tracks.len(),
{
    if tracks.len() == 0 {
        Seq::empty()
    } else {
        lap_hrs(tracks.drop_last()) + hrs_of_tps(tracks.last().trackpoints@)
    }
}

/// The sum of a sequence of heart-rate samples.
pub open spec fn hr_sum(s: Seq<u32>) -> int
    decreases s.len(),
{
    if s.len() == 0 {
        0
    } else {
        hr_sum(s.drop_last()) + s.last()
    }
}

/// The largest of a sequence of heart-rate samples, or 0 for none.
pub open spec fn hr_max(s: Seq<u32>) -> int
    decreases s.len(),
{
    if s.len() == 0 {
        0
    } else if s.last() >= hr_max(s.drop_last()) {
        s.last() as int
    } else {
        hr_max(s.drop_last())
    }
}

/// How a lap stands after heart-rate aggregation: with samples `h1..hn`
/// present among its trackpoints, `maximum_heart_rate` is `max(h1..hn)`
/// and `average_heart_rate` is `sum(h1..hn) / n` (exact in thousandths of
/// a beat per minute, rounded toward zero); with no sample present, both
/// are absent. Every other field keeps its value.
/// Aggregation touches only the two heart-rate fields: every other field
/// of the lap keeps its value.
pub open spec fn lap_hr_untouched(l0: ActivityLap, l1: ActivityLap) -> bool {
    &&& l1.total_time_seconds == l0.total_time_seconds
    &&& l1.distance_meters == l0.distance_meters
    &&& l1.maximum_speed == l0.maximum_speed
    &&& l1.calories == l0.calories
    &&& l1.intensity == l0.intensity
    &&& l1.cadence == l0.cadence
    &&& l1.trigger_method == l0.trigger_method
    &&& l1.tracks == l0.tracks
    &&& l1.notes == l0.notes
    &&& l1.extensions == l0.extensions
}

pub open spec fn lap_with_heartrates(l0: ActivityLap, l1: ActivityLap) -> bool {
    let hrs = lap_hrs(l0.tracks@);
    &&& lap_hr_untouched(l0, l1)
    &&& if hrs.len() == 0 {
        l1.average_heart_rate is None && l1.maximum_heart_rate is None
    } else {
        l1.maximum_heart_rate == Some(Bpm { milli: hr_max(hrs) as u32 }) && l1.average_heart_rate
            == Some(Bpm { milli: (hr_sum(hrs) / hrs.len() as int) as u32 })
    }
}

proof fn lemma_hr_sum_nonneg(s: Seq<u32>)
    ensures
        hr_sum(s) >= 0,
    decreases s.len(),
{
    if s.len() > 0 {
        lemma_hr_sum_nonneg(s.drop_last());
    }
}

proof fn lemma_hr_max_bounds(s: Seq<u32>)
    ensures
        0 <= hr_max(s) <= u32::MAX,
        hr_sum(s) <= s.len() * hr_max(s),
    decreases s.len(),
{
    if s.len() > 0 {
        let d = s.drop_last();
        lemma_hr_max_bounds(d);
        assert(d.len() * hr_max(d) <= d.len() * hr_max(s)) by (nonlinear_arith)
            requires
                hr_max(d) <= hr_max(s),
                d.len() >= 0,
        ;
        assert(d.len() * hr_max(s) + hr_max(s) == s.len() * hr_max(s)) by (nonlinear_arith)
            requires
                s.len() == d.len() + 1,
        ;
    }
}

/// With at least one sample, the average is at most the maximum.
proof fn lemma_hr_avg_le_max(s: Seq<u32>)
    requires
        s.len() > 0,
    ensures
        0 <= hr_sum(s) / s.len() as int <= hr_max(s),
{
    lemma_hr_sum_nonneg(s);
    lemma_hr_max_bounds(s);
    let n = s.len() as int;
    vstd::arithmetic::div_mod::lemma_div_is_ordered(hr_sum(s), n * hr_max(s), n);
    vstd::arithmetic::div_mod::lemma_div_multiples_vanish(hr_max(s), n);
    vstd::arithmetic::div_mod::lemma_div_pos_is_pos(hr_sum(s), n);
}

impl ActivityLap {
    /// Derives `average_heart_rate` and `maximum_heart_rate` from the
    /// heart-rate samples present among this lap's trackpoints, as
    /// [`lap_with_heartrates`] states: trackpoints without a sample are
    /// skipped; with samples `h1..hn` present, the maximum is `max(h1..hn)`
    /// and the average is `sum(h1..hn) / n`; with no sample present, both
    /// fields are left absent. No other field is touched. The statistics
    /// are exact whenever the lap holds at most `u64::MAX` samples; a
    /// sample past that count is left out of them.
    pub fn calc_heartrates(&mut self)
        ensures
            lap_hr_untouched(*old(self), *final(self)),
            lap_hrs(old(self).tracks@).len() <= u64::MAX ==> lap_with_heartrates(
                *old(self),
                *final(self),
            ),
    {
        let ghost all = lap_hrs(old(self).tracks@);
        let mut sum: u128 = 0;
        let mut count: u64 = 0;
        let mut max: u32 = 0;
        let mut sat = false;
        let mut ti: usize = 0;
        while ti < self.tracks.len()
            invariant
                *self == *old(self),
                0 <= ti <= self.tracks@.len(),
                all == lap_hrs(old(self).tracks@),
                ({
                    let pre = lap_hrs(self.tracks@.take(ti as int));
                    &&& sat ==> pre.len() > u64::MAX && count == u64::MAX
                    &&& !sat ==> count == pre.len() && sum == hr_sum(pre) && max == hr_max(pre)
                        && sum <= (count as int) * (u32::MAX as int)
                }),
            decreases self.tracks@.len() - ti,
        {
            let ghost pre0 = lap_hrs(self.tracks@.take(ti as int));
            let tr = &self.tracks[ti];
            let mut pi: usize = 0;
            while pi < tr.trackpoints.len()
                invariant
                    0 <= pi <= tr.trackpoints@.len(),
                    tr == self.tracks@[ti as int],
                    0 <= ti < self.tracks@.len(),
                    *self == *old(self),
                    pre0 == lap_hrs(self.tracks@.take(ti as int)),
                    ({
                        let pre = pre0 + hrs_of_tps(tr.trackpoints@.take(pi as int));
                        &&& sat ==> pre.len() > u64::MAX && count == u64::MAX
                        &&& !sat ==> count == pre.len() && sum == hr_sum(pre) && max == hr_max(pre)
                            && sum <= (count as int) * (u32::MAX as int)
                    }),
                decreases tr.trackpoints@.len() - pi,
            {
                let ghost tpre = tr.trackpoints@.take(pi as int);
                proof {
                    assert(tr.trackpoints@.take(pi + 1).drop_last() =~= tpre);
                    assert(tr.trackpoints@.take(pi + 1).last() == tr.trackpoints@[pi as int]);
                    lemma_hr_app(pre0, hrs_of_tps(tpre), tr.trackpoints@[pi as int].heart_rate);
                }
                match &tr.trackpoints[pi].heart_rate {
                    Some(h) => {
                        if !sat {
                            if count < u64::MAX {
                                sum = sum + h.value.milli as u128;
                                count = count + 1;
                                if h.value.milli > max {
                                    max = h.value.milli;
                                }
                            } else {
                                sat = true;
                            }
                        }
                    },
                    None => {
                    },
                }
                pi = pi + 1;
            }
            proof {
                assert(tr.trackpoints@.take(tr.trackpoints@.len() as int) =~= tr.trackpoints@);
                assert(self.tracks@.take(ti + 1).drop_last() =~= self.tracks@.take(ti as int));
                assert(self.tracks@.take(ti + 1).last() == self.tracks@[ti as int]);
            }
            ti = ti + 1;
        }
        proof {
            assert(self.tracks@.take(self.tracks@.len() as int) =~= self.tracks@);
        }
        if count == 0 && !sat {
            self.average_heart_rate = None;
            self.maximum_heart_rate = None;
        } else {
            proof {
                if !sat {
                    lemma_hr_avg_le_max(all);
                }
            }
            self.maximum_heart_rate = Some(Bpm { milli: max });
            let avg: u128 = sum / (count as u128);
            let avg32: u32 = if avg > u32::MAX as u128 {
                u32::MAX
            } else {
                avg as u32
            };
            self.average_heart_rate = Some(Bpm { milli: avg32 });
            proof {
                if !sat {
                    assert(count as int == all.len());
                    assert(sum == hr_sum(all));
                    assert(avg as int == hr_sum(all) / all.len() as int);
                    assert(avg <= u32::MAX as u128);
                }
            }
        }
    }
}

/// How an activity stands after heart-rate aggregation: every lap
/// aggregated, everything else kept.
pub open spec fn activity_with_heartrates(a0: Activity, a1: Activity) -> bool {
    &&& a1.sport == a0.sport
    &&& a1.id == a0.id
    &&& a1.notes == a0.notes
    &&& a1.extensions == a0.extensions
    &&& a1.laps@.len() == a0.laps@.len()
    &&& forall|i: int|
        0 <= i < a0.laps@.len() ==> lap_with_heartrates(a0.laps@[i], #[trigger] a1.laps@[i])
}

/// How a database stands after heart-rate aggregation: every lap of every
/// activity aggregated, everything else kept. Course laps are out of
/// scope.
pub open spec fn tcdb_with_heartrates(t0: TrainingCenterDatabase, t1: TrainingCenterDatabase) -> bool {
    &&& t1.folders == t0.folders
    &&& t1.courses == t0.courses
    &&& t1.extensions == t0.extensions
    &&& match t0.activities {
        None => t1.activities is None,
        Some(a0) => match t1.activities {
            Some(a1) => {
                &&& a1.activities@.len() == a0.activities@.len()
                &&& forall|i: int|
                    0 <= i < a0.activities@.len() ==> activity_with_heartrates(
                        a0.activities@[i],
                        #[trigger] a1.activities@[i],
                    )
            },
            None => false,
        },
    }
}

/// Aggregation touches only the two heart-rate fields of each lap: the
/// shape of the activity list and every other field are kept, whatever
/// the sample counts.
pub open spec fn activity_hr_shape(a0: Activity, a1: Activity) -> bool {
    &&& a1.sport == a0.sport
    &&& a1.id == a0.id
    &&& a1.notes == a0.notes
    &&& a1.extensions == a0.extensions
    &&& a1.laps@.len() == a0.laps@.len()
    &&& forall|j: int|
        0 <= j < a0.laps@.len() ==> lap_hr_untouched(a0.laps@[j], #[trigger] a1.laps@[j])
}

pub open spec fn tcdb_hr_shape(t0: TrainingCenterDatabase, t1: TrainingCenterDatabase) -> bool {
    &&& t1.folders == t0.folders
    &&& t1.courses == t0.courses
    &&& t1.extensions == t0.extensions
    &&& match t0.activities {
        None => t1.activities is None,
        Some(a0) => match t1.activities {
            Some(a1) => {
                &&& a1.activities@.len() == a0.activities@.len()
                &&& forall|i: int|
                    0 <= i < a0.activities@.len() ==> activity_hr_shape(
                        a0.activities@[i],
                        #[trigger] a1.activities@[i],
                    )
            },
            None => false,
        },
    }
}

/// Whether every lap of every activity holds at most `u64::MAX` heart-rate
/// samples, which makes the aggregated statistics exact.
pub open spec fn tcdb_hr_counts_fit(t: TrainingCenterDatabase) -> bool {
    match t.activities {
        None => true,
        Some(a) => forall|i: int, j: int|
            0 <= i < a.activities@.len() && 0 <= j < a.activities@[i].laps@.len() ==> lap_hrs(
                (#[trigger] a.activities@[i].laps@[j]).tracks@,
            ).len() <= u64::MAX,
    }
}

impl TrainingCenterDatabase {
    /// Runs heart-rate aggregation over every `ActivityLap` reachable from
    /// the root, in place. A database without an `Activities` block is
    /// left unchanged. Aggregation of `CourseLap` heart rates is out of
    /// scope.
    pub fn calc_heartrates(&mut self)
        ensures
            tcdb_hr_shape(*old(self), *final(self)),
            tcdb_hr_counts_fit(*old(self)) ==> tcdb_with_heartrates(*old(self), *final(self)),
    {
        let acts_opt = self.activities.take();
        match acts_opt {
            None => {
            },
            Some(mut acts) => {
                let ghost a0 = acts;
                let mut i: usize = 0;
                while i < acts.activities.len()
                    invariant
                        0 <= i <= acts.activities@.len(),
                        acts.activities@.len() == a0.activities@.len(),
                        forall|k: int|
                            i <= k < a0.activities@.len() ==> acts.activities@[k]
                                == a0.activities@[k],
                        forall|k: int|
                            0 <= k < i ==> hr_fit_activity(a0.activities@[k])
                                ==> activity_with_heartrates(
                                a0.activities@[k],
                                #[trigger] acts.activities@[k],
                            ),
                        forall|k: int|
                            0 <= k < i ==> activity_hr_shape(
                                a0.activities@[k],
                                #[trigger] acts.activities@[k],
                            ),
                    decreases acts.activities@.len() - i,
                {
                    let mut act = acts.activities.remove(i);
                    let ghost act0 = act;
                    let mut j: usize = 0;
                    while j < act.laps.len()
                        invariant
                            0 <= j <= act.laps@.len(),
                            act.laps@.len() == act0.laps@.len(),
                            act.sport == act0.sport,
                            act.id == act0.id,
                            act.notes == act0.notes,
                            act.extensions == act0.extensions,
                            forall|k: int|
                                j <= k < act0.laps@.len() ==> act.laps@[k] == act0.laps@[k],
                            forall|k: int|
                                0 <= k < j ==> lap_hrs(act0.laps@[k].tracks@).len() <= u64::MAX
                                    ==> lap_with_heartrates(
                                    act0.laps@[k],
                                    #[trigger] act.laps@[k],
                                ),
                            forall|k: int|
                                0 <= k < j ==> lap_hr_untouched(
                                    act0.laps@[k],
                                    #[trigger] act.laps@[k],
                                ),
                        decreases act.laps@.len() - j,
                    {
                        let mut lap = act.laps.remove(j);
                        lap.calc_heartrates();
                        act.laps.insert(j, lap);
                        proof {
                            assert(act.laps@.remove(j as int).insert(j as int, lap)
                                =~= act.laps@.update(j as int, lap));
                        }
                        j = j + 1;
                    }
                    acts.activities.insert(i, act);
                    proof {
                        assert(acts.activities@.remove(i as int).insert(i as int, act)
                            =~= acts.activities@.update(i as int, act));
                    }
                    i = i + 1;
                }
                self.activities = Some(acts);
            },
        }
    }
}

/// Whether every lap of one activity holds at most `u64::MAX` samples.
pub open spec fn hr_fit_activity(a: Activity) -> bool {
    forall|j: int|
        0 <= j < a.laps@.len() ==> lap_hrs((#[trigger] a.laps@[j]).tracks@).len() <= u64::MAX
}

/// Parses one TCX document from text into the model: the XML reader
/// (`crate::xml`) turns the text into the element tree `doc_of(xml@)`,
/// and the mapper (`crate::mapper`) gives that tree its meaning. The call
/// succeeds exactly when the text is a well-formed document whose tree
/// satisfies the mapping rules, and then returns exactly the model those
/// rules assign; text that is not well-formed XML yields `TcxError::Xml`,
/// and a well-formed document that violates the schema yields the mapping
/// error, as `crate::mapper::map_tcdb` states precisely.
pub fn read(xml: &str) -> (r: Result<TrainingCenterDatabase, TcxError>)
    ensures
        r is Ok <==> (match crate::xml::doc_of(xml@) {
            Some(t) => crate::mapper::tcdb_ok(t),
            None => false,
        }),
        r matches Ok(m) ==> (match crate::xml::doc_of(xml@) {
            Some(t) => crate::mapper::tcdb_from(t, m),
            None => false,
        }),
        crate::xml::doc_of(xml@) is None ==> r == Err::<TrainingCenterDatabase, TcxError>(
            TcxError::Xml,
        ),
        r matches Err(err) ==> (match crate::xml::doc_of(xml@) {
            None => err == TcxError::Xml,
            Some(t) => crate::mapper::tcdb_err(t, err),
        }),
{
    let v = crate::text::chars_of(xml);
    match crate::xml::parse_document(&v) {
        None => Err(TcxError::Xml),
        Some(root) => crate::mapper::map_tcdb(&root),
    }
}

/// The statistics depend on the present samples alone: a trackpoint
/// without a heart-rate sample contributes nothing, wherever it stands.
pub proof fn lemma_sampleless_trackpoint_ignored(tps: Seq<Trackpoint>, i: int, tp: Trackpoint)
    requires
        0 <= i <= tps.len(),
        tp.heart_rate is None,
    ensures
        hrs_of_tps(tps.insert(i, tp)) == hrs_of_tps(tps),
    decreases tps.len(),
{
    let s2 = tps.insert(i, tp);
    if i == tps.len() {
        assert(s2.drop_last() =~= tps);
        assert(s2.last() == tp);
        assert(hrs_of_tps(s2) =~= hrs_of_tps(tps));
    } else {
        assert(s2.drop_last() =~= tps.drop_last().insert(i, tp));
        assert(s2.last() == tps.last());
        lemma_sampleless_trackpoint_ignored(tps.drop_last(), i, tp);
    }
}

/// Appending one trackpoint's sample (or nothing) to a sample sequence
/// shifts its length, sum and maximum as expected.
proof fn lemma_hr_app(a: Seq<u32>, b: Seq<u32>, hr: Option<HeartRate>)
    ensures
        ({
            let add = match hr {
                Some(h) => seq![h.value.milli],
                None => Seq::<u32>::empty(),
            };
            &&& (a + b) + add == a + (b + add)
            &&& match hr {
                Some(h) => {
                    &&& hr_sum((a + b) + seq![h.value.milli]) == hr_sum(a + b) + h.value.milli
                    &&& hr_max((a + b) + seq![h.value.milli]) == (if h.value.milli >= hr_max(a + b) {
                        h.value.milli as int
                    } else {
                        hr_max(a + b)
                    })
                    &&& ((a + b) + seq![h.value.milli]).len() == (a + b).len() + 1
                },
                None => (a + b) + Seq::<u32>::empty() == a + b,
            }
        }),
{
    let ab = a + b;
    match hr {
        Some(h) => {
            let s = ab + seq![h.value.milli];
            assert(s.drop_last() =~= ab);
            assert(s.last() == h.value.milli);
            assert((a + b) + seq![h.value.milli] =~= a + (b + seq![h.value.milli]));
        },
        None => {
            assert(ab + Seq::<u32>::empty() =~= ab);
            assert((a + b) + Seq::<u32>::empty() =~= a + (b + Seq::<u32>::empty()));
        },
    }
}

} // verus!
