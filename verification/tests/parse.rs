// Scenario tests for reading TCX documents.

use tcx::read;
use tcx::tcx::Intensity;
use tcx::tcx::TcxError;
use tcx::tcx::TriggerMethod;

fn trackpoint(time: &str, hr: Option<&str>, cadence: Option<u32>) -> String {
    let mut s = String::new();
    s.push_str("<Trackpoint><Time>");
    s.push_str(time);
    s.push_str("</Time>");
    if let Some(h) = hr {
        s.push_str("<HeartRateBpm><Value>");
        s.push_str(h);
        s.push_str("</Value></HeartRateBpm>");
    }
    if let Some(c) = cadence {
        s.push_str(&format!("<Cadence>{}</Cadence>", c));
    }
    s.push_str("</Trackpoint>");
    s
}

fn document(trackpoints: &str) -> String {
    let mut s = String::new();
    s.push_str("<?xml version=\"1.0\" encoding=\"UTF-8\"?>\n");
    s.push_str("<TrainingCenterDatabase xmlns=\"http://www.garmin.com/xmlschemas/TrainingCenterDatabase/v2\">");
    s.push_str("<Activities><Activity Sport=\"running\"><Id>2021-01-19T16:19:18.000Z</Id>");
    s.push_str("<Lap StartTime=\"2021-01-19T16:19:18.000Z\">");
    s.push_str("<TotalTimeSeconds>1200.5</TotalTimeSeconds>");
    s.push_str("<DistanceMeters>3000.25</DistanceMeters>");
    s.push_str("<Calories>245</Calories>");
    s.push_str("<Intensity>Active</Intensity>");
    s.push_str("<TriggerMethod>Manual</TriggerMethod>");
    s.push_str("<Track>");
    s.push_str(trackpoints);
    s.push_str("</Track></Lap></Activity></Activities></TrainingCenterDatabase>");
    s
}

#[test]
fn counts_one_activity_with_many_trackpoints() {
    // a file with one Activity, one Lap, one Track and 1232 Trackpoints
    let mut tps = String::new();
    for i in 0..1232 {
        let time = format!("2021-01-19T16:{:02}:{:02}Z", (i / 60) % 60, i % 60);
        tps.push_str(&trackpoint(&time, Some("140"), None));
    }
    let doc = document(&tps);
    let result = read(&doc).unwrap();
    let activities = result.activities.unwrap();
    assert_eq!(activities.activities.len(), 1);
    let activity = &activities.activities[0];
    assert_eq!(activity.laps.len(), 1);
    let lap = &activity.laps[0];
    assert_eq!(lap.tracks.len(), 1);
    let track = &lap.tracks[0];
    assert_eq!(track.trackpoints.len(), 1232);
}

#[test]
fn counts_many_activities() {
    // the number of Activity elements is the number of parsed activities
    let mut s = String::new();
    s.push_str("<TrainingCenterDatabase><Activities>");
    for i in 0..3 {
        s.push_str(&format!(
            "<Activity Sport=\"running\"><Id>2021-03-0{}T00:00:00Z</Id></Activity>",
            i + 1
        ));
    }
    s.push_str("</Activities></TrainingCenterDatabase>");
    let result = read(&s).unwrap();
    assert_eq!(result.activities.unwrap().activities.len(), 3);
}

#[test]
fn cadence_and_watts_extension() {
    // a Trackpoint carrying a cadence of 87 and a power extension of 216 W
    let tp = "<Trackpoint><Time>2021-03-08T18:00:00Z</Time>\
        <Cadence>87</Cadence>\
        <Extensions><ns3:TPX xmlns:ns3=\"http://www.garmin.com/xmlschemas/ActivityExtension/v2\">\
        <ns3:Watts>216</ns3:Watts></ns3:TPX></Extensions></Trackpoint>";
    let doc = document(tp);
    let result = read(&doc).unwrap();
    let activities = result.activities.unwrap();
    let tp = &activities.activities[0].laps[0].tracks[0].trackpoints[0];
    assert_eq!(tp.cadence, Some(87));
    let extensions = tp.extensions.as_ref().unwrap();
    let tpx = extensions.tpx.as_ref().unwrap();
    assert_eq!(tpx.watts, Some(216));
}

#[test]
fn lap_fields() {
    let doc = document(&trackpoint("2021-01-19T16:19:20Z", Some("140.5"), Some(80)));
    let result = read(&doc).unwrap();
    let activities = result.activities.unwrap();
    let activity = &activities.activities[0];
    assert_eq!(activity.sport, "running");
    assert_eq!(activity.id, "2021-01-19T16:19:18.000Z");
    let lap = &activity.laps[0];
    assert_eq!(lap.total_time_seconds.text, "1200.5");
    assert_eq!(lap.distance_meters.text, "3000.25");
    assert_eq!(lap.calories, 245);
    assert!(matches!(lap.intensity, Some(Intensity::Active)));
    assert!(matches!(lap.trigger_method, Some(TriggerMethod::Manual)));
    assert!(lap.maximum_speed.is_none());
    assert!(lap.average_heart_rate.is_none());
    assert!(lap.maximum_heart_rate.is_none());
    let tp = &lap.tracks[0].trackpoints[0];
    assert_eq!(tp.cadence, Some(80));
    assert_eq!(tp.heart_rate.as_ref().unwrap().value.milli, 140_500);
}

#[test]
fn unknown_tags_are_ignored() {
    // unknown tags at every level must not make the parse fail
    let tp = "<Trackpoint><Time>2021-01-19T16:19:20Z</Time>\
        <SensorState>Present</SensorState></Trackpoint>";
    let mut s = String::new();
    s.push_str("<TrainingCenterDatabase><Author>Someone</Author><Activities>");
    s.push_str("<Mystery/>");
    s.push_str("<Activity Sport=\"running\"><Id>2021-01-19T16:19:18Z</Id>");
    s.push_str("<Creator><Name>A Watch</Name></Creator>");
    s.push_str("<Lap><TotalTimeSeconds>1</TotalTimeSeconds><DistanceMeters>2</DistanceMeters>");
    s.push_str("<Calories>3</Calories><Unknown attr=\"x\">nested <b>stuff</b></Unknown>");
    s.push_str("<Track>");
    s.push_str(tp);
    s.push_str("</Track></Lap></Activity></Activities></TrainingCenterDatabase>");
    let result = read(&s).unwrap();
    let activities = result.activities.unwrap();
    assert_eq!(activities.activities[0].laps[0].tracks[0].trackpoints.len(), 1);
}

#[test]
fn unknown_attributes_are_ignored() {
    let s = "<TrainingCenterDatabase version=\"2\" other='y'>\
        <Activities/></TrainingCenterDatabase>";
    let result = read(s).unwrap();
    assert_eq!(result.activities.unwrap().activities.len(), 0);
}

#[test]
fn out_of_vocabulary_intensity_fails() {
    let doc = document("").replace("Active", "Sleeping");
    let err = read(&doc).unwrap_err();
    match err {
        TcxError::BadEnum { tag, value } => {
            assert_eq!(tag, "Intensity");
            assert_eq!(value, "Sleeping");
        },
        other => panic!("expected a vocabulary error, got {:?}", other),
    }
}

#[test]
fn missing_required_field_fails() {
    let doc = document("").replace("<Calories>245</Calories>", "");
    let err = read(&doc).unwrap_err();
    match err {
        TcxError::MissingField { tag } => assert_eq!(tag, "Calories"),
        other => panic!("expected a missing-field error, got {:?}", other),
    }
}

#[test]
fn duplicated_field_fails() {
    let doc = document("").replace(
        "<Calories>245</Calories>",
        "<Calories>245</Calories><Calories>245</Calories>",
    );
    let err = read(&doc).unwrap_err();
    match err {
        TcxError::DuplicateField { tag } => assert_eq!(tag, "Calories"),
        other => panic!("expected a duplicate-field error, got {:?}", other),
    }
}

#[test]
fn malformed_number_fails() {
    let doc = document("").replace("<Calories>245</Calories>", "<Calories>lots</Calories>");
    let err = read(&doc).unwrap_err();
    match err {
        TcxError::BadValue { tag } => assert_eq!(tag, "Calories"),
        other => panic!("expected a value error, got {:?}", other),
    }
}

#[test]
fn out_of_range_counter_fails() {
    // calories are a 16-bit counter: overflow is a mapping error
    let doc = document("").replace("<Calories>245</Calories>", "<Calories>65536</Calories>");
    assert!(matches!(read(&doc).unwrap_err(), TcxError::BadValue { .. }));
}

#[test]
fn malformed_timestamp_fails() {
    let doc = document(&trackpoint("yesterday", None, None));
    let err = read(&doc).unwrap_err();
    match err {
        TcxError::BadTimestamp { tag, value } => {
            assert_eq!(tag, "Time");
            assert_eq!(value, "yesterday");
        },
        other => panic!("expected a timestamp error, got {:?}", other),
    }
}

#[test]
fn timestamp_normalized_to_utc() {
    let doc = document(&trackpoint("2021-01-19T16:19:18.000+01:00", None, None));
    let result = read(&doc).unwrap();
    let activities = result.activities.unwrap();
    let tp = &activities.activities[0].laps[0].tracks[0].trackpoints[0];
    assert_eq!(tp.time.text, "2021-01-19T15:19:18+00:00");
}

#[test]
fn unbalanced_tags_fail() {
    let s = "<TrainingCenterDatabase><Activities></TrainingCenterDatabase>";
    assert!(matches!(read(s).unwrap_err(), TcxError::Xml));
    assert!(matches!(read("no xml at all").unwrap_err(), TcxError::Xml));
    assert!(matches!(read("").unwrap_err(), TcxError::Xml));
}

#[test]
fn empty_database_parses() {
    let result = read("<TrainingCenterDatabase/>").unwrap();
    assert!(result.activities.is_none());
    assert!(result.folders.is_none());
    assert!(result.courses.is_none());
    assert!(result.extensions.is_none());
}

#[test]
fn decimal_text_is_canonicalized() {
    let doc = document("")
        .replace("<TotalTimeSeconds>1200.5</TotalTimeSeconds>", "<TotalTimeSeconds>+007.50</TotalTimeSeconds>")
        .replace("<DistanceMeters>3000.25</DistanceMeters>", "<DistanceMeters>-0.25</DistanceMeters>");
    let result = read(&doc).unwrap();
    let activities = result.activities.unwrap();
    let lap = &activities.activities[0].laps[0];
    assert_eq!(lap.total_time_seconds.text, "7.50");
    assert_eq!(lap.distance_meters.text, "-0.25");
}

#[test]
fn position_and_entities() {
    let tp = "<Trackpoint><Time>2021-01-19T16:19:20Z</Time>\
        <Position><LatitudeDegrees>-12.5</LatitudeDegrees>\
        <LongitudeDegrees>8.25</LongitudeDegrees></Position></Trackpoint>";
    let doc = document(tp).replace("running", "trail &amp; road");
    let result = read(&doc).unwrap();
    let activities = result.activities.unwrap();
    let activity = &activities.activities[0];
    assert_eq!(activity.sport, "trail & road");
    let tp = &activity.laps[0].tracks[0].trackpoints[0];
    let pos = tp.position.as_ref().unwrap();
    assert_eq!(pos.latitude.text, "-12.5");
    assert_eq!(pos.longitude.text, "8.25");
}

#[test]
fn folders_and_course_folders() {
    let s = "<TrainingCenterDatabase><Folders>\
        <History/><Courses><CourseFolder Name=\"root\">\
        <Folder Name=\"inner\"><Notes>deep</Notes></Folder>\
        <Notes>top</Notes><CourseNameRef/></CourseFolder></Courses>\
        </Folders></TrainingCenterDatabase>";
    let result = read(s).unwrap();
    let folders = result.folders.unwrap();
    assert!(folders.history.is_some());
    assert!(folders.workouts.is_none());
    let courses = folders.courses.unwrap();
    let folder = courses.folder.unwrap();
    assert_eq!(folder.notes.as_deref(), Some("top"));
    assert!(folder.course_name_ref.is_some());
    let inner = folder.folder.as_ref().as_ref().unwrap();
    assert_eq!(inner.notes.as_deref(), Some("deep"));
    assert!(inner.folder.is_none());
}

#[test]
fn heart_rate_keeps_three_fractional_digits() {
    // heart rates carry thousandths of a beat per minute; further digits
    // carry less than a thousandth and are dropped
    let doc = document(&trackpoint("2021-01-19T16:19:20Z", Some("140.12345"), None));
    let result = read(&doc).unwrap();
    let activities = result.activities.unwrap();
    let tp = &activities.activities[0].laps[0].tracks[0].trackpoints[0];
    assert_eq!(tp.heart_rate.as_ref().unwrap().value.milli, 140_123);
}

#[test]
fn long_decimal_text_is_kept_exactly() {
    let tp = "<Trackpoint><Time>2021-01-19T16:19:20Z</Time>\
        <AltitudeMeters>123.1999969482422</AltitudeMeters></Trackpoint>";
    let doc = document(tp);
    let result = read(&doc).unwrap();
    let activities = result.activities.unwrap();
    let tp = &activities.activities[0].laps[0].tracks[0].trackpoints[0];
    assert_eq!(tp.altitude_meters.as_ref().unwrap().text, "123.1999969482422");
}

#[test]
fn comments_and_cdata_are_handled() {
    let doc = document("").replace(
        "<Calories>245</Calories>",
        "<!-- burned --><Calories>245</Calories>",
    ).replace(
        "running",
        "",
    ).replace(
        "<Id>2021-01-19T16:19:18.000Z</Id>",
        "<Id><![CDATA[rough <id> & more]]></Id>",
    );
    let result = read(&doc).unwrap();
    let activities = result.activities.unwrap();
    let activity = &activities.activities[0];
    assert_eq!(activity.id, "rough <id> & more");
    assert_eq!(activity.laps[0].calories, 245);
}

#[test]
fn duplicate_reported_before_bad_content() {
    // two occurrences of a single-valued field are a duplicate, even when
    // one of them is malformed, and an attribute counts as an occurrence
    let doc = document("").replace(
        "<Calories>245</Calories>",
        "<Calories><Stray/></Calories><Calories>245</Calories>",
    );
    assert!(matches!(
        read(&doc).unwrap_err(),
        TcxError::DuplicateField { .. }
    ));
    let doc2 = document("").replace(
        "<Lap StartTime=\"2021-01-19T16:19:18.000Z\">",
        "<Lap Calories=\"7\">",
    );
    let err = read(&doc2).unwrap_err();
    match err {
        TcxError::DuplicateField { tag } => assert_eq!(tag, "Calories"),
        other => panic!("expected a duplicate-field error, got {:?}", other),
    }
}
