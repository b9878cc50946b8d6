// Tests for the JSON rendering, checked against an independent JSON
// parser.

use serde_json::Value;
use tcx::read;
use tcx::tcx::Bpm;

fn sample_document() -> String {
    let mut s = String::new();
    s.push_str("<TrainingCenterDatabase><Activities>");
    s.push_str("<Activity Sport=\"biking\"><Id>2021-03-08T18:00:00Z</Id>");
    s.push_str("<Lap><TotalTimeSeconds>360.5</TotalTimeSeconds>");
    s.push_str("<DistanceMeters>2000.75</DistanceMeters><Calories>99</Calories>");
    s.push_str("<Intensity>Resting</Intensity><Track>");
    s.push_str("<Trackpoint><Time>2021-03-08T18:00:00Z</Time>");
    s.push_str("<HeartRateBpm><Value>120</Value></HeartRateBpm>");
    s.push_str("<Cadence>87</Cadence>");
    s.push_str("<Position><LatitudeDegrees>-1.5</LatitudeDegrees><LongitudeDegrees>2.25</LongitudeDegrees></Position>");
    s.push_str("<Extensions><TPX><Watts>216</Watts></TPX></Extensions>");
    s.push_str("</Trackpoint>");
    s.push_str("<Trackpoint><Time>2021-03-08T18:00:01Z</Time>");
    s.push_str("<HeartRateBpm><Value>121</Value></HeartRateBpm></Trackpoint>");
    s.push_str("</Track><Notes>easy \"ride\"</Notes></Lap>");
    s.push_str("</Activity></Activities></TrainingCenterDatabase>");
    s
}

#[test]
fn json_round_trip_preserves_fields() {
    // parse, aggregate, export to JSON, and read the JSON back through an
    // independent loader: the data must match the in-memory model field
    // for field, aggregated values included
    let mut db = read(&sample_document()).unwrap();
    db.calc_heartrates();
    let text = db.to_json();
    let v: Value = serde_json::from_str(&text).unwrap();

    let activity = &v["Activities"]["Activity"][0];
    assert_eq!(activity["Sport"], Value::String("biking".to_string()));
    assert_eq!(activity["Id"], Value::String("2021-03-08T18:00:00Z".to_string()));

    let lap = &activity["Lap"][0];
    assert_eq!(lap["TotalTimeSeconds"].as_f64().unwrap(), 360.5);
    assert_eq!(lap["DistanceMeters"].as_f64().unwrap(), 2000.75);
    assert_eq!(lap["Calories"].as_u64().unwrap(), 99);
    assert_eq!(lap["Intensity"], Value::String("Resting".to_string()));
    assert_eq!(lap["MaximumSpeed"], Value::Null);
    assert_eq!(lap["Notes"], Value::String("easy \"ride\"".to_string()));

    // the aggregated fields: max of 120 and 121, average 120.5
    let model_lap = &db.activities.as_ref().unwrap().activities[0].laps[0];
    assert_eq!(model_lap.maximum_heart_rate, Some(Bpm { milli: 121_000 }));
    assert_eq!(model_lap.average_heart_rate, Some(Bpm { milli: 120_500 }));
    assert_eq!(lap["MaximumHeartRate"].as_f64().unwrap(), 121.0);
    assert_eq!(lap["AverageHeartRate"].as_f64().unwrap(), 120.5);

    let tps = lap["Track"][0]["Trackpoint"].as_array().unwrap();
    assert_eq!(tps.len(), 2);
    let tp = &tps[0];
    assert_eq!(tp["Time"], Value::String("2021-03-08T18:00:00+00:00".to_string()));
    assert_eq!(tp["Cadence"].as_u64().unwrap(), 87);
    assert_eq!(tp["HeartRateBpm"]["Value"].as_f64().unwrap(), 120.0);
    assert_eq!(tp["Position"]["LatitudeDegrees"].as_f64().unwrap(), -1.5);
    assert_eq!(tp["Position"]["LongitudeDegrees"].as_f64().unwrap(), 2.25);
    assert_eq!(tp["Extensions"]["TPX"]["Watts"].as_u64().unwrap(), 216);
    assert_eq!(tp["Extensions"]["TPX"]["Speed"], Value::Null);
    assert_eq!(tps[1]["Cadence"], Value::Null);

    // the model cadence and watts match what the loader sees
    let model_tp = &model_lap.tracks[0].trackpoints[0];
    assert_eq!(model_tp.cadence, Some(87));
    assert_eq!(
        model_tp.extensions.as_ref().unwrap().tpx.as_ref().unwrap().watts,
        Some(216)
    );
}

#[test]
fn empty_database_renders_nulls() {
    let db = read("<TrainingCenterDatabase/>").unwrap();
    let text = db.to_json();
    let v: Value = serde_json::from_str(&text).unwrap();
    assert_eq!(v["Activities"], Value::Null);
    assert_eq!(v["Folders"], Value::Null);
    assert_eq!(v["Courses"], Value::Null);
    assert_eq!(v["Extensions"], Value::Null);
}

#[test]
fn folders_render_round_trip() {
    let s = "<TrainingCenterDatabase><Folders><History/>\
        <Courses><CourseFolder><Folder><Notes>deep</Notes></Folder></CourseFolder></Courses>\
        </Folders></TrainingCenterDatabase>";
    let db = read(s).unwrap();
    let v: Value = serde_json::from_str(&db.to_json()).unwrap();
    let folders = &v["Folders"];
    assert!(folders["History"].is_object());
    assert_eq!(folders["Workouts"], Value::Null);
    let cf = &folders["Courses"]["CourseFolder"];
    assert_eq!(cf["Folder"]["Notes"], Value::String("deep".to_string()));
    assert_eq!(cf["Folder"]["Folder"], Value::Null);
}

#[test]
fn json_string_escaping() {
    let doc = format!(
        "<TrainingCenterDatabase><Activities>\
         <Activity Sport=\"x\"><Id>a&quot;b\\c{}d</Id></Activity>\
         </Activities></TrainingCenterDatabase>",
        '\u{1}'
    );
    let db = read(&doc).unwrap();
    let v: Value = serde_json::from_str(&db.to_json()).unwrap();
    assert_eq!(
        v["Activities"]["Activity"][0]["Id"],
        Value::String("a\"b\\c\u{1}d".to_string())
    );
}
