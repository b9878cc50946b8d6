// Tests for the heart-rate aggregation pass.

use tcx::read;
use tcx::tcx::ActivityLap;
use tcx::tcx::Bpm;
use tcx::tcx::Decimal;
use tcx::tcx::HeartRate;
use tcx::tcx::Timestamp;
use tcx::tcx::Track;
use tcx::tcx::Trackpoint;

fn point(hr: Option<u32>) -> Trackpoint {
    Trackpoint {
        time: Timestamp { text: String::from("2021-01-19T16:19:18+00:00") },
        position: None,
        altitude_meters: None,
        distance_meters: None,
        heart_rate: hr.map(|milli| HeartRate { value: Bpm { milli } }),
        cadence: None,
        extensions: None,
    }
}

fn lap(tracks: Vec<Track>) -> ActivityLap {
    ActivityLap {
        total_time_seconds: Decimal { text: String::from("60") },
        distance_meters: Decimal { text: String::from("100") },
        maximum_speed: None,
        calories: 10,
        average_heart_rate: None,
        maximum_heart_rate: None,
        intensity: None,
        cadence: None,
        trigger_method: None,
        tracks,
        notes: None,
        extensions: None,
    }
}

#[test]
fn no_samples_leaves_both_absent() {
    // trackpoints exist, but none has a heart-rate sample
    let mut l = lap(vec![Track { trackpoints: vec![point(None), point(None)] }]);
    l.calc_heartrates();
    assert!(l.average_heart_rate.is_none());
    assert!(l.maximum_heart_rate.is_none());
}

#[test]
fn no_trackpoints_leaves_both_absent() {
    let mut l = lap(vec![Track { trackpoints: vec![] }]);
    l.calc_heartrates();
    assert!(l.average_heart_rate.is_none());
    assert!(l.maximum_heart_rate.is_none());
}

#[test]
fn recomputation_overwrites_stale_values() {
    // re-invoking the pass recomputes from the trackpoints alone
    let mut l = lap(vec![Track { trackpoints: vec![point(None)] }]);
    l.average_heart_rate = Some(Bpm { milli: 99_000 });
    l.maximum_heart_rate = Some(Bpm { milli: 99_000 });
    l.calc_heartrates();
    assert!(l.average_heart_rate.is_none());
    assert!(l.maximum_heart_rate.is_none());
}

#[test]
fn max_and_average_over_present_samples() {
    // samples 140, 150 and 160 bpm; points without a sample are skipped
    let mut l = lap(vec![
        Track { trackpoints: vec![point(Some(140_000)), point(None)] },
        Track { trackpoints: vec![point(Some(160_000)), point(Some(150_000))] },
    ]);
    l.calc_heartrates();
    assert_eq!(l.maximum_heart_rate, Some(Bpm { milli: 160_000 }));
    assert_eq!(l.average_heart_rate, Some(Bpm { milli: 150_000 }));
}

#[test]
fn average_keeps_thousandths() {
    // 140 and 141 bpm average to 140.5 bpm
    let mut l = lap(vec![Track { trackpoints: vec![point(Some(140_000)), point(Some(141_000))] }]);
    l.calc_heartrates();
    assert_eq!(l.average_heart_rate, Some(Bpm { milli: 140_500 }));
    assert_eq!(l.maximum_heart_rate, Some(Bpm { milli: 141_000 }));
}

#[test]
fn single_zero_sample_is_kept() {
    // a present sample of 0 bpm is data, not absence
    let mut l = lap(vec![Track { trackpoints: vec![point(Some(0))] }]);
    l.calc_heartrates();
    assert_eq!(l.average_heart_rate, Some(Bpm { milli: 0 }));
    assert_eq!(l.maximum_heart_rate, Some(Bpm { milli: 0 }));
}

#[test]
fn whole_database_aggregation() {
    let mut s = String::new();
    s.push_str("<TrainingCenterDatabase><Activities>");
    s.push_str("<Activity Sport=\"running\"><Id>2021-01-19T16:19:18Z</Id>");
    s.push_str("<Lap><TotalTimeSeconds>1</TotalTimeSeconds><DistanceMeters>2</DistanceMeters><Calories>3</Calories><Track>");
    s.push_str("<Trackpoint><Time>2021-01-19T16:19:18Z</Time><HeartRateBpm><Value>120</Value></HeartRateBpm></Trackpoint>");
    s.push_str("<Trackpoint><Time>2021-01-19T16:19:19Z</Time><HeartRateBpm><Value>130</Value></HeartRateBpm></Trackpoint>");
    s.push_str("<Trackpoint><Time>2021-01-19T16:19:20Z</Time></Trackpoint>");
    s.push_str("</Track></Lap>");
    s.push_str("<Lap><TotalTimeSeconds>1</TotalTimeSeconds><DistanceMeters>2</DistanceMeters><Calories>3</Calories></Lap>");
    s.push_str("</Activity></Activities></TrainingCenterDatabase>");
    let mut db = read(&s).unwrap();
    db.calc_heartrates();
    let activities = db.activities.unwrap();
    let laps = &activities.activities[0].laps;
    assert_eq!(laps[0].average_heart_rate, Some(Bpm { milli: 125_000 }));
    assert_eq!(laps[0].maximum_heart_rate, Some(Bpm { milli: 130_000 }));
    assert!(laps[1].average_heart_rate.is_none());
    assert!(laps[1].maximum_heart_rate.is_none());
}

#[test]
fn database_without_activities_is_unchanged() {
    let mut db = read("<TrainingCenterDatabase/>").unwrap();
    db.calc_heartrates();
    assert!(db.activities.is_none());
}
