// Tests for the course entities, mapped from parsed element trees.

use tcx::mapper::map_course;
use tcx::tcx::CoursePointType;
use tcx::tcx::Intensity;
use tcx::tcx::TcxError;
use tcx::text::chars_of;
use tcx::xml::parse_document;

fn course_elem(s: &str) -> tcx::xml::Elem {
    let v = chars_of(s);
    parse_document(&v).unwrap()
}

#[test]
fn course_maps_fully() {
    let s = "<Course>\
        <CourseLap><TotalTimeSeconds>10</TotalTimeSeconds>\
        <DistanceMeters>100</DistanceMeters>\
        <BeginAltitudeMeters>2.5</BeginAltitudeMeters>\
        <EndAltitudeMeters>5.5</EndAltitudeMeters>\
        <AverageHeartRateBpm>120.5</AverageHeartRateBpm>\
        <MaximumHeartRate>150</MaximumHeartRate>\
        <Intensity>Active</Intensity><Cadence>75</Cadence></CourseLap>\
        <Track><Trackpoint><Time>2021-01-01T00:00:00Z</Time></Trackpoint></Track>\
        <CoursePoint><Name><token>7</token></Name>\
        <Time>2021-01-01T00:00:00Z</Time>\
        <PointType>Summit</PointType></CoursePoint>\
        <Creator/><Notes>hilly</Notes></Course>";
    let c = map_course(&course_elem(s)).unwrap();
    let lap = c.lap.unwrap();
    assert_eq!(lap.total_time_seconds.text, "10");
    assert_eq!(lap.begin_altitude_meters.unwrap().text, "2.5");
    assert_eq!(lap.end_altitude_meters.text, "5.5");
    assert_eq!(lap.average_heart_rate.unwrap().milli, 120_500);
    assert_eq!(lap.maximum_heart_rate.unwrap().milli, 150_000);
    assert!(matches!(lap.intensity, Some(Intensity::Active)));
    assert_eq!(lap.cadence, Some(75));
    assert!(lap.begin_position.is_none());
    let tracks = c.tracks.unwrap();
    assert_eq!(tracks.len(), 1);
    assert_eq!(tracks[0].trackpoints.len(), 1);
    let point = c.course_point.unwrap();
    assert_eq!(point.name.unwrap().token, 7);
    assert!(matches!(point.point_type, Some(CoursePointType::Summit)));
    assert!(c.creator.is_some());
    assert_eq!(c.notes.as_deref(), Some("hilly"));
}

#[test]
fn course_without_tracks_has_absent_tracks() {
    // zero Track children yield the absent state, not an empty sequence
    let c = map_course(&course_elem("<Course><Notes>flat</Notes></Course>")).unwrap();
    assert!(c.tracks.is_none());
    assert!(c.lap.is_none());
    assert!(c.course_point.is_none());
}

#[test]
fn course_point_type_out_of_vocabulary_fails() {
    let s = "<Course><CoursePoint><Time>2021-01-01T00:00:00Z</Time>\
        <PointType>Flying</PointType></CoursePoint></Course>";
    let err = map_course(&course_elem(s)).unwrap_err();
    match err {
        TcxError::BadEnum { tag, value } => {
            assert_eq!(tag, "PointType");
            assert_eq!(value, "Flying");
        },
        other => panic!("expected a vocabulary error, got {:?}", other),
    }
}

#[test]
fn course_point_without_time_fails() {
    let s = "<Course><CoursePoint><PointType>Water</PointType></CoursePoint></Course>";
    assert!(matches!(
        map_course(&course_elem(s)).unwrap_err(),
        TcxError::MissingField { .. }
    ));
}
