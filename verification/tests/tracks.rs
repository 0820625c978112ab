use submarine::evidence::TrackError;
use submarine::protocol::TrackId;
use submarine::submarine::{AcousticProfile, ContactClassification, ObservationMode};
use submarine::tracks::Tracker;

fn book_with_two_tracks() -> Tracker {
    let mut book = Tracker::new();
    assert_eq!(book.record(None, 10, ObservationMode::Passive, AcousticProfile::LowFrequency), TrackId(0));
    assert_eq!(book.record(None, 10, ObservationMode::Active, AcousticProfile::HighFrequency), TrackId(1));
    book
}

#[test]
fn new_observations_open_tracks_with_consecutive_ids() {
    let book = book_with_two_tracks();
    let tracks = book.tracks();
    assert_eq!(tracks.len(), 2);
    assert_eq!(tracks[0].id, TrackId(0));
    assert_eq!(tracks[0].observations, 1);
    assert_eq!(tracks[0].evidence.merchant, 1);
    assert_eq!(tracks[0].evidence.escort, 0);
    assert!(!tracks[0].shared);
    assert_eq!(tracks[1].id, TrackId(1));
    assert_eq!(tracks[1].mode, ObservationMode::Active);
}

#[test]
fn a_track_is_classified_after_three_consistent_observations() {
    let mut book = Tracker::new();
    book.record(None, 1, ObservationMode::Passive, AcousticProfile::LowFrequency);
    assert_eq!(book.tracks()[0].classification(), ContactClassification::Unknown);
    assert_eq!(book.record(Some(0), 2, ObservationMode::Passive, AcousticProfile::LowFrequency), TrackId(0));
    assert_eq!(book.tracks()[0].classification(), ContactClassification::Unknown);
    book.record(Some(0), 3, ObservationMode::Passive, AcousticProfile::LowFrequency);
    let track = book.tracks()[0];
    assert_eq!(track.observations, 3);
    assert_eq!(track.last_tick, 3);
    assert_eq!(track.classification(), ContactClassification::Merchant);
}

#[test]
fn candidates_skip_same_tick_same_mode_and_stale_tracks() {
    let book = book_with_two_tracks();
    assert_eq!(book.candidates(10, ObservationMode::Passive), vec![1]);
    assert_eq!(book.candidates(10, ObservationMode::Active), vec![0]);
    assert_eq!(book.candidates(130, ObservationMode::Passive), vec![0, 1]);
    assert!(book.candidates(131, ObservationMode::Passive).is_empty());
}

#[test]
fn merging_checks_ids_then_the_arc() {
    let mut book = book_with_two_tracks();
    assert_eq!(book.merge(TrackId(0), TrackId(0), true), Err(TrackError::InvalidMerge));
    assert_eq!(book.merge(TrackId(5), TrackId(0), true), Err(TrackError::NotFound(TrackId(5))));
    assert_eq!(book.merge(TrackId(0), TrackId(6), true), Err(TrackError::NotFound(TrackId(6))));
    assert_eq!(book.merge(TrackId(0), TrackId(1), false), Err(TrackError::InvalidMerge));
    assert_eq!(book.tracks().len(), 2);
}

#[test]
fn merging_pools_the_secondary_into_the_primary() {
    let mut book = book_with_two_tracks();
    book.set_shared(TrackId(0), true).unwrap();
    book.record(Some(0), 20, ObservationMode::Passive, AcousticProfile::Mixed);
    assert_eq!(book.merge(TrackId(1), TrackId(0), true), Ok(()));
    let tracks = book.tracks();
    assert_eq!(tracks.len(), 1);
    let merged = tracks[0];
    assert_eq!(merged.id, TrackId(1));
    assert_eq!(merged.observations, 3);
    assert_eq!(merged.last_tick, 20);
    assert_eq!(merged.mode, ObservationMode::Passive);
    assert!(merged.shared);
    assert_eq!(merged.evidence.merchant, 2);
    assert_eq!(merged.evidence.escort, 2);
}

#[test]
fn sharing_and_dropping_tracks() {
    let mut book = book_with_two_tracks();
    assert_eq!(book.set_shared(TrackId(9), true), Err(TrackError::NotFound(TrackId(9))));
    assert_eq!(book.set_shared(TrackId(1), true), Ok(()));
    let shared = book.shared_tracks();
    assert_eq!(shared.len(), 1);
    assert_eq!(shared[0].id, TrackId(1));
    assert_eq!(book.drop_track(TrackId(0)), Ok(()));
    assert_eq!(book.drop_track(TrackId(0)), Err(TrackError::NotFound(TrackId(0))));
    assert_eq!(book.tracks().len(), 1);
    assert_eq!(book.tracks()[0].id, TrackId(1));
}

#[test]
fn old_or_faded_tracks_are_dropped_in_order() {
    let mut book = book_with_two_tracks();
    book.record(Some(1), 500, ObservationMode::Passive, AcousticProfile::Mixed);
    book.update(1210, &vec![true, true]);
    assert_eq!(book.tracks().len(), 2);
    book.update(1211, &vec![true, true]);
    assert_eq!(book.tracks().len(), 1);
    assert_eq!(book.tracks()[0].id, TrackId(1));
    assert_eq!(book.record(None, 1211, ObservationMode::Passive, AcousticProfile::Mixed), TrackId(2));
    book.update(1212, &vec![true, false]);
    assert_eq!(book.tracks().len(), 1);
    assert_eq!(book.tracks()[0].id, TrackId(1));
    book.update(1212, &vec![false]);
    assert!(book.tracks().is_empty());
}
