use openhero::clock::{clamp, is_warmed_up, SongClock, LEAD_IN};
use openhero::controllers::{
    button_lane, capture, Axis, Button, ControllerEvent, ControllerEventType, Report, Roster,
};
use openhero::engine::{
    handle_event, handle_inputs, FrameReport, FretState, Strikeline, FULL_HEIGHT, HIT_BACK,
    HIT_FRONT,
};
use macroquad::math::vec2;
use openhero::render::{
    fret_flipped, fret_layers, fret_textures, gems, triangulate_polygon, FretLayer, Gem, GemKind,
    OPEN_LANE,
};
use openhero::song::Note;
use openhero::timeline::{is_after, is_before, Timeline};

fn note(time: u128, frets: u8) -> Note {
    Note { tick: (time / 1000) as usize, frets, length: [0; 8], time }
}

fn press(button: Button, timestamp: u128) -> ControllerEvent {
    ControllerEvent { controller: 0, event: ControllerEventType::ButtonPressed(button), timestamp }
}

fn release(button: Button, timestamp: u128) -> ControllerEvent {
    ControllerEvent { controller: 0, event: ControllerEventType::ButtonReleased(button), timestamp }
}

fn heights(strikeline: &Strikeline) -> [u32; 5] {
    [
        strikeline.frets[0].height,
        strikeline.frets[1].height,
        strikeline.frets[2].height,
        strikeline.frets[3].height,
        strikeline.frets[4].height,
    ]
}

fn times(timeline: &Timeline) -> Vec<u128> {
    (0..timeline.len()).map(|i| timeline.get(i).unwrap().time).collect()
}

#[test]
fn the_hit_window_is_seventy_milliseconds_each_way() {
    assert_eq!(HIT_FRONT, 70_000);
    assert_eq!(HIT_BACK, 70_000);
    let at = 2_000_000u128;
    for (stamp, hit) in [
        (at, true),
        (at + 70_000, true),
        (at - 70_000, true),
        (at + 71_000, false),
        (at - 71_000, false),
        (at + 70_001, false),
        (at - 70_001, false),
    ] {
        let mut timeline = Timeline::new(&vec![note(at, 0b1)]).unwrap();
        let mut strikeline = Strikeline::new();
        let found = handle_event(&mut strikeline, &mut timeline, &press(Button::West, stamp), 0);
        assert_eq!(found.is_some(), hit, "edge at {}", stamp);
        assert_eq!(timeline.len(), if hit { 0 } else { 1 });
    }
}

#[test]
fn only_the_exact_chord_hits() {
    let chord = 0b0000_0101;
    let mut timeline = Timeline::new(&vec![note(1_000_000, chord)]).unwrap();
    let mut strikeline = Strikeline::new();
    assert!(handle_event(&mut strikeline, &mut timeline, &press(Button::West, 1_000_000), 0)
        .is_none());
    assert_eq!(strikeline.pressed, 0b001);
    assert_eq!(timeline.len(), 1);
    assert!(handle_event(&mut strikeline, &mut timeline, &press(Button::South, 1_000_010), 0)
        .is_none());
    assert!(handle_event(&mut strikeline, &mut timeline, &press(Button::North, 1_000_020), 0)
        .is_none());
    assert_eq!(strikeline.pressed, 0b111);
    assert_eq!(timeline.len(), 1);
    assert_eq!(heights(&strikeline), [0; 5]);
    let hit = handle_event(&mut strikeline, &mut timeline, &release(Button::South, 1_000_030), 0);
    assert_eq!(hit, Some(note(1_000_000, chord)));
    assert_eq!(strikeline.pressed, 0b101);
    assert_eq!(timeline.len(), 0);
    assert_eq!(heights(&strikeline), [FULL_HEIGHT, 0, FULL_HEIGHT, 0, 0]);
}

#[test]
fn any_event_is_tried_against_the_notes() {
    let mut timeline = Timeline::new(&vec![note(500_000, 0b10000)]).unwrap();
    let mut strikeline = Strikeline::new();
    strikeline.pressed = 0b10000;
    let strum = press(Button::DPadDown, 430_000);
    assert!(handle_event(&mut strikeline, &mut timeline, &strum, 0).is_some());
    assert_eq!(heights(&strikeline), [0, 0, 0, 0, FULL_HEIGHT]);
    let mut timeline = Timeline::new(&vec![note(500_000, 0)]).unwrap();
    let mut strikeline = Strikeline::new();
    let moved = ControllerEvent {
        controller: 3,
        event: ControllerEventType::AxisMotion { axis: Axis::LeftStickX },
        timestamp: 570_000,
    };
    assert!(handle_event(&mut strikeline, &mut timeline, &moved, 0).is_some());
    assert_eq!(heights(&strikeline), [0; 5]);
}

#[test]
fn an_open_note_lights_every_lane() {
    let mut timeline = Timeline::new(&vec![note(100, 0b1000_0000)]).unwrap();
    let mut strikeline = Strikeline::new();
    strikeline.pressed = 0b1000_0000;
    let connected = ControllerEvent {
        controller: 1,
        event: ControllerEventType::ControllerConnected,
        timestamp: 100,
    };
    assert!(handle_event(&mut strikeline, &mut timeline, &connected, 0).is_some());
    assert_eq!(heights(&strikeline), [FULL_HEIGHT; 5]);
}

#[test]
fn the_first_note_in_the_window_is_the_one_that_counts() {
    let mut timeline =
        Timeline::new(&vec![note(1_000_000, 0b10), note(1_050_000, 0b1), note(3_000_000, 0b1)])
            .unwrap();
    let mut strikeline = Strikeline::new();
    assert!(handle_event(&mut strikeline, &mut timeline, &press(Button::West, 1_040_000), 0)
        .is_none());
    assert_eq!(times(&timeline), vec![1_000_000, 1_050_000, 3_000_000]);
    assert!(handle_event(&mut strikeline, &mut timeline, &press(Button::West, 1_100_000), 0)
        .is_some());
    assert_eq!(times(&timeline), vec![1_000_000, 3_000_000]);
}

#[test]
fn the_offset_moves_an_edge_onto_the_song_clock() {
    let mut timeline = Timeline::new(&vec![note(1_000_000, 0b1)]).unwrap();
    let mut strikeline = Strikeline::new();
    assert!(handle_event(&mut strikeline, &mut timeline, &press(Button::West, 6_000_000), 0)
        .is_none());
    assert!(handle_event(
        &mut strikeline,
        &mut timeline,
        &press(Button::West, 6_000_000),
        -5_000_000
    )
    .is_some());
    let mut timeline = Timeline::new(&vec![note(1_000_000, 0b1)]).unwrap();
    assert!(handle_event(&mut strikeline, &mut timeline, &press(Button::West, 0), 929_999)
        .is_none());
    assert!(handle_event(&mut strikeline, &mut timeline, &press(Button::West, 0), 930_000)
        .is_some());
    let mut timeline = Timeline::new(&vec![note(10, 0b1)]).unwrap();
    assert!(handle_event(&mut strikeline, &mut timeline, &press(Button::West, 0), -70_000)
        .is_none());
    assert!(handle_event(&mut strikeline, &mut timeline, &press(Button::West, 0), -69_990)
        .is_some());
    let mut timeline = Timeline::new(&vec![note(u128::MAX, 0b1)]).unwrap();
    assert!(handle_event(&mut strikeline, &mut timeline, &press(Button::West, 5), i64::MAX)
        .is_none());
    assert!(handle_event(
        &mut strikeline,
        &mut timeline,
        &press(Button::West, u128::MAX - 70_000),
        0
    )
    .is_some());
}

#[test]
fn buttons_play_their_lanes() {
    assert_eq!(button_lane(Button::West), Some(0));
    assert_eq!(button_lane(Button::South), Some(1));
    assert_eq!(button_lane(Button::North), Some(2));
    assert_eq!(button_lane(Button::East), Some(3));
    assert_eq!(button_lane(Button::LeftTrigger), Some(4));
    assert_eq!(button_lane(Button::RightTrigger), None);
    assert_eq!(button_lane(Button::Start), None);
    let mut strikeline = Strikeline::new();
    for button in [Button::West, Button::South, Button::North, Button::East, Button::LeftTrigger] {
        strikeline.apply(ControllerEventType::ButtonPressed(button));
    }
    assert_eq!(strikeline.pressed, 0b11111);
    strikeline.apply(ControllerEventType::ButtonPressed(Button::Select));
    strikeline.apply(ControllerEventType::ButtonReleased(Button::Z));
    strikeline.apply(ControllerEventType::ControllerDisconnected);
    assert_eq!(strikeline.pressed, 0b11111);
    strikeline.apply(ControllerEventType::ButtonReleased(Button::North));
    assert_eq!(strikeline.pressed, 0b11011);
    strikeline.apply(ControllerEventType::ButtonReleased(Button::North));
    assert_eq!(strikeline.pressed, 0b11011);
    strikeline.apply(ControllerEventType::ButtonReleased(Button::LeftTrigger));
    assert_eq!(strikeline.pressed, 0b01011);
}

#[test]
fn frets_sink_ten_units_a_microsecond() {
    let mut strikeline = Strikeline::new();
    strikeline.frets = [
        FretState { height: FULL_HEIGHT },
        FretState { height: 500_000 },
        FretState { height: 0 },
        FretState { height: 9 },
        FretState { height: u32::MAX },
    ];
    strikeline.pressed = 0b101;
    strikeline.decay(16_000);
    assert_eq!(heights(&strikeline), [840_000, 340_000, 0, 0, u32::MAX - 160_000]);
    assert_eq!(strikeline.pressed, 0b101);
    strikeline.decay(84_000);
    assert_eq!(heights(&strikeline), [0, 0, 0, 0, u32::MAX - 1_000_000]);
    strikeline.decay(u64::MAX);
    assert_eq!(heights(&strikeline), [0; 5]);
    strikeline.light(0b1_0010);
    strikeline.decay(0);
    assert_eq!(heights(&strikeline), [0, FULL_HEIGHT, 0, 0, FULL_HEIGHT]);
}

#[test]
fn a_frame_decays_plays_and_expires() {
    let mut timeline = Timeline::new(&vec![
        note(100_000, 0b1),
        note(900_000, 0b10),
        note(1_000_000, 0b1),
        note(1_200_000, 0b11),
        note(5_000_000, 0b1),
    ])
    .unwrap();
    let mut strikeline = Strikeline::new();
    strikeline.frets[3].height = FULL_HEIGHT;
    let events = vec![
        press(Button::West, 2_000_000),
        press(Button::South, 2_190_000),
        release(Button::South, 2_200_000),
        press(Button::Mode, 2_210_000),
    ];
    let report = handle_inputs(&events, &mut strikeline, -1_000_000, 20_000, 950_000, &mut timeline);
    assert_eq!(report, FrameReport { hits: 2, misses: 2, expired: 2 });
    assert_eq!(times(&timeline), vec![5_000_000]);
    assert_eq!(strikeline.pressed, 0b1);
    assert_eq!(heights(&strikeline), [FULL_HEIGHT, FULL_HEIGHT, 0, 800_000, 0]);
}

#[test]
fn a_note_that_went_by_is_gone_for_good() {
    let mut timeline = Timeline::new(&vec![note(1_000_000, 0b1), note(2_000_000, 0b1)]).unwrap();
    let mut strikeline = Strikeline::new();
    let none = Vec::new();
    let report = handle_inputs(&none, &mut strikeline, 0, 16_000, 1_000_000, &mut timeline);
    assert_eq!(report, FrameReport { hits: 0, misses: 0, expired: 0 });
    assert_eq!(timeline.len(), 2);
    let report = handle_inputs(&none, &mut strikeline, 0, 16_000, 1_000_001, &mut timeline);
    assert_eq!(report, FrameReport { hits: 0, misses: 0, expired: 1 });
    assert_eq!(times(&timeline), vec![2_000_000]);
    let late = vec![press(Button::West, 1_000_000)];
    let report = handle_inputs(&late, &mut strikeline, 0, 16_000, 1_000_001, &mut timeline);
    assert_eq!(report, FrameReport { hits: 0, misses: 1, expired: 0 });
    assert_eq!(times(&timeline), vec![2_000_000]);
    let report = handle_inputs(&none, &mut strikeline, 0, 16_000, -5, &mut timeline);
    assert_eq!(report.expired, 0);
    let report = handle_inputs(&none, &mut strikeline, 0, 16_000, i128::MAX, &mut timeline);
    assert_eq!(report.expired, 1);
    assert!(timeline.is_empty());
    let report = handle_inputs(&late, &mut strikeline, 0, 16_000, i128::MAX, &mut timeline);
    assert_eq!(report, FrameReport { hits: 0, misses: 1, expired: 0 });
}

#[test]
fn a_timeline_wants_its_notes_in_time_order() {
    assert!(Timeline::new(&vec![note(2, 1), note(1, 1)]).is_none());
    assert!(Timeline::new(&vec![note(1, 1), note(2, 1), note(2, 2), note(1, 4)]).is_none());
    let empty = Timeline::new(&Vec::new()).unwrap();
    assert!(empty.is_empty());
    assert_eq!(empty.len(), 0);
    assert!(empty.get(0).is_none());
    let timeline = Timeline::new(&vec![note(1, 1), note(2, 2), note(2, 4), note(9, 8)]).unwrap();
    assert_eq!(timeline.len(), 4);
    assert!(!timeline.is_empty());
    assert_eq!(timeline.get(0), Some(&note(1, 1)));
    assert_eq!(timeline.get(2), Some(&note(2, 4)));
    assert_eq!(timeline.get(3), Some(&note(9, 8)));
    assert_eq!(timeline.get(4), None);
}

#[test]
fn removing_keeps_the_others_in_order() {
    let mut timeline =
        Timeline::new(&vec![note(1, 1), note(2, 2), note(3, 4), note(4, 8)]).unwrap();
    assert_eq!(timeline.remove(4), None);
    assert_eq!(timeline.remove(1), Some(note(2, 2)));
    assert_eq!(times(&timeline), vec![1, 3, 4]);
    assert_eq!(timeline.remove(2), Some(note(4, 8)));
    assert_eq!(timeline.remove(0), Some(note(1, 1)));
    assert_eq!(times(&timeline), vec![3]);
    assert_eq!(timeline.remove(0), Some(note(3, 4)));
    assert_eq!(timeline.remove(0), None);
}

#[test]
fn windows_on_the_timeline() {
    let timeline =
        Timeline::new(&vec![note(10, 1), note(20, 2), note(20, 4), note(30, 8), note(50, 1)])
            .unwrap();
    assert_eq!(timeline.first_within(0, 20, 30), Some(1));
    assert_eq!(timeline.first_within(20, 0, 0), Some(1));
    assert_eq!(timeline.first_within(25, -5, 5), Some(1));
    assert_eq!(timeline.first_within(25, -4, 4), None);
    assert_eq!(timeline.first_within(0, 31, 49), None);
    assert_eq!(timeline.first_within(0, 51, 100), None);
    assert_eq!(timeline.first_within(0, -100, 9), None);
    assert_eq!(timeline.first_within(0, 30, 20), None);
    assert_eq!(timeline.first_within(100, -50, -50), Some(4));
    assert_eq!(timeline.visible(20, 30), (1, 4));
    assert_eq!(timeline.visible(-5, 10), (0, 1));
    assert_eq!(timeline.visible(11, 19), (1, 1));
    assert_eq!(timeline.visible(0, 1000), (0, 5));
    assert_eq!(timeline.visible(51, 1000), (5, 5));
    assert_eq!(timeline.visible(30, 20), (3, 3));
    let mut timeline = timeline;
    assert_eq!(timeline.expire(20), 1);
    assert_eq!(timeline.expire(20), 0);
    assert_eq!(timeline.expire(21), 2);
    assert_eq!(times(&timeline), vec![30, 50]);
    assert_eq!(timeline.expire(1000), 2);
    assert_eq!(timeline.expire(1000), 0);
}

#[test]
fn times_are_compared_across_the_whole_range() {
    assert!(is_before(5, 0, 6));
    assert!(!is_before(5, 0, 5));
    assert!(!is_before(0, 0, -1));
    assert!(!is_before(0, 0, i128::MIN));
    assert!(is_before(0, u128::MAX, i128::MIN));
    assert!(is_before(u128::MAX - 1, u128::MAX, 0));
    assert!(!is_before(u128::MAX, u128::MAX, 0));
    assert!(is_before(u128::MAX, u128::MAX, 1));
    assert!(is_before(9, 10, 0));
    assert!(!is_before(9, 10, -1));
    assert!(is_before(8, 10, -1));
    assert!(is_after(5, 0, 4));
    assert!(!is_after(5, 0, 5));
    assert!(is_after(0, 0, -1));
    assert!(is_after(0, 0, i128::MIN));
    assert!(!is_after(0, u128::MAX, i128::MIN));
    assert!(is_after(u128::MAX, 0, i128::MAX));
    assert!(!is_after(9, 10, -1));
    assert!(is_after(9, 10, -2));
    assert!(!is_after(8, 10, -2));
}

#[test]
fn the_clocks_are_tied_after_the_warm_up() {
    assert!(!is_warmed_up(0));
    assert!(!is_warmed_up(2));
    assert!(is_warmed_up(3));
    let mut clock = SongClock::new();
    assert_eq!(clock.time, LEAD_IN);
    assert_eq!(clock.time, -5_000_000);
    assert_eq!(clock.offset_at(700_000), -5_700_000);
    for reading in [200_000u64, 450_000, 700_000] {
        assert!(!clock.end_frame(reading));
        assert_eq!(clock.time, LEAD_IN);
        assert_eq!(clock.time_offset, None);
    }
    assert_eq!(clock.frame_count, 3);
    assert!(!clock.end_frame(716_000));
    assert_eq!(clock.time_offset, Some(-5_716_000));
    assert_eq!(clock.time, -5_000_000);
    assert!(!clock.end_frame(732_500));
    assert_eq!(clock.time_offset, Some(-5_716_000));
    assert_eq!(clock.time, -4_983_500);
    assert_eq!(clock.offset_at(1), -5_716_000);
    assert!(!clock.end_frame(5_715_999));
    assert!(!clock.audio_playing);
    assert!(clock.end_frame(5_716_000));
    assert!(clock.audio_playing);
    assert_eq!(clock.time, 0);
    assert!(!clock.end_frame(5_800_000));
    assert!(clock.audio_playing);
    assert_eq!(clock.time, 84_000);
    assert_eq!(clock.frame_count, 8);
}

#[test]
fn the_clock_stays_within_its_range() {
    assert_eq!(clamp(i128::MAX), i64::MAX);
    assert_eq!(clamp(i128::MIN), i64::MIN);
    assert_eq!(clamp(-7), -7);
    let mut clock =
        SongClock { time: i64::MIN, time_offset: None, frame_count: u64::MAX, audio_playing: false };
    assert!(clock.end_frame(u64::MAX));
    assert!(clock.audio_playing);
    assert_eq!(clock.time_offset, Some(i64::MIN));
    assert_eq!(clock.time, i64::MAX);
    assert_eq!(clock.frame_count, u64::MAX);
    let mut clock =
        SongClock { time: 5, time_offset: Some(i64::MAX), frame_count: 9, audio_playing: true };
    assert!(!clock.end_frame(u64::MAX));
    assert_eq!(clock.time, i64::MAX);
    assert!(clock.audio_playing);
}

#[test]
fn a_polygon_is_cut_into_a_fan() {
    let corners: Vec<_> = (0..6).map(|i| vec2(i as f32, (i * i) as f32)).collect();
    assert_eq!(triangulate_polygon(&corners[..0]), Vec::<[usize; 3]>::new());
    assert_eq!(triangulate_polygon(&corners[..2]), Vec::<[usize; 3]>::new());
    assert_eq!(triangulate_polygon(&corners[..3]), vec![[0, 1, 2]]);
    assert_eq!(triangulate_polygon(&corners[..4]), vec![[0, 1, 2], [0, 2, 3]]);
    assert_eq!(
        triangulate_polygon(&corners),
        vec![[0, 1, 2], [0, 2, 3], [0, 3, 4], [0, 4, 5]]
    );
}

#[test]
fn gems_and_fret_layers() {
    let gem = |kind, lane| Gem { kind, lane };
    assert_eq!(gems(&note(0, 0), false, false), Vec::new());
    assert_eq!(
        gems(&note(0, 0b0001_0101), false, false),
        vec![gem(GemKind::Note, 0), gem(GemKind::Note, 2), gem(GemKind::Note, 4)]
    );
    assert_eq!(
        gems(&note(0, 0b0010_0010), true, true),
        vec![gem(GemKind::Hopo, 1)]
    );
    assert_eq!(
        gems(&note(0, 0b0100_1000), true, false),
        vec![gem(GemKind::Tap, 3)]
    );
    assert_eq!(
        gems(&note(0, 0b0100_1000), false, true),
        vec![gem(GemKind::WorTap, 3)]
    );
    assert_eq!(gems(&note(0, 0b1000_0000), false, true), vec![gem(GemKind::Open, OPEN_LANE)]);
    assert_eq!(gems(&note(0, 0b1000_0000), true, false), vec![gem(GemKind::OpenHopo, 6)]);
    assert_eq!(
        gems(&note(0, 0b1100_0001), false, false),
        vec![gem(GemKind::OpenHopo, 6), gem(GemKind::Tap, 0)]
    );
    assert_eq!(
        [0, 1, 2, 3, 4, 5].map(fret_textures),
        [0, 1, 2, 1, 0, 2]
    );
    assert_eq!([0, 2, 3, 4].map(fret_flipped), [false, false, true, true]);
    assert_eq!(fret_layers(0, true), vec![FretLayer::Pressed]);
    assert_eq!(
        fret_layers(1, true),
        vec![FretLayer::Shell, FretLayer::Piston, FretLayer::FretPressed, FretLayer::Ring]
    );
    assert_eq!(
        fret_layers(0, false),
        vec![FretLayer::Shell, FretLayer::Piston, FretLayer::Fret, FretLayer::Ring]
    );
}

#[test]
fn reports_are_passed_on_and_the_roster_is_kept() {
    let mut roster = Roster::new();
    assert!(!roster.contains(4));
    assert_eq!(roster.ids(), Vec::<usize>::new());
    assert_eq!(
        capture(&mut roster, 4, Report::Connected, 10),
        Some(ControllerEvent {
            controller: 4,
            event: ControllerEventType::ControllerConnected,
            timestamp: 10
        })
    );
    assert!(roster.contains(4));
    roster.connect(9);
    roster.connect(4);
    roster.connect(0);
    assert_eq!(roster.ids(), vec![4, 9, 0]);
    assert_eq!(
        capture(&mut roster, 9, Report::ButtonPressed(Button::East), 11),
        Some(press(Button::East, 11)).map(|event| ControllerEvent { controller: 9, ..event })
    );
    assert_eq!(
        capture(&mut roster, 0, Report::ButtonReleased(Button::Start), 12),
        Some(release(Button::Start, 12))
    );
    assert_eq!(
        capture(&mut roster, 7, Report::AxisChanged(Axis::DPadY), 13),
        Some(ControllerEvent {
            controller: 7,
            event: ControllerEventType::AxisMotion { axis: Axis::DPadY },
            timestamp: 13
        })
    );
    assert_eq!(capture(&mut roster, 9, Report::ButtonRepeated(Button::East), 14), None);
    assert_eq!(capture(&mut roster, 9, Report::ButtonChanged(Button::East), 15), None);
    assert_eq!(capture(&mut roster, 9, Report::Dropped, 16), None);
    assert_eq!(capture(&mut roster, 9, Report::Other, 17), None);
    assert_eq!(roster.ids(), vec![4, 9, 0]);
    assert_eq!(
        capture(&mut roster, 9, Report::Disconnected, 18),
        Some(ControllerEvent {
            controller: 9,
            event: ControllerEventType::ControllerDisconnected,
            timestamp: 18
        })
    );
    assert_eq!(roster.ids(), vec![4, 0]);
    assert!(!roster.contains(9));
    roster.disconnect(9);
    roster.disconnect(4);
    roster.disconnect(4);
    assert_eq!(roster.ids(), vec![0]);
    roster.disconnect(0);
    assert_eq!(roster.ids(), Vec::<usize>::new());
}

#[test]
fn notes_are_put_into_time_order() {
    let mixed = vec![note(30, 1), note(10, 2), note(30, 4), note(20, 8), note(10, 16), note(0, 32)];
    let timeline = Timeline::in_time_order(&mixed);
    assert_eq!(times(&timeline), vec![0, 10, 10, 20, 30, 30]);
    let frets: Vec<u8> = (0..timeline.len()).map(|i| timeline.get(i).unwrap().frets).collect();
    assert_eq!(frets, vec![32, 2, 16, 8, 1, 4]);
    let ordered = vec![note(1, 1), note(1, 2), note(5, 4)];
    let timeline = Timeline::in_time_order(&ordered);
    assert_eq!(timeline.get(0), Some(&note(1, 1)));
    assert_eq!(timeline.get(1), Some(&note(1, 2)));
    assert_eq!(timeline.get(2), Some(&note(5, 4)));
    assert!(Timeline::in_time_order(&Vec::new()).is_empty());
}
