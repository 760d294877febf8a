use macroquad_fun::input::{Buttons, InputState};
use macroquad_fun::recorder::{encode_recorded_frame, decode_recording, InputPlayer, InputRecorder, RecordedFrame};

#[test]
fn buttons_overlap() {
    let held = Buttons::left().union(Buttons::jump());
    assert!(held.is_down(Buttons::left()));
    assert!(held.is_down(Buttons::jump()));
    assert!(!held.is_down(Buttons::right()));
    assert!(held.is_down(Buttons::right().union(Buttons::jump())));
    assert!(!Buttons::empty().is_down(Buttons::left()));
    assert_eq!(held.bits(), 5);
    assert_eq!(Buttons::default(), Buttons::empty());
    assert!(Buttons::left().intersection(Buttons::right()).is_empty());
    assert_eq!(Buttons::from_bits_retain(6), Buttons::right().union(Buttons::jump()));
}

#[test]
fn pressed_only_in_first_frame_held() {
    let mut state = InputState::default();
    assert!(!state.is_down(Buttons::jump()));
    assert!(!state.is_pressed(Buttons::jump()));
    state.update(Buttons::jump());
    assert!(state.is_down(Buttons::jump()));
    assert!(state.is_pressed(Buttons::jump()));
    state.update(Buttons::jump());
    assert!(state.is_down(Buttons::jump()));
    assert!(!state.is_pressed(Buttons::jump()));
    state.update(Buttons::left());
    assert!(!state.is_down(Buttons::jump()));
    assert!(state.is_pressed(Buttons::left()));
}

fn record(stream: &[Buttons]) -> Vec<RecordedFrame> {
    let mut recorder = InputRecorder::new();
    let mut frames = Vec::new();
    for &buttons in stream {
        if let Some(frame) = recorder.next(Some(buttons)) {
            frames.push(frame);
        }
    }
    assert_eq!(recorder.frame_number(), stream.len() as u64);
    frames
}

#[test]
fn recorder_writes_changes_only() {
    let l = Buttons::left();
    let j = Buttons::jump();
    let frames = record(&[l, l, j, j, j, l]);
    assert_eq!(
        frames,
        vec![
            RecordedFrame { frame_number: 0, buttons: l },
            RecordedFrame { frame_number: 2, buttons: j },
            RecordedFrame { frame_number: 5, buttons: l },
        ]
    );
}

#[test]
fn recorder_ignores_end_of_stream() {
    let mut recorder = InputRecorder::new();
    assert_eq!(recorder.next(None), None);
    assert_eq!(recorder.frame_number(), 0);
    assert_eq!(
        recorder.next(Some(Buttons::empty())),
        Some(RecordedFrame { frame_number: 0, buttons: Buttons::empty() })
    );
}

#[test]
fn recording_round_trips_through_bytes_and_playback() {
    let l = Buttons::left();
    let r = Buttons::right();
    let j = Buttons::jump().union(Buttons::right());
    let stream = vec![l, l, r, r, r, j, j, l];
    let frames = record(&stream);
    let mut bytes: Vec<u8> = Vec::new();
    for frame in &frames {
        bytes.extend(encode_recorded_frame(frame).unwrap());
    }
    assert_eq!(decode_recording(&bytes), Some(frames.clone()));
    let mut player = InputPlayer::new(bytes.clone());
    let mut played = Vec::new();
    while let Some(buttons) = player.next() {
        played.push(buttons);
    }
    assert_eq!(played, stream);
    assert!(InputPlayer::try_new(bytes).is_some());
}

#[test]
fn encoding_is_postcard_varints() {
    let frame = RecordedFrame { frame_number: 300, buttons: Buttons::jump() };
    assert_eq!(encode_recorded_frame(&frame), Some(vec![0xac, 0x02, 0x04]));
}

#[test]
fn truncated_recording_is_refused() {
    let frame = RecordedFrame { frame_number: 300, buttons: Buttons::jump() };
    let mut bytes = encode_recorded_frame(&frame).unwrap();
    bytes.pop();
    assert_eq!(decode_recording(&bytes), None);
    assert!(InputPlayer::try_new(bytes).is_none());
    assert_eq!(decode_recording(&[]), Some(vec![]));
}

#[test]
fn player_holds_buttons_between_frames() {
    let frames = vec![
        RecordedFrame { frame_number: 0, buttons: Buttons::left() },
        RecordedFrame { frame_number: 3, buttons: Buttons::jump() },
    ];
    let mut bytes = Vec::new();
    for frame in &frames {
        bytes.extend(encode_recorded_frame(frame).unwrap());
    }
    let mut player = InputPlayer::new(bytes);
    assert_eq!(player.next(), Some(Buttons::left()));
    assert_eq!(player.next(), Some(Buttons::left()));
    assert_eq!(player.next(), Some(Buttons::left()));
    assert_eq!(player.next(), Some(Buttons::jump()));
    assert_eq!(player.next(), None);
    assert_eq!(player.frame_number(), 4);
}
