use pongi::audio::{AudioContext, SoundStartTime};

#[test]
fn buffer_advances_frame_index() {
    let mut ac = AudioContext::new(2, 48000);
    let (frames, copies) = ac.fill_buffer(6400);
    assert_eq!(frames, 3200);
    assert!(copies.is_empty());
    assert_eq!(ac.next_uncommitted_frame_index, 0);
    ac.fill_buffer(400);
    assert_eq!(ac.next_uncommitted_frame_index, 3000);
}

#[test]
fn sound_starts_with_next_buffer_and_ends() {
    let mut ac = AudioContext::new(2, 48000);
    ac.test_sound_len = 5000;
    ac.play_debug_sound(SoundStartTime::OnNextBeat);
    let (_, copies) = ac.fill_buffer(6400);
    assert_eq!(ac.sounds[0].start_frame_index, Some(0));
    assert_eq!(ac.sounds[0].end_frame_index, Some(5000));
    assert_eq!(copies.len(), 3200);
    assert_eq!(copies[0], (0, 0));
    assert_eq!(copies[3199], (3199, 3199));
    // all buffered frames were played
    let (_, copies) = ac.fill_buffer(0);
    assert_eq!(ac.next_uncommitted_frame_index, 3200);
    assert_eq!(copies.len(), 0);
    ac.fill_buffer(0);
    ac.fill_buffer(0);
    assert!(ac.sounds.is_empty());
}

#[test]
fn short_sound_copies_only_its_samples() {
    let mut ac = AudioContext::new(2, 48000);
    ac.test_sound_len = 10;
    ac.play_debug_sound(SoundStartTime::Immediately);
    let (_, copies) = ac.fill_buffer(6400);
    assert_eq!(copies, (0..10).map(|i| (i, i)).collect::<Vec<_>>());
}

#[test]
fn new_test_sound_length_keeps_playing_sounds() {
    let mut audio = AudioContext::new(2, 48000);
    audio.set_test_sound_len(10);
    audio.play_debug_sound(SoundStartTime::Immediately);
    let (_, copies) = audio.fill_buffer(6400);
    assert_eq!(copies.len(), 10);
    let end = audio.sounds[0].end_frame_index;
    audio.set_test_sound_len(4);
    assert_eq!(audio.test_sound_len, 4);
    assert_eq!(audio.sounds[0].end_frame_index, end);
    assert_eq!(audio.sounds.len(), 1);
}
