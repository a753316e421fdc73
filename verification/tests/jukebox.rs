use tile_platformer::game::{AudioCommand, Sound};
use tile_platformer::jukebox::{Jukebox, Sounds};
use tile_platformer::mixer::{Audio, Mixer};
use tile_platformer::units::UNIT;

fn sounds() -> Sounds {
    Sounds {
        run: Audio::new(vec![1, 2]),
        jump: Audio::new(vec![10]),
        land: Audio::new(vec![20]),
        stop: Audio::new(vec![30]),
        enter: Audio::new(vec![40]),
        music: Audio::new(vec![100, 200, 300]),
    }
}

fn play(sound: Sound, volume: i64, looping: bool) -> AudioCommand {
    AudioCommand::Play { sound, volume, looping }
}

fn heard(mixer: &mut Mixer, samples: usize) -> Vec<i16> {
    let mut out = vec![0i16; samples];
    mixer.poll(&mut out);
    out
}

#[test]
fn each_sound_plays_its_recording() {
    let mut mixer = Mixer::new();
    let mut jukebox = Jukebox::new(sounds());
    assert_eq!(sounds().audio(Sound::Enter).len(), 1);
    assert_eq!(sounds().audio(Sound::Music).len(), 3);
    for (sound, sample) in
        [(Sound::Jump, 10), (Sound::Land, 20), (Sound::Stop, 30), (Sound::Enter, 40)]
    {
        jukebox.obey(&mut mixer, play(sound, UNIT, false));
        assert_eq!(mixer.playing_count(), 1);
        assert_eq!(heard(&mut mixer, 2), vec![sample, 0]);
        assert_eq!(mixer.playing_count(), 0);
    }
}

#[test]
fn the_footsteps_loop_until_their_loop_is_taken_away() {
    let mut mixer = Mixer::new();
    let mut jukebox = Jukebox::new(sounds());
    jukebox.obey(&mut mixer, play(Sound::Run, UNIT, true));
    assert_eq!(heard(&mut mixer, 5), vec![1, 2, 1, 2, 1]);
    jukebox.obey(&mut mixer, AudioCommand::SetLooping { sound: Sound::Run, looping: false });
    // The run plays out: one sample was left.
    assert_eq!(mixer.playing_count(), 1);
    assert_eq!(heard(&mut mixer, 3), vec![2, 0, 0]);
    assert_eq!(mixer.playing_count(), 0);
    // The handle is forgotten: the next footsteps are not touched by a
    // second command for the old ones.
    jukebox.obey(&mut mixer, AudioCommand::SetLooping { sound: Sound::Run, looping: false });
    jukebox.obey(&mut mixer, play(Sound::Run, UNIT, true));
    assert_eq!(heard(&mut mixer, 4), vec![1, 2, 1, 2]);
}

#[test]
fn the_music_is_muted_and_brought_back() {
    let mut mixer = Mixer::new();
    let mut jukebox = Jukebox::new(sounds());
    // Before the music plays, its volume cannot be set.
    jukebox.obey(&mut mixer, AudioCommand::SetVolume { sound: Sound::Music, volume: 0 });
    jukebox.obey(&mut mixer, play(Sound::Music, UNIT / 2, true));
    assert_eq!(heard(&mut mixer, 3), vec![50, 100, 150]);
    jukebox.obey(&mut mixer, AudioCommand::SetVolume { sound: Sound::Music, volume: 0 });
    assert_eq!(heard(&mut mixer, 3), vec![0, 0, 0]);
    jukebox.obey(&mut mixer, AudioCommand::SetVolume { sound: Sound::Music, volume: UNIT });
    assert_eq!(heard(&mut mixer, 4), vec![100, 200, 300, 100]);
    // The music stays muted while other sounds play.
    jukebox.obey(&mut mixer, AudioCommand::SetVolume { sound: Sound::Music, volume: 0 });
    jukebox.obey(&mut mixer, play(Sound::Jump, UNIT, false));
    assert_eq!(heard(&mut mixer, 2), vec![10, 0]);
    assert_eq!(mixer.playing_count(), 1);
}

#[test]
fn commands_for_sounds_without_a_handle_do_nothing() {
    let mut mixer = Mixer::new();
    let mut jukebox = Jukebox::new(sounds());
    jukebox.obey(&mut mixer, play(Sound::Music, UNIT, true));
    jukebox.obey(&mut mixer, play(Sound::Jump, UNIT, false));
    jukebox.obey(&mut mixer, AudioCommand::SetVolume { sound: Sound::Jump, volume: 0 });
    jukebox.obey(&mut mixer, AudioCommand::SetLooping { sound: Sound::Jump, looping: true });
    jukebox.obey(&mut mixer, AudioCommand::SetVolume { sound: Sound::Run, volume: 0 });
    assert_eq!(heard(&mut mixer, 2), vec![110, 200]);
    assert_eq!(mixer.playing_count(), 1);
}
