//! The sounds of the game at the mixer: what the game asks for is played,
//! and the sounds that keep playing are remembered by their handles.

use vstd::prelude::*;
use crate::game::{AudioCommand, Sound};
use crate::mixer::{
    started, with_looping, with_volume, Audio, AudioInstanceHandle, Mixer, Voice,
};

verus! {

/// The recordings of the sounds of the game.
pub struct Sounds {
    pub run: Audio,
    pub jump: Audio,
    pub land: Audio,
    pub stop: Audio,
    pub enter: Audio,
    pub music: Audio,
}

/// The recordings, and the handles of the footsteps and of the music
/// while they play.
pub struct Jukebox {
    sounds: Sounds,
    run_handle: Option<AudioInstanceHandle>,
    music_handle: Option<AudioInstanceHandle>,
}

impl Sounds {
    /// The samples of a sound.
    pub open spec fn samples(&self, sound: Sound) -> Seq<i16> {
        match sound {
            Sound::Run => self.run.samples(),
            Sound::Jump => self.jump.samples(),
            Sound::Land => self.land.samples(),
            Sound::Stop => self.stop.samples(),
            Sound::Enter => self.enter.samples(),
            Sound::Music => self.music.samples(),
        }
    }

    /// The recording of a sound.
    pub fn audio(&self, sound: Sound) -> (audio: &Audio)
        ensures
            audio.samples() == self.samples(sound),
    {
        match sound {
            Sound::Run => &self.run,
            Sound::Jump => &self.jump,
            Sound::Land => &self.land,
            Sound::Stop => &self.stop,
            Sound::Enter => &self.enter,
            Sound::Music => &self.music,
        }
    }
}

/// The handle under which a sound is remembered after a command: the
/// footsteps and the music under the number that playing gave them; the
/// footsteps no longer once their loop is taken away.
pub open spec fn remembered(
    before: Option<usize>,
    kept: Sound,
    command: AudioCommand,
    next_id: usize,
) -> Option<usize> {
    match command {
        AudioCommand::Play { sound, volume, looping } => if sound == kept {
            Some(next_id)
        } else {
            before
        },
        AudioCommand::SetLooping { sound, looping } => if sound == Sound::Run && kept == Sound::Run
            && !looping {
            None
        } else {
            before
        },
        AudioCommand::SetVolume { sound, volume } => before,
    }
}

impl Jukebox {
    /// The recordings.
    pub closed spec fn sounds(&self) -> Sounds {
        self.sounds
    }

    /// The number of the footsteps at the mixer, while they are remembered.
    pub closed spec fn run_id(&self) -> Option<usize> {
        match self.run_handle {
            Some(h) => Some(h.id()),
            None => None,
        }
    }

    /// The number of the music at the mixer, once it plays.
    pub closed spec fn music_id(&self) -> Option<usize> {
        match self.music_handle {
            Some(h) => Some(h.id()),
            None => None,
        }
    }

    /// The number under which a sound is remembered, if it is.
    pub open spec fn id_of(&self, sound: Sound) -> Option<usize> {
        match sound {
            Sound::Run => self.run_id(),
            Sound::Music => self.music_id(),
            _ => None,
        }
    }

    /// A jukebox in which nothing plays yet.
    pub fn new(sounds: Sounds) -> (jukebox: Jukebox)
        ensures
            jukebox.sounds() == sounds,
            jukebox.run_id() is None,
            jukebox.music_id() is None,
    {
        Jukebox { sounds, run_handle: None, music_handle: None }
    }

    /// Does at the mixer what the game asks for.
    ///
    /// A sound that is to play is started. The loop and the volume of a
    /// sound are changed only while its handle is remembered: that of the
    /// footsteps from their start until their loop is taken away, that of
    /// the music from its start on. For the other sounds such a command
    /// does nothing.
    pub fn obey(&mut self, mixer: &mut Mixer, command: AudioCommand)
        requires
            old(mixer).wf(),
        ensures
            final(mixer).wf(),
            final(self).sounds() == old(self).sounds(),
            final(self).run_id() == remembered(
                old(self).run_id(),
                Sound::Run,
                command,
                old(mixer).next_id(),
            ),
            final(self).music_id() == remembered(
                old(self).music_id(),
                Sound::Music,
                command,
                old(mixer).next_id(),
            ),
            final(mixer).voices() == match command {
                AudioCommand::Play { sound, volume, looping } => started(
                    old(mixer).voices(),
                    old(mixer).next_id(),
                    Voice {
                        samples: old(self).sounds().samples(sound),
                        index: 0,
                        volume,
                        do_loop: looping,
                    },
                ),
                AudioCommand::SetLooping { sound, looping } => match old(self).id_of(sound) {
                    Some(id) => with_looping(old(mixer).voices(), id, looping),
                    None => old(mixer).voices(),
                },
                AudioCommand::SetVolume { sound, volume } => match old(self).id_of(sound) {
                    Some(id) => with_volume(old(mixer).voices(), id, volume),
                    None => old(mixer).voices(),
                },
            },
    {
        match command {
            AudioCommand::Play { sound, volume, looping } => {
                let handle = mixer.play(self.sounds.audio(sound), volume, looping);
                match sound {
                    Sound::Run => {
                        self.run_handle = Some(handle);
                    },
                    Sound::Music => {
                        self.music_handle = Some(handle);
                    },
                    _ => {},
                }
            },
            AudioCommand::SetLooping { sound, looping } => {
                match sound {
                    Sound::Run => {
                        match &self.run_handle {
                            Some(handle) => {
                                mixer.set_looping(handle, looping);
                            },
                            None => {},
                        }
                        if !looping {
                            self.run_handle = None;
                        }
                    },
                    Sound::Music => {
                        match &self.music_handle {
                            Some(handle) => {
                                mixer.set_looping(handle, looping);
                            },
                            None => {},
                        }
                    },
                    _ => {},
                }
            },
            AudioCommand::SetVolume { sound, volume } => {
                match sound {
                    Sound::Run => {
                        match &self.run_handle {
                            Some(handle) => {
                                mixer.set_volume(handle, volume);
                            },
                            None => {},
                        }
                    },
                    Sound::Music => {
                        match &self.music_handle {
                            Some(handle) => {
                                mixer.set_volume(handle, volume);
                            },
                            None => {},
                        }
                    },
                    _ => {},
                }
            },
        }
    }
}

} // verus!
