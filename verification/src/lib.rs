//! Sample-playback synthesizer core: soundfont structure, SF2 zone
//! resolution, SFZ text parsing and the DAHDSR envelope stage machine.

pub mod types;
pub mod envelope;
pub mod text;
pub mod sfz;
pub mod sf2;
pub mod sf2file;
pub mod soundfont;
pub mod wav;
pub mod voice;
pub mod synth;
