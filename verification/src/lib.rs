//! Reading, identifying and listing audio files and their metadata: MPEG-4,
//! MP3, FLAC and WAV, with a verified reader of MPEG-4 box structure.
pub mod album;
pub mod cmd;
pub mod completion;
pub mod display;
pub mod file;
pub mod flac;
pub mod mp3;
pub mod mp4;
pub mod mpeg4;
pub mod run;
pub mod text;
pub mod track;
pub mod wav;
