//! The shape of a soundboard manifest and its mathematical model.
use vstd::prelude::*;

verus! {

/// A number as the manifest text gives it: a TOML integer, or a TOML float
/// held as the bit pattern of its IEEE-754 double.
#[derive(Clone, Copy, Debug, PartialEq, Eq, Structural)]
pub enum Number {
    Integer(i64),
    Float(u64),
}

/// The duration of an action button that states none: zero.
pub fn default_duration() -> (r: Number)
    ensures
        r == zero_duration(),
{
    Number::Float(0)
}

/// Positive zero, as a float.
pub open spec fn zero_duration() -> Number {
    Number::Float(0)
}

/// A named trigger layered on a clip.
#[derive(Debug)]
pub struct ActionButton {
    pub name: String,
    pub volume: Number,
    pub duration: Number,
}

/// One playable clip.
#[derive(Debug)]
pub struct AudioFile {
    pub name: String,
    pub directions: String,
    pub path: String,
    pub length: u32,
    pub volume: Option<Number>,
    pub start_at: Option<Number>,
    pub stop_at: Option<Number>,
    /// Spend this many seconds fading in.
    pub fade_in: Option<Number>,
    /// Spend this many seconds fading out.
    pub fade_out: Option<Number>,
    pub actions: Vec<ActionButton>,
}

/// A soundboard: its clips, in display order.
#[derive(Debug)]
pub struct Manifest {
    pub items: Vec<AudioFile>,
}

/// Where the manifest to serve lies, fixed once at startup.
#[derive(Debug)]
pub struct File {
    pub path: String,
}

pub struct ActionButtonView {
    pub name: Seq<char>,
    pub volume: Number,
    pub duration: Number,
}

pub struct AudioFileView {
    pub name: Seq<char>,
    pub directions: Seq<char>,
    pub path: Seq<char>,
    pub length: u32,
    pub volume: Option<Number>,
    pub start_at: Option<Number>,
    pub stop_at: Option<Number>,
    pub fade_in: Option<Number>,
    pub fade_out: Option<Number>,
    pub actions: Seq<ActionButtonView>,
}

pub struct ManifestView {
    pub items: Seq<AudioFileView>,
}

impl View for ActionButton {
    type V = ActionButtonView;

    open spec fn view(&self) -> ActionButtonView {
        ActionButtonView { name: self.name@, volume: self.volume, duration: self.duration }
    }
}

impl View for AudioFile {
    type V = AudioFileView;

    open spec fn view(&self) -> AudioFileView {
        AudioFileView {
            name: self.name@,
            directions: self.directions@,
            path: self.path@,
            length: self.length,
            volume: self.volume,
            start_at: self.start_at,
            stop_at: self.stop_at,
            fade_in: self.fade_in,
            fade_out: self.fade_out,
            actions: self.actions@.map_values(|a: ActionButton| a@),
        }
    }
}

impl View for Manifest {
    type V = ManifestView;

    open spec fn view(&self) -> ManifestView {
        ManifestView { items: self.items@.map_values(|a: AudioFile| a@) }
    }
}

} // verus!
