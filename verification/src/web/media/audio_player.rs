//! AudioPlayer: the HTML audio element.
use vstd::prelude::*;

verus! {

/// Props for an audio player.
#[derive(Clone)]
pub struct AudioPlayerProps {
    /// Audio source URL
    pub src: String,
    /// Show browser controls (default: true)
    pub controls: bool,
    /// Auto-play on load
    pub auto_play: bool,
    /// Loop audio
    pub loop_audio: bool,
    /// CSS class
    pub class: Option<String>,
}

impl Default for AudioPlayerProps {
    fn default() -> (r: Self)
        ensures
            r.src@.len() == 0,
            r.controls,
            !r.auto_play,
            !r.loop_audio,
            r.class is None,
    {
        AudioPlayerProps { src: String::new(), controls: true, auto_play: false, loop_audio: false, class: None }
    }
}

/// The boolean attributes a media element gets, in order.
pub open spec fn flag_names(controls: bool, auto_play: bool, looping: bool) -> Seq<Seq<char>> {
    let a = if controls { seq!["controls"@] } else { Seq::empty() };
    let b = if auto_play { a.push("autoplay"@) } else { a };
    if looping { b.push("loop"@) } else { b }
}

/// The boolean attributes a media element gets, in order.
pub fn media_flags(controls: bool, auto_play: bool, looping: bool) -> (r: Vec<&'static str>)
    ensures
        r@.len() == flag_names(controls, auto_play, looping).len(),
        forall|i: int| 0 <= i < r@.len() ==> (#[trigger] r@[i])@ == flag_names(controls, auto_play, looping)[i],
{
    let mut r: Vec<&'static str> = Vec::new();
    if controls {
        r.push("controls");
    }
    if auto_play {
        r.push("autoplay");
    }
    if looping {
        r.push("loop");
    }
    r
}

/// The boolean attributes of an audio player.
pub fn audio_flags(props: &AudioPlayerProps) -> (r: Vec<&'static str>)
    ensures
        r@.len() == flag_names(props.controls, props.auto_play, props.loop_audio).len(),
        forall|i: int|
            0 <= i < r@.len() ==> (#[trigger] r@[i])@ == flag_names(props.controls, props.auto_play, props.loop_audio)[i],
{
    media_flags(props.controls, props.auto_play, props.loop_audio)
}

} // verus!
