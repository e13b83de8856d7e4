//! VideoPlayer: the HTML video element.
use vstd::prelude::*;
use crate::web::media::audio_player::{flag_names, media_flags};

verus! {

/// Props for a video player.
#[derive(Clone)]
pub struct VideoPlayerProps {
    /// Video source URL
    pub src: String,
    /// Show browser controls (default: true)
    pub controls: bool,
    /// Auto-play on load
    pub auto_play: bool,
    /// Loop video
    pub loop_video: bool,
    /// Poster image URL
    pub poster: Option<String>,
    /// CSS class
    pub class: Option<String>,
}

impl Default for VideoPlayerProps {
    fn default() -> (r: Self)
        ensures
            r.src@.len() == 0,
            r.controls,
            !r.auto_play,
            !r.loop_video,
            r.poster is None,
            r.class is None,
    {
        VideoPlayerProps { src: String::new(), controls: true, auto_play: false, loop_video: false, poster: None, class: None }
    }
}

/// The boolean attributes of a video player.
pub fn video_flags(props: &VideoPlayerProps) -> (r: Vec<&'static str>)
    ensures
        r@.len() == flag_names(props.controls, props.auto_play, props.loop_video).len(),
        forall|i: int|
            0 <= i < r@.len() ==> (#[trigger] r@[i])@ == flag_names(props.controls, props.auto_play, props.loop_video)[i],
{
    media_flags(props.controls, props.auto_play, props.loop_video)
}

} // verus!
