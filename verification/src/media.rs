use vstd::prelude::*;

verus! {

/// The state a media session reports.
#[derive(Debug, Clone, Copy, PartialEq, Eq, Structural)]
pub enum MediaPlaybackState {
    Unknown,
    Closed,
    Opened,
    Changing,
    Stopped,
    Playing,
    Paused,
}

impl Default for MediaPlaybackState {
    fn default() -> (r: Self)
        ensures
            r == MediaPlaybackState::Unknown,
    {
        MediaPlaybackState::Unknown
    }
}

pub open spec fn playback_text(state: MediaPlaybackState) -> Seq<char> {
    match state {
        MediaPlaybackState::Unknown => "Unknown"@,
        MediaPlaybackState::Closed => "Closed"@,
        MediaPlaybackState::Opened => "Opened"@,
        MediaPlaybackState::Changing => "Changing"@,
        MediaPlaybackState::Stopped => "Stopped"@,
        MediaPlaybackState::Playing => "Playing"@,
        MediaPlaybackState::Paused => "Paused"@,
    }
}

impl MediaPlaybackState {
    pub fn as_label(self) -> (r: &'static str)
        ensures
            r@ == playback_text(self),
    {
        match self {
            MediaPlaybackState::Unknown => "Unknown",
            MediaPlaybackState::Closed => "Closed",
            MediaPlaybackState::Opened => "Opened",
            MediaPlaybackState::Changing => "Changing",
            MediaPlaybackState::Stopped => "Stopped",
            MediaPlaybackState::Playing => "Playing",
            MediaPlaybackState::Paused => "Paused",
        }
    }
}

/// The state for a playback status code of the system media transport controls
/// (0 closed, 1 opened, 2 changing, 3 stopped, 4 playing, 5 paused); any other code is
/// unknown.
pub open spec fn playback_from_status(status: i32) -> MediaPlaybackState {
    if status == 0 {
        MediaPlaybackState::Closed
    } else if status == 1 {
        MediaPlaybackState::Opened
    } else if status == 2 {
        MediaPlaybackState::Changing
    } else if status == 3 {
        MediaPlaybackState::Stopped
    } else if status == 4 {
        MediaPlaybackState::Playing
    } else if status == 5 {
        MediaPlaybackState::Paused
    } else {
        MediaPlaybackState::Unknown
    }
}

pub fn map_playback_state(status: i32) -> (r: MediaPlaybackState)
    ensures
        r == playback_from_status(status),
{
    match status {
        0 => MediaPlaybackState::Closed,
        1 => MediaPlaybackState::Opened,
        2 => MediaPlaybackState::Changing,
        3 => MediaPlaybackState::Stopped,
        4 => MediaPlaybackState::Playing,
        5 => MediaPlaybackState::Paused,
        _ => MediaPlaybackState::Unknown,
    }
}

} // verus!
