//! Background music: one fixed address per listening category.

use vstd::prelude::*;

verus! {

/// The answer to a music lookup.
pub struct MusicResponse {
    pub url: String,
}

/// The address that a category name stands for. Names are matched exactly,
/// letter case included; every other name gets the default track.
pub open spec fn music_url(category: Seq<char>) -> Seq<char> {
    if category == "Relax"@ {
        "https://ritika12df.github.io/ritikaaudio/relax.mp3"@
    } else if category == "Focus"@ {
        "https://ritika12df.github.io/ritikaaudio/focus.mp3"@
    } else if category == "Energize"@ {
        "https://ritika12df.github.io/ritikaaudio/energize.mp3"@
    } else if category == "Sleep"@ {
        "https://ritika12df.github.io/ritikaaudio/sleep.mp3"@
    } else if category == "Meditate"@ {
        "https://ritika12df.github.io/ritikaaudio/meditate.mp3"@
    } else {
        "https://ritika12df.github.io/ritikaaudio/default.mp3"@
    }
}

/// Looks up the track for `category`.
pub fn resolve(category: &str) -> (found: MusicResponse)
    ensures
        found.url@ == music_url(category@),
{
    let url = if *category == *"Relax" {
        "https://ritika12df.github.io/ritikaaudio/relax.mp3"
    } else if *category == *"Focus" {
        "https://ritika12df.github.io/ritikaaudio/focus.mp3"
    } else if *category == *"Energize" {
        "https://ritika12df.github.io/ritikaaudio/energize.mp3"
    } else if *category == *"Sleep" {
        "https://ritika12df.github.io/ritikaaudio/sleep.mp3"
    } else if *category == *"Meditate" {
        "https://ritika12df.github.io/ritikaaudio/meditate.mp3"
    } else {
        "https://ritika12df.github.io/ritikaaudio/default.mp3"
    };
    MusicResponse { url: url.to_owned() }
}

} // verus!
