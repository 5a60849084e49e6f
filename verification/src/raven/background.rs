//! Backgrounds of a story.
use vstd::prelude::*;

verus! {

/// A background: its image and optional music.
#[derive(Debug, Clone)]
pub struct Background {
    pub image: String,
    pub music: Option<String>,
}

impl Background {
    /// A background showing `image`, without music.
    pub fn new(image: String) -> (b: Self)
        ensures
            b.image == image,
            b.music is None,
    {
        Self { image, music: None }
    }

    /// The same background with `music` attached.
    pub fn with_music(self, music: String) -> (b: Self)
        ensures
            b.image == self.image,
            b.music == Some(music),
    {
        let mut b = self;
        b.music = Some(music);
        b
    }
}

} // verus!
