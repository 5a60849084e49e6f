//! Characters of a story.
use vstd::prelude::*;

verus! {

/// A character: the name shown when it speaks, its sprite image, and an
/// optional colour for its name.
#[derive(Debug, Clone)]
pub struct Character {
    pub name: String,
    pub sprite: String,
    pub color: Option<String>,
}

impl Character {
    /// A character with the given name and sprite and no colour.
    pub fn new(name: String, sprite: String) -> (c: Self)
        ensures
            c.name == name,
            c.sprite == sprite,
            c.color is None,
    {
        Self { name, sprite, color: None }
    }

    /// The same character with its name colour set to `color`.
    pub fn with_color(self, color: String) -> (c: Self)
        ensures
            c.name == self.name,
            c.sprite == self.sprite,
            c.color == Some(color),
    {
        let mut c = self;
        c.color = Some(color);
        c
    }
}

} // verus!
