//! A story script: characters, backgrounds and scenes by id, and the scene
//! the story starts with.
use vstd::prelude::*;
use crate::raven::background::Background;
use crate::raven::character::Character;
use crate::raven::scene::Scene;
use crate::strmap::StrMap;

verus! {

/// The start scene after a scene with id `id` is added: the first scene ever
/// added stays the start scene.
pub open spec fn start_after_add(start: Option<Seq<char>>, id: Seq<char>) -> Option<Seq<char>> {
    match start {
        Some(s) => Some(s),
        None => Some(id),
    }
}

/// The start scene's id by its characters.
pub open spec fn start_view(start: Option<String>) -> Option<Seq<char>> {
    match start {
        Some(s) => Some(s@),
        None => None,
    }
}

/// A story script.
#[derive(Debug)]
pub struct Script {
    pub characters: StrMap<Character>,
    pub scenes: StrMap<Scene>,
    pub backgrounds: StrMap<Background>,
    pub start_scene: Option<String>,
}

impl Script {
    /// An empty script, without a start scene.
    pub fn new() -> (s: Self)
        ensures
            s.characters@ == Map::<Seq<char>, Character>::empty(),
            s.scenes@ == Map::<Seq<char>, Scene>::empty(),
            s.backgrounds@ == Map::<Seq<char>, Background>::empty(),
            s.start_scene is None,
    {
        Self {
            characters: StrMap::new(),
            scenes: StrMap::new(),
            backgrounds: StrMap::new(),
            start_scene: None,
        }
    }

    /// Binds `id` to `character`.
    pub fn add_character(&mut self, id: String, character: Character)
        ensures
            final(self).characters@ == old(self).characters@.insert(id@, character),
            final(self).scenes == old(self).scenes,
            final(self).backgrounds == old(self).backgrounds,
            final(self).start_scene == old(self).start_scene,
    {
        self.characters.insert(id, character);
    }

    /// Binds `id` to `scene`; the first scene added becomes the start scene.
    pub fn add_scene(&mut self, id: String, scene: Scene)
        ensures
            final(self).scenes@ == old(self).scenes@.insert(id@, scene),
            start_view(final(self).start_scene) == start_after_add(
                start_view(old(self).start_scene),
                id@,
            ),
            old(self).start_scene is Some ==> final(self).start_scene == old(self).start_scene,
            final(self).characters == old(self).characters,
            final(self).backgrounds == old(self).backgrounds,
    {
        if self.start_scene.is_none() {
            self.start_scene = Some(id.clone());
        }
        self.scenes.insert(id, scene);
    }

    /// Binds `id` to `background`.
    pub fn add_background(&mut self, id: String, background: Background)
        ensures
            final(self).backgrounds@ == old(self).backgrounds@.insert(id@, background),
            final(self).characters == old(self).characters,
            final(self).scenes == old(self).scenes,
            final(self).start_scene == old(self).start_scene,
    {
        self.backgrounds.insert(id, background);
    }

    /// The character bound to `id`, if any.
    pub fn get_character(&self, id: &str) -> (r: Option<&Character>)
        ensures
            match r {
                Some(c) => self.characters@.contains_key(id@) && *c == self.characters@[id@],
                None => !self.characters@.contains_key(id@),
            },
    {
        self.characters.get(id)
    }

    /// The scene bound to `id`, if any.
    pub fn get_scene(&self, id: &str) -> (r: Option<&Scene>)
        ensures
            match r {
                Some(s) => self.scenes@.contains_key(id@) && *s == self.scenes@[id@],
                None => !self.scenes@.contains_key(id@),
            },
    {
        self.scenes.get(id)
    }

    /// The background bound to `id`, if any.
    pub fn get_background(&self, id: &str) -> (r: Option<&Background>)
        ensures
            match r {
                Some(b) => self.backgrounds@.contains_key(id@) && *b == self.backgrounds@[id@],
                None => !self.backgrounds@.contains_key(id@),
            },
    {
        self.backgrounds.get(id)
    }
}

/// The start scene after scenes with ids `ids` are added in order.
pub open spec fn start_after_adds(start: Option<Seq<char>>, ids: Seq<Seq<char>>) -> Option<
    Seq<char>,
>
    decreases ids.len(),
{
    if ids.len() == 0 {
        start
    } else {
        start_after_adds(start_after_add(start, ids[0]), ids.skip(1))
    }
}

/// The start scene is the first scene ever added: adding scenes to a script
/// with a start scene keeps it, and a script without one takes the first
/// scene added.
pub proof fn law_start_scene_is_first_added(start: Option<Seq<char>>, ids: Seq<Seq<char>>)
    ensures
        start is Some ==> start_after_adds(start, ids) == start,
        start is None && ids.len() > 0 ==> start_after_adds(start, ids) == Some(ids[0]),
    decreases ids.len(),
{
    if ids.len() > 0 {
        law_start_scene_is_first_added(start_after_add(start, ids[0]), ids.skip(1));
    }
}

} // verus!
