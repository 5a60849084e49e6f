//! The engine's main configuration: title, asset tables, settings and
//! global variables, with the defaults used when no configuration file is
//! found.
use vstd::prelude::*;
use crate::strmap::StrMap;
use crate::text::owned;

verus! {

/// The asset tables: names to paths.
#[derive(Debug)]
pub struct AssetsConfig {
    pub characters: StrMap<String>,
    pub backgrounds: StrMap<String>,
    pub audio: AudioConfig,
    pub videos: StrMap<String>,
    pub swf: StrMap<String>,
}

/// The audio tables and the click sounds.
#[derive(Debug)]
pub struct AudioConfig {
    pub bgm: StrMap<String>,
    pub sfx: StrMap<String>,
    pub click_sound: String,
    pub backclick_sound: String,
}

/// The game settings.
#[derive(Debug)]
pub struct SettingsConfig {
    pub initial_scene: String,
    pub text_speed: u32,
    pub auto_save: bool,
    pub resolution: [u32; 2],
    pub font: String,
    pub rewind: bool,
    pub logo_text: String,
    /// Whether the window may be resized.
    pub resizable: bool,
    /// Whether the window has a maximize button.
    pub maximizable: bool,
}

/// The player's global variables.
#[derive(Debug)]
pub struct GlobalVariables {
    pub player_name: String,
    pub affection_points: i32,
}

/// The main configuration.
#[derive(Debug)]
pub struct MainConfig {
    pub title: String,
    pub assets: AssetsConfig,
    pub settings: SettingsConfig,
    pub global_variables: GlobalVariables,
}

impl Default for MainConfig {
    /// The configuration used when no configuration file can be read.
    fn default() -> (c: Self)
        ensures
            c.title@ == "Raven Engine"@,
            c.assets.characters@ == Map::<Seq<char>, String>::empty(),
            c.assets.backgrounds@ == Map::<Seq<char>, String>::empty(),
            c.assets.videos@ == Map::<Seq<char>, String>::empty(),
            c.assets.swf@ == Map::<Seq<char>, String>::empty(),
            c.assets.audio.bgm@ == Map::<Seq<char>, String>::empty(),
            c.assets.audio.sfx@ == Map::<Seq<char>, String>::empty(),
            c.assets.audio.click_sound@ == "typing2.ogg"@,
            c.assets.audio.backclick_sound@ == "button.ogg"@,
            c.settings.initial_scene@ == "intro"@,
            c.settings.text_speed == 50,
            c.settings.auto_save,
            c.settings.resolution[0] == 1200,
            c.settings.resolution[1] == 660,
            c.settings.logo_text@ == "Raven logo"@,
            c.settings.font@ == "fonts/GenSenMaruGothicTW-Bold.ttf"@,
            !c.settings.rewind,
            c.settings.resizable,
            c.settings.maximizable,
            c.global_variables.player_name@ == "主角"@,
            c.global_variables.affection_points == 0,
    {
        MainConfig {
            title: owned("Raven Engine"),
            assets: AssetsConfig {
                characters: StrMap::new(),
                backgrounds: StrMap::new(),
                audio: AudioConfig {
                    bgm: StrMap::new(),
                    sfx: StrMap::new(),
                    click_sound: owned("typing2.ogg"),
                    backclick_sound: owned("button.ogg"),
                },
                videos: StrMap::new(),
                swf: StrMap::new(),
            },
            settings: SettingsConfig {
                initial_scene: owned("intro"),
                text_speed: 50,
                auto_save: true,
                resolution: [1200, 660],
                logo_text: owned("Raven logo"),
                font: owned("fonts/GenSenMaruGothicTW-Bold.ttf"),
                rewind: false,
                resizable: true,
                maximizable: true,
            },
            global_variables: GlobalVariables {
                player_name: owned("主角"),
                affection_points: 0,
            },
        }
    }
}

impl MainConfig {
    /// The path of the named character's images, if the table holds it.
    pub fn get_character_path(&self, character: &str) -> (r: Option<&String>)
        ensures
            match r {
                Some(p) => self.assets.characters@.contains_key(character@) && *p
                    == self.assets.characters@[character@],
                None => !self.assets.characters@.contains_key(character@),
            },
    {
        self.assets.characters.get(character)
    }

    /// The path of the named background, if the table holds it.
    pub fn get_background_path(&self, background: &str) -> (r: Option<&String>)
        ensures
            match r {
                Some(p) => self.assets.backgrounds@.contains_key(background@) && *p
                    == self.assets.backgrounds@[background@],
                None => !self.assets.backgrounds@.contains_key(background@),
            },
    {
        self.assets.backgrounds.get(background)
    }

    /// Whether the window may be resized.
    pub fn is_resizable(&self) -> (r: bool)
        ensures
            r == self.settings.resizable,
    {
        self.settings.resizable
    }

    /// Whether the window has a maximize button.
    pub fn is_maximizable(&self) -> (r: bool)
        ensures
            r == self.settings.maximizable,
    {
        self.settings.maximizable
    }
}

} // verus!
