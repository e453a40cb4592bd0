//! The catalog's record of one importable item.

use vstd::prelude::*;

verus! {

/// A shortcut as the catalog keeps it. Identifier, name, launch target and
/// working directory come from the game that was found; every other field is
/// the user's and is never changed by a sync.
#[derive(Clone, Debug, PartialEq, Eq)]
pub struct Shortcut {
    /// The identifier that ties the shortcut to the game it was made for.
    pub app_id: u32,
    /// The display name.
    pub app_name: String,
    /// The launch target: the executable's path in double quotes.
    pub exe: String,
    /// The working directory, in double quotes.
    pub start_dir: String,
    /// The icon reference; empty where there is none.
    pub icon: String,
    pub shortcut_path: String,
    pub launch_options: String,
    pub is_hidden: bool,
    pub allow_desktop_config: bool,
    pub allow_overlay: bool,
    pub open_vr: bool,
    pub dev_kit: bool,
    pub dev_kit_game_id: String,
    pub dev_kit_override_app_id: u32,
    pub last_play_time: u32,
    pub flatpak_app_id: String,
    pub tags: Vec<String>,
}

/// A shortcut as contracts see it.
pub struct ShortcutView {
    pub app_id: u32,
    pub app_name: Seq<char>,
    pub exe: Seq<char>,
    pub start_dir: Seq<char>,
    pub icon: Seq<char>,
    pub shortcut_path: Seq<char>,
    pub launch_options: Seq<char>,
    pub is_hidden: bool,
    pub allow_desktop_config: bool,
    pub allow_overlay: bool,
    pub open_vr: bool,
    pub dev_kit: bool,
    pub dev_kit_game_id: Seq<char>,
    pub dev_kit_override_app_id: u32,
    pub last_play_time: u32,
    pub flatpak_app_id: Seq<char>,
    pub tags: Seq<Seq<char>>,
}

/// The texts of a list of strings.
pub open spec fn string_views(strings: Seq<String>) -> Seq<Seq<char>> {
    Seq::new(strings.len(), |i: int| strings[i]@)
}

impl View for Shortcut {
    type V = ShortcutView;

    open spec fn view(&self) -> ShortcutView {
        ShortcutView {
            app_id: self.app_id,
            app_name: self.app_name@,
            exe: self.exe@,
            start_dir: self.start_dir@,
            icon: self.icon@,
            shortcut_path: self.shortcut_path@,
            launch_options: self.launch_options@,
            is_hidden: self.is_hidden,
            allow_desktop_config: self.allow_desktop_config,
            allow_overlay: self.allow_overlay,
            open_vr: self.open_vr,
            dev_kit: self.dev_kit,
            dev_kit_game_id: self.dev_kit_game_id@,
            dev_kit_override_app_id: self.dev_kit_override_app_id,
            last_play_time: self.last_play_time,
            flatpak_app_id: self.flatpak_app_id@,
            tags: string_views(self.tags@),
        }
    }
}

/// The views of a catalog's shortcuts.
pub open spec fn shortcut_views(catalog: Seq<Shortcut>) -> Seq<ShortcutView> {
    Seq::new(catalog.len(), |i: int| catalog[i]@)
}

/// Whether two shortcuts agree in every field that belongs to the user: all
/// but identifier, name, launch target and working directory.
pub open spec fn same_user_fields(a: ShortcutView, b: ShortcutView) -> bool {
    &&& a.icon == b.icon
    &&& a.shortcut_path == b.shortcut_path
    &&& a.launch_options == b.launch_options
    &&& a.is_hidden == b.is_hidden
    &&& a.allow_desktop_config == b.allow_desktop_config
    &&& a.allow_overlay == b.allow_overlay
    &&& a.open_vr == b.open_vr
    &&& a.dev_kit == b.dev_kit
    &&& a.dev_kit_game_id == b.dev_kit_game_id
    &&& a.dev_kit_override_app_id == b.dev_kit_override_app_id
    &&& a.last_play_time == b.last_play_time
    &&& a.flatpak_app_id == b.flatpak_app_id
    &&& a.tags == b.tags
}

} // verus!
