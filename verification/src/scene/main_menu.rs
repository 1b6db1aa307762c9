//! The main menu: a list of options, one of them selected, and two screens
//! that open from it.

use crate::consts::PKG_NAME;
use crate::consts::TITLE_Y_INSET;
use crate::consts::VERSION;
use crate::consts::VIRTUAL_HEIGHT;
use crate::consts::X_INSET;
use crate::input::Input;
use crate::input::Signals;
use crate::scene::EScene;
use vstd::prelude::*;

verus! {

/// What the menu offers.
#[derive(Clone, Copy, Debug, PartialEq, Eq, Structural)]
pub enum MenuOption {
    Play,
    Settings,
    Credits,
    Quit,
}

impl MenuOption {
    /// The word that stands for the option on the screen.
    pub open spec fn label(self) -> Seq<char> {
        match self {
            MenuOption::Play => "Play"@,
            MenuOption::Settings => "Settings"@,
            MenuOption::Credits => "Credits"@,
            MenuOption::Quit => "Quit"@,
        }
    }
}

/// A screen that opens from the menu and takes the frames while it is open.
#[derive(Clone, Copy, Debug, PartialEq, Eq, Structural)]
pub enum Subscene {
    Settings,
    Credits,
}

/// What a frame of the menu asks of the one who runs the frames.
#[derive(Clone, Copy, Debug, PartialEq, Eq)]
pub struct MenuOutcome {
    /// The frame belongs to this screen, which is open; the menu did nothing.
    pub handed_to: Option<Subscene>,
    /// An option was confirmed: its sound is to be played.
    pub selected: bool,
    /// How often the selection moved: the sound of a move is to be played
    /// as often.
    pub moves: u8,
    /// The scene to switch to.
    pub switch_scene_to: Option<EScene>,
    /// The game is to end.
    pub request_quit: bool,
}

/// The sizes in which text is drawn.
#[derive(Clone, Copy, Debug, PartialEq, Eq, Structural)]
pub enum Size {
    Small,
    Medium,
    Large,
}

/// A line of text and where it stands on the screen.
#[derive(Debug, PartialEq, Eq)]
pub struct Text {
    pub text: String,
    /// Left end of the line, in grid units.
    pub x: i32,
    /// Base of the line, in grid units.
    pub y: i32,
    pub size: Size,
    /// The line is the selected option, to be drawn in the colour that
    /// marks the selection.
    pub selected: bool,
}

impl Text {
    /// These words stand at this place in this size.
    pub open spec fn is(self, text: Seq<char>, x: int, y: int, size: Size, selected: bool) -> bool {
        &&& self.text@ == text
        &&& self.x == x
        &&& self.y == y
        &&& self.size == size
        &&& self.selected == selected
    }
}

/// What there is to draw of the menu.
#[derive(Debug, PartialEq, Eq)]
pub enum MenuPicture {
    /// The screen that is open is drawn in the menu's place.
    Handed(Subscene),
    /// The lines of the menu, from the top.
    Texts(Vec<Text>),
}

/// The line that tells the keys.
pub const HELP: &'static str = "Change Select = Arrow Keys | Confirm = Z";

/// Base of the first option: 400 pixels down.
pub const OPTIONS_Y: i32 = 400_000;

/// From one option to the next: 40 pixels.
pub const OPTION_STEP: i32 = 40_000;

/// How far the lowest line stands above the lower edge, and the version
/// from the left edge: 40 pixels.
pub const FOOT_INSET: i32 = 40_000;

/// The version as it stands on the screen: the letter `v`, then the
/// version.
fn version_label(version: &str) -> (label: String)
    ensures
        label@ == seq!['v'] + version@,
{
    let mut label = "v".to_owned();
    proof {
        reveal_strlit("v");
        assert(label@ =~= seq!['v']);
    }
    vstd::string::StringExecFns::append(&mut label, version);
    label
}

/// The menu as plain values.
pub struct Menu {
    pub options: Seq<MenuOption>,
    pub index: int,
    pub settings_open: bool,
    pub credits_open: bool,
}

impl Menu {
    /// The options are those that the menu opened with, and the selected
    /// one is one of them.
    pub open spec fn wf(self) -> bool {
        &&& self.options == Menu::initial().options
        &&& 0 <= self.index < self.options.len()
    }

    /// The menu as it opens: all four options, the first selected.
    pub open spec fn initial() -> Menu {
        Menu {
            options: seq![
                MenuOption::Play,
                MenuOption::Settings,
                MenuOption::Credits,
                MenuOption::Quit,
            ],
            index: 0,
            settings_open: false,
            credits_open: false,
        }
    }

    /// The screen that is open, the settings before the credits.
    pub open spec fn open_subscene(self) -> Option<Subscene> {
        if self.settings_open {
            Some(Subscene::Settings)
        } else if self.credits_open {
            Some(Subscene::Credits)
        } else {
            None
        }
    }

    /// The selected option.
    pub open spec fn selected(self) -> MenuOption {
        self.options[self.index]
    }

    /// The index one up, from the first to the last.
    pub open spec fn up(self, index: int) -> int {
        if index == 0 {
            self.options.len() - 1
        } else {
            index - 1
        }
    }

    /// The index one down, from the last to the first.
    pub open spec fn down(self, index: int) -> int {
        if index == self.options.len() - 1 {
            0
        } else {
            index + 1
        }
    }

    /// The index after a frame: first up, then down, each if it was pressed.
    pub open spec fn moved_index(self, pressed: Signals) -> int {
        let after_up = if pressed.up {
            self.up(self.index)
        } else {
            self.index
        };
        if pressed.down {
            self.down(after_up)
        } else {
            after_up
        }
    }

    /// The menu after a frame. While a screen is open nothing changes. Else
    /// a confirmed option opens its screen, if it has one, and the selection
    /// moves.
    pub open spec fn stepped(self, pressed: Signals) -> Menu {
        if self.open_subscene().is_some() {
            self
        } else {
            Menu {
                options: self.options,
                index: self.moved_index(pressed),
                settings_open: pressed.confirm && self.selected() == MenuOption::Settings,
                credits_open: pressed.confirm && self.selected() == MenuOption::Credits,
            }
        }
    }

    /// What a frame asks for.
    pub open spec fn outcome(self, pressed: Signals) -> MenuOutcome {
        if self.open_subscene().is_some() {
            MenuOutcome {
                handed_to: self.open_subscene(),
                selected: false,
                moves: 0,
                switch_scene_to: None,
                request_quit: false,
            }
        } else {
            MenuOutcome {
                handed_to: None,
                selected: pressed.confirm,
                moves: ((if pressed.up { 1int } else { 0int }) + (if pressed.down { 1int } else { 0int })) as u8,
                switch_scene_to: if pressed.confirm && self.selected() == MenuOption::Play {
                    Some(EScene::Gameplay)
                } else {
                    None
                },
                request_quit: pressed.confirm && self.selected() == MenuOption::Quit,
            }
        }
    }
}

/// The selection stays on the list: a frame of a well-formed menu leaves a
/// well-formed menu with the same options.
pub proof fn lemma_selection_stays_on_the_list(menu: Menu, pressed: Signals)
    requires
        menu.wf(),
    ensures
        menu.stepped(pressed).wf(),
        menu.stepped(pressed).options == menu.options,
{
}

/// Up and down undo one another: pressed in the same frame they leave the
/// selection where it was, and a frame up followed by a frame down brings
/// it back.
pub proof fn lemma_up_then_down_returns(menu: Menu)
    requires
        menu.wf(),
    ensures
        menu.down(menu.up(menu.index)) == menu.index,
        menu.up(menu.down(menu.index)) == menu.index,
{
}

/// The main menu.
pub struct MainMenu {
    menu_options: Vec<MenuOption>,
    menu_index: usize,
    settings_active: bool,
    credits_active: bool,
}

impl View for MainMenu {
    type V = Menu;

    closed spec fn view(&self) -> Menu {
        Menu {
            options: self.menu_options@,
            index: self.menu_index as int,
            settings_open: self.settings_active,
            credits_open: self.credits_active,
        }
    }
}

impl MainMenu {
    /// The invariant of the menu.
    pub open spec fn wf(&self) -> bool {
        self@.wf()
    }

    /// The menu as it opens.
    pub fn new() -> (menu: MainMenu)
        ensures
            menu@ == Menu::initial(),
            menu.wf(),
    {
        let menu_options = vec![
            MenuOption::Play,
            MenuOption::Settings,
            MenuOption::Credits,
            MenuOption::Quit,
        ];
        let menu = MainMenu {
            menu_options,
            menu_index: 0,
            settings_active: false,
            credits_active: false,
        };
        assert(menu@.options =~= Menu::initial().options);
        menu
    }

    /// The word that stands for the option on the screen.
    pub fn text_for_menu_option(&self, menu_option: &MenuOption) -> (text: &'static str)
        ensures
            text@ == menu_option.label(),
    {
        match menu_option {
            MenuOption::Play => "Play",
            MenuOption::Settings => "Settings",
            MenuOption::Credits => "Credits",
            MenuOption::Quit => "Quit",
        }
    }

    /// The options, in the order in which they stand on the screen.
    pub fn menu_options(&self) -> (options: &Vec<MenuOption>)
        ensures
            options@ == self@.options,
    {
        &self.menu_options
    }

    /// Which option is selected.
    pub fn menu_index(&self) -> (index: usize)
        ensures
            index == self@.index,
    {
        self.menu_index
    }

    /// The screen that is open, if one is.
    pub fn open_subscene(&self) -> (open: Option<Subscene>)
        ensures
            open == self@.open_subscene(),
    {
        if self.settings_active {
            Some(Subscene::Settings)
        } else if self.credits_active {
            Some(Subscene::Credits)
        } else {
            None
        }
    }

    /// Closes the screen that is open.
    pub fn close_subscene(&mut self)
        ensures
            final(self)@ == (Menu { settings_open: false, credits_open: false, ..old(self)@ }),
    {
        self.settings_active = false;
        self.credits_active = false;
    }

    /// One frame of the menu.
    ///
    /// While a screen is open the frame is handed to it. Else the option
    /// that is selected as the frame begins is taken if it is confirmed:
    /// it starts the game, opens its screen or ends the game. After that the
    /// selection moves up if that was pressed, then down if that was
    /// pressed, past either end to the other.
    pub fn update(&mut self, input: &Input) -> (outcome: MenuOutcome)
        requires
            old(self).wf(),
        ensures
            final(self)@ == old(self)@.stepped(input.pressed),
            outcome == old(self)@.outcome(input.pressed),
            final(self).wf(),
    {
        if self.settings_active {
            return MenuOutcome {
                handed_to: Some(Subscene::Settings),
                selected: false,
                moves: 0,
                switch_scene_to: None,
                request_quit: false,
            };
        }
        if self.credits_active {
            return MenuOutcome {
                handed_to: Some(Subscene::Credits),
                selected: false,
                moves: 0,
                switch_scene_to: None,
                request_quit: false,
            };
        }
        let menu_option = self.menu_options[self.menu_index];
        let mut switch_scene_to: Option<EScene> = None;
        let mut request_quit = false;
        if input.pressed.confirm {
            match menu_option {
                MenuOption::Play => {
                    switch_scene_to = Some(EScene::Gameplay);
                },
                MenuOption::Settings => {
                    self.settings_active = true;
                },
                MenuOption::Credits => {
                    self.credits_active = true;
                },
                MenuOption::Quit => {
                    request_quit = true;
                },
            }
        }
        let mut moves: u8 = 0;
        if input.pressed.up {
            moves += 1;
            if self.menu_index == 0 {
                self.menu_index = self.menu_options.len() - 1;
            } else {
                self.menu_index -= 1;
            }
        }
        if input.pressed.down {
            moves += 1;
            if self.menu_index == self.menu_options.len() - 1 {
                self.menu_index = 0;
            } else {
                self.menu_index += 1;
            }
        }
        MenuOutcome {
            handed_to: None,
            selected: input.pressed.confirm,
            moves,
            switch_scene_to,
            request_quit,
        }
    }

    /// What there is to draw.
    ///
    /// While a screen is open, that screen. Else, from the top: the name of
    /// the game as the title, the options one below the other with the
    /// selected one marked, the line that tells the keys, and the version.
    pub fn draw(&self) -> (picture: MenuPicture)
        requires
            self.wf(),
        ensures
            match picture {
                MenuPicture::Handed(subscene) => self@.open_subscene() == Some(subscene),
                MenuPicture::Texts(texts) => {
                    let n = self@.options.len() as int;
                    &&& self@.open_subscene().is_none()
                    &&& texts@.len() == n + 3
                    &&& texts@[0].is(PKG_NAME@, X_INSET as int, TITLE_Y_INSET as int, Size::Large, false)
                    &&& forall|i: int|
                        0 <= i < n ==> (#[trigger] texts@[i + 1]).is(
                            self@.options[i].label(),
                            X_INSET as int,
                            OPTIONS_Y + i * OPTION_STEP,
                            Size::Medium,
                            i == self@.index,
                        )
                    &&& texts@[n + 1].is(
                        HELP@,
                        X_INSET as int,
                        VIRTUAL_HEIGHT - FOOT_INSET,
                        Size::Small,
                        false,
                    )
                    &&& texts@[n + 2].is(
                        seq!['v'] + VERSION@,
                        FOOT_INSET as int,
                        VIRTUAL_HEIGHT - FOOT_INSET,
                        Size::Small,
                        false,
                    )
                },
            },
    {
        if self.settings_active {
            return MenuPicture::Handed(Subscene::Settings);
        }
        if self.credits_active {
            return MenuPicture::Handed(Subscene::Credits);
        }
        let mut texts: Vec<Text> = Vec::new();
        texts.push(
            Text {
                text: PKG_NAME.to_owned(),
                x: X_INSET,
                y: TITLE_Y_INSET,
                size: Size::Large,
                selected: false,
            },
        );
        let mut i: usize = 0;
        let mut y: i32 = OPTIONS_Y;
        while i < self.menu_options.len()
            invariant
                self.wf(),
                i <= self.menu_options@.len() == 4,
                y == OPTIONS_Y + i * OPTION_STEP,
                texts@.len() == i + 1,
                texts@[0].is(PKG_NAME@, X_INSET as int, TITLE_Y_INSET as int, Size::Large, false),
                forall|k: int|
                    0 <= k < i ==> (#[trigger] texts@[k + 1]).is(
                        self@.options[k].label(),
                        X_INSET as int,
                        OPTIONS_Y + k * OPTION_STEP,
                        Size::Medium,
                        k == self@.index,
                    ),
            decreases self.menu_options@.len() - i,
        {
            let label = self.text_for_menu_option(&self.menu_options[i]);
            texts.push(
                Text {
                    text: label.to_owned(),
                    x: X_INSET,
                    y,
                    size: Size::Medium,
                    selected: self.menu_index == i,
                },
            );
            i += 1;
            y += OPTION_STEP;
        }
        texts.push(
            Text {
                text: HELP.to_owned(),
                x: X_INSET,
                y: VIRTUAL_HEIGHT - FOOT_INSET,
                size: Size::Small,
                selected: false,
            },
        );
        texts.push(
            Text {
                text: version_label(VERSION),
                x: FOOT_INSET,
                y: VIRTUAL_HEIGHT - FOOT_INSET,
                size: Size::Small,
                selected: false,
            },
        );
        MenuPicture::Texts(texts)
    }
}

} // verus!
