//! The decisions of the main menu dialogue: which question comes next, what
//! is shown, and when the files are renamed, for each answer of the user.

use vstd::prelude::*;

use crate::text::{confirmation, confirmation_of, owned, same_text, uppercase, Confirmation};

verus! {

/// The question that opens the main menu.
pub const OPTION_PROMPT: &'static str = "Enter the number corresponding to the operation you'd like to perform:";

/// The question for the directory to work on.
pub const DIR_PROMPT: &'static str = "Please provide the directory name: ";

/// The question for the tagged example name.
pub const TAG_PROMPT: &'static str = "Please tag the episode in the filename using the '$' character. For example, use 'aabbccS01$01$.mp4'";

/// The question for the season.
pub const SEASON_PROMPT: &'static str = "Please enter the season number in the format 'S01'. This will be used to construct filenames like 'S01E01.mp4'.";

/// The question for the new extension.
pub const EXTENSION_PROMPT: &'static str = "Please enter the new file extension:";

/// The confirmation question for the new names.
pub const CONFIRM_NAMES_PROMPT: &'static str = "Please confirm the new filenames above. Use 'y' to proceed or 'n' to cancel.";

/// The confirmation question for the new extension.
pub const CONFIRM_EXTENSION_PROMPT: &'static str = "Please confirm the change above. Use 'y' to proceed or 'n' to cancel.";

/// The line between the steps of an operation: `*-*-*-*-*` five times.
pub const DELIMITER: &'static str = "*-*-*-*-**-*-*-*-**-*-*-*-**-*-*-*-**-*-*-*-*";

/// The answer to an option that is not offered.
pub const INVALID_OPTION: &'static str = "Invalid Option. Please choose a valid option and try again.";

/// The answer to a cancelled operation.
pub const CANCELED: &'static str = "Operation canceled by user, back to main menu.";

/// The answer to a confirmation that is neither yes nor no.
pub const UNKNOWN_INPUT: &'static str = "Unkonw input, please enter Y/N.";

/// The two operations of the main menu.
#[derive(Debug, PartialEq, Eq, Structural, Clone, Copy)]
pub enum Task {
    RenameEpisodes,
    ChangeExtension,
}

/// Where the main menu dialogue stands.
pub enum MenuState {
    /// Waits for the choice of an operation.
    Menu,
    /// Waits for the directory of an operation.
    AwaitingDir(Task),
    /// Waits for the listing of the directory.
    AwaitingListing(Task),
    /// Waits for the tagged example name.
    AwaitingTag,
    /// Waits for the season.
    AwaitingSeason { tag: String },
    /// Waits for the confirmation of the new names.
    ConfirmingNames { tag: String, season: String },
    /// Waits for the new extension.
    AwaitingExtension,
    /// Waits for the confirmation of the new extension.
    ConfirmingExtension { extension: String },
    /// The program stops.
    Exited,
}

/// A state of the main menu dialogue, with its texts as character
/// sequences.
pub enum MenuStateView {
    Menu,
    AwaitingDir(Task),
    AwaitingListing(Task),
    AwaitingTag,
    AwaitingSeason { tag: Seq<char> },
    ConfirmingNames { tag: Seq<char>, season: Seq<char> },
    AwaitingExtension,
    ConfirmingExtension { extension: Seq<char> },
    Exited,
}

impl View for MenuState {
    type V = MenuStateView;

    open spec fn view(&self) -> MenuStateView {
        match self {
            MenuState::Menu => MenuStateView::Menu,
            MenuState::AwaitingDir(t) => MenuStateView::AwaitingDir(*t),
            MenuState::AwaitingListing(t) => MenuStateView::AwaitingListing(*t),
            MenuState::AwaitingTag => MenuStateView::AwaitingTag,
            MenuState::AwaitingSeason { tag } => MenuStateView::AwaitingSeason { tag: tag@ },
            MenuState::ConfirmingNames { tag, season } => MenuStateView::ConfirmingNames {
                tag: tag@,
                season: season@,
            },
            MenuState::AwaitingExtension => MenuStateView::AwaitingExtension,
            MenuState::ConfirmingExtension { extension } => MenuStateView::ConfirmingExtension {
                extension: extension@,
            },
            MenuState::Exited => MenuStateView::Exited,
        }
    }
}

/// What the outside world reports to the main menu dialogue.
pub enum MenuEvent {
    /// The line the user entered (trimmed), or why none could be read.
    Input(Result<String, String>),
    /// The directory was listed, or why it could not be.
    Listed(Result<(), String>),
}

/// One thing for the outside world to do; a step asks for several in turn.
pub enum Effect {
    /// Print the line.
    Print(String),
    /// Print the main menu.
    ShowMenu,
    /// Ask the question and read the answer of the user.
    Ask(String),
    /// List the files of the directory and report how that went.
    ListFiles(String),
    /// Show the new names of the listed files.
    ShowNewNames { season: String, tag: String },
    /// Show the change of extension of the listed files.
    ShowExtensionChange(String),
    /// Give the listed files their episode names.
    RenameEpisodes { season: String, tag: String },
    /// Replace the extension of the listed files.
    ChangeExtension(String),
    /// Stop the program.
    Exit,
}

/// An effect, with its texts as character sequences.
pub enum EffectView {
    Print(Seq<char>),
    ShowMenu,
    Ask(Seq<char>),
    ListFiles(Seq<char>),
    ShowNewNames { season: Seq<char>, tag: Seq<char> },
    ShowExtensionChange(Seq<char>),
    RenameEpisodes { season: Seq<char>, tag: Seq<char> },
    ChangeExtension(Seq<char>),
    Exit,
}

impl View for Effect {
    type V = EffectView;

    open spec fn view(&self) -> EffectView {
        match self {
            Effect::Print(s) => EffectView::Print(s@),
            Effect::ShowMenu => EffectView::ShowMenu,
            Effect::Ask(s) => EffectView::Ask(s@),
            Effect::ListFiles(s) => EffectView::ListFiles(s@),
            Effect::ShowNewNames { season, tag } => EffectView::ShowNewNames {
                season: season@,
                tag: tag@,
            },
            Effect::ShowExtensionChange(s) => EffectView::ShowExtensionChange(s@),
            Effect::RenameEpisodes { season, tag } => EffectView::RenameEpisodes {
                season: season@,
                tag: tag@,
            },
            Effect::ChangeExtension(s) => EffectView::ChangeExtension(s@),
            Effect::Exit => EffectView::Exit,
        }
    }
}

/// The views of a list of effects.
pub open spec fn effects_view(effects: Seq<Effect>) -> Seq<EffectView> {
    effects.map_values(|e: Effect| e@)
}

/// Back to the main menu: show it and ask for an option.
pub open spec fn back_to_menu() -> Seq<EffectView> {
    seq![EffectView::ShowMenu, EffectView::Ask(OPTION_PROMPT@)]
}

/// An input error during an operation: say so and go back to the menu.
pub open spec fn error_back(error: Seq<char>) -> Seq<EffectView> {
    seq![EffectView::Print("Error: "@ + error + ", back to main menu"@)] + back_to_menu()
}

/// The step of a question of an operation: `x` leads back to the menu, an
/// input error is reported, and any other answer goes on with `then`.
pub open spec fn answer_step(
    input: Result<String, String>,
    then: spec_fn(Seq<char>) -> (MenuStateView, Seq<EffectView>),
) -> (MenuStateView, Seq<EffectView>) {
    match input {
        Ok(line) => if line@ == "x"@ {
            (MenuStateView::Menu, back_to_menu())
        } else {
            then(line@)
        },
        Err(e) => (MenuStateView::Menu, error_back(e@)),
    }
}

/// The step of a confirmation question: `x` leads back to the menu, `Y` (in
/// any case) carries out `action`, `N` cancels, another answer is asked
/// again, and an input error is reported.
pub open spec fn confirm_step(
    state: MenuStateView,
    prompt: Seq<char>,
    input: Result<String, String>,
    action: EffectView,
) -> (MenuStateView, Seq<EffectView>) {
    match input {
        Ok(line) => if line@ == "x"@ {
            (MenuStateView::Menu, back_to_menu())
        } else {
            match confirmation_of(uppercase(line@)) {
                Confirmation::Yes => (
                    MenuStateView::Menu,
                    seq![EffectView::Print(DELIMITER@), action] + back_to_menu(),
                ),
                Confirmation::No => (
                    MenuStateView::Menu,
                    seq![EffectView::Print(CANCELED@)] + back_to_menu(),
                ),
                Confirmation::Other => (
                    state,
                    seq![EffectView::Print(UNKNOWN_INPUT@), EffectView::Ask(prompt)],
                ),
            }
        },
        Err(e) => (
            MenuStateView::Menu,
            seq![EffectView::Print("Program Error: "@ + e@ + ", back to main menu."@)]
                + back_to_menu(),
        ),
    }
}

/// One step of the main menu dialogue: the next state, and what to do, from
/// `state` on `event`.
pub open spec fn menu_step(state: MenuStateView, event: MenuEvent) -> (MenuStateView, Seq<EffectView>) {
    let stop = (MenuStateView::Exited, seq![EffectView::Exit]);
    match state {
        MenuStateView::Menu => match event {
            MenuEvent::Input(Ok(option)) => if option@ == "1"@ {
                (
                    MenuStateView::AwaitingDir(Task::RenameEpisodes),
                    seq![EffectView::Ask(DIR_PROMPT@)],
                )
            } else if option@ == "2"@ {
                (
                    MenuStateView::AwaitingDir(Task::ChangeExtension),
                    seq![EffectView::Ask(DIR_PROMPT@)],
                )
            } else if option@ == "x"@ {
                stop
            } else {
                (MenuStateView::Menu, seq![EffectView::Print(INVALID_OPTION@)] + back_to_menu())
            },
            MenuEvent::Input(Err(e)) => (
                MenuStateView::Menu,
                seq![EffectView::Print(e@)] + back_to_menu(),
            ),
            MenuEvent::Listed(_) => stop,
        },
        MenuStateView::AwaitingDir(task) => match event {
            MenuEvent::Input(input) => answer_step(
                input,
                |dir: Seq<char>|
                    (
                        MenuStateView::AwaitingListing(task),
                        seq![EffectView::Print(DELIMITER@), EffectView::ListFiles(dir)],
                    ),
            ),
            MenuEvent::Listed(_) => stop,
        },
        MenuStateView::AwaitingListing(task) => match event {
            MenuEvent::Listed(Ok(())) => match task {
                Task::RenameEpisodes => (
                    MenuStateView::AwaitingTag,
                    seq![EffectView::Ask(TAG_PROMPT@)],
                ),
                Task::ChangeExtension => (
                    MenuStateView::AwaitingExtension,
                    seq![EffectView::Ask(EXTENSION_PROMPT@)],
                ),
            },
            MenuEvent::Listed(Err(e)) => (MenuStateView::Menu, error_back(e@)),
            MenuEvent::Input(_) => stop,
        },
        MenuStateView::AwaitingTag => match event {
            MenuEvent::Input(input) => answer_step(
                input,
                |tag: Seq<char>|
                    (
                        MenuStateView::AwaitingSeason { tag },
                        seq![EffectView::Print(DELIMITER@), EffectView::Ask(SEASON_PROMPT@)],
                    ),
            ),
            MenuEvent::Listed(_) => stop,
        },
        MenuStateView::AwaitingSeason { tag } => match event {
            MenuEvent::Input(input) => answer_step(
                input,
                |season: Seq<char>|
                    (
                        MenuStateView::ConfirmingNames { tag, season },
                        seq![
                            EffectView::Print(DELIMITER@),
                            EffectView::ShowNewNames { season, tag },
                            EffectView::Ask(CONFIRM_NAMES_PROMPT@),
                        ],
                    ),
            ),
            MenuEvent::Listed(_) => stop,
        },
        MenuStateView::ConfirmingNames { tag, season } => match event {
            MenuEvent::Input(input) => confirm_step(
                state,
                CONFIRM_NAMES_PROMPT@,
                input,
                EffectView::RenameEpisodes { season, tag },
            ),
            MenuEvent::Listed(_) => stop,
        },
        MenuStateView::AwaitingExtension => match event {
            MenuEvent::Input(input) => answer_step(
                input,
                |extension: Seq<char>|
                    (
                        MenuStateView::ConfirmingExtension { extension },
                        seq![
                            EffectView::Print(DELIMITER@),
                            EffectView::ShowExtensionChange(extension),
                            EffectView::Ask(CONFIRM_EXTENSION_PROMPT@),
                        ],
                    ),
            ),
            MenuEvent::Listed(_) => stop,
        },
        MenuStateView::ConfirmingExtension { extension } => match event {
            MenuEvent::Input(input) => confirm_step(
                state,
                CONFIRM_EXTENSION_PROMPT@,
                input,
                EffectView::ChangeExtension(extension),
            ),
            MenuEvent::Listed(_) => stop,
        },
        MenuStateView::Exited => stop,
    }
}

/// Show the menu and ask for an option.
fn back_to_menu_effects() -> (r: Vec<Effect>)
    ensures
        effects_view(r@) == back_to_menu(),
{
    let mut r: Vec<Effect> = Vec::new();
    r.push(Effect::ShowMenu);
    r.push(Effect::Ask(owned(OPTION_PROMPT)));
    assert(effects_view(r@) =~= back_to_menu());
    r
}

/// `first`, then back to the menu.
fn then_back(first: Effect) -> (r: Vec<Effect>)
    ensures
        effects_view(r@) == seq![first@] + back_to_menu(),
{
    let mut r: Vec<Effect> = Vec::new();
    r.push(first);
    r.push(Effect::ShowMenu);
    r.push(Effect::Ask(owned(OPTION_PROMPT)));
    assert(effects_view(r@) =~= seq![r@[0]@] + back_to_menu());
    r
}

/// The effects `a`, `b`.
fn two(a: Effect, b: Effect) -> (r: Vec<Effect>)
    ensures
        effects_view(r@) == seq![a@, b@],
{
    let mut r: Vec<Effect> = Vec::new();
    r.push(a);
    r.push(b);
    assert(effects_view(r@) =~= seq![a@, b@]);
    r
}

/// The effects `a`, `b`, `c`.
fn three(a: Effect, b: Effect, c: Effect) -> (r: Vec<Effect>)
    ensures
        effects_view(r@) == seq![a@, b@, c@],
{
    let mut r: Vec<Effect> = Vec::new();
    r.push(a);
    r.push(b);
    r.push(c);
    assert(effects_view(r@) =~= seq![a@, b@, c@]);
    r
}

/// The single effect `a`.
fn one(a: Effect) -> (r: Vec<Effect>)
    ensures
        effects_view(r@) == seq![a@],
{
    let mut r: Vec<Effect> = Vec::new();
    r.push(a);
    assert(effects_view(r@) =~= seq![a@]);
    r
}

/// The text `a`, then `b`, then `c`.
fn joined3(a: &str, b: &str, c: &str) -> (r: String)
    ensures
        r@ == a@ + b@ + c@,
{
    let mut r = owned(a);
    r.append(b);
    r.append(c);
    r
}

/// Stop the program.
fn stop() -> (r: (MenuState, Vec<Effect>))
    ensures
        r.0@ == MenuStateView::Exited,
        effects_view(r.1@) == seq![EffectView::Exit],
{
    (MenuState::Exited, one(Effect::Exit))
}

/// The error of a step of an operation: say so and go back to the menu.
fn error_back_effects(error: &str) -> (r: Vec<Effect>)
    ensures
        effects_view(r@) == error_back(error@),
{
    then_back(Effect::Print(joined3("Error: ", error, ", back to main menu")))
}

impl MenuState {
    /// The start of the dialogue: show the menu and ask for an option.
    pub fn start() -> (r: (MenuState, Vec<Effect>))
        ensures
            r.0@ == MenuStateView::Menu,
            effects_view(r.1@) == back_to_menu(),
    {
        (MenuState::Menu, back_to_menu_effects())
    }

    /// The step of a confirmation question.
    fn confirm(
        self,
        prompt: &str,
        input: Result<String, String>,
        action: Effect,
    ) -> (r: (MenuState, Vec<Effect>))
        ensures
            r.0@ == confirm_step(self@, prompt@, input, action@).0,
            effects_view(r.1@) == confirm_step(self@, prompt@, input, action@).1,
    {
        match input {
            Ok(line) => {
                if same_text(line.as_str(), "x") {
                    (MenuState::Menu, back_to_menu_effects())
                } else {
                    match confirmation(line.as_str()) {
                        Confirmation::Yes => {
                            let mut r = two(Effect::Print(owned(DELIMITER)), action);
                            r.push(Effect::ShowMenu);
                            r.push(Effect::Ask(owned(OPTION_PROMPT)));
                            assert(effects_view(r@) =~= seq![
                                EffectView::Print(DELIMITER@),
                                action@,
                            ] + back_to_menu());
                            (MenuState::Menu, r)
                        },
                        Confirmation::No => (
                            MenuState::Menu,
                            then_back(Effect::Print(owned(CANCELED))),
                        ),
                        Confirmation::Other => (
                            self,
                            two(Effect::Print(owned(UNKNOWN_INPUT)), Effect::Ask(owned(prompt))),
                        ),
                    }
                }
            },
            Err(e) => (
                MenuState::Menu,
                then_back(
                    Effect::Print(joined3("Program Error: ", e.as_str(), ", back to main menu.")),
                ),
            ),
        }
    }

    /// The next state of the dialogue, and what to do in turn, after `event`.
    pub fn next(self, event: MenuEvent) -> (r: (MenuState, Vec<Effect>))
        ensures
            r.0@ == menu_step(self@, event).0,
            effects_view(r.1@) == menu_step(self@, event).1,
    {
        match self {
            MenuState::Menu => match event {
                MenuEvent::Input(Ok(option)) => {
                    if same_text(option.as_str(), "1") {
                        (
                            MenuState::AwaitingDir(Task::RenameEpisodes),
                            one(Effect::Ask(owned(DIR_PROMPT))),
                        )
                    } else if same_text(option.as_str(), "2") {
                        (
                            MenuState::AwaitingDir(Task::ChangeExtension),
                            one(Effect::Ask(owned(DIR_PROMPT))),
                        )
                    } else if same_text(option.as_str(), "x") {
                        stop()
                    } else {
                        (MenuState::Menu, then_back(Effect::Print(owned(INVALID_OPTION))))
                    }
                },
                MenuEvent::Input(Err(e)) => (MenuState::Menu, then_back(Effect::Print(e))),
                MenuEvent::Listed(_) => stop(),
            },
            MenuState::AwaitingDir(task) => match event {
                MenuEvent::Input(Ok(dir)) => {
                    if same_text(dir.as_str(), "x") {
                        (MenuState::Menu, back_to_menu_effects())
                    } else {
                        (
                            MenuState::AwaitingListing(task),
                            two(Effect::Print(owned(DELIMITER)), Effect::ListFiles(dir)),
                        )
                    }
                },
                MenuEvent::Input(Err(e)) => (MenuState::Menu, error_back_effects(e.as_str())),
                MenuEvent::Listed(_) => stop(),
            },
            MenuState::AwaitingListing(task) => match event {
                MenuEvent::Listed(Ok(())) => match task {
                    Task::RenameEpisodes => (
                        MenuState::AwaitingTag,
                        one(Effect::Ask(owned(TAG_PROMPT))),
                    ),
                    Task::ChangeExtension => (
                        MenuState::AwaitingExtension,
                        one(Effect::Ask(owned(EXTENSION_PROMPT))),
                    ),
                },
                MenuEvent::Listed(Err(e)) => (MenuState::Menu, error_back_effects(e.as_str())),
                MenuEvent::Input(_) => stop(),
            },
            MenuState::AwaitingTag => match event {
                MenuEvent::Input(Ok(tag)) => {
                    if same_text(tag.as_str(), "x") {
                        (MenuState::Menu, back_to_menu_effects())
                    } else {
                        (
                            MenuState::AwaitingSeason { tag },
                            two(Effect::Print(owned(DELIMITER)), Effect::Ask(owned(SEASON_PROMPT))),
                        )
                    }
                },
                MenuEvent::Input(Err(e)) => (MenuState::Menu, error_back_effects(e.as_str())),
                MenuEvent::Listed(_) => stop(),
            },
            MenuState::AwaitingSeason { tag } => match event {
                MenuEvent::Input(Ok(season)) => {
                    if same_text(season.as_str(), "x") {
                        (MenuState::Menu, back_to_menu_effects())
                    } else {
                        let shown = Effect::ShowNewNames {
                            season: owned(season.as_str()),
                            tag: owned(tag.as_str()),
                        };
                        (
                            MenuState::ConfirmingNames { tag, season },
                            three(
                                Effect::Print(owned(DELIMITER)),
                                shown,
                                Effect::Ask(owned(CONFIRM_NAMES_PROMPT)),
                            ),
                        )
                    }
                },
                MenuEvent::Input(Err(e)) => (MenuState::Menu, error_back_effects(e.as_str())),
                MenuEvent::Listed(_) => stop(),
            },
            MenuState::ConfirmingNames { tag, season } => match event {
                MenuEvent::Input(input) => {
                    let action = Effect::RenameEpisodes {
                        season: owned(season.as_str()),
                        tag: owned(tag.as_str()),
                    };
                    MenuState::ConfirmingNames { tag, season }.confirm(
                        CONFIRM_NAMES_PROMPT,
                        input,
                        action,
                    )
                },
                MenuEvent::Listed(_) => stop(),
            },
            MenuState::AwaitingExtension => match event {
                MenuEvent::Input(Ok(extension)) => {
                    if same_text(extension.as_str(), "x") {
                        (MenuState::Menu, back_to_menu_effects())
                    } else {
                        let shown = Effect::ShowExtensionChange(owned(extension.as_str()));
                        (
                            MenuState::ConfirmingExtension { extension },
                            three(
                                Effect::Print(owned(DELIMITER)),
                                shown,
                                Effect::Ask(owned(CONFIRM_EXTENSION_PROMPT)),
                            ),
                        )
                    }
                },
                MenuEvent::Input(Err(e)) => (MenuState::Menu, error_back_effects(e.as_str())),
                MenuEvent::Listed(_) => stop(),
            },
            MenuState::ConfirmingExtension { extension } => match event {
                MenuEvent::Input(input) => {
                    let action = Effect::ChangeExtension(owned(extension.as_str()));
                    MenuState::ConfirmingExtension { extension }.confirm(
                        CONFIRM_EXTENSION_PROMPT,
                        input,
                        action,
                    )
                },
                MenuEvent::Listed(_) => stop(),
            },
            MenuState::Exited => stop(),
        }
    }
}

/// Whether the dialogue waits for an answer to a question of an operation.
pub open spec fn in_operation_question(state: MenuStateView) -> bool {
    ||| state is AwaitingDir
    ||| state is AwaitingTag
    ||| state is AwaitingSeason
    ||| state is ConfirmingNames
    ||| state is AwaitingExtension
    ||| state is ConfirmingExtension
}

/// At every question of an operation, `x` leads back to the main menu.
pub proof fn lemma_x_leads_back(state: MenuStateView, line: String)
    requires
        in_operation_question(state),
        line@ == "x"@,
    ensures
        menu_step(state, MenuEvent::Input(Ok(line))).0 == MenuStateView::Menu,
        menu_step(state, MenuEvent::Input(Ok(line))).1 == back_to_menu(),
{
}

/// Files get episode names only where the user answered the confirmation
/// of the new names with `Y` (in any case), and with the season and tag of
/// the names that were confirmed.
pub proof fn lemma_rename_needs_confirmation(state: MenuStateView, event: MenuEvent, i: int)
    requires
        0 <= i < menu_step(state, event).1.len(),
        menu_step(state, event).1[i] is RenameEpisodes,
    ensures
        state matches MenuStateView::ConfirmingNames { tag, season } && menu_step(state, event).1[i]
            == (EffectView::RenameEpisodes { season, tag }),
        event matches MenuEvent::Input(Ok(line)) && confirmation_of(uppercase(line@))
            == Confirmation::Yes,
{
}

/// Extensions are replaced only where the user answered the confirmation of
/// the change with `Y` (in any case), and by the extension that was
/// confirmed.
pub proof fn lemma_extension_change_needs_confirmation(
    state: MenuStateView,
    event: MenuEvent,
    i: int,
)
    requires
        0 <= i < menu_step(state, event).1.len(),
        menu_step(state, event).1[i] is ChangeExtension,
    ensures
        state matches MenuStateView::ConfirmingExtension { extension } && menu_step(
            state,
            event,
        ).1[i] == EffectView::ChangeExtension(extension),
        event matches MenuEvent::Input(Ok(line)) && confirmation_of(uppercase(line@))
            == Confirmation::Yes,
{
}

/// The new names are shown before they are confirmed: a step that leads to
/// their confirmation either shows them, or stays at that confirmation.
pub proof fn lemma_names_shown_before_confirmation(state: MenuStateView, event: MenuEvent)
    requires
        menu_step(state, event).0 is ConfirmingNames,
    ensures
        ({
            let (next, effects) = menu_step(state, event);
            ||| state == next
            ||| next matches MenuStateView::ConfirmingNames { tag, season } && effects.contains(
                EffectView::ShowNewNames { season, tag },
            )
        }),
{
}

/// The change of extension is shown before it is confirmed.
pub proof fn lemma_extension_shown_before_confirmation(state: MenuStateView, event: MenuEvent)
    requires
        menu_step(state, event).0 is ConfirmingExtension,
    ensures
        ({
            let (next, effects) = menu_step(state, event);
            ||| state == next
            ||| next matches MenuStateView::ConfirmingExtension { extension } && effects.contains(
                EffectView::ShowExtensionChange(extension),
            )
        }),
{
}

/// A confirmed renaming is carried out: at the confirmation of the new
/// names, an answer other than `x` whose upper-case form is `Y` gives the
/// files their episode names with the confirmed season and tag, then goes
/// back to the menu.
pub proof fn lemma_confirmed_renaming_is_done(tag: Seq<char>, season: Seq<char>, line: String)
    requires
        line@ != "x"@,
        uppercase(line@) == seq!['Y'],
    ensures
        ({
            let (next, effects) = menu_step(
                MenuStateView::ConfirmingNames { tag, season },
                MenuEvent::Input(Ok(line)),
            );
            &&& next == MenuStateView::Menu
            &&& effects.contains(EffectView::RenameEpisodes { season, tag })
            &&& effects.last() == EffectView::Ask(OPTION_PROMPT@)
        }),
{
    let (next, effects) = menu_step(
        MenuStateView::ConfirmingNames { tag, season },
        MenuEvent::Input(Ok(line)),
    );
    assert(effects[1] == EffectView::RenameEpisodes { season, tag });
}

/// A confirmed change of extension is carried out: at the confirmation of
/// the change, an answer other than `x` whose upper-case form is `Y`
/// replaces the extensions by the confirmed one, then goes back to the menu.
pub proof fn lemma_confirmed_extension_change_is_done(extension: Seq<char>, line: String)
    requires
        line@ != "x"@,
        uppercase(line@) == seq!['Y'],
    ensures
        ({
            let (next, effects) = menu_step(
                MenuStateView::ConfirmingExtension { extension },
                MenuEvent::Input(Ok(line)),
            );
            &&& next == MenuStateView::Menu
            &&& effects.contains(EffectView::ChangeExtension(extension))
            &&& effects.last() == EffectView::Ask(OPTION_PROMPT@)
        }),
{
    let (next, effects) = menu_step(
        MenuStateView::ConfirmingExtension { extension },
        MenuEvent::Input(Ok(line)),
    );
    assert(effects[1] == EffectView::ChangeExtension(extension));
}

/// A failed listing ends the operation, whatever it was: the error is
/// printed and the dialogue is back at the menu, asking for an option.
pub proof fn lemma_failed_listing_reported(task: Task, error: String)
    ensures
        menu_step(MenuStateView::AwaitingListing(task), MenuEvent::Listed(Err(error))).0
            == MenuStateView::Menu,
        menu_step(MenuStateView::AwaitingListing(task), MenuEvent::Listed(Err(error))).1 == seq![
            EffectView::Print("Error: "@ + error@ + ", back to main menu"@),
            EffectView::ShowMenu,
            EffectView::Ask(OPTION_PROMPT@),
        ],
{
    assert(menu_step(MenuStateView::AwaitingListing(task), MenuEvent::Listed(Err(error))).1
        =~= seq![
        EffectView::Print("Error: "@ + error@ + ", back to main menu"@),
        EffectView::ShowMenu,
        EffectView::Ask(OPTION_PROMPT@),
    ]);
}

} // verus!
