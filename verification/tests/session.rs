use mylib::session::{
    Effect, MenuEvent, MenuState, Task, CANCELED, DELIMITER, DIR_PROMPT, OPTION_PROMPT,
};

fn input(s: &str) -> MenuEvent {
    MenuEvent::Input(Ok(s.to_string()))
}

fn is_back_to_menu(e: &[Effect]) -> bool {
    e.len() == 2
        && matches!(e[0], Effect::ShowMenu)
        && matches!(e[1], Effect::Ask(ref p) if p == OPTION_PROMPT)
}

#[test]
fn delimiter_is_five_marks() {
    assert_eq!(DELIMITER, "*-*-*-*-*".repeat(5));
}

#[test]
fn menu_starts_with_the_menu() {
    let (s, e) = MenuState::start();
    assert!(matches!(s, MenuState::Menu));
    assert!(is_back_to_menu(&e));
}

#[test]
fn menu_options() {
    let (s, e) = MenuState::Menu.next(input("1"));
    assert!(matches!(s, MenuState::AwaitingDir(Task::RenameEpisodes)));
    assert!(matches!(e[..], [Effect::Ask(ref p)] if p == DIR_PROMPT));
    let (s, _) = MenuState::Menu.next(input("2"));
    assert!(matches!(s, MenuState::AwaitingDir(Task::ChangeExtension)));
    let (s, e) = MenuState::Menu.next(input("x"));
    assert!(matches!(s, MenuState::Exited));
    assert!(matches!(e[..], [Effect::Exit]));
    let (s, e) = MenuState::Menu.next(input("3"));
    assert!(matches!(s, MenuState::Menu));
    assert!(matches!(e[0], Effect::Print(ref t) if t == "Invalid Option. Please choose a valid option and try again."));
    assert!(is_back_to_menu(&e[1..]));
    let (_, e) = MenuState::Menu.next(MenuEvent::Input(Err("Error reading input: eof".to_string())));
    assert!(matches!(e[0], Effect::Print(ref t) if t == "Error reading input: eof"));
}

#[test]
fn rename_episodes_dialogue() {
    let (s, _) = MenuState::Menu.next(input("1"));
    let (s, e) = s.next(input("/tv"));
    assert!(matches!(e[..], [Effect::Print(ref d), Effect::ListFiles(ref dir)] if d == DELIMITER && dir == "/tv"));
    let (s, e) = s.next(MenuEvent::Listed(Ok(())));
    assert!(matches!(s, MenuState::AwaitingTag));
    assert_eq!(e.len(), 1);
    let (s, _) = s.next(input("show01$01$.mp4"));
    let (s, e) = s.next(input("S01"));
    assert!(matches!(e[1], Effect::ShowNewNames { ref season, ref tag } if season == "S01" && tag == "show01$01$.mp4"));
    let (s, e) = s.next(input("maybe"));
    assert!(matches!(s, MenuState::ConfirmingNames { .. }));
    assert!(matches!(e[0], Effect::Print(ref t) if t == "Unkonw input, please enter Y/N."));
    let (s, e) = s.next(input("Y"));
    assert!(matches!(s, MenuState::Menu));
    assert!(matches!(e[1], Effect::RenameEpisodes { ref season, ref tag } if season == "S01" && tag == "show01$01$.mp4"));
    assert!(is_back_to_menu(&e[2..]));
}

#[test]
fn change_extension_dialogue_cancelled() {
    let (s, _) = MenuState::Menu.next(input("2"));
    let (s, _) = s.next(input("/m"));
    let (s, e) = s.next(MenuEvent::Listed(Ok(())));
    assert!(matches!(s, MenuState::AwaitingExtension));
    assert!(matches!(e[..], [Effect::Ask(_)]));
    let (s, e) = s.next(input("mp4"));
    assert!(matches!(e[1], Effect::ShowExtensionChange(ref x) if x == "mp4"));
    let (s, e) = s.next(input("n"));
    assert!(matches!(s, MenuState::Menu));
    assert!(matches!(e[0], Effect::Print(ref t) if t == CANCELED));
}

#[test]
fn x_leads_back_to_menu() {
    let (s, _) = MenuState::Menu.next(input("2"));
    let (s, e) = s.next(input("x"));
    assert!(matches!(s, MenuState::Menu));
    assert!(is_back_to_menu(&e));
    let s = MenuState::ConfirmingExtension { extension: "mp4".to_string() };
    let (s, e) = s.next(input("x"));
    assert!(matches!(s, MenuState::Menu));
    assert!(is_back_to_menu(&e));
}

#[test]
fn errors_lead_back_to_menu() {
    let (s, _) = MenuState::Menu.next(input("1"));
    let (s, _) = s.next(input("/none"));
    let (s, e) = s.next(MenuEvent::Listed(Err("文件或目录不存在".to_string())));
    assert!(matches!(s, MenuState::Menu));
    assert!(matches!(e[0], Effect::Print(ref t) if t == "Error: 文件或目录不存在, back to main menu"));
    let s = MenuState::ConfirmingNames { tag: "t".to_string(), season: "s".to_string() };
    let (_, e) = s.next(MenuEvent::Input(Err("eof".to_string())));
    assert!(matches!(e[0], Effect::Print(ref t) if t == "Program Error: eof, back to main menu."));
}
