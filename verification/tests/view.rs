use gitswitch::git::{Identity, Scope};
use gitswitch::model::Account;
use gitswitch::secrets::MemoryStore;
use gitswitch::service::{Service, Status};
use gitswitch::store::Store;
use gitswitch::testing::{gh_status_output, MockRunner};
use gitswitch::tui::app::{App, KeyCode, KeyEvent, KeyModifiers, Level, Screen, Toast};
use gitswitch::tui::view::{
    account_row, busy_lines, confirm_lines, dependency_line, details_lines, footer_pieces,
    form_lines, header_lines, help_lines, onboarding_lines, toast_pieces, Piece, Tone,
};

fn text(lines: &[Vec<Piece>]) -> String {
    lines
        .iter()
        .map(|l| l.iter().map(|p| p.text.as_str()).collect::<String>())
        .collect::<Vec<_>>()
        .join("\n")
}

/// Everything the interface shows for `app`, as text.
fn render(app: &App<'_, MockRunner, MemoryStore>) -> String {
    let keychain = app.keychain_available();
    let mut parts = vec![text(&header_lines(&app.status, app.scope, app.accounts().len(), keychain))];
    match &app.screen {
        Screen::Onboarding => parts.push(text(&onboarding_lines(&app.status, keychain))),
        _ => {
            let rows: Vec<Vec<Piece>> = app
                .accounts()
                .iter()
                .enumerate()
                .map(|(i, a)| account_row(i, a, app.active_name()))
                .collect();
            parts.push(text(&rows));
            parts.push(text(&details_lines(app.selected_account(), app.active_name())));
        }
    }
    if let Some(t) = &app.toast {
        parts.push(text(&[toast_pieces(t)]));
    }
    parts.push(text(&[footer_pieces(&app.screen, 110)]));
    match &app.screen {
        Screen::Form(form) => {
            parts.push(form.title.clone());
            parts.push(text(&form_lines(form)));
        }
        Screen::Confirm(c) => {
            parts.push(c.title.clone());
            parts.push(text(&confirm_lines(c)));
        }
        Screen::Help => {
            parts.push("Keyboard".to_string());
            parts.push(text(&help_lines()));
        }
        _ => {}
    }
    if let Some(busy) = &app.busy {
        parts.push(text(&busy_lines(busy)));
    }
    parts.join("\n")
}

fn runner() -> MockRunner {
    MockRunner::new()
        .ok("git --version", "git version 2.55.0")
        .ok("gh --version", "gh version 2.97.0")
        .ok("git config --get user.name", "Octo Cat")
        .ok("git config --get user.email", "octo@example.com")
        .ok("git config", "")
        .ok("gh auth setup-git", "")
        .ok(
            "gh auth status",
            &gh_status_output("github.com", &[("octocat", true)]),
        )
}

fn service(runner: MockRunner, accounts: &[(&str, &str)], active: Option<&str>) -> Service<MockRunner, MemoryStore> {
    let mut store = Store::empty("accounts.json");
    for (name, username) in accounts {
        store
            .add(Account::new(name, username, "Octo Cat", "octo@example.com"))
            .unwrap();
    }
    if let Some(active) = active {
        store.set_active(active).unwrap();
    }
    Service::new(runner, MemoryStore::new(), store)
}

fn key(code: KeyCode) -> KeyEvent {
    KeyEvent::new(code, KeyModifiers::none())
}

#[test]
fn the_main_screen_shows_identity_accounts_and_actions() {
    let mut service = service(runner(), &[("personal", "octocat"), ("work", "work-bot")], Some("personal"));
    let app = App::new(&mut service);
    let screen = render(&app);
    assert!(screen.contains("personal"));
    assert!(screen.contains("work"));
    assert!(screen.contains("octocat"));
    assert!(screen.contains("Octo Cat"));
    assert!(screen.contains("authenticated as octocat"));
    assert!(screen.contains("switch"));
    assert!(screen.contains("quit"));
}

#[test]
fn onboarding_explains_the_tool_and_lists_requirements() {
    let mut service = service(runner(), &[], None);
    let app = App::new(&mut service);
    let screen = render(&app);
    assert_eq!(app.screen, Screen::Onboarding);
    assert!(screen.contains("Welcome to gitswitch"));
    assert!(screen.contains("Requirements"));
    assert!(screen.contains("git version 2.55.0"));
    assert!(screen.contains("gh version 2.97.0"));
    assert!(screen.contains("to add your first account"));
}

#[test]
fn missing_dependencies_are_called_out_during_onboarding() {
    let mut service = service(MockRunner::new().missing("git").missing("gh"), &[], None);
    let app = App::new(&mut service);
    let screen = render(&app);
    assert!(screen.contains("git-scm.com"));
    assert!(screen.contains("cli.github.com"));
}

#[test]
fn the_add_form_masks_the_token_field() {
    let mut service = service(runner(), &[], None);
    let mut app = App::new(&mut service);
    app.on_key(key(KeyCode::Char('a')));
    if let Screen::Form(form) = &mut app.screen {
        form.cursor = 5;
    }
    for ch in "ghp_EXAMPLE".chars() {
        app.on_key(key(KeyCode::Char(ch)));
    }
    let screen = render(&app);
    assert!(screen.contains("Add account"));
    assert!(!screen.contains("ghp_"));
    assert!(screen.contains("\u{2022}\u{2022}\u{2022}"));
}

#[test]
fn removal_shows_a_destructive_confirmation() {
    let mut service = service(runner(), &[("personal", "octocat")], None);
    let mut app = App::new(&mut service);
    app.on_key(key(KeyCode::Char('d')));
    let screen = render(&app);
    assert!(screen.contains("Remove account"));
    assert!(screen.contains("cannot be undone"));
    assert!(screen.contains("gh auth logout"));
}

#[test]
fn a_successful_switch_is_confirmed_on_screen() {
    let mut service = service(runner(), &[("personal", "octocat")], None);
    let mut app = App::new(&mut service);
    app.on_key(key(KeyCode::Enter));
    app.run_pending();
    let screen = render(&app);
    assert!(screen.contains("Now using personal"));
}

#[test]
fn the_help_overlay_documents_every_shortcut() {
    let mut service = service(runner(), &[("personal", "octocat")], None);
    let mut app = App::new(&mut service);
    app.on_key(key(KeyCode::Char('?')));
    let screen = render(&app);
    assert!(screen.contains("Keyboard"));
    assert!(screen.contains("rename the selected account"));
    assert!(screen.contains("Ctrl-C"));
}

#[test]
fn the_loading_state_is_visible() {
    let mut service = service(runner(), &[("personal", "octocat")], None);
    let mut app = App::new(&mut service);
    app.on_key(key(KeyCode::Enter));
    app.busy = Some(app.pending.as_ref().unwrap().label().to_string());
    let screen = render(&app);
    assert!(screen.contains("Switching account"));
}

#[test]
fn the_footer_falls_back_to_the_compact_hints() {
    let wide = footer_pieces(&Screen::Accounts, 114);
    let narrow = footer_pieces(&Screen::Accounts, 113);
    assert_eq!(wide.len(), 22);
    assert_eq!(narrow.len(), 12);
    assert_eq!(narrow[0].text, " \u{2191}\u{2193} ");
    assert_eq!(narrow[1].tone, Tone::Label);
}

#[test]
fn header_rows_are_labelled() {
    let status = Status {
        gh_installed: false,
        identity: Identity { name: None, email: Some("octo@example.com".to_string()) },
        ..Status::default()
    };
    let lines = header_lines(&status, Scope::Global, 3, true);
    assert_eq!(lines[0][0].text, "Account   ");
    assert_eq!(lines[0][1].text, "no account selected");
    assert_eq!(lines[1][1].text, "unset <octo@example.com>");
    assert_eq!(lines[2][1].text, "gh is not installed");
    assert_eq!(lines[2][1].tone, Tone::Bad);
    assert_eq!(lines[3][1].text, "global config \u{2022} 3 accounts \u{2022} keychain on");
}

#[test]
fn rows_and_details_follow_the_active_account() {
    let a = Account::new("work", "work-bot", "Work Bot", "bot@example.com");
    let row = account_row(1, &a, Some("work"));
    assert_eq!(row[0].text, "2 ");
    assert_eq!(row[1].text, "\u{25cf} ");
    assert_eq!(row[2].text, "work            ");
    let details = details_lines(Some(&a), None);
    assert_eq!(details[7][0].text, "Press \u{21b5} to switch to it.");
    assert_eq!(details_lines(None, None)[0][0].text, "No account selected.");
    let dep = dependency_line("gh", false, None);
    assert_eq!(dep[0].text, "  \u{2717} ");
    assert_eq!(dep[2].text, "missing");
}

#[test]
fn notices_carry_their_mark_and_hint() {
    let t = Toast { level: Level::Warning, text: "careful".to_string(), hint: Some("next".to_string()) };
    let pieces = toast_pieces(&t);
    assert_eq!(pieces[0].text, "\u{26a0} ");
    assert_eq!(pieces[1].text, "careful");
    assert_eq!(pieces[2].text, "  \u{2014} next");
}
