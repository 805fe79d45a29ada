use gitswitch::git::Scope;
use gitswitch::model::{Account, DEFAULT_HOST};
use gitswitch::secrets::MemoryStore;
use gitswitch::service::Service;
use gitswitch::store::Store;
use gitswitch::testing::{gh_status_output, MockRunner};
use gitswitch::tui::app::{
    App, Effect, FormKind, KeyCode, KeyEvent, KeyModifiers, Level, Pending, Screen,
};

fn key(code: KeyCode) -> KeyEvent {
    KeyEvent::new(code, KeyModifiers::none())
}

fn type_text(app: &mut App<'_, MockRunner, MemoryStore>, text: &str) {
    for ch in text.chars() {
        app.on_key(key(KeyCode::Char(ch)));
    }
}

fn service(runner: MockRunner) -> Service<MockRunner, MemoryStore> {
    Service::new(runner, MemoryStore::new(), Store::empty("accounts.json"))
}

fn ready_runner() -> MockRunner {
    MockRunner::new()
        .ok("git --version", "git version 2.55.0")
        .ok("gh --version", "gh version 2.97.0")
        .ok("git config", "")
        .ok("gh auth setup-git", "")
        .ok(
            "gh auth status",
            &gh_status_output("github.com", &[("octocat", true)]),
        )
}

fn account(name: &str, username: &str) -> Account {
    Account::new(name, username, "Octo Cat", "octo@example.com")
}

#[test]
fn an_empty_store_opens_the_onboarding_screen() {
    let mut service = service(ready_runner());
    let app = App::new(&mut service);
    assert_eq!(app.screen, Screen::Onboarding);
}

#[test]
fn onboarding_leads_into_the_add_form() {
    let mut service = service(ready_runner());
    let mut app = App::new(&mut service);
    app.on_key(key(KeyCode::Char('a')));
    assert!(matches!(&app.screen, Screen::Form(form) if form.kind == FormKind::Add));
}

#[test]
fn the_list_opens_on_the_active_account() {
    let mut service = service(ready_runner());
    service
        .store_mut()
        .add(account("personal", "octocat"))
        .unwrap();
    service
        .store_mut()
        .add(account("work", "work-bot"))
        .unwrap();
    service.store_mut().set_active("work").unwrap();

    let app = App::new(&mut service);
    assert_eq!(app.screen, Screen::Accounts);
    assert_eq!(app.selected_account().unwrap().name, "work");
}

#[test]
fn arrow_keys_move_the_selection_without_wrapping() {
    let mut service = service(ready_runner());
    service
        .store_mut()
        .add(account("personal", "octocat"))
        .unwrap();
    service
        .store_mut()
        .add(account("work", "work-bot"))
        .unwrap();

    let mut app = App::new(&mut service);
    app.on_key(key(KeyCode::Up));
    assert_eq!(app.selected, 0);
    app.on_key(key(KeyCode::Down));
    assert_eq!(app.selected, 1);
    app.on_key(key(KeyCode::Down));
    assert_eq!(app.selected, 1);
}

#[test]
fn enter_switches_the_selected_account() {
    let mut service = service(ready_runner());
    service
        .store_mut()
        .add(account("personal", "octocat"))
        .unwrap();

    let mut app = App::new(&mut service);
    app.on_key(key(KeyCode::Enter));
    assert_eq!(app.pending, Some(Pending::Switch("personal".into())));
    app.run_pending();

    assert_eq!(app.toast.as_ref().unwrap().level, Level::Success);
    assert_eq!(app.active_name(), Some("personal"));
}

#[test]
fn a_failed_switch_becomes_an_error_toast_with_a_hint() {
    let runner = MockRunner::new()
        .ok("git --version", "git version 2.55.0")
        .ok("gh --version", "gh version 2.97.0")
        .ok("git config", "")
        .status("gh auth status", 1, "", "not logged in");
    let mut service = service(runner);
    service
        .store_mut()
        .add(account("personal", "octocat"))
        .unwrap();

    let mut app = App::new(&mut service);
    app.on_key(key(KeyCode::Enter));
    app.run_pending();

    let toast = app.toast.as_ref().unwrap();
    assert_eq!(toast.level, Level::Error);
    assert!(toast.hint.is_some());
    assert!(app.active_name().is_none());
}

#[test]
fn number_keys_switch_directly() {
    let mut service = service(ready_runner());
    service
        .store_mut()
        .add(account("personal", "octocat"))
        .unwrap();
    service.store_mut().add(account("work", "octocat")).unwrap();

    let mut app = App::new(&mut service);
    app.on_key(key(KeyCode::Char('2')));
    assert_eq!(app.pending, Some(Pending::Switch("work".into())));
}

#[test]
fn the_add_form_saves_an_account() {
    let mut service = service(ready_runner());
    let mut app = App::new(&mut service);

    app.on_key(key(KeyCode::Char('a')));
    type_text(&mut app, "work");
    app.on_key(key(KeyCode::Tab));
    type_text(&mut app, "work-bot");
    app.on_key(key(KeyCode::Tab));
    type_text(&mut app, "Work Bot");
    app.on_key(key(KeyCode::Tab));
    type_text(&mut app, "bot@example.com");
    app.on_key(key(KeyCode::Tab));
    app.on_key(key(KeyCode::Tab));
    app.on_key(key(KeyCode::Enter));
    app.run_pending();

    assert_eq!(app.screen, Screen::Accounts);
    assert_eq!(app.accounts().len(), 1);
    assert_eq!(app.accounts()[0].host, DEFAULT_HOST);
    assert_eq!(app.toast.as_ref().unwrap().level, Level::Success);
}

#[test]
fn invalid_form_input_keeps_the_form_open() {
    let mut service = service(ready_runner());
    let mut app = App::new(&mut service);

    app.on_key(key(KeyCode::Char('a')));
    type_text(&mut app, "work");
    app.on_key(key(KeyCode::Tab));
    type_text(&mut app, "work-bot");
    app.on_key(key(KeyCode::Tab));
    type_text(&mut app, "Work Bot");
    app.on_key(key(KeyCode::Tab));
    type_text(&mut app, "not-an-email");
    app.on_key(key(KeyCode::Tab));
    app.on_key(key(KeyCode::Tab));
    app.on_key(key(KeyCode::Enter));
    app.run_pending();

    assert!(matches!(app.screen, Screen::Form(_)));
    assert_eq!(app.toast.as_ref().unwrap().level, Level::Error);
    assert!(app.accounts().is_empty());
}

#[test]
fn token_fields_are_never_echoed() {
    let mut service = service(ready_runner());
    let mut app = App::new(&mut service);
    app.on_key(key(KeyCode::Char('a')));

    let Screen::Form(form) = &mut app.screen else {
        panic!("expected the add form");
    };
    form.cursor = 5;
    type_text(&mut app, "ghp_EXAMPLE0123456789abc");

    let Screen::Form(form) = &app.screen else {
        unreachable!()
    };
    let field = &form.fields[5];
    assert!(field.masked);
    assert!(!field.display().contains("ghp_"));
    assert_eq!(field.display().chars().count(), field.value.chars().count());
}

#[test]
fn removal_asks_for_confirmation_first() {
    let mut service = service(ready_runner());
    service
        .store_mut()
        .add(account("personal", "octocat"))
        .unwrap();
    let mut app = App::new(&mut service);

    app.on_key(key(KeyCode::Char('d')));
    assert!(matches!(app.screen, Screen::Confirm(_)));

    app.on_key(key(KeyCode::Char('n')));
    assert_eq!(app.accounts().len(), 1);

    app.on_key(key(KeyCode::Char('d')));
    app.on_key(key(KeyCode::Char('y')));
    app.run_pending();
    assert!(app.accounts().is_empty());
    assert_eq!(app.screen, Screen::Onboarding);
}

#[test]
fn renaming_updates_the_list() {
    let mut service = service(ready_runner());
    service
        .store_mut()
        .add(account("personal", "octocat"))
        .unwrap();
    let mut app = App::new(&mut service);

    app.on_key(key(KeyCode::Char('r')));
    for _ in 0.."personal".len() {
        app.on_key(key(KeyCode::Backspace));
    }
    type_text(&mut app, "home");
    app.on_key(key(KeyCode::Enter));
    app.run_pending();

    assert_eq!(app.accounts()[0].name, "home");
}

#[test]
fn the_scope_toggle_switches_between_global_and_local() {
    let mut service = service(ready_runner());
    service
        .store_mut()
        .add(account("personal", "octocat"))
        .unwrap();
    let mut app = App::new(&mut service);

    assert_eq!(app.scope, Scope::Global);
    app.on_key(key(KeyCode::Char('L')));
    assert_eq!(app.scope, Scope::Local);
    assert_eq!(app.toast.as_ref().unwrap().level, Level::Info);
}

#[test]
fn ctrl_c_and_q_quit() {
    let mut service = service(ready_runner());
    service
        .store_mut()
        .add(account("personal", "octocat"))
        .unwrap();
    let mut app = App::new(&mut service);

    assert_eq!(
        app.on_key(KeyEvent::new(KeyCode::Char('c'), KeyModifiers::control())),
        Effect::Quit
    );
    assert_eq!(app.on_key(key(KeyCode::Char('q'))), Effect::Quit);
}

#[test]
fn escape_closes_a_form_instead_of_quitting() {
    let mut service = service(ready_runner());
    service
        .store_mut()
        .add(account("personal", "octocat"))
        .unwrap();
    let mut app = App::new(&mut service);

    app.on_key(key(KeyCode::Char('a')));
    assert_eq!(app.on_key(key(KeyCode::Esc)), Effect::Nothing);
    assert_eq!(app.screen, Screen::Accounts);
}

#[test]
fn help_is_reachable_and_dismissable() {
    let mut service = service(ready_runner());
    service
        .store_mut()
        .add(account("personal", "octocat"))
        .unwrap();
    let mut app = App::new(&mut service);

    app.on_key(key(KeyCode::Char('?')));
    assert_eq!(app.screen, Screen::Help);
    app.on_key(key(KeyCode::Esc));
    assert_eq!(app.screen, Screen::Accounts);
}

#[test]
fn capital_a_asks_the_loop_for_an_interactive_login() {
    let mut service = service(ready_runner());
    service
        .store_mut()
        .add(account("personal", "octocat"))
        .unwrap();
    let mut app = App::new(&mut service);

    assert_eq!(
        app.on_key(key(KeyCode::Char('A'))),
        Effect::InteractiveLogin("github.com".into())
    );
}

#[test]
fn released_keys_do_nothing() {
    let mut service = service(ready_runner());
    service.store_mut().add(account("personal", "octocat")).unwrap();
    let mut app = App::new(&mut service);
    let release = KeyEvent {
        code: KeyCode::Char('q'),
        modifiers: KeyModifiers::none(),
        kind: gitswitch::tui::app::KeyEventKind::Release,
    };
    assert_eq!(app.on_key(release), Effect::Nothing);
    assert_eq!(app.screen, Screen::Accounts);
}

#[test]
fn ctrl_u_clears_the_focused_field_and_tab_wraps() {
    let mut service = service(ready_runner());
    let mut app = App::new(&mut service);
    app.on_key(key(KeyCode::Char('a')));
    type_text(&mut app, "work");
    app.on_key(KeyEvent::new(KeyCode::Char('u'), KeyModifiers::control()));
    let Screen::Form(form) = &app.screen else { panic!("expected the add form") };
    assert_eq!(form.fields[0].value, "");
    app.on_key(key(KeyCode::BackTab));
    let Screen::Form(form) = &app.screen else { panic!("expected the add form") };
    assert_eq!(form.cursor, 5);
    app.on_key(key(KeyCode::Tab));
    let Screen::Form(form) = &app.screen else { panic!("expected the add form") };
    assert_eq!(form.cursor, 0);
}

#[test]
fn a_switch_toast_names_the_account_and_what_gh_did() {
    let mut service = service(ready_runner());
    service.store_mut().add(account("personal", "octocat")).unwrap();
    let mut app = App::new(&mut service);
    app.on_key(key(KeyCode::Enter));
    app.run_pending();
    assert_eq!(
        app.toast.as_ref().unwrap().text,
        "Now using personal (octocat) - gh was already on this account"
    );
}

#[test]
fn refreshing_says_so() {
    let mut service = service(ready_runner());
    service.store_mut().add(account("personal", "octocat")).unwrap();
    let mut app = App::new(&mut service);
    app.on_key(key(KeyCode::Char('g')));
    assert_eq!(app.pending, Some(Pending::Refresh));
    assert_eq!(app.pending.as_ref().unwrap().label(), "Refreshing");
    app.run_pending();
    assert_eq!(app.toast.as_ref().unwrap().text, "Refreshed");
    assert!(app.pending.is_none());
}
