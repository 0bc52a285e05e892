use mb_tui::input::modal::{collect_hints, first_match, BindingHint, Candidate, HotkeyHint};

fn hint(key: &'static str, action: &'static str) -> HotkeyHint {
    HotkeyHint {
        key,
        action,
        description: "",
    }
}

#[test]
fn hidden_and_unadmitted_bindings_give_no_hint() {
    let bindings = vec![
        BindingHint { hint: hint("q", "quit"), admitted: true },
        BindingHint { hint: hint("", ""), admitted: true },
        BindingHint { hint: hint("x", "guarded"), admitted: false },
        BindingHint { hint: hint("a", "action1"), admitted: true },
    ];
    let hints = collect_hints(&bindings);
    assert_eq!(hints, vec![hint("q", "quit"), hint("a", "action1")]);
}

#[test]
fn first_admitted_resolution_wins() {
    let candidates = vec![
        Candidate { admitted: false, resolves: true },
        Candidate { admitted: true, resolves: false },
        Candidate { admitted: true, resolves: true },
        Candidate { admitted: true, resolves: true },
    ];
    assert_eq!(first_match(&candidates), Some(2));
    let none = vec![Candidate { admitted: false, resolves: true }];
    assert_eq!(first_match(&none), None);
}

// A small modal with two contexts, as an application would declare it: each
// binding has a label, a resolver and an optional guard. The library decides
// which hints are shown and which binding wins once guards and resolvers have
// been evaluated.

use mb_tui::input::key::{KeyCode, KeyEvent, CONTROL, NO_MODIFIERS};
use mb_tui::input::modal::{HelpContext, HotkeySection};

#[derive(Debug, Clone, Copy, PartialEq, Eq)]
enum TestContext {
    A,
    B,
}

#[derive(Debug, Clone, Copy, PartialEq, Eq)]
enum TestIntent {
    Quit,
    Action1,
    Action2,
}

struct TestApp {
    context_b_active: bool,
}

struct Binding {
    key_label: &'static str,
    action: &'static str,
    description: &'static str,
    resolve: fn(&KeyEvent) -> Option<TestIntent>,
    guard: Option<fn(&TestApp) -> bool>,
}

fn on_char(key: &KeyEvent, c: char, intent: TestIntent) -> Option<TestIntent> {
    if key.code == KeyCode::Char(c) {
        Some(intent)
    } else {
        None
    }
}

fn context_a_bindings() -> Vec<Binding> {
    vec![
        Binding {
            key_label: "q",
            action: "quit",
            description: "Quit the application",
            resolve: |key| on_char(key, 'q', TestIntent::Quit),
            guard: None,
        },
        Binding {
            key_label: "a",
            action: "action1",
            description: "Perform action 1",
            resolve: |key| on_char(key, 'a', TestIntent::Action1),
            guard: None,
        },
        Binding {
            key_label: "",
            action: "",
            description: "",
            resolve: |key| {
                if key.code == KeyCode::Char('c') && key.modifiers & CONTROL != 0 {
                    Some(TestIntent::Quit)
                } else {
                    None
                }
            },
            guard: None,
        },
    ]
}

fn context_b_bindings() -> Vec<Binding> {
    vec![
        Binding {
            key_label: "Esc",
            action: "back",
            description: "Go back",
            resolve: |key| {
                if key.code == KeyCode::Esc {
                    Some(TestIntent::Quit)
                } else {
                    None
                }
            },
            guard: None,
        },
        Binding {
            key_label: "x",
            action: "action2",
            description: "Perform action 2 (guarded)",
            resolve: |key| on_char(key, 'x', TestIntent::Action2),
            guard: Some(|app| app.context_b_active),
        },
    ]
}

fn guarded_bindings() -> Vec<Binding> {
    vec![
        Binding {
            key_label: "g",
            action: "guarded",
            description: "Only when context_b_active",
            resolve: |key| on_char(key, 'g', TestIntent::Action1),
            guard: Some(|app| app.context_b_active),
        },
        Binding {
            key_label: "g",
            action: "fallback",
            description: "Always active fallback",
            resolve: |key| on_char(key, 'g', TestIntent::Action2),
            guard: None,
        },
    ]
}

fn bindings(ctx: TestContext) -> Vec<Binding> {
    match ctx {
        TestContext::A => context_a_bindings(),
        TestContext::B => context_b_bindings(),
    }
}

fn active_context(app: &TestApp) -> TestContext {
    if app.context_b_active {
        TestContext::B
    } else {
        TestContext::A
    }
}

fn admitted(binding: &Binding, app: Option<&TestApp>) -> bool {
    match (binding.guard, app) {
        (Some(guard), Some(app)) => guard(app),
        _ => true,
    }
}

fn hints_of(bindings: &[Binding], app: Option<&TestApp>) -> Vec<HotkeyHint> {
    let described: Vec<BindingHint> = bindings
        .iter()
        .map(|b| BindingHint {
            hint: HotkeyHint {
                key: b.key_label,
                action: b.action,
                description: b.description,
            },
            admitted: admitted(b, app),
        })
        .collect();
    collect_hints(&described)
}

fn resolve_in(bindings: &[Binding], app: &TestApp, key: &KeyEvent) -> Option<TestIntent> {
    let intents: Vec<Option<TestIntent>> = bindings
        .iter()
        .map(|b| if admitted(b, Some(app)) { (b.resolve)(key) } else { None })
        .collect();
    let candidates: Vec<Candidate> = bindings
        .iter()
        .zip(intents.iter())
        .map(|(b, i)| Candidate {
            admitted: admitted(b, Some(app)),
            resolves: i.is_some(),
        })
        .collect();
    first_match(&candidates).and_then(|i| intents[i])
}

fn resolve(app: &TestApp, key: &KeyEvent) -> Option<TestIntent> {
    resolve_in(&bindings(active_context(app)), app, key)
}

fn resolve_guarded(app: &TestApp, key: &KeyEvent) -> Option<TestIntent> {
    resolve_in(&guarded_bindings(), app, key)
}

fn all_hints(contexts: Vec<HelpContext<Vec<Binding>>>) -> Vec<HotkeySection> {
    let plain: Vec<(&'static str, Vec<HotkeyHint>)> = contexts
        .into_iter()
        .map(|c| {
            let hints = c
                .context
                .iter()
                .map(|b| HotkeyHint {
                    key: b.key_label,
                    action: b.action,
                    description: b.description,
                })
                .collect();
            (c.title, hints)
        })
        .collect();
    mb_tui::input::modal::all_hints(&plain)
}

fn key(code: KeyCode) -> KeyEvent {
    KeyEvent::new(code, NO_MODIFIERS)
}

fn app_context_a() -> TestApp {
    TestApp {
        context_b_active: false,
    }
}

fn app_context_b() -> TestApp {
    TestApp {
        context_b_active: true,
    }
}

#[test]
fn resolve_context_a_matches_a_bindings() {
    let app = app_context_a();
    assert_eq!(resolve(&app, &key(KeyCode::Char('q'))), Some(TestIntent::Quit));
    assert_eq!(resolve(&app, &key(KeyCode::Char('a'))), Some(TestIntent::Action1));
}

#[test]
fn resolve_context_a_does_not_match_b_bindings() {
    let app = app_context_a();
    assert_eq!(resolve(&app, &key(KeyCode::Esc)), None);
    assert_eq!(resolve(&app, &key(KeyCode::Char('x'))), None);
}

#[test]
fn resolve_context_b_matches_b_bindings() {
    let app = app_context_b();
    assert_eq!(resolve(&app, &key(KeyCode::Esc)), Some(TestIntent::Quit));
    assert_eq!(resolve(&app, &key(KeyCode::Char('x'))), Some(TestIntent::Action2));
}

#[test]
fn resolve_context_b_does_not_match_a_bindings() {
    let app = app_context_b();
    assert_eq!(resolve(&app, &key(KeyCode::Char('q'))), None);
}

#[test]
fn resolve_hidden_binding_matches() {
    let app = app_context_a();
    assert_eq!(
        resolve(&app, &KeyEvent::new(KeyCode::Char('c'), CONTROL)),
        Some(TestIntent::Quit)
    );
}

#[test]
fn resolve_unbound_key_returns_none() {
    let app = app_context_a();
    assert_eq!(resolve(&app, &key(KeyCode::Char('z'))), None);
}

#[test]
fn resolve_skips_guarded_binding_when_guard_fails() {
    let app = app_context_a();
    assert_eq!(
        resolve_guarded(&app, &key(KeyCode::Char('g'))),
        Some(TestIntent::Action2)
    );
}

#[test]
fn resolve_uses_guarded_binding_when_guard_passes() {
    let app = app_context_b();
    assert_eq!(
        resolve_guarded(&app, &key(KeyCode::Char('g'))),
        Some(TestIntent::Action1)
    );
}

#[test]
fn hints_returns_only_visible_bindings() {
    let app = app_context_a();
    let h = hints_of(&bindings(active_context(&app)), Some(&app));
    assert_eq!(h.len(), 2);
    assert_eq!(h[0].key, "q");
    assert_eq!(h[0].action, "quit");
    assert_eq!(h[1].key, "a");
    assert_eq!(h[1].action, "action1");
}

#[test]
fn hints_filters_by_guard() {
    let app = app_context_a();
    let h = hints_of(&guarded_bindings(), Some(&app));
    assert_eq!(h.len(), 1);
    assert_eq!(h[0].action, "fallback");
}

#[test]
fn hints_includes_guarded_binding_when_guard_passes() {
    let app = app_context_b();
    let h = hints_of(&guarded_bindings(), Some(&app));
    assert_eq!(h.len(), 2);
    assert_eq!(h[0].action, "guarded");
    assert_eq!(h[1].action, "fallback");
}

#[test]
fn hints_description_is_populated() {
    let app = app_context_a();
    let h = hints_of(&bindings(active_context(&app)), Some(&app));
    assert_eq!(h[0].description, "Quit the application");
    assert_eq!(h[1].description, "Perform action 1");
}

#[test]
fn hints_for_context_uses_explicit_context() {
    let app = app_context_a();
    let h = hints_of(&bindings(TestContext::B), Some(&app));
    assert_eq!(h.len(), 1);
    assert_eq!(h[0].key, "Esc");
    assert_eq!(h[0].action, "back");
}

#[test]
fn all_hints_groups_contexts_without_hidden_bindings() {
    let groups = all_hints(vec![
        HelpContext {
            title: "Context A",
            context: bindings(TestContext::A),
        },
        HelpContext {
            title: "Context B",
            context: bindings(TestContext::B),
        },
    ]);
    assert_eq!(groups.len(), 2);
    assert_eq!(groups[0].title, "Context A");
    assert_eq!(groups[0].hints.len(), 2);
    assert_eq!(groups[1].title, "Context B");
    assert_eq!(groups[1].hints.len(), 2);
}

#[test]
fn all_hints_ignores_runtime_guards() {
    let groups = all_hints(vec![HelpContext {
        title: "Guarded",
        context: guarded_bindings(),
    }]);
    assert_eq!(groups.len(), 1);
    assert_eq!(groups[0].title, "Guarded");
    assert_eq!(groups[0].hints.len(), 2);
    assert_eq!(groups[0].hints[0].action, "guarded");
    assert_eq!(groups[0].hints[1].action, "fallback");
}
