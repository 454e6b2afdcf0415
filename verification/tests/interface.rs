use nixbox::config::{Config, Target};
use nixbox::input::EditRequest;
use nixbox::manifest::{render_home_manager, render_nixos, Manifest};
use nixbox::search::SearchHit;
use nixbox::session::{
    channel_at, read_external_packages, App, Command, ExternalPackage, InstalledCursor, Key,
    KeyCode, Mode, QueuedOp, SearchInputMode, Tab, CHANNEL_COUNT,
};
use nixbox::view::{
    centring_pad, footer_pad, hit_description, picker_item, popup_rect, progress_bar,
    queue_number, spinner_char, InstalledRow, ResultsView,
};

fn manifest(names: &[&str]) -> Manifest {
    let mut m = Manifest::new();
    for n in names {
        m.add(n);
    }
    m
}

fn external(name: &str, migratable: bool, scope: Target) -> ExternalPackage {
    ExternalPackage {
        name: name.to_string(),
        source_attr: String::from("home.packages"),
        migratable,
        scope,
    }
}

fn app_with(home: &[&str], nixos: &[&str], ext: Vec<ExternalPackage>) -> App {
    App::new(
        Config::default(),
        String::from("/cfg"),
        true,
        manifest(home),
        manifest(nixos),
        ext,
        vec![String::from("default"), String::from("dark")],
    )
}

fn key(code: KeyCode) -> Key {
    Key { code, ctrl: false, press: true, edit: None }
}

fn ctrl(c: char) -> Key {
    Key { code: KeyCode::Char(c), ctrl: true, press: true, edit: None }
}

fn typed(c: char) -> Key {
    Key { code: KeyCode::Char(c), ctrl: false, press: true, edit: Some(EditRequest::InsertChar(c)) }
}

fn hit(attr: &str) -> SearchHit {
    SearchHit {
        attr: attr.to_string(),
        pname: attr.to_string(),
        version: String::from("1.0"),
        description: String::new(),
    }
}

#[test]
fn start_state_counts_packages() {
    let a = app_with(&["fd"], &["htop", "git"], Vec::new());
    assert_eq!(a.status, "3 packages tracked.");
    assert_eq!(a.tab, Tab::Search);
    assert_eq!(a.mode, Mode::Browsing);
    assert_eq!(a.theme_index, 0);
    let b = app_with(&["fd"], &[], vec![external("jq", true, Target::HomeManager)]);
    assert_eq!(b.status, "1 managed  ·  1 external.");
}

#[test]
fn configured_theme_is_chosen() {
    let mut c = Config::default();
    c.theme = String::from("dark");
    let a = App::new(
        c,
        String::from("/cfg"),
        false,
        Manifest::new(),
        Manifest::new(),
        Vec::new(),
        vec![String::from("default"), String::from("dark")],
    );
    assert_eq!(a.theme_index, 1);
    assert_eq!(a.theme_cursor, 1);
}

#[test]
fn tabs_cycle_over_visible_ones() {
    let mut a = app_with(&[], &[], Vec::new());
    assert_eq!(a.visible_tabs(), vec![Tab::Search, Tab::Installed]);
    a.cycle_tab();
    assert_eq!(a.tab, Tab::Installed);
    assert_eq!(a.status, "Installed tab");
    a.cycle_tab();
    assert_eq!(a.tab, Tab::Search);
    a.cycle_tab_back();
    assert_eq!(a.tab, Tab::Installed);
    a.log.push(String::from("line"));
    a.cycle_tab();
    assert_eq!(a.tab, Tab::Building);
    a.cycle_tab();
    a.cycle_tab_back();
    assert_eq!(a.tab, Tab::Building);
}

#[test]
fn quit_keys() {
    let mut a = app_with(&[], &[], Vec::new());
    assert!(matches!(a.handle_key(&ctrl('c')), Command::Idle));
    assert!(a.should_quit);
    let mut b = app_with(&[], &[], Vec::new());
    b.handle_key(&key(KeyCode::Esc));
    assert!(b.should_quit);
    let mut r = app_with(&[], &[], Vec::new());
    r.handle_key(&Key { code: KeyCode::Char('c'), ctrl: true, press: false, edit: None });
    assert!(!r.should_quit);
}

#[test]
fn typing_searches_with_fresh_epochs() {
    let mut a = app_with(&[], &[], Vec::new());
    a.handle_key(&key(KeyCode::Char('/')));
    assert_eq!(a.search_input_mode, SearchInputMode::Insert);
    match a.handle_key(&typed('r')) {
        Command::Search { epoch, channel, query } => {
            assert_eq!(epoch, 1);
            assert_eq!(channel, "nixpkgs");
            assert_eq!(query, "r");
        }
        _ => panic!("expected a search"),
    }
    match a.handle_key(&typed('g')) {
        Command::Search { epoch, query, .. } => {
            assert_eq!(epoch, 2);
            assert_eq!(query, "rg");
        }
        _ => panic!("expected a search"),
    }
    assert!(a.searching);
    a.on_search_done(1, vec![hit("stale")]);
    assert!(a.results.is_empty());
    a.on_search_done(2, vec![hit("ripgrep"), hit("rgx")]);
    assert!(!a.searching);
    assert_eq!(a.results.len(), 2);
    assert_eq!(a.status, "2 matches for `rg`");
    a.handle_key(&key(KeyCode::Esc));
    assert_eq!(a.search_input_mode, SearchInputMode::Normal);
    assert!(!a.should_quit);
}

#[test]
fn failed_search_clears_results() {
    let mut a = app_with(&[], &[], Vec::new());
    a.input = nixbox::input::TextInput::new(String::from("x"));
    let c = a.schedule_search();
    assert!(matches!(c, Command::Search { epoch: 1, .. }));
    a.on_search_failed(1, String::from("boom"));
    assert_eq!(a.status, "search failed: boom");
    assert!(!a.searching);
}

#[test]
fn selection_wraps_around() {
    let mut a = app_with(&[], &[], Vec::new());
    a.on_search_done(0, vec![hit("a"), hit("b"), hit("c")]);
    a.move_selection(-1);
    assert_eq!(a.selected, 2);
    a.move_selection(1);
    assert_eq!(a.selected, 0);
    a.handle_key(&key(KeyCode::Char('j')));
    assert_eq!(a.selected, 1);
}

#[test]
fn install_runs_through_the_queue() {
    let mut a = app_with(&[], &["git"], Vec::new());
    a.on_search_done(0, vec![hit("ripgrep")]);
    let c = a.handle_key(&key(KeyCode::Enter));
    assert!(matches!(c, Command::RunQueue));
    assert_eq!(a.tab, Tab::Building);
    assert_eq!(a.queue.len(), 1);
    let op = a.next_op().expect("queued");
    assert_eq!(op.label(), "install ripgrep [nixos]");
    let w = a.apply_op(&op, &Vec::new());
    assert_eq!(w.path, "/cfg/nixbox-system-packages.nix");
    assert_eq!(w.content, render_nixos(&a.nixos_manifest));
    assert_eq!(a.nixos_manifest.packages, vec!["git", "ripgrep"]);
    assert_eq!(a.start_op(&op), Target::NixosSystem);
    assert!(a.build_in_progress);
    assert_eq!(a.status, "install ripgrep [nixos]...");
    assert!(a.next_op().is_none());
    a.on_build_line(String::from("building"));
    assert_eq!(a.log, vec!["building"]);
    assert!(a.on_build_finished(Ok(())));
    assert_eq!(a.status, "install ripgrep [nixos] done.");
    assert!(!a.build_in_progress);
    let mut b = app_with(&[], &[], Vec::new());
    b.current_op_label = Some(String::from("remove x [hm]"));
    assert!(!b.on_build_finished(Err(String::from("sudo exited with status 1"))));
    assert_eq!(b.status, "remove x [hm] failed: sudo exited with status 1.");
}

#[test]
fn install_is_refused_when_tracked_or_queued() {
    let mut a = app_with(&[], &["ripgrep"], Vec::new());
    a.handle_key(&key(KeyCode::Enter));
    assert_eq!(a.status, "No selection.");
    a.on_search_done(0, vec![hit("ripgrep"), hit("fd")]);
    a.install_selected();
    assert_eq!(a.status, "ripgrep already tracked or queued.");
    a.build_in_progress = true;
    a.move_selection(1);
    assert!(matches!(a.install_selected(), Command::Idle));
    assert_eq!(a.status, "Queued install: fd.");
    assert_eq!(a.tab, Tab::Queue);
    a.install_selected();
    assert_eq!(a.status, "fd already tracked or queued.");
}

#[test]
fn uninstall_and_migrate_follow_the_cursor() {
    let mut a = app_with(
        &["fd"],
        &[],
        vec![external("jq", true, Target::NixosSystem), external("bat", false, Target::HomeManager)],
    );
    a.set_tab(Tab::Installed);
    assert_eq!(a.installed_total(), 3);
    assert!(matches!(a.installed_cursor(), Some(InstalledCursor::Managed(p)) if p.name == "fd"));
    a.migrate_selected();
    assert_eq!(a.status, "fd is already managed — press d to uninstall.");
    a.build_in_progress = true;
    a.handle_key(&key(KeyCode::Char('d')));
    assert_eq!(a.status, "Queued remove: fd.");
    assert_eq!(a.tab, Tab::Queue);
    a.set_tab(Tab::Installed);
    a.handle_key(&key(KeyCode::Char('d')));
    assert_eq!(a.status, "fd already queued for removal.");
    a.handle_key(&key(KeyCode::Char('j')));
    a.handle_key(&key(KeyCode::Char('m')));
    assert_eq!(a.status, "Queued migrate: jq.");
    a.set_tab(Tab::Installed);
    a.handle_key(&key(KeyCode::Char('m')));
    assert_eq!(a.status, "jq already queued for migration.");
    a.handle_key(&key(KeyCode::Char('j')));
    a.handle_key(&key(KeyCode::Char('m')));
    assert_eq!(a.status, "bat is on a same-line list in home.packages; remove it manually.");
    a.handle_key(&key(KeyCode::Char('d')));
    assert_eq!(a.status, "bat is not managed by nixbox — press m to migrate.");
}

#[test]
fn migrate_all_queues_one_move_per_target() {
    let mut a = app_with(
        &[],
        &[],
        vec![
            external("jq", true, Target::NixosSystem),
            external("bat", true, Target::HomeManager),
            external("fzf", false, Target::HomeManager),
            external("htop", true, Target::NixosSystem),
        ],
    );
    a.build_in_progress = true;
    a.migrate_all();
    assert_eq!(a.status, "Queued migrate 3 packages.");
    assert_eq!(a.queue.len(), 2);
    assert_eq!(a.queue[0].label(), "migrate bat [hm]");
    assert_eq!(a.queue[1].label(), "migrate 2 packages [nixos]");
    let mut b = app_with(&[], &[], vec![external("fzf", false, Target::HomeManager)]);
    b.migrate_all();
    assert_eq!(b.status, "No migratable external packages found.");
}

#[test]
fn applying_a_move_takes_packages_over() {
    let mut a = app_with(
        &["fd"],
        &[],
        vec![external("jq", true, Target::HomeManager), external("bat", true, Target::HomeManager)],
    );
    a.installed_selected = 2;
    let op = QueuedOp::Migrate { names: vec![String::from("jq")], scope: Target::HomeManager };
    let w = a.apply_op(&op, &vec![String::from("jq")]);
    assert_eq!(a.home_manifest.packages, vec!["fd", "jq"]);
    assert_eq!(a.external_packages.len(), 1);
    assert_eq!(a.external_packages[0].name, "bat");
    assert_eq!(a.installed_selected, 2);
    assert_eq!(w.path, "/cfg/nixbox-home-packages.nix");
    assert_eq!(w.content, render_home_manager(&a.home_manifest));
    let un = QueuedOp::Uninstall { name: String::from("jq"), scope: Target::HomeManager };
    a.apply_op(&un, &Vec::new());
    assert_eq!(a.home_manifest.packages, vec!["fd"]);
    assert_eq!(a.installed_selected, 1);
    a.write_failed(&un, "disk full");
    assert_eq!(a.status, "remove jq [hm]: failed to write manifest: disk full");
}

#[test]
fn external_packages_skip_tracked_names() {
    let home = manifest(&["fd"]);
    let nixos = manifest(&["git"]);
    let found = read_external_packages(
        Some(vec![external("fd", true, Target::HomeManager), external("jq", true, Target::HomeManager)]),
        Some(vec![external("fd", true, Target::NixosSystem)]),
        &home,
        &nixos,
    );
    let names: Vec<&str> = found.iter().map(|p| p.name.as_str()).collect();
    assert_eq!(names, vec!["jq", "fd"]);
    let none = read_external_packages(None, None, &home, &nixos);
    assert!(none.is_empty());
}

#[test]
fn refresh_holds_the_cursor() {
    let mut a = app_with(&["fd"], &[], vec![external("jq", true, Target::HomeManager)]);
    a.installed_selected = 1;
    a.set_external_packages(Vec::new());
    assert_eq!(a.installed_selected, 0);
}

#[test]
fn target_and_pickers() {
    let mut a = app_with(&[], &[], Vec::new());
    assert!(matches!(a.handle_key(&ctrl('t')), Command::SaveConfig));
    assert_eq!(a.config.target, Target::HomeManager);
    assert_eq!(
        a.status,
        "Install target switched to home-manager (existing entries unchanged)."
    );
    a.handle_key(&ctrl('n'));
    assert_eq!(a.mode, Mode::ThemeSelect);
    a.handle_key(&key(KeyCode::Char('j')));
    assert_eq!(a.theme_cursor, 1);
    assert_eq!(a.theme_slot(), 1);
    a.handle_key(&key(KeyCode::Esc));
    assert_eq!(a.status, "Theme: default.");
    assert_eq!(a.theme_slot(), 0);
    a.handle_key(&ctrl('n'));
    a.handle_key(&key(KeyCode::Up));
    assert!(matches!(a.handle_key(&key(KeyCode::Enter)), Command::SaveConfig));
    assert_eq!(a.config.theme, "dark");
    assert_eq!(a.status, "Theme set to dark.");
    a.handle_key(&ctrl('o'));
    assert_eq!(a.mode, Mode::Browsing);
    a.open_channel_edit();
    assert_eq!(a.mode, Mode::ChannelEdit);
    assert_eq!(a.channel_cursor, 0);
    a.handle_key(&key(KeyCode::Up));
    assert_eq!(a.channel_cursor, CHANNEL_COUNT - 1);
    assert!(matches!(a.handle_key(&key(KeyCode::Enter)), Command::SaveConfig));
    assert_eq!(a.config.channel, channel_at(1));
    assert_eq!(a.status, "Channel set to nixpkgs-unstable.");
    a.open_channel_edit();
    assert_eq!(a.channel_cursor, 1);
    a.handle_key(&key(KeyCode::Esc));
    assert_eq!(a.status, "Channel unchanged: nixpkgs-unstable.");
}

#[test]
fn build_log_is_capped() {
    let mut a = app_with(&[], &[], Vec::new());
    for i in 0..1005 {
        a.on_build_line(format!("l{}", i));
    }
    assert_eq!(a.log.len(), 1000);
    assert_eq!(a.log[0], "l5");
    assert_eq!(a.log[999], "l1004");
}

#[test]
fn settle_tab_leaves_hidden_tabs() {
    let mut a = app_with(&[], &[], Vec::new());
    a.tab = Tab::Queue;
    a.settle_tab();
    assert_eq!(a.tab, Tab::Search);
}

#[test]
fn spinner_and_progress_bar() {
    assert_eq!(spinner_char(0), '⠋');
    assert_eq!(spinner_char(11), '⠙');
    assert!(progress_bar(0, 3).is_none());
    let (before, filled, after) = progress_bar(0, 20).unwrap();
    assert_eq!(before, "");
    assert_eq!(filled, "▒▓██▓▒");
    assert_eq!(after, "░".repeat(14));
    let (before, _, after) = progress_bar(15, 20).unwrap();
    assert_eq!(before, "░".repeat(13));
    assert_eq!(after, "░");
    let (before, filled, after) = progress_bar(7, 4).unwrap();
    assert_eq!(before, "");
    assert_eq!(filled, "▒▓▓▒");
    assert_eq!(after, "");
}

#[test]
fn bars_and_labels() {
    let mut a = app_with(&[], &[], Vec::new());
    a.build_in_progress = true;
    a.spinner_frame = 1;
    assert_eq!(a.tab_strip_label(Tab::Building), "⠙ Building");
    a.queue.push(QueuedOp::Uninstall { name: String::from("x"), scope: Target::HomeManager });
    assert_eq!(a.tab_strip_label(Tab::Queue), "Queue (1)");
    assert_eq!(a.queue_title(), "Queue  ·  1 pending");
    assert_eq!(a.build_title(), "Build output");
    assert_eq!(a.install_hint(), "↵  install → nixos");
    assert_eq!(
        a.context_keys(),
        "j/k nav  h/l tabs  ↵ install  i insert  ^t target  ^n theme  esc quit"
    );
    assert_eq!(a.results_view(), ResultsView::List);
    a.searching = true;
    assert_eq!(a.results_view(), ResultsView::Searching);
    a.tick();
    assert_eq!(a.spinner_frame, 2);
    assert_eq!(footer_pad(40, "abc", "de"), 33);
    assert_eq!(footer_pad(4, "abc", "de"), 0);
    assert_eq!(popup_rect(0, 0, 100, 40, 36, 4), (32, 18, 36, 4));
    assert_eq!(popup_rect(5, 5, 20, 3, 36, 4), (5, 5, 20, 3));
    assert_eq!(queue_number(0), " 1.  ");
    assert_eq!(queue_number(9), "10.  ");
    assert_eq!(picker_item("dark", true), "  dark  ✓");
    assert_eq!(picker_item("dark", false), "  dark");
    assert_eq!(centring_pad(12), 5);
    assert_eq!(hit_description(&hit("x")), "(no description)");
    for i in 0..10 {
        a.on_build_line(format!("{}", i));
    }
    assert_eq!(a.log_window_start(8), 6);
    a.build_in_progress = false;
    assert_eq!(a.log_window_start(8), 4);
    assert_eq!(a.log_window_start(1), 10);
}

#[test]
fn installed_rows_group_packages() {
    let mut a = app_with(&["fd", "git"], &[], vec![external("jq", true, Target::NixosSystem)]);
    let (rows, sel) = a.installed_rows();
    assert_eq!(
        rows,
        vec![
            InstalledRow::ManagedHeading(2),
            InstalledRow::Managed(0),
            InstalledRow::Managed(1),
            InstalledRow::Gap,
            InstalledRow::ExternalHeading(1, 1),
            InstalledRow::External(0),
        ]
    );
    assert_eq!(sel, Some(1));
    a.installed_selected = 7;
    assert_eq!(a.installed_rows().1, Some(5));
    let e = app_with(&[], &[], Vec::new());
    let (rows, sel) = e.installed_rows();
    assert!(rows.is_empty());
    assert_eq!(sel, None);
}

#[test]
fn installed_filter_ignores_case() {
    let mut a = app_with(
        &["ripgrep", "fd"],
        &["RipGrep-all"],
        vec![external("Ripper", true, Target::HomeManager), external("jq", true, Target::HomeManager)],
    );
    a.installed_input = nixbox::input::TextInput::new(String::from("  RIP "));
    assert_eq!(a.installed_filter().as_deref(), Some("rip"));
    let managed: Vec<String> = a.filtered_managed_packages().into_iter().map(|p| p.name).collect();
    assert_eq!(managed, vec!["ripgrep", "RipGrep-all"]);
    let ext: Vec<String> = a.filtered_external_packages().into_iter().map(|p| p.name).collect();
    assert_eq!(ext, vec!["Ripper"]);
    assert_eq!(a.installed_total(), 3);
    a.installed_input = nixbox::input::TextInput::new(String::from("   "));
    assert_eq!(a.installed_filter(), None);
    assert_eq!(a.installed_total(), 5);
}

#[test]
fn installed_cursor_moves_down_and_back() {
    let mut a = app_with(&["fd", "git"], &[], Vec::new());
    a.set_tab(Tab::Installed);
    a.handle_key(&key(KeyCode::Char('j')));
    assert_eq!(a.installed_selected, 1);
    a.handle_key(&key(KeyCode::Char('j')));
    assert_eq!(a.installed_selected, 0);
    a.handle_key(&key(KeyCode::Char('k')));
    assert_eq!(a.installed_selected, 1);
    a.handle_key(&key(KeyCode::Char('j')));
    assert_eq!(a.installed_selected, 0);
}

#[test]
fn target_toggled_twice_is_unchanged() {
    let mut a = app_with(&[], &[], Vec::new());
    let before = a.config.target;
    a.toggle_target();
    a.toggle_target();
    assert_eq!(a.config.target, before);
    assert_eq!(a.status, "Install target switched to nixos (existing entries unchanged).");
}

#[test]
fn keys_need_an_epoch_only_to_type() {
    let mut a = app_with(&[], &[], Vec::new());
    a.handle_key(&key(KeyCode::Char('/')));
    a.search_epoch = u64::MAX;
    assert!(!a.key_allowed(&typed('x')));
    assert!(a.key_allowed(&key(KeyCode::Down)));
    assert!(a.key_allowed(&ctrl('c')));
    a.handle_key(&ctrl('c'));
    assert!(a.should_quit);
}

#[test]
fn finished_writes_start_or_report() {
    let mut a = app_with(&[], &[], Vec::new());
    let op = QueuedOp::Uninstall { name: String::from("jq"), scope: Target::HomeManager };
    assert_eq!(a.finish_write(&op, Err(String::from("denied"))), None);
    assert_eq!(a.status, "remove jq [hm]: failed to write manifest: denied");
    assert!(!a.build_in_progress);
    assert_eq!(a.finish_write(&op, Ok(())), Some(Target::HomeManager));
    assert!(a.build_in_progress);
    assert_eq!(a.status, "remove jq [hm]...");
}
