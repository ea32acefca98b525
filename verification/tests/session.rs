use ihateborders::config::Config;
use ihateborders::display::DisplayInfo;
use ihateborders::session::{
    Session, ACTIVE_REPAINT_MILLIS, IDLE_REPAINT_MILLIS, REFRESH_INTERVAL_MILLIS,
};
use ihateborders::startup::{
    begin_startup_change, contains_text, create_task_arguments, elevated_argument,
    finish_startup_change, join_arguments, query_task_arguments, relaunch_succeeded,
    removal_failed, remove_task_arguments, ElevatedTask, StartupAction, StartupChange,
};
use ihateborders::window::WindowInfo;

fn window(hwnd: isize, title: &str, process: &str, is_borderless: bool) -> WindowInfo {
    WindowInfo {
        hwnd,
        title: title.to_string(),
        process_name: process.to_string(),
        is_borderless,
        icon_data: None,
    }
}

fn display(name: &str, x: i32) -> DisplayInfo {
    DisplayInfo { name: name.to_string(), x, y: 0, width: 800, height: 600, is_primary: x == 0 }
}

fn three_windows() -> Vec<WindowInfo> {
    vec![
        window(1, "Alpha", "alpha", false),
        window(2, "Beta", "beta", true),
        window(3, "Gamma", "gamma", false),
    ]
}

fn session_with_windows() -> Session {
    let mut session = Session::new(vec![display("Display 1", 0)], Config::new(), false, 0);
    assert!(session.start_async_refresh());
    assert!(session.receive_windows(three_windows(), 10));
    session
}

#[test]
fn new_session_has_the_initial_settings() {
    let session = Session::new(vec![display("Display 1", 0), display("Display 2", 800)], Config::new(), true, 42);
    assert!(session.get_windows().is_empty());
    assert_eq!(session.selected_window, None);
    assert_eq!(session.last_refresh, 42);
    assert!(session.resize_to_screen);
    assert_eq!(session.selected_display, Some(0));
    assert_eq!(session.displays.len(), 2);
    assert!(!session.needs_repaint);
    assert!(!session.auto_borderless_enabled);
    assert!(session.show_settings);
    assert!(!session.is_refresh_in_progress());
    let bare = Session::new(Vec::new(), Config::new(), false, 0);
    assert_eq!(bare.selected_display, None);
    assert!(!bare.show_settings);
}

#[test]
fn refresh_is_due_after_five_seconds() {
    let session = Session::new(Vec::new(), Config::new(), false, 1_000);
    assert_eq!(REFRESH_INTERVAL_MILLIS, 5_000);
    assert!(!session.refresh_due(1_000));
    assert!(!session.refresh_due(5_999));
    assert!(session.refresh_due(6_000));
    assert!(session.refresh_due(u64::MAX));
    assert!(!session.refresh_due(0));
}

#[test]
fn a_delivered_list_replaces_the_old_one() {
    let mut session = Session::new(Vec::new(), Config::new(), false, 0);
    assert!(session.start_async_refresh());
    assert!(!session.start_async_refresh());
    let outcome = session.handle_refresh(Some(three_windows()), 77);
    assert!(outcome.accepted);
    assert!(!outcome.start_worker);
    assert_eq!(session.get_windows().len(), 3);
    assert_eq!(session.last_refresh, 77);
    assert!(session.needs_repaint);
    assert!(!session.is_refresh_in_progress());
}

#[test]
fn an_empty_result_changes_nothing() {
    let mut session = session_with_windows();
    assert!(session.select_window(2));
    session.needs_repaint = false;
    assert!(session.start_async_refresh());
    let outcome = session.handle_refresh(Some(Vec::new()), 500);
    assert!(!outcome.accepted);
    assert!(!outcome.start_worker);
    assert_eq!(session.get_windows().len(), 3);
    assert_eq!(session.selected_window, Some(2));
    assert_eq!(session.last_refresh, 10);
    assert!(!session.needs_repaint);
    assert!(!session.is_refresh_in_progress());
}

#[test]
fn a_shorter_list_drops_a_selection_beyond_its_end() {
    let mut session = session_with_windows();
    assert!(session.select_window(2));
    assert!(session.start_async_refresh());
    assert!(session.receive_windows(vec![window(1, "Alpha", "alpha", false), window(2, "Beta", "beta", true)], 20));
    assert_eq!(session.selected_window, None);

    let mut kept = session_with_windows();
    assert!(kept.select_window(1));
    assert!(kept.start_async_refresh());
    assert!(kept.receive_windows(vec![window(8, "X", "x", false), window(9, "Y", "y", true)], 20));
    assert_eq!(kept.selected_window, Some(1));
}

#[test]
fn handle_refresh_asks_again_when_the_time_has_come() {
    let mut session = session_with_windows();
    let idle = session.handle_refresh(None, 5_009);
    assert!(!idle.accepted && !idle.start_worker);
    let due = session.handle_refresh(None, 5_010);
    assert!(!due.accepted && due.start_worker);
    assert!(session.is_refresh_in_progress());
    let busy = session.handle_refresh(None, 60_000);
    assert!(!busy.accepted && !busy.start_worker);
    let empty = session.handle_refresh(Some(Vec::new()), 60_000);
    assert!(!empty.accepted && empty.start_worker);
    assert!(session.is_refresh_in_progress());
}

#[test]
fn a_result_that_nobody_awaits_is_dropped() {
    let mut session = session_with_windows();
    let unexpected = session.handle_refresh(Some(vec![window(9, "Z", "z", false)]), 100);
    assert!(!unexpected.accepted);
    assert_eq!(session.get_windows().len(), 3);

    assert!(session.start_async_refresh());
    assert!(!session.on_refresh_key());
    assert!(session.is_refresh_in_progress());
    let late = session.handle_refresh(Some(vec![window(9, "Z", "z", false)]), 200);
    assert!(!late.accepted);
    assert_eq!(session.get_windows().len(), 3);
    assert!(!session.is_refresh_in_progress());
}

#[test]
fn refresh_key_starts_at_once_when_idle() {
    let mut session = session_with_windows();
    session.needs_repaint = false;
    assert!(session.on_refresh_key());
    assert!(session.needs_repaint);
    assert!(session.is_refresh_in_progress());
}

#[test]
fn escape_closes_settings_before_it_drops_the_selection() {
    let mut session = session_with_windows();
    assert!(session.select_window(1));
    session.show_settings = true;
    session.needs_repaint = false;
    session.on_escape();
    assert!(!session.show_settings);
    assert_eq!(session.selected_window, Some(1));
    assert!(session.needs_repaint);
    session.on_escape();
    assert_eq!(session.selected_window, None);
}

#[test]
fn select_window_takes_only_places_in_the_list() {
    let mut session = session_with_windows();
    assert!(!session.select_window(3));
    assert_eq!(session.selected_window, None);
    assert!(session.select_window(0));
    assert!(!session.select_window(7));
    assert_eq!(session.selected_window, Some(0));
    session.selected_window = Some(99);
    session.revalidate_selection();
    assert_eq!(session.selected_window, None);
    session.selected_window = Some(2);
    session.revalidate_selection();
    assert_eq!(session.selected_window, Some(2));
}

#[test]
fn a_successful_toggle_flips_the_snapshot_and_refreshes() {
    let mut session = session_with_windows();
    session.needs_repaint = false;
    assert!(!session.window_toggled(0, false));
    assert!(!session.get_windows()[0].is_borderless);
    assert!(!session.needs_repaint);
    assert!(!session.is_refresh_in_progress());
    assert!(session.window_toggled(0, true));
    assert!(session.get_windows()[0].is_borderless);
    assert!(session.get_windows()[1].is_borderless);
    assert!(session.needs_repaint);
    assert!(session.is_refresh_in_progress());
    assert!(!session.window_toggled(1, true));
    assert!(!session.get_windows()[1].is_borderless);
}

#[test]
fn toggle_target_follows_the_resize_switch() {
    let mut session = Session::new(vec![display("Display 1", 0), display("Display 2", 800)], Config::new(), false, 0);
    assert_eq!(session.toggle_target().map(|d| d.x), Some(0));
    session.selected_display = Some(1);
    assert_eq!(session.toggle_target().map(|d| d.x), Some(800));
    session.selected_display = Some(5);
    assert!(session.toggle_target().is_none());
    session.selected_display = Some(1);
    session.resize_to_screen = false;
    assert!(session.toggle_target().is_none());
}

#[test]
fn auto_apply_pass_through_the_session() {
    let mut session = session_with_windows();
    session.config.add_auto_borderless("gamma".to_string());
    session.config.add_auto_borderless("beta".to_string());
    let outcomes = session.auto_apply.reconcile(
        &session.config,
        session.window_manager.get_windows(),
        |hwnd| hwnd == 3,
    );
    assert_eq!(outcomes, vec![false, false, true]);
    assert!(session.auto_apply.is_applied(3));
    let again = session.auto_apply.reconcile(
        &session.config,
        session.window_manager.get_windows(),
        |_| true,
    );
    assert_eq!(again, vec![false, false, false]);
}

#[test]
fn switching_the_policy_on_for_a_decorated_window() {
    let mut session = session_with_windows();
    assert!(session.begin_policy_change().is_none());
    assert!(session.select_window(0));
    session.auto_borderless_enabled = true;
    let change = session.begin_policy_change().expect("a window is selected");
    assert!(change.enable);
    assert_eq!(change.index, 0);
    assert_eq!(change.hwnd, 1);
    assert_eq!(change.process_name, "alpha");
    assert!(!change.was_borderless);
    assert!(change.should_toggle());
    assert!(session.finish_policy_change(change, true));
    assert!(session.config.is_auto_borderless("alpha"));
    assert!(session.auto_apply.is_applied(1));
    assert!(session.get_windows()[0].is_borderless);
    assert!(session.is_refresh_in_progress());
    assert!(session.needs_repaint);
}

#[test]
fn switching_the_policy_on_records_the_window_even_if_the_toggle_failed() {
    let mut session = session_with_windows();
    assert!(session.select_window(2));
    session.auto_borderless_enabled = true;
    session.needs_repaint = false;
    let change = session.begin_policy_change().expect("a window is selected");
    assert!(!session.finish_policy_change(change, false));
    assert!(session.config.is_auto_borderless("gamma"));
    assert!(session.auto_apply.is_applied(3));
    assert!(!session.get_windows()[2].is_borderless);
    assert!(!session.is_refresh_in_progress());
    assert!(!session.needs_repaint);
}

#[test]
fn switching_the_policy_on_for_a_borderless_window_toggles_nothing() {
    let mut session = session_with_windows();
    assert!(session.select_window(1));
    session.auto_borderless_enabled = true;
    let change = session.begin_policy_change().expect("a window is selected");
    assert!(change.was_borderless);
    assert!(!change.should_toggle());
    assert!(!session.finish_policy_change(change, true));
    assert!(session.config.is_auto_borderless("beta"));
    assert!(!session.auto_apply.is_applied(2));
    assert!(session.get_windows()[1].is_borderless);
}

#[test]
fn switching_the_policy_off_restores_and_forgets() {
    let mut session = session_with_windows();
    session.config.add_auto_borderless("beta".to_string());
    session.auto_apply.record_applied(2);
    assert!(session.select_window(1));
    session.auto_borderless_enabled = false;
    let change = session.begin_policy_change().expect("a window is selected");
    assert!(!change.enable);
    assert!(change.should_toggle());
    assert!(session.finish_policy_change(change, true));
    assert!(!session.config.is_auto_borderless("beta"));
    assert!(!session.auto_apply.is_applied(2));
    assert!(!session.get_windows()[1].is_borderless);

    let mut plain = session_with_windows();
    plain.config.add_auto_borderless("alpha".to_string());
    plain.auto_apply.record_applied(1);
    assert!(plain.select_window(0));
    let keep = plain.begin_policy_change().expect("a window is selected");
    assert!(!keep.should_toggle());
    assert!(!plain.finish_policy_change(keep, false));
    assert!(!plain.config.is_auto_borderless("alpha"));
    assert!(plain.auto_apply.is_applied(1));
}

#[test]
fn checkbox_and_button_follow_the_policy() {
    let mut session = session_with_windows();
    assert!(!session.action_enabled());
    session.auto_borderless_enabled = true;
    session.sync_auto_checkbox();
    assert!(session.auto_borderless_enabled);
    assert!(session.select_window(0));
    session.sync_auto_checkbox();
    assert!(!session.auto_borderless_enabled);
    assert!(session.action_enabled());
    session.config.add_auto_borderless("alpha".to_string());
    session.sync_auto_checkbox();
    assert!(session.auto_borderless_enabled);
    assert!(!session.action_enabled());
}

#[test]
fn repaint_is_quick_once_after_a_change() {
    let mut session = session_with_windows();
    assert_eq!((ACTIVE_REPAINT_MILLIS, IDLE_REPAINT_MILLIS), (16, 5_000));
    assert!(session.needs_repaint);
    assert_eq!(session.take_repaint_delay(), 16);
    assert!(!session.needs_repaint);
    assert_eq!(session.take_repaint_delay(), 5_000);
}

#[test]
fn task_commands_have_the_documented_arguments() {
    assert_eq!(
        create_task_arguments("C:\\Tools\\ihateborders.exe", false),
        vec!["/Create", "/TN", "ihateborders_startup", "/TR", "\"C:\\Tools\\ihateborders.exe\"", "/SC", "ONLOGON", "/F"]
    );
    assert_eq!(
        create_task_arguments("a b.exe", true),
        vec!["/Create", "/TN", "ihateborders_startup", "/TR", "\"a b.exe\"", "/SC", "ONLOGON", "/F", "/RL", "HIGHEST"]
    );
    assert_eq!(remove_task_arguments(), vec!["/Delete", "/TN", "ihateborders_startup", "/F"]);
    assert_eq!(query_task_arguments(), vec!["/Query", "/TN", "ihateborders_startup"]);
}

#[test]
fn arguments_are_joined_with_single_spaces() {
    assert_eq!(join_arguments(&Vec::new()), "");
    assert_eq!(join_arguments(&vec!["--create-startup-task".to_string()]), "--create-startup-task");
    assert_eq!(join_arguments(&vec!["a".to_string(), "".to_string(), "b c".to_string()]), "a  b c");
    assert_eq!(elevated_argument(ElevatedTask::CreateStartupTask), "--create-startup-task");
    assert_eq!(elevated_argument(ElevatedTask::InstallAdminTask), "--install-admin-task");
}

#[test]
fn substring_search() {
    assert!(contains_text("ERROR: The system cannot find the file specified.", "cannot find the file"));
    assert!(contains_text("abc", ""));
    assert!(contains_text("", ""));
    assert!(contains_text("abc", "abc"));
    assert!(contains_text("abc", "c"));
    assert!(contains_text("aab", "ab"));
    assert!(!contains_text("abc", "abcd"));
    assert!(!contains_text("", "a"));
    assert!(!contains_text("abc", "ac"));
    assert!(contains_text("héllo wörld", "wör"));
}

#[test]
fn removal_fails_unless_there_was_nothing_to_remove() {
    assert!(!removal_failed(true, ""));
    assert!(!removal_failed(true, "anything"));
    assert!(removal_failed(false, "ERROR: Access is denied."));
    assert!(!removal_failed(false, "ERROR: The system cannot find the file specified."));
    assert!(removal_failed(false, ""));
}

#[test]
fn shell_answers_above_thirty_two_mean_success() {
    assert!(relaunch_succeeded(33));
    assert!(relaunch_succeeded(42));
    assert!(!relaunch_succeeded(32));
    assert!(!relaunch_succeeded(5));
    assert!(!relaunch_succeeded(0));
    assert!(!relaunch_succeeded(-1));
}

fn settings(run_on_startup: bool, startup_admin: bool) -> Config {
    let mut config = Config::new();
    config.run_on_startup = run_on_startup;
    config.startup_admin = startup_admin;
    config.auto_borderless_apps = vec!["kept".to_string()];
    config
}

fn flags(config: &Config) -> (bool, bool) {
    assert_eq!(config.auto_borderless_apps, vec!["kept".to_string()]);
    (config.run_on_startup, config.startup_admin)
}

#[test]
fn run_on_startup_without_elevation_relaunches() {
    let mut config = settings(false, false);
    let action = begin_startup_change(&mut config, StartupChange::RunOnStartup(true), false);
    assert_eq!(action, StartupAction::Relaunch { task: ElevatedTask::CreateStartupTask });
    assert_eq!(flags(&config), (true, false));
    assert!(finish_startup_change(&mut config, StartupChange::RunOnStartup(true), false, false));
    assert_eq!(flags(&config), (false, false));
}

#[test]
fn run_on_startup_with_elevation_registers_the_task() {
    let mut config = settings(false, false);
    let action = begin_startup_change(&mut config, StartupChange::RunOnStartup(true), true);
    assert_eq!(action, StartupAction::CreateTask { with_admin: false, replace: false });
    assert_eq!(flags(&config), (false, false));
    let mut failed = settings(false, false);
    assert!(!finish_startup_change(&mut failed, StartupChange::RunOnStartup(true), true, false));
    assert_eq!(flags(&failed), (false, false));
    assert!(finish_startup_change(&mut config, StartupChange::RunOnStartup(true), true, true));
    assert_eq!(flags(&config), (true, false));
}

#[test]
fn switching_startup_off_clears_both_settings() {
    for elevated in [false, true] {
        let mut config = settings(true, true);
        let action = begin_startup_change(&mut config, StartupChange::RunOnStartup(false), elevated);
        assert_eq!(action, StartupAction::RemoveTask);
        assert_eq!(flags(&config), (false, false));
        assert!(finish_startup_change(&mut config, StartupChange::RunOnStartup(false), elevated, false));
        assert_eq!(flags(&config), (false, false));
    }
}

#[test]
fn admin_start_without_elevation_relaunches() {
    let mut config = settings(true, false);
    let action = begin_startup_change(&mut config, StartupChange::StartupAdmin(true), false);
    assert_eq!(action, StartupAction::Relaunch { task: ElevatedTask::InstallAdminTask });
    assert_eq!(flags(&config), (true, true));
    assert!(finish_startup_change(&mut config, StartupChange::StartupAdmin(true), false, false));
    assert_eq!(flags(&config), (true, false));

    let mut off = settings(true, true);
    let action = begin_startup_change(&mut off, StartupChange::StartupAdmin(false), false);
    assert_eq!(action, StartupAction::Relaunch { task: ElevatedTask::CreateStartupTask });
    assert_eq!(flags(&off), (true, false));
    assert!(!finish_startup_change(&mut off, StartupChange::StartupAdmin(false), false, false));
    assert_eq!(flags(&off), (true, false));
}

#[test]
fn admin_start_with_elevation_registers_the_task() {
    let mut config = settings(true, false);
    let action = begin_startup_change(&mut config, StartupChange::StartupAdmin(true), true);
    assert_eq!(action, StartupAction::CreateTask { with_admin: true, replace: false });
    assert_eq!(flags(&config), (true, false));
    assert!(finish_startup_change(&mut config, StartupChange::StartupAdmin(true), true, true));
    assert_eq!(flags(&config), (true, true));

    let action = begin_startup_change(&mut config, StartupChange::StartupAdmin(false), true);
    assert_eq!(action, StartupAction::CreateTask { with_admin: false, replace: true });
    assert_eq!(flags(&config), (true, true));
    assert!(!finish_startup_change(&mut config, StartupChange::StartupAdmin(false), true, false));
    assert_eq!(flags(&config), (true, true));
    assert!(finish_startup_change(&mut config, StartupChange::StartupAdmin(false), true, true));
    assert_eq!(flags(&config), (true, false));
}
