//! Start with the system: the commands that register the scheduled task,
//! how their results are read, and what a change of the two startup
//! settings asks for.

use vstd::prelude::*;
use vstd::string::*;
use crate::config::{texts, Config};
use crate::text::same_text;

verus! {

/// `part` occurs in `s`.
pub open spec fn has_infix(s: Seq<char>, part: Seq<char>) -> bool {
    exists|k: int|
        0 <= k && k + part.len() <= s.len() && #[trigger] s.subrange(k, k + part.len()) == part
}

/// Tells whether `part` occurs in `s`.
pub fn contains_text(s: &str, part: &str) -> (found: bool)
    ensures
        found == has_infix(s@, part@),
{
    let n = s.unicode_len();
    let m = part.unicode_len();
    if m > n {
        return false;
    }
    let mut k: usize = 0;
    loop
        invariant
            n == s@.len(),
            m == part@.len(),
            m <= n,
            k <= n - m,
            forall|j: int| 0 <= j < k ==> #[trigger] s@.subrange(j, j + m) != part@,
        decreases n - m - k,
    {
        if same_text(s.substring_char(k, k + m), part) {
            return true;
        }
        if k == n - m {
            return false;
        }
        k += 1;
    }
}

/// The texts of `parts`, with `separator` between each two.
pub open spec fn joined(parts: Seq<Seq<char>>, separator: Seq<char>) -> Seq<char>
    decreases parts.len(),
{
    if parts.len() == 0 {
        Seq::empty()
    } else if parts.len() == 1 {
        parts[0]
    } else {
        joined(parts.drop_last(), separator) + separator + parts.last()
    }
}

/// Joins command-line arguments with single spaces.
pub fn join_arguments(arguments: &Vec<String>) -> (line: String)
    ensures
        line@ == joined(texts(arguments@), seq![' ']),
{
    let mut line = String::new();
    let mut i: usize = 0;
    proof {
        reveal_strlit(" ");
        assert(texts(arguments@).take(0) =~= Seq::<Seq<char>>::empty());
    }
    while i < arguments.len()
        invariant
            i <= arguments@.len(),
            " "@ == seq![' '],
            line@ == joined(texts(arguments@).take(i as int), seq![' ']),
        decreases arguments@.len() - i,
    {
        proof {
            let parts = texts(arguments@);
            assert(parts.take(i + 1).drop_last() =~= parts.take(i as int));
            assert(parts.take(i + 1).last() == arguments@[i as int]@);
        }
        if i > 0 {
            line.append(" ");
        }
        line.append(arguments[i].as_str());
        proof {
            let parts = texts(arguments@);
            if i == 0 {
                assert(parts.take(1)[0] == arguments@[0]@);
                assert(line@ =~= arguments@[0]@);
            }
        }
        i += 1;
    }
    assert(texts(arguments@).take(arguments@.len() as int) =~= texts(arguments@));
    line
}

/// The arguments of the command that registers the startup task for the
/// executable at `exe_path`: created anew at every logon, with the highest
/// privileges where `with_admin` is set.
pub open spec fn spec_create_task_arguments(exe_path: Seq<char>, with_admin: bool) -> Seq<
    Seq<char>,
> {
    let plain = seq![
        "/Create"@,
        "/TN"@,
        "ihateborders_startup"@,
        "/TR"@,
        seq!['"'] + exe_path + seq!['"'],
        "/SC"@,
        "ONLOGON"@,
        "/F"@,
    ];
    if with_admin {
        plain + seq!["/RL"@, "HIGHEST"@]
    } else {
        plain
    }
}

/// Makes the arguments of the command that registers the startup task.
pub fn create_task_arguments(exe_path: &str, with_admin: bool) -> (arguments: Vec<String>)
    ensures
        texts(arguments@) == spec_create_task_arguments(exe_path@, with_admin),
{
    proof {
        reveal_strlit("\"");
    }
    let mut quoted = String::from_str("\"");
    quoted.append(exe_path);
    quoted.append("\"");
    assert(quoted@ =~= seq!['"'] + exe_path@ + seq!['"']);
    let mut arguments: Vec<String> = Vec::new();
    arguments.push(String::from_str("/Create"));
    arguments.push(String::from_str("/TN"));
    arguments.push(String::from_str("ihateborders_startup"));
    arguments.push(String::from_str("/TR"));
    arguments.push(quoted);
    arguments.push(String::from_str("/SC"));
    arguments.push(String::from_str("ONLOGON"));
    arguments.push(String::from_str("/F"));
    if with_admin {
        arguments.push(String::from_str("/RL"));
        arguments.push(String::from_str("HIGHEST"));
    }
    assert(texts(arguments@) =~= spec_create_task_arguments(exe_path@, with_admin));
    arguments
}

/// Makes the arguments of the command that removes the startup task.
pub fn remove_task_arguments() -> (arguments: Vec<String>)
    ensures
        texts(arguments@) == seq!["/Delete"@, "/TN"@, "ihateborders_startup"@, "/F"@],
{
    let mut arguments: Vec<String> = Vec::new();
    arguments.push(String::from_str("/Delete"));
    arguments.push(String::from_str("/TN"));
    arguments.push(String::from_str("ihateborders_startup"));
    arguments.push(String::from_str("/F"));
    assert(texts(arguments@) =~= seq!["/Delete"@, "/TN"@, "ihateborders_startup"@, "/F"@]);
    arguments
}

/// Makes the arguments of the command that asks whether the startup task
/// exists.
pub fn query_task_arguments() -> (arguments: Vec<String>)
    ensures
        texts(arguments@) == seq!["/Query"@, "/TN"@, "ihateborders_startup"@],
{
    let mut arguments: Vec<String> = Vec::new();
    arguments.push(String::from_str("/Query"));
    arguments.push(String::from_str("/TN"));
    arguments.push(String::from_str("ihateborders_startup"));
    assert(texts(arguments@) =~= seq!["/Query"@, "/TN"@, "ihateborders_startup"@]);
    arguments
}

/// Tells whether the removal of the task failed: the command did, and not
/// because there was no task to remove.
pub fn removal_failed(succeeded: bool, error_output: &str) -> (failed: bool)
    ensures
        failed == (!succeeded && !has_infix(error_output@, "cannot find the file"@)),
{
    !succeeded && !contains_text(error_output, "cannot find the file")
}

/// Tells whether the shell started the elevated process: it answers with a
/// value above 32 when it did.
pub fn relaunch_succeeded(shell_result: i32) -> (started: bool)
    ensures
        started == (shell_result > 32),
{
    shell_result > 32
}

/// One of the two startup settings, with the value that the user gave it.
#[derive(Debug, Clone, Copy, PartialEq, Eq, Structural)]
pub enum StartupChange {
    /// Start with the system, or not.
    RunOnStartup(bool),
    /// Start with administrator privileges, or not.
    StartupAdmin(bool),
}

/// What the elevated process is asked to do.
#[derive(Debug, Clone, Copy, PartialEq, Eq, Structural)]
pub enum ElevatedTask {
    /// Register the task without privileges.
    CreateStartupTask,
    /// Register the task with the highest privileges.
    InstallAdminTask,
}

/// What is to be done outside for a change of a startup setting.
#[derive(Debug, Clone, Copy, PartialEq, Eq, Structural)]
pub enum StartupAction {
    /// Store the settings, then start the program again with elevation; it
    /// registers the task itself. Where that works, this process ends.
    Relaunch { task: ElevatedTask },
    /// Register the task; where `replace` is set, remove an existing one
    /// first.
    CreateTask { with_admin: bool, replace: bool },
    /// Remove the task if there is one, then store the settings.
    RemoveTask,
}

/// The action that a change asks for: without elevation the program
/// starts again elevated, with it the task is registered at once; and the
/// task is removed when the start with the system is switched off.
pub open spec fn spec_action(change: StartupChange, elevated: bool) -> StartupAction {
    match change {
        StartupChange::RunOnStartup(true) => if elevated {
            StartupAction::CreateTask { with_admin: false, replace: false }
        } else {
            StartupAction::Relaunch { task: ElevatedTask::CreateStartupTask }
        },
        StartupChange::RunOnStartup(false) => StartupAction::RemoveTask,
        StartupChange::StartupAdmin(true) => if elevated {
            StartupAction::CreateTask { with_admin: true, replace: false }
        } else {
            StartupAction::Relaunch { task: ElevatedTask::InstallAdminTask }
        },
        StartupChange::StartupAdmin(false) => if elevated {
            StartupAction::CreateTask { with_admin: false, replace: true }
        } else {
            StartupAction::Relaunch { task: ElevatedTask::CreateStartupTask }
        },
    }
}

/// The two startup settings before the action is taken: a relaunch stores
/// the new value at once, switching off the start with the system clears
/// both, and a task that is registered here changes nothing yet.
pub open spec fn spec_settings_before(
    run_on_startup: bool,
    startup_admin: bool,
    change: StartupChange,
    elevated: bool,
) -> (bool, bool) {
    match change {
        StartupChange::RunOnStartup(true) => (run_on_startup || !elevated, startup_admin),
        StartupChange::RunOnStartup(false) => (false, false),
        StartupChange::StartupAdmin(on) => (
            run_on_startup,
            if elevated {
                startup_admin
            } else {
                on
            },
        ),
    }
}

/// The two startup settings after the action was taken, from what they
/// were before it: a task registered here stores the new value, and a
/// relaunch that failed takes back a setting that it had switched on.
pub open spec fn spec_settings_after(
    run_on_startup: bool,
    startup_admin: bool,
    change: StartupChange,
    elevated: bool,
    succeeded: bool,
) -> (bool, bool) {
    match change {
        StartupChange::RunOnStartup(true) => (
            if elevated {
                run_on_startup || succeeded
            } else {
                run_on_startup && succeeded
            },
            startup_admin,
        ),
        StartupChange::RunOnStartup(false) => (run_on_startup, startup_admin),
        StartupChange::StartupAdmin(true) => (
            run_on_startup,
            if elevated {
                startup_admin || succeeded
            } else {
                startup_admin && succeeded
            },
        ),
        StartupChange::StartupAdmin(false) => (
            run_on_startup,
            if elevated {
                startup_admin && !succeeded
            } else {
                startup_admin
            },
        ),
    }
}

/// The settings are to be stored after the action: always after the task
/// was removed, after a task was registered here, and after a relaunch
/// that failed had switched a setting on.
pub open spec fn spec_store_after(change: StartupChange, elevated: bool, succeeded: bool) -> bool {
    match change {
        StartupChange::RunOnStartup(false) => true,
        StartupChange::StartupAdmin(false) => elevated && succeeded,
        _ => if elevated {
            succeeded
        } else {
            !succeeded
        },
    }
}

/// The first half of a change of a startup setting: sets what is stored
/// before the action, and tells the action. The settings are to be stored
/// before a relaunch.
pub fn begin_startup_change(config: &mut Config, change: StartupChange, elevated: bool) -> (action:
    StartupAction)
    ensures
        action == spec_action(change, elevated),
        (final(config).run_on_startup, final(config).startup_admin) == spec_settings_before(
            old(config).run_on_startup,
            old(config).startup_admin,
            change,
            elevated,
        ),
        final(config).auto_borderless_apps == old(config).auto_borderless_apps,
{
    match change {
        StartupChange::RunOnStartup(true) => {
            if elevated {
                StartupAction::CreateTask { with_admin: false, replace: false }
            } else {
                config.run_on_startup = true;
                StartupAction::Relaunch { task: ElevatedTask::CreateStartupTask }
            }
        },
        StartupChange::RunOnStartup(false) => {
            config.run_on_startup = false;
            config.startup_admin = false;
            StartupAction::RemoveTask
        },
        StartupChange::StartupAdmin(on) => {
            if elevated {
                StartupAction::CreateTask { with_admin: on, replace: !on }
            } else {
                config.startup_admin = on;
                if on {
                    StartupAction::Relaunch { task: ElevatedTask::InstallAdminTask }
                } else {
                    StartupAction::Relaunch { task: ElevatedTask::CreateStartupTask }
                }
            }
        },
    }
}

/// The second half of a change of a startup setting, after the action was
/// taken: `succeeded` tells how it ended. Returns whether the settings are
/// to be stored.
pub fn finish_startup_change(
    config: &mut Config,
    change: StartupChange,
    elevated: bool,
    succeeded: bool,
) -> (store: bool)
    ensures
        store == spec_store_after(change, elevated, succeeded),
        (final(config).run_on_startup, final(config).startup_admin) == spec_settings_after(
            old(config).run_on_startup,
            old(config).startup_admin,
            change,
            elevated,
            succeeded,
        ),
        final(config).auto_borderless_apps == old(config).auto_borderless_apps,
{
    match change {
        StartupChange::RunOnStartup(true) => {
            if elevated {
                if succeeded {
                    config.run_on_startup = true;
                }
                succeeded
            } else {
                if !succeeded {
                    config.run_on_startup = false;
                }
                !succeeded
            }
        },
        StartupChange::RunOnStartup(false) => true,
        StartupChange::StartupAdmin(true) => {
            if elevated {
                if succeeded {
                    config.startup_admin = true;
                }
                succeeded
            } else {
                if !succeeded {
                    config.startup_admin = false;
                }
                !succeeded
            }
        },
        StartupChange::StartupAdmin(false) => {
            if elevated && succeeded {
                config.startup_admin = false;
                true
            } else {
                false
            }
        },
    }
}

/// The command-line argument that asks the elevated process for `task`.
pub fn elevated_argument(task: ElevatedTask) -> (argument: &'static str)
    ensures
        argument@ == match task {
            ElevatedTask::CreateStartupTask => "--create-startup-task"@,
            ElevatedTask::InstallAdminTask => "--install-admin-task"@,
        },
{
    match task {
        ElevatedTask::CreateStartupTask => "--create-startup-task",
        ElevatedTask::InstallAdminTask => "--install-admin-task",
    }
}

} // verus!
