//! Where the settings come from and the logging in force before they are
//! read.
use vstd::prelude::*;
use crate::settings::{LogSettings, EnvironmentSettings};
use crate::handlers::{joined, path_join};
use crate::text::push_str;

verus! {

/// The name of the settings file: the command line's, else `settings.toml`.
pub fn settings_name(cli: Option<&str>) -> (res: String)
    ensures
        res@ == (match cli { Some(n) => n@, None => "settings.toml"@ }),
{
    match cli {
        Some(n) => String::from_str(n),
        None => String::from_str("settings.toml"),
    }
}

/// The settings file in the working directory: `./` and the name.
pub fn settings_fallback(name: &str) -> (res: String)
    ensures
        res@ == "./"@ + name@,
{
    let mut s = String::from_str("./");
    push_str(&mut s, name);
    s
}

/// The settings file to read: the one given on the command line, else the one
/// of that name next to the executable, else the one of that name in the
/// working directory (when the executable's directory is not known).
pub fn settings_path(cli_settings: Option<&str>, exe_dir: Option<&str>, name: &str) -> (res: String)
    ensures
        res@ == (match cli_settings {
            Some(p) => p@,
            None => match exe_dir {
                Some(d) => joined(d@, name@),
                None => "./"@ + name@,
            },
        }),
{
    match cli_settings {
        Some(p) => String::from_str(p),
        None => match exe_dir {
            Some(d) => path_join(d, name),
            None => settings_fallback(name),
        },
    }
}

/// The logging in force before the settings are read: nothing decided, then
/// the command line's numeric level (without cascade) or level template.
pub fn initial_logging(level: Option<i16>, template: Option<&str>) -> (res: LogSettings)
    ensures
        res == (match level {
            Some(l) => LogSettings::spec_default().with_level(l, false),
            None => match template {
                Some(t) => LogSettings::spec_default().with_template(t@),
                None => LogSettings::spec_default(),
            },
        }),
{
    let mut l = LogSettings::default();
    match level {
        Some(v) => l.update_loglevel(v, false),
        None => match template {
            Some(t) => l.update_loglevel_template(t),
            None => {},
        },
    }
    l
}

/// The runtime the servers run on.
pub enum RuntimePlan {
    /// Keep the runtime that is already running.
    Reuse,
    /// Build a multi-threaded runtime with these options.
    MultiThread {
        worker_threads: Option<usize>,
        thread_name: Option<String>,
        event_interval: Option<u32>,
        max_io_events_per_tick: Option<usize>,
        global_queue_interval: Option<u32>,
        thread_keep_alive_ns: Option<u64>,
        thread_stack_size: Option<usize>,
        max_blocking_threads: Option<usize>,
    },
    /// Build a single-threaded runtime; only the thread's name and stack size
    /// apply to it.
    CurrentThread { thread_name: Option<String>, thread_stack_size: Option<usize> },
}

/// The runtime for a run: a running runtime is reused unless the settings ask
/// for a rebuild on restart; otherwise one is built as the settings describe.
pub fn runtime_plan(env: &EnvironmentSettings, runtime_running: bool) -> (res: RuntimePlan)
    ensures
        runtime_running && !env.rebuild_on_restart ==> res is Reuse,
        !(runtime_running && !env.rebuild_on_restart) && env.multi_threaded ==> res == (RuntimePlan::MultiThread {
            worker_threads: env.worker_threads,
            thread_name: env.thread_name,
            event_interval: env.event_interval,
            max_io_events_per_tick: env.max_io_events_per_tick,
            global_queue_interval: env.global_queue_interval,
            thread_keep_alive_ns: env.thread_keep_alive_ns,
            thread_stack_size: env.thread_stack_size,
            max_blocking_threads: env.max_blocking_threads,
        }),
        !(runtime_running && !env.rebuild_on_restart) && !env.multi_threaded ==> res == (RuntimePlan::CurrentThread {
            thread_name: env.thread_name,
            thread_stack_size: env.thread_stack_size,
        }),
{
    if runtime_running && !env.rebuild_on_restart {
        RuntimePlan::Reuse
    } else if env.multi_threaded {
        RuntimePlan::MultiThread {
            worker_threads: env.worker_threads,
            thread_name: env.thread_name.clone(),
            event_interval: env.event_interval,
            max_io_events_per_tick: env.max_io_events_per_tick,
            global_queue_interval: env.global_queue_interval,
            thread_keep_alive_ns: env.thread_keep_alive_ns,
            thread_stack_size: env.thread_stack_size,
            max_blocking_threads: env.max_blocking_threads,
        }
    } else {
        RuntimePlan::CurrentThread {
            thread_name: env.thread_name.clone(),
            thread_stack_size: env.thread_stack_size,
        }
    }
}

} // verus!
