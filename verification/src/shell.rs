//! The application shell: lifecycle states, event dispatch, and the
//! side-effect commands handed to the host.
//!
//! The shell is a pure state machine. The host feeds it one event at a
//! time (strictly serialized), and carries out the returned commands;
//! each command's result re-enters the queue as a later event. No call
//! here blocks, so the countdown is never held up by storage latency.

use vstd::prelude::*;
use vstd::string::StringExecFns;

use crate::session::local_day_start_epoch;
use crate::task::Task;
use crate::text::{spec_trim, trimmed};
use crate::timer::{
    spec_after_reset, spec_after_set_duration, spec_after_tick, Phase, TimerState,
};

verus! {

/// The two window layouts of the GUI front end.
#[derive(Clone, Copy, Debug, PartialEq, Eq, Structural)]
pub enum ViewMode {
    Full,
    Mini,
}

/// The modal dialog currently shown, if any.
#[derive(Clone, Copy, Debug, PartialEq, Eq, Structural)]
pub enum Modal {
    Closed,
    AddTask,
    Settings,
}

/// An accent colour, as 8-bit RGB channels. The presentation layer
/// turns this into whatever its toolkit wants.
#[derive(Clone, Copy, Debug, PartialEq, Eq, Structural)]
pub struct Rgb {
    pub r: u8,
    pub g: u8,
    pub b: u8,
}

/// The accent the application starts with (the default orange).
pub open spec fn spec_default_accent() -> Rgb {
    Rgb { r: 251, g: 44, b: 45 }
}

/// The accent the application starts with (the default orange).
pub fn default_accent() -> (c: Rgb)
    ensures
        c == spec_default_accent(),
{
    Rgb { r: 251, g: 44, b: 45 }
}

/// Events the front ends and the host's completed side effects
/// dispatch into the shell.
#[derive(Debug)]
pub enum Message {
    FontLoaded(bool),
    DbConnected(Result<(), String>),
    TasksLoaded(Result<Vec<Task>, String>),
    SessionLoaded(Result<i64, String>),
    TaskOperationFailed(String),
    TaskOperationSuccess,
    ToggleTimer,
    Tick,
    ResetTimer,
    SkipPhase,
    SetDuration(u64),
    UpdateNewTaskInput(String),
    AddTask,
    DeleteTask(i64),
    MarkTaskDone(i64),
    SetActiveTask(i64),
    ToggleMiniMode,
    OpenModal(Modal),
    CloseModal,
    SetColor(Rgb),
    ToggleTheme,
    Noop,
}

/// Side effects the shell asks its host to perform. The host runs each
/// asynchronously and feeds the outcome back as a `Message`.
#[derive(Clone, Debug)]
pub enum Command {
    Connect,
    LoadTasks,
    LoadDailyAggregate { since_epoch: i64 },
    CreateTask { text: String },
    DeleteTask { id: i64 },
    AppendSession { duration_seconds: u64 },
    WindowMini,
    WindowFull,
}

/// The loaded application's state. The task list is a cache of the
/// gateway's contents, refreshed after every successful mutation.
#[derive(Clone, Debug)]
pub struct State {
    pub tasks: Vec<Task>,
    pub timer: TimerState,
    pub session_focus_seconds: i64,
    pub view_mode: ViewMode,
    pub new_task_input: String,
    pub active_task_id: Option<i64>,
    pub active_modal: Modal,
    pub accent: Rgb,
    pub is_dark_mode: bool,
}

/// The ids of a task sequence, in order.
pub open spec fn spec_task_ids(ts: Seq<Task>) -> Seq<i64> {
    ts.map_values(|t: Task| t.id)
}

/// The active pointer once a deletion of `id` has been issued: cleared
/// at once when it pointed at the deleted task, untouched otherwise.
pub open spec fn spec_active_after_delete(active: Option<i64>, id: i64) -> Option<i64> {
    if active == Some(id) {
        None
    } else {
        active
    }
}

/// The active pointer once a refetched list has arrived: when no task
/// is active and the list is non-empty, the first task of the new list
/// becomes active; otherwise the pointer is untouched.
pub open spec fn spec_active_after_refetch(active: Option<i64>, ids: Seq<i64>) -> Option<i64> {
    if active is None && ids.len() > 0 {
        Some(ids[0])
    } else {
        active
    }
}

/// The state entered when the store connects: timer at its defaults,
/// no tasks, zeroed aggregate, full window, empty input, no active
/// task, no modal, default accent, dark mode.
pub open spec fn spec_initial_state(s: State) -> bool {
    &&& s.tasks@.len() == 0
    &&& s.timer == TimerState::spec_initial()
    &&& s.session_focus_seconds == 0
    &&& s.view_mode is Full
    &&& s.new_task_input@.len() == 0
    &&& s.active_task_id is None
    &&& s.active_modal is Closed
    &&& s.accent == spec_default_accent()
    &&& s.is_dark_mode
}

impl State {
    /// Machine limits a tick must respect: the counters it may bump
    /// cannot grow past their types.
    pub open spec fn spec_tick_room(self) -> bool {
        self.timer.is_running ==> if self.timer.remaining_secs > 0 {
            self.timer.phase is Focus ==> self.session_focus_seconds < i64::MAX
        } else {
            self.timer.phase is Focus ==> self.timer.cycles_completed < usize::MAX
        }
    }
}

/// How one event transforms a loaded state and which commands it
/// emits. This is the contract of `State::apply`, written as a
/// relation between the state before (`pre`) and after (`post`).
pub open spec fn spec_apply_ok(pre: State, msg: Message, post: State, cmds: Seq<Command>) -> bool {
    match msg {
        Message::FontLoaded(_) => post == pre && cmds.len() == 0,
        Message::DbConnected(_) => post == pre && cmds.len() == 0,
        Message::TasksLoaded(r) => match r {
            Ok(ts) => {
                &&& post == (State {
                    tasks: post.tasks,
                    active_task_id: spec_active_after_refetch(
                        pre.active_task_id,
                        spec_task_ids(ts@),
                    ),
                    ..pre
                })
                &&& post.tasks == ts
                &&& cmds.len() == 0
            },
            Err(_) => post == pre && cmds.len() == 0,
        },
        Message::SessionLoaded(r) => match r {
            Ok(secs) => post == (State { session_focus_seconds: secs, ..pre }) && cmds.len()
                == 0,
            Err(_) => post == pre && cmds.len() == 0,
        },
        Message::TaskOperationFailed(_) => post == pre && cmds.len() == 0,
        Message::TaskOperationSuccess => post == pre && cmds.len() == 1 && cmds[0] is LoadTasks,
        Message::ToggleTimer => {
            &&& post == (State {
                timer: (TimerState { is_running: !pre.timer.is_running, ..pre.timer }),
                ..pre
            })
            &&& cmds.len() == 0
        },
        Message::Tick => {
            &&& post == (State {
                timer: spec_after_tick(pre.timer),
                session_focus_seconds: if pre.timer.is_running && pre.timer.remaining_secs > 0
                    && pre.timer.phase is Focus {
                    (pre.session_focus_seconds + 1) as i64
                } else {
                    pre.session_focus_seconds
                },
                ..pre
            })
            &&& if pre.timer.is_running && pre.timer.remaining_secs == 0
                && pre.timer.phase is Focus {
                cmds.len() == 1 && cmds[0] == (Command::AppendSession {
                    duration_seconds: pre.timer.total_secs,
                })
            } else {
                cmds.len() == 0
            }
        },
        Message::ResetTimer => post == (State { timer: spec_after_reset(pre.timer), ..pre })
            && cmds.len() == 0,
        Message::SkipPhase => {
            &&& post == (State {
                timer: (TimerState { remaining_secs: 0, ..pre.timer }),
                ..pre
            })
            &&& cmds.len() == 0
        },
        Message::SetDuration(secs) => post == (State {
            timer: spec_after_set_duration(pre.timer, secs),
            ..pre
        }) && cmds.len() == 0,
        Message::UpdateNewTaskInput(text) => post == (State { new_task_input: text, ..pre })
            && cmds.len() == 0,
        Message::AddTask => {
            if spec_trim(pre.new_task_input@).len() == 0 {
                post == pre && cmds.len() == 0
            } else {
                &&& post == (State {
                    new_task_input: post.new_task_input,
                    active_modal: Modal::Closed,
                    ..pre
                })
                &&& post.new_task_input@.len() == 0
                &&& cmds.len() == 1
                &&& cmds[0] matches Command::CreateTask { text } && text@ == spec_trim(
                    pre.new_task_input@,
                )
            }
        },
        Message::DeleteTask(id) => {
            &&& post == (State {
                active_task_id: spec_active_after_delete(pre.active_task_id, id),
                ..pre
            })
            &&& cmds.len() == 1
            &&& cmds[0] == (Command::DeleteTask { id })
        },
        Message::MarkTaskDone(id) => {
            &&& post == (State {
                active_task_id: spec_active_after_delete(pre.active_task_id, id),
                ..pre
            })
            &&& cmds.len() == 1
            &&& cmds[0] == (Command::DeleteTask { id })
        },
        Message::SetActiveTask(id) => post == (State { active_task_id: Some(id), ..pre })
            && cmds.len() == 0,
        Message::ToggleMiniMode => match pre.view_mode {
            ViewMode::Full => post == (State { view_mode: ViewMode::Mini, ..pre }) && cmds.len()
                == 1 && cmds[0] is WindowMini,
            ViewMode::Mini => post == (State { view_mode: ViewMode::Full, ..pre }) && cmds.len()
                == 1 && cmds[0] is WindowFull,
        },
        Message::OpenModal(m) => post == (State { active_modal: m, ..pre }) && cmds.len() == 0,
        Message::CloseModal => post == (State { active_modal: Modal::Closed, ..pre })
            && cmds.len() == 0,
        Message::SetColor(c) => post == (State { accent: c, ..pre }) && cmds.len() == 0,
        Message::ToggleTheme => post == (State { is_dark_mode: !pre.is_dark_mode, ..pre })
            && cmds.len() == 0,
        Message::Noop => post == pre && cmds.len() == 0,
    }
}

impl State {
    /// Applies one event to a loaded state and returns the commands to
    /// run. See `spec_apply_ok` for the exact transition.
    pub fn apply(&mut self, msg: Message) -> (cmds: Vec<Command>)
        requires
            msg is Tick ==> old(self).spec_tick_room(),
        ensures
            spec_apply_ok(*old(self), msg, *final(self), cmds@),
    {
        match msg {
            Message::FontLoaded(_) => Vec::new(),
            Message::DbConnected(_) => Vec::new(),
            Message::TasksLoaded(r) => {
                match r {
                    Ok(ts) => {
                        self.tasks = ts;
                        if self.active_task_id.is_none() && self.tasks.len() > 0 {
                            self.active_task_id = Some(self.tasks[0].id);
                        }
                        Vec::new()
                    },
                    Err(_) => Vec::new(),
                }
            },
            Message::SessionLoaded(r) => {
                match r {
                    Ok(secs) => {
                        self.session_focus_seconds = secs;
                        Vec::new()
                    },
                    Err(_) => Vec::new(),
                }
            },
            Message::TaskOperationFailed(_) => Vec::new(),
            Message::TaskOperationSuccess => {
                let mut cmds: Vec<Command> = Vec::new();
                cmds.push(Command::LoadTasks);
                cmds
            },
            Message::ToggleTimer => {
                self.timer.toggle_run();
                Vec::new()
            },
            Message::Tick => {
                let before = self.timer;
                let completed = self.timer.tick();
                if before.is_running && before.remaining_secs > 0 && matches!(
                    before.phase,
                    Phase::Focus,
                ) {
                    self.session_focus_seconds = self.session_focus_seconds + 1;
                }
                let mut cmds: Vec<Command> = Vec::new();
                match completed {
                    Some(d) => {
                        cmds.push(Command::AppendSession { duration_seconds: d });
                    },
                    None => {},
                }
                cmds
            },
            Message::ResetTimer => {
                self.timer.reset();
                Vec::new()
            },
            Message::SkipPhase => {
                self.timer.skip_phase();
                Vec::new()
            },
            Message::SetDuration(secs) => {
                self.timer.set_duration(secs);
                Vec::new()
            },
            Message::UpdateNewTaskInput(text) => {
                self.new_task_input = text;
                Vec::new()
            },
            Message::AddTask => {
                let text = trimmed(self.new_task_input.as_str());
                if text.as_str().is_empty() {
                    Vec::new()
                } else {
                    self.new_task_input = String::new();
                    self.active_modal = Modal::Closed;
                    let mut cmds: Vec<Command> = Vec::new();
                    cmds.push(Command::CreateTask { text });
                    cmds
                }
            },
            Message::DeleteTask(id) => {
                if self.active_task_id == Some(id) {
                    self.active_task_id = None;
                }
                let mut cmds: Vec<Command> = Vec::new();
                cmds.push(Command::DeleteTask { id });
                cmds
            },
            Message::MarkTaskDone(id) => {
                if self.active_task_id == Some(id) {
                    self.active_task_id = None;
                }
                let mut cmds: Vec<Command> = Vec::new();
                cmds.push(Command::DeleteTask { id });
                cmds
            },
            Message::SetActiveTask(id) => {
                self.active_task_id = Some(id);
                Vec::new()
            },
            Message::ToggleMiniMode => {
                let mut cmds: Vec<Command> = Vec::new();
                match self.view_mode {
                    ViewMode::Full => {
                        self.view_mode = ViewMode::Mini;
                        cmds.push(Command::WindowMini);
                    },
                    ViewMode::Mini => {
                        self.view_mode = ViewMode::Full;
                        cmds.push(Command::WindowFull);
                    },
                }
                cmds
            },
            Message::OpenModal(m) => {
                self.active_modal = m;
                Vec::new()
            },
            Message::CloseModal => {
                self.active_modal = Modal::Closed;
                Vec::new()
            },
            Message::SetColor(c) => {
                self.accent = c;
                Vec::new()
            },
            Message::ToggleTheme => {
                self.is_dark_mode = !self.is_dark_mode;
                Vec::new()
            },
            Message::Noop => Vec::new(),
        }
    }
}

/// Top-level lifecycle of the application shell. `Loading` waits for
/// the store to connect; `Error` is terminal and accepts no events.
#[derive(Clone, Debug)]
pub enum PomimiApp {
    Loading,
    Loaded(State),
    Error(String),
}

/// Machine limits a tick must respect, lifted to the shell.
pub open spec fn spec_tick_room(app: PomimiApp) -> bool {
    match app {
        PomimiApp::Loaded(s) => s.spec_tick_room(),
        _ => true,
    }
}

/// How one event transforms the whole shell. While `Loading`, only the
/// connect outcome matters: success enters `Loaded` at the initial
/// state and fires the startup loads; failure is terminal. `Error`
/// ignores everything. While `Loaded`, events act per `spec_apply_ok`,
/// and a gateway failure never changes the lifecycle state.
pub open spec fn spec_update_ok(
    pre: PomimiApp,
    msg: Message,
    post: PomimiApp,
    cmds: Seq<Command>,
) -> bool {
    match pre {
        PomimiApp::Loading => match msg {
            Message::DbConnected(r) => match r {
                Ok(_) => {
                    &&& post matches PomimiApp::Loaded(s) && spec_initial_state(s)
                    &&& cmds.len() == 2
                    &&& cmds[0] is LoadTasks
                    &&& cmds[1] is LoadDailyAggregate
                },
                Err(e) => {
                    &&& post matches PomimiApp::Error(m) && m@ == "Failed to connect to database: "@
                        + e@
                    &&& cmds.len() == 0
                },
            },
            _ => post == pre && cmds.len() == 0,
        },
        PomimiApp::Error(_) => post == pre && cmds.len() == 0,
        PomimiApp::Loaded(s) => post matches PomimiApp::Loaded(s2) && spec_apply_ok(
            s,
            msg,
            s2,
            cmds,
        ),
    }
}

impl PomimiApp {
    /// A fresh shell: loading, with the single command to connect the
    /// store.
    pub fn new() -> (r: (PomimiApp, Vec<Command>))
        ensures
            r.0 is Loading,
            r.1@.len() == 1,
            r.1@[0] is Connect,
    {
        let mut cmds: Vec<Command> = Vec::new();
        cmds.push(Command::Connect);
        (PomimiApp::Loading, cmds)
    }

    /// The window title: the application name, its error marker, or
    /// the countdown as minutes and seconds.
    pub fn title(&self) -> (t: String)
        ensures
            self is Loading ==> t@ == "Pomimi"@,
            self is Error ==> t@ == "Pomimi - Error"@,
            self matches PomimiApp::Loaded(s) ==> t@ == "Pomimi - "@
                + crate::fmt::spec_duration_text(s.timer.remaining_secs),
    {
        match self {
            PomimiApp::Loading => "Pomimi".to_owned(),
            PomimiApp::Error(_) => "Pomimi - Error".to_owned(),
            PomimiApp::Loaded(state) => {
                let mut t = "Pomimi - ".to_owned();
                let countdown = crate::fmt::format_duration(state.timer.remaining_secs);
                t.append(countdown.as_str());
                t
            },
        }
    }

    /// Whether the periodic one-second tick source should be active:
    /// only while loaded and running, so that no tick is delivered
    /// while paused.
    pub fn subscription(&self) -> (active: bool)
        ensures
            active == (self matches PomimiApp::Loaded(s) && s.timer.is_running),
    {
        match self {
            PomimiApp::Loaded(state) => state.timer.is_running,
            _ => false,
        }
    }

    /// Dispatches one event and returns the commands for the host to
    /// carry out. See `spec_update_ok` for the exact transition.
    pub fn update(&mut self, message: Message) -> (cmds: Vec<Command>)
        requires
            message is Tick ==> spec_tick_room(*old(self)),
        ensures
            spec_update_ok(*old(self), message, *final(self), cmds@),
    {
        match self {
            PomimiApp::Loading => {
                match message {
                    Message::DbConnected(r) => match r {
                        Ok(_) => {
                            let state = State {
                                tasks: Vec::new(),
                                timer: TimerState::default(),
                                session_focus_seconds: 0,
                                view_mode: ViewMode::Full,
                                new_task_input: String::new(),
                                active_task_id: None,
                                active_modal: Modal::Closed,
                                accent: default_accent(),
                                is_dark_mode: true,
                            };
                            *self = PomimiApp::Loaded(state);
                            let since = local_day_start_epoch();
                            let mut cmds: Vec<Command> = Vec::new();
                            cmds.push(Command::LoadTasks);
                            cmds.push(Command::LoadDailyAggregate { since_epoch: since });
                            cmds
                        },
                        Err(e) => {
                            let mut m = "Failed to connect to database: ".to_owned();
                            m.append(e.as_str());
                            *self = PomimiApp::Error(m);
                            Vec::new()
                        },
                    },
                    _ => Vec::new(),
                }
            },
            PomimiApp::Error(_) => Vec::new(),
            PomimiApp::Loaded(state) => state.apply(message),
        }
    }
}

/// Law: deleting the active task clears the pointer at once — before
/// any refetch lands — and when the refetched list then arrives
/// non-empty, the pointer settles on the first task of the new list.
pub proof fn lemma_delete_active_then_refetch(active: Option<i64>, id: i64, ids: Seq<i64>)
    requires
        active == Some(id),
        ids.len() > 0,
    ensures
        spec_active_after_delete(active, id) is None,
        spec_active_after_refetch(spec_active_after_delete(active, id), ids) == Some(ids[0]),
{
}

} // verus!
