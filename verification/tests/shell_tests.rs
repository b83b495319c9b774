use pomimi::shell::{default_accent, Command, Message, Modal, PomimiApp, Rgb, State, ViewMode};
use pomimi::task::Task;
use pomimi::timer::{Phase, TimerState};

fn loaded_state() -> State {
    State {
        tasks: Vec::new(),
        timer: TimerState::default(),
        session_focus_seconds: 0,
        view_mode: ViewMode::Full,
        new_task_input: String::new(),
        active_task_id: None,
        active_modal: Modal::Closed,
        accent: default_accent(),
        is_dark_mode: true,
    }
}

fn task(id: i64, text: &str) -> Task {
    Task { id, text: text.to_string(), completed: false, created_at: id }
}

#[test]
fn new_shell_loads_and_connects() {
    let (app, cmds) = PomimiApp::new();
    assert!(matches!(app, PomimiApp::Loading));
    assert_eq!(cmds.len(), 1);
    assert!(matches!(cmds[0], Command::Connect));
}

#[test]
fn connect_success_enters_loaded_and_fires_startup_loads() {
    let (mut app, _) = PomimiApp::new();
    let cmds = app.update(Message::DbConnected(Ok(())));
    match &app {
        PomimiApp::Loaded(s) => {
            assert!(s.tasks.is_empty());
            assert_eq!(s.timer, TimerState::default());
            assert_eq!(s.session_focus_seconds, 0);
            assert_eq!(s.view_mode, ViewMode::Full);
            assert!(s.new_task_input.is_empty());
            assert_eq!(s.active_task_id, None);
            assert_eq!(s.active_modal, Modal::Closed);
            assert!(s.is_dark_mode);
        }
        other => panic!("expected Loaded, got {:?}", other),
    }
    assert_eq!(cmds.len(), 2);
    assert!(matches!(cmds[0], Command::LoadTasks));
    assert!(matches!(cmds[1], Command::LoadDailyAggregate { .. }));
}

#[test]
fn connect_failure_is_terminal() {
    let (mut app, _) = PomimiApp::new();
    let cmds = app.update(Message::DbConnected(Err("no such file".to_string())));
    assert!(cmds.is_empty());
    match &app {
        PomimiApp::Error(m) => {
            assert_eq!(m, "Failed to connect to database: no such file");
        }
        other => panic!("expected Error, got {:?}", other),
    }
    // Error accepts no further events.
    let cmds = app.update(Message::ToggleTimer);
    assert!(cmds.is_empty());
    assert!(matches!(app, PomimiApp::Error(_)));
}

#[test]
fn events_are_ignored_while_loading() {
    let (mut app, _) = PomimiApp::new();
    let cmds = app.update(Message::ToggleTimer);
    assert!(cmds.is_empty());
    assert!(matches!(app, PomimiApp::Loading));
}

#[test]
fn refetch_auto_selects_first_task() {
    let mut s = loaded_state();
    let cmds = s.apply(Message::TasksLoaded(Ok(vec![task(7, "write"), task(3, "read")])));
    assert!(cmds.is_empty());
    assert_eq!(s.tasks.len(), 2);
    assert_eq!(s.active_task_id, Some(7));
}

#[test]
fn refetch_keeps_an_existing_active_task() {
    let mut s = loaded_state();
    s.active_task_id = Some(3);
    s.apply(Message::TasksLoaded(Ok(vec![task(7, "write"), task(3, "read")])));
    assert_eq!(s.active_task_id, Some(3));
}

#[test]
fn deleting_the_active_task_clears_the_pointer_first() {
    let mut s = loaded_state();
    s.apply(Message::TasksLoaded(Ok(vec![task(7, "write"), task(3, "read")])));
    assert_eq!(s.active_task_id, Some(7));
    // The pointer is cleared before any refetch lands.
    let cmds = s.apply(Message::DeleteTask(7));
    assert_eq!(s.active_task_id, None);
    assert_eq!(cmds.len(), 1);
    assert!(matches!(cmds[0], Command::DeleteTask { id: 7 }));
    // When the refetched list arrives, the first task becomes active.
    s.apply(Message::TasksLoaded(Ok(vec![task(3, "read")])));
    assert_eq!(s.active_task_id, Some(3));
}

#[test]
fn deleting_another_task_keeps_the_pointer() {
    let mut s = loaded_state();
    s.active_task_id = Some(7);
    let cmds = s.apply(Message::DeleteTask(3));
    assert_eq!(s.active_task_id, Some(7));
    assert_eq!(cmds.len(), 1);
    assert!(matches!(cmds[0], Command::DeleteTask { id: 3 }));
}

#[test]
fn mark_done_behaves_like_delete() {
    let mut s = loaded_state();
    s.active_task_id = Some(5);
    let cmds = s.apply(Message::MarkTaskDone(5));
    assert_eq!(s.active_task_id, None);
    assert_eq!(cmds.len(), 1);
    assert!(matches!(cmds[0], Command::DeleteTask { id: 5 }));
}

#[test]
fn whitespace_only_input_never_reaches_the_gateway() {
    let mut s = loaded_state();
    s.new_task_input = "   ".to_string();
    s.active_modal = Modal::AddTask;
    let before_tasks = s.tasks.len();
    let cmds = s.apply(Message::AddTask);
    assert!(cmds.is_empty());
    assert_eq!(s.tasks.len(), before_tasks);
    assert_eq!(s.new_task_input, "   ");
    assert_eq!(s.active_modal, Modal::AddTask);
}

#[test]
fn add_task_trims_and_issues_a_create() {
    let mut s = loaded_state();
    s.new_task_input = "  ship it\t".to_string();
    s.active_modal = Modal::AddTask;
    let cmds = s.apply(Message::AddTask);
    assert_eq!(cmds.len(), 1);
    match &cmds[0] {
        Command::CreateTask { text } => assert_eq!(text, "ship it"),
        other => panic!("expected CreateTask, got {:?}", other),
    }
    assert!(s.new_task_input.is_empty());
    assert_eq!(s.active_modal, Modal::Closed);
}

#[test]
fn mutation_success_triggers_a_refetch() {
    let mut s = loaded_state();
    let cmds = s.apply(Message::TaskOperationSuccess);
    assert_eq!(cmds.len(), 1);
    assert!(matches!(cmds[0], Command::LoadTasks));
}

#[test]
fn gateway_failures_do_not_change_state() {
    let mut s = loaded_state();
    s.active_task_id = Some(1);
    assert!(s.apply(Message::TasksLoaded(Err("boom".to_string()))).is_empty());
    assert!(s.apply(Message::SessionLoaded(Err("boom".to_string()))).is_empty());
    assert!(s.apply(Message::TaskOperationFailed("boom".to_string())).is_empty());
    assert_eq!(s.active_task_id, Some(1));
    assert!(s.tasks.is_empty());
}

#[test]
fn focus_ticks_feed_the_session_counter() {
    let mut s = loaded_state();
    s.apply(Message::SessionLoaded(Ok(120)));
    assert_eq!(s.session_focus_seconds, 120);
    s.apply(Message::ToggleTimer);
    s.apply(Message::Tick);
    s.apply(Message::Tick);
    assert_eq!(s.session_focus_seconds, 122);
}

#[test]
fn focus_completion_emits_a_session_append() {
    let mut s = loaded_state();
    s.timer.set_duration(3000);
    s.apply(Message::ToggleTimer);
    s.apply(Message::SkipPhase);
    let cmds = s.apply(Message::Tick);
    assert_eq!(cmds.len(), 1);
    assert!(matches!(cmds[0], Command::AppendSession { duration_seconds: 3000 }));
    assert_eq!(s.timer.phase, Phase::ShortBreak);
}

#[test]
fn break_ticks_do_not_feed_the_session_counter() {
    let mut s = loaded_state();
    s.timer.phase = Phase::ShortBreak;
    s.timer.total_secs = 300;
    s.timer.remaining_secs = 300;
    s.apply(Message::ToggleTimer);
    s.apply(Message::Tick);
    assert_eq!(s.session_focus_seconds, 0);
    assert_eq!(s.timer.remaining_secs, 299);
}

#[test]
fn ui_events_update_their_fields() {
    let mut s = loaded_state();
    assert!(s.apply(Message::SetActiveTask(9)).is_empty());
    assert_eq!(s.active_task_id, Some(9));
    assert!(s.apply(Message::OpenModal(Modal::Settings)).is_empty());
    assert_eq!(s.active_modal, Modal::Settings);
    assert!(s.apply(Message::CloseModal).is_empty());
    assert_eq!(s.active_modal, Modal::Closed);
    let cyan = Rgb { r: 0, g: 255, b: 255 };
    assert!(s.apply(Message::SetColor(cyan)).is_empty());
    assert_eq!(s.accent, cyan);
    assert!(s.apply(Message::ToggleTheme).is_empty());
    assert!(!s.is_dark_mode);
    assert!(s.apply(Message::UpdateNewTaskInput("plan".to_string())).is_empty());
    assert_eq!(s.new_task_input, "plan");
}

#[test]
fn mini_mode_toggles_and_asks_for_the_window_change() {
    let mut s = loaded_state();
    let cmds = s.apply(Message::ToggleMiniMode);
    assert_eq!(s.view_mode, ViewMode::Mini);
    assert_eq!(cmds.len(), 1);
    assert!(matches!(cmds[0], Command::WindowMini));
    let cmds = s.apply(Message::ToggleMiniMode);
    assert_eq!(s.view_mode, ViewMode::Full);
    assert!(matches!(cmds[0], Command::WindowFull));
}

#[test]
fn title_shows_the_countdown() {
    let (mut app, _) = PomimiApp::new();
    assert_eq!(app.title(), "Pomimi");
    app.update(Message::DbConnected(Ok(())));
    assert_eq!(app.title(), "Pomimi - 25:00");
    app.update(Message::ToggleTimer);
    app.update(Message::Tick);
    assert_eq!(app.title(), "Pomimi - 24:59");
    let (mut failed, _) = PomimiApp::new();
    failed.update(Message::DbConnected(Err("x".to_string())));
    assert_eq!(failed.title(), "Pomimi - Error");
}

#[test]
fn ticks_are_wanted_only_while_running() {
    let (mut app, _) = PomimiApp::new();
    assert!(!app.subscription());
    app.update(Message::DbConnected(Ok(())));
    assert!(!app.subscription());
    app.update(Message::ToggleTimer);
    assert!(app.subscription());
    app.update(Message::ToggleTimer);
    assert!(!app.subscription());
}

#[test]
fn reset_event_keeps_cycles() {
    let mut s = loaded_state();
    s.timer.cycles_completed = 3;
    s.timer.remaining_secs = 5;
    s.apply(Message::ResetTimer);
    let mut expected = TimerState::default();
    expected.cycles_completed = 3;
    assert_eq!(s.timer, expected);
}
