use pin_cushion::commands::{
    add, all_cancelled, command, is_stop, start, Command, Job, Loaded, NewBoard, Order, Signal,
    Task,
};
use pin_cushion::config::Config;
use pin_cushion::error::Error;

fn args(words: &[&str]) -> Vec<String> {
    words.iter().map(|w| String::from(*w)).collect()
}

fn new_board(user: &str, board: &str, url: &str) -> NewBoard {
    NewBoard { user: String::from(user), board: String::from(board), url: String::from(url) }
}

#[test]
fn commands_with_configuration() {
    assert_eq!(command(&args(&["add", "b", "u"]), Loaded::Ready), Ok(Command::Add));
    assert_eq!(command(&args(&["start"]), Loaded::Ready), Ok(Command::Start));
    assert_eq!(command(&args(&["init"]), Loaded::Ready), Err(Error::InvalidArgument));
    assert_eq!(command(&args(&["stop"]), Loaded::Ready), Err(Error::InvalidArgument));
    assert_eq!(command(&args(&[""]), Loaded::Ready), Err(Error::InvalidArgument));
}

#[test]
fn commands_without_configuration() {
    assert_eq!(command(&args(&["init"]), Loaded::Absent), Ok(Command::Init));
    assert_eq!(command(&args(&["add", "b", "u"]), Loaded::Absent), Err(Error::UninitError));
    assert_eq!(command(&args(&["start"]), Loaded::Absent), Err(Error::UninitError));
}

#[test]
fn broken_configuration_fails_every_command() {
    assert_eq!(command(&args(&["add"]), Loaded::Broken(Error::IoError)), Err(Error::IoError));
    assert_eq!(command(&args(&["init"]), Loaded::Broken(Error::RssError)), Err(Error::RssError));
}

#[test]
fn missing_command_is_missing_argument() {
    assert_eq!(command(&args(&[]), Loaded::Ready), Err(Error::MissingArgumentsError));
    assert_eq!(command(&args(&[]), Loaded::Absent), Err(Error::MissingArgumentsError));
    assert_eq!(
        command(&args(&[]), Loaded::Broken(Error::IoError)),
        Err(Error::MissingArgumentsError)
    );
}

#[test]
fn add_with_named_user() {
    let cfg = Config::_init("/pins");
    assert_eq!(
        add(&cfg, &args(&["--user", "me", "cats", "cat-pictures"])),
        Ok(new_board("me", "cats", "cat-pictures"))
    );
    let with_default = Config::_init_with_default_user("/pins", String::from("other"));
    assert_eq!(
        add(&with_default, &args(&["--user", "me", "cats", "cat-pictures", "more"])),
        Ok(new_board("me", "cats", "cat-pictures"))
    );
}

#[test]
fn add_with_default_user() {
    let cfg = Config::_init_with_default_user("/pins", String::from("me"));
    assert_eq!(add(&cfg, &args(&["cats", "cat-pictures"])), Ok(new_board("me", "cats", "cat-pictures")));
    assert_eq!(
        add(&cfg, &args(&["cats", "https://www.pinterest.com/me/cats.rss", "ignored"])),
        Ok(new_board("me", "cats", "https://www.pinterest.com/me/cats.rss"))
    );
}

#[test]
fn add_without_any_user_is_missing_user() {
    let cfg = Config::_init("/pins");
    assert_eq!(add(&cfg, &args(&["cats", "cat-pictures"])), Err(Error::MissingUserError));
    assert_eq!(add(&cfg, &args(&["cats"])), Err(Error::MissingUserError));
}

#[test]
fn add_with_too_few_arguments_is_missing_arguments() {
    let cfg = Config::_init_with_default_user("/pins", String::from("me"));
    assert_eq!(add(&cfg, &args(&[])), Err(Error::MissingArgumentsError));
    assert_eq!(add(&cfg, &args(&["cats"])), Err(Error::MissingArgumentsError));
    assert_eq!(add(&cfg, &args(&["--user"])), Err(Error::MissingArgumentsError));
    assert_eq!(add(&cfg, &args(&["--user", "me"])), Err(Error::MissingArgumentsError));
    assert_eq!(add(&cfg, &args(&["--user", "me", "cats"])), Err(Error::MissingArgumentsError));
    let bare = Config::_init("/pins");
    assert_eq!(add(&bare, &args(&[])), Err(Error::MissingArgumentsError));
}

#[test]
fn user_flag_may_name_itself() {
    let cfg = Config::_init("/pins");
    assert_eq!(
        add(&cfg, &args(&["--user", "--user", "cats", "u"])),
        Ok(new_board("--user", "cats", "u"))
    );
}

#[test]
fn one_job_for_each_board() {
    let mut cfg = Config::_init("/pins");
    cfg.add_board(String::from("p"), "a", "one", "one");
    cfg.add_board(String::from("p"), "b", "two", "two");
    cfg.add_board(String::from("p"), "a", "three", "three");
    let job = |user: &str, board: &str| Job {
        user: String::from(user),
        board: String::from(board),
        task: Task::Idle,
    };
    assert_eq!(start(&cfg), vec![job("a", "one"), job("a", "three"), job("b", "two")]);
    assert_eq!(start(&Config::_init("/pins")), vec![]);
}

#[test]
fn clock_begins_a_cycle_and_its_end_leads_back() {
    let (task, order) = Task::Idle.on(Signal::Tick);
    assert_eq!((task, order), (Task::Running { stopping: false }, Order::Run));
    let (task, order) = task.on(Signal::Done);
    assert_eq!((task, order), (Task::Idle, Order::Stay));
    let (task, order) = task.on(Signal::Tick);
    assert_eq!((task, order), (Task::Running { stopping: false }, Order::Run));
}

#[test]
fn clock_is_not_heard_during_a_cycle() {
    let (task, _) = Task::Idle.on(Signal::Tick);
    let (task, order) = task.on(Signal::Tick);
    assert_eq!((task, order), (Task::Running { stopping: false }, Order::Stay));
    let (task, order) = task.on(Signal::Done);
    assert_eq!((task, order), (Task::Idle, Order::Stay));
}

#[test]
fn cancel_while_waiting_ends_the_task() {
    assert_eq!(Task::Idle.on(Signal::Cancel), (Task::Cancelled, Order::Exit));
}

#[test]
fn cancel_during_a_cycle_waits_for_its_end() {
    let (task, _) = Task::Idle.on(Signal::Tick);
    let (task, order) = task.on(Signal::Cancel);
    assert_eq!((task, order), (Task::Running { stopping: true }, Order::Stay));
    assert!(!all_cancelled(&vec![task, Task::Cancelled]));
    let (task, order) = task.on(Signal::Tick);
    assert_eq!((task, order), (Task::Running { stopping: true }, Order::Stay));
    let (task, order) = task.on(Signal::Done);
    assert_eq!((task, order), (Task::Cancelled, Order::Exit));
    assert!(all_cancelled(&vec![task, Task::Cancelled]));
}

#[test]
fn cancelled_task_hears_nothing() {
    for signal in [Signal::Tick, Signal::Cancel, Signal::Done] {
        assert_eq!(Task::Cancelled.on(signal), (Task::Cancelled, Order::Stay));
    }
    assert_eq!(Task::Idle.on(Signal::Done), (Task::Idle, Order::Stay));
}

#[test]
fn polling_is_over_when_every_task_is_cancelled() {
    assert!(all_cancelled(&vec![]));
    assert!(all_cancelled(&vec![Task::Cancelled, Task::Cancelled]));
    assert!(!all_cancelled(&vec![Task::Cancelled, Task::Idle]));
    assert!(!all_cancelled(&vec![Task::Running { stopping: true }]));
}

#[test]
fn stop_is_heard_with_white_space_around_it() {
    assert!(is_stop("stop"));
    assert!(is_stop("stop\n"));
    assert!(is_stop("  stop \r\n"));
    assert!(is_stop("\u{2003}stop\u{a0}"));
}

#[test]
fn other_lines_do_not_stop() {
    assert!(!is_stop(""));
    assert!(!is_stop("\n"));
    assert!(!is_stop("Stop"));
    assert!(!is_stop("stop it"));
    assert!(!is_stop("s top"));
}

#[test]
fn only_true_on_the_line_is_a_tick() {
    assert_eq!(Signal::heard(Some(true)), Signal::Tick);
    assert_eq!(Signal::heard(Some(false)), Signal::Cancel);
    assert_eq!(Signal::heard(None), Signal::Cancel);
}
