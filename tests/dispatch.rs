use multiplayer::dispatcher::{
    after_step, before_step, check_pool_size, worker_step, ControlMessage, Dispatcher,
    EmptyPoolError, LoopAction, WorkerAction,
};
use multiplayer::errors::{InputHandleError, UnexpectedError};
use multiplayer::host::{
    command_message, on_login_status, parse_command, Command, LoginAction,
};
use multiplayer::message::{Message, RequestJoinGame, TextMessage};
use std::sync::mpsc::{channel, Receiver};
use std::sync::{Arc, Mutex};

type Parts = (
    Dispatcher<u32>,
    Receiver<ControlMessage<u32>>,
);

fn dispatcher() -> Parts {
    let (sender, receiver) = channel();
    let (send_term, recv_term) = channel();
    let d = Dispatcher::new(sender, send_term, Arc::new(Mutex::new(recv_term)));
    (d, receiver)
}

#[test]
fn execute_enqueues_jobs_in_order() {
    let (mut d, rx) = dispatcher();
    for i in 0..3 {
        assert_eq!(d.execute(i), Ok(()));
    }
    for i in 0..3 {
        match rx.recv().unwrap() {
            ControlMessage::NewJob(j) => assert_eq!(j, i),
            ControlMessage::Terminate => panic!("unexpected terminate"),
        }
    }
}

#[test]
fn execute_gives_the_job_back_without_workers() {
    let (mut d, rx) = dispatcher();
    drop(rx);
    assert_eq!(d.execute(7), Err(7));
    assert!(matches!(d.send(ControlMessage::NewJob(8)), Err(ControlMessage::NewJob(8))));
}

#[test]
fn send_and_terminate() {
    let (mut d, rx) = dispatcher();
    assert!(d.send(ControlMessage::Terminate).is_ok());
    assert!(matches!(rx.recv().unwrap(), ControlMessage::Terminate));
    let mut copy = d.clone();
    assert_eq!(copy.terminate_workers(3), 3);
    for _ in 0..3 {
        assert!(matches!(rx.recv().unwrap(), ControlMessage::Terminate));
    }
    let term = d.recv_term.lock().unwrap();
    for _ in 0..3 {
        assert!(matches!(term.try_recv().unwrap(), ControlMessage::Terminate));
    }
    assert!(term.try_recv().is_err());
}

#[test]
fn terminate_counts_only_delivered_signals() {
    let (mut d, rx) = dispatcher();
    drop(rx);
    assert_eq!(d.terminate_workers(4), 0);
}

#[test]
fn worker_runs_jobs_and_exits_on_terminate() {
    assert!(matches!(worker_step(ControlMessage::NewJob(5u32)), WorkerAction::Run(5)));
    assert!(matches!(worker_step::<u32>(ControlMessage::Terminate), WorkerAction::Exit));
}

#[test]
fn loop_job_decisions() {
    assert_eq!(before_step(true), LoopAction::Exit);
    assert_eq!(before_step(false), LoopAction::RunStep);
    assert_eq!(after_step::<(), UnexpectedError>(&Ok(())), LoopAction::RunStep);
    assert_eq!(after_step::<(), UnexpectedError>(&Err(UnexpectedError)), LoopAction::Exit);
}

#[test]
fn pool_size_zero_is_refused() {
    assert_eq!(check_pool_size(0), Err(EmptyPoolError));
    assert_eq!(check_pool_size(4), Ok(4));
}

#[test]
fn typed_lines_become_commands() {
    assert_eq!(parse_command("/join\n".to_string()), Command::Join);
    assert_eq!(parse_command("/quit".to_string()), Command::Quit);
    assert_eq!(parse_command("/jo".to_string()), Command::Say("/jo".to_string()));
    assert_eq!(parse_command("hello\n".to_string()), Command::Say("hello\n".to_string()));
    assert_eq!(parse_command(String::new()), Command::Say(String::new()));
}

#[test]
fn commands_become_messages() {
    assert_eq!(command_message(Command::Join), Some(Message::RequestJoinGame(RequestJoinGame)));
    assert_eq!(command_message(Command::Quit), None);
    assert_eq!(
        command_message(Command::Say("hi".to_string())),
        Some(Message::Text(TextMessage::new("hi".to_string())))
    );
}

#[test]
fn login_status_decisions() {
    assert_eq!(on_login_status(true), LoginAction::StartInput);
    assert_eq!(on_login_status(false), LoginAction::Shutdown);
}

#[test]
fn error_texts() {
    assert_eq!(InputHandleError.to_string(), "Problem with handling input!");
    assert_eq!(UnexpectedError.to_string(), "Unexpected Error!");
}
