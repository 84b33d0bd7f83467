use tunnelhunt::monitor::{Action, Event, Monitor, Phase};
use tunnelhunt::preset::Preset;
use tunnelhunt::registry::AppState;
use tunnelhunt::tunnel::TunnelState;

fn preset() -> Preset {
    Preset {
        id: "p1".to_string(),
        name: "Web".to_string(),
        port: 8080,
        ssh_key_path: None,
        custom_subdomain: None,
    }
}

fn start() -> (Monitor, Vec<Action>) {
    Monitor::start(preset(), "tunnelhunt.ru".to_string(), 2222)
}

fn running() -> Monitor {
    let (mut monitor, _) = start();
    monitor.step(Event::Launched);
    monitor
}

fn out(line: &str) -> Event {
    Event::StdoutLine(line.to_string())
}

fn err(line: &str) -> Event {
    Event::StderrLine(line.to_string())
}

fn show(actions: &Vec<Action>) -> Vec<String> {
    actions
        .iter()
        .map(|a| match a {
            Action::SetState(TunnelState::Inactive) => "inactive".to_string(),
            Action::SetState(TunnelState::Connecting) => "connecting".to_string(),
            Action::SetState(TunnelState::Active(url)) => format!("active {}", url),
            Action::SetState(TunnelState::Error(msg)) => format!("error {}", msg),
            Action::Notify(n) => format!("notify {} | {}", n.title, n.body),
            Action::Launch(arguments) => format!("launch {}", arguments.join(" ")),
            Action::ArmTimeout(secs) => format!("timeout {}", secs),
            Action::Kill => "kill".to_string(),
            Action::Pause(secs) => format!("pause {}", secs),
        })
        .collect()
}

const LAUNCH: &str =
    "launch -tt -p 2222 -o StrictHostKeyChecking=accept-new -o BatchMode=yes -R 80:localhost:8080 tunnelhunt.ru";

/// Breaks the tunnel down five times and leaves its sixth process running.
fn worn_out() -> Monitor {
    let mut monitor = running();
    for _ in 0..5 {
        monitor.step(Event::Exited);
        monitor.step(Event::PauseElapsed);
        monitor.step(Event::Launched);
    }
    assert_eq!(monitor.phase(), Phase::Running);
    monitor
}

#[test]
fn start_launches_ssh() {
    let (monitor, actions) = start();
    assert_eq!(show(&actions), vec!["connecting", LAUNCH]);
    assert_eq!(monitor.phase(), Phase::Launching);
    assert!(!monitor.awaits_address());
}

#[test]
fn launch_arms_the_timeout() {
    let (mut monitor, _) = start();
    assert_eq!(show(&monitor.step(Event::Launched)), vec!["timeout 8"]);
    assert_eq!(monitor.phase(), Phase::Running);
    assert!(monitor.awaits_address());
}

#[test]
fn failed_launch_is_final() {
    let (mut monitor, _) = start();
    let actions = monitor.step(Event::LaunchFailed("No such file".to_string()));
    assert_eq!(show(&actions), vec!["error Ошибка запуска SSH: No such file"]);
    assert_eq!(monitor.phase(), Phase::Finished);
}

#[test]
fn address_opens_the_tunnel() {
    let mut monitor = running();
    let actions = monitor.step(out("Your URL: https://a.tunnelhunt.ru\r\n"));
    assert_eq!(
        show(&actions),
        vec![
            "active https://a.tunnelhunt.ru",
            "notify Tunnelhunt: Web | Туннель запущен: https://a.tunnelhunt.ru",
        ]
    );
    assert_eq!(monitor.phase(), Phase::Running);
    assert!(!monitor.awaits_address());
}

#[test]
fn other_lines_do_nothing() {
    let mut monitor = running();
    assert!(monitor.step(out("Welcome\n")).is_empty());
    assert!(monitor.step(err("Warning\n")).is_empty());
    assert!(monitor.step(Event::StderrEnded).is_empty());
    assert_eq!(monitor.phase(), Phase::Running);
    assert!(monitor.awaits_address());
}

#[test]
fn breakdown_is_followed_by_a_pause_and_a_launch() {
    let mut monitor = running();
    assert_eq!(
        show(&monitor.step(Event::StdoutEnded)),
        vec![
            "kill",
            "connecting",
            "notify Tunnelhunt: Web | Туннель упал. Попытка переподключения 1/5...",
            "pause 3",
        ]
    );
    assert_eq!(monitor.phase(), Phase::Pausing);
    assert_eq!(show(&monitor.step(Event::PauseElapsed)), vec!["connecting", LAUNCH]);
    assert_eq!(monitor.phase(), Phase::Launching);
}

#[test]
fn five_attempts_then_the_last_complaint() {
    let mut monitor = worn_out();
    monitor.step(err("  Permission denied (publickey).\r\n"));
    monitor.step(err(" \r\n"));
    assert_eq!(show(&monitor.step(Event::Exited)), vec!["kill", "error Permission denied (publickey)."]);
    assert_eq!(monitor.phase(), Phase::Finished);
}

#[test]
fn fifth_attempt_is_announced() {
    let mut monitor = running();
    for _ in 0..4 {
        monitor.step(Event::Exited);
        monitor.step(Event::PauseElapsed);
        monitor.step(Event::Launched);
    }
    let actions = monitor.step(Event::Exited);
    assert_eq!(show(&actions)[2], "notify Tunnelhunt: Web | Туннель упал. Попытка переподключения 5/5...");
}

#[test]
fn attempts_are_not_forgiven_by_an_address() {
    let mut monitor = worn_out();
    monitor.step(out("https://a\n"));
    assert_eq!(show(&monitor.step(Event::Exited)), vec!["kill", "error Соединение с сервером разорвано"]);
}

#[test]
fn complaints_of_an_earlier_process_are_forgotten() {
    let mut monitor = running();
    monitor.step(err("old\n"));
    for _ in 0..5 {
        monitor.step(Event::Exited);
        monitor.step(Event::PauseElapsed);
        monitor.step(Event::Launched);
    }
    assert_eq!(show(&monitor.step(Event::StdoutEnded)), vec!["kill", "error Соединение с сервером разорвано"]);
}

#[test]
fn unreachable_server_is_explained() {
    let mut monitor = worn_out();
    monitor.step(err("Pseudo-terminal will not be allocated because stdin is not a terminal.\r\n"));
    assert_eq!(
        show(&monitor.step(Event::Exited)),
        vec!["kill", "error Ошибка подключения (проверьте порт SSH/сервер)"]
    );
}

#[test]
fn timeout_breaks_the_tunnel_down() {
    let mut monitor = running();
    let actions = monitor.step(Event::ConnectTimeout);
    assert_eq!(
        show(&actions),
        vec![
            "kill",
            "kill",
            "connecting",
            "notify Tunnelhunt: Web | Туннель упал. Попытка переподключения 1/5...",
            "pause 3",
        ]
    );
}

#[test]
fn last_timeout_is_the_error() {
    let mut monitor = worn_out();
    monitor.step(err("something else\n"));
    assert_eq!(show(&monitor.step(Event::ConnectTimeout)), vec!["kill", "kill", "error Таймаут подключения (8с)"]);
}

#[test]
fn timeout_spares_an_open_tunnel() {
    let mut monitor = running();
    monitor.step(out("https://a\n"));
    assert!(monitor.step(Event::ConnectTimeout).is_empty());
    assert_eq!(monitor.phase(), Phase::Running);
}

#[test]
fn limit_ends_the_tunnel() {
    for line in ["[Limit] bye\n", "your lifetime limit reached\n"].iter() {
        let mut monitor = running();
        assert!(monitor.step(out(line)).is_empty());
        assert_eq!(monitor.phase(), Phase::Running);
        assert_eq!(
            show(&monitor.step(Event::Exited)),
            vec!["kill", "error Отключено по таймауту для бесплатных тарифов"]
        );
        assert_eq!(monitor.phase(), Phase::Finished);
    }
}

#[test]
fn dashboard_ends_the_tunnel() {
    for line in ["[Closed]\n", "Tunnel closed from dashboard\n"].iter() {
        let mut monitor = running();
        monitor.step(out(line));
        assert_eq!(
            show(&monitor.step(Event::StdoutEnded)),
            vec!["kill", "error Туннель отключен через дашборд"]
        );
        assert_eq!(monitor.phase(), Phase::Finished);
    }
}

#[test]
fn limit_comes_before_dashboard() {
    let mut monitor = running();
    monitor.step(out("[Closed] https://a\n"));
    monitor.step(out("[Limit]\n"));
    monitor.step(out("more\n"));
    assert_eq!(
        show(&monitor.step(Event::Exited)),
        vec!["kill", "error Отключено по таймауту для бесплатных тарифов"]
    );
}

#[test]
fn stop_while_running() {
    let mut monitor = running();
    monitor.step(out("[Limit]\n"));
    assert_eq!(show(&monitor.step(Event::StopRequested)), vec!["kill", "inactive"]);
    assert_eq!(monitor.phase(), Phase::Finished);
}

#[test]
fn stop_while_pausing() {
    let mut monitor = running();
    monitor.step(Event::Exited);
    assert_eq!(show(&monitor.step(Event::StopRequested)), vec!["inactive"]);
    assert_eq!(monitor.phase(), Phase::Finished);
}

#[test]
fn finished_is_final() {
    let mut monitor = running();
    monitor.step(Event::StopRequested);
    for event in vec![
        Event::Launched,
        Event::LaunchFailed("x".to_string()),
        out("https://a\n"),
        Event::StdoutEnded,
        err("x\n"),
        Event::StderrEnded,
        Event::Exited,
        Event::ConnectTimeout,
        Event::PauseElapsed,
        Event::StopRequested,
    ] {
        assert!(monitor.step(event).is_empty());
        assert_eq!(monitor.phase(), Phase::Finished);
    }
}

#[test]
fn events_that_are_not_waited_for_do_nothing() {
    let (mut monitor, _) = start();
    assert!(monitor.step(out("https://a\n")).is_empty());
    assert!(monitor.step(Event::PauseElapsed).is_empty());
    assert_eq!(monitor.phase(), Phase::Launching);
    monitor.step(Event::Launched);
    assert!(monitor.step(Event::PauseElapsed).is_empty());
    assert!(monitor.step(Event::Launched).is_empty());
    assert_eq!(monitor.phase(), Phase::Running);
}

#[test]
fn six_launches_at_most() {
    let (mut monitor, mut actions) = start();
    let mut launches = 0;
    let mut alive = false;
    for _ in 0..100 {
        for action in actions.iter() {
            match action {
                Action::Launch(arguments) => {
                    assert_eq!(format!("launch {}", arguments.join(" ")), LAUNCH);
                    assert!(!alive);
                    alive = true;
                    launches += 1;
                }
                Action::Kill => alive = false,
                _ => {}
            }
        }
        actions = match monitor.phase() {
            Phase::Launching => monitor.step(Event::Launched),
            Phase::Running if monitor.awaits_address() => monitor.step(out("https://a\n")),
            Phase::Running => monitor.step(Event::Exited),
            Phase::Pausing => monitor.step(Event::PauseElapsed),
            Phase::Finished => vec![],
        };
    }
    assert_eq!(launches, 6);
    assert!(!alive);
    assert_eq!(monitor.phase(), Phase::Finished);
}

#[test]
fn reads_become_events() {
    assert!(matches!(Event::from_stdout(Some(3), "ab\n".to_string()), Event::StdoutLine(l) if l == "ab\n"));
    assert!(matches!(Event::from_stdout(Some(0), String::new()), Event::StdoutEnded));
    assert!(matches!(Event::from_stdout(None, "ab".to_string()), Event::StdoutEnded));
    assert!(matches!(Event::from_stderr(Some(3), "ab\n".to_string()), Event::StderrLine(l) if l == "ab\n"));
    assert!(matches!(Event::from_stderr(Some(0), String::new()), Event::StderrEnded));
    assert!(matches!(Event::from_stderr(None, "ab".to_string()), Event::StderrEnded));
}

#[test]
fn registry_shows_what_the_monitor_wants() {
    let mut state = AppState::new();
    let (tx, _rx) = tokio::sync::mpsc::channel(1);
    let (other, _other_rx) = tokio::sync::mpsc::channel(1);
    state.start_tunnel("p1", tx);
    state.start_tunnel("p2", other);
    let mut perform = |actions: Vec<Action>| {
        for action in actions {
            if let Action::SetState(shown) = action {
                state.update_tunnel_state("p1", shown);
            }
        }
        assert_eq!(state.get("p2").unwrap().state, TunnelState::Connecting);
        state.get("p1").unwrap().state.clone()
    };
    let (mut monitor, actions) = start();
    assert_eq!(perform(actions), TunnelState::Connecting);
    assert_eq!(perform(monitor.step(Event::Launched)), TunnelState::Connecting);
    assert_eq!(perform(monitor.step(out("https://a\n"))), TunnelState::Active("https://a".to_string()));
    assert_eq!(perform(monitor.step(err("oops\n"))), TunnelState::Active("https://a".to_string()));
    assert_eq!(perform(monitor.step(Event::Exited)), TunnelState::Connecting);
    assert_eq!(perform(monitor.step(Event::StopRequested)), TunnelState::Inactive);
}

#[test]
fn a_second_address_replaces_the_first() {
    let mut monitor = running();
    monitor.step(out("https://a\n"));
    assert_eq!(show(&monitor.step(out("https://b\n")))[0], "active https://b");
}
