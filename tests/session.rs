use chatting::{Action, Event, PeerAddr, Registry, Session, SessionError};
use tokio::sync::mpsc::{unbounded_channel, UnboundedReceiver, UnboundedSender};

struct Peer {
    addr: PeerAddr,
    session: Session,
    tx: UnboundedSender<String>,
    rx: UnboundedReceiver<String>,
    lines: Vec<String>,
}

fn connect(port: u16, limit: u16) -> Peer {
    let (session, opening) = Session::open(limit);
    let (tx, rx) = unbounded_channel::<String>();
    let mut p = Peer {
        addr: PeerAddr { v6: false, ip: 0x0a00_0001, port },
        session,
        tx,
        rx,
        lines: Vec::new(),
    };
    let mut r = Registry::new();
    apply(&mut p, &mut r, opening);
    p
}

fn apply(p: &mut Peer, reg: &mut Registry, actions: Vec<Action>) {
    for a in actions {
        match a {
            Action::Send(t) => p.lines.push(t),
            Action::Broadcast(t) => {
                reg.broadcast(&p.addr, &t);
            }
            Action::Register => reg.insert(p.addr, p.tx.clone()),
            Action::Unregister => reg.remove(&p.addr),
        }
    }
}

fn feed(p: &mut Peer, reg: &mut Registry, ev: Event, a: u8, b: u8) {
    let actions = p.session.step_with(ev, a, b);
    apply(p, reg, actions);
}

fn line(s: &str) -> Event {
    Event::Line(s.to_string())
}

fn inbox(p: &mut Peer) -> Vec<String> {
    let mut v = Vec::new();
    while let Ok(m) = p.rx.try_recv() {
        v.push(m);
    }
    v
}

#[test]
fn session_opens_with_welcome_and_name_prompt() {
    let p = connect(1, 5);
    assert_eq!(
        p.lines,
        vec![
            "[SERVER] Welcome to Mitsuha's chat room.".to_string(),
            "[SERVER] Please enter your name: ".to_string(),
        ]
    );
}

#[test]
fn session_round_trip_two_clients() {
    let mut reg = Registry::new();
    let mut alice = connect(1, 5);
    feed(&mut alice, &mut reg, line("Alice"), 12, 30);
    assert_eq!(alice.lines[2], "\n");
    assert_eq!(alice.lines[3], "[SERVER] Please solve the captcha: 12 + 30 = ?");
    feed(&mut alice, &mut reg, line("42"), 0, 0);
    assert_eq!(alice.lines[4], "[SERVER] Correct captcha, welcome!");
    assert!(reg.contains(&alice.addr));

    let mut bob = connect(2, 5);
    feed(&mut bob, &mut reg, line("Bob"), 255, 255);
    assert_eq!(bob.lines[3], "[SERVER] Please solve the captcha: 255 + 255 = ?");
    feed(&mut bob, &mut reg, line("510"), 0, 0);
    assert!(reg.contains(&bob.addr));
    assert_eq!(inbox(&mut alice), vec!["[SERVER] Bob joined chat room.".to_string()]);

    feed(&mut bob, &mut reg, line("hello"), 0, 0);
    let got = inbox(&mut alice);
    assert_eq!(got, vec!["(Bob) hello".to_string()]);
    assert!(inbox(&mut bob).is_empty());

    for m in got {
        feed(&mut alice, &mut reg, Event::Delivered(m), 0, 0);
    }
    assert_eq!(alice.lines.last().unwrap(), "(Bob) hello");

    feed(&mut bob, &mut reg, Event::Ended, 0, 0);
    assert_eq!(inbox(&mut alice), vec!["[SERVER] Bob left chat room.".to_string()]);
    assert!(!reg.contains(&bob.addr));
    assert!(reg.contains(&alice.addr));
    assert!(bob.session.is_closed());
    assert_eq!(bob.session.error(), None);
}

#[test]
fn session_wrong_captcha_disconnects() {
    let mut reg = Registry::new();
    let mut watcher = connect(9, 5);
    feed(&mut watcher, &mut reg, line("W"), 1, 1);
    feed(&mut watcher, &mut reg, line("2"), 0, 0);
    assert_eq!(reg.len(), 1);

    let mut p = connect(1, 5);
    feed(&mut p, &mut reg, line("Mallory"), 3, 4);
    feed(&mut p, &mut reg, line("8"), 0, 0);
    assert_eq!(p.lines[4], "[SERVER] WRONG CAPTCHA, DISCONNECTED!");
    assert_eq!(p.lines[5], "\n");
    assert_eq!(p.lines.len(), 6);
    assert!(p.session.is_closed());
    assert_eq!(p.session.error(), Some(SessionError::BotDetected));
    assert_eq!(reg.len(), 1);
    assert!(!reg.contains(&p.addr));
    feed(&mut p, &mut reg, Event::Ended, 0, 0);
    assert!(inbox(&mut watcher).is_empty());
    assert_eq!(p.lines.len(), 6);
}

#[test]
fn session_unreadable_answer_closes_silently() {
    let mut reg = Registry::new();
    let mut p = connect(1, 5);
    feed(&mut p, &mut reg, line("Eve"), 3, 4);
    feed(&mut p, &mut reg, line("seven"), 0, 0);
    assert_eq!(p.lines.len(), 4);
    assert_eq!(p.session.error(), Some(SessionError::InvalidAnswer));
    assert_eq!(reg.len(), 0);
}

#[test]
fn session_stream_end_before_name_or_answer() {
    let mut reg = Registry::new();
    let mut p = connect(1, 5);
    feed(&mut p, &mut reg, Event::Ended, 0, 0);
    assert_eq!(p.session.error(), Some(SessionError::InvalidName));
    let mut q = connect(2, 5);
    feed(&mut q, &mut reg, line("Q"), 1, 2);
    feed(&mut q, &mut reg, Event::Ended, 0, 0);
    assert_eq!(q.session.error(), Some(SessionError::Unanswered));
    assert_eq!(reg.len(), 0);
}

#[test]
fn session_rate_limit_with_limit_two() {
    let mut reg = Registry::new();
    let mut alice = connect(1, 5);
    feed(&mut alice, &mut reg, line("Alice"), 1, 1);
    feed(&mut alice, &mut reg, line("2"), 0, 0);
    let mut bob = connect(2, 2);
    feed(&mut bob, &mut reg, line("Bob"), 1, 1);
    feed(&mut bob, &mut reg, line("2"), 0, 0);
    inbox(&mut alice);
    let before = bob.lines.len();
    feed(&mut bob, &mut reg, line("one"), 0, 0);
    feed(&mut bob, &mut reg, line("two"), 0, 0);
    feed(&mut bob, &mut reg, line("three"), 0, 0);
    assert_eq!(inbox(&mut alice), vec!["(Bob) one".to_string(), "(Bob) two".to_string()]);
    assert_eq!(
        bob.lines[before..].to_vec(),
        vec!["[SERVER] Oops, you have reached rate limit, please retry after 1 minute.".to_string()]
    );
    feed(&mut bob, &mut reg, Event::Tick, 0, 0);
    feed(&mut bob, &mut reg, line("four"), 0, 0);
    assert_eq!(inbox(&mut alice), vec!["(Bob) four".to_string()]);
}

#[test]
fn session_random_captcha_can_be_solved() {
    let mut reg = Registry::new();
    let mut p = connect(1, 5);
    let acts = p.session.step(line("Zed"));
    apply(&mut p, &mut reg, acts);
    let prompt = p.lines[3].clone();
    let rest = prompt.strip_prefix("[SERVER] Please solve the captcha: ").unwrap();
    let rest = rest.strip_suffix(" = ?").unwrap();
    let (a, b) = rest.split_once(" + ").unwrap();
    let sum = a.parse::<u16>().unwrap() + b.parse::<u16>().unwrap();
    let acts = p.session.step(line(&sum.to_string()));
    apply(&mut p, &mut reg, acts);
    assert_eq!(p.lines[4], "[SERVER] Correct captcha, welcome!");
    assert!(reg.contains(&p.addr));
}
