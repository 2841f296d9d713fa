use dedup_log::loglevel::LogLevel;
use dedup_log::message::Message;
use dedup_log::pipeline::{Action, Pipeline};
use dedup_log::time::Timestamp;

#[derive(Debug, PartialEq)]
enum Call {
    Write(String),
    Dup(String, u64, i64, i64),
}

fn msg(secs: i64, level: LogLevel, text: &str) -> Message {
    Message::with_timestamp(Timestamp::new(secs, 0, 0).unwrap(), level, text)
}

fn calls(actions: Vec<Action>) -> Vec<Call> {
    let mut out = Vec::new();
    for a in actions {
        match a {
            Action::Write(m) => out.push(Call::Write(m.message)),
            Action::WriteDup(d) => {
                let (s, e) = d.time_range();
                out.push(Call::Dup(d.message().message, d.count(), s.secs, e.secs))
            }
        }
    }
    out
}

fn feed(p: &mut Pipeline, ms: Vec<Message>) -> Vec<Call> {
    let mut out = Vec::new();
    for m in ms {
        out.extend(calls(p.receive(m)));
    }
    out
}

fn weight(cs: &[Call]) -> u64 {
    cs.iter().map(|c| match c {
        Call::Write(_) => 1,
        Call::Dup(_, n, _, _) => *n,
    }).sum()
}

#[test]
fn canonical_trace_with_window_of_two() {
    let mut p = Pipeline::new(2);
    let out = feed(&mut p, vec![
        msg(1, LogLevel::Info, "A"),
        msg(2, LogLevel::Info, "A"),
        msg(3, LogLevel::Info, "B"),
        msg(4, LogLevel::Info, "A"),
        msg(5, LogLevel::Info, "C"),
        msg(6, LogLevel::Shutdown, ""),
    ]);
    assert_eq!(out, vec![
        Call::Write("A".to_string()),
        Call::Write("B".to_string()),
        Call::Dup("A".to_string(), 1, 2, 2),
        Call::Write("C".to_string()),
        Call::Dup("A".to_string(), 1, 4, 4),
    ]);
    assert_eq!(weight(&out), 5);
    assert_eq!(p.window(), vec![msg(0, LogLevel::Info, "C").message_id(), msg(0, LogLevel::Info, "B").message_id()]);
}

#[test]
fn zero_scope_is_taken_as_one() {
    let mut p = Pipeline::new(0);
    let out = feed(&mut p, vec![
        msg(1, LogLevel::Info, "A"),
        msg(2, LogLevel::Info, "A"),
        msg(3, LogLevel::Info, "A"),
        msg(4, LogLevel::Info, "B"),
    ]);
    assert_eq!(out, vec![
        Call::Write("A".to_string()),
        Call::Write("B".to_string()),
        Call::Dup("A".to_string(), 2, 2, 3),
    ]);
    assert!(p.window().len() <= 1);
    let out = feed(&mut p, vec![msg(5, LogLevel::Shutdown, "")]);
    assert_eq!(out, vec![]);
}

#[test]
fn run_of_duplicates_is_aggregated_and_drained() {
    let mut p = Pipeline::new(3);
    let out = feed(&mut p, vec![
        msg(10, LogLevel::Warn, "World"),
        msg(12, LogLevel::Warn, "World"),
        msg(11, LogLevel::Warn, "World"),
        msg(15, LogLevel::Warn, "World"),
    ]);
    assert_eq!(out, vec![Call::Write("World".to_string())]);
    assert_eq!(p.seen(), 4);
    let out = feed(&mut p, vec![msg(20, LogLevel::Shutdown, "")]);
    assert_eq!(out, vec![Call::Dup("World".to_string(), 3, 11, 15)]);
    assert!(p.is_finished());
    let out = feed(&mut p, vec![msg(21, LogLevel::Info, "late"), msg(22, LogLevel::Info, "late")]);
    assert_eq!(out, vec![]);
}

#[test]
fn same_text_other_level_is_not_a_duplicate() {
    let mut p = Pipeline::new(4);
    let out = feed(&mut p, vec![
        msg(1, LogLevel::Info, "World"),
        msg(2, LogLevel::Warn, "World"),
        msg(3, LogLevel::Shutdown, ""),
    ]);
    assert_eq!(out, vec![Call::Write("World".to_string()), Call::Write("World".to_string())]);
}

#[test]
fn window_stays_within_scope_and_nothing_is_lost() {
    let mut p = Pipeline::new(3);
    let texts = ["a", "b", "a", "c", "d", "a", "a", "e", "b", "b", "f", "c", "c", "c"];
    let mut out = Vec::new();
    for (i, t) in texts.iter().enumerate() {
        out.extend(calls(p.receive(msg(i as i64, LogLevel::Info, t))));
        assert!(p.window().len() <= 3);
    }
    out.extend(calls(p.receive(msg(99, LogLevel::Shutdown, ""))));
    assert_eq!(weight(&out), texts.len() as u64);
}

#[test]
fn first_emissions_keep_their_order() {
    let mut p = Pipeline::new(2);
    let out = feed(&mut p, vec![
        msg(1, LogLevel::Info, "one"),
        msg(2, LogLevel::Info, "two"),
        msg(3, LogLevel::Info, "one"),
        msg(4, LogLevel::Info, "three"),
        msg(5, LogLevel::Info, "four"),
    ]);
    let singles: Vec<Call> = out.into_iter().filter(|c| matches!(c, Call::Write(_))).collect();
    assert_eq!(singles, vec![
        Call::Write("one".to_string()),
        Call::Write("two".to_string()),
        Call::Write("three".to_string()),
        Call::Write("four".to_string()),
    ]);
}
