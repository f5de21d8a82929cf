use orbital::{Event, Op, OrbitalScheme, Reply, Request, SchemeError, EVENT_KEY};

fn req(tag: u64, id: u64, op: Op) -> Request {
    Request { tag, id, op }
}

#[test]
fn open_and_fpath_through_requests() {
    let mut s = OrbitalScheme::new(640, 480, 8, 8);
    let out = s.process(vec![req(1, 0, Op::Open("/5/40/10/10/x".to_string())), req(2, 1, Op::Fpath)]);
    assert_eq!(out.len(), 2);
    assert_eq!(out[0].tag, 1);
    assert!(matches!(out[0].result, Ok(Reply::Opened(1))));
    match &out[1].result {
        Ok(Reply::Path(p)) => assert_eq!(p.iter().collect::<String>(), "orbital:/5/40/10/10/x"),
        _ => panic!("expected a path"),
    }
}

#[test]
fn read_on_empty_queue_is_deferred_then_answered() {
    let mut s = OrbitalScheme::new(640, 480, 8, 8);
    let id = s.open("/0/100/10/10/a").unwrap();
    let out = s.process(vec![req(7, id, Op::Read(16))]);
    assert!(out.is_empty());
    assert_eq!(s.todo.len(), 1);
    // nothing new: still waiting
    let (_, again) = s.input_batch(&vec![]);
    assert!(again.is_empty());
    assert_eq!(s.todo.len(), 1);
    let key = Event::new(EVENT_KEY, 0, 0x1E, 1);
    let (reports, answered) = s.input_batch(&vec![key]);
    assert_eq!(reports, 0);
    assert_eq!(answered.len(), 1);
    assert_eq!(answered[0].tag, 7);
    match &answered[0].result {
        Ok(Reply::Events(v)) => assert_eq!(v, &vec![key]),
        _ => panic!("expected events"),
    }
    assert!(s.todo.is_empty());
    assert!(s.windows[0].events.is_empty());
}

#[test]
fn read_takes_at_most_max_oldest_first() {
    let mut s = OrbitalScheme::new(640, 480, 8, 8);
    let id = s.open("/0/100/10/10/a").unwrap();
    let e1 = Event::new(EVENT_KEY, 0, 1, 1);
    let e2 = Event::new(EVENT_KEY, 0, 2, 1);
    let e3 = Event::new(EVENT_KEY, 0, 3, 1);
    s.input_batch(&vec![e1, e2, e3]);
    let out = s.process(vec![req(1, id, Op::Read(2))]);
    match &out[0].result {
        Ok(Reply::Events(v)) => assert_eq!(v, &vec![e1, e2]),
        _ => panic!("expected events"),
    }
    assert_eq!(s.windows[0].events, vec![e3]);
}

#[test]
fn read_on_closed_window_is_not_deferred() {
    let mut s = OrbitalScheme::new(640, 480, 8, 8);
    let id = s.open("/0/100/10/10/a").unwrap();
    let out = s.process(vec![req(1, id, Op::Close), req(2, id, Op::Read(4))]);
    assert_eq!(out.len(), 2);
    assert!(matches!(out[0].result, Ok(Reply::Closed(0))));
    assert!(matches!(out[1].result, Err(SchemeError::NotFound)));
    assert!(s.todo.is_empty());
}

#[test]
fn deferred_read_fails_once_window_closes() {
    let mut s = OrbitalScheme::new(640, 480, 8, 8);
    let id = s.open("/0/100/10/10/a").unwrap();
    s.process(vec![req(3, id, Op::Read(4))]);
    s.process(vec![req(4, id, Op::Close)]);
    let answered = s.retry();
    assert_eq!(answered.len(), 1);
    assert_eq!(answered[0].tag, 3);
    assert!(matches!(answered[0].result, Err(SchemeError::NotFound)));
}

#[test]
fn write_request_answers_length() {
    let mut s = OrbitalScheme::new(640, 480, 8, 8);
    let id = s.open("/0/100/10/10/a").unwrap();
    let out = s.process(vec![req(9, id, Op::Write(vec![4, 5])), req(10, id + 1, Op::Write(vec![1]))]);
    assert!(matches!(out[0].result, Ok(Reply::Written(2))));
    assert!(matches!(out[1].result, Err(SchemeError::NotFound)));
}

#[test]
fn input_batch_counts_hotkeys() {
    let mut s = OrbitalScheme::new(640, 480, 8, 8);
    let hot = Event::new(EVENT_KEY, 0, orbital::K_F1 as i64, 1);
    let (reports, _) = s.input_batch(&vec![hot, hot]);
    assert_eq!(reports, 2);
}
