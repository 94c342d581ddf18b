use file_drop::actor::{handle, Action, Command};
use file_drop::registry::Registry;
use file_drop::response::{other, respond, Disposition};
use file_drop::stream::{Pump, PumpState, ReadOutcome, Step, BLOCK_SIZE};
use std::io::Read;

/// A reader that yields `good` bytes of `byte`, then fails.
struct Flaky {
    left: usize,
}

impl Read for Flaky {
    fn read(&mut self, buf: &mut [u8]) -> std::io::Result<usize> {
        if self.left == 0 {
            return Err(std::io::Error::new(std::io::ErrorKind::Other, "disk gone"));
        }
        let n = std::cmp::min(self.left, buf.len());
        for b in buf[..n].iter_mut() {
            *b = 7;
        }
        self.left -= n;
        Ok(n)
    }
}

/// Streams `reader` as a request handler would, collecting the chunks.
fn pump_all<R: Read>(mut reader: R) -> (Vec<Vec<u8>>, PumpState) {
    let mut pump = Pump::new();
    let mut buf = [0u8; BLOCK_SIZE];
    let mut chunks = Vec::new();
    while pump.is_streaming() {
        let outcome = match reader.read(&mut buf) {
            Ok(n) => ReadOutcome::Data(n),
            Err(_) => ReadOutcome::Failed,
        };
        match pump.on_read(&buf, outcome) {
            Step::Send(v) => chunks.push(v),
            Step::Close | Step::Abort => {}
        }
    }
    (chunks, pump.state())
}

fn request(reg: &mut Registry<Vec<u8>>, path: &str) -> Option<(Vec<u8>, String)> {
    match handle(reg, Command::Dispatch { path: path.to_string(), reply: () }) {
        Action::Found { entry, .. } => Some((entry.file, entry.name)),
        Action::NotFound { .. } => None,
        Action::Stored => panic!("a request stored something"),
    }
}

fn put(reg: &mut Registry<Vec<u8>>, path: &str, content: &[u8], name: &str) {
    let a = handle::<Vec<u8>, ()>(
        reg,
        Command::Register { path: path.to_string(), file: content.to_vec(), name: name.to_string() },
    );
    assert!(matches!(a, Action::Stored));
}

#[test]
fn unknown_path_is_not_found() {
    let mut reg: Registry<Vec<u8>> = Registry::new();
    put(&mut reg, "/a", b"abc", "a.txt");
    assert!(request(&mut reg, "/b").is_none());
    assert!(request(&mut reg, "").is_none());
    assert_eq!(reg.len(), 1);
    let reply = respond(Some(Disposition::NotFound)).ok().unwrap();
    assert_eq!(reply.status, 404);
    assert!(reply.content_disposition.is_none());
}

#[test]
fn registered_path_is_served_with_its_name() {
    let mut reg: Registry<Vec<u8>> = Registry::new();
    put(&mut reg, "/doc", b"hello world", "doc.txt");
    let (file, name) = request(&mut reg, "/doc").unwrap();
    assert_eq!(file, b"hello world".to_vec());
    assert_eq!(name, "doc.txt");
    let reply = respond(Some(Disposition::Found(name))).ok().unwrap();
    assert_eq!(reply.status, 200);
    assert_eq!(reply.content_disposition.unwrap(), "attachment; filename=\"doc.txt\"");
    let (chunks, state) = pump_all(std::io::Cursor::new(file));
    assert_eq!(state, PumpState::Complete);
    assert_eq!(chunks.concat(), b"hello world".to_vec());
}

#[test]
fn second_request_is_not_found() {
    let mut reg: Registry<Vec<u8>> = Registry::new();
    put(&mut reg, "/p", b"x", "x.bin");
    assert!(reg.contains(&"/p".to_string()));
    assert!(request(&mut reg, "/p").is_some());
    assert!(!reg.contains(&"/p".to_string()));
    assert!(request(&mut reg, "/p").is_none());
    put(&mut reg, "/p", b"y", "y.bin");
    assert_eq!(request(&mut reg, "/p").unwrap().0, b"y".to_vec());
}

#[test]
fn two_paths_never_mix() {
    for swap_puts in [false, true] {
        for swap_gets in [false, true] {
            let mut reg: Registry<Vec<u8>> = Registry::new();
            if swap_puts {
                put(&mut reg, "/two", b"second", "2.txt");
                put(&mut reg, "/one", b"first", "1.txt");
            } else {
                put(&mut reg, "/one", b"first", "1.txt");
                put(&mut reg, "/two", b"second", "2.txt");
            }
            assert_eq!(reg.len(), 2);
            let order = if swap_gets { ["/two", "/one"] } else { ["/one", "/two"] };
            for p in order {
                let (file, name) = request(&mut reg, p).unwrap();
                if p == "/one" {
                    assert_eq!((file, name.as_str()), (b"first".to_vec(), "1.txt"));
                } else {
                    assert_eq!((file, name.as_str()), (b"second".to_vec(), "2.txt"));
                }
            }
            assert_eq!(reg.len(), 0);
        }
    }
}

#[test]
fn reregistration_overwrites() {
    let mut reg: Registry<Vec<u8>> = Registry::new();
    put(&mut reg, "/p", b"old", "old.txt");
    put(&mut reg, "/p", b"new", "new.txt");
    assert_eq!(reg.len(), 1);
    assert_eq!(request(&mut reg, "/p"), Some((b"new".to_vec(), "new.txt".to_string())));
    assert!(request(&mut reg, "/p").is_none());
}

#[test]
fn report_csv_download() {
    let content: Vec<u8> = (0..5000u32).map(|i| (i % 251) as u8).collect();
    let mut reg: Registry<Vec<u8>> = Registry::new();
    put(&mut reg, "/f", &content, "report.csv");
    let (file, name) = request(&mut reg, "/f").unwrap();
    let reply = respond(Some(Disposition::Found(name))).ok().unwrap();
    assert_eq!(reply.status, 200);
    assert!(reply.content_disposition.unwrap().contains("filename=\"report.csv\""));
    let (chunks, state) = pump_all(std::io::Cursor::new(file));
    assert_eq!(state, PumpState::Complete);
    assert!(chunks.iter().all(|c| !c.is_empty() && c.len() <= BLOCK_SIZE));
    let body = chunks.concat();
    assert_eq!(body.len(), 5000);
    assert_eq!(body, content);
}

#[test]
fn read_failure_after_500_bytes() {
    let (chunks, state) = pump_all(Flaky { left: 500 });
    assert_eq!(state, PumpState::Corrupted);
    assert_eq!(chunks.concat(), vec![7u8; 500]);
}

#[test]
fn failed_read_aborts_and_empty_read_closes() {
    let buf = [1u8, 2, 3];
    let mut p = Pump::new();
    assert!(matches!(p.on_read(&buf, ReadOutcome::Failed), Step::Abort));
    assert_eq!(p.state(), PumpState::Corrupted);
    assert!(!p.is_streaming());
    let mut q = Pump::new();
    match q.on_read(&buf, ReadOutcome::Data(2)) {
        Step::Send(v) => assert_eq!(v, vec![1, 2]),
        _ => panic!("expected a chunk"),
    }
    assert!(q.is_streaming());
    assert!(matches!(q.on_read(&buf, ReadOutcome::Data(0)), Step::Close));
    assert_eq!(q.state(), PumpState::Complete);
}

#[test]
fn empty_file_sends_nothing() {
    let (chunks, state) = pump_all(std::io::Cursor::new(Vec::<u8>::new()));
    assert_eq!(state, PumpState::Complete);
    assert!(chunks.is_empty());
}

#[test]
fn missing_answer_is_a_coordination_failure() {
    match respond(None) {
        Err(e) => assert_eq!(e.reason, "can't find file"),
        Ok(_) => panic!("a missing answer produced a reply"),
    }
    assert_eq!(other("can't send task").reason, "can't send task");
}

#[test]
fn header_carries_name_unescaped() {
    let reply = respond(Some(Disposition::Found("my report (v2).csv".to_string()))).ok().unwrap();
    assert_eq!(reply.content_disposition.unwrap(), "attachment; filename=\"my report (v2).csv\"");
}

#[test]
fn reply_channel_travels_with_the_action() {
    let mut reg: Registry<Vec<u8>> = Registry::new();
    put(&mut reg, "/r", b"r", "r");
    match handle(&mut reg, Command::Dispatch { path: "/r".to_string(), reply: 41u32 }) {
        Action::Found { reply, .. } => assert_eq!(reply, 41),
        _ => panic!("expected the entry"),
    }
    match handle(&mut reg, Command::Dispatch { path: "/r".to_string(), reply: 42u32 }) {
        Action::NotFound { reply } => assert_eq!(reply, 42),
        _ => panic!("expected not found"),
    }
}
