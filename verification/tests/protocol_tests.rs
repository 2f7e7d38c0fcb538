use auto_discovery::protocol::{pairing_reply, pairing_request, PairingClient, ProtocolError};
use auto_discovery::text::NumberError;

fn run(lines: &[&str]) -> Option<Result<Vec<String>, ProtocolError>> {
    let mut c = PairingClient::new();
    for l in lines {
        if c.is_done() {
            break;
        }
        c.feed(l);
    }
    c.into_outcome()
}

fn split_lines(text: &str) -> Vec<String> {
    let mut out = Vec::new();
    let mut cur = String::new();
    for ch in text.chars() {
        cur.push(ch);
        if ch == '\n' {
            out.push(std::mem::take(&mut cur));
        }
    }
    if !cur.is_empty() {
        out.push(cur);
    }
    out
}

#[test]
fn request_is_code_and_newline() {
    assert_eq!(pairing_request("1234"), "1234\n");
}

#[test]
fn reply_accepts_trimmed_matching_code() {
    let tasks = vec!["build".to_string(), "deploy now".to_string()];
    let r = pairing_reply("1234\r\n", "1234", &tasks);
    assert!(r.accepted);
    assert_eq!(r.text, "OK\nTASKS 2\nbuild\ndeploy now\n");
}

#[test]
fn reply_refuses_other_code() {
    let tasks = vec!["build".to_string()];
    let r = pairing_reply("4321\n", "1234", &tasks);
    assert!(!r.accepted);
    assert_eq!(r.text, "FAIL\n");
}

#[test]
fn reply_with_no_tasks() {
    let r = pairing_reply("x\n", "x", &Vec::new());
    assert!(r.accepted);
    assert_eq!(r.text, "OK\nTASKS 0\n");
}

#[test]
fn client_reads_tasks() {
    let out = run(&["OK\n", "TASKS 2\n", "  build \n", "deploy\n"]);
    match out {
        Some(Ok(t)) => assert_eq!(t, vec!["build".to_string(), "deploy".to_string()]),
        other => panic!("{:?}", other),
    }
}

#[test]
fn client_with_zero_tasks_is_done_at_once() {
    let mut c = PairingClient::new();
    c.feed("OK\n");
    assert!(!c.is_done());
    c.feed("TASKS 0\n");
    assert!(c.is_done());
    match c.into_outcome() {
        Some(Ok(t)) => assert!(t.is_empty()),
        other => panic!("{:?}", other),
    }
}

#[test]
fn client_errors() {
    assert!(matches!(run(&["FAIL\n"]), Some(Err(ProtocolError::WrongPairingCode))));
    match run(&["HELLO \n"]) {
        Some(Err(ProtocolError::UnexpectedResponse(s))) => assert_eq!(s, "HELLO"),
        other => panic!("{:?}", other),
    }
    match run(&["OK\n", "COUNT 2\n"]) {
        Some(Err(ProtocolError::MissingTasksLine(s))) => assert_eq!(s, "COUNT 2"),
        other => panic!("{:?}", other),
    }
    assert!(matches!(
        run(&["OK\n", "TASKS x\n"]),
        Some(Err(ProtocolError::BadTaskCount(NumberError::InvalidDigit)))
    ));
    // Trimming takes the space after the word, so the prefix is missing.
    assert!(matches!(run(&["OK\n", "TASKS \n"]), Some(Err(ProtocolError::MissingTasksLine(_)))));
    assert!(matches!(
        run(&["OK\n", "TASKS 99999999999999999999999\n"]),
        Some(Err(ProtocolError::BadTaskCount(NumberError::Overflow)))
    ));
    // At the end of the stream read_line yields empty lines.
    assert!(matches!(run(&["OK\n", ""]), Some(Err(ProtocolError::MissingTasksLine(_)))));
}

#[test]
fn client_unfinished_has_no_outcome() {
    assert!(run(&["OK\n", "TASKS 3\n", "a\n"]).is_none());
    let out = run(&["OK\n", "TASKS 2\n", "a\n", ""]);
    match out {
        Some(Ok(t)) => assert_eq!(t, vec!["a".to_string(), "".to_string()]),
        other => panic!("{:?}", other),
    }
}

#[test]
fn handshake_round_trip_on_values() {
    let tasks = vec!["uptime".to_string(), "df -h".to_string(), "reboot".to_string()];
    let req = pairing_request("0420");
    let lines = split_lines(&req);
    assert_eq!(lines.len(), 1);
    let reply = pairing_reply(&lines[0], "0420", &tasks);
    assert!(reply.accepted);
    let answer = split_lines(&reply.text);
    let refs: Vec<&str> = answer.iter().map(|s| s.as_str()).collect();
    match run(&refs) {
        Some(Ok(t)) => assert_eq!(t, tasks),
        other => panic!("{:?}", other),
    }
    let wrong = pairing_reply(&lines[0], "9999", &tasks);
    let answer = split_lines(&wrong.text);
    let refs: Vec<&str> = answer.iter().map(|s| s.as_str()).collect();
    assert!(matches!(run(&refs), Some(Err(ProtocolError::WrongPairingCode))));
}

#[test]
fn error_messages_read_like_std_parse_errors() {
    assert_eq!(ProtocolError::WrongPairingCode.message(), "Wrong pairing code");
    assert_eq!(ProtocolError::UnexpectedResponse("HI".to_string()).message(), "Unexpected response: HI");
    assert_eq!(ProtocolError::MissingTasksLine("X".to_string()).message(), "Expected TASKS line, got: X");
    for s in ["", "x", "99999999999999999999999"] {
        let std_msg = s.parse::<usize>().unwrap_err().to_string();
        let kind = match auto_discovery::text::parse_usize(s) {
            Err(k) => k,
            Ok(_) => panic!("expected an error"),
        };
        assert_eq!(ProtocolError::BadTaskCount(kind).message(), std_msg);
    }
}

#[test]
fn handshake_round_trip_trims_code_and_tasks() {
    let tasks = vec!["  spaced task ".to_string(), "\tx".to_string(), "".to_string()];
    let req = pairing_request(" 0420 ");
    let lines = split_lines(&req);
    assert_eq!(lines.len(), 1);
    let reply = pairing_reply(&lines[0], "0420", &tasks);
    assert!(reply.accepted);
    let answer = split_lines(&reply.text);
    let refs: Vec<&str> = answer.iter().map(|s| s.as_str()).collect();
    match run(&refs) {
        Some(Ok(t)) => assert_eq!(t, vec!["spaced task".to_string(), "x".to_string(), "".to_string()]),
        other => panic!("{:?}", other),
    }
}
