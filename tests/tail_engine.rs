use reutils::follow::{FollowAction, FollowController, FollowState, Notification};
use reutils::forward::{tail_forward, ForwardReader};
use reutils::reverse::{tail_reverse, ReverseScan};
use reutils::tail::{
    follow_index, is_stdin_marker, overall_result, parse_line_count, select_strategy, FanOut, Step,
    source_names, tail_bytes, ConfigError, SourceOutcome, Strategy, TailConfig,
};
use reutils::window::{window_of, Window};

fn lines(v: &[&str]) -> Vec<Vec<u8>> {
    v.iter().map(|s| s.as_bytes().to_vec()).collect()
}

fn numbered(n: usize) -> Vec<u8> {
    let mut out = Vec::new();
    for i in 1..=n {
        out.extend_from_slice(format!("line {i}\n").as_bytes());
    }
    out
}

#[test]
fn short_source_is_emitted_whole() {
    let src = b"a\nb\nc\n";
    for strategy in [Strategy::ReverseScan, Strategy::ForwardStream] {
        assert_eq!(tail_bytes(src, 10, strategy), lines(&["a", "b", "c"]));
        assert_eq!(tail_bytes(src, 3, strategy), lines(&["a", "b", "c"]));
    }
}

#[test]
fn long_source_gives_exactly_last_n() {
    let src = numbered(25);
    let expect = lines(&["line 23", "line 24", "line 25"]);
    assert_eq!(tail_bytes(&src, 3, Strategy::ReverseScan), expect);
    assert_eq!(tail_bytes(&src, 3, Strategy::ForwardStream), expect);
}

#[test]
fn strategies_agree_for_every_chunk_size() {
    let sources: Vec<Vec<u8>> = vec![
        b"".to_vec(),
        b"\n".to_vec(),
        b"\n\n\n".to_vec(),
        b"x".to_vec(),
        b"one\ntwo\nthree".to_vec(),
        b"one\r\ntwo\r\n".to_vec(),
        numbered(40),
    ];
    for src in &sources {
        for n in 1..6 {
            let forward = tail_forward(src, n, 4096);
            for chunk in 1..9 {
                assert_eq!(tail_reverse(src, n, chunk), forward);
                assert_eq!(tail_forward(src, n, chunk), forward);
            }
        }
    }
}

#[test]
fn default_ten_lines_of_a_long_source() {
    let src = numbered(100);
    let out = tail_bytes(&src, 10, Strategy::ReverseScan);
    assert_eq!(out.len(), 10);
    assert_eq!(out[0], b"line 91".to_vec());
    assert_eq!(out[9], b"line 100".to_vec());
}

#[test]
fn rerun_on_unchanged_source_is_identical() {
    let src = numbered(17);
    let first = tail_bytes(&src, 4, Strategy::ReverseScan);
    let second = tail_bytes(&src, 4, Strategy::ReverseScan);
    assert_eq!(first, second);
}

#[test]
fn zero_line_count_is_rejected() {
    assert!(matches!(TailConfig::new(0, false), Err(ConfigError::ZeroCount)));
    assert!(matches!(TailConfig::from_count_text(Some("0"), false), Err(ConfigError::ZeroCount)));
    assert!(matches!(TailConfig::from_count_text(Some("+0"), true), Err(ConfigError::ZeroCount)));
}

#[test]
fn configuration_accepts_counts() {
    let c = TailConfig::from_count_text(None, false).ok().unwrap();
    assert_eq!(c.line_count(), 10);
    assert!(!c.follow());
    let c = TailConfig::from_count_text(Some("25"), true).ok().unwrap();
    assert_eq!(c.line_count(), 25);
    assert!(c.follow());
    assert!(matches!(TailConfig::from_count_text(Some("x1"), false), Err(ConfigError::InvalidCount)));
}

#[test]
fn empty_source_emits_nothing() {
    for strategy in [Strategy::ReverseScan, Strategy::ForwardStream] {
        assert!(tail_bytes(b"", 5, strategy).is_empty());
    }
}

#[test]
fn unterminated_last_line_emitted_once() {
    for strategy in [Strategy::ReverseScan, Strategy::ForwardStream] {
        assert_eq!(tail_bytes(b"a\nb\nlast", 2, strategy), lines(&["b", "last"]));
        assert_eq!(tail_bytes(b"a\nb\nlast", 5, strategy), lines(&["a", "b", "last"]));
        assert_eq!(tail_bytes(b"only", 1, strategy), lines(&["only"]));
    }
}

#[test]
fn empty_lines_are_lines() {
    for strategy in [Strategy::ReverseScan, Strategy::ForwardStream] {
        assert_eq!(tail_bytes(b"a\n\nb\n\n", 3, strategy), lines(&["", "b", ""]));
        assert_eq!(tail_bytes(b"\n", 3, strategy), lines(&[""]));
    }
}

#[test]
fn follow_emits_only_the_appended_lines() {
    let mut c = FollowController::new(2);
    assert_eq!(c.state_now(), FollowState::Initial);
    c.take_bytes(b"a\nb\nc\n");
    assert_eq!(c.emit(), lines(&["b", "c"]));
    assert_eq!(c.cursor(), 6);
    c.watch_started(true);
    assert_eq!(c.state_now(), FollowState::Watching);
    assert_eq!(c.on_notification(Notification::Modified), FollowAction::ReadAppended);
    c.take_bytes(b"d\n");
    assert_eq!(c.emit(), lines(&["d"]));
    assert_eq!(c.cursor(), 8);
}

#[test]
fn follow_redundant_notification_prints_nothing() {
    let mut c = FollowController::new(3);
    c.take_bytes(b"x\n");
    let _ = c.emit();
    c.watch_started(true);
    assert_eq!(c.on_notification(Notification::Modified), FollowAction::ReadAppended);
    c.take_bytes(b"");
    assert!(c.emit().is_empty());
    assert_eq!(c.on_notification(Notification::Other), FollowAction::Ignore);
    assert_eq!(c.state_now(), FollowState::Watching);
}

#[test]
fn follow_stops_on_watch_failure() {
    let mut c = FollowController::new(3);
    c.watch_started(false);
    assert_eq!(c.state_now(), FollowState::Terminated);
    let mut d = FollowController::new(3);
    d.watch_started(true);
    assert_eq!(d.on_notification(Notification::Failed), FollowAction::Stop);
    assert_eq!(d.state_now(), FollowState::Terminated);
    assert_eq!(d.on_notification(Notification::Modified), FollowAction::Stop);
}

#[test]
fn follow_read_error_keeps_closed_lines() {
    let mut c = FollowController::new(5);
    c.take_bytes(b"one\ntwo\npart");
    assert_eq!(c.read_failed(), lines(&["one", "two"]));
    assert_eq!(c.state_now(), FollowState::Terminated);
}

#[test]
fn line_straddling_chunk_boundary_stays_whole() {
    let src = b"first\na-rather-long-final-line-crossing-chunks\n";
    for chunk in 1..12 {
        assert_eq!(
            tail_reverse(src, 1, chunk),
            lines(&["a-rather-long-final-line-crossing-chunks"])
        );
        assert_eq!(
            tail_reverse(src, 2, chunk),
            lines(&["first", "a-rather-long-final-line-crossing-chunks"])
        );
    }
}

#[test]
fn reverse_scan_reads_only_the_tail() {
    let src = numbered(1000);
    let mut scan = ReverseScan::new(src.len() as u64, 2, 64);
    let mut read = 0usize;
    while let Some((off, len)) = scan.next_read() {
        let off = off as usize;
        scan.feed(&src[off..off + len]);
        read += len;
    }
    assert!(read <= 128);
    assert_eq!(scan.finish(), lines(&["line 999", "line 1000"]));
}

#[test]
fn fan_out_reports_failure_but_keeps_going() {
    let outcomes = vec![SourceOutcome::OpenFailed, SourceOutcome::Emitted];
    let r = overall_result(&outcomes);
    let e = r.err().unwrap();
    assert_eq!(e.code, 1);
    assert!(e.message.is_none());
    let good = numbered(12);
    assert_eq!(tail_bytes(&good, 2, Strategy::ReverseScan), lines(&["line 11", "line 12"]));
    assert!(overall_result(&vec![SourceOutcome::Emitted, SourceOutcome::Emitted]).is_ok());
    assert!(overall_result(&vec![SourceOutcome::Emitted, SourceOutcome::ReadFailed]).is_err());
    assert!(overall_result(&vec![]).is_ok());
}

#[test]
fn parse_line_count_cases() {
    assert_eq!(parse_line_count("5"), Ok(5));
    assert_eq!(parse_line_count("+7"), Ok(7));
    assert_eq!(parse_line_count("007"), Ok(7));
    assert_eq!(parse_line_count("0"), Ok(0));
    assert_eq!(parse_line_count(""), Err(ConfigError::InvalidCount));
    assert_eq!(parse_line_count("+"), Err(ConfigError::InvalidCount));
    assert_eq!(parse_line_count("-3"), Err(ConfigError::InvalidCount));
    assert_eq!(parse_line_count("1x"), Err(ConfigError::InvalidCount));
    assert_eq!(parse_line_count("99999999999999999999999999"), Err(ConfigError::InvalidCount));
    assert_eq!(parse_line_count(&usize::MAX.to_string()), Ok(usize::MAX));
}

#[test]
fn strategy_selection() {
    assert_eq!(select_strategy(true, false), Strategy::ReverseScan);
    assert_eq!(select_strategy(true, true), Strategy::ForwardStream);
    assert_eq!(select_strategy(false, false), Strategy::ForwardStream);
    assert_eq!(select_strategy(false, true), Strategy::ForwardStream);
}

#[test]
fn source_list_and_follow_target() {
    let none = source_names(vec![]);
    assert_eq!(none, vec!["-".to_string()]);
    let named = source_names(vec!["a".to_string(), "b".to_string()]);
    assert_eq!(named, vec!["a".to_string(), "b".to_string()]);
    assert_eq!(follow_index(&named, true), Some(0));
    assert_eq!(follow_index(&named, false), None);
    assert_eq!(follow_index(&none, true), None);
    assert!(is_stdin_marker("-"));
    assert!(!is_stdin_marker("--"));
    assert!(!is_stdin_marker("a"));
}

#[test]
fn window_evicts_oldest() {
    let mut w = Window::new(2);
    w.push(b"1".to_vec());
    w.push(b"2".to_vec());
    w.push(b"3".to_vec());
    assert_eq!(w.len(), 2);
    assert_eq!(w.capacity(), 2);
    assert_eq!(w.drain(), lines(&["2", "3"]));
    assert_eq!(w.len(), 0);
    assert_eq!(window_of(lines(&["a", "b", "c", "d"]), 3), lines(&["b", "c", "d"]));
}

#[test]
fn forward_reader_across_pieces() {
    let mut r = ForwardReader::new(3);
    r.feed(b"ab");
    r.feed(b"c\nd");
    r.feed(b"e\n");
    assert_eq!(r.flush(), lines(&["abc", "de"]));
    r.feed(b"x\ny");
    assert_eq!(r.abandon(), lines(&["x"]));
}

#[test]
fn fan_out_missing_then_good_file() {
    let names = vec!["missing_file".to_string(), "good_file".to_string()];
    let mut run = FanOut::new(&names, false);
    assert_eq!(run.next_step(), Step::Emit(0));
    run.record(SourceOutcome::OpenFailed);
    assert_eq!(run.next_step(), Step::Emit(1));
    run.record(SourceOutcome::Emitted);
    assert_eq!(run.next_step(), Step::Done);
    assert_eq!(run.result().err().unwrap().code, 1);
}

#[test]
fn fan_out_follows_first_after_the_rest() {
    let names = vec!["a".to_string(), "b".to_string()];
    let mut run = FanOut::new(&names, true);
    assert_eq!(run.next_step(), Step::StartFollow(0));
    run.record(SourceOutcome::Emitted);
    assert_eq!(run.next_step(), Step::Emit(1));
    run.record(SourceOutcome::Emitted);
    assert_eq!(run.next_step(), Step::KeepFollowing);
}

#[test]
fn fan_out_followed_failure_is_terminal() {
    let names = vec!["a".to_string(), "b".to_string()];
    let mut run = FanOut::new(&names, true);
    assert_eq!(run.next_step(), Step::StartFollow(0));
    run.record(SourceOutcome::WatchFailed);
    assert_eq!(run.next_step(), Step::Done);
    assert!(run.result().is_err());
    let stdin_only = source_names(vec![]);
    let mut run = FanOut::new(&stdin_only, true);
    assert_eq!(run.next_step(), Step::Emit(0));
    run.record(SourceOutcome::Emitted);
    assert_eq!(run.next_step(), Step::Done);
    assert!(run.result().is_ok());
}

/// The lines of `src` by plain splitting: a final newline ends the last line
/// rather than starting an empty one, and a carriage return before a newline
/// belongs to the terminator.
fn naive_last_lines(src: &[u8], n: usize) -> Vec<Vec<u8>> {
    let mut all: Vec<Vec<u8>> = src.split(|b| *b == b'\n').map(|l| l.to_vec()).collect();
    let last = all.pop().unwrap();
    for l in all.iter_mut() {
        if l.last() == Some(&b'\r') {
            l.pop();
        }
    }
    if !last.is_empty() {
        all.push(last);
    }
    let skip = all.len().saturating_sub(n);
    all.split_off(skip)
}

#[test]
fn readers_match_plain_splitting_on_generated_sources() {
    let mut seed: u64 = 0x2545_f491_4f6c_dd1d;
    for _ in 0..400 {
        seed ^= seed << 13;
        seed ^= seed >> 7;
        seed ^= seed << 17;
        let len = (seed % 60) as usize;
        let mut src = Vec::with_capacity(len);
        let mut s = seed;
        for _ in 0..len {
            s = s.wrapping_mul(6364136223846793005).wrapping_add(1442695040888963407);
            src.push(match (s >> 60) % 4 {
                0 | 1 => b'a' + ((s >> 50) % 3) as u8,
                2 => b'\n',
                _ => b'\r',
            });
        }
        for n in 1..5 {
            let expect = naive_last_lines(&src, n);
            for chunk in [1usize, 2, 3, 7, 4096] {
                assert_eq!(tail_reverse(&src, n, chunk), expect);
                assert_eq!(tail_forward(&src, n, chunk), expect);
            }
        }
    }
}

#[test]
fn crlf_terminators_are_dropped() {
    for strategy in [Strategy::ReverseScan, Strategy::ForwardStream] {
        assert_eq!(tail_bytes(b"a\r\nb\r\n", 5, strategy), lines(&["a", "b"]));
        assert_eq!(tail_bytes(b"a\r\nb\r", 5, strategy), lines(&["a", "b\r"]));
        assert_eq!(tail_bytes(b"\r\n\r\n", 1, strategy), lines(&[""]));
        assert_eq!(tail_bytes(b"x\r\r\n", 1, strategy), lines(&["x\r"]));
    }
    for chunk in 1..6 {
        assert_eq!(tail_reverse(b"one\r\ntwo\r\nthree\r\n", 2, chunk), lines(&["two", "three"]));
    }
    let mut r = ForwardReader::new(4);
    r.feed(b"p\r");
    r.feed(b"\nq\r");
    assert_eq!(r.flush(), lines(&["p", "q\r"]));
}
