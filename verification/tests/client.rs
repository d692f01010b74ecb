use remcp::client::{
    classify_failure, client_get_begin, client_put_begin, ClientGet, ClientGetStart, ClientGetStep,
    ClientPut, ClientPutBegin, ClientPutStep, RetryClass, RetryPolicy,
};
use remcp::codec::GetError;

#[test]
fn get_begin_reads_the_header() {
    match client_get_begin("OK 100\n") {
        ClientGetStart::Download(g) => {
            assert_eq!(g.remaining, 100);
            assert_eq!(g.received, 0);
        }
        _ => panic!("Expected a download"),
    }
    match client_get_begin("OK 0\n") {
        ClientGetStart::AlreadyComplete => {}
        _ => panic!("Expected nothing to fetch"),
    }
    match client_get_begin("OK\n") {
        ClientGetStart::BadHeader => {}
        _ => panic!("Expected a bad header"),
    }
    match client_get_begin("NEXT 5\n") {
        ClientGetStart::UnexpectedNext => {}
        _ => panic!("Expected an unexpected NEXT"),
    }
    match client_get_begin("ERR Server is busy\n") {
        ClientGetStart::Refused(GetError::ServerBusy) => {}
        _ => panic!("Expected a busy refusal"),
    }
}

#[test]
fn malformed_ok_is_fatal_not_complete() {
    // an OK line whose remainder is unreadable refuses the transfer; it is
    // never read as "already complete"
    match client_get_begin("OK abc\n") {
        ClientGetStart::Refused(err) => {
            assert_eq!(err.message(), "Other error: Invalid response")
        }
        _ => panic!("Expected a refusal for a malformed OK header"),
    }
    match client_put_begin("OKx\n") {
        ClientPutBegin::Refused(err) => {
            assert_eq!(err.message(), "Other error: Invalid response")
        }
        _ => panic!("Expected a refusal for OK-prefixed junk"),
    }
}

#[test]
fn get_begin_tolerates_crlf() {
    match client_get_begin("OK 100\r\n") {
        ClientGetStart::Download(g) => assert_eq!(g.remaining, 100),
        _ => panic!("Expected a download from a CRLF-terminated line"),
    }
}

#[test]
fn get_loop_receives_chunks() {
    let mut g = ClientGet {
        remaining: 100,
        received: 0,
    };
    match g.on_line("NEXT 64\n") {
        ClientGetStep::Receive(n) => assert_eq!(n, 64),
        _ => panic!("Expected a chunk"),
    }
    // the final chunk is capped at what is still owed
    match g.on_line("NEXT 64\n") {
        ClientGetStep::Receive(n) => assert_eq!(n, 36),
        _ => panic!("Expected the capped final chunk"),
    }
    assert!(g.done());
    assert!(g.finish());
}

#[test]
fn get_loop_stops_on_ok_and_fails_on_err() {
    let mut g = ClientGet {
        remaining: 10,
        received: 0,
    };
    match g.on_line("OK\n") {
        ClientGetStep::StopEarly => {}
        _ => panic!("Expected an early stop"),
    }
    // stopped early: incomplete, the marker stays
    assert!(!g.finish());
    match g.on_line("ERR File error: gone\n") {
        ClientGetStep::Fail(err) => assert_eq!(err.message(), "Other error: File error: gone"),
        _ => panic!("Expected a failure"),
    }
}

#[test]
fn put_begin_reads_the_ack() {
    match client_put_begin("OK\n") {
        ClientPutBegin::Proceed => {}
        _ => panic!("Expected to proceed"),
    }
    match client_put_begin("ERR Server is busy\n") {
        ClientPutBegin::Refused(GetError::ServerBusy) => {}
        _ => panic!("Expected a busy refusal"),
    }
    match client_put_begin("NEXT 8\n") {
        ClientPutBegin::Unexpected => {}
        _ => panic!("Expected an unexpected response"),
    }
}

#[test]
fn put_loop_sends_chunks() {
    let mut p = ClientPut::new(7, 16);
    match p.on_line("NEXT 4\n") {
        ClientPutStep::Send(n) => {
            assert_eq!(n, 4);
            p.record(n);
        }
        _ => panic!("Expected a send"),
    }
    // the final chunk is capped at what is still owed
    match p.on_line("NEXT 100\n") {
        ClientPutStep::Send(n) => {
            assert_eq!(n, 5);
            p.record(n);
        }
        _ => panic!("Expected the capped final send"),
    }
    assert!(p.done());
    assert!(p.finish());
}

#[test]
fn put_loop_short_local_read_is_incomplete() {
    let mut p = ClientPut::new(0, 10);
    match p.on_line("NEXT 8\n") {
        ClientPutStep::Send(n) => {
            assert_eq!(n, 8);
            // the local file yielded only 3 bytes: record what was sent
            p.record(3);
        }
        _ => panic!("Expected a send"),
    }
    assert!(!p.done());
    assert!(!p.finish());
}

#[test]
fn failure_classification() {
    assert_eq!(classify_failure("Server is busy", None), RetryClass::Busy);
    assert_eq!(
        classify_failure("error: Server is busy, try later", Some(1)),
        RetryClass::Busy
    );
    assert_eq!(classify_failure("reset", Some(104)), RetryClass::Transport);
    assert_eq!(classify_failure("timeout", Some(110)), RetryClass::Transport);
    assert_eq!(classify_failure("reset", Some(10054)), RetryClass::Transport);
    assert_eq!(classify_failure("denied", Some(13)), RetryClass::Fatal);
    assert_eq!(classify_failure("no such file", None), RetryClass::Fatal);
}

#[test]
fn busy_retry_is_bounded() {
    let policy = RetryPolicy::standard();
    // a server that is always busy: attempts 1 through 4 wait the fixed
    // backoff, the fifth surfaces the failure
    let mut attempt: u64 = 1;
    loop {
        match policy.should_retry(attempt, RetryClass::Busy) {
            Some(backoff) => {
                assert_eq!(backoff, 5);
                attempt += 1;
            }
            None => break,
        }
    }
    assert_eq!(attempt, 5);
    // fatal failures never consume a retry
    assert_eq!(policy.should_retry(1, RetryClass::Fatal), None);
    // transport failures are retried like busy ones
    assert_eq!(policy.should_retry(2, RetryClass::Transport), Some(5));
}
