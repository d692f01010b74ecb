use remcp::server::{dispatch_command, server_get_begin, server_put_begin, GetBegin, ServerTurn};

#[test]
fn malformed_command_yields_one_error_line() {
    // an empty line: exactly one ERR line from the taxonomy, no transfer
    match dispatch_command("") {
        ServerTurn::Reply(line) => assert_eq!(line, "ERR Invalid command\n"),
        _ => panic!("Expected a reply for an empty line"),
    }
    match dispatch_command("\n") {
        ServerTurn::Reply(line) => assert_eq!(line, "ERR Invalid command\n"),
        _ => panic!("Expected a reply for a blank line"),
    }
    // an unrecognized verb
    match dispatch_command("FETCH f.txt 0\n") {
        ServerTurn::Reply(line) => assert_eq!(line, "ERR Unknown command\n"),
        _ => panic!("Expected a reply for an unknown verb"),
    }
    match dispatch_command("GET f.txt\n") {
        ServerTurn::Reply(line) => assert_eq!(line, "ERR Missing arguments\n"),
        _ => panic!("Expected a reply for missing arguments"),
    }
    match dispatch_command("PUT f.txt 0\n") {
        ServerTurn::Reply(line) => assert_eq!(line, "ERR Missing arguments\n"),
        _ => panic!("Expected a reply for missing arguments"),
    }
}

#[test]
fn well_formed_commands_open_transfers() {
    match dispatch_command("GET /srv/a.bin 128\n") {
        ServerTurn::Get { path, offset } => {
            assert_eq!(path, "/srv/a.bin");
            assert_eq!(offset, 128);
        }
        _ => panic!("Expected a GET turn"),
    }
    match dispatch_command("PUT b.bin 0 4096\n") {
        ServerTurn::Put {
            path,
            offset,
            total_size,
        } => {
            assert_eq!(path, "b.bin");
            assert_eq!(offset, 0);
            assert_eq!(total_size, 4096);
        }
        _ => panic!("Expected a PUT turn"),
    }
}

#[test]
fn offset_beyond_eof_is_ok_zero() {
    // offset == size and offset > size both finish at once with OK 0
    match server_get_begin(10, 10) {
        GetBegin::Complete(line) => assert_eq!(line, "OK 0\n"),
        _ => panic!("Expected a completed download at offset == size"),
    }
    match server_get_begin(10, 4096) {
        GetBegin::Complete(line) => assert_eq!(line, "OK 0\n"),
        _ => panic!("Expected a completed download past the end"),
    }
    match server_get_begin(0, 0) {
        GetBegin::Complete(line) => assert_eq!(line, "OK 0\n"),
        _ => panic!("Expected a completed download of an empty file"),
    }
}

#[test]
fn get_begin_announces_remainder() {
    match server_get_begin(100, 40) {
        GetBegin::Stream { header, transfer } => {
            assert_eq!(header, "OK 60\n");
            assert_eq!(transfer.remaining, 60);
            assert_eq!(transfer.sent, 0);
        }
        _ => panic!("Expected a streaming download"),
    }
}

#[test]
fn put_begin_acknowledges() {
    let (header, transfer) = server_put_begin(5, 50);
    assert_eq!(header, "OK\n");
    assert_eq!(transfer.received, 5);
    assert_eq!(transfer.total, 50);
}
