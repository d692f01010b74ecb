use remcp::codec::{
    encode_get_request, encode_next, encode_ok, encode_ok_remaining, encode_put_request,
    error_line, parse_error, parse_request, parse_server_response, GetError, ServerResponse,
    TransferRequest,
};

#[test]
fn test_parse_error() {
    assert_eq!(parse_error("ERR Invalid command").message(), "Invalid command");
    assert_eq!(parse_error("ERR Missing arguments").message(), "Missing arguments");
    assert_eq!(parse_error("ERR Server busy").message(), "Server is busy");
    assert_eq!(
        parse_error("ERR File not found").message(),
        "File error: File not found"
    );
    assert_eq!(
        parse_error("Unexpected error").message(),
        "Other error: Unexpected error"
    );
}

#[test]
fn test_server_response() {
    match ServerResponse::from_response("ERR Invalid command") {
        ServerResponse::Error(err) => assert_eq!(err.message(), "Invalid command"),
        _ => panic!("Expected an error response"),
    }

    match ServerResponse::from_response("OK") {
        ServerResponse::Okay => {}
        _ => panic!("Expected an OK response"),
    }
}

#[test]
fn test_server_response_next() {
    match ServerResponse::from_response("NEXT 64") {
        ServerResponse::Next(size) => assert_eq!(size, 64),
        _ => panic!("Expected a NEXT 64 response"),
    }

    match ServerResponse::from_response("NEXT abc") {
        ServerResponse::Error(err) => {
            assert_eq!(err.message(), "Other error: Invalid NEXT command format")
        }
        _ => panic!("Expected an error for invalid NEXT format"),
    }

    match ServerResponse::from_response("UNKNOWN") {
        ServerResponse::Error(err) => {
            assert!(err.message().contains("Invalid response"))
        }
        _ => panic!("Expected invalid response error"),
    }
}

#[test]
fn test_server_response_ok_and_err() {
    match ServerResponse::from_response("ERR Invalid command") {
        ServerResponse::Error(err) => assert_eq!(err.message(), "Invalid command"),
        _ => panic!("Expected an error response"),
    }

    match ServerResponse::from_response("OK") {
        ServerResponse::Okay => {}
        _ => panic!("Expected an OK response"),
    }
}

#[test]
fn loose_response_grammar() {
    // a bare "ERR" is not a taxonomy line and keeps its raw text
    match ServerResponse::from_response("ERR") {
        ServerResponse::Error(GetError::Other(d)) => assert_eq!(d, "ERR"),
        _ => panic!("Expected a raw-text error"),
    }
    // the busy line of the wire decodes to the busy kind
    match ServerResponse::from_response("ERR Server is busy") {
        ServerResponse::Error(GetError::ServerBusy) => {}
        _ => panic!("Expected a busy error"),
    }
    // "OK <n>" acknowledges
    match ServerResponse::from_response("OK 12") {
        ServerResponse::Okay => {}
        _ => panic!("Expected an OK response"),
    }
}

#[test]
fn busy_line_decodes_busy_in_both_grammars() {
    // "ERR Server is busy" is the line the refused connection receives;
    // both decoders must read it as the busy kind
    match parse_error("ERR Server is busy") {
        GetError::ServerBusy => {}
        _ => panic!("Expected the busy kind from the error taxonomy"),
    }
    match parse_server_response("ERR Server is busy") {
        ServerResponse::Error(GetError::ServerBusy) => {}
        _ => panic!("Expected the busy kind from the strict decoder"),
    }
}

#[test]
fn only_well_formed_ok_acknowledges() {
    // junk that merely opens with the letters OK is no acknowledgement
    match ServerResponse::from_response("OKx") {
        ServerResponse::Error(err) => assert_eq!(err.message(), "Other error: Invalid response"),
        _ => panic!("Expected an invalid response error for OKx"),
    }
    match ServerResponse::from_response("OK abc") {
        ServerResponse::Error(err) => assert_eq!(err.message(), "Other error: Invalid response"),
        _ => panic!("Expected an invalid response error for a bad remainder"),
    }
    match parse_server_response("OKx") {
        ServerResponse::Error(err) => assert_eq!(err.message(), "Other error: Invalid response"),
        _ => panic!("Expected an invalid response error for OKx"),
    }
    match parse_server_response("OK 1 2") {
        ServerResponse::Error(err) => assert_eq!(err.message(), "Other error: Invalid response"),
        _ => panic!("Expected an invalid response error for extra fields"),
    }
}

#[test]
fn strict_response_grammar() {
    match parse_server_response("ERR Server is busy") {
        ServerResponse::Error(GetError::ServerBusy) => {}
        _ => panic!("Expected a busy error"),
    }
    match parse_server_response("ERR File not found") {
        ServerResponse::Error(GetError::Other(d)) => assert_eq!(d, "File not found"),
        _ => panic!("Expected a free-form error"),
    }
    match parse_server_response("OK 128") {
        ServerResponse::Okay => {}
        _ => panic!("Expected an OK response"),
    }
    match parse_server_response("NEXT 51") {
        ServerResponse::Next(n) => assert_eq!(n, 51),
        _ => panic!("Expected a NEXT response"),
    }
    match parse_server_response("NEXT 1 2") {
        ServerResponse::Error(err) => {
            assert_eq!(err.message(), "Other error: Invalid NEXT command format")
        }
        _ => panic!("Expected a format error"),
    }
    match parse_server_response("garbage") {
        ServerResponse::Error(err) => assert_eq!(err.message(), "Other error: Invalid response"),
        _ => panic!("Expected invalid response error"),
    }
}

#[test]
fn request_grammar() {
    match parse_request("GET /srv/data.txt 42\n") {
        Ok(TransferRequest::Get { path, offset }) => {
            assert_eq!(path, "/srv/data.txt");
            assert_eq!(offset, 42);
        }
        _ => panic!("Expected a GET request"),
    }
    match parse_request("put up.bin 3 900\n") {
        Ok(TransferRequest::Put {
            path,
            offset,
            total_size,
        }) => {
            assert_eq!(path, "up.bin");
            assert_eq!(offset, 3);
            assert_eq!(total_size, 900);
        }
        _ => panic!("Expected a PUT request (lower-case verb accepted)"),
    }
    match parse_request("") {
        Err(GetError::InvalidCommand) => {}
        _ => panic!("Expected an invalid command"),
    }
    match parse_request("   \n") {
        Err(GetError::InvalidCommand) => {}
        _ => panic!("Expected an invalid command for a blank line"),
    }
    match parse_request("GET onlypath\n") {
        Err(GetError::MissingArguments) => {}
        _ => panic!("Expected missing arguments"),
    }
    match parse_request("PUT p 0\n") {
        Err(GetError::MissingArguments) => {}
        _ => panic!("Expected missing arguments"),
    }
    match parse_request("LIST x 0\n") {
        Err(GetError::UnknownCommand) => {}
        _ => panic!("Expected an unknown command"),
    }
    // unreadable numeral fields are read as zero
    match parse_request("GET p abc\n") {
        Ok(TransferRequest::Get { offset, .. }) => assert_eq!(offset, 0),
        _ => panic!("Expected a GET request"),
    }
    match parse_request("GET p +7\n") {
        Ok(TransferRequest::Get { offset, .. }) => assert_eq!(offset, 7),
        _ => panic!("Expected a GET request"),
    }
    match parse_request("GET p 99999999999999999999999999\n") {
        Ok(TransferRequest::Get { offset, .. }) => assert_eq!(offset, 0),
        _ => panic!("Expected a GET request"),
    }
}

#[test]
fn encoders_produce_wire_lines() {
    assert_eq!(encode_get_request("f.txt", 42), "GET f.txt 42\n");
    assert_eq!(encode_put_request("f.txt", 0, 1024), "PUT f.txt 0 1024\n");
    assert_eq!(encode_ok(), "OK\n");
    assert_eq!(encode_ok_remaining(0), "OK 0\n");
    assert_eq!(encode_ok_remaining(7), "OK 7\n");
    assert_eq!(encode_next(51), "NEXT 51\n");
    assert_eq!(error_line(&GetError::ServerBusy), "ERR Server is busy\n");
    assert_eq!(
        error_line(&GetError::FileError(String::from("No such file"))),
        "ERR File error: No such file\n"
    );
}

#[test]
fn numerals_at_the_edges() {
    assert_eq!(
        encode_ok_remaining(u64::MAX),
        "OK 18446744073709551615\n"
    );
    match parse_request("GET p 18446744073709551615\n") {
        Ok(TransferRequest::Get { offset, .. }) => assert_eq!(offset, u64::MAX),
        _ => panic!("Expected a GET request"),
    }
    // one past the maximum no longer parses and is read as zero
    match parse_request("GET p 18446744073709551616\n") {
        Ok(TransferRequest::Get { offset, .. }) => assert_eq!(offset, 0),
        _ => panic!("Expected a GET request"),
    }
}

#[test]
fn fields_split_on_any_whitespace() {
    match parse_request("GET\tp\t5\r\n") {
        Ok(TransferRequest::Get { path, offset }) => {
            assert_eq!(path, "p");
            assert_eq!(offset, 5);
        }
        _ => panic!("Expected a GET request with tab separators"),
    }
}

#[test]
fn encoded_request_parses_back() {
    let line = encode_get_request("a/b.txt", 12345);
    match parse_request(&line) {
        Ok(TransferRequest::Get { path, offset }) => {
            assert_eq!(path, "a/b.txt");
            assert_eq!(offset, 12345);
        }
        _ => panic!("Expected the encoded GET to parse back"),
    }
    let line = encode_put_request("a/b.txt", 5, 99);
    match parse_request(&line) {
        Ok(TransferRequest::Put {
            path,
            offset,
            total_size,
        }) => {
            assert_eq!(path, "a/b.txt");
            assert_eq!(offset, 5);
            assert_eq!(total_size, 99);
        }
        _ => panic!("Expected the encoded PUT to parse back"),
    }
    let line = encode_next(64);
    match parse_server_response(line.trim_end()) {
        ServerResponse::Next(n) => assert_eq!(n, 64),
        _ => panic!("Expected the encoded NEXT to parse back"),
    }
}
