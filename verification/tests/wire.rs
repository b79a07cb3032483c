//! Messages on a stream.

use std::io::{BufRead, BufReader};

use video_sync::wire::{
    after_mpv_line, framed, protocol_complaint, received, LineStep, ReceiveError,
};

#[test]
fn message_is_put_on_a_line() {
    assert_eq!(framed("{\"a\":1}".to_string()), "{\"a\":1}\n");
    assert_eq!(framed(String::new()), "\n");
}

#[test]
fn lines_are_the_messages() {
    let payloads = ["one", "", "{\"two\": 2}"];
    let mut stream = String::new();
    for payload in payloads {
        stream.push_str(&framed(payload.to_string()));
    }
    let mut reader = BufReader::new(stream.as_bytes());
    for payload in payloads {
        let mut line = String::new();
        let bytes_read = reader.read_line(&mut line).unwrap();
        assert_eq!(received(bytes_read, Some(line)), Ok(framed(payload.to_string())));
    }
    let mut line = String::new();
    let bytes_read = reader.read_line(&mut line).unwrap();
    assert_eq!(received(bytes_read, Some(line)), Err(ReceiveError::Lost));
}

#[test]
fn line_that_is_no_message_breaks_protocol() {
    assert_eq!(received::<u8>(3, None), Err(ReceiveError::BrokenProtocol));
    assert_eq!(received::<u8>(0, None), Err(ReceiveError::Lost));
    assert_eq!(received(3, Some(7u8)), Ok(7));
}

#[test]
fn line_of_a_player_that_is_no_message_is_skipped() {
    assert_eq!(after_mpv_line::<u8>(3, None), LineStep::Skip);
    assert_eq!(after_mpv_line(3, Some(7u8)), LineStep::Handle(7));
    assert_eq!(after_mpv_line::<u8>(0, None), LineStep::End);
}

#[test]
fn complaint_quotes_the_trimmed_line() {
    assert_eq!(protocol_complaint("Client", " x y \n"), "Client broke protocol: \"x y\"");
    assert_eq!(
        protocol_complaint("Synchronization server", "\n"),
        "Synchronization server broke protocol: \"\""
    );
}
