//! How the client is set up.

use video_sync::client::config::{
    calculate_file_hash, hash_text, Config, MpvArgument, MpvProcessInvocation, MpvSocket,
    Username,
};

#[test]
fn command_line_is_split_into_words() {
    let invocation = MpvProcessInvocation::from_str("  mpv --fs\t--volume=5 \n").unwrap();
    assert_eq!(invocation.command, "mpv");
    assert_eq!(invocation.flags, ["--fs", "--volume=5"]);

    let invocation = MpvProcessInvocation::from_str("/usr/bin/mpv").unwrap();
    assert_eq!(invocation.command, "/usr/bin/mpv");
    assert!(invocation.flags.is_empty());
}

#[test]
fn words_are_those_of_split_whitespace() {
    for line in ["a\u{a0}b", "a\u{2028}\u{3000}b c", "ä ö", "x\u{200b}y z", "\r\na\u{b}b"] {
        let words: Vec<&str> = line.split_whitespace().collect();
        let invocation = MpvProcessInvocation::from_str(line).unwrap();
        assert_eq!(invocation.command, words[0]);
        assert_eq!(invocation.flags, words[1..]);
    }
}

#[test]
fn empty_command_line_is_refused() {
    assert_eq!(MpvProcessInvocation::from_str("").unwrap_err(), "Command cannot be empty.");
    assert_eq!(MpvProcessInvocation::from_str(" \t").unwrap_err(), "Command cannot be empty.");
}

#[test]
fn socket_is_numbered() {
    assert_eq!(MpvSocket::numbered(7).to_string(), "/tmp/mpv_sync_socket.00007");
    assert_eq!(MpvSocket::numbered(99999).0, "/tmp/mpv_sync_socket.99999");
    assert_eq!(MpvSocket::from_str("/run/mpv").to_string(), "/run/mpv");
}

#[test]
fn default_socket_has_a_number_left_to_chance() {
    let mut seen = std::collections::HashSet::new();
    for _ in 0..20 {
        let path = MpvSocket::default().0;
        let number = path.strip_prefix("/tmp/mpv_sync_socket.").unwrap().to_string();
        assert_eq!(number.len(), 5);
        assert!(number.parse::<u32>().unwrap() < 100000);
        seen.insert(number);
    }
    assert!(seen.len() > 1);
}

#[test]
fn username_comes_from_the_system() {
    assert_eq!(Username::from_environment(Some("ada".to_string())).0, "ada");
    assert_eq!(Username::from_str("bob").to_string(), "bob");
    assert!(Username::from("eve".to_string()) == Username::from_str("eve"));
    assert!(Username::from_str("eve") != Username::from_str("Eve"));
}

#[test]
fn asked_for_username_goes_first() {
    let name = |s: &str| Some(s.to_string());
    assert_eq!(Username::chosen(name("eve"), name("ada")).0, "eve");
    assert_eq!(Username::chosen(name("eve"), None).0, "eve");
    assert_eq!(Username::chosen(None, name("ada")).0, "ada");
    assert!(Username::chosen(None, None).0.starts_with("Anonymous-"));
}

#[test]
fn username_is_made_up_where_the_system_knows_none() {
    assert_eq!(Username::numbered(42).0, "Anonymous-00042");
    let name = Username::from_environment(None).0;
    let number = name.strip_prefix("Anonymous-").unwrap();
    assert_eq!(number.len(), 5);
    assert!(number.parse::<u32>().unwrap() < 100000);
}

fn config() -> Config {
    Config {
        network_url: "localhost:4000".to_string(),
        video_path: b"film\xff.mkv".to_vec(),
        ipc_socket: MpvSocket::from_str("/tmp/s"),
        mpv_command: MpvProcessInvocation::from_str("mpv --fs --mute").unwrap(),
        username: Username::from_str("ada"),
        disable_desktop_notify: false,
        video_hash: "00ff".to_string(),
    }
}

#[test]
fn mpv_is_started_with_its_arguments() {
    assert_eq!(
        config().mpv_arguments(),
        [
            MpvArgument::Text("--fs".to_string()),
            MpvArgument::Text("--mute".to_string()),
            MpvArgument::Text("--keep-open=always".to_string()),
            MpvArgument::Text("--input-ipc-server=/tmp/s".to_string()),
            MpvArgument::Path(b"film\xff.mkv".to_vec()),
        ]
    );
}

#[test]
fn client_introduces_itself() {
    let init = config().client_init();
    assert_eq!(init.video_hash, "00ff");
    assert_eq!(init.name, "ada");
}

#[test]
fn video_is_hashed() {
    assert_eq!(
        calculate_file_hash(b""),
        "e3b0c44298fc1c149afbf4c8996fb92427ae41e4649b934ca495991b7852b855"
    );
    assert_eq!(
        calculate_file_hash(b"abc"),
        "ba7816bf8f01cfea414140de5dae2223b00361a396177a9cb410ff61f20015ad"
    );
}

#[test]
fn digest_is_written_in_hexadecimal() {
    assert_eq!(hash_text(&[0x00, 0x0f, 0xa0, 0xff]), "000fa0ff");
    assert_eq!(hash_text(&[]), "");
    assert_ne!(hash_text(&[0x12, 0x34]), hash_text(&[0x12, 0x43]));
}
