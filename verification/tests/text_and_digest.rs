use hostsync::channel::ChannelMessage;
use hostsync::channel::CommandFault;
use hostsync::channel::CommandLog;
use hostsync::digest::ContentHasher;
use hostsync::file_read::LocalRead;
use hostsync::file_read::LocalReadAction;
use hostsync::file_read::SftpRead;
use hostsync::sftp::SftpAction;
use hostsync::text::chars_of;
use hostsync::text::decimal;
use hostsync::text::is_blank_text;

const EMPTY: &str = "a7ffc6f8bf1ed76651c14756a061d662f580ff4de43b49fa82d80a4b80f8434a";
const ABC: &str = "3a985da74fe225b2045c172d6bd390bd855f086e3e9d525b46bfe24511431532";

#[test]
fn digest_of_nothing_is_the_known_one() {
    assert_eq!(ContentHasher::new().finish(), EMPTY);
}

#[test]
fn digest_does_not_depend_on_the_pieces() {
    let mut whole = ContentHasher::new();
    whole.update(b"abc");
    let mut pieces = ContentHasher::new();
    pieces.update(b"a");
    pieces.update(b"");
    pieces.update(b"bc");
    let whole = whole.finish();
    assert_eq!(whole, ABC);
    assert_eq!(whole.len(), 64);
    assert_eq!(pieces.finish(), ABC);
}

#[test]
fn different_content_has_a_different_digest() {
    let mut one = ContentHasher::new();
    one.update(b"abd");
    assert_ne!(one.finish(), ABC);
}

#[test]
fn decimals_are_those_of_std() {
    for n in [0u64, 7, 9, 10, 42, 100, 4096, 1234567890, u64::MAX] {
        assert_eq!(decimal(n), n.to_string());
    }
}

#[test]
fn characters_come_in_order() {
    assert_eq!(chars_of("aé中"), vec!['a', 'é', '中']);
    assert_eq!(chars_of(""), Vec::<char>::new());
}

#[test]
fn blank_texts_are_all_white_space() {
    assert!(is_blank_text(""));
    assert!(is_blank_text(" \t\r\n"));
    assert!(is_blank_text("\u{a0}\u{1680}\u{2003}\u{2028}\u{202f}\u{205f}\u{3000}\u{85}"));
    assert!(!is_blank_text(" x "));
    assert!(!is_blank_text("\u{200b}"));
}

#[test]
fn white_space_is_what_std_takes_it_for() {
    let mut buffer = [0u8; 4];
    for n in 0..=0x10FFFFu32 {
        if let Some(c) = char::from_u32(n) {
            let listed = matches!(
                n,
                0x09..=0x0D
                    | 0x20
                    | 0x85
                    | 0xA0
                    | 0x1680
                    | 0x2000..=0x200A
                    | 0x2028
                    | 0x2029
                    | 0x202F
                    | 0x205F
                    | 0x3000
            );
            assert_eq!(is_blank_text(c.encode_utf8(&mut buffer)), listed, "{n:x}");
        }
    }
}

#[test]
fn error_output_is_decoded_and_trimmed() {
    let mut log = CommandLog::new();
    log.record(&ChannelMessage::ExtendedData {
        data: b" \n caf\xc3\xa9 \xff!\n".to_vec(),
        ext: 1,
    });
    log.record(&ChannelMessage::ExitStatus(3));
    match log.outcome() {
        Err(fault) => {
            assert!(matches!(&fault, CommandFault::Exited { status: 3, stderr }
                if stderr == " \n café \u{fffd}!\n"));
            assert_eq!(
                fault.message("remote command"),
                "remote command exited with status 3: café \u{fffd}!"
            );
        }
        Ok(()) => panic!("status 3 is no success"),
    }
}

#[test]
fn malformed_and_blank_error_output_is_still_told() {
    let cases: [(&[u8], &str); 3] = [
        (b"\xff", "remote command exited with status 1: \u{fffd}"),
        (b"\xe2\x82", "remote command exited with status 1: \u{fffd}"),
        (b" \n", "remote command exited with status 1: "),
    ];
    for (data, message) in cases {
        let mut log = CommandLog::new();
        log.record(&ChannelMessage::ExtendedData { data: data.to_vec(), ext: 1 });
        log.record(&ChannelMessage::ExitStatus(1));
        match log.outcome() {
            Err(fault) => assert_eq!(fault.message("remote command"), message),
            Ok(()) => panic!("status 1 is no success"),
        }
    }
}

#[test]
fn local_reading_goes_from_opening_to_the_end() {
    let mut reading = LocalRead::new("notes.txt");
    assert!(matches!(reading.action(), LocalReadAction::Open(path) if path == "notes.txt"));
    assert_eq!(reading.failure(), Some("failed to open notes.txt".to_string()));
    reading.read(b"too early");
    reading.opened();
    assert!(matches!(reading.action(), LocalReadAction::Read { limit: 65536 }));
    assert_eq!(reading.failure(), None);
    reading.read(b"ab");
    reading.read(b"c");
    reading.read(b"");
    assert!(matches!(reading.action(), LocalReadAction::Complete));
    reading.read(b"too late");
    assert_eq!(reading.conclude(), Some(ABC.to_string()));
}

#[test]
fn remote_reading_over_sftp_closes_the_file() {
    let mut reading = SftpRead::new("/r/f");
    assert!(matches!(reading.action(), SftpAction::CheckExists(path) if path == "/r/f"));
    assert_eq!(reading.failure(), Some("failed checking remote path /r/f".to_string()));
    reading.advance(true);
    assert!(matches!(reading.action(), SftpAction::OpenFile(path) if path == "/r/f"));
    assert_eq!(reading.failure(), Some("failed to open remote file /r/f".to_string()));
    reading.advance(true);
    assert!(matches!(reading.action(), SftpAction::Read { limit: 65536 }));
    assert_eq!(reading.failure(), None);
    reading.read(b"abc");
    reading.read(b"");
    assert!(matches!(reading.action(), SftpAction::Close(path) if path == "/r/f"));
    assert_eq!(reading.failure(), Some("failed closing remote file /r/f".to_string()));
    reading.advance(true);
    assert!(matches!(reading.action(), SftpAction::Complete));
    assert_eq!(reading.conclude(), Some(Some(ABC.to_string())));
}

#[test]
fn remote_file_that_is_not_there_has_no_fingerprint() {
    let mut reading = SftpRead::new("/r/f");
    reading.advance(false);
    assert!(matches!(reading.action(), SftpAction::Complete));
    assert_eq!(reading.conclude(), Some(None));
}

#[test]
fn unfinished_readings_have_no_result() {
    let mut local = LocalRead::new("f");
    local.opened();
    local.read(b"abc");
    assert_eq!(local.conclude(), None);
    assert_eq!(SftpRead::new("f").conclude(), None);
    let mut remote = SftpRead::new("f");
    remote.advance(true);
    remote.advance(true);
    remote.read(b"abc");
    remote.read(b"");
    assert_eq!(remote.conclude(), None);
}
