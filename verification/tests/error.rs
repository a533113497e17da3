use espcap::error::Error;

#[test]
fn config_helper_and_json_from() {
    assert_eq!(Error::config("x"), Error::Config("x".into()));
}

#[test]
fn messages_match_the_error_kind() {
    assert_eq!(Error::Json("eof".into()).message(), "invalid json: eof");
    assert_eq!(Error::UnknownCommand.message(), "unknown command");
    assert_eq!(Error::UnknownEvent.message(), "unknown event");
    assert_eq!(Error::Config("c".into()).message(), "c");
    assert_eq!(Error::Hopmask("0x8000".into()).message(), "invalid hopmask: 0x8000");
    assert_eq!(Error::Regex("r".into()).message(), "invalid regex: r");
    assert_eq!(Error::ShortFrame.message(), "short 802.11 frame");
    assert_eq!(Error::TruncatedFrame.message(), "truncated pcap frame");
    assert_eq!(Error::BadMagic.message(), "bad pcap magic");
}
