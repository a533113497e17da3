use espcap::error::Error;
use espcap::types::{
    channels_from_hopmask, format_hopmask, freq_mhz, hop_sequence, parse_hopmask, Chip, WifiBand, DEFAULT_HOPMASK,
    FLOCKYOU_2G_CHANNELS,
};

#[test]
fn default_mask_is_1_6_11() {
    assert_eq!(channels_from_hopmask(DEFAULT_HOPMASK).unwrap(), vec![1, 6, 11]);
}

#[test]
fn hopmask_parse_and_high_bits() {
    assert_eq!(parse_hopmask("0x0421").unwrap(), 0x0421);
    assert_eq!(parse_hopmask("0X0421").unwrap(), 0x0421);
    assert_eq!(parse_hopmask("421").unwrap(), 0x0421);
    assert!(parse_hopmask("zz").is_err());
    assert!(channels_from_hopmask(0x8000).is_err());
    assert_eq!(format_hopmask(0x0421), "0x0421");
}

#[test]
fn freq_2g_and_5g() {
    assert_eq!(freq_mhz(1, false), 2412);
    assert_eq!(freq_mhz(6, false), 2437);
    assert_eq!(freq_mhz(11, false), 2462);
    assert_eq!(freq_mhz(14, false), 2484);
    assert_eq!(freq_mhz(36, true), 5180);
    assert_eq!(freq_mhz(149, true), 5745);
}

#[test]
fn hop_2g_only_5g_only_and_interleave() {
    let two = hop_sequence(WifiBand::TwoG, DEFAULT_HOPMASK, &[]).unwrap();
    assert_eq!(two.iter().map(|h| h.channel).collect::<Vec<_>>(), vec![1, 6, 11]);
    assert!(two.iter().all(|h| !h.is_5ghz));
    let five = hop_sequence(WifiBand::FiveG, DEFAULT_HOPMASK, &[]).unwrap();
    assert_eq!(five.iter().map(|h| h.channel).collect::<Vec<_>>(), vec![36, 40, 44, 48]);
    assert!(five.iter().all(|h| h.is_5ghz));
    let both = hop_sequence(WifiBand::Both, DEFAULT_HOPMASK, &[36, 40]).unwrap();
    assert_eq!(
        both.iter().map(|h| (h.channel, h.is_5ghz)).collect::<Vec<_>>(),
        vec![(1, false), (36, true), (6, false), (40, true), (11, false)]
    );
    assert!(hop_sequence(WifiBand::TwoG, 0, &[]).is_err());
    let flock = hop_sequence(WifiBand::TwoG, 0x0421, &[]).unwrap();
    assert_eq!(FLOCKYOU_2G_CHANNELS.len(), 3);
    assert_eq!(flock[0].freq_mhz, 2412);
}

#[test]
fn chip_bands() {
    assert_eq!(Chip::Esp32s3.wifi_bands(), &["2.4"]);
    assert_eq!(Chip::Esp32c5.wifi_bands(), &["2.4", "5"]);
    assert!(!Chip::Esp32s3.supports_5ghz());
    assert!(Chip::Esp32c5.supports_5ghz());
    assert!(WifiBand::Both.uses_2g() && WifiBand::Both.uses_5g());
    assert!(!WifiBand::FiveG.uses_2g());
    assert!(!WifiBand::TwoG.uses_5g());
}

#[test]
fn hopmask_errors_name_the_mask() {
    assert_eq!(channels_from_hopmask(0x8000), Err(Error::Hopmask("0x8000".to_string())));
    assert_eq!(format_hopmask(0x3fff), "0x3fff");
    assert_eq!(channels_from_hopmask(0x3fff).unwrap(), (1..=14).collect::<Vec<u8>>());
    assert_eq!(parse_hopmask("0x10000").is_err(), true);
}

#[test]
fn empty_hop_sequence_is_an_error() {
    assert_eq!(hop_sequence(WifiBand::TwoG, 0, &[]), Err(Error::Config("hop sequence is empty".to_string())));
    let five = hop_sequence(WifiBand::FiveG, 0, &[149]).unwrap();
    assert_eq!(five.len(), 1);
    assert_eq!(five[0].freq_mhz, 5745);
}

#[test]
fn printed_hopmask_parses_back() {
    for m in [0u16, 1, 0x0421, 0x3fff, 0x8000, 0xabcd, 0xffff] {
        assert_eq!(parse_hopmask(&format_hopmask(m)).unwrap(), m);
    }
}
