use espcap::error::Error;
use espcap::filter::{FilterEngine, FilterSpec};

#[test]
fn empty_passes_everything() {
    let f = FilterEngine::default();
    assert!(f.is_open());
    assert_eq!(f.to_spec(), FilterSpec::default());
    assert!(f.matches_wifi(&[1, 2, 3, 4, 5, 6], Some("x")));
    assert!(f.matches_ble(&[1, 2, 3, 4, 5, 6], None, None));
}

#[test]
fn oui_mac_regex_company() {
    let spec = FilterSpec {
        oui: vec!["F4:4E:FC".into()],
        mac: vec![],
        name_regex: Some("AirPods.*".into()),
        ssid_regex: Some("^Flock".into()),
        company_id: vec![0x004c],
    };
    let f = FilterEngine::from_spec(&spec).unwrap();
    assert!(!f.is_open());
    assert_eq!(FilterEngine::from_spec(&f.to_spec()).unwrap(), f);
    let apple = [0xf4, 0x4e, 0xfc, 0, 0, 1];
    assert!(f.matches_wifi(&apple, Some("FlockCam")));
    assert!(!f.matches_wifi(&apple, Some("other")));
    assert!(!f.matches_wifi(&[0, 0, 0, 0, 0, 1], Some("Flock")));
    assert!(f.matches_ble(&apple, Some("AirPods Pro"), Some(0x004c)));
    assert!(!f.matches_ble(&apple, Some("Beats"), Some(0x004c)));
    assert!(!f.matches_ble(&apple, Some("AirPods"), Some(1)));
    assert!(!f.matches_ble(&apple, None, Some(0x004c)));
    assert!(!f.matches_ble(&[0, 0, 0, 0, 0, 1], Some("AirPods Pro"), Some(0x004c)));
    let spec = FilterSpec {
        oui: vec![],
        mac: vec!["aa:bb:cc:dd:ee:ff".into()],
        name_regex: None,
        ssid_regex: None,
        company_id: vec![],
    };
    let f = FilterEngine::from_spec(&spec).unwrap();
    assert!(f.matches_wifi(&[0xaa, 0xbb, 0xcc, 0xdd, 0xee, 0xff], None));
    assert!(!f.matches_wifi(&[0xaa, 0xbb, 0xcc, 0, 0, 0], None));
    assert!(f.matches_ble(&[0xaa, 0xbb, 0xcc, 0xdd, 0xee, 0xff], None, None));
    assert!(!f.matches_ble(&[0xaa, 0xbb, 0xcc, 0, 0, 0], None, None));
    assert!(FilterEngine::from_spec(&FilterSpec { oui: vec!["bad".into()], ..Default::default() }).is_err());
    assert!(FilterEngine::from_spec(&FilterSpec { name_regex: Some("(".into()), ..Default::default() }).is_err());
    let a = FilterEngine::from_spec(&spec).unwrap();
    let b = FilterEngine::from_spec(&spec).unwrap();
    assert_eq!(a, b);
    assert_eq!(
        FilterEngine::from_spec(&FilterSpec { name_regex: Some("a".into()), ..Default::default() }).unwrap(),
        FilterEngine::from_spec(&FilterSpec { name_regex: Some("a".into()), ..Default::default() }).unwrap()
    );
    assert_ne!(
        FilterEngine::from_spec(&FilterSpec { ssid_regex: Some("a".into()), ..Default::default() }).unwrap(),
        FilterEngine::from_spec(&FilterSpec { ssid_regex: Some("b".into()), ..Default::default() }).unwrap()
    );
    assert!(FilterEngine::from_spec(&FilterSpec { name_regex: Some("".into()), ..Default::default() })
        .unwrap()
        .name_regex
        .is_none());
    let round = FilterEngine::from_spec(&spec).unwrap();
    assert_eq!(FilterEngine::from_spec(&round.to_spec()).unwrap(), round);
}

#[test]
fn bad_entries_report_the_first_offender() {
    let spec = FilterSpec {
        oui: vec!["F4:4E:FC".into(), "nope".into(), "zz".into()],
        mac: vec!["bad".into()],
        ..Default::default()
    };
    assert_eq!(FilterEngine::from_spec(&spec), Err(Error::Mac("nope".to_string())));
    let spec = FilterSpec { mac: vec!["aa:bb:cc:dd:ee:ff".into(), "12".into()], ..Default::default() };
    assert_eq!(FilterEngine::from_spec(&spec), Err(Error::Mac("12".to_string())));
    let spec = FilterSpec { ssid_regex: Some("[".into()), ..Default::default() };
    assert!(matches!(FilterEngine::from_spec(&spec), Err(Error::Regex(_))));
}

#[test]
fn to_spec_prints_lower_case_colon_hex() {
    let spec = FilterSpec {
        oui: vec!["F44EFC".into()],
        mac: vec!["AA-BB-CC-DD-EE-FF".into()],
        name_regex: None,
        ssid_regex: Some("x".into()),
        company_id: vec![7, 8],
    };
    let back = FilterEngine::from_spec(&spec).unwrap().to_spec();
    assert_eq!(back.oui, vec!["f4:4e:fc".to_string()]);
    assert_eq!(back.mac, vec!["aa:bb:cc:dd:ee:ff".to_string()]);
    assert_eq!(back.ssid_regex.as_deref(), Some("x"));
    assert_eq!(back.company_id, vec![7, 8]);
}

#[test]
fn regex_errors_carry_the_regex_crate_text() {
    let expected = regex_lite::Regex::new("(").unwrap_err().to_string();
    let spec = FilterSpec { name_regex: Some("(".into()), ssid_regex: Some("[".into()), ..Default::default() };
    assert_eq!(FilterEngine::from_spec(&spec), Err(Error::Regex(expected)));
    let expected = regex_lite::Regex::new("[").unwrap_err().to_string();
    let spec = FilterSpec { ssid_regex: Some("[".into()), ..Default::default() };
    assert_eq!(FilterEngine::from_spec(&spec), Err(Error::Regex(expected)));
}
