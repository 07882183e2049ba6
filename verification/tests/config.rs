use open_rc2k::config::ral_cfg::{parse_ral_cfg_entries, CfgOutcome, RalCfgProperties};

fn outcomes(text: &str, properties: &mut RalCfgProperties) -> Vec<CfgOutcome> {
    parse_ral_cfg_entries(text, properties).iter().map(|e| e.outcome).collect()
}

#[test]
fn new_properties_are_zero() {
    let p = RalCfgProperties::new();
    assert_eq!(p.no_task_switch, 0);
    assert_eq!(p.log_file, 0);
    assert_eq!(p.sparks_mode, 0);
    assert_eq!(format!("{:?}", p), format!("{:?}", RalCfgProperties::default()));
}

#[test]
fn set_property_sets_the_named_setting_only() {
    let mut p = RalCfgProperties::new();
    p.set_property("logfile", 3);
    assert_eq!(p.log_file, 3);
    assert_eq!(p.no_fmv, 0);
    assert_eq!(p.key, 0);
    p.set_property("sparksmode", -7);
    assert_eq!(p.sparks_mode, -7);
    assert_eq!(p.log_file, 3);
}

#[test]
fn set_property_unknown_key_changes_nothing() {
    let mut p = RalCfgProperties::new();
    p.set_property("logfile", 1);
    let before = format!("{:?}", p);
    p.set_property("LogFile", 9);
    p.set_property("", 9);
    p.set_property("logfile ", 9);
    assert_eq!(format!("{:?}", p), before);
}

#[test]
fn set_property_last_value_wins_and_is_idempotent() {
    let mut p = RalCfgProperties::new();
    p.set_property("joymode", 1);
    p.set_property("joymode", 2);
    assert_eq!(p.joy_mode, 2);
    let mut q = RalCfgProperties::new();
    q.set_property("joymode", 2);
    q.set_property("joymode", 2);
    assert_eq!(format!("{:?}", p), format!("{:?}", q));
}

#[test]
fn set_property_different_settings_commute() {
    let mut p = RalCfgProperties::new();
    p.set_property("nojoy", 1);
    p.set_property("nomusic", 2);
    let mut q = RalCfgProperties::new();
    q.set_property("nomusic", 2);
    q.set_property("nojoy", 1);
    assert_eq!(format!("{:?}", p), format!("{:?}", q));
}

#[test]
fn get_address_known_keys() {
    assert_eq!(RalCfgProperties::get_address("notaskswitch"), Ok(0x518384));
    assert_eq!(RalCfgProperties::get_address("logfile"), Ok(0x4E0098));
    assert_eq!(RalCfgProperties::get_address("sparksmode"), Ok(0x7558DC));
    assert_eq!(RalCfgProperties::get_address("noaudio"), Ok(0x4F82B4));
    assert_eq!(RalCfgProperties::get_address("nosound"), Ok(0x4F82B4));
    assert_eq!(RalCfgProperties::get_address("allsecretcars"), Ok(0x758710));
    assert_eq!(RalCfgProperties::get_address("secretcar"), Ok(0x758710));
}

#[test]
fn get_address_unknown_keys() {
    assert_eq!(RalCfgProperties::get_address(""), Err(()));
    assert_eq!(RalCfgProperties::get_address("LOGFILE"), Err(()));
    assert_eq!(RalCfgProperties::get_address("logfile "), Err(()));
}

#[test]
fn amd_key_is_spelled_differently_in_the_two_tables() {
    assert_eq!(RalCfgProperties::get_address("ignoreamd3d"), Err(()));
    assert_eq!(RalCfgProperties::get_address("ignoreamdk3d"), Ok(0x5183BC));
    let mut p = RalCfgProperties::new();
    p.set_property("ignoreamdk3d", 4);
    assert_eq!(p.ignore_amd_k3d, 0);
    p.set_property("ignoreamd3d", 5);
    assert_eq!(p.ignore_amd_k3d, 5);
}

#[test]
fn parse_ral_cfg_mixed_file() {
    let text = "logfile=3\r\nnojoy = 1\nkey=0x1F\ninetport=+80\nbadline\nfoo=5\nsparksmode=abc\n  agpmode=-2  \n\nlexcontrol=0x0x10";
    let mut p = RalCfgProperties::new();
    let entries = parse_ral_cfg_entries(text, &mut p);
    let lines: Vec<String> = entries.iter().map(|e| e.line.clone()).collect();
    assert_eq!(
        lines,
        vec![
            "logfile=3",
            "nojoy = 1",
            "key=0x1F",
            "inetport=+80",
            "badline",
            "foo=5",
            "sparksmode=abc",
            "  agpmode=-2  ",
            "",
            "lexcontrol=0x0x10"
        ]
    );
    let got: Vec<CfgOutcome> = entries.iter().map(|e| e.outcome).collect();
    assert_eq!(
        got,
        vec![
            CfgOutcome::Applied { address: 0x4E0098, value: 3 },
            CfgOutcome::InvalidValue,
            CfgOutcome::Applied { address: 0x4E052C, value: 31 },
            CfgOutcome::Applied { address: 0x52AC24, value: 80 },
            CfgOutcome::Malformed,
            CfgOutcome::UnknownKey,
            CfgOutcome::Applied { address: 0x7558DC, value: 2748 },
            CfgOutcome::Applied { address: 0x5AB95C, value: -2 },
            CfgOutcome::Malformed,
            CfgOutcome::Applied { address: 0x4E0758, value: 16 },
        ]
    );
    assert_eq!(p.log_file, 3);
    assert_eq!(p.no_joy, 0);
    assert_eq!(p.key, 31);
    assert_eq!(p.inet_port, 80);
    assert_eq!(p.sparks_mode, 2748);
    assert_eq!(p.agp_mode, -2);
    assert_eq!(p.lex_control, 16);
}

#[test]
fn parse_ral_cfg_value_limits() {
    let mut p = RalCfgProperties::new();
    assert_eq!(outcomes("logfile=2147483648", &mut p), vec![CfgOutcome::InvalidValue]);
    assert_eq!(
        outcomes("logfile=-2147483648", &mut p),
        vec![CfgOutcome::Applied { address: 0x4E0098, value: i32::MIN }]
    );
    assert_eq!(
        outcomes("logfile=7FFFFFFF", &mut p),
        vec![CfgOutcome::Applied { address: 0x4E0098, value: i32::MAX }]
    );
    assert_eq!(
        outcomes("logfile=80000000", &mut p),
        vec![CfgOutcome::Applied { address: 0x4E0098, value: 80000000 }]
    );
    assert_eq!(outcomes("logfile=", &mut p), vec![CfgOutcome::InvalidValue]);
    assert_eq!(outcomes("logfile=+", &mut p), vec![CfgOutcome::InvalidValue]);
    assert_eq!(outcomes("logfile==5", &mut p), vec![CfgOutcome::InvalidValue]);
    assert_eq!(outcomes("=5", &mut p), vec![CfgOutcome::UnknownKey]);
    assert_eq!(
        outcomes("logfile=-0x10", &mut p),
        vec![CfgOutcome::InvalidValue]
    );
    assert_eq!(p.log_file, 80000000);
}

#[test]
fn parse_ral_cfg_line_splitting() {
    let mut p = RalCfgProperties::new();
    assert!(parse_ral_cfg_entries("", &mut p).is_empty());
    let one = parse_ral_cfg_entries("\n", &mut p);
    assert_eq!(one.len(), 1);
    assert_eq!(one[0].line, "");
    assert_eq!(one[0].outcome, CfgOutcome::Malformed);
    let last_cr = parse_ral_cfg_entries("a=1\nlogfile=2\r", &mut p);
    assert_eq!(last_cr.len(), 2);
    assert_eq!(last_cr[1].line, "logfile=2\r");
    assert_eq!(last_cr[1].outcome, CfgOutcome::Applied { address: 0x4E0098, value: 2 });
    assert_eq!(p.log_file, 2);
}

#[test]
fn parse_ral_cfg_later_lines_win() {
    let mut p = RalCfgProperties::new();
    parse_ral_cfg_entries("nofmv=1\nnofmv=0x2\nnofmv=x", &mut p);
    assert_eq!(p.no_fmv, 2);
}

#[test]
fn parse_ral_cfg_unicode_whitespace_is_trimmed() {
    let mut p = RalCfgProperties::new();
    let entries = parse_ral_cfg_entries("\u{3000}\tnojoy=4\u{a0}", &mut p);
    assert_eq!(entries[0].outcome, CfgOutcome::Applied { address: 0x4F68DC, value: 4 });
    assert_eq!(p.no_joy, 4);
}

#[test]
fn parse_ral_cfg_amd_key_writes_memory_only() {
    let mut p = RalCfgProperties::new();
    let got = outcomes("ignoreamdk3d=1\nignoreamd3d=2", &mut p);
    assert_eq!(
        got,
        vec![CfgOutcome::Applied { address: 0x5183BC, value: 1 }, CfgOutcome::UnknownKey]
    );
    assert_eq!(p.ignore_amd_k3d, 0);
}

#[test]
fn address_keys_share_only_the_aliases() {
    let keys = [
        "notaskswitch", "noprichange", "ignoremmx", "ignorekatmai", "ignoreamdk3d",
        "altmemenable", "altmemheapsize", "noaudio", "nosound", "nocdaudio", "nomusic",
        "audiobasefreq", "ignoreds3d", "ignoredsv", "ignoreeax", "ignorea3d", "wavheapsize",
        "bundleheapsize", "imageheapsize", "gamegfxheapsize", "forcedx5", "forceno3dcard",
        "ignoreprimary", "ignoresecondary", "agpmode", "force3dtrans", "force3dalpha",
        "force3dshadow", "force3dfogging", "textflashmode", "videomodemain", "videomodegame",
        "v3driverfix", "nopngdecode", "nojoy", "joymode", "joycode", "joylowerdz",
        "joyupperdz", "noforcefeedback", "joyffgain", "mergejoy", "nonetwork", "inetport",
        "screensnapshot", "framecounter", "noreplay", "replaykeys", "logfile", "nofmv", "key",
        "allsecretcars", "secretcar", "usesavegamekeys", "sensiblesaving", "noprecipitation",
        "seasoncode", "noautoneutral", "nonlinearsteering", "wrreplayenable", "wrreplayrate",
        "alt2axcode", "fizpatch", "patchmaxdrawdistance", "patchstickygrass", "patchgravity",
        "patchdamages", "patchbrakegrip", "patchaccelgrip", "patchslidegrip", "patchgripgrass",
        "patchgriptarmac", "patchgripsnow", "patchgripmud", "patchgripgravel", "lexcontrol",
        "sparksmode",
    ];
    assert_eq!(keys.len(), 77);
    let mut shared = Vec::new();
    for (i, a) in keys.iter().enumerate() {
        for b in keys.iter().skip(i + 1) {
            let x = RalCfgProperties::get_address(a).unwrap();
            let y = RalCfgProperties::get_address(b).unwrap();
            if x == y {
                shared.push((*a, *b));
            }
        }
    }
    assert_eq!(shared, vec![("noaudio", "nosound"), ("allsecretcars", "secretcar")]);
}
