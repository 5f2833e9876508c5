use accessforge::init::{parse_u32, prompt_text, InitEvent, InitRequest, InitSession, InitStep};

fn ask(step: &InitStep) -> (String, Option<String>) {
    match &step.request {
        InitRequest::Ask { label, default } => (label.clone(), default.clone()),
        _ => panic!("expected a question"),
    }
}

fn answer(s: &mut InitSession, text: &str) -> InitStep {
    s.step(InitEvent::Answer(format!("{text}\n")))
}

#[test]
fn parse_u32_follows_std() {
    for text in ["0", "42", "+7", "4294967295", "4294967296", "", "+", "-1", "12a", " 1", "007"] {
        assert_eq!(parse_u32(text), text.parse::<u32>().ok(), "for {text:?}");
    }
}

#[test]
fn prompt_text_shows_default_in_brackets() {
    assert_eq!(prompt_text("Store (steam/none)", Some("none")), "Store (steam/none) [none]: ");
    assert_eq!(prompt_text("Steam app ID", None), "Steam app ID: ");
}

#[test]
fn init_refuses_existing_manifest() {
    let (_, step) = InitSession::start("/proj".to_string(), "/proj/accessforge.yml".to_string(), true);
    assert!(matches!(step.request, InitRequest::Finished));
    assert_eq!(step.outcome, Some(Err("accessforge.yml already exists in /proj".to_string())));
}

#[test]
fn init_steam_flow_builds_manifest() {
    let (mut s, step) =
        InitSession::start("/proj".to_string(), "/proj/accessforge.yml".to_string(), false);
    assert_eq!(step.lines[0], "Welcome to AccessForge mod setup.");
    assert_eq!(step.lines[1], "This will create an accessforge.yml manifest in /proj.");
    assert_eq!(ask(&step), ("Store (steam/none)".to_string(), Some("none".to_string())));

    let step = answer(&mut s, "epic");
    assert_eq!(step.lines, vec!["Must be 'steam' or 'none'.".to_string()]);
    assert_eq!(ask(&step).0, "Store (steam/none)");

    let step = answer(&mut s, "steam");
    assert_eq!(ask(&step), ("Steam app ID".to_string(), None));
    let step = answer(&mut s, "abc");
    assert_eq!(step.lines, vec!["Must be a number.".to_string()]);
    let step = answer(&mut s, "1790600");
    assert!(matches!(step.request, InitRequest::LookupSteam { app_id: 1790600 }));

    let step = s.step(InitEvent::SteamFound(Ok(Some((
        "DRAGON BALL: Sparking! ZERO".to_string(),
        "C:/Steam/SZ".to_string(),
    )))));
    assert_eq!(step.lines, vec!["Found: DRAGON BALL: Sparking! ZERO at C:/Steam/SZ".to_string()]);
    assert_eq!(ask(&step), ("Is this correct? (yes/no)".to_string(), Some("yes".to_string())));
    let step = answer(&mut s, "");
    assert_eq!(
        ask(&step),
        ("Game name".to_string(), Some("DRAGON BALL: Sparking! ZERO".to_string()))
    );
    let step = answer(&mut s, "");
    assert_eq!(ask(&step).0, "Loader (ue4ss/bepinex/melonloader/none)");
    let step = answer(&mut s, "forge");
    assert_eq!(step.lines, vec!["Must be one of: ue4ss, bepinex, melonloader, none".to_string()]);
    let step = answer(&mut s, "ue4ss");
    assert_eq!(
        ask(&step),
        ("Mod name".to_string(), Some("DRAGON BALL: Sparking! ZERO Access".to_string()))
    );
    let step = answer(&mut s, "Sparking Zero Access");
    assert_eq!(
        ask(&step).1.as_deref(),
        Some("Screen reader accessibility mod for DRAGON BALL: Sparking! ZERO")
    );
    let step = answer(&mut s, "");
    assert!(matches!(step.request, InitRequest::DetectGit));
    let step = s.step(InitEvent::GitDetected {
        remote_url: Some("https://github.com/jessica/sparking-zero-access.git\n".to_string()),
        user_name: Some("  \n".to_string()),
    });
    assert_eq!(step.lines, vec!["Detected git remote.".to_string()]);
    assert_eq!(ask(&step), ("Author".to_string(), Some("jessica".to_string())));
    let step = answer(&mut s, "");
    assert_eq!(
        ask(&step),
        ("Source".to_string(), Some("github:jessica/sparking-zero-access".to_string()))
    );
    let step = answer(&mut s, "");
    let yaml = match &step.request {
        InitRequest::Check { yaml } => yaml.clone(),
        _ => panic!("expected the manifest check"),
    };
    assert_eq!(
        yaml,
        "spec: 1\n\nid: sparking-zero-access\nname: Sparking Zero Access\ndescription: \"Screen reader accessibility mod for DRAGON BALL: Sparking! ZERO\"\nauthor: jessica\nversion: \"0.1.0\"\nsource: github:jessica/sparking-zero-access\n\ngame:\n  name: \"DRAGON BALL: Sparking! ZERO\"\n  store:\n    steam: 1790600\n\nloader:\n  name: ue4ss\n\nrelease:\n  asset: \"sparking-zero-access-{version}.zip\"\n"
    );
    let step = s.step(InitEvent::Checked(Ok(())));
    assert!(matches!(&step.request, InitRequest::Write { yaml: y } if *y == yaml));
    let step = s.step(InitEvent::Written(Ok(())));
    assert_eq!(step.lines[0], "\nCreated: /proj/accessforge.yml");
    assert_eq!(step.outcome, Some(Ok(())));
}

#[test]
fn init_manual_flow_checks_folder() {
    let (mut s, _) = InitSession::start("/p".to_string(), "/p/accessforge.yml".to_string(), false);
    let step = answer(&mut s, "none");
    assert_eq!(ask(&step), ("Game folder path".to_string(), None));
    let step = answer(&mut s, "");
    assert_eq!(step.lines, vec!["Path cannot be empty.".to_string()]);
    let step = answer(&mut s, "/nowhere");
    assert!(matches!(&step.request, InitRequest::CheckDir { path } if path == "/nowhere"));
    let step = s.step(InitEvent::DirChecked { is_dir: false, file_name: None });
    assert_eq!(step.lines, vec!["'/nowhere' is not a valid directory.".to_string()]);
    answer(&mut s, "/games/Hades");
    let step = s.step(InitEvent::DirChecked { is_dir: true, file_name: Some("Hades".to_string()) });
    assert_eq!(ask(&step), ("Game name".to_string(), Some("Hades".to_string())));
}

#[test]
fn init_steam_not_found_and_error_paths() {
    let (mut s, _) = InitSession::start("/p".to_string(), "/p/a.yml".to_string(), false);
    answer(&mut s, "steam");
    answer(&mut s, "5");
    let step = s.step(InitEvent::SteamFound(Ok(None)));
    assert_eq!(step.lines, vec!["Game with app ID 5 not found in Steam. Is it installed?".to_string()]);
    assert_eq!(ask(&step), ("Try another ID? (yes/no)".to_string(), Some("yes".to_string())));
    let step = answer(&mut s, "no");
    assert_eq!(ask(&step), ("Game name".to_string(), None));

    let (mut s, _) = InitSession::start("/p".to_string(), "/p/a.yml".to_string(), false);
    answer(&mut s, "steam");
    answer(&mut s, "6");
    let step = s.step(InitEvent::SteamFound(Err("no steam".to_string())));
    assert_eq!(step.lines, vec!["Could not search Steam: no steam".to_string()]);
    assert_eq!(ask(&step), ("Game name".to_string(), None));
}

#[test]
fn init_warns_on_invalid_manifest_and_reports_write_failure() {
    let (mut s, _) = InitSession::start("/p".to_string(), "/p/a.yml".to_string(), false);
    answer(&mut s, "none");
    answer(&mut s, "/g");
    s.step(InitEvent::DirChecked { is_dir: true, file_name: Some("g".to_string()) });
    answer(&mut s, "");
    answer(&mut s, "none");
    answer(&mut s, "");
    answer(&mut s, "");
    s.step(InitEvent::GitDetected { remote_url: None, user_name: Some("Ann\n".to_string()) });
    let step = answer(&mut s, "");
    assert_eq!(ask(&step), ("Source (github:owner/repo or url:https://...)".to_string(), None));
    let step = answer(&mut s, "github:");
    assert_eq!(step.lines, vec!["source must be 'github:owner/repo', got 'github:'".to_string()]);
    answer(&mut s, "url:https://example.com/m");
    let step = s.step(InitEvent::Checked(Err("bad".to_string())));
    assert_eq!(step.lines[0], "\nWarning: generated manifest has validation errors: bad");
    let step = s.step(InitEvent::Written(Err("disk full".to_string())));
    assert_eq!(step.outcome, Some(Err("disk full".to_string())));
}
