use banshee::config::schema::{Config, FontSize, Profile, ProfileType};
use banshee::layout::profile::{builtin_profiles, copy_profile, ProfileSet};
use banshee::layout::session::{
    vt_failure_message, wsl_distro_from_args, ExitStep, Session, SessionOptions, SessionPlan,
};
use banshee::sorted::SortedMap;
use banshee::term::terminal::TermError;

fn points(size: f32) -> FontSize {
    FontSize {
        bits: size.to_bits(),
    }
}

fn windows_profile(name: &str, command: &str) -> Profile {
    Profile {
        name: name.to_string(),
        command: command.to_string(),
        args: Vec::new(),
        cwd: None,
        env: SortedMap::new(),
        profile_type: ProfileType::Windows,
        icon: None,
        color: None,
        font_size: None,
        theme: None,
        default: false,
    }
}

fn wsl_profile() -> Profile {
    Profile {
        args: vec!["-d".to_string(), "Ubuntu".to_string()],
        profile_type: ProfileType::Wsl,
        ..windows_profile("Ubuntu", "wsl.exe")
    }
}

fn names(set: &ProfileSet) -> Vec<&str> {
    set.profiles().iter().map(|p| p.name.as_str()).collect()
}

#[test]
fn builtins_always_present_with_empty_config() {
    let config = Config::default();
    let set = ProfileSet::resolve(&config, &[]);
    assert_eq!(names(&set), vec!["pwsh", "Windows PowerShell", "cmd"]);
}

#[test]
fn user_profile_with_new_name_is_appended() {
    let mut config = Config::default();
    config.profiles.push(windows_profile("Custom", "custom.exe"));
    let set = ProfileSet::resolve(&config, &[]);
    assert_eq!(
        names(&set),
        vec!["pwsh", "Windows PowerShell", "cmd", "Custom"]
    );
}

#[test]
fn user_profile_overrides_builtin_by_name_in_place() {
    let mut config = Config::default();
    let mut overriding = windows_profile("pwsh", "pwsh-custom.exe");
    overriding.args = vec!["-Custom".to_string()];
    config.profiles.push(overriding);

    let set = ProfileSet::resolve(&config, &[]);
    assert_eq!(names(&set), vec!["pwsh", "Windows PowerShell", "cmd"]);
    assert_eq!(set.profiles()[0].command, "pwsh-custom.exe");
    assert_eq!(set.profiles()[0].args, vec!["-Custom".to_string()]);
}

#[test]
fn user_override_does_not_inherit_unspecified_builtin_fields() {
    let mut config = Config::default();
    let overriding = windows_profile("pwsh", "pwsh-custom.exe");
    config.profiles.push(overriding);

    let set = ProfileSet::resolve(&config, &[]);
    let pwsh = &set.profiles()[0];
    assert_eq!(pwsh.command, "pwsh-custom.exe");
    assert!(
        pwsh.args.is_empty(),
        "expected whole-profile replacement to drop builtin args"
    );
}

#[test]
fn extra_sources_come_between_builtins_and_user_profiles() {
    let mut config = Config::default();
    config.profiles.push(windows_profile("PureUser", "user.exe"));
    let extra = vec![windows_profile("Ubuntu (WSL)", "wsl.exe")];

    let set = ProfileSet::resolve(&config, &extra);
    assert_eq!(
        names(&set),
        vec!["pwsh", "Windows PowerShell", "cmd", "Ubuntu (WSL)", "PureUser"]
    );
}

#[test]
fn user_profile_overrides_extra_source_by_name() {
    let mut config = Config::default();
    let mut overriding = windows_profile("Ubuntu (WSL)", "wsl-override.exe");
    overriding.profile_type = ProfileType::Wsl;
    config.profiles.push(overriding);
    let extra = vec![windows_profile("Ubuntu (WSL)", "wsl.exe")];

    let set = ProfileSet::resolve(&config, &extra);
    assert_eq!(
        names(&set),
        vec!["pwsh", "Windows PowerShell", "cmd", "Ubuntu (WSL)"]
    );
    assert_eq!(set.profiles()[3].command, "wsl-override.exe");
    assert_eq!(set.profiles()[3].profile_type, ProfileType::Wsl);
}

#[test]
fn default_profile_falls_back_to_first_builtin() {
    let config = Config::default();
    let set = ProfileSet::resolve(&config, &[]);
    assert_eq!(set.default_profile().name, "pwsh");
}

#[test]
fn default_profile_uses_user_marked_flag() {
    let mut config = Config::default();
    let mut marked = windows_profile("Custom Default", "custom.exe");
    marked.default = true;
    config.profiles.push(marked);

    let set = ProfileSet::resolve(&config, &[]);
    assert_eq!(set.default_profile().name, "Custom Default");
}

#[test]
fn default_profile_picks_first_marked_when_multiple() {
    let mut config = Config::default();
    let mut first = windows_profile("First Default", "first.exe");
    first.default = true;
    let mut second = windows_profile("Second Default", "second.exe");
    second.default = true;
    config.profiles.push(first);
    config.profiles.push(second);

    let set = ProfileSet::resolve(&config, &[]);
    assert_eq!(set.default_profile().name, "First Default");
}

#[test]
fn font_size_falls_back_to_global_config() {
    let config = Config {
        font_size: points(15.0),
        ..Config::default()
    };
    let set = ProfileSet::resolve(&config, &[]);
    assert_eq!(set.default_profile().font_size, points(15.0));
}

#[test]
fn font_size_override_takes_precedence() {
    let mut config = Config {
        font_size: points(15.0),
        ..Config::default()
    };
    let mut overriding = windows_profile("pwsh", "pwsh.exe");
    overriding.font_size = Some(points(20.0));
    config.profiles.push(overriding);

    let set = ProfileSet::resolve(&config, &[]);
    assert_eq!(set.profiles()[0].font_size, points(20.0));
}

#[test]
fn windows_launch_spec_uses_cwd_directly() {
    let mut config = Config::default();
    let mut p = windows_profile("Custom", "custom.exe");
    p.args = vec!["-a".to_string()];
    p.cwd = Some("C:\\work".to_string());
    p.env.insert("FOO".to_string(), "bar".to_string());
    config.profiles.push(p);

    let set = ProfileSet::resolve(&config, &[]);
    let resolved = set.profiles().iter().find(|p| p.name == "Custom").unwrap();
    let spec = resolved.launch_spec();

    assert_eq!(spec.command, "custom.exe");
    assert_eq!(spec.args, vec!["-a".to_string()]);
    assert_eq!(spec.cwd, Some("C:\\work".to_string()));
    assert_eq!(spec.env, vec![("FOO".to_string(), "bar".to_string())]);
}

#[test]
fn wsl_launch_spec_composes_cd_flag() {
    let mut config = Config::default();
    let mut p = windows_profile("Ubuntu", "wsl.exe");
    p.profile_type = ProfileType::Wsl;
    p.args = vec!["-d".to_string(), "Ubuntu".to_string()];
    p.cwd = Some("/home/user".to_string());
    config.profiles.push(p);

    let set = ProfileSet::resolve(&config, &[]);
    let resolved = set.profiles().iter().find(|p| p.name == "Ubuntu").unwrap();
    let spec = resolved.launch_spec();

    assert_eq!(spec.command, "wsl.exe");
    assert_eq!(
        spec.args,
        vec![
            "-d".to_string(),
            "Ubuntu".to_string(),
            "--cd".to_string(),
            "/home/user".to_string()
        ]
    );
    // The directory is expressed by the flag, not by the process's own.
    assert_eq!(spec.cwd, None);
}

#[test]
fn wsl_launch_spec_without_cwd_has_no_cd_flag() {
    let mut config = Config::default();
    let mut p = windows_profile("Ubuntu", "wsl.exe");
    p.profile_type = ProfileType::Wsl;
    p.args = vec!["-d".to_string(), "Ubuntu".to_string()];
    config.profiles.push(p);

    let set = ProfileSet::resolve(&config, &[]);
    let resolved = set.profiles().iter().find(|p| p.name == "Ubuntu").unwrap();
    let spec = resolved.launch_spec();

    assert_eq!(spec.args, vec!["-d".to_string(), "Ubuntu".to_string()]);
    assert_eq!(spec.cwd, None);
}

#[test]
fn cd_flag_stands_behind_the_distribution() {
    let mut p = wsl_profile();
    p.args.push("--".to_string());
    p.args.push("bash".to_string());
    p.cwd = Some("/srv".to_string());
    let mut config = Config::default();
    config.profiles.push(p);
    let set = ProfileSet::resolve(&config, &[]);
    let spec = set.profiles()[3].launch_spec();
    assert_eq!(
        spec.args,
        vec!["-d", "Ubuntu", "--cd", "/srv", "--", "bash"]
    );
    assert_eq!(wsl_distro_from_args(&spec.args), Some("Ubuntu".to_string()));
}

#[test]
fn env_merge_uses_profile_env_as_is() {
    let mut config = Config::default();
    let mut p = windows_profile("Custom", "custom.exe");
    p.env.insert("A".to_string(), "1".to_string());
    p.env.insert("B".to_string(), "2".to_string());
    config.profiles.push(p);

    let set = ProfileSet::resolve(&config, &[]);
    let resolved = set.profiles().iter().find(|p| p.name == "Custom").unwrap();
    let spec = resolved.launch_spec();

    assert_eq!(
        spec.env,
        vec![
            ("A".to_string(), "1".to_string()),
            ("B".to_string(), "2".to_string())
        ]
    );
}

#[test]
fn wsl_distro_extracted_from_launch_args() {
    assert_eq!(
        wsl_distro_from_args(&vec![
            "-d".to_string(),
            "Ubuntu".to_string(),
            "--cd".to_string(),
            "/home".to_string()
        ]),
        Some("Ubuntu".to_string())
    );
    assert_eq!(wsl_distro_from_args(&vec!["-d".to_string()]), None);
    assert_eq!(wsl_distro_from_args(&vec!["pwsh".to_string()]), None);
}

#[test]
fn e3_open_snapshots_resolved_profile_not_live_config() {
    let mut config = Config::default();
    config.profiles.push(wsl_profile());
    let set = ProfileSet::resolve(&config, &[]);
    let captured = set
        .profiles()
        .iter()
        .find(|p| p.name == "Ubuntu")
        .unwrap()
        .clone();

    let mut config2 = Config::default();
    let mut changed = wsl_profile();
    changed.command = "wsl-DIFFERENT.exe".to_string();
    config2.profiles.push(changed);
    let set2 = ProfileSet::resolve(&config2, &[]);
    let reloaded = set2.profiles().iter().find(|p| p.name == "Ubuntu").unwrap();

    assert_eq!(captured.command, "wsl.exe");
    assert_eq!(reloaded.command, "wsl-DIFFERENT.exe");
    assert_ne!(captured.command, reloaded.command);
}

#[test]
fn wsl_launch_spec_produces_wsl_distro() {
    let mut config = Config::default();
    config.profiles.push(wsl_profile());
    let set = ProfileSet::resolve(&config, &[]);
    let p = set.profiles().iter().find(|p| p.name == "Ubuntu").unwrap();
    let launch = p.launch_spec();
    assert_eq!(
        wsl_distro_from_args(&launch.args),
        Some("Ubuntu".to_string())
    );
}

#[test]
fn resolve_with_wsl_shaped_api_degrades_cleanly_when_discovery_empty() {
    // Discovery found no distribution: only the Windows builtins remain.
    let config = Config::default();
    let extra: Vec<Profile> = Vec::new();
    let set = ProfileSet::resolve(&config, &extra);
    assert_eq!(names(&set), vec!["pwsh", "Windows PowerShell", "cmd"]);
}

#[test]
fn profile_names_are_distinct() {
    let mut config = Config::default();
    config.profiles.push(windows_profile("A", "a1.exe"));
    config.profiles.push(windows_profile("A", "a2.exe"));
    let set = ProfileSet::resolve(&config, &[windows_profile("cmd", "other.exe")]);
    assert_eq!(names(&set), vec!["pwsh", "Windows PowerShell", "cmd", "A"]);
    assert_eq!(set.profiles()[2].command, "other.exe");
    assert_eq!(set.profiles()[3].command, "a2.exe");
}

#[test]
fn builtin_commands() {
    let commands: Vec<String> = builtin_profiles().into_iter().map(|p| p.command).collect();
    assert_eq!(commands, vec!["pwsh.exe", "powershell.exe", "cmd.exe"]);
    assert_eq!(builtin_profiles()[0].args, vec!["-NoLogo"]);
}

#[test]
fn profiles_are_copied_whole() {
    let mut p = wsl_profile();
    p.cwd = Some("/".to_string());
    p.font_size = Some(points(9.0));
    p.env.insert("K".to_string(), "V".to_string());
    assert_eq!(copy_profile(&p), p);
}

// ---- sessions -------------------------------------------------------------------

#[test]
fn session_plan_carries_the_profile() {
    let mut config = Config::default();
    config.profiles.push(wsl_profile());
    let set = ProfileSet::resolve(&config, &[]);
    let plan = SessionPlan::open_with_options(
        &set.profiles()[3],
        100,
        30,
        SessionOptions {
            scrollback_limit: 77,
        },
    );
    assert_eq!(plan.profile_name, "Ubuntu");
    assert_eq!(plan.wsl_distro.as_deref(), Some("Ubuntu"));
    assert_eq!((plan.cols, plan.rows), (100, 30));
    assert_eq!(plan.vt.max_scrollback, 77);
    let plain = SessionPlan::open(&set.profiles()[0], 80, 24);
    assert_eq!(plain.wsl_distro, None);
    assert_eq!(plain.vt.max_scrollback, 12_000_000);
    assert_eq!(SessionOptions::default().scrollback_limit, 12_000_000);
}

#[test]
fn session_reports_its_exit_once() {
    let mut config = Config::default();
    config.profiles.push(wsl_profile());
    let set = ProfileSet::resolve(&config, &[]);
    let plan = SessionPlan::open(&set.profiles()[3], 80, 24);
    let mut session: Session<u32> = Session::started(&plan, "wsl.exe -d Ubuntu".to_string());
    assert_eq!(session.profile_name(), "Ubuntu");
    assert_eq!(session.command_line(), "wsl.exe -d Ubuntu");
    assert_eq!(session.exit_step(), ExitStep::AskWsl("Ubuntu".to_string()));
    assert_eq!(session.try_exit_report(None), None);
    assert_eq!(session.try_exit_report(Some(7)), Some(&7));
    assert_eq!(session.exit_step(), ExitStep::Reported);
    assert_eq!(session.try_exit_report(Some(8)), Some(&7));
    let plain: Session<u32> =
        Session::started(&SessionPlan::open(&set.profiles()[0], 80, 24), String::new());
    assert_eq!(plain.exit_step(), ExitStep::Ask);
}

#[test]
fn session_remembers_its_directory() {
    let set = ProfileSet::resolve(&Config::default(), &[]);
    let plan = SessionPlan::open(set.default_profile(), 80, 24);
    let mut session: Session<()> = Session::started(&plan, String::new());
    assert_eq!(session.cwd(), None);
    session.tick(Some("/tmp".to_string()));
    session.tick(None);
    assert_eq!(session.cwd().map(String::as_str), Some("/tmp"));
}

#[test]
fn vt_failures_are_described() {
    assert_eq!(
        vt_failure_message(TermError::Ffi(-1)),
        format!("vt construction failed: {}", TermError::Ffi(-1).to_string())
    );
    assert!(vt_failure_message(TermError::Ffi(-1)).contains("-1"));
    assert_ne!(
        vt_failure_message(TermError::NullHandle),
        "vt construction failed: "
    );
}
