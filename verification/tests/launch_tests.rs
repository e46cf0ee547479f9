use rebar::config::StartupMode;
use rebar::launch::{
    check_wlan, config_path_arg, current_launch_mode, detached_process_args, is_changed_mode,
    startup_command_line,
};

fn args(list: &[&str]) -> Vec<String> {
    list.iter().map(|s| s.to_string()).collect()
}

#[test]
fn launch_mode_from_arguments() {
    assert_eq!(current_launch_mode(StartupMode::Foreground, &args(&[])), (StartupMode::Foreground, false));
    assert_eq!(
        current_launch_mode(StartupMode::Foreground, &args(&["--background", "--detached-child"])),
        (StartupMode::Background, true)
    );
    assert_eq!(
        current_launch_mode(StartupMode::Background, &args(&["--background", "--foreground"])),
        (StartupMode::Foreground, false)
    );
    // the value after --config is not read as a flag
    assert_eq!(
        current_launch_mode(StartupMode::Foreground, &args(&["--config", "--background"])),
        (StartupMode::Foreground, false)
    );
    assert_eq!(
        current_launch_mode(StartupMode::Foreground, &args(&["x", "--config"])),
        (StartupMode::Foreground, false)
    );
}

#[test]
fn config_path_from_arguments() {
    assert_eq!(config_path_arg(&args(&["--config", "C:\\r.toml"])), Some(String::from("C:\\r.toml")));
    assert_eq!(config_path_arg(&args(&["--background", "--config", "a", "--config", "b"])), Some(String::from("a")));
    assert_eq!(config_path_arg(&args(&["--config"])), None);
    assert_eq!(config_path_arg(&args(&["--background"])), None);
}

#[test]
fn detached_copy_arguments() {
    assert_eq!(
        detached_process_args(
            &args(&["--foreground", "--verbose", "--config", "old.toml", "--detached-child", "x"]),
            "C:\\new.toml"
        ),
        args(&["--verbose", "x", "--config", "C:\\new.toml", "--background", "--detached-child"])
    );
    assert_eq!(
        detached_process_args(&args(&["a", "--config"]), "c.toml"),
        args(&["a", "--config", "c.toml", "--background", "--detached-child"])
    );
}

#[test]
fn startup_commands() {
    assert_eq!(
        startup_command_line("C:\\Apps\\rebar.exe", "C:\\rebar.toml", StartupMode::Background),
        "\"C:\\Apps\\rebar.exe\" --config \"C:\\rebar.toml\" --background"
    );
    assert_eq!(
        startup_command_line("rebar.exe", "r.toml", StartupMode::Foreground),
        "\"rebar.exe\" --config \"r.toml\""
    );
}

#[test]
fn wlan_status_codes() {
    assert_eq!(check_wlan(0, "WLAN client open"), Ok(()));
    assert_eq!(
        check_wlan(1062, "WLAN client open"),
        Err(String::from("WLAN client open failed with code 1062."))
    );
}

#[test]
fn changed_mode_code() {
    assert!(is_changed_mode(0x8001_0106_u32 as i32));
    assert!(!is_changed_mode(0));
    assert!(!is_changed_mode(0x8001_0105_u32 as i32));
}
