use remote_flash::chip::Chip;
use remote_flash::config::resolve::{resolve_chip, ConfigError};

#[test]
fn recognised_target_gives_its_chip() {
    let text = b"[build]\ntarget = \"thumbv6m-none-eabi\"\n";
    let chip = resolve_chip(Some(&text[..]));
    assert_eq!(chip, Ok(Chip::Nrf51822));
    assert_eq!(chip.unwrap().name(), "nRF51822_xxAA");
}

#[test]
fn unreadable_file_is_its_own_error() {
    assert_eq!(resolve_chip(None), Err(ConfigError::Unreadable));
}

#[test]
fn unparseable_content_names_the_first_bad_line() {
    let text = b"# settings\n[build\ntarget = \"thumbv6m-none-eabi\"\n= 4\n";
    assert_eq!(resolve_chip(Some(&text[..])), Err(ConfigError::Unparseable { line: 2 }));
}

#[test]
fn missing_build_section() {
    let text = b"[unstable]\nbuild-std = 'core'\n";
    assert_eq!(resolve_chip(Some(&text[..])), Err(ConfigError::MissingBuildSection));
    assert_eq!(resolve_chip(Some(&b""[..])), Err(ConfigError::MissingBuildSection));
}

#[test]
fn missing_target_field() {
    let text = b"[build]\njobs = 4\n[other]\ntarget = \"thumbv6m-none-eabi\"\n";
    assert_eq!(resolve_chip(Some(&text[..])), Err(ConfigError::MissingTarget));
}

#[test]
fn target_that_is_not_a_text() {
    let text = b"[build]\ntarget = 51822\n";
    assert_eq!(resolve_chip(Some(&text[..])), Err(ConfigError::TargetNotText));
    let text = b"[build]\ntarget = true\n";
    assert_eq!(resolve_chip(Some(&text[..])), Err(ConfigError::TargetNotText));
    let text = b"[build]\ntarget = [\n  \"thumbv6m-none-eabi\",\n]\n";
    assert_eq!(resolve_chip(Some(&text[..])), Err(ConfigError::TargetNotText));
}

#[test]
fn unrecognised_target() {
    let text = b"[build]\ntarget = \"thumbv7em-none-eabihf\"\n";
    assert_eq!(resolve_chip(Some(&text[..])), Err(ConfigError::UnknownTarget));
}

#[test]
fn configuration_as_build_tools_write_it() {
    let text = b"[target.'cfg(all(target_arch = \"arm\", target_os = \"none\"))']\nrunner = \"probe-run --chip nRF51822_xxAA\"\nrustflags = [\n  \"-C\", \"link-arg=-Tlink.x\",\n]\n\n[build]\ntarget = \"thumbv6m-none-eabi\" # the micro:bit\n";
    assert_eq!(resolve_chip(Some(&text[..])), Ok(Chip::Nrf51822));
}

#[test]
fn list_left_open_is_unparseable() {
    let text = b"[build]\ntarget = \"thumbv6m-none-eabi\"\nrustflags = [\n  \"-C\",\n";
    assert_eq!(resolve_chip(Some(&text[..])), Err(ConfigError::Unparseable { line: 5 }));
}

#[test]
fn target_under_a_dotted_key() {
    let text = b"build.target = \"thumbv6m-none-eabi\"\n";
    assert_eq!(resolve_chip(Some(&text[..])), Ok(Chip::Nrf51822));
    let text = b"[build.env]\nx = 1\n";
    assert_eq!(resolve_chip(Some(&text[..])), Err(ConfigError::MissingTarget));
}
