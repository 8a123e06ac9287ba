use microfetch::colors::print_dots;
use microfetch::desktop::get_desktop_info;
use microfetch::release::{get_os_pretty_name, get_system_info};
use microfetch::system::{get_shell, get_username_and_hostname};

#[test]
fn shell_takes_last_path_segment() {
    assert_eq!(get_shell(Some("/usr/bin/fish")), "fish");
    assert_eq!(get_shell(Some("/bin/bash")), "bash");
}

#[test]
fn shell_unset_falls_back() {
    assert_eq!(get_shell(None), "unknown_shell");
}

#[test]
fn shell_without_slash_is_whole_value() {
    assert_eq!(get_shell(Some("zsh")), "zsh");
}

#[test]
fn shell_with_trailing_slash_is_empty() {
    assert_eq!(get_shell(Some("/usr/bin/")), "");
}

#[test]
fn desktop_strips_none_prefix() {
    assert_eq!(get_desktop_info(Some("none+GNOME"), Some("wayland")), "GNOME (wayland)");
}

#[test]
fn desktop_strips_exactly_one_none_prefix() {
    assert_eq!(get_desktop_info(Some("none+none+KDE"), Some("x11")), "none+KDE (x11)");
}

#[test]
fn desktop_both_unset() {
    assert_eq!(get_desktop_info(None, None), "Unknown (Unknown)");
}

#[test]
fn desktop_empty_values_fall_back() {
    assert_eq!(get_desktop_info(Some(""), Some("")), "Unknown (Unknown)");
    assert_eq!(get_desktop_info(Some("none+"), Some("tty")), "Unknown (tty)");
}

#[test]
fn desktop_plain_value_kept() {
    assert_eq!(get_desktop_info(Some("Hyprland"), Some("wayland")), "Hyprland (wayland)");
}

#[test]
fn pretty_name_parses_quoted_value() {
    let content = "NAME=\"Ubuntu\"\nPRETTY_NAME=\"Ubuntu 22.04.3 LTS\"\nID=ubuntu\n";
    assert_eq!(get_os_pretty_name(Some(content)), "Ubuntu 22.04.3 LTS");
}

#[test]
fn pretty_name_unquoted_value_kept() {
    let content = "PRETTY_NAME=NixOS 24.05 (Uakari)\n";
    assert_eq!(get_os_pretty_name(Some(content)), "NixOS 24.05 (Uakari)");
}

#[test]
fn pretty_name_missing_key_falls_back() {
    let content = "NAME=\"Ubuntu\"\nID=ubuntu\n";
    assert_eq!(get_os_pretty_name(Some(content)), "Unknown");
}

#[test]
fn pretty_name_missing_file_falls_back() {
    assert_eq!(get_os_pretty_name(None), "Unknown");
}

#[test]
fn pretty_name_tolerates_crlf_line_endings() {
    let content = "NAME=\"Ubuntu\"\r\nPRETTY_NAME=\"Ubuntu 22.04.3 LTS\"\r\nID=ubuntu\r\n";
    assert_eq!(get_os_pretty_name(Some(content)), "Ubuntu 22.04.3 LTS");
}

#[test]
fn pretty_name_first_matching_line_wins() {
    let content = "PRETTY_NAME=\"First\"\nPRETTY_NAME=\"Second\"\n";
    assert_eq!(get_os_pretty_name(Some(content)), "First");
}

#[test]
fn identity_composes_user_and_host() {
    assert_eq!(get_username_and_hostname(Some("alice"), "worklaptop"), "alice@worklaptop");
}

#[test]
fn identity_unset_or_empty_user_falls_back() {
    assert_eq!(get_username_and_hostname(None, "host"), "unknown_user@host");
    assert_eq!(get_username_and_hostname(Some(""), "host"), "unknown_user@host");
}

#[test]
fn system_info_linux_with_arch_file() {
    let r = get_system_info(true, false, "6.6.32\n", Some(" x86_64\n"), None);
    assert_eq!(r, "Linux 6.6.32 (x86_64)");
}

#[test]
fn system_info_bsd_marker() {
    let r = get_system_info(false, true, "14.0-RELEASE", None, None);
    assert_eq!(r, "BSD 14.0-RELEASE (unknown)");
}

#[test]
fn system_info_no_marker_is_unknown_family() {
    let r = get_system_info(false, false, "5.10.0", None, None);
    assert_eq!(r, "Unknown 5.10.0 (unknown)");
}

#[test]
fn system_info_arch_from_cpu_flags_long_mode() {
    let flags = "flags\t\t: fpu vme de pse tsc msr pae mce cx8 lm constant_tsc\n";
    let r = get_system_info(true, false, "6.1.0", None, Some(flags));
    assert_eq!(r, "Linux 6.1.0 (x86_64)");
}

#[test]
fn system_info_arch_without_long_mode_is_unknown() {
    let flags = "flags\t\t: fpu vme de pse tsc msr pae mce cx8 palm\n";
    let r = get_system_info(true, false, "6.1.0", None, Some(flags));
    assert_eq!(r, "Linux 6.1.0 (unknown)");
}

#[test]
fn colors_strip_is_exact() {
    assert_eq!(
        print_dots(),
        "\u{1b}[34m\u{f111}  \u{1b}[36m\u{f111}  \u{1b}[32m\u{f111}  \u{1b}[33m\u{f111}  \u{1b}[31m\u{f111}  \u{1b}[35m\u{f111}  \u{1b}[0m"
    );
}
