use esprit::ui::{logo, strip_ansi_escapes};

#[test]
fn logo_is_colored_five_rows() {
    let l = logo();
    assert!(l.starts_with("\n  \x1b[1m\x1b[36m███████╗"));
    assert!(l.contains("\x1b[35m"));
    assert_eq!(l.lines().count(), 6);
    assert!(l.ends_with("\n"));
}

#[test]
fn stripping_removes_escape_sequences() {
    assert_eq!(strip_ansi_escapes("\x1b[1m\x1b[36mhi\x1b[39m\x1b[0m there"), "hi there");
    assert_eq!(strip_ansi_escapes("plain"), "plain");
    assert_eq!(strip_ansi_escapes("\x1b[31"), "");
}

#[test]
fn stripping_is_idempotent() {
    let once = strip_ansi_escapes(&logo());
    assert_eq!(strip_ansi_escapes(&once), once);
    assert!(!once.contains('\x1b'));
}

use esprit::ui::{
    banner_lines, card_lines, dashboard_stats, divider_line, fail_line, info_line, kv_dot_line, kv_line, ok_line,
    panel_header_lines, quits_dashboard, section_line, step_line, update_badge_lines, warn_line,
};

#[test]
fn status_lines_carry_colored_icons() {
    assert_eq!(ok_line("done"), "  \x1b[1m\x1b[32m✓\x1b[39m\x1b[0m done");
    assert_eq!(fail_line("no"), "  \x1b[1m\x1b[31m✗\x1b[39m\x1b[0m no");
    assert_eq!(warn_line("hm"), "  \x1b[1m\x1b[33m⚠\x1b[39m\x1b[0m hm");
    assert_eq!(info_line("fyi"), "  \x1b[1m\x1b[36mℹ\x1b[39m\x1b[0m fyi");
    assert_eq!(section_line("Index"), "\n  \x1b[1m\x1b[35m▸\x1b[39m\x1b[0m \x1b[1mIndex\x1b[0m");
    assert_eq!(divider_line(), format!("  \x1b[2m{}\x1b[0m", "─".repeat(56)));
}

#[test]
fn key_value_lines_are_aligned() {
    assert_eq!(kv_line("Model", "qwen"), format!("  \x1b[2m{:<22}\x1b[0m \x1b[1mqwen\x1b[0m", "Model"));
    assert_eq!(kv_dot_line("Files", "12"), format!("  \x1b[2mFiles\x1b[0m \x1b[2m{}\x1b[0m \x1b[1m12\x1b[0m", ".".repeat(25)));
    assert_eq!(step_line(2, 3, "Build"), "  \x1b[1m\x1b[35m[2/3]\x1b[39m\x1b[0m Build");
}

#[test]
fn cards_are_framed_to_sixty_four_columns() {
    let v = card_lines("SUMMARY", &vec!["\x1b[1mab\x1b[0m".to_string()]);
    assert_eq!(v.len(), 3);
    assert_eq!(v[0], format!("  ╭─\x1b[1m\x1b[36m SUMMARY \x1b[39m\x1b[0m─\x1b[2m{}\x1b[0m╮", "─".repeat(51)));
    assert_eq!(v[1], format!("  │  \x1b[1mab\x1b[0m {}│", " ".repeat(58)));
    assert_eq!(v[2], format!("  ╰\x1b[2m{}\x1b[0m╯", "─".repeat(62)));
}

#[test]
fn panel_headers_show_their_tag() {
    let v = panel_header_lines("Updater", Some("GitHub Sync"));
    assert_eq!(v[0], "\n  \x1b[1m\x1b[36m◆\x1b[39m\x1b[0m \x1b[1mUpdater\x1b[0m\x1b[2m [GitHub Sync]\x1b[0m");
    assert_eq!(v[1], divider_line());
    let w = panel_header_lines("Plain", None);
    assert!(w[0].ends_with("\x1b[2m\x1b[0m"));
}

#[test]
fn update_badge_shows_a_cut_summary() {
    let long = "x".repeat(60);
    let v = update_badge_lines("abc", "def", Some(&long));
    assert_eq!(v.len(), 6);
    assert_eq!(v[0], "");
    assert!(v[2].contains("\x1b[2mabc\x1b[0m → \x1b[1m\x1b[36mdef\x1b[39m\x1b[0m"));
    assert_eq!(v[3], format!("  │  \x1b[2m•\x1b[0m \x1b[2m{}{}\x1b[0m│", "x".repeat(46), "  "));
    assert!(v[4].contains("\x1b[32m\x1b[1mesprit update\x1b[0m\x1b[39m"));
    assert_eq!(update_badge_lines("a", "b", None).len(), 5);
}

#[test]
fn banner_shows_version_badges() {
    let v = banner_lines("0.1.0");
    assert_eq!(v[0], esprit::ui::logo());
    assert!(v[1].starts_with("  \x1b[1m\x1b[46m\x1b[30m v0.1.0 \x1b[39m\x1b[49m\x1b[0m "));
    assert!(v[1].contains(" LOCAL-FIRST "));
    assert_eq!(v[2], format!("  \x1b[2m{}\x1b[0m\n", "─".repeat(58)));
}

#[test]
fn dashboard_counts_installed_models() {
    assert_eq!(
        dashboard_stats(&[true, false, true], 7, 3),
        "Models Installed: 2\nVectors Indexed: 7\nConversations in Memory: 3\n"
    );
    assert!(quits_dashboard('q'));
    assert!(!quits_dashboard('Q'));
}
