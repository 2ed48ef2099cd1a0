use flashkraft::status_views::{is_command_line, partition_detail, split_error};

#[test]
fn test_split_error_single_line() {
    let (headline, detail) = split_error("Something went wrong");
    assert_eq!(headline, "Something went wrong");
    assert!(detail.is_empty());
}

#[test]
fn test_split_error_two_lines() {
    let (headline, detail) = split_error("Headline\nDetail line");
    assert_eq!(headline, "Headline");
    assert_eq!(detail, vec!["Detail line"]);
}

#[test]
fn test_split_error_trims_headline_whitespace() {
    let (headline, _) = split_error("  Headline  \nDetail");
    assert_eq!(headline, "Headline");
}

#[test]
fn test_split_error_drops_blank_detail_lines() {
    let (_, detail) = split_error("Headline\n\nLine A\n\nLine B\n");
    assert_eq!(detail, vec!["Line A", "Line B"]);
}

#[test]
fn test_split_error_trims_detail_lines() {
    let (_, detail) = split_error("Headline\n   indented line   ");
    assert_eq!(detail, vec!["indented line"]);
}

#[test]
fn test_split_error_permission_denied_shape() {
    let msg = "Permission denied opening '/dev/sdb'.\n\
               The binary is not installed setuid-root.\n\
               Install with:\n  \
               sudo chown root:root /usr/bin/flashkraft\n  \
               sudo chmod u+s      /usr/bin/flashkraft";

    let (headline, detail) = split_error(msg);

    assert_eq!(headline, "Permission denied opening '/dev/sdb'.");
    assert_eq!(detail.len(), 4);
    assert_eq!(detail[0], "The binary is not installed setuid-root.");
    assert_eq!(detail[1], "Install with:");
    assert!(detail[2].contains("chown"));
    assert!(detail[3].contains("chmod"));
}

#[test]
fn test_is_command_line_sudo() {
    assert!(is_command_line("sudo chown root:root /usr/bin/flashkraft"));
    assert!(is_command_line("sudo chmod u+s /usr/bin/flashkraft"));
}

#[test]
fn test_is_command_line_absolute_path() {
    assert!(is_command_line("/usr/bin/flashkraft"));
    assert!(is_command_line("/dev/sdb"));
}

#[test]
fn test_is_command_line_install_prefix() {
    assert!(is_command_line("Install with:"));
}

#[test]
fn test_is_command_line_prose_is_not_command() {
    assert!(!is_command_line("The binary is not installed setuid-root."));
    assert!(!is_command_line("Permission denied opening the device."));
    assert!(!is_command_line(""));
}

#[test]
fn test_permission_denied_partitions_correctly() {
    let msg = "Permission denied opening '/dev/sdb'.\n\
               The binary is not installed setuid-root.\n\
               Install with:\n\
               sudo chown root:root /usr/bin/flashkraft\n\
               sudo chmod u+s      /usr/bin/flashkraft";

    let (_, detail) = split_error(msg);
    let (prose, commands) = partition_detail(&detail);

    assert_eq!(prose, vec!["The binary is not installed setuid-root."]);
    assert_eq!(commands.len(), 3);
    assert!(commands[0].starts_with("Install"));
    assert!(commands[1].contains("chown"));
    assert!(commands[2].contains("chmod"));
}

#[test]
fn split_error_handles_crlf() {
    let (h, d) = split_error("Head\r\nA\r\nB");
    assert_eq!(h, "Head");
    assert_eq!(d, vec!["A", "B"]);
}
