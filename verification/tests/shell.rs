use punch::shell::{
    alert_answer, approval_message, approval_reply, client_action, monitor_check, monitor_verdict, persist_choice,
    suspicious_disposition, AlertAnswer, ApprovalReply, ClientAction, ControlMsg, LineInterceptor, MonitorCheck,
};
use punch::shell_config::{CommandDisposition, ShellConfig};

#[test]
fn default_config_protects_the_host() {
    let c = ShellConfig::default();
    assert_eq!(c.blocked_commands.len(), 10);
    assert_eq!(c.blocked_paths.len(), 4);
    assert_eq!(c.suspicious_patterns.len(), 18);
    assert!(!c.persist_on_disconnect);
    assert_eq!(c.max_session_minutes, 0);
    assert_eq!(c.shell, None);
}

#[test]
fn blocking_ignores_case_and_prefers_commands() {
    let c = ShellConfig::default();
    assert_eq!(c.is_blocked("sudo rm -rf / --no-preserve-root"), Some("rm -rf /"));
    assert_eq!(c.is_blocked("RM -RF /"), Some("rm -rf /"));
    assert_eq!(c.is_blocked("cat /etc/shadow"), Some("/etc/shadow"));
    assert_eq!(c.is_blocked("FORMAT C:"), Some("format c:"));
    assert_eq!(c.is_blocked("ls -la"), None);
}

#[test]
fn suspicious_patterns_in_configured_order() {
    let c = ShellConfig::default();
    assert_eq!(c.suspicious_matches("sudo cat /etc/passwd"), vec!["/etc/passwd", "sudo"]);
    assert_eq!(c.suspicious_matches("EVAL $(echo x)"), vec!["eval"]);
    assert!(c.suspicious_matches("ls").is_empty());
}

#[test]
fn shell_binary_choice() {
    let mut c = ShellConfig::default();
    assert_eq!(c.shell_binary(true, Some("/bin/zsh".to_string())), "cmd.exe");
    assert_eq!(c.shell_binary(false, Some("/bin/zsh".to_string())), "/bin/zsh");
    assert_eq!(c.shell_binary(false, None), "/bin/bash");
    c.shell = Some("/usr/bin/fish".to_string());
    assert_eq!(c.shell_binary(true, None), "/usr/bin/fish");
}

#[test]
fn commands_are_read_line_by_line() {
    let mut l = LineInterceptor::new();
    assert_eq!(l.feed("ls -la\r"), vec!["ls -la"]);
    assert_eq!(l.feed("  \n"), Vec::<String>::new());
    assert_eq!(l.feed("a\nb\r\nc"), vec!["a", "b"]);
    assert_eq!(l.line, vec!['c']);
    assert_eq!(l.feed("d  \n"), vec!["cd"]);
    assert!(l.line.is_empty());
}

#[test]
fn commands_ignore_chunking() {
    let text = "echo hi\nls\r\n  pwd \n";
    let mut whole = LineInterceptor::new();
    let all = whole.feed(text);
    for cut in 0..=text.len() {
        let mut parts = LineInterceptor::new();
        let mut got = parts.feed(&text[..cut]);
        got.extend(parts.feed(&text[cut..]));
        assert_eq!(got, all);
        assert_eq!(parts.line, whole.line);
    }
    assert_eq!(all, vec!["echo hi", "ls", "pwd"]);
}

#[test]
fn raw_bytes_are_decoded_lossily() {
    let mut l = LineInterceptor::new();
    assert_eq!(l.feed_bytes(b"ca\xfft\n"), vec!["ca\u{FFFD}t"]);
}

#[test]
fn blocked_commands_do_not_reach_the_shell() {
    let c = ShellConfig::default();
    let mut l = LineInterceptor::new();
    let h = l.intercept(&c, b"rm -rf /\r");
    assert!(!h.forward_to_pty);
    assert_eq!(h.commands, vec!["rm -rf /"]);
    assert_eq!(h.blocked.len(), 1);
    match &h.blocked[0] {
        ControlMsg::CommandBlocked { command, pattern } => {
            assert_eq!(command, "rm -rf /");
            assert_eq!(pattern, "rm -rf /");
        }
        other => panic!("{:?}", other),
    }
    let ok = l.intercept(&c, b"ls\n");
    assert!(ok.forward_to_pty);
    assert_eq!(ok.commands, vec!["ls"]);
    assert!(ok.blocked.is_empty());
    let typing = l.intercept(&c, b"rm -rf");
    assert!(typing.forward_to_pty);
    assert!(typing.commands.is_empty());
}

#[test]
fn other_lines_of_a_blocked_chunk_still_reach_the_shell() {
    let c = ShellConfig::default();
    let mut l = LineInterceptor::new();
    let h = l.intercept(&c, b"ls\nrm -rf /\npwd\n");
    assert!(!h.forward_to_pty);
    assert_eq!(h.pty_text, "ls\npwd\n");
    assert_eq!(h.commands, vec!["ls", "rm -rf /", "pwd"]);
    assert_eq!(h.blocked.len(), 1);
    let mut l = LineInterceptor::new();
    let plain = l.intercept(&c, b"ls\n");
    assert!(plain.forward_to_pty);
    assert_eq!(plain.pty_text, "ls\n");
    let mut l = LineInterceptor::new();
    let only = l.intercept(&c, b"rm -rf /\r");
    assert_eq!(only.pty_text, "");
}

#[test]
fn monitor_verdicts() {
    let mut c = ShellConfig::default();
    let (d, m) = monitor_verdict(&mut c, "ls", &vec![], "no");
    assert_eq!(d, CommandDisposition::Allowed);
    assert!(m.is_none());
    let pats = vec!["sudo".to_string(), "/etc/passwd".to_string()];
    let (d, m) = monitor_verdict(&mut c, "sudo cat /etc/passwd", &pats, " N ");
    assert_eq!(d, CommandDisposition::SuspiciousBlocked);
    match m {
        Some(ControlMsg::CommandBlocked { command, pattern }) => {
            assert_eq!(command, "sudo cat /etc/passwd");
            assert_eq!(pattern, "sudo, /etc/passwd");
        }
        other => panic!("{:?}", other),
    }
    let (d, m) = monitor_verdict(&mut c, "sudo ls", &pats, "");
    assert_eq!(d, CommandDisposition::SuspiciousAllowed);
    match m {
        Some(ControlMsg::SuspiciousAllowed { command, patterns }) => {
            assert_eq!(command, "sudo ls");
            assert_eq!(patterns, pats);
        }
        other => panic!("{:?}", other),
    }
}

#[test]
fn alert_replies() {
    assert_eq!(suspicious_disposition("no"), CommandDisposition::SuspiciousBlocked);
    assert_eq!(suspicious_disposition(" N\n"), CommandDisposition::SuspiciousBlocked);
    assert_eq!(suspicious_disposition("yes"), CommandDisposition::SuspiciousAllowed);
    assert_eq!(suspicious_disposition("block-always"), CommandDisposition::SuspiciousBlocked);
    assert_eq!(suspicious_disposition(" Block-Always\n"), CommandDisposition::SuspiciousBlocked);
    assert_eq!(alert_answer("n"), AlertAnswer::Block);
    assert_eq!(alert_answer("BLOCK-ALWAYS"), AlertAnswer::BlockAlways);
    assert_eq!(alert_answer("yes"), AlertAnswer::Allow);
    assert_eq!(alert_answer("block"), AlertAnswer::Allow);
    assert_eq!(suspicious_disposition(""), CommandDisposition::SuspiciousAllowed);
}

#[test]
fn persistence_replies() {
    assert!(persist_choice(" Y ", false));
    assert!(persist_choice("yes", false));
    assert!(!persist_choice("NO", true));
    assert!(!persist_choice("n", true));
    assert!(persist_choice("maybe", true));
    assert!(!persist_choice("", false));
}

#[test]
fn host_approval() {
    match approval_message("yes\n", "/bin/bash".to_string()) {
        ControlMsg::Approved { shell } => assert_eq!(shell, "/bin/bash"),
        other => panic!("{:?}", other),
    }
    match approval_message("y", "/bin/bash".to_string()) {
        ControlMsg::Rejected { reason } => assert_eq!(reason, "Host declined the connection."),
        other => panic!("{:?}", other),
    }
}

#[test]
fn client_reads_the_first_message() {
    match approval_reply(&ControlMsg::Approved { shell: "sh".to_string() }) {
        ApprovalReply::Approved(s) => assert_eq!(s, "sh"),
        other => panic!("{:?}", other),
    }
    match approval_reply(&ControlMsg::Rejected { reason: "busy".to_string() }) {
        ApprovalReply::Declined(r) => assert_eq!(r, "busy"),
        other => panic!("{:?}", other),
    }
    assert!(matches!(approval_reply(&ControlMsg::HostKilled), ApprovalReply::Unexpected));
}

#[test]
fn client_reacts_to_later_messages() {
    assert!(matches!(client_action(&ControlMsg::HostKilled), ClientAction::Terminate));
    match client_action(&ControlMsg::SuspiciousAllowed {
        command: "sudo ls".to_string(),
        patterns: vec!["sudo".to_string(), "ls".to_string()],
    }) {
        ClientAction::ShowSuspicious { command, patterns } => {
            assert_eq!(command, "sudo ls");
            assert_eq!(patterns, "sudo, ls");
        }
        other => panic!("{:?}", other),
    }
    match client_action(&ControlMsg::CommandBlocked { command: "mkfs".to_string(), pattern: "mkfs".to_string() }) {
        ClientAction::ShowBlocked { command, pattern } => {
            assert_eq!(command, "mkfs");
            assert_eq!(pattern, "mkfs");
        }
        other => panic!("{:?}", other),
    }
    assert!(matches!(client_action(&ControlMsg::Resize { cols: 80, rows: 24 }), ClientAction::Ignore));
    assert!(matches!(client_action(&ControlMsg::ClientClosing), ClientAction::Ignore));
}

#[test]
fn host_handshake_fingerprint() {
    let h = punch::shell::ShellHandshake::for_host("abc", "P-No", "{\"id\":\"abc\"}".to_string());
    assert_eq!(h.session_fingerprint, "ba78-16bf-8f01");
    assert_eq!(h.token_type, "P-No");
    assert_eq!(h.endpoint_addr, "{\"id\":\"abc\"}");
}

#[test]
fn monitor_sorts_commands() {
    let c = ShellConfig::default();
    assert!(matches!(monitor_check(&c, "ls -la"), MonitorCheck::Plain));
    // The blocklist holds "rm -rf /" back at the interceptor; the monitor
    // sorts by suspicious patterns alone.
    assert!(matches!(monitor_check(&c, "rm -rf /"), MonitorCheck::Plain));
    match monitor_check(&c, "sudo cat /etc/passwd") {
        MonitorCheck::Suspicious(ps) => assert_eq!(ps, vec!["/etc/passwd", "sudo"]),
        other => panic!("{:?}", other),
    }
}

#[test]
fn always_blocked_patterns_stay_blocked() {
    let mut c = ShellConfig::default();
    let before = c.blocked_commands.len();
    let pats = vec!["sudo".to_string()];
    let (d, m) = monitor_verdict(&mut c, "sudo ls", &pats, "block-always");
    assert_eq!(d, CommandDisposition::SuspiciousBlocked);
    match m {
        Some(ControlMsg::CommandBlocked { command, pattern }) => {
            assert_eq!(command, "sudo ls");
            assert_eq!(pattern, "sudo");
        }
        other => panic!("{:?}", other),
    }
    assert_eq!(c.blocked_commands.len(), before + 1);
    assert_eq!(c.blocked_commands[before], "sudo");
    assert_eq!(c.suspicious_patterns.len(), 18);
    assert_eq!(c.is_blocked("SUDO apt update"), Some("sudo"));
    match monitor_check(&c, "sudo whoami") {
        MonitorCheck::Suspicious(ps) => assert_eq!(ps, vec!["sudo"]),
        other => panic!("{:?}", other),
    }
    let mut l = LineInterceptor::new();
    let h = l.intercept(&c, b"sudo whoami\n");
    assert!(!h.forward_to_pty);
    // A plain "no" blocks only this instance.
    let mut once = ShellConfig::default();
    monitor_verdict(&mut once, "sudo ls", &pats, "no");
    assert_eq!(once.blocked_commands.len(), before);
}
