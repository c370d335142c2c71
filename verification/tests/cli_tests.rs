use tsc::cli::{parse_command, CliRequest};
use tsc::display::{response_output, status_output};
use tsc::proto::{DaemonStatus, GhostCommand, GhostInfo, GhostResponse, VaultState};

fn args(a: &[&str]) -> Vec<String> {
    a.iter().map(|s| s.to_string()).collect()
}

fn cmd(a: &[&str]) -> GhostCommand {
    match parse_command(&args(a), "").unwrap() {
        CliRequest::Send(c) => c,
        CliRequest::Help => panic!("unexpected help"),
    }
}

#[test]
fn no_arguments_pings() {
    assert!(matches!(cmd(&["tsc-cli"]), GhostCommand::Ping));
    assert!(matches!(cmd(&["tsc-cli", "ping"]), GhostCommand::Ping));
}

#[test]
fn simple_commands() {
    assert!(matches!(cmd(&["tsc-cli", "init"]), GhostCommand::InitIdentity));
    assert!(matches!(cmd(&["tsc-cli", "status"]), GhostCommand::Status));
    assert!(matches!(cmd(&["tsc-cli", "list"]), GhostCommand::ListGhosts));
}

#[test]
fn recover_joins_the_words() {
    match cmd(&["tsc-cli", "recover", "alpha", "bravo", "charlie"]) {
        GhostCommand::RecoverIdentity { mnemonic } => assert_eq!(mnemonic, "alpha bravo charlie"),
        other => panic!("unexpected {:?}", other),
    }
}

#[test]
fn send_takes_target_and_joined_message() {
    match cmd(&["tsc-cli", "send", "abc", "hello", "there"]) {
        GhostCommand::SendMessage { target_id, content } => {
            assert_eq!(target_id, "abc");
            assert_eq!(content, "hello there");
        },
        other => panic!("unexpected {:?}", other),
    }
}

#[test]
fn spawn_with_and_without_vault() {
    match cmd(&["tsc-cli", "spawn", "img"]) {
        GhostCommand::SpawnGhost { image_hash, vault_id } => {
            assert_eq!(image_hash, "img");
            assert!(vault_id.is_none());
        },
        other => panic!("unexpected {:?}", other),
    }
    match cmd(&["tsc-cli", "spawn", "img", "v1"]) {
        GhostCommand::SpawnGhost { vault_id, .. } => assert_eq!(vault_id.unwrap(), "v1"),
        other => panic!("unexpected {:?}", other),
    }
}

#[test]
fn direct_commands() {
    match cmd(&["tsc-cli", "connect-direct", "1.2.3.4:9090"]) {
        GhostCommand::ConnectDirect { addr } => assert_eq!(addr, "1.2.3.4:9090"),
        other => panic!("unexpected {:?}", other),
    }
    match cmd(&["tsc-cli", "send-direct", "1.2.3.4:9090", "hi", "you"]) {
        GhostCommand::SendDirect { addr, content } => {
            assert_eq!(addr, "1.2.3.4:9090");
            assert_eq!(content, "hi you");
        },
        other => panic!("unexpected {:?}", other),
    }
}

#[test]
fn usage_errors() {
    assert_eq!(parse_command(&args(&["t", "recover"]), "").unwrap_err(), "Usage: tsc-cli recover \"<24 mnemonic words>\"");
    assert_eq!(parse_command(&args(&["t", "resolve"]), "").unwrap_err(), "Usage: tsc-cli resolve <GHOST_ID>");
    assert_eq!(parse_command(&args(&["t", "send", "x"]), "").unwrap_err(), "Usage: tsc-cli send <GHOST_ID> \"<message>\"");
    assert_eq!(parse_command(&args(&["t", "stop"]), "").unwrap_err(), "Usage: tsc-cli stop <GHOST_ID>");
}

#[test]
fn unknown_command() {
    assert_eq!(
        parse_command(&args(&["t", "frobnicate"]), "").unwrap_err(),
        "CLI:UNKNOWN_CMD: 'frobnicate'. Run 'tsc-cli help' for usage."
    );
}

#[test]
fn help_flags() {
    for h in ["help", "--help", "-h"] {
        assert!(matches!(parse_command(&args(&["t", h]), "").unwrap(), CliRequest::Help));
    }
}

#[test]
fn rotate_key_reads_trimmed_mnemonic() {
    match parse_command(&args(&["t", "rotate-key"]), "  w1 w2  \n").unwrap() {
        CliRequest::Send(GhostCommand::RotateKey { mnemonic }) => assert_eq!(mnemonic, "w1 w2"),
        _ => panic!("expected a rotation"),
    }
    assert_eq!(
        parse_command(&args(&["t", "rotate-key"]), "   ").unwrap_err(),
        "Set TSC_MNEMONIC=\"word1 ... word24\" before running rotate-key"
    );
}

#[test]
fn simple_response_texts() {
    let p = response_output(&GhostResponse::Ack("TSC_PULSE_OK".to_string()));
    assert_eq!(p.out, "[+] TSC_PULSE_OK\n");
    assert_eq!(p.err, "");
    let p = response_output(&GhostResponse::Error("NET:X: y".to_string()));
    assert_eq!(p.out, "");
    assert_eq!(p.err, "[!] Error: NET:X: y\n");
    let p = response_output(&GhostResponse::Resolved { ghost_id: "g".to_string(), addr: "1.2.3.4:1".to_string() });
    assert_eq!(p.out, "[+] Resolved: g → 1.2.3.4:1\n");
    let p = response_output(&GhostResponse::GhostSpawned { pid: 42, virtual_ip: "fd00::1".to_string() });
    assert_eq!(p.out, "[+] Ghost running: PID=42 IP=fd00::1\n");
}

#[test]
fn direct_link_warns_when_unverified() {
    let p = response_output(&GhostResponse::DirectLinkEstablished { remote_id: "unverified".to_string(), addr: "a".to_string() });
    assert_eq!(p.out, "[+] GSP Direct Link: unverified @ a\n");
    assert_eq!(p.err, "[~] Peer is in ephemeral mode — no KERI verification performed.\n");
    let p = response_output(&GhostResponse::DirectLinkEstablished { remote_id: "abc".to_string(), addr: "a".to_string() });
    assert_eq!(p.err, "");
}

#[test]
fn mnemonic_grid() {
    let words: Vec<String> = (1..=5).map(|i| format!("w{}", i)).collect();
    let p = response_output(&GhostResponse::Mnemonic(words));
    let expected_grid = "   1. w1             2. w2             3. w3             4. w4          \n   5. w5          ";
    assert!(p.out.contains(expected_grid));
    assert!(p.out.starts_with("\n━━━━"));
    assert!(p.out.ends_with("━━\n"));
    let reference: String = (1..=5)
        .map(|i| {
            let w = format!("w{}", i);
            let mut s = format!("  {:2}. {:<12}", i, w);
            if i % 4 == 0 {
                s.push('\n');
            }
            s
        })
        .collect();
    assert!(p.out.contains(&reference));
}

#[test]
fn ghost_table() {
    let p = response_output(&GhostResponse::GhostList(vec![]));
    assert_eq!(p.out, "[*] No Ghosts currently running.\n");
    let g = GhostInfo {
        ghost_id: "0123456789abcdef0123456789".to_string(),
        pid: 7,
        virtual_ip: "fd00::2".to_string(),
        status: "Running".to_string(),
        uptime_secs: 30,
    };
    let p = response_output(&GhostResponse::GhostList(vec![g]));
    let heading = format!("{:<20} {:>8}  {:<24} {}\n", "GHOST_ID", "PID", "VIRTUAL_IP", "UPTIME");
    let row = format!("{:<20} {:>8}  {:<24} {}s\n", "0123456789abcdef0123", 7, "fd00::2", 30);
    assert_eq!(p.out, heading + &row);
}

#[test]
fn status_text() {
    let s = DaemonStatus {
        ghost_id: "abc".to_string(),
        vault_state: VaultState::Locked,
        peer_count: 2,
        active_ghosts: 0,
        uptime_secs: 99,
    };
    assert_eq!(
        status_output(&s),
        "\n  GhostID  : abc\n  Vault    : Locked ✗\n  Peers    : 2\n  Ghosts   : 0\n  Uptime   : 99s\n\n"
    );
}
