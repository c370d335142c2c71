use tsc::gsp::MsgType;
use tsc::runtime::{GhostBridge, GhostFetcher, GhostJail, GhostState, GhostStatus};

#[test]
fn jail_launch_command() {
    let j = GhostJail { ghost_id: "g1".to_string(), cpu_shares: 100, memory_limit_mb: 256 };
    let c = j.launch_command("/usr/bin/crun");
    assert_eq!(c.program, "/usr/bin/crun");
    assert_eq!(c.args, vec!["run".to_string(), "g1".to_string()]);
    assert_eq!(c.env, vec![("TSC_GHOST_ID".to_string(), "g1".to_string())]);
}

#[test]
fn bridge_frames_chunks_as_data() {
    let b = GhostBridge { ghost_id: "g".to_string() };
    let f = b.frame_chunk(b"abc", 3);
    assert_eq!(f.msg_type, MsgType::Data);
    assert_eq!(f.payload, b"abc".to_vec());
    assert_eq!(f.length, 3);
}

#[test]
fn fetcher_stub_succeeds() {
    let f = GhostFetcher { target_image_hash: "h".to_string() };
    assert!(f.pull_from_swarm().is_ok());
}

#[test]
fn ghost_status_equality() {
    let s = GhostState { pid: 1, virtual_ip: [0u8; 16], status: GhostStatus::Running };
    assert_eq!(s.status, GhostStatus::Running);
    assert_ne!(GhostStatus::Starting, GhostStatus::Terminated);
}
