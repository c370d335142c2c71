//! The Ghost-Box runtime: the state of a running Ghost, the jail's launch
//! command, the OCI bundle configuration, the swarm fetcher and the bridge
//! that frames legacy TCP traffic for GSP streams.

use vstd::prelude::*;
use vstd::string::*;
use crate::gsp::{GspFrame, MsgType};

verus! {

/// Operational phases of a Ghost lifecycle.
#[derive(Debug, Clone, Copy, PartialEq, Eq, Structural)]
pub enum GhostStatus {
    /// Initializing the environment.
    Starting,
    /// Actively processing data.
    Running,
    /// Moving to a different host Shell.
    Migrating,
    /// The process has exited or been killed.
    Terminated,
}

/// The runtime state of an active Ghost-Box.
#[derive(Debug)]
pub struct GhostState {
    /// Process ID of the container leader.
    pub pid: u32,
    /// Internal IPv6 address assigned to the Ghost (its 16 octets).
    pub virtual_ip: [u8; 16],
    /// Current operational status.
    pub status: GhostStatus,
}

/// Configuration for the OCI jail of one Ghost.
#[derive(Debug)]
pub struct GhostJail {
    /// Unique identifier for the Ghost.
    pub ghost_id: String,
    /// CPU weight for the container (cgroups v2 `cpu.weight`).
    pub cpu_shares: u32,
    /// Hard memory limit in MiB (cgroups v2 `memory.max`).
    pub memory_limit_mb: u64,
}

/// A process to start: the program, its arguments, and the environment
/// variables to add.
#[derive(Debug)]
pub struct LaunchCommand {
    /// The program to run.
    pub program: String,
    /// Its arguments, in order.
    pub args: Vec<String>,
    /// Environment variables added to the inherited environment.
    pub env: Vec<(String, String)>,
}

impl GhostJail {
    /// The command that starts this Ghost with the OCI runtime at
    /// `oci_runtime_path`: `<runtime> run <ghost_id>` with `TSC_GHOST_ID` set
    /// to the GhostID.
    pub fn launch_command(&self, oci_runtime_path: &str) -> (r: LaunchCommand)
        ensures
            r.program@ == oci_runtime_path@,
            r.args@.len() == 2,
            r.args@[0]@ == "run"@,
            r.args@[1]@ == self.ghost_id@,
            r.env@.len() == 1,
            r.env@[0].0@ == "TSC_GHOST_ID"@,
            r.env@[0].1@ == self.ghost_id@,
    {
        let mut args: Vec<String> = Vec::new();
        args.push(String::from_str("run"));
        args.push(self.ghost_id.clone());
        let mut env: Vec<(String, String)> = Vec::new();
        env.push((String::from_str("TSC_GHOST_ID"), self.ghost_id.clone()));
        LaunchCommand { program: String::from_str(oci_runtime_path), args, env }
    }
}

/// An OCI bundle ready to pass to the runtime.
#[derive(Debug)]
pub struct GhostBundle {
    /// Host path of the bundle directory.
    pub bundle_path: String,
    /// The OCI configuration.
    pub config: GhostConfig,
}

/// The OCI `config.json` structure for Ghost-Boxes.
#[derive(Debug)]
pub struct GhostConfig {
    /// OCI specification version.
    pub version: String,
    /// Root filesystem configuration.
    pub root: Root,
    /// Linux-specific isolation settings.
    pub linux: LinuxConstraints,
}

/// Root filesystem specification.
#[derive(Debug)]
pub struct Root {
    /// Path to the rootfs (relative to the bundle path).
    pub path: String,
    /// Whether the root filesystem is read-only.
    pub readonly: bool,
}

/// Linux namespace and resource constraint settings.
#[derive(Debug)]
pub struct LinuxConstraints {
    /// Active namespace types for this bundle.
    pub namespaces: Vec<Namespace>,
}

/// A Linux namespace entry in the OCI configuration.
#[derive(Debug)]
pub struct Namespace {
    /// Namespace type as the OCI specification names it ("network", "pid",
    /// "mount", "user", ...); the `type` key of the JSON entry.
    pub ns_type: String,
}

/// Pulls OCI layers from swarm peers.
#[derive(Debug)]
pub struct GhostFetcher {
    /// BLAKE3 hash of the target OCI image.
    pub target_image_hash: String,
}

impl GhostFetcher {
    /// Pulls the image's layers from the swarm. Nothing is fetched yet: the
    /// pull always succeeds.
    pub fn pull_from_swarm(&self) -> (r: Result<(), String>)
        ensures
            r is Ok,
    {
        Ok(())
    }
}

/// Maps legacy TCP application traffic into GSP data streams.
#[derive(Debug)]
pub struct GhostBridge {
    /// The GhostID this bridge serves.
    pub ghost_id: String,
}

impl GhostBridge {
    /// The frame that carries a chunk read from a Ghost's TCP socket on the
    /// stream `stream_id` (the stream is not yet part of the frame).
    pub fn frame_chunk(&self, chunk: &[u8], stream_id: u16) -> (r: GspFrame)
        ensures
            r.msg_type == MsgType::Data,
            r.payload@ == chunk@,
            r.length as nat == chunk@.len() % 0x1_0000_0000,
    {
        GspFrame::new(MsgType::Data, crate::bytes::to_vec(chunk))
    }
}

} // verus!
