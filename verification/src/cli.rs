//! The command-line controller: turning arguments into an IPC command, and
//! the text shown for each response.

use vstd::prelude::*;
use crate::proto::GhostCommand;
use crate::text::{join, join_words, str_eq, trim, trim_ws, views};

verus! {

/// What the arguments ask for: a command for the daemon, or the help text.
#[derive(Debug)]
pub enum CliRequest {
    /// Send this command to the daemon.
    Send(GhostCommand),
    /// Show the usage text and exit.
    Help,
}

/// The arguments from `k` on, joined by single spaces.
pub open spec fn rest_words(a: Seq<String>, k: int) -> Seq<char> {
    join_words(views(a.skip(k)), " "@)
}

/// `r` is the error with text `m`.
pub open spec fn err_is(r: Result<CliRequest, String>, m: Seq<char>) -> bool {
    r matches Err(e) && e@ == m
}

/// `r` asks to send `c`, compared by the fields' text.
pub open spec fn sends(r: Result<CliRequest, String>, c: GhostCommand) -> bool {
    match r {
        Ok(CliRequest::Send(x)) => same_command(x, c),
        _ => false,
    }
}

/// Two commands of the same variant whose fields have the same text.
pub open spec fn same_command(x: GhostCommand, y: GhostCommand) -> bool {
    match (x, y) {
        (GhostCommand::Ping, GhostCommand::Ping) => true,
        (GhostCommand::InitIdentity, GhostCommand::InitIdentity) => true,
        (GhostCommand::Status, GhostCommand::Status) => true,
        (GhostCommand::ListGhosts, GhostCommand::ListGhosts) => true,
        _ => false,
    }
}

/// What parsing the arguments `a` (program name first) gives, with `env`
/// the value of `TSC_MNEMONIC` (empty when unset).
pub open spec fn parsed(a: Seq<String>, env: Seq<char>, r: Result<CliRequest, String>) -> bool {
    if a.len() < 2 {
        sends(r, GhostCommand::Ping)
    } else {
        let c = a[1]@;
        if c == "ping"@ {
            sends(r, GhostCommand::Ping)
        } else if c == "init"@ {
            sends(r, GhostCommand::InitIdentity)
        } else if c == "status"@ {
            sends(r, GhostCommand::Status)
        } else if c == "recover"@ {
            if a.len() < 3 {
                err_is(r, "Usage: tsc-cli recover \"<24 mnemonic words>\""@)
            } else {
                r matches Ok(CliRequest::Send(GhostCommand::RecoverIdentity { mnemonic })) && mnemonic@ == rest_words(a, 2)
            }
        } else if c == "resolve"@ {
            if a.len() < 3 {
                err_is(r, "Usage: tsc-cli resolve <GHOST_ID>"@)
            } else {
                r matches Ok(CliRequest::Send(GhostCommand::Resolve { ghost_id })) && ghost_id@ == a[2]@
            }
        } else if c == "connect"@ {
            if a.len() < 3 {
                err_is(r, "Usage: tsc-cli connect <GHOST_ID>"@)
            } else {
                r matches Ok(CliRequest::Send(GhostCommand::Connect { ghost_id })) && ghost_id@ == a[2]@
            }
        } else if c == "send"@ {
            if a.len() < 4 {
                err_is(r, "Usage: tsc-cli send <GHOST_ID> \"<message>\""@)
            } else {
                r matches Ok(CliRequest::Send(GhostCommand::SendMessage { target_id, content }))
                    && target_id@ == a[2]@ && content@ == rest_words(a, 3)
            }
        } else if c == "spawn"@ {
            if a.len() < 3 {
                err_is(r, "Usage: tsc-cli spawn <IMAGE_HASH> [VAULT_ID]"@)
            } else {
                r matches Ok(CliRequest::Send(GhostCommand::SpawnGhost { image_hash, vault_id }))
                    && image_hash@ == a[2]@ && (if a.len() > 3 {
                    vault_id matches Some(v) && v@ == a[3]@
                } else {
                    vault_id is None
                })
            }
        } else if c == "list"@ {
            sends(r, GhostCommand::ListGhosts)
        } else if c == "stop"@ {
            if a.len() < 3 {
                err_is(r, "Usage: tsc-cli stop <GHOST_ID>"@)
            } else {
                r matches Ok(CliRequest::Send(GhostCommand::StopGhost { ghost_id })) && ghost_id@ == a[2]@
            }
        } else if c == "rotate-key"@ {
            if trim_ws(env).len() == 0 {
                err_is(r, "Set TSC_MNEMONIC=\"word1 ... word24\" before running rotate-key"@)
            } else {
                r matches Ok(CliRequest::Send(GhostCommand::RotateKey { mnemonic })) && mnemonic@ == trim_ws(env)
            }
        } else if c == "connect-direct"@ {
            if a.len() < 3 {
                err_is(r, "Usage: tsc-cli connect-direct <IP:PORT>"@)
            } else {
                r matches Ok(CliRequest::Send(GhostCommand::ConnectDirect { addr })) && addr@ == a[2]@
            }
        } else if c == "send-direct"@ {
            if a.len() < 4 {
                err_is(r, "Usage: tsc-cli send-direct <IP:PORT> \"<message>\""@)
            } else {
                r matches Ok(CliRequest::Send(GhostCommand::SendDirect { addr, content }))
                    && addr@ == a[2]@ && content@ == rest_words(a, 3)
            }
        } else if c == "help"@ || c == "--help"@ || c == "-h"@ {
            r matches Ok(CliRequest::Help)
        } else {
            err_is(r, "CLI:UNKNOWN_CMD: '"@ + c + "'. Run 'tsc-cli help' for usage."@)
        }
    }
}

proof fn lemma_cmd_ping(a: Seq<String>, env: Seq<char>, r: Result<CliRequest, String>)
    requires
        a.len() >= 2,
        parsed(a, env, r),
        a[1]@ == "ping"@,
    ensures
        r matches Ok(CliRequest::Send(GhostCommand::Ping)),
{
    broadcast use vstd::string::group_string_axioms;

    reveal_strlit("ping");
}

proof fn lemma_cmd_init(a: Seq<String>, env: Seq<char>, r: Result<CliRequest, String>)
    requires
        a.len() >= 2,
        parsed(a, env, r),
        a[1]@ == "init"@,
    ensures
        r matches Ok(CliRequest::Send(GhostCommand::InitIdentity)),
{
    broadcast use vstd::string::group_string_axioms;

    reveal_strlit("init");
    reveal_strlit("ping");
    assert("init"@[0] != "ping"@[0]);
}

proof fn lemma_cmd_status(a: Seq<String>, env: Seq<char>, r: Result<CliRequest, String>)
    requires
        a.len() >= 2,
        parsed(a, env, r),
        a[1]@ == "status"@,
    ensures
        r matches Ok(CliRequest::Send(GhostCommand::Status)),
{
    broadcast use vstd::string::group_string_axioms;

    reveal_strlit("status");
    reveal_strlit("ping");
    assert("status"@.len() != "ping"@.len());
    reveal_strlit("init");
    assert("status"@.len() != "init"@.len());
}

proof fn lemma_cmd_recover(a: Seq<String>, env: Seq<char>, r: Result<CliRequest, String>)
    requires
        a.len() >= 2,
        parsed(a, env, r),
        a[1]@ == "recover"@,
        a.len() >= 3,
    ensures
        r matches Ok(CliRequest::Send(GhostCommand::RecoverIdentity { mnemonic }))
            && mnemonic@ == join_words(views(a.skip(2)), " "@),
{
    broadcast use vstd::string::group_string_axioms;

    reveal_strlit("recover");
    reveal_strlit("ping");
    assert("recover"@.len() != "ping"@.len());
    reveal_strlit("init");
    assert("recover"@.len() != "init"@.len());
    reveal_strlit("status");
    assert("recover"@.len() != "status"@.len());
}

proof fn lemma_cmd_resolve(a: Seq<String>, env: Seq<char>, r: Result<CliRequest, String>)
    requires
        a.len() >= 2,
        parsed(a, env, r),
        a[1]@ == "resolve"@,
        a.len() >= 3,
    ensures
        r matches Ok(CliRequest::Send(GhostCommand::Resolve { ghost_id })) && ghost_id@ == a[2]@,
{
    broadcast use vstd::string::group_string_axioms;

    reveal_strlit("resolve");
    reveal_strlit("ping");
    assert("resolve"@.len() != "ping"@.len());
    reveal_strlit("init");
    assert("resolve"@.len() != "init"@.len());
    reveal_strlit("status");
    assert("resolve"@.len() != "status"@.len());
    reveal_strlit("recover");
    assert("resolve"@[2] != "recover"@[2]);
}

proof fn lemma_cmd_connect(a: Seq<String>, env: Seq<char>, r: Result<CliRequest, String>)
    requires
        a.len() >= 2,
        parsed(a, env, r),
        a[1]@ == "connect"@,
        a.len() >= 3,
    ensures
        r matches Ok(CliRequest::Send(GhostCommand::Connect { ghost_id })) && ghost_id@ == a[2]@,
{
    broadcast use vstd::string::group_string_axioms;

    reveal_strlit("connect");
    reveal_strlit("ping");
    assert("connect"@.len() != "ping"@.len());
    reveal_strlit("init");
    assert("connect"@.len() != "init"@.len());
    reveal_strlit("status");
    assert("connect"@.len() != "status"@.len());
    reveal_strlit("recover");
    assert("connect"@[0] != "recover"@[0]);
    reveal_strlit("resolve");
    assert("connect"@[0] != "resolve"@[0]);
}

proof fn lemma_cmd_send(a: Seq<String>, env: Seq<char>, r: Result<CliRequest, String>)
    requires
        a.len() >= 2,
        parsed(a, env, r),
        a[1]@ == "send"@,
        a.len() >= 4,
    ensures
        r matches Ok(CliRequest::Send(GhostCommand::SendMessage { target_id, content })) && target_id@ == a[2]@
            && content@ == join_words(views(a.skip(3)), " "@),
{
    broadcast use vstd::string::group_string_axioms;

    reveal_strlit("send");
    reveal_strlit("ping");
    assert("send"@[0] != "ping"@[0]);
    reveal_strlit("init");
    assert("send"@[0] != "init"@[0]);
    reveal_strlit("status");
    assert("send"@.len() != "status"@.len());
    reveal_strlit("recover");
    assert("send"@.len() != "recover"@.len());
    reveal_strlit("resolve");
    assert("send"@.len() != "resolve"@.len());
    reveal_strlit("connect");
    assert("send"@.len() != "connect"@.len());
}

proof fn lemma_cmd_spawn(a: Seq<String>, env: Seq<char>, r: Result<CliRequest, String>)
    requires
        a.len() >= 2,
        parsed(a, env, r),
        a[1]@ == "spawn"@,
        a.len() >= 3,
    ensures
        r matches Ok(CliRequest::Send(GhostCommand::SpawnGhost { image_hash, vault_id })) && image_hash@ == a[2]@,
{
    broadcast use vstd::string::group_string_axioms;

    reveal_strlit("spawn");
    reveal_strlit("ping");
    assert("spawn"@.len() != "ping"@.len());
    reveal_strlit("init");
    assert("spawn"@.len() != "init"@.len());
    reveal_strlit("status");
    assert("spawn"@.len() != "status"@.len());
    reveal_strlit("recover");
    assert("spawn"@.len() != "recover"@.len());
    reveal_strlit("resolve");
    assert("spawn"@.len() != "resolve"@.len());
    reveal_strlit("connect");
    assert("spawn"@.len() != "connect"@.len());
    reveal_strlit("send");
    assert("spawn"@.len() != "send"@.len());
}

proof fn lemma_cmd_list(a: Seq<String>, env: Seq<char>, r: Result<CliRequest, String>)
    requires
        a.len() >= 2,
        parsed(a, env, r),
        a[1]@ == "list"@,
    ensures
        r matches Ok(CliRequest::Send(GhostCommand::ListGhosts)),
{
    broadcast use vstd::string::group_string_axioms;

    reveal_strlit("list");
    reveal_strlit("ping");
    assert("list"@[0] != "ping"@[0]);
    reveal_strlit("init");
    assert("list"@[0] != "init"@[0]);
    reveal_strlit("status");
    assert("list"@.len() != "status"@.len());
    reveal_strlit("recover");
    assert("list"@.len() != "recover"@.len());
    reveal_strlit("resolve");
    assert("list"@.len() != "resolve"@.len());
    reveal_strlit("connect");
    assert("list"@.len() != "connect"@.len());
    reveal_strlit("send");
    assert("list"@[0] != "send"@[0]);
    reveal_strlit("spawn");
    assert("list"@.len() != "spawn"@.len());
}

proof fn lemma_cmd_stop(a: Seq<String>, env: Seq<char>, r: Result<CliRequest, String>)
    requires
        a.len() >= 2,
        parsed(a, env, r),
        a[1]@ == "stop"@,
        a.len() >= 3,
    ensures
        r matches Ok(CliRequest::Send(GhostCommand::StopGhost { ghost_id })) && ghost_id@ == a[2]@,
{
    broadcast use vstd::string::group_string_axioms;

    reveal_strlit("stop");
    reveal_strlit("ping");
    assert("stop"@[0] != "ping"@[0]);
    reveal_strlit("init");
    assert("stop"@[0] != "init"@[0]);
    reveal_strlit("status");
    assert("stop"@.len() != "status"@.len());
    reveal_strlit("recover");
    assert("stop"@.len() != "recover"@.len());
    reveal_strlit("resolve");
    assert("stop"@.len() != "resolve"@.len());
    reveal_strlit("connect");
    assert("stop"@.len() != "connect"@.len());
    reveal_strlit("send");
    assert("stop"@[1] != "send"@[1]);
    reveal_strlit("spawn");
    assert("stop"@.len() != "spawn"@.len());
    reveal_strlit("list");
    assert("stop"@[0] != "list"@[0]);
}

proof fn lemma_cmd_connect_direct(a: Seq<String>, env: Seq<char>, r: Result<CliRequest, String>)
    requires
        a.len() >= 2,
        parsed(a, env, r),
        a[1]@ == "connect-direct"@,
        a.len() >= 3,
    ensures
        r matches Ok(CliRequest::Send(GhostCommand::ConnectDirect { addr })) && addr@ == a[2]@,
{
    broadcast use vstd::string::group_string_axioms;

    reveal_strlit("connect-direct");
    reveal_strlit("ping");
    assert("connect-direct"@.len() != "ping"@.len());
    reveal_strlit("init");
    assert("connect-direct"@.len() != "init"@.len());
    reveal_strlit("status");
    assert("connect-direct"@.len() != "status"@.len());
    reveal_strlit("recover");
    assert("connect-direct"@.len() != "recover"@.len());
    reveal_strlit("resolve");
    assert("connect-direct"@.len() != "resolve"@.len());
    reveal_strlit("connect");
    assert("connect-direct"@.len() != "connect"@.len());
    reveal_strlit("send");
    assert("connect-direct"@.len() != "send"@.len());
    reveal_strlit("spawn");
    assert("connect-direct"@.len() != "spawn"@.len());
    reveal_strlit("list");
    assert("connect-direct"@.len() != "list"@.len());
    reveal_strlit("stop");
    assert("connect-direct"@.len() != "stop"@.len());
    reveal_strlit("rotate-key");
    assert("connect-direct"@.len() != "rotate-key"@.len());
}

proof fn lemma_cmd_send_direct(a: Seq<String>, env: Seq<char>, r: Result<CliRequest, String>)
    requires
        a.len() >= 2,
        parsed(a, env, r),
        a[1]@ == "send-direct"@,
        a.len() >= 4,
    ensures
        r matches Ok(CliRequest::Send(GhostCommand::SendDirect { addr, content })) && addr@ == a[2]@
            && content@ == join_words(views(a.skip(3)), " "@),
{
    broadcast use vstd::string::group_string_axioms;

    reveal_strlit("send-direct");
    reveal_strlit("ping");
    assert("send-direct"@.len() != "ping"@.len());
    reveal_strlit("init");
    assert("send-direct"@.len() != "init"@.len());
    reveal_strlit("status");
    assert("send-direct"@.len() != "status"@.len());
    reveal_strlit("recover");
    assert("send-direct"@.len() != "recover"@.len());
    reveal_strlit("resolve");
    assert("send-direct"@.len() != "resolve"@.len());
    reveal_strlit("connect");
    assert("send-direct"@.len() != "connect"@.len());
    reveal_strlit("send");
    assert("send-direct"@.len() != "send"@.len());
    reveal_strlit("spawn");
    assert("send-direct"@.len() != "spawn"@.len());
    reveal_strlit("list");
    assert("send-direct"@.len() != "list"@.len());
    reveal_strlit("stop");
    assert("send-direct"@.len() != "stop"@.len());
    reveal_strlit("rotate-key");
    assert("send-direct"@.len() != "rotate-key"@.len());
    reveal_strlit("connect-direct");
    assert("send-direct"@.len() != "connect-direct"@.len());
}

/// Each subcommand maps to its own command: with its arguments present,
/// `connect <id>` asks to connect to `id`, `resolve <id>` only to look it up,
/// `stop <id>` to stop that Ghost, `connect-direct <addr>` to connect to the
/// address, `send <id> <words..>` and `send-direct <addr> <words..>` to
/// deliver the words joined by spaces, `recover <words..>` to restore from
/// them and `spawn <hash> [vault]` to start that image; `ping`, `init`,
/// `status` and `list` carry no argument.
pub proof fn lemma_subcommands(a: Seq<String>, env: Seq<char>, r: Result<CliRequest, String>)
    requires
        a.len() >= 2,
        parsed(a, env, r),
    ensures
        a[1]@ == "ping"@ ==> (r matches Ok(CliRequest::Send(GhostCommand::Ping))),
        a[1]@ == "init"@ ==> (r matches Ok(CliRequest::Send(GhostCommand::InitIdentity))),
        a[1]@ == "status"@ ==> (r matches Ok(CliRequest::Send(GhostCommand::Status))),
        a[1]@ == "recover"@ && a.len() >= 3 ==> (r matches Ok(CliRequest::Send(GhostCommand::RecoverIdentity { mnemonic }))
            && mnemonic@ == join_words(views(a.skip(2)), " "@)),
        a[1]@ == "resolve"@ && a.len() >= 3 ==> (r matches Ok(CliRequest::Send(GhostCommand::Resolve { ghost_id })) && ghost_id@ == a[2]@),
        a[1]@ == "connect"@ && a.len() >= 3 ==> (r matches Ok(CliRequest::Send(GhostCommand::Connect { ghost_id })) && ghost_id@ == a[2]@),
        a[1]@ == "send"@ && a.len() >= 4 ==> (r matches Ok(CliRequest::Send(GhostCommand::SendMessage { target_id, content })) && target_id@ == a[2]@
            && content@ == join_words(views(a.skip(3)), " "@)),
        a[1]@ == "spawn"@ && a.len() >= 3 ==> (r matches Ok(CliRequest::Send(GhostCommand::SpawnGhost { image_hash, vault_id })) && image_hash@ == a[2]@),
        a[1]@ == "list"@ ==> (r matches Ok(CliRequest::Send(GhostCommand::ListGhosts))),
        a[1]@ == "stop"@ && a.len() >= 3 ==> (r matches Ok(CliRequest::Send(GhostCommand::StopGhost { ghost_id })) && ghost_id@ == a[2]@),
        a[1]@ == "connect-direct"@ && a.len() >= 3 ==> (r matches Ok(CliRequest::Send(GhostCommand::ConnectDirect { addr })) && addr@ == a[2]@),
        a[1]@ == "send-direct"@ && a.len() >= 4 ==> (r matches Ok(CliRequest::Send(GhostCommand::SendDirect { addr, content })) && addr@ == a[2]@
            && content@ == join_words(views(a.skip(3)), " "@)),
{
    if a[1]@ == "ping"@ {
        lemma_cmd_ping(a, env, r);
    }
    if a[1]@ == "init"@ {
        lemma_cmd_init(a, env, r);
    }
    if a[1]@ == "status"@ {
        lemma_cmd_status(a, env, r);
    }
    if a[1]@ == "recover"@ && a.len() >= 3 {
        lemma_cmd_recover(a, env, r);
    }
    if a[1]@ == "resolve"@ && a.len() >= 3 {
        lemma_cmd_resolve(a, env, r);
    }
    if a[1]@ == "connect"@ && a.len() >= 3 {
        lemma_cmd_connect(a, env, r);
    }
    if a[1]@ == "send"@ && a.len() >= 4 {
        lemma_cmd_send(a, env, r);
    }
    if a[1]@ == "spawn"@ && a.len() >= 3 {
        lemma_cmd_spawn(a, env, r);
    }
    if a[1]@ == "list"@ {
        lemma_cmd_list(a, env, r);
    }
    if a[1]@ == "stop"@ && a.len() >= 3 {
        lemma_cmd_stop(a, env, r);
    }
    if a[1]@ == "connect-direct"@ && a.len() >= 3 {
        lemma_cmd_connect_direct(a, env, r);
    }
    if a[1]@ == "send-direct"@ && a.len() >= 4 {
        lemma_cmd_send_direct(a, env, r);
    }
}

fn usage(text: &str) -> (r: Result<CliRequest, String>)
    ensures
        err_is(r, text@),
{
    Err(String::from_str(text))
}

fn rest_joined(args: &[String], k: usize) -> (r: String)
    requires
        k <= args@.len(),
    ensures
        r@ == rest_words(args@, k as int),
{
    let r = join(&args[k..args.len()], " ");
    assert(args@.subrange(k as int, args@.len() as int) =~= args@.skip(k as int));
    r
}

/// Turns the program's arguments into a request; `env_mnemonic` is the value
/// of `TSC_MNEMONIC`, empty when it is not set.
pub fn parse_command(args: &[String], env_mnemonic: &str) -> (r: Result<CliRequest, String>)
    ensures
        parsed(args@, env_mnemonic@, r),
{
    if args.len() < 2 {
        return Ok(CliRequest::Send(GhostCommand::Ping));
    }
    let c = args[1].as_str();
    let n = args.len();
    if str_eq(c, "ping") {
        Ok(CliRequest::Send(GhostCommand::Ping))
    } else if str_eq(c, "init") {
        Ok(CliRequest::Send(GhostCommand::InitIdentity))
    } else if str_eq(c, "status") {
        Ok(CliRequest::Send(GhostCommand::Status))
    } else if str_eq(c, "recover") {
        if n < 3 {
            usage("Usage: tsc-cli recover \"<24 mnemonic words>\"")
        } else {
            Ok(CliRequest::Send(GhostCommand::RecoverIdentity { mnemonic: rest_joined(args, 2) }))
        }
    } else if str_eq(c, "resolve") {
        if n < 3 {
            usage("Usage: tsc-cli resolve <GHOST_ID>")
        } else {
            Ok(CliRequest::Send(GhostCommand::Resolve { ghost_id: args[2].clone() }))
        }
    } else if str_eq(c, "connect") {
        if n < 3 {
            usage("Usage: tsc-cli connect <GHOST_ID>")
        } else {
            Ok(CliRequest::Send(GhostCommand::Connect { ghost_id: args[2].clone() }))
        }
    } else if str_eq(c, "send") {
        if n < 4 {
            usage("Usage: tsc-cli send <GHOST_ID> \"<message>\"")
        } else {
            Ok(
                CliRequest::Send(
                    GhostCommand::SendMessage { target_id: args[2].clone(), content: rest_joined(args, 3) },
                ),
            )
        }
    } else if str_eq(c, "spawn") {
        if n < 3 {
            usage("Usage: tsc-cli spawn <IMAGE_HASH> [VAULT_ID]")
        } else {
            let vault_id = if n > 3 {
                Some(args[3].clone())
            } else {
                None
            };
            Ok(CliRequest::Send(GhostCommand::SpawnGhost { image_hash: args[2].clone(), vault_id }))
        }
    } else if str_eq(c, "list") {
        Ok(CliRequest::Send(GhostCommand::ListGhosts))
    } else if str_eq(c, "stop") {
        if n < 3 {
            usage("Usage: tsc-cli stop <GHOST_ID>")
        } else {
            Ok(CliRequest::Send(GhostCommand::StopGhost { ghost_id: args[2].clone() }))
        }
    } else if str_eq(c, "rotate-key") {
        let m = trim(env_mnemonic);
        if m.as_str().is_empty() {
            usage("Set TSC_MNEMONIC=\"word1 ... word24\" before running rotate-key")
        } else {
            Ok(CliRequest::Send(GhostCommand::RotateKey { mnemonic: m }))
        }
    } else if str_eq(c, "connect-direct") {
        if n < 3 {
            usage("Usage: tsc-cli connect-direct <IP:PORT>")
        } else {
            Ok(CliRequest::Send(GhostCommand::ConnectDirect { addr: args[2].clone() }))
        }
    } else if str_eq(c, "send-direct") {
        if n < 4 {
            usage("Usage: tsc-cli send-direct <IP:PORT> \"<message>\"")
        } else {
            Ok(
                CliRequest::Send(
                    GhostCommand::SendDirect { addr: args[2].clone(), content: rest_joined(args, 3) },
                ),
            )
        }
    } else if str_eq(c, "help") || str_eq(c, "--help") || str_eq(c, "-h") {
        Ok(CliRequest::Help)
    } else {
        let mut m = String::from_str("CLI:UNKNOWN_CMD: '");
        m.append(c);
        m.append("'. Run 'tsc-cli help' for usage.");
        Err(m)
    }
}

} // verus!
