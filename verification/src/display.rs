//! The text the controller shows for each daemon response: what goes to
//! standard output and what goes to standard error.

use vstd::prelude::*;
use vstd::string::*;
use vstd::utf8::*;
use crate::json::decimal_string;
use crate::proto::{DaemonStatus, GhostInfo, GhostResponse, VaultState, dec_chars};
use crate::text::{str_chars, str_eq, views};

verus! {

broadcast use vstd::utf8::group_utf8_lib;

/// `n` spaces.
pub open spec fn spaces(n: nat) -> Seq<char> {
    Seq::new(n, |i: int| ' ')
}

/// `s` followed by spaces up to `w` characters (a `{:<w}` format).
pub open spec fn pad_right(s: Seq<char>, w: nat) -> Seq<char> {
    if s.len() < w {
        s + spaces((w - s.len()) as nat)
    } else {
        s
    }
}

/// Spaces up to `w` characters followed by `s` (a `{:>w}` format).
pub open spec fn pad_left(s: Seq<char>, w: nat) -> Seq<char> {
    if s.len() < w {
        spaces((w - s.len()) as nat) + s
    } else {
        s
    }
}

/// The characters of the first `min(20, byte length)` UTF-8 bytes of `s`.
pub open spec fn head20(s: Seq<char>) -> Seq<char> {
    let b = encode_utf8(s);
    decode_utf8(b.take(if b.len() < 20 { b.len() as int } else { 20 }))
}

/// The first `min(20, byte length)` bytes of `s` end on a character boundary.
pub open spec fn head20_ok(s: Seq<char>) -> bool {
    let b = encode_utf8(s);
    is_char_boundary(b, if b.len() < 20 { b.len() as int } else { 20 })
}

/// What a response prints: `(standard output, standard error)`.
pub struct Printed {
    pub out: String,
    pub err: String,
}

/// The rule line that frames the mnemonic.
pub open spec fn rule() -> Seq<char> {
    "━━━━━━━━━━━━━━━━━━━━━━━━━━━━━━━━━━━━━━━━━━━━"@
}

/// One cell of the mnemonic grid: the word's number and the word; every
/// fourth cell ends its line.
pub open spec fn grid_cell(words: Seq<Seq<char>>, i: int) -> Seq<char> {
    "  "@ + pad_left(dec_chars((i + 1) as nat), 2) + ". "@ + pad_right(words[i], 12) + if (i + 1) % 4 == 0 {
        "\n"@
    } else {
        seq![]
    }
}

/// The first `n` cells of the mnemonic grid.
pub open spec fn grid(words: Seq<Seq<char>>, n: nat) -> Seq<char>
    decreases n,
{
    if n == 0 {
        seq![]
    } else {
        grid(words, (n - 1) as nat) + grid_cell(words, n - 1)
    }
}

/// The text shown for a new mnemonic.
pub open spec fn mnemonic_text(words: Seq<Seq<char>>) -> Seq<char> {
    "\n"@ + rule() + "\n"@ + "  SOVEREIGN IDENTITY INITIALIZED\n"@ + rule() + "\n"@ + "\n"@
        + "  CRITICAL: Write down these 24 words and store\n"@
        + "  them securely offline. This is your Master Seed.\n"@
        + "  If you lose it, your identity is unrecoverable.\n"@ + "\n"@ + grid(words, words.len())
        + "\n"@ + rule() + "\n"@
}

/// The label of a vault state.
pub open spec fn vault_label(v: VaultState) -> Seq<char> {
    match v {
        VaultState::Unlocked => "Unlocked ✓"@,
        VaultState::Locked => "Locked ✗"@,
        VaultState::Ephemeral => "Ephemeral (no vault)"@,
    }
}

/// The text shown for a status snapshot.
pub open spec fn status_text(s: DaemonStatus) -> Seq<char> {
    "\n"@ + "  GhostID  : "@ + s.ghost_id@ + "\n"@ + "  Vault    : "@ + vault_label(s.vault_state) + "\n"@
        + "  Peers    : "@ + dec_chars(s.peer_count as nat) + "\n"@ + "  Ghosts   : "@ + dec_chars(
        s.active_ghosts as nat,
    ) + "\n"@ + "  Uptime   : "@ + dec_chars(s.uptime_secs as nat) + "s\n"@ + "\n"@
}

/// The status text names the vault state on its second line: `Unlocked ✓`
/// for an unlocked vault, `Locked ✗` for a locked one and `Ephemeral (no
/// vault)` without one; two statuses that differ only in their vault state
/// are shown differently.
pub proof fn lemma_status_vault_line(s: DaemonStatus, t: DaemonStatus)
    ensures
        ({
            let head = "\n"@ + "  GhostID  : "@ + s.ghost_id@ + "\n"@ + "  Vault    : "@;
            let label = if s.vault_state is Unlocked {
                "Unlocked ✓"@
            } else if s.vault_state is Locked {
                "Locked ✗"@
            } else {
                "Ephemeral (no vault)"@
            };
            status_text(s).subrange(0, (head + label + "\n"@).len() as int) == head + label + "\n"@
        }),
        s.ghost_id@ == t.ghost_id@ && s.peer_count == t.peer_count && s.active_ghosts == t.active_ghosts
            && s.uptime_secs == t.uptime_secs && s.vault_state != t.vault_state ==> status_text(s) != status_text(t),
{
    reveal_strlit("Unlocked ✓");
    reveal_strlit("Locked ✗");
    reveal_strlit("Ephemeral (no vault)");
    let head = "\n"@ + "  GhostID  : "@ + s.ghost_id@ + "\n"@ + "  Vault    : "@;
    let pre = head + vault_label(s.vault_state) + "\n"@;
    assert(status_text(s).subrange(0, pre.len() as int) =~= pre);
    if s.ghost_id@ == t.ghost_id@ && s.peer_count == t.peer_count && s.active_ghosts == t.active_ghosts
        && s.uptime_secs == t.uptime_secs && s.vault_state != t.vault_state {
        assert(vault_label(s.vault_state).len() != vault_label(t.vault_state).len());
        assert(status_text(s).len() != status_text(t).len());
    }
}

/// The heading of the Ghost table.
pub open spec fn table_heading() -> Seq<char> {
    pad_right("GHOST_ID"@, 20) + " "@ + pad_left("PID"@, 8) + "  "@ + pad_right("VIRTUAL_IP"@, 24) + " "@
        + "UPTIME"@ + "\n"@
}

/// One row of the Ghost table.
pub open spec fn table_row(g: GhostInfo) -> Seq<char> {
    pad_right(head20(g.ghost_id@), 20) + " "@ + pad_left(dec_chars(g.pid as nat), 8) + "  "@ + pad_right(
        g.virtual_ip@,
        24,
    ) + " "@ + dec_chars(g.uptime_secs as nat) + "s\n"@
}

/// The first `n` rows of the Ghost table.
pub open spec fn table_rows(gs: Seq<GhostInfo>, n: nat) -> Seq<char>
    decreases n,
{
    if n == 0 {
        seq![]
    } else {
        table_rows(gs, (n - 1) as nat) + table_row(gs[n - 1])
    }
}

/// The text shown for a list of Ghosts.
pub open spec fn list_text(gs: Seq<GhostInfo>) -> Seq<char> {
    if gs.len() == 0 {
        "[*] No Ghosts currently running.\n"@
    } else {
        table_heading() + table_rows(gs, gs.len())
    }
}

/// What a response prints: `(standard output, standard error)`.
pub open spec fn response_text(r: GhostResponse) -> (Seq<char>, Seq<char>) {
    match r {
        GhostResponse::Ack(m) => ("[+] "@ + m@ + "\n"@, seq![]),
        GhostResponse::Error(e) => (seq![], "[!] Error: "@ + e@ + "\n"@),
        GhostResponse::Mnemonic(words) => (mnemonic_text(views(words@)), seq![]),
        GhostResponse::Status(s) => (status_text(s), seq![]),
        GhostResponse::Resolved { ghost_id, addr } => (
            "[+] Resolved: "@ + ghost_id@ + " → "@ + addr@ + "\n"@,
            seq![],
        ),
        GhostResponse::LinkEstablished { remote_id, addr } => (
            "[+] GSP Link Active: "@ + remote_id@ + " @ "@ + addr@ + "\n"@,
            seq![],
        ),
        GhostResponse::DirectLinkEstablished { remote_id, addr } => (
            "[+] GSP Direct Link: "@ + remote_id@ + " @ "@ + addr@ + "\n"@,
            if remote_id@ == "unverified"@ {
                "[~] Peer is in ephemeral mode — no KERI verification performed.\n"@
            } else {
                seq![]
            },
        ),
        GhostResponse::MessageSent { target_id } => ("[+] Message delivered to "@ + target_id@ + "\n"@, seq![]),
        GhostResponse::GhostSpawned { pid, virtual_ip } => (
            "[+] Ghost running: PID="@ + dec_chars(pid as nat) + " IP="@ + virtual_ip@ + "\n"@,
            seq![],
        ),
        GhostResponse::GhostList(gs) => (list_text(gs@), seq![]),
        GhostResponse::GhostStopped { ghost_id } => ("[+] Ghost "@ + ghost_id@ + " stopped."@ + "\n"@, seq![]),
        GhostResponse::KeyRotated { new_public_key } => (
            "[+] Key rotated. New public key: "@ + new_public_key@ + "\n"@,
            seq![],
        ),
    }
}

/// Every Ghost id of a list can be cut at its 20th byte (or its end).
pub open spec fn printable(r: GhostResponse) -> bool {
    match r {
        GhostResponse::GhostList(gs) => forall|i: int| 0 <= i < gs@.len() ==> head20_ok(#[trigger] gs@[i].ghost_id@),
        _ => true,
    }
}

fn push_spaces(out: &mut String, n: usize)
    ensures
        final(out)@ == old(out)@ + spaces(n as nat),
{
    let ghost start = out@;
    let mut k: usize = 0;
    while k < n
        invariant
            k <= n,
            out@ == start + spaces(k as nat),
        decreases n - k,
    {
        out.append(" ");
        proof {
            reveal_strlit(" ");
        }
        assert(start + spaces((k + 1) as nat) =~= start + spaces(k as nat) + " "@);
        k = k + 1;
    }
}

fn push_pad_right(out: &mut String, s: &str, w: usize)
    ensures
        final(out)@ == old(out)@ + pad_right(s@, w as nat),
{
    let n = str_chars(s).len();
    out.append(s);
    if n < w {
        push_spaces(out, w - n);
    }
    assert(final(out)@ =~= old(out)@ + pad_right(s@, w as nat));
}

fn push_pad_left(out: &mut String, s: &str, w: usize)
    ensures
        final(out)@ == old(out)@ + pad_left(s@, w as nat),
{
    let n = str_chars(s).len();
    if n < w {
        push_spaces(out, w - n);
    }
    out.append(s);
    assert(final(out)@ =~= old(out)@ + pad_left(s@, w as nat));
}

fn push_decimal_text(out: &mut String, n: u64)
    ensures
        final(out)@ == old(out)@ + dec_chars(n as nat),
{
    let d = decimal_string(n);
    out.append(d.as_str());
}

fn mnemonic_output(words: &[String]) -> (r: String)
    ensures
        r@ == mnemonic_text(views(words@)),
{
    let bar = "━━━━━━━━━━━━━━━━━━━━━━━━━━━━━━━━━━━━━━━━━━━━";
    let mut out = String::from_str("\n");
    out.append(bar);
    out.append("\n");
    out.append("  SOVEREIGN IDENTITY INITIALIZED\n");
    out.append(bar);
    out.append("\n");
    out.append("\n");
    out.append("  CRITICAL: Write down these 24 words and store\n");
    out.append("  them securely offline. This is your Master Seed.\n");
    out.append("  If you lose it, your identity is unrecoverable.\n");
    out.append("\n");
    let ghost head = out@;
    let ghost ws = views(words@);
    let mut i: usize = 0;
    while i < words.len()
        invariant
            i <= words@.len(),
            ws == views(words@),
            out@ == head + grid(ws, i as nat),
        decreases words@.len() - i,
    {
        out.append("  ");
        push_pad_left(&mut out, decimal_string((i + 1) as u64).as_str(), 2);
        out.append(". ");
        push_pad_right(&mut out, words[i].as_str(), 12);
        if (i + 1) % 4 == 0 {
            out.append("\n");
        }
        assert(out@ =~= head + grid(ws, (i + 1) as nat));
        i = i + 1;
    }
    out.append("\n");
    out.append(bar);
    out.append("\n");
    assert(out@ =~= mnemonic_text(views(words@)));
    out
}

/// The text shown for a status snapshot.
pub fn status_output(s: &DaemonStatus) -> (r: String)
    ensures
        r@ == status_text(*s),
{
    let label = match s.vault_state {
        VaultState::Unlocked => "Unlocked ✓",
        VaultState::Locked => "Locked ✗",
        VaultState::Ephemeral => "Ephemeral (no vault)",
    };
    let mut out = String::from_str("\n");
    out.append("  GhostID  : ");
    out.append(s.ghost_id.as_str());
    out.append("\n");
    out.append("  Vault    : ");
    out.append(label);
    out.append("\n");
    out.append("  Peers    : ");
    push_decimal_text(&mut out, s.peer_count as u64);
    out.append("\n");
    out.append("  Ghosts   : ");
    push_decimal_text(&mut out, s.active_ghosts as u64);
    out.append("\n");
    out.append("  Uptime   : ");
    push_decimal_text(&mut out, s.uptime_secs);
    out.append("s\n");
    out.append("\n");
    assert(out@ =~= status_text(*s));
    out
}

fn push_row(out: &mut String, g: &GhostInfo)
    requires
        head20_ok(g.ghost_id@),
    ensures
        final(out)@ == old(out)@ + table_row(*g),
{
    let id = g.ghost_id.as_str();
    let blen = id.as_bytes().len();
    let k: usize = if blen < 20 {
        blen
    } else {
        20
    };
    let (cut, _) = id.split_at(k);
    assert(cut@ == decode_utf8(cut.spec_bytes()));
    assert(cut@ == head20(g.ghost_id@));
    push_pad_right(out, cut, 20);
    out.append(" ");
    push_pad_left(out, decimal_string(g.pid as u64).as_str(), 8);
    out.append("  ");
    push_pad_right(out, g.virtual_ip.as_str(), 24);
    out.append(" ");
    push_decimal_text(out, g.uptime_secs);
    out.append("s\n");
    assert(final(out)@ =~= old(out)@ + table_row(*g));
}

fn list_output(gs: &[GhostInfo]) -> (r: String)
    requires
        forall|i: int| 0 <= i < gs@.len() ==> head20_ok(#[trigger] gs@[i].ghost_id@),
    ensures
        r@ == list_text(gs@),
{
    if gs.len() == 0 {
        return String::from_str("[*] No Ghosts currently running.\n");
    }
    let mut out = String::new();
    push_pad_right(&mut out, "GHOST_ID", 20);
    out.append(" ");
    push_pad_left(&mut out, "PID", 8);
    out.append("  ");
    push_pad_right(&mut out, "VIRTUAL_IP", 24);
    out.append(" ");
    out.append("UPTIME");
    out.append("\n");
    assert(out@ =~= table_heading());
    let ghost head = out@;
    let mut i: usize = 0;
    while i < gs.len()
        invariant
            i <= gs@.len(),
            forall|j: int| 0 <= j < gs@.len() ==> head20_ok(#[trigger] gs@[j].ghost_id@),
            out@ == head + table_rows(gs@, i as nat),
        decreases gs@.len() - i,
    {
        assert(head20_ok(gs@[i as int].ghost_id@));
        push_row(&mut out, &gs[i]);
        assert(out@ =~= head + table_rows(gs@, (i + 1) as nat));
        i = i + 1;
    }
    out
}

fn line2(prefix: &str, a: &str) -> (r: String)
    ensures
        r@ == prefix@ + a@ + "\n"@,
{
    let mut out = String::from_str(prefix);
    out.append(a);
    out.append("\n");
    out
}

fn line(prefix: &str, a: &str, mid: &str, b: &str) -> (r: String)
    ensures
        r@ == prefix@ + a@ + mid@ + b@ + "\n"@,
{
    let mut out = String::from_str(prefix);
    out.append(a);
    out.append(mid);
    out.append(b);
    out.append("\n");
    out
}

/// The text a response prints: its standard output and its standard error.
pub fn response_output(resp: &GhostResponse) -> (r: Printed)
    requires
        printable(*resp),
    ensures
        (r.out@, r.err@) == response_text(*resp),
{
    match resp {
        GhostResponse::Ack(m) => Printed { out: line2("[+] ", m.as_str()), err: String::new() },
        GhostResponse::Error(e) => Printed { out: String::new(), err: line2("[!] Error: ", e.as_str()) },
        GhostResponse::Mnemonic(words) => Printed { out: mnemonic_output(words.as_slice()), err: String::new() },
        GhostResponse::Status(s) => Printed { out: status_output(s), err: String::new() },
        GhostResponse::Resolved { ghost_id, addr } => Printed {
            out: line("[+] Resolved: ", ghost_id.as_str(), " → ", addr.as_str()),
            err: String::new(),
        },
        GhostResponse::LinkEstablished { remote_id, addr } => Printed {
            out: line("[+] GSP Link Active: ", remote_id.as_str(), " @ ", addr.as_str()),
            err: String::new(),
        },
        GhostResponse::DirectLinkEstablished { remote_id, addr } => {
            let out = line("[+] GSP Direct Link: ", remote_id.as_str(), " @ ", addr.as_str());
            let err = if str_eq(remote_id.as_str(), "unverified") {
                String::from_str("[~] Peer is in ephemeral mode — no KERI verification performed.\n")
            } else {
                String::new()
            };
            Printed { out, err }
        },
        GhostResponse::MessageSent { target_id } => Printed {
            out: line2("[+] Message delivered to ", target_id.as_str()),
            err: String::new(),
        },
        GhostResponse::GhostSpawned { pid, virtual_ip } => {
            let d = decimal_string(*pid as u64);
            Printed { out: line("[+] Ghost running: PID=", d.as_str(), " IP=", virtual_ip.as_str()), err: String::new() }
        },
        GhostResponse::GhostList(gs) => Printed { out: list_output(gs.as_slice()), err: String::new() },
        GhostResponse::GhostStopped { ghost_id } => Printed {
            out: {
                let mut o = String::from_str("[+] Ghost ");
                o.append(ghost_id.as_str());
                o.append(" stopped.");
                o.append("\n");
                o
            },
            err: String::new(),
        },
        GhostResponse::KeyRotated { new_public_key } => Printed {
            out: line2("[+] Key rotated. New public key: ", new_public_key.as_str()),
            err: String::new(),
        },
    }
}

} // verus!
