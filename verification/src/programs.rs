//! The programs and arguments that run a command on a connection (`sh`,
//! `cmd` or `ssh`) or copy files to and from it (`scp`).
use vstd::prelude::*;
use crate::error::SlurmError;
use crate::proto::{ConnectionKind, ConnectionRecord};
use crate::text::{chars_of, dec, dec_chars, has_char, push_all, push_str, string_of, string_views, trim, trim_chars};

verus! {

/// Why a jump host cannot be used.
pub enum JumpFailure {
    Empty,
    MissingHost,
    MissingUsername,
}

/// The `ssh -J` target for a jump host given as `raw`: the trimmed value
/// itself when it names a user or port (`@` or `:`) or no stored connection
/// has it as id (`lookup` is `None`), else `user@host[:port]` of the stored
/// connection.
pub open spec fn jump_target(raw: Seq<char>, lookup: Option<&ConnectionRecord>) -> Result<
    Seq<char>,
    JumpFailure,
> {
    let t = trim(raw);
    if t.len() == 0 {
        Err(JumpFailure::Empty)
    } else if t.contains('@') || t.contains(':') {
        Ok(t)
    } else {
        match lookup {
            None => Ok(t),
            Some(c) => match (c.host, c.username) {
                (None, _) => Err(JumpFailure::MissingHost),
                (Some(_), None) => Err(JumpFailure::MissingUsername),
                (Some(h), Some(u)) => match c.port {
                    Some(p) => Ok(u@ + "@"@ + h@ + ":"@ + dec(p as nat)),
                    None => Ok(u@ + "@"@ + h@),
                },
            },
        }
    }
}

/// The error reported for a jump host failure on the trimmed value `t`.
pub open spec fn jump_error(e: SlurmError, f: JumpFailure, t: Seq<char>) -> bool {
    match f {
        JumpFailure::Empty => e == SlurmError::EmptyJumpHost,
        JumpFailure::MissingHost => e matches SlurmError::JumpHostMissingHost(x) && x@ == t,
        JumpFailure::MissingUsername => e matches SlurmError::JumpHostMissingUsername(x) && x@ == t,
    }
}

/// The stored connection id that a jump host value may name: the trimmed
/// value, when it is not empty and names no user or port (`@` or `:`).
pub fn jump_lookup_key(raw_jump_host: &str) -> (r: Option<String>)
    ensures
        match r {
            Some(k) => k@ == trim(raw_jump_host@) && trim(raw_jump_host@).len() > 0 && !trim(
                raw_jump_host@,
            ).contains('@') && !trim(raw_jump_host@).contains(':'),
            None => trim(raw_jump_host@).len() == 0 || trim(raw_jump_host@).contains('@') || trim(
                raw_jump_host@,
            ).contains(':'),
        },
{
    let raw = chars_of(raw_jump_host);
    let t = trim_chars(raw.as_slice());
    if t.len() == 0 || has_char(t.as_slice(), '@') || has_char(t.as_slice(), ':') {
        None
    } else {
        Some(string_of(t.as_slice()))
    }
}

/// The `ssh -J` target for a jump host; `lookup` is the stored connection
/// whose id is the trimmed value, if there is one.
pub fn resolve_jump_host_value(lookup: Option<&ConnectionRecord>, raw_jump_host: &str) -> (r:
    Result<String, SlurmError>)
    ensures
        match (r, jump_target(raw_jump_host@, lookup)) {
            (Ok(v), Ok(t)) => v@ == t,
            (Err(e), Err(f)) => jump_error(e, f, trim(raw_jump_host@)),
            _ => false,
        },
{
    let raw = chars_of(raw_jump_host);
    let t = trim_chars(raw.as_slice());
    if t.len() == 0 {
        return Err(SlurmError::EmptyJumpHost);
    }
    if has_char(t.as_slice(), '@') || has_char(t.as_slice(), ':') {
        return Ok(string_of(t.as_slice()));
    }
    match lookup {
        None => Ok(string_of(t.as_slice())),
        Some(conn) => {
            let host = match &conn.host {
                Some(h) => h,
                None => {
                    return Err(SlurmError::JumpHostMissingHost(string_of(t.as_slice())));
                },
            };
            let user = match &conn.username {
                Some(u) => u,
                None => {
                    return Err(SlurmError::JumpHostMissingUsername(string_of(t.as_slice())));
                },
            };
            let mut v = chars_of(user.as_str());
            push_str(&mut v, "@");
            push_str(&mut v, host.as_str());
            if let Some(port) = conn.port {
                push_str(&mut v, ":");
                let d = dec_chars(port as u64);
                push_all(&mut v, d.as_slice());
            }
            Ok(string_of(v.as_slice()))
        },
    }
}

/// `user@host` of a connection that has both.
pub open spec fn ssh_destination(c: &ConnectionRecord) -> Seq<char> {
    c.username->0@ + "@"@ + c.host->0@
}

/// The `-o StrictHostKeyChecking=accept-new` options, a port flag, and a
/// `-J` jump target when there is one.
pub open spec fn ssh_options(c: &ConnectionRecord, port_flag: Seq<char>, jump: Option<Seq<char>>) -> Seq<
    Seq<char>,
> {
    seq!["-o"@, "StrictHostKeyChecking=accept-new"@] + match c.port {
        Some(p) => seq![port_flag, dec(p as nat)],
        None => Seq::<Seq<char>>::empty(),
    } + match jump {
        Some(j) => seq!["-J"@, j],
        None => Seq::<Seq<char>>::empty(),
    }
}

/// The resolved jump target of a connection, or the failure.
pub open spec fn connection_jump(c: &ConnectionRecord, lookup: Option<&ConnectionRecord>) -> Result<
    Option<Seq<char>>,
    JumpFailure,
> {
    match c.jump_host {
        None => Ok(None),
        Some(j) => match jump_target(j@, lookup) {
            Ok(t) => Ok(Some(t)),
            Err(f) => Err(f),
        },
    }
}

/// A remote connection's failure to give a program: no host, no user, or a
/// jump host that cannot be used (checked in that order).
pub open spec fn remote_error(
    e: SlurmError,
    c: &ConnectionRecord,
    lookup: Option<&ConnectionRecord>,
) -> bool {
    if c.host is None {
        e == SlurmError::RemoteMissingHost
    } else if c.username is None {
        e == SlurmError::RemoteMissingUsername
    } else {
        match connection_jump(c, lookup) {
            Err(f) => jump_error(e, f, trim(c.jump_host->0@)),
            Ok(_) => false,
        }
    }
}

fn push_lit(args: &mut Vec<String>, s: &str)
    ensures
        string_views(final(args)@) == string_views(old(args)@).push(s@),
{
    let ghost before = string_views(args@);
    args.push(s.to_owned());
    assert(string_views(args@) =~= before.push(s@));
}

fn push_owned(args: &mut Vec<String>, s: String)
    ensures
        string_views(final(args)@) == string_views(old(args)@).push(s@),
{
    let ghost before = string_views(args@);
    args.push(s);
    assert(string_views(args@) =~= before.push(s@));
}

/// The options shared by `ssh` and `scp`.
fn ssh_option_args(
    lookup: Option<&ConnectionRecord>,
    connection: &ConnectionRecord,
    port_flag: &str,
) -> (r: Result<Vec<String>, SlurmError>)
    ensures
        match (r, connection_jump(connection, lookup)) {
            (Ok(args), Ok(j)) => string_views(args@) == ssh_options(connection, port_flag@, j),
            (Err(e), Err(f)) => jump_error(e, f, trim(connection.jump_host->0@)),
            _ => false,
        },
{
    let mut args: Vec<String> = Vec::new();
    assert(string_views(args@) =~= Seq::<Seq<char>>::empty());
    push_lit(&mut args, "-o");
    push_lit(&mut args, "StrictHostKeyChecking=accept-new");
    if let Some(port) = connection.port {
        push_lit(&mut args, port_flag);
        let d = dec_chars(port as u64);
        push_owned(&mut args, string_of(d.as_slice()));
    }
    if let Some(jump_host) = &connection.jump_host {
        let resolved = resolve_jump_host_value(lookup, jump_host.as_str());
        match resolved {
            Ok(v) => {
                push_lit(&mut args, "-J");
                push_owned(&mut args, v);
            },
            Err(e) => {
                return Err(e);
            },
        }
    }
    proof {
        let ghost o = seq!["-o"@, "StrictHostKeyChecking=accept-new"@];
        let ghost pp = match connection.port {
            Some(p) => seq![port_flag@, dec(p as nat)],
            None => Seq::<Seq<char>>::empty(),
        };
        let ghost jj = match connection_jump(connection, lookup) {
            Ok(Some(j)) => seq!["-J"@, j],
            _ => Seq::<Seq<char>>::empty(),
        };
        assert(string_views(args@) =~= o + pp + jj);
    }
    Ok(args)
}

/// The program and arguments that run `command` on a connection: `sh -lc`
/// (or `cmd /C` on Windows) for a local one, else `ssh` with the port, the
/// jump host (resolved through `lookup`, the stored connection whose id the
/// jump host names, if any), `user@host` and the command.
pub fn build_exec_program(
    lookup: Option<&ConnectionRecord>,
    connection: &ConnectionRecord,
    command: &str,
    windows: bool,
) -> (r: Result<(String, Vec<String>), SlurmError>)
    ensures
        connection.kind == ConnectionKind::Local ==> (r matches Ok((p, args)) && (if windows {
            p@ == "cmd"@ && string_views(args@) == seq!["/C"@, command@]
        } else {
            p@ == "sh"@ && string_views(args@) == seq!["-lc"@, command@]
        })),
        connection.kind != ConnectionKind::Local ==> match r {
            Ok((p, args)) => {
                &&& p@ == "ssh"@
                &&& connection.host is Some && connection.username is Some
                &&& connection_jump(connection, lookup) matches Ok(j) && string_views(args@)
                    == ssh_options(connection, "-p"@, j) + seq![
                    ssh_destination(connection),
                    command@,
                ]
            },
            Err(e) => remote_error(e, connection, lookup),
        },
{
    match connection.kind {
        ConnectionKind::Local => {
            let mut args: Vec<String> = Vec::new();
            assert(string_views(args@) =~= Seq::<Seq<char>>::empty());
            if windows {
                push_lit(&mut args, "/C");
                push_owned(&mut args, command.to_owned());
                assert(string_views(args@) =~= seq!["/C"@, command@]);
                Ok(("cmd".to_owned(), args))
            } else {
                push_lit(&mut args, "-lc");
                push_owned(&mut args, command.to_owned());
                assert(string_views(args@) =~= seq!["-lc"@, command@]);
                Ok(("sh".to_owned(), args))
            }
        },
        _ => {
            let host = match &connection.host {
                Some(h) => h,
                None => {
                    return Err(SlurmError::RemoteMissingHost);
                },
            };
            let username = match &connection.username {
                Some(u) => u,
                None => {
                    return Err(SlurmError::RemoteMissingUsername);
                },
            };
            let mut args = ssh_option_args(lookup, connection, "-p")?;
            let mut dest = chars_of(username.as_str());
            push_str(&mut dest, "@");
            push_str(&mut dest, host.as_str());
            push_owned(&mut args, string_of(dest.as_slice()));
            push_owned(&mut args, command.to_owned());
            Ok(("ssh".to_owned(), args))
        },
    }
}

/// The program and arguments that copy `src` to `dst` with `scp`: the port
/// (`-P`), the jump host, `-r` when recursive, and the remote side written
/// `user@host:path` (the source when downloading, else the destination).
pub fn build_scp_program(
    lookup: Option<&ConnectionRecord>,
    connection: &ConnectionRecord,
    src: &str,
    dst: &str,
    recursive: bool,
    download: bool,
) -> (r: Result<(String, Vec<String>), SlurmError>)
    ensures
        match r {
            Ok((p, args)) => {
                &&& p@ == "scp"@
                &&& connection.host is Some && connection.username is Some
                &&& connection_jump(connection, lookup) matches Ok(j) && string_views(args@)
                    == ssh_options(connection, "-P"@, j) + (if recursive {
                    seq!["-r"@]
                } else {
                    Seq::<Seq<char>>::empty()
                }) + if download {
                    seq![ssh_destination(connection) + ":"@ + src@, dst@]
                } else {
                    seq![src@, ssh_destination(connection) + ":"@ + dst@]
                }
            },
            Err(e) => remote_error(e, connection, lookup),
        },
{
    let host = match &connection.host {
        Some(h) => h,
        None => {
            return Err(SlurmError::RemoteMissingHost);
        },
    };
    let username = match &connection.username {
        Some(u) => u,
        None => {
            return Err(SlurmError::RemoteMissingUsername);
        },
    };
    let mut args = ssh_option_args(lookup, connection, "-P")?;
    if recursive {
        push_lit(&mut args, "-r");
    }
    let mut prefix = chars_of(username.as_str());
    push_str(&mut prefix, "@");
    push_str(&mut prefix, host.as_str());
    push_str(&mut prefix, ":");
    if download {
        let mut source = prefix;
        push_str(&mut source, src);
        push_owned(&mut args, string_of(source.as_slice()));
        push_owned(&mut args, dst.to_owned());
    } else {
        let mut destination = prefix;
        push_str(&mut destination, dst);
        push_owned(&mut args, src.to_owned());
        push_owned(&mut args, string_of(destination.as_slice()));
    }
    Ok(("scp".to_owned(), args))
}

} // verus!
