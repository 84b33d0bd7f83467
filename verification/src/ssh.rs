//! Where the tunnel server is, and how `ssh` is called to reach it.
use vstd::prelude::*;

use crate::number::{self, parse_port, to_decimal};
use crate::preset::{Preset, PresetView};
use crate::text::{self, join};

verus! {

/// The program that holds a tunnel open.
pub const SSH_PROGRAM: &'static str = "ssh";

/// The variable that names another server.
pub const HOST_VARIABLE: &'static str = "TUNNELHUNT_HOST";

/// The variable that names another port of the server.
pub const PORT_VARIABLE: &'static str = "TUNNELHUNT_PORT";

/// The server of a build for development.
pub const DEBUG_HOST: &'static str = "localhost";

/// The server of a release.
pub const RELEASE_HOST: &'static str = "tunnelhunt.ru";

/// The port that the server listens on.
pub const DEFAULT_PORT: u16 = 2222;

/// The server and its port: what the environment names, where it does, and the defaults. A port
/// that is none counts as not named.
pub fn get_default_host_port(
    host: Option<String>,
    port: Option<String>,
    debug_build: bool,
) -> (r: (String, u16))
    ensures
        r.0@ == match host {
            Some(host) => host@,
            None => if debug_build {
                "localhost"@
            } else {
                "tunnelhunt.ru"@
            },
        },
        r.1 == match port {
            Some(port) => match number::port_in(port@) {
                Some(p) => p,
                None => 2222,
            },
            None => 2222,
        },
{
    let host = match host {
        Some(host) => host,
        None => if debug_build {
            DEBUG_HOST.to_string()
        } else {
            RELEASE_HOST.to_string()
        },
    };
    let port = match port {
        Some(port) => match parse_port(&port) {
            Some(p) => p,
            None => DEFAULT_PORT,
        },
        None => DEFAULT_PORT,
    };
    (host, port)
}

/// How a private key is named to `ssh`.
pub open spec fn key_arguments(key: Option<Seq<char>>) -> Seq<Seq<char>> {
    match key {
        Some(path) => seq!["-i"@, path],
        None => seq![],
    }
}

/// The arguments of `ssh` for a tunnel: log in without questions, and have the server pass what
/// arrives at its port 80 on to the local port of the preset.
pub open spec fn arguments(
    preset: PresetView,
    host: Seq<char>,
    ssh_port: u16,
) -> Seq<Seq<char>> {
    seq![
        "-tt"@,
        "-p"@,
        number::decimal(ssh_port as nat),
        "-o"@,
        "StrictHostKeyChecking=accept-new"@,
        "-o"@,
        "BatchMode=yes"@,
    ] + key_arguments(preset.ssh_key_path) + seq![
        "-R"@,
        "80:localhost:"@ + number::decimal(preset.port as nat),
        host,
    ]
}

/// The arguments of `ssh` for a tunnel.
pub fn ssh_arguments(preset: &Preset, host: &str, ssh_port: u16) -> (r: Vec<String>)
    ensures
        text::texts(r@) == arguments(preset@, host@, ssh_port),
{
    let mut r: Vec<String> = Vec::new();
    r.push("-tt".to_string());
    r.push("-p".to_string());
    r.push(to_decimal(ssh_port as u64));
    r.push("-o".to_string());
    r.push("StrictHostKeyChecking=accept-new".to_string());
    r.push("-o".to_string());
    r.push("BatchMode=yes".to_string());
    match &preset.ssh_key_path {
        Some(key) => {
            r.push("-i".to_string());
            r.push(key.clone());
        },
        None => {},
    }
    r.push("-R".to_string());
    r.push(join("80:localhost:", &to_decimal(preset.port as u64)));
    r.push(host.to_string());
    assert(text::texts(r@) =~= arguments(preset@, host@, ssh_port));
    r
}

/// A private key is named to `ssh` by `-i` and its path, directly before the forwarding, whatever
/// else the preset holds; a preset without a key has no such option. Only the host, which comes
/// last, is free to read `-i`.
pub proof fn lemma_key_is_used(preset: PresetView, host: Seq<char>, ssh_port: u16)
    ensures
        ({
            let args = arguments(preset, host, ssh_port);
            match preset.ssh_key_path {
                Some(path) => exists|i: int|
                    0 <= i && i + 2 < args.len() && #[trigger] args[i] == "-i"@ && args[i + 1]
                        == path && args[i + 2] == "-R"@,
                None => forall|i: int| 0 <= i < args.len() - 1 ==> #[trigger] args[i] != "-i"@,
            }
        }),
{
    let args = arguments(preset, host, ssh_port);
    reveal_strlit("-i");
    reveal_strlit("-tt");
    reveal_strlit("-p");
    reveal_strlit("-o");
    reveal_strlit("StrictHostKeyChecking=accept-new");
    reveal_strlit("BatchMode=yes");
    reveal_strlit("-R");
    reveal_strlit("80:localhost:");
    match preset.ssh_key_path {
        Some(path) => {
            assert(args[7] == "-i"@ && args[8] == path && args[9] == "-R"@);
        },
        None => {
            assert("-p"@[1] == 'p' && "-o"@[1] == 'o' && "-R"@[1] == 'R' && "-i"@[1] == 'i');
            assert("-tt"@.len() == 3 && "BatchMode=yes"@.len() == 13);
            number::lemma_digits_by_place(ssh_port as nat, (number::decimal(ssh_port as nat).len() - 1) as int);
            assert(number::decimal(ssh_port as nat)[0] != '-');
            assert(args[8].len() >= 13);
        },
    }
}

/// The key is all that a key changes: without its two words the arguments are those of the same
/// preset without a key.
pub proof fn lemma_key_adds_two_arguments(preset: PresetView, host: Seq<char>, ssh_port: u16)
    requires
        preset.ssh_key_path is Some,
    ensures
        arguments(preset, host, ssh_port).len() == 12,
        arguments(preset, host, ssh_port).remove(7).remove(7) == arguments(
            PresetView { ssh_key_path: None, ..preset },
            host,
            ssh_port,
        ),
{
    assert(arguments(preset, host, ssh_port).remove(7).remove(7) =~= arguments(
        PresetView { ssh_key_path: None, ..preset },
        host,
        ssh_port,
    ));
}

/// `ssh` is told the port of the server first and the server last, and in between to ask nothing,
/// to accept a new host key, and to pass port 80 of the server on to the local port. The places
/// from the end hold with a key and without.
pub proof fn lemma_server_and_forwarding(preset: PresetView, host: Seq<char>, ssh_port: u16)
    ensures
        ({
            let args = arguments(preset, host, ssh_port);
            let n = args.len();
            &&& n == if preset.ssh_key_path is Some {
                12nat
            } else {
                10nat
            }
            &&& args[0] == "-tt"@
            &&& args[1] == "-p"@ && args[2] == number::decimal(ssh_port as nat)
            &&& args[3] == "-o"@ && args[4] == "StrictHostKeyChecking=accept-new"@
            &&& args[5] == "-o"@ && args[6] == "BatchMode=yes"@
            &&& args[n - 3] == "-R"@
            &&& args[n - 2] == "80:localhost:"@ + number::decimal(preset.port as nat)
            &&& args[n - 1] == host
        }),
{
}

/// What a preset is called, under which id it is kept and which subdomain it wishes for does not
/// change the arguments.
pub proof fn lemma_arguments_ignore_the_rest(
    one: PresetView,
    other: PresetView,
    host: Seq<char>,
    ssh_port: u16,
)
    requires
        one.port == other.port,
        one.ssh_key_path == other.ssh_key_path,
    ensures
        arguments(one, host, ssh_port) == arguments(other, host, ssh_port),
{
}

/// The program and the variables go by the names that the system knows them under.
pub proof fn lemma_ssh_names()
    ensures
        SSH_PROGRAM@ == "ssh"@,
        HOST_VARIABLE@ == "TUNNELHUNT_HOST"@,
        PORT_VARIABLE@ == "TUNNELHUNT_PORT"@,
        DEBUG_HOST@ == "localhost"@,
        RELEASE_HOST@ == "tunnelhunt.ru"@,
        DEFAULT_PORT == 2222,
{
}

} // verus!
