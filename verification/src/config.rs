//! The tunnel configuration and the ordered argument list it yields for the
//! external ssh client.

use vstd::prelude::*;
use vstd::string::{StrSliceExecFns, StringExecFns};

use crate::status::{SshStatus, StatusView};
use crate::text::{parse_u32, push_char, spec_decimal, spec_parse_u32, u32_to_string};

verus! {

/// The views of a sequence of owned strings.
pub open spec fn views_of_strings(v: Seq<String>) -> Seq<Seq<char>> {
    v.map_values(|s: String| s@)
}

/// The views of a sequence of borrowed strings.
pub open spec fn views_of_strs(v: Seq<&str>) -> Seq<Seq<char>> {
    v.map_values(|s: &str| s@)
}

/// The model of an [`SshConfig`]: each field as a plain value.
#[verifier::ext_equal]
pub struct ConfigView {
    pub end_host: Seq<char>,
    pub username: Seq<char>,
    pub key_path: Seq<char>,
    pub to_host: Seq<char>,
    pub local_port: u32,
    pub remote_port: u32,
    pub keepalive: u32,
    pub flags: Seq<Seq<char>>,
}

/// Configuration parameters for the ssh tunnel.
///
/// This struct provides all of the parameters necessary for launching an ssh
/// tunnel.
#[derive(Debug)]
pub struct SshConfig {
    /// The end host (most likely an ip address).
    end_host: String,
    /// The username to log in with.
    username: String,
    /// A path to the key file to use, kept in forward-slash form.
    key_path: String,
    /// The host to forward the tunnel to (probably `localhost`).
    to_host: String,
    /// The port to use on the to host.
    local_port: u32,
    /// The port to use on the end host.
    remote_port: u32,
    /// The keepalive time in seconds.
    keepalive: u32,
    /// Any additional flags required.
    flags: Vec<String>,
}

impl View for SshConfig {
    type V = ConfigView;

    closed spec fn view(&self) -> ConfigView {
        ConfigView {
            end_host: self.end_host@,
            username: self.username@,
            key_path: self.key_path@,
            to_host: self.to_host@,
            local_port: self.local_port,
            remote_port: self.remote_port,
            keepalive: self.keepalive,
            flags: views_of_strings(self.flags@),
        }
    }
}

/// The key path with every `C:` pair removed, scanned left to right.
pub open spec fn strip_drive(s: Seq<char>) -> Seq<char>
    decreases s.len(),
{
    if s.len() < 2 {
        s
    } else if s[0] == 'C' && s[1] == ':' {
        strip_drive(s.subrange(2, s.len() as int))
    } else {
        seq![s[0]] + strip_drive(s.subrange(1, s.len() as int))
    }
}

/// A backslash becomes a forward slash; every other character is kept.
pub open spec fn slash_of(c: char) -> char {
    if c == '\\' {
        '/'
    } else {
        c
    }
}

/// The normal form of a key path: drive-letter pairs removed, backslashes
/// turned into forward slashes, as the external client expects on every
/// platform.
pub open spec fn normalize_key_path(s: Seq<char>) -> Seq<char> {
    strip_drive(s).map_values(|c: char| slash_of(c))
}

/// Writes the normal form of `s` from position `i` on to the end of `out`.
fn normalize_into(s: &str, i: usize, out: &mut String)
    requires
        i <= s@.len(),
    ensures
        final(out)@ == old(out)@ + normalize_key_path(s@.subrange(i as int, s@.len() as int)),
    decreases s@.len() - i,
{
    let len: usize = s.unicode_len();
    let ghost rest = s@.subrange(i as int, s@.len() as int);
    if i == len {
        proof {
            assert(rest =~= Seq::<char>::empty());
            assert(normalize_key_path(rest) =~= Seq::<char>::empty());
            assert(out@ + normalize_key_path(rest) =~= out@);
        }
        return;
    }
    let c = s.get_char(i);
    if c == 'C' && i + 1 < len && s.get_char(i + 1) == ':' {
        proof {
            assert(rest.len() >= 2);
            assert(rest[0] == 'C' && rest[1] == ':');
            assert(rest.subrange(2, rest.len() as int) =~= s@.subrange(i + 2, s@.len() as int));
        }
        normalize_into(s, i + 2, out);
    } else {
        let slashed = if c == '\\' {
            '/'
        } else {
            c
        };
        push_char(out, slashed);
        normalize_into(s, i + 1, out);
        proof {
            let rest1 = s@.subrange(i + 1, s@.len() as int);
            assert(rest[0] == c);
            if rest.len() < 2 {
                assert(rest =~= seq![c]);
                assert(rest1 =~= Seq::<char>::empty());
                assert(strip_drive(rest) == rest);
                assert(normalize_key_path(rest) =~= seq![slash_of(c)] + normalize_key_path(rest1));
            } else {
                assert(rest[1] == s@[i + 1]);
                assert(!(rest[0] == 'C' && rest[1] == ':'));
                assert(rest.subrange(1, rest.len() as int) =~= rest1);
                assert(strip_drive(rest) == seq![c] + strip_drive(rest1));
                assert(normalize_key_path(rest) =~= seq![slash_of(c)] + normalize_key_path(rest1));
            }
            assert(old(out)@ + normalize_key_path(rest) =~= (old(out)@ + seq![slash_of(c)])
                + normalize_key_path(rest1));
        }
    }
}

/// Clones a vector of strings element by element.
fn clone_strings(v: &Vec<String>) -> (r: Vec<String>)
    ensures
        r@ == v@,
{
    let mut r: Vec<String> = Vec::new();
    let mut i: usize = 0;
    while i < v.len()
        invariant
            i <= v@.len(),
            r@ =~= v@.subrange(0, i as int),
        decreases v@.len() - i,
    {
        r.push(v[i].clone());
        i += 1;
    }
    assert(r@ =~= v@);
    r
}

impl Clone for SshConfig {
    /// The clone has the same model, so a reconnect attempt reuses exactly
    /// the parameters of the attempt that dropped.
    fn clone(&self) -> (res: Self)
        ensures
            res@ == self@,
    {
        SshConfig {
            end_host: self.end_host.clone(),
            username: self.username.clone(),
            key_path: self.key_path.clone(),
            to_host: self.to_host.clone(),
            local_port: self.local_port,
            remote_port: self.remote_port,
            keepalive: self.keepalive,
            flags: clone_strings(&self.flags),
        }
    }
}

/// The ordered argument list for a configuration: the extra flags first,
/// then the fixed options, the keepalive interval, the forwarding
/// specification, the key path and the user-at-host destination.
pub open spec fn spec_args(c: ConfigView) -> Seq<Seq<char>> {
    c.flags + seq![
        "-o"@,
        "StrictHostKeyChecking=accept-new"@,
        "-o"@,
        "ServerAliveCountMax=1"@,
        "-o"@,
        "ServerAliveInterval="@ + spec_decimal(c.keepalive as nat),
        "-L"@,
        spec_decimal(c.local_port as nat) + ":"@ + c.to_host + ":"@ + spec_decimal(
            c.remote_port as nat,
        ),
        "-i"@,
        c.key_path,
        c.username + "@"@ + c.end_host,
    ]
}

impl SshConfig {
    /// Constructs an `SshConfig` object.
    ///
    /// The key path is normalized to the unix-y form that ssh prefers:
    /// drive-letter pairs are removed and backslashes become forward
    /// slashes.
    pub fn new(
        end_host: &str,
        username: &str,
        key_path: &str,
        to_host: &str,
        local_port: u32,
        remote_port: u32,
        keepalive: u32,
        flags: &[&str],
    ) -> (config: Self)
        ensures
            config@ == (ConfigView {
                end_host: end_host@,
                username: username@,
                key_path: normalize_key_path(key_path@),
                to_host: to_host@,
                local_port: local_port,
                remote_port: remote_port,
                keepalive: keepalive,
                flags: views_of_strs(flags@),
            }),
    {
        let mut kp = String::new();
        normalize_into(key_path, 0, &mut kp);
        proof {
            assert(key_path@.subrange(0, key_path@.len() as int) =~= key_path@);
        }
        let mut flag_vec: Vec<String> = Vec::new();
        let mut i: usize = 0;
        while i < flags.len()
            invariant
                i <= flags@.len(),
                views_of_strings(flag_vec@) =~= views_of_strs(flags@.subrange(0, i as int)),
            decreases flags@.len() - i,
        {
            let f: &str = flags[i];
            let ghost before = flag_vec@;
            flag_vec.push(String::from_str(f));
            proof {
                assert(views_of_strings(before).len() == before.len());
                assert(views_of_strs(flags@.subrange(0, i as int)).len() == i);
                assert(f@ == flags@[i as int]@);
                assert(flag_vec@[i as int]@ == flags@[i as int]@);
                assert(forall|k: int| 0 <= k < i ==> flag_vec@[k] == before[k]);
                assert forall|k: int| 0 <= k < i implies before[k]@ == flags@[k]@ by {
                    assert(views_of_strings(before)[k] == views_of_strs(
                        flags@.subrange(0, i as int),
                    )[k]);
                }
                assert(views_of_strings(flag_vec@) =~= views_of_strs(flags@.subrange(0, i + 1)));
            }
            i += 1;
        }
        assert(flags@.subrange(0, flags@.len() as int) =~= flags@);
        let config = SshConfig {
            end_host: String::from_str(end_host),
            username: String::from_str(username),
            key_path: kp,
            to_host: String::from_str(to_host),
            local_port,
            remote_port,
            keepalive,
            flags: flag_vec,
        };
        assert(config@ =~= (ConfigView {
            end_host: end_host@,
            username: username@,
            key_path: normalize_key_path(key_path@),
            to_host: to_host@,
            local_port: local_port,
            remote_port: remote_port,
            keepalive: keepalive,
            flags: views_of_strs(flags@),
        }));
        config
    }

    /// Converts the config object to the argument vector for the ssh
    /// command line: the extra flags are placed in front of the default
    /// arguments.
    pub fn to_args(&self) -> (args: Vec<String>)
        ensures
            views_of_strings(args@) == spec_args(self@),
    {
        let mut args = clone_strings(&self.flags);
        args.push(String::from_str("-o"));
        args.push(String::from_str("StrictHostKeyChecking=accept-new"));
        args.push(String::from_str("-o"));
        args.push(String::from_str("ServerAliveCountMax=1"));
        args.push(String::from_str("-o"));
        let mut alive = String::from_str("ServerAliveInterval=");
        let keepalive_digits = u32_to_string(self.keepalive);
        alive.append(keepalive_digits.as_str());
        args.push(alive);
        args.push(String::from_str("-L"));
        let mut forward = u32_to_string(self.local_port);
        forward.append(":");
        forward.append(self.to_host.as_str());
        forward.append(":");
        let remote_digits = u32_to_string(self.remote_port);
        forward.append(remote_digits.as_str());
        args.push(forward);
        args.push(String::from_str("-i"));
        args.push(self.key_path.clone());
        let mut destination = self.username.clone();
        destination.append("@");
        destination.append(self.end_host.as_str());
        args.push(destination);
        assert(views_of_strings(args@) =~= spec_args(self@));
        args
    }
}

/// ConfigBuilder is deterministic: configurations with the same model yield
/// the same argument sequence.
pub proof fn lemma_args_deterministic(c1: ConfigView, c2: ConfigView)
    requires
        c1 == c2,
    ensures
        spec_args(c1) == spec_args(c2),
{
}

/// A normalized key path contains no backslash.
pub proof fn lemma_normalized_no_backslash(s: Seq<char>, i: int)
    requires
        0 <= i < normalize_key_path(s).len(),
    ensures
        normalize_key_path(s)[i] != '\\',
{
    assert(normalize_key_path(s)[i] == slash_of(strip_drive(s)[i]));
}

/// The configuration the reference deployment derives from user settings:
/// forward `localhost:<port>` to the fixed remote database port with a fixed
/// keepalive, forcing a terminal over two `-t` flags.
pub open spec fn spec_settings_config(
    host: Seq<char>,
    user: Seq<char>,
    key_path: Seq<char>,
    port: u32,
) -> ConfigView {
    ConfigView {
        end_host: host,
        username: user,
        key_path: normalize_key_path(key_path),
        to_host: "localhost"@,
        local_port: port,
        remote_port: 5432,
        keepalive: 10,
        flags: seq!["-t"@, "-t"@],
    }
}

/// User settings passed down from a front end, as plain strings.
#[derive(Debug)]
pub struct UserSettings {
    pub host: String,
    pub user: String,
    pub port: String,
    pub key_path: String,
}

impl UserSettings {
    /// Converts the user settings to an [`SshConfig`] for the reference
    /// deployment; a port that does not parse as a `u32` is a configuration
    /// error.
    pub fn to_config(&self) -> (result: Result<SshConfig, SshStatus>)
        ensures
            result is Ok <==> spec_parse_u32(self.port@) is Some,
            result matches Ok(config) ==> (spec_parse_u32(self.port@) matches Some(port)
                && config@ == spec_settings_config(self.host@, self.user@, self.key_path@, port)),
            result matches Err(status) ==> status@ == StatusView::ConfigError(
                "Illegal port value"@,
            ),
    {
        match parse_u32(self.port.as_str()) {
            Some(port) => {
                let mut flags: Vec<&str> = Vec::new();
                flags.push("-t");
                flags.push("-t");
                let config = SshConfig::new(
                    self.host.as_str(),
                    self.user.as_str(),
                    self.key_path.as_str(),
                    "localhost",
                    port,
                    5432,
                    10,
                    flags.as_slice(),
                );
                proof {
                    assert(views_of_strs(flags@) =~= seq!["-t"@, "-t"@]);
                    assert(config@ =~= spec_settings_config(
                        self.host@,
                        self.user@,
                        self.key_path@,
                        port,
                    ));
                }
                Ok(config)
            },
            None => Err(SshStatus::ConfigError(String::from_str("Illegal port value"))),
        }
    }
}

} // verus!
