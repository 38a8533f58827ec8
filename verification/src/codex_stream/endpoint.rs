//! Where the app-server listens, which binary starts one, and what a crash leaves
//! behind.
//!
//! The caller answers what only the machine knows: which files exist, what a path
//! resolves to, and whether a host is a loopback address.

use crate::text::{
    chars_of, ends_with, first_of, has_char, has_prefix, has_suffix, is_blank, join, join_path,
    last_of, last_position_of, lemma_first_of, path_join, position_of, same_ascii,
    same_ignoring_ascii_case, same_names, same_path, starts_with, str_opt, text_of, text_opt, texts,
    trim, trimmed, after_prefix,
};
use vstd::prelude::*;

verus! {

/// Where to attach.
#[derive(Debug, PartialEq, Eq)]
pub enum Endpoint {
    /// A socket in the file system.
    Unix(String),
    /// A host and a port.
    Tcp(String),
}

/// An [`Endpoint`] as a mathematical value.
pub enum EndpointView {
    Unix(Seq<char>),
    Tcp(Seq<char>),
}

impl View for Endpoint {
    type V = EndpointView;

    open spec fn view(&self) -> EndpointView {
        match self {
            Endpoint::Unix(path) => EndpointView::Unix(path@),
            Endpoint::Tcp(host) => EndpointView::Tcp(host@),
        }
    }
}

/// What tells two endpoints apart.
pub open spec fn endpoint_key(e: EndpointView) -> Seq<char> {
    match e {
        EndpointView::Unix(path) => "unix:"@ + path,
        EndpointView::Tcp(host) => "tcp:"@ + host,
    }
}

impl Endpoint {
    /// What tells two endpoints apart.
    pub fn key(&self) -> (r: String)
        ensures
            r@ == endpoint_key(self@),
    {
        match self {
            Endpoint::Unix(path) => join("unix:", path.as_str()),
            Endpoint::Tcp(host) => join("tcp:", host.as_str()),
        }
    }

    /// How a launcher names the endpoint to Codex.
    pub fn remote_arg(&self) -> (r: String)
        ensures
            r@ == match self@ {
                EndpointView::Unix(path) => "unix://"@ + path,
                EndpointView::Tcp(host) => "ws://"@ + host,
            },
    {
        match self {
            Endpoint::Unix(path) => join("unix://", path.as_str()),
            Endpoint::Tcp(host) => join("ws://", host.as_str()),
        }
    }
}

/// Two endpoints with one key are one endpoint.
pub proof fn law_endpoint_key_is_unique(a: EndpointView, b: EndpointView)
    requires
        endpoint_key(a) == endpoint_key(b),
    ensures
        a == b,
{
    reveal_strlit("unix:");
    reveal_strlit("tcp:");
    let k = endpoint_key(a);
    match (a, b) {
        (EndpointView::Unix(p), EndpointView::Unix(q)) => {
            assert(k.skip(5) =~= p);
            assert(k.skip(5) =~= q);
        },
        (EndpointView::Tcp(p), EndpointView::Tcp(q)) => {
            assert(k.skip(4) =~= p);
            assert(k.skip(4) =~= q);
        },
        (EndpointView::Unix(p), EndpointView::Tcp(q)) => {
            assert(k[0] == 'u');
            assert(k[0] == 't');
        },
        (EndpointView::Tcp(p), EndpointView::Unix(q)) => {
            assert(k[0] == 'u');
            assert(k[0] == 't');
        },
    }
}

/// The directory that Codex lives in: the environment's, unless it is unset or empty.
pub open spec fn home_of(env: Option<Seq<char>>, codex_dir: Seq<char>) -> Seq<char> {
    match env {
        Some(e) => if e.len() > 0 {
            e
        } else {
            codex_dir
        },
        None => codex_dir,
    }
}

/// The directory that Codex lives in: the environment's, unless it is unset or empty.
pub fn codex_home(codex_home_env: Option<&str>, codex_dir: &str) -> (r: String)
    ensures
        r@ == home_of(str_opt(codex_home_env), codex_dir@),
{
    match codex_home_env {
        Some(e) => {
            if chars_of(e).len() > 0 {
                e.to_owned()
            } else {
                codex_dir.to_owned()
            }
        },
        None => codex_dir.to_owned(),
    }
}

/// The control socket below a Codex home.
pub open spec fn control_socket(home: Seq<char>) -> Seq<char> {
    path_join(path_join(home, "app-server-control"@), "app-server-control.sock"@)
}

/// The default control socket of the app-server.
pub fn control_socket_path(codex_home_env: Option<&str>, codex_dir: &str) -> (r: String)
    ensures
        r@ == control_socket(home_of(str_opt(codex_home_env), codex_dir@)),
{
    let home = codex_home(codex_home_env, codex_dir);
    let dir = join_path(home.as_str(), "app-server-control");
    join_path(dir.as_str(), "app-server-control.sock")
}

// ── Addresses ────────────────────────────────────────────────────────────────

/// The authority of a `ws://` address: what stands before the first slash. It is not
/// empty and names no user.
pub open spec fn ws_authority(url: Seq<char>) -> Option<Seq<char>> {
    let u = trim(url);
    if starts_with(u, "ws://"@) {
        let rest = u.skip("ws://"@.len() as int);
        let a = rest.take(first_of(rest, '/'));
        if a.len() > 0 && !a.contains('@') {
            Some(a)
        } else {
            None
        }
    } else {
        None
    }
}

/// The host of an authority: what its brackets hold, else what stands before its last
/// colon.
pub open spec fn authority_host(a: Seq<char>) -> Option<Seq<char>> {
    if a.len() > 0 && a[0] == '[' {
        let rest = a.skip(1);
        if first_of(rest, ']') < rest.len() {
            Some(rest.take(first_of(rest, ']')))
        } else {
            None
        }
    } else if last_of(a, ':') >= 0 {
        Some(a.take(last_of(a, ':')))
    } else {
        None
    }
}

/// The authority of a `ws://` address.
fn authority_of(url: &str) -> (r: Option<String>)
    ensures
        text_opt(r) == ws_authority(url@),
{
    let u = trimmed(url);
    match after_prefix(u.as_str(), "ws://") {
        Some(rest) => {
            let v = chars_of(rest.as_str());
            let n: usize = position_of(&v, '/');
            let a = text_of(&v, 0, n);
            assert(v@.subrange(0, n as int) =~= rest@.take(first_of(rest@, '/')));
            if n > 0 && !has_char(a.as_str(), '@') {
                Some(a)
            } else {
                None
            }
        },
        None => None,
    }
}

/// The host of an authority.
fn host_of(a: &str) -> (r: Option<String>)
    ensures
        text_opt(r) == authority_host(a@),
{
    let v = chars_of(a);
    if v.len() > 0 && v[0] == '[' {
        let rest = text_of(&v, 1, v.len());
        assert(v@.subrange(1, v@.len() as int) =~= a@.skip(1));
        let w = chars_of(rest.as_str());
        let n: usize = position_of(&w, ']');
        if n < w.len() {
            assert(w@.subrange(0, n as int) =~= rest@.take(n as int));
            Some(text_of(&w, 0, n))
        } else {
            None
        }
    } else {
        match last_position_of(&v, ':') {
            Some(n) => {
                assert(v@.subrange(0, n as int) =~= a@.take(n as int));
                Some(text_of(&v, 0, n))
            },
            None => None,
        }
    }
}

/// The host that a `ws://` address names, so that it can be held against the loopback
/// addresses.
pub fn ws_host(url: &str) -> (r: Option<String>)
    ensures
        text_opt(r) == (match ws_authority(url@) {
            Some(a) => authority_host(a),
            None => None,
        }),
{
    match authority_of(url) {
        Some(a) => host_of(a.as_str()),
        None => None,
    }
}

/// What a `ws://` address connects to, where it is on this machine: its host is
/// `localhost` in any case, or a loopback address.
pub open spec fn loopback_authority(url: Seq<char>, loopback_ip: bool) -> Option<Seq<char>> {
    match ws_authority(url) {
        Some(a) => match authority_host(a) {
            Some(h) => if same_ascii(h, "localhost"@) || loopback_ip {
                Some(a)
            } else {
                None
            },
            None => None,
        },
        None => None,
    }
}

/// A loopback-only `ws://host:port[/..]` address as `host:port`. Whether the host that
/// [`ws_host`] names is a loopback address is `loopback_ip`. An unencrypted connection
/// to another machine is never accepted.
pub fn parse_ws_url(url: &str, loopback_ip: bool) -> (r: Option<String>)
    ensures
        text_opt(r) == loopback_authority(url@, loopback_ip),
{
    match authority_of(url) {
        Some(a) => match host_of(a.as_str()) {
            Some(h) => if same_ignoring_ascii_case(h.as_str(), "localhost") || loopback_ip {
                Some(a)
            } else {
                None
            },
            None => None,
        },
        None => None,
    }
}

/// The loopback address that an app-server listens on where there are no sockets in
/// the file system.
pub open spec fn default_tcp() -> Seq<char> {
    "127.0.0.1:4500"@
}

/// Where to attach: a configured address wins, and is refused where it is not on this
/// machine; else the control socket, or the default loopback address.
pub fn resolve_endpoint(
    url_override: &str,
    loopback_ip: bool,
    codex_home_env: Option<&str>,
    codex_dir: &str,
    unix: bool,
) -> (r: Option<Endpoint>)
    ensures
        match r {
            Some(e) => Some(e@),
            None => None,
        } == (if trim(url_override@).len() > 0 {
            match loopback_authority(url_override@, loopback_ip) {
                Some(a) => Some(EndpointView::Tcp(a)),
                None => None,
            }
        } else if unix {
            Some(
                EndpointView::Unix(
                    control_socket(home_of(str_opt(codex_home_env), codex_dir@)),
                ),
            )
        } else {
            Some(EndpointView::Tcp(default_tcp()))
        }),
{
    if !is_blank(url_override) {
        match parse_ws_url(url_override, loopback_ip) {
            Some(a) => Some(Endpoint::Tcp(a)),
            None => None,
        }
    } else if unix {
        Some(Endpoint::Unix(control_socket_path(codex_home_env, codex_dir)))
    } else {
        Some(Endpoint::Tcp("127.0.0.1:4500".to_owned()))
    }
}

/// No configured address leads to another machine: one that is accepted names
/// `localhost` or a loopback address.
pub proof fn law_only_loopback_addresses(url: Seq<char>, loopback_ip: bool)
    ensures
        loopback_authority(url, loopback_ip) is Some ==> ws_authority(url) is Some
            && authority_host(ws_authority(url)->0) is Some && (loopback_ip || same_ascii(
            authority_host(ws_authority(url)->0)->0,
            "localhost"@,
        )),
        loopback_authority(url, loopback_ip) is Some ==> !loopback_authority(
            url,
            loopback_ip,
        )->0.contains('@') && !loopback_authority(url, loopback_ip)->0.contains('/'),
{
    if loopback_authority(url, loopback_ip) is Some {
        let rest = trim(url).skip("ws://"@.len() as int);
        lemma_first_of(rest, '/');
        let a = rest.take(first_of(rest, '/'));
        if a.contains('/') {
            let k = choose|k: int| 0 <= k < a.len() && a[k] == '/';
            assert(rest[k] == '/');
        }
    }
}

// ── Starting a server ────────────────────────────────────────────────────────

/// Whether to start a server behind the control socket. That the connection failed is
/// asked, not that the socket is absent: a socket that nobody serves any more must not
/// keep one from being started.
pub fn should_start_unix_server(
    start_enabled: bool,
    endpoint_unavailable: bool,
    bin_resolved: bool,
    already_owned: bool,
) -> (r: bool)
    ensures
        r == (start_enabled && endpoint_unavailable && bin_resolved && !already_owned),
{
    start_enabled && endpoint_unavailable && bin_resolved && !already_owned
}

/// How a binary's app-server is started.
#[derive(Debug, Clone, Copy, PartialEq, Eq, Structural)]
pub enum UnixStartKind {
    /// Codex keeps the daemon itself.
    ManagedDaemon,
    /// The engine owns the server.
    OwnedServer,
}

/// The standalone binary below a Codex home.
pub open spec fn standalone_bin(home: Seq<char>) -> Seq<char> {
    path_join(home, "packages/standalone/current/codex"@)
}

/// The standalone binary below a Codex home.
pub fn standalone_path(codex_home: &str) -> (r: String)
    ensures
        r@ == standalone_bin(codex_home@),
{
    join_path(codex_home, "packages/standalone/current/codex")
}

/// How a binary's app-server is started: Codex starts a managed daemon only for the
/// standalone install. What the binary and the standalone path resolve to, where they
/// resolve, covers links; a binary of another install is not managed whatever its name.
/// Paths are compared name by name.
pub fn unix_start_kind(
    bin: &str,
    codex_home: &str,
    resolved_bin: Option<&str>,
    resolved_standalone: Option<&str>,
) -> (r: UnixStartKind)
    ensures
        r == (if same_names(bin@, standalone_bin(codex_home@)) || (resolved_bin is Some
            && resolved_standalone is Some && same_names(
            resolved_bin->0@,
            resolved_standalone->0@,
        )) {
            UnixStartKind::ManagedDaemon
        } else {
            UnixStartKind::OwnedServer
        }),
{
    let standalone = standalone_path(codex_home);
    if same_path(bin, standalone.as_str()) {
        return UnixStartKind::ManagedDaemon;
    }
    match (resolved_bin, resolved_standalone) {
        (Some(a), Some(b)) => if same_path(a, b) {
            UnixStartKind::ManagedDaemon
        } else {
            UnixStartKind::OwnedServer
        },
        _ => UnixStartKind::OwnedServer,
    }
}

/// What is peculiar to Windows in the search for the binary.
pub struct WindowsLayout {
    /// Whether the processor is an ARM.
    pub arm: bool,
    /// The roaming application data, where the environment names it.
    pub roaming: Option<String>,
}

/// The directory of the native binary that npm installs on Windows.
pub open spec fn npm_dir(home: Seq<char>, roaming: Option<Seq<char>>, arm: bool) -> Seq<char> {
    let base = match roaming {
        Some(r) => r,
        None => path_join(home, "AppData/Roaming"@),
    };
    let modules = path_join(base, "npm/node_modules/@openai/codex/node_modules"@);
    let package = path_join(
        modules,
        if arm {
            "@openai/codex-win32-arm64"@
        } else {
            "@openai/codex-win32-x64"@
        },
    );
    let target = path_join(
        path_join(package, "vendor"@),
        if arm {
            "aarch64-pc-windows-msvc"@
        } else {
            "x86_64-pc-windows-msvc"@
        },
    );
    path_join(target, "bin"@)
}

/// The directory of the native binary that npm installs on Windows.
fn npm_path(home: &str, layout: &WindowsLayout) -> (r: String)
    ensures
        r@ == npm_dir(home@, text_opt(layout.roaming), layout.arm),
{
    let base = match &layout.roaming {
        Some(r) => r.as_str().to_owned(),
        None => join_path(home, "AppData/Roaming"),
    };
    let modules = join_path(base.as_str(), "npm/node_modules/@openai/codex/node_modules");
    let package = if layout.arm {
        join_path(modules.as_str(), "@openai/codex-win32-arm64")
    } else {
        join_path(modules.as_str(), "@openai/codex-win32-x64")
    };
    let vendor = join_path(package.as_str(), "vendor");
    let target = if layout.arm {
        join_path(vendor.as_str(), "aarch64-pc-windows-msvc")
    } else {
        join_path(vendor.as_str(), "x86_64-pc-windows-msvc")
    };
    join_path(target.as_str(), "bin")
}

/// The directories that are searched after those of the path: a program that was
/// started from a desktop has few there.
pub open spec fn fallback_dirs(
    home: Seq<char>,
    codex_home: Seq<char>,
    windows: Option<(bool, Option<Seq<char>>)>,
) -> Seq<Seq<char>> {
    let common = seq![
        "/usr/local/bin"@,
        "/opt/homebrew/bin"@,
        path_join(home, ".local/bin"@),
        path_join(codex_home, "packages/standalone/current"@),
    ];
    match windows {
        Some(w) => common.push(npm_dir(home, w.1, w.0)),
        None => common,
    }
}

/// What a Windows layout says, as a mathematical value.
pub open spec fn layout_view(w: Option<WindowsLayout>) -> Option<(bool, Option<Seq<char>>)> {
    match w {
        Some(l) => Some((l.arm, text_opt(l.roaming))),
        None => None,
    }
}

/// The name of the file to look for: on Windows a name without an extension is that of
/// a native executable, never of the shell scripts that npm puts beside it.
pub open spec fn bin_name(cfg_bin: Seq<char>, windows: bool, has_extension: bool) -> Seq<char> {
    if windows && !has_extension {
        cfg_bin + ".exe"@
    } else {
        cfg_bin
    }
}

/// The places to look for a binary, in the order in which they are looked at.
pub open spec fn places(dirs: Seq<Seq<char>>, name: Seq<char>) -> Seq<Seq<char>> {
    Seq::new(dirs.len(), |i: int| path_join(dirs[i], name))
}

/// Where the Codex binary may be: an absolute path is used as it is; a bare name is
/// looked for on the path, then in the common install directories.
pub fn bin_candidates(
    cfg_bin: &str,
    absolute: bool,
    has_extension: bool,
    path_dirs: &Vec<String>,
    home: &str,
    codex_home: &str,
    windows: &Option<WindowsLayout>,
) -> (r: Vec<String>)
    ensures
        texts(r@) == (if absolute {
            seq![cfg_bin@]
        } else {
            places(
                texts(path_dirs@) + fallback_dirs(home@, codex_home@, layout_view(*windows)),
                bin_name(cfg_bin@, windows is Some, has_extension),
            )
        }),
{
    let mut out: Vec<String> = Vec::new();
    if absolute {
        out.push(cfg_bin.to_owned());
        assert(texts(out@) =~= seq![cfg_bin@]);
        return out;
    }
    let name = if windows.is_some() && !has_extension {
        join(cfg_bin, ".exe")
    } else {
        cfg_bin.to_owned()
    };
    let mut dirs: Vec<String> = Vec::new();
    dirs.push("/usr/local/bin".to_owned());
    dirs.push("/opt/homebrew/bin".to_owned());
    dirs.push(join_path(home, ".local/bin"));
    dirs.push(join_path(codex_home, "packages/standalone/current"));
    match windows {
        Some(layout) => {
            dirs.push(npm_path(home, layout));
        },
        None => {},
    }
    assert(texts(dirs@) =~= fallback_dirs(home@, codex_home@, layout_view(*windows)));
    let ghost all = texts(path_dirs@) + texts(dirs@);
    let mut i: usize = 0;
    assert(texts(out@) =~= places(all.take(0), name@));
    while i < path_dirs.len()
        invariant
            i <= path_dirs.len(),
            all == texts(path_dirs@) + texts(dirs@),
            texts(out@) == places(all.take(i as int), name@),
        decreases path_dirs.len() - i,
    {
        let ghost before = texts(out@);
        let place = join_path(path_dirs[i].as_str(), name.as_str());
        out.push(place);
        proof {
            assert(all[i as int] == path_dirs@[i as int]@);
            assert(texts(out@) =~= before.push(place@));
            assert(places(all.take(i + 1), name@) =~= places(all.take(i as int), name@).push(
                path_join(all[i as int], name@),
            ));
        }
        i += 1;
    }
    let mut j: usize = 0;
    while j < dirs.len()
        invariant
            j <= dirs.len(),
            all == texts(path_dirs@) + texts(dirs@),
            texts(out@) == places(all.take(path_dirs@.len() + j), name@),
        decreases dirs.len() - j,
    {
        let ghost before = texts(out@);
        let ghost n = path_dirs@.len() + j;
        let place = join_path(dirs[j].as_str(), name.as_str());
        out.push(place);
        proof {
            assert(all[n] == dirs@[j as int]@);
            assert(texts(out@) =~= before.push(place@));
            assert(places(all.take(n + 1), name@) =~= places(all.take(n), name@).push(
                path_join(all[n], name@),
            ));
        }
        j += 1;
    }
    assert(all.take(path_dirs@.len() + j) =~= all);
    out
}

/// The first of the candidates that is a file, given which of them are. One that the
/// list says nothing of is none.
pub fn resolve_codex_bin(candidates: &Vec<String>, is_file: &Vec<bool>) -> (r: Option<String>)
    ensures
        match r {
            Some(bin) => exists|i: int|
                0 <= i < candidates@.len() && i < is_file@.len() && #[trigger] is_file@[i]
                    && candidates@[i]@ == bin@ && (forall|k: int|
                    0 <= k < i ==> !#[trigger] is_file@[k]),
            None => forall|k: int|
                0 <= k < candidates@.len() && k < is_file@.len() ==> !#[trigger] is_file@[k],
        },
{
    let mut i: usize = 0;
    while i < candidates.len() && i < is_file.len()
        invariant
            i <= candidates.len(),
            i <= is_file.len(),
            forall|k: int| 0 <= k < i ==> !#[trigger] is_file@[k],
        decreases candidates.len() - i,
    {
        if is_file[i] {
            assert(is_file@[i as int]);
            return Some(candidates[i].as_str().to_owned());
        }
        i += 1;
    }
    None
}

/// The arguments of an app-server that listens on `listen`.
pub fn app_server_args(listen: &str) -> (r: Vec<String>)
    ensures
        texts(r@) == seq!["app-server"@, "--listen"@, listen@],
{
    let mut out: Vec<String> = Vec::new();
    out.push("app-server".to_owned());
    out.push("--listen".to_owned());
    out.push(listen.to_owned());
    assert(texts(out@) =~= seq!["app-server"@, "--listen"@, listen@]);
    out
}

// ── What a crash leaves behind ───────────────────────────────────────────────

/// The age, in milliseconds, past which a display file is a crash's leftover: a live
/// session touches its file with every batch.
pub const ORPHAN_MAX_AGE: u64 = 604_800_000;

/// Whether a name is that of a session's display file, or of its lock or a temporary.
pub open spec fn display_file(name: Seq<char>) -> bool {
    starts_with(name, "narrate-display-"@) && (ends_with(name, ".json"@) || ends_with(
        name,
        ".lock"@,
    ) || ends_with(name, ".tmp"@))
}

/// Whether a file of the state directory is a crash's leftover, given its age where it
/// is known.
pub fn is_orphaned_state(name: &str, age: Option<u64>) -> (r: bool)
    ensures
        r == (display_file(name@) && age is Some && age->0 > ORPHAN_MAX_AGE),
{
    if !has_prefix(name, "narrate-display-") {
        return false;
    }
    if !(has_suffix(name, ".json") || has_suffix(name, ".lock") || has_suffix(name, ".tmp")) {
        return false;
    }
    match age {
        Some(a) => a > ORPHAN_MAX_AGE,
        None => false,
    }
}

// ── Laws ─────────────────────────────────────────────────────────────────────

proof fn lemma_first_of_split(a: Seq<char>, c: char, rest: Seq<char>)
    requires
        !a.contains(c),
    ensures
        first_of(a, c) == a.len(),
        first_of(a.push(c) + rest, c) == a.len(),
{
    lemma_first_of(a, c);
    let s = a.push(c) + rest;
    lemma_first_of(s, c);
    assert(s[a.len() as int] == c);
    assert(s.contains(c));
    if first_of(s, c) < a.len() {
        assert(a[first_of(s, c)] == c);
    }
}

/// An address gives back what it was made from: `ws://`, an authority and a path name that
/// authority, with white space around them or without; another scheme, an empty authority
/// and one that names a user are no such address.
pub proof fn law_address_gives_its_authority(a: Seq<char>, path: Seq<char>, url: Seq<char>)
    requires
        a.len() > 0,
        !a.contains('/'),
    ensures
        trim(url) == "ws://"@ + a ==> ws_authority(url) == (if a.contains('@') {
            None
        } else {
            Some(a)
        }),
        trim(url) == "ws://"@ + (a.push('/') + path) ==> ws_authority(url) == (if a.contains('@') {
            None
        } else {
            Some(a)
        }),
        !starts_with(trim(url), "ws://"@) ==> ws_authority(url) is None,
        trim(url) == "ws://"@ ==> ws_authority(url) is None,
{
    let p = "ws://"@;
    let long = a.push('/') + path;
    lemma_first_of_split(a, '/', path);
    lemma_first_of(Seq::<char>::empty(), '/');
    assert((p + a).take(p.len() as int) =~= p);
    assert((p + a).skip(p.len() as int) =~= a);
    assert((p + long).take(p.len() as int) =~= p);
    assert((p + long).skip(p.len() as int) =~= long);
    assert(a.take(a.len() as int) =~= a);
    assert(long.take(a.len() as int) =~= a);
    assert(p.skip(p.len() as int) =~= Seq::<char>::empty());
}

/// The host of an authority is what stands before its port, or between its brackets.
pub proof fn law_host_of_an_authority(host: Seq<char>, port: Seq<char>, rest: Seq<char>)
    requires
        !port.contains(':'),
        !host.contains(']'),
        host.len() == 0 || host[0] != '[',
    ensures
        authority_host(host.push(':') + port) == Some(host),
        authority_host(seq!['['] + host.push(']') + rest) == Some(host),
        !host.contains(':') ==> authority_host(host) is None,
{
    let plain = host.push(':') + port;
    crate::text::law_last_place(plain, ':');
    let n = last_of(plain, ':');
    assert(plain[host.len() as int] == ':');
    if n > host.len() {
        assert(port[n - host.len() - 1] == ':');
    }
    assert(n == host.len());
    assert(plain.take(n) =~= host);
    let boxed = seq!['['] + host.push(']') + rest;
    lemma_first_of_split(host, ']', rest);
    assert(boxed.skip(1) =~= host.push(']') + rest);
    assert((host.push(']') + rest).take(host.len() as int) =~= host);
    if !host.contains(':') {
        crate::text::law_last_place(host, ':');
    }
}

/// An address on this machine is accepted as it is, and one elsewhere never.
pub proof fn law_only_this_machine_is_accepted(url: Seq<char>, a: Seq<char>, h: Seq<char>)
    requires
        ws_authority(url) == Some(a),
        authority_host(a) == Some(h),
    ensures
        loopback_authority(url, true) == Some(a),
        same_ascii(h, "localhost"@) ==> loopback_authority(url, false) == Some(a),
        !same_ascii(h, "localhost"@) ==> loopback_authority(url, false) is None,
{
}

/// Codex lives where the environment says, unless it says nothing, and its control socket
/// has its fixed place there.
pub proof fn law_where_codex_lives(env: Seq<char>, dir: Seq<char>)
    requires
        env.len() > 0,
        dir.len() > 0,
        dir.last() != '/',
    ensures
        home_of(Some(env), dir) == env,
        home_of(Some(Seq::empty()), dir) == dir,
        home_of(None, dir) == dir,
        control_socket(dir) == dir + "/app-server-control/app-server-control.sock"@,
        standalone_bin(dir) == dir + "/packages/standalone/current/codex"@,
        default_tcp() == "127.0.0.1:4500"@,
{
    reveal_strlit("app-server-control");
    reveal_strlit("app-server-control.sock");
    reveal_strlit("/app-server-control/app-server-control.sock");
    reveal_strlit("packages/standalone/current/codex");
    reveal_strlit("/packages/standalone/current/codex");
    assert(control_socket(dir) =~= dir + "/app-server-control/app-server-control.sock"@);
    assert(standalone_bin(dir) =~= dir + "/packages/standalone/current/codex"@);
}

/// The program is looked for in the directories of the path before the common ones, each
/// asked for the same name.
pub proof fn law_where_the_program_is_looked_for(
    path_dirs: Seq<Seq<char>>,
    home: Seq<char>,
    codex_home: Seq<char>,
    arm: bool,
    roaming: Option<Seq<char>>,
    name: Seq<char>,
    i: int,
)
    ensures
        ({
            let all = places(path_dirs + fallback_dirs(home, codex_home, None), name);
            &&& all.len() == path_dirs.len() + 4
            &&& 0 <= i < path_dirs.len() ==> all[i] == path_join(path_dirs[i], name)
            &&& all[path_dirs.len() as int] == path_join("/usr/local/bin"@, name)
            &&& all[path_dirs.len() as int + 1] == path_join("/opt/homebrew/bin"@, name)
            &&& all[path_dirs.len() as int + 2] == path_join(path_join(home, ".local/bin"@), name)
            &&& all[path_dirs.len() as int + 3] == path_join(
                path_join(codex_home, "packages/standalone/current"@),
                name,
            )
        }),
        fallback_dirs(home, codex_home, Some((arm, roaming))) == fallback_dirs(
            home,
            codex_home,
            None,
        ).push(npm_dir(home, roaming, arm)),
        bin_name(name, true, false) == name + ".exe"@,
        bin_name(name, true, true) == name,
        bin_name(name, false, false) == name,
        bin_name(name, false, true) == name,
{
}

/// What a crash may leave of a session is known by how its name begins and ends.
pub proof fn law_names_of_display_files(session: Seq<char>, name: Seq<char>)
    ensures
        display_file("narrate-display-"@ + session + ".json"@),
        display_file("narrate-display-"@ + session + ".lock"@),
        display_file("narrate-display-"@ + session + ".tmp"@),
        !starts_with(name, "narrate-display-"@) ==> !display_file(name),
        !ends_with(name, ".json"@) && !ends_with(name, ".lock"@) && !ends_with(name, ".tmp"@)
            ==> !display_file(name),
{
    let p = "narrate-display-"@;
    crate::text::law_pieces_at_the_ends(p, session + ".json"@);
    crate::text::law_pieces_at_the_ends(p, session + ".lock"@);
    crate::text::law_pieces_at_the_ends(p, session + ".tmp"@);
    assert(p + session + ".json"@ =~= p + (session + ".json"@));
    assert(p + session + ".lock"@ =~= p + (session + ".lock"@));
    assert(p + session + ".tmp"@ =~= p + (session + ".tmp"@));
    crate::text::law_pieces_at_the_ends(p + session, ".json"@);
    crate::text::law_pieces_at_the_ends(p + session, ".lock"@);
    crate::text::law_pieces_at_the_ends(p + session, ".tmp"@);
}

/// Where npm puts the native program on Windows: below the roaming data, which the
/// environment names or the home directory holds, in the package of the processor.
pub proof fn law_where_npm_puts_the_program(home: Seq<char>, roaming: Seq<char>)
    ensures
        npm_dir(home, None, true) == npm_dir(home, Some(path_join(home, "AppData/Roaming"@)), true),
        npm_dir(home, None, false) == npm_dir(
            home,
            Some(path_join(home, "AppData/Roaming"@)),
            false,
        ),
        npm_dir(home, Some(roaming), true) == path_join(
            path_join(
                path_join(
                    path_join(
                        path_join(roaming, "npm/node_modules/@openai/codex/node_modules"@),
                        "@openai/codex-win32-arm64"@,
                    ),
                    "vendor"@,
                ),
                "aarch64-pc-windows-msvc"@,
            ),
            "bin"@,
        ),
        npm_dir(home, Some(roaming), false) == path_join(
            path_join(
                path_join(
                    path_join(
                        path_join(roaming, "npm/node_modules/@openai/codex/node_modules"@),
                        "@openai/codex-win32-x64"@,
                    ),
                    "vendor"@,
                ),
                "x86_64-pc-windows-msvc"@,
            ),
            "bin"@,
        ),
{
}

} // verus!
