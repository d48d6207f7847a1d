//! The one configuration file, `bemyvpn.toml`, and every default it falls
//! back on. Any key may be missing; the default is taken from here and from
//! nowhere else.
//!
//! Where the file lives is decided from facts the shell gathers (an explicit
//! path, the environment, which files exist); reading and writing it is the
//! shell's business.

use vstd::prelude::*;
use vstd::string::*;
use crate::text::{chars_of, trim_chars, chars_eq_ignore_ascii_case, eq_ignore_ascii_case, trimmed, lines, lines_of, views, words, words_of, parse_u64, spec_parse_u64, split_on, split_char, string_of};

verus! {

/// The one default protocol of the whole project: encryption plus protection
/// against traffic inspection.
pub const DEFAULT_PROTOCOL: &'static str = "noise-obfs";

/// Settings of the coordinator mode (a server of one's own).
#[derive(Clone, Debug)]
pub struct ServerConfig {
    /// Address to listen on.
    pub bind: String,
    /// Domain(s) for automatic HTTPS, comma separated.
    pub domain: String,
    /// Contact for the certificate authority.
    pub acme_email: String,
    /// Directory of the certificate cache.
    pub acme_cache: String,
    /// A certificate of one's own, when not automatic.
    pub tls_cert: String,
    pub tls_key: String,
}

/// Guest settings.
#[derive(Clone, Debug)]
pub struct GuestConfig {
    /// What to do with IPv6 during a session: `"block"` (default) or `"allow"`.
    pub ipv6: String,
}

/// What to do with IPv6 while the tunnel (which carries IPv4 only) is up.
#[derive(Clone, Copy, PartialEq, Eq, Structural, Debug)]
pub enum Ipv6Mode {
    /// Silence IPv6 for the session, so that nothing leaks past the tunnel.
    Block,
    /// Leave IPv6 alone: its traffic goes past the tunnel. Needed where IPv6
    /// is the only way out.
    Allow,
}

/// Host settings.
#[derive(Clone, Debug)]
pub struct HostConfig {
    /// Stable host id; empty means a random one per session.
    pub id: String,
    /// Owner secret of the directory entry; empty means one per session.
    pub token: String,
    /// Human-readable name in the directory.
    pub name: String,
    /// The server's signature of the host id.
    pub code_sig: String,
    pub public: bool,
    pub password: String,
    pub max_guests: u32,
    pub country_hint: String,
}

/// STUN settings.
#[derive(Clone, Debug)]
pub struct StunConfig {
    /// A file listing servers (`host:port` per line, `#` starts a comment).
    pub file: String,
    /// An explicit list; takes precedence over the file.
    pub servers: Vec<String>,
}

/// The client's configuration.
#[derive(Clone, Debug)]
pub struct Config {
    /// Where to find the directory of hosts.
    pub coordinators: Vec<String>,
    /// The protocol: `noise` | `noise-obfs` | `plain`.
    pub default_protocol: String,
    pub guest: GuestConfig,
    pub host: HostConfig,
    pub stun: StunConfig,
    pub server: ServerConfig,
    /// The file this configuration was read from; saving goes back there. Not
    /// a setting: never written into the file.
    pub source: Option<String>,
}

impl ServerConfig {
    pub open spec fn is_default(&self) -> bool {
        &&& self.bind@ == "0.0.0.0:3330"@
        &&& self.domain@.len() == 0
        &&& self.acme_email@.len() == 0
        &&& self.acme_cache@ == "acme-cache"@
        &&& self.tls_cert@.len() == 0
        &&& self.tls_key@.len() == 0
    }
}

impl Default for ServerConfig {
    fn default() -> (c: Self)
        ensures
            c.is_default(),
    {
        ServerConfig {
            bind: String::from_str("0.0.0.0:3330"),
            domain: String::new(),
            acme_email: String::new(),
            acme_cache: String::from_str("acme-cache"),
            tls_cert: String::new(),
            tls_key: String::new(),
        }
    }
}

impl GuestConfig {
    pub open spec fn is_default(&self) -> bool {
        self.ipv6@ == "block"@
    }

    /// The IPv6 mode of the configuration, parsed.
    pub fn ipv6_mode(&self) -> (m: Ipv6Mode)
        ensures
            m == spec_ipv6_mode(self.ipv6@),
    {
        Ipv6Mode::parse(self.ipv6.as_str())
    }
}

impl Default for GuestConfig {
    fn default() -> (c: Self)
        ensures
            c.is_default(),
    {
        GuestConfig { ipv6: String::from_str("block") }
    }
}

/// The one word that lets IPv6 past the tunnel.
pub open spec fn allow_word() -> Seq<char> {
    seq!['a', 'l', 'l', 'o', 'w']
}

/// The mode a configured value means: `allow` (any case, surrounding
/// whitespace ignored) and nothing else allows; everything else, typos and
/// the never-implemented `route` included, blocks.
pub open spec fn spec_ipv6_mode(s: Seq<char>) -> Ipv6Mode {
    if eq_ignore_ascii_case(trimmed(s), allow_word()) {
        Ipv6Mode::Allow
    } else {
        Ipv6Mode::Block
    }
}

impl Ipv6Mode {
    /// Parse a configured value (see [`spec_ipv6_mode`]).
    pub fn parse(s: &str) -> (m: Ipv6Mode)
        ensures
            m == spec_ipv6_mode(s@),
    {
        let cs = chars_of(s);
        let t = trim_chars(cs.as_slice());
        let allow: [char; 5] = ['a', 'l', 'l', 'o', 'w'];
        assert(allow@ =~= allow_word());
        if chars_eq_ignore_ascii_case(t.as_slice(), &allow) {
            Ipv6Mode::Allow
        } else {
            Ipv6Mode::Block
        }
    }

    /// Whether this mode needs IPv6 blocked: the single answer that both
    /// setting up and tearing down ask.
    pub fn needs_block(self) -> (b: bool)
        ensures
            b == (self == Ipv6Mode::Block),
    {
        match self {
            Ipv6Mode::Block => true,
            Ipv6Mode::Allow => false,
        }
    }
}

/// Failing towards safety: only an explicit `allow` lets IPv6 past the tunnel.
pub proof fn law_only_allow_allows(s: Seq<char>)
    ensures
        spec_ipv6_mode(s) == Ipv6Mode::Allow <==> eq_ignore_ascii_case(trimmed(s), allow_word()),
        spec_ipv6_mode(s) == Ipv6Mode::Block ==> !eq_ignore_ascii_case(trimmed(s), allow_word()),
{
}

/// How many guests to offer a new host by default, from the machine's memory
/// (`None`: unknown). About 8 MB per guest at peak, 256 MB left to the system,
/// between 4 and 128, rounded down to a preset of the interface.
pub open spec fn spec_suggested_max_guests(total_ram_mb: Option<u64>) -> u32 {
    let raw: int = match total_ram_mb {
        Some(mb) => {
            let per = (if mb >= 256 {
                mb - 256
            } else {
                0
            }) / 8;
            if per < 4 {
                4
            } else if per > 128 {
                128
            } else {
                per
            }
        },
        None => 64,
    };
    if raw >= 128 {
        128
    } else if raw >= 64 {
        64
    } else if raw >= 32 {
        32
    } else if raw >= 16 {
        16
    } else if raw >= 8 {
        8
    } else {
        4
    }
}

/// The suggested guest limit (see [`spec_suggested_max_guests`]).
pub fn suggested_max_guests(total_ram_mb: Option<u64>) -> (n: u32)
    ensures
        n == spec_suggested_max_guests(total_ram_mb),
        n == 4 || n == 8 || n == 16 || n == 32 || n == 64 || n == 128,
{
    let raw: u64 = match total_ram_mb {
        Some(mb) => {
            let per = mb.saturating_sub(256) / 8;
            if per < 4 {
                4
            } else if per > 128 {
                128
            } else {
                per
            }
        },
        None => 64,
    };
    if raw >= 128 {
        128
    } else if raw >= 64 {
        64
    } else if raw >= 32 {
        32
    } else if raw >= 16 {
        16
    } else if raw >= 8 {
        8
    } else {
        4
    }
}

/// The line prefix of the total memory in `/proc/meminfo`.
pub open spec fn mem_total_prefix() -> Seq<char> {
    seq!['M', 'e', 'm', 'T', 'o', 't', 'a', 'l', ':']
}

/// Total memory in MB from the text of `/proc/meminfo`: the first line
/// starting with `MemTotal:`, its second word read as kilobytes.
pub open spec fn spec_meminfo_total_mb(lines: Seq<Seq<char>>) -> Option<u64>
    decreases lines.len(),
{
    if lines.len() == 0 {
        None
    } else if lines[0].len() >= 9 && lines[0].take(9) == mem_total_prefix() {
        let w = words_of(lines[0]);
        if w.len() < 2 {
            None
        } else {
            match spec_parse_u64(w[1]) {
                Some(kb) => Some(kb / 1024),
                None => None,
            }
        }
    } else {
        spec_meminfo_total_mb(lines.drop_first())
    }
}

/// Total memory in MB (see [`spec_meminfo_total_mb`]).
pub fn meminfo_total_mb(text: &str) -> (r: Option<u64>)
    ensures
        r == spec_meminfo_total_mb(lines_of(text@)),
{
    let cs = chars_of(text);
    let ls = lines(cs.as_slice());
    let prefix: [char; 9] = ['M', 'e', 'm', 'T', 'o', 't', 'a', 'l', ':'];
    assert(prefix@ =~= mem_total_prefix());
    let mut i: usize = 0;
    assert(views(ls@).skip(0) =~= views(ls@));
    while i < ls.len()
        invariant
            i <= ls@.len(),
            views(ls@) == lines_of(text@),
            prefix@ == mem_total_prefix(),
            spec_meminfo_total_mb(lines_of(text@)) == spec_meminfo_total_mb(views(ls@).skip(i as int)),
        decreases ls@.len() - i,
    {
        let l = &ls[i];
        proof {
            assert(views(ls@).skip(i as int)[0] == l@);
            assert(views(ls@).skip(i as int).drop_first() =~= views(ls@).skip(i + 1));
        }
        if l.len() >= 9 && starts_with(l.as_slice(), &prefix) {
            let w = words(l.as_slice());
            assert(views(w@).len() == w@.len());
            if w.len() < 2 {
                return None;
            }
            assert(views(w@)[1] == w@[1]@);
            return match parse_u64(w[1].as_slice()) {
                Some(kb) => Some(kb / 1024),
                None => None,
            };
        }
        i = i + 1;
    }
    None
}

/// Whether `s` begins with `p`.
pub fn starts_with(s: &[char], p: &[char]) -> (b: bool)
    ensures
        b == (s@.len() >= p@.len() && s@.take(p@.len() as int) == p@),
{
    if s.len() < p.len() {
        return false;
    }
    let mut i: usize = 0;
    while i < p.len()
        invariant
            i <= p@.len() <= s@.len(),
            forall|k: int| 0 <= k < i ==> s@[k] == p@[k],
        decreases p@.len() - i,
    {
        if s[i] != p[i] {
            assert(s@.take(p@.len() as int)[i as int] != p@[i as int]);
            return false;
        }
        i = i + 1;
    }
    assert(s@.take(p@.len() as int) =~= p@);
    true
}

impl HostConfig {
    pub open spec fn is_default_for(&self, total_ram_mb: Option<u64>) -> bool {
        &&& self.id@.len() == 0
        &&& self.token@.len() == 0
        &&& self.name@.len() == 0
        &&& self.code_sig@.len() == 0
        &&& !self.public
        &&& self.password@.len() == 0
        &&& self.max_guests == spec_suggested_max_guests(total_ram_mb)
        &&& self.country_hint@ == "auto"@
    }

    /// Host defaults on a machine with `total_ram_mb` of memory (`None`:
    /// unknown): the guest limit follows the memory.
    pub fn default(total_ram_mb: Option<u64>) -> (c: HostConfig)
        ensures
            c.is_default_for(total_ram_mb),
    {
        HostConfig {
            id: String::new(),
            token: String::new(),
            name: String::new(),
            code_sig: String::new(),
            public: false,
            password: String::new(),
            max_guests: suggested_max_guests(total_ram_mb),
            country_hint: String::from_str("auto"),
        }
    }
}

impl StunConfig {
    pub open spec fn is_default(&self) -> bool {
        self.file@ == "stun_servers.txt"@ && self.servers@.len() == 0
    }

    /// The file to read for the server list, if it is needed: only when no
    /// servers are listed explicitly and a file is named.
    pub fn file_to_read(&self) -> (r: Option<String>)
        ensures
            r matches Some(f) ==> f@ == self.file@,
            r is Some <==> (self.servers@.len() == 0 && self.file@.len() > 0),
    {
        if self.servers.len() == 0 && !self.file.as_str().is_empty() {
            Some(self.file.clone())
        } else {
            None
        }
    }

    /// The servers to use: the explicit list, else the file's entries (when
    /// the file was read: `file_text`), else none, which means the built-in
    /// pool.
    pub fn resolve(&self, file_text: Option<&str>) -> (r: Vec<String>)
        ensures
            crate::stun::string_views(r@) == if self.servers@.len() > 0 {
                crate::stun::string_views(self.servers@)
            } else if self.file@.len() > 0 && file_text is Some {
                stun_entries(lines_of(file_text->0@))
            } else {
                Seq::empty()
            },
    {
        if self.servers.len() > 0 {
            return self.servers.clone();
        }
        if !self.file.as_str().is_empty() {
            if let Some(t) = file_text {
                return parse_stun_file(t);
            }
        }
        let r: Vec<String> = Vec::new();
        assert(crate::stun::string_views(r@) =~= Seq::empty());
        r
    }
}

impl Default for StunConfig {
    fn default() -> (c: Self)
        ensures
            c.is_default(),
    {
        StunConfig { file: String::from_str("stun_servers.txt"), servers: Vec::new() }
    }
}

/// The entry a line of a STUN server file holds: the part before any `#`,
/// trimmed.
pub open spec fn stun_entry(line: Seq<char>) -> Seq<char> {
    trimmed(split_char(line, '#')[0])
}

/// The entries of a STUN server file, empty ones skipped.
pub open spec fn stun_entries(ls: Seq<Seq<char>>) -> Seq<Seq<char>>
    decreases ls.len(),
{
    if ls.len() == 0 {
        Seq::empty()
    } else {
        let rest = stun_entries(ls.drop_last());
        let e = stun_entry(ls.last());
        if e.len() == 0 {
            rest
        } else {
            rest.push(e)
        }
    }
}

/// Parse the text of a STUN server file: `host:port` lines, comments after
/// `#` and empty lines skipped.
pub fn parse_stun_file(text: &str) -> (r: Vec<String>)
    ensures
        crate::stun::string_views(r@) == stun_entries(lines_of(text@)),
{
    let cs = chars_of(text);
    let ls = lines(cs.as_slice());
    let mut r: Vec<String> = Vec::new();
    let mut i: usize = 0;
    while i < ls.len()
        invariant
            i <= ls@.len(),
            views(ls@) == lines_of(text@),
            crate::stun::string_views(r@) == stun_entries(views(ls@).take(i as int)),
        decreases ls@.len() - i,
    {
        let pieces = split_on(ls[i].as_slice(), '#');
        let e = trim_chars(pieces[0].as_slice());
        proof {
            assert(views(ls@).take(i + 1).drop_last() =~= views(ls@).take(i as int));
            assert(views(ls@).take(i + 1).last() == ls@[i as int]@);
            assert(views(pieces@)[0] == pieces@[0]@);
            assert(e@ == stun_entry(ls@[i as int]@));
        }
        if e.len() > 0 {
            let ghost before = r@;
            r.push(string_of(e.as_slice()));
            assert(crate::stun::string_views(r@) =~= crate::stun::string_views(before).push(e@));
        }
        i = i + 1;
    }
    assert(views(ls@).take(ls@.len() as int) =~= views(ls@));
    r
}

impl Config {
    /// The defaults, for a machine with `total_ram_mb` of memory.
    pub open spec fn is_default_for(&self, total_ram_mb: Option<u64>) -> bool {
        &&& crate::stun::string_views(self.coordinators@) == seq!["https://bemyvpn.net"@]
        &&& self.default_protocol@ == DEFAULT_PROTOCOL@
        &&& self.guest.is_default()
        &&& self.host.is_default_for(total_ram_mb)
        &&& self.stun.is_default()
        &&& self.server.is_default()
        &&& self.source is None
    }

    /// The defaults on a machine with `total_ram_mb` of memory (`None`:
    /// unknown): the host's guest limit follows the memory.
    pub fn default(total_ram_mb: Option<u64>) -> (c: Config)
        ensures
            c.is_default_for(total_ram_mb),
    {
        let mut coordinators: Vec<String> = Vec::new();
        coordinators.push(String::from_str("https://bemyvpn.net"));
        assert(crate::stun::string_views(coordinators@) =~= seq!["https://bemyvpn.net"@]);
        Config {
            coordinators,
            default_protocol: String::from_str(DEFAULT_PROTOCOL),
            guest: GuestConfig::default(),
            host: HostConfig::default(total_ram_mb),
            stun: StunConfig::default(),
            server: ServerConfig::default(),
            source: None,
        }
    }

    /// Load a configuration from what the search found: `None` when no file
    /// was found (then the defaults of a machine with `total_ram_mb` of
    /// memory hold), or the path and the result of reading and parsing that
    /// file. A loaded configuration remembers its file, so that saving goes
    /// back to it.
    pub fn load(found: Option<(String, Result<Config, crate::error::Error>)>, total_ram_mb: Option<u64>) -> (r: Result<
        Config,
        crate::error::Error,
    >)
        ensures
            found is None ==> (r matches Ok(c) && c.is_default_for(total_ram_mb)),
            found matches Some((p, Ok(c0))) ==> (r matches Ok(c) && c.source matches Some(s) && s@ == p@
                && c.default_protocol == c0.default_protocol && c.coordinators == c0.coordinators && c.guest
                == c0.guest && c.host == c0.host && c.stun == c0.stun && c.server == c0.server),
            found matches Some((_, Err(e0))) ==> (r matches Err(e) && e == e0),
    {
        match found {
            None => Ok(Config::default(total_ram_mb)),
            Some((path, Ok(c))) => {
                let mut c = c;
                c.source = Some(path);
                Ok(c)
            },
            Some((_, Err(e))) => Err(e),
        }
    }

    /// Where the configuration lives by the search rules, without reading it;
    /// `None`: no file at all (the defaults hold).
    pub fn path(env: Option<String>, local_exists: bool, user_path: String, user_exists: bool) -> (r: Option<String>)
        ensures
            opt_view(r) == spec_resolve_path(None, opt_view(env), local_exists, user_path@, user_exists),
    {
        resolve_path(None, env, local_exists, user_path, user_exists)
    }

    /// The coordinator to talk to: the first one configured.
    pub fn first_coordinator(&self) -> (r: Result<String, crate::error::Error>)
        ensures
            self.coordinators@.len() > 0 ==> (r matches Ok(u) && u@ == self.coordinators@[0]@),
            self.coordinators@.len() == 0 ==> (r matches Err(crate::error::Error::Config(m)) && m@
                == "Не задан адрес сервера — укажите его во вкладке «Сервер»."@),
    {
        if self.coordinators.len() > 0 {
            Ok(self.coordinators[0].clone())
        } else {
            Err(crate::error::Error::Config(String::from_str("Не задан адрес сервера — укажите его во вкладке «Сервер».")))
        }
    }

    /// Where saving writes: back to the file it was read from, else the user
    /// path.
    pub fn save_path(&self, user_path: String) -> (p: String)
        ensures
            p@ == match self.source {
                Some(s) => s@,
                None => user_path@,
            },
    {
        match &self.source {
            Some(s) => s.clone(),
            None => user_path,
        }
    }
}

/// The local file name searched next to the program.
pub open spec fn local_name() -> Seq<char> {
    "bemyvpn.toml"@
}

/// The view of an optional string.
pub open spec fn opt_view(o: Option<String>) -> Option<Seq<char>> {
    match o {
        Some(s) => Some(s@),
        None => None,
    }
}

/// The search order: an explicit path; then `BEMYVPN_CONFIG` if it is set and
/// not empty; then `./bemyvpn.toml` if it exists; then the user path if that
/// exists; else nothing.
pub open spec fn spec_resolve_path(
    explicit: Option<Seq<char>>,
    env: Option<Seq<char>>,
    local_exists: bool,
    user_path: Seq<char>,
    user_exists: bool,
) -> Option<Seq<char>> {
    if explicit is Some {
        explicit
    } else if env matches Some(e) && e.len() > 0 {
        env
    } else if local_exists {
        Some(local_name())
    } else if user_exists {
        Some(user_path)
    } else {
        None
    }
}

/// Find the configuration file (see [`spec_resolve_path`]).
pub fn resolve_path(
    explicit: Option<String>,
    env: Option<String>,
    local_exists: bool,
    user_path: String,
    user_exists: bool,
) -> (r: Option<String>)
    ensures
        opt_view(r) == spec_resolve_path(opt_view(explicit), opt_view(env), local_exists, user_path@, user_exists),
{
    if explicit.is_some() {
        return explicit;
    }
    if let Some(e) = &env {
        if !e.as_str().is_empty() {
            return env;
        }
    }
    if local_exists {
        return Some(String::from_str("bemyvpn.toml"));
    }
    if user_exists {
        return Some(user_path);
    }
    None
}

/// An exact copy of a list of strings.
pub fn copy_strings(v: &[String]) -> (r: Vec<String>)
    ensures
        r@ == v@,
{
    let mut r: Vec<String> = Vec::new();
    let mut i: usize = 0;
    while i < v.len()
        invariant
            i <= v@.len(),
            r@ == v@.take(i as int),
        decreases v@.len() - i,
    {
        r.push(v[i].clone());
        i = i + 1;
        assert(r@ =~= v@.take(i as int));
    }
    assert(v@.take(v@.len() as int) =~= v@);
    r
}

impl Config {
    /// Whether two configurations hold the same settings.
    pub open spec fn same_as(&self, o: &Config) -> bool {
        &&& self.coordinators@ == o.coordinators@
        &&& self.default_protocol == o.default_protocol
        &&& self.guest.ipv6 == o.guest.ipv6
        &&& self.host.id == o.host.id
        &&& self.host.token == o.host.token
        &&& self.host.name == o.host.name
        &&& self.host.code_sig == o.host.code_sig
        &&& self.host.public == o.host.public
        &&& self.host.password == o.host.password
        &&& self.host.max_guests == o.host.max_guests
        &&& self.host.country_hint == o.host.country_hint
        &&& self.stun.file == o.stun.file
        &&& self.stun.servers@ == o.stun.servers@
        &&& self.server.bind == o.server.bind
        &&& self.server.domain == o.server.domain
        &&& self.server.acme_email == o.server.acme_email
        &&& self.server.acme_cache == o.server.acme_cache
        &&& self.server.tls_cert == o.server.tls_cert
        &&& self.server.tls_key == o.server.tls_key
        &&& self.source == o.source
    }

    /// An exact copy.
    pub fn duplicate(&self) -> (c: Config)
        ensures
            c.same_as(self),
    {
        Config {
            coordinators: copy_strings(self.coordinators.as_slice()),
            default_protocol: self.default_protocol.clone(),
            guest: GuestConfig { ipv6: self.guest.ipv6.clone() },
            host: HostConfig {
                id: self.host.id.clone(),
                token: self.host.token.clone(),
                name: self.host.name.clone(),
                code_sig: self.host.code_sig.clone(),
                public: self.host.public,
                password: self.host.password.clone(),
                max_guests: self.host.max_guests,
                country_hint: self.host.country_hint.clone(),
            },
            stun: StunConfig { file: self.stun.file.clone(), servers: copy_strings(self.stun.servers.as_slice()) },
            server: ServerConfig {
                bind: self.server.bind.clone(),
                domain: self.server.domain.clone(),
                acme_email: self.server.acme_email.clone(),
                acme_cache: self.server.acme_cache.clone(),
                tls_cert: self.server.tls_cert.clone(),
                tls_key: self.server.tls_key.clone(),
            },
            source: match &self.source {
                Some(p) => Some(p.clone()),
                None => None,
            },
        }
    }
}

/// The parts of the user's configuration path, to be joined as path
/// components: the configuration base (`XDG_CONFIG_HOME`, else `APPDATA`,
/// else `HOME` and `.config`, else the current directory), then
/// `bemyvpn/config.toml`.
pub fn user_path_components(xdg: Option<String>, appdata: Option<String>, home: Option<String>) -> (r: Vec<String>)
    ensures
        crate::stun::string_views(r@) == (match (xdg, appdata, home) {
            (Some(x), _, _) => seq![x@],
            (None, Some(a), _) => seq![a@],
            (None, None, Some(h)) => seq![h@, ".config"@],
            (None, None, None) => seq!["."@],
        }) + seq!["bemyvpn"@, "config.toml"@],
{
    let mut r: Vec<String> = Vec::new();
    match (xdg, appdata, home) {
        (Some(x), _, _) => r.push(x),
        (None, Some(a), _) => r.push(a),
        (None, None, Some(h)) => {
            r.push(h);
            r.push(String::from_str(".config"));
        },
        (None, None, None) => r.push(String::from_str(".")),
    }
    let ghost base = crate::stun::string_views(r@);
    r.push(String::from_str("bemyvpn"));
    r.push(String::from_str("config.toml"));
    assert(crate::stun::string_views(r@) =~= base + seq!["bemyvpn"@, "config.toml"@]);
    r
}

/// A number as `u32::from_str` reads it.
pub open spec fn spec_parse_u32(s: Seq<char>) -> Option<u32> {
    match spec_parse_u64(s) {
        Some(n) => if n <= u32::MAX {
            Some(n as u32)
        } else {
            None
        },
        None => None,
    }
}

/// Under `sudo`, the owner to give the configuration file back to: the
/// invoking user's `SUDO_UID` and `SUDO_GID`, when both are set and are
/// numbers. (Otherwise the file simply stays root's.)
pub fn restore_owner_after_sudo(uid: Option<&str>, gid: Option<&str>) -> (r: Option<(u32, u32)>)
    ensures
        r == match (uid, gid) {
            (Some(u), Some(g)) => match (spec_parse_u32(u@), spec_parse_u32(g@)) {
                (Some(a), Some(b)) => Some((a, b)),
                _ => None,
            },
            _ => None,
        },
{
    match (uid, gid) {
        (Some(u), Some(g)) => {
            let a = parse_u32(u);
            let b = parse_u32(g);
            match (a, b) {
                (Some(a), Some(b)) => Some((a, b)),
                _ => None,
            }
        },
        _ => None,
    }
}

fn parse_u32(s: &str) -> (r: Option<u32>)
    ensures
        r == spec_parse_u32(s@),
{
    let cs = chars_of(s);
    match parse_u64(cs.as_slice()) {
        Some(n) => if n <= 0xffff_ffff {
            Some(n as u32)
        } else {
            None
        },
        None => None,
    }
}

} // verus!
