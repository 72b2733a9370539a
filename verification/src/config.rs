//! Configuration values consumed by the daemon and clients, their
//! defaults, merging, path expansion and the auto rules. Reading the
//! configuration file itself happens at the process edge; this module owns
//! every decision about the values.

use vstd::prelude::*;
use vstd::string::*;

verus! {

// ───────────────────────── string helpers ─────────────────────────

/// Whether `p` is a prefix of `s`.
pub open spec fn spec_has_prefix(s: Seq<char>, p: Seq<char>) -> bool {
    p.len() <= s.len() && s.take(p.len() as int) == p
}

/// Prefix test over characters.
pub fn has_prefix(s: &str, p: &str) -> (r: bool)
    ensures
        r == spec_has_prefix(s@, p@),
{
    let n = s.unicode_len();
    let m = p.unicode_len();
    if m > n {
        proof {
            assert(!spec_has_prefix(s@, p@));
        }
        return false;
    }
    let mut i: usize = 0;
    while i < m
        invariant
            i <= m,
            m <= n,
            n == s@.len(),
            m == p@.len(),
            forall|j: int| 0 <= j < i ==> s@[j] == p@[j],
        decreases m - i,
    {
        if s.get_char(i) != p.get_char(i) {
            proof {
                assert(s@.take(p@.len() as int)[i as int] != p@[i as int]);
            }
            return false;
        }
        i = i + 1;
    }
    proof {
        assert(s@.take(p@.len() as int) =~= p@);
    }
    true
}

fn join_home(home: &str, rest: &str) -> (r: String)
    ensures
        r@ == home@ + rest@,
{
    let mut s = home.to_owned();
    s.append(rest);
    s
}

/// The configuration directory under a home directory.
pub fn config_dir(home: &str) -> (r: String)
    ensures
        r@ == home@ + "/.d1doctor"@,
{
    join_home(home, "/.d1doctor")
}

/// The configuration file path under a home directory.
pub fn config_path(home: &str) -> (r: String)
    ensures
        r@ == home@ + "/.d1doctor/config.toml"@,
{
    join_home(home, "/.d1doctor/config.toml")
}

/// The task database path under a home directory.
pub fn db_path(home: &str) -> (r: String)
    ensures
        r@ == home@ + "/.d1doctor/d1doctor.db"@,
{
    join_home(home, "/.d1doctor/d1doctor.db")
}

// ───────────────────────── client configuration ─────────────────────────

pub fn default_orchestrator_url() -> (r: String)
    ensures
        r@ == "wss://api.day1doctor.com/ws"@,
{
    String::from_str("wss://api.day1doctor.com/ws")
}

pub fn default_daemon_port() -> (r: u16)
    ensures
        r == crate::DEFAULT_DAEMON_PORT,
{
    crate::DEFAULT_DAEMON_PORT
}

/// The default database path, in its unexpanded tilde form.
pub fn default_db_path() -> (r: String)
    ensures
        r@ == "~/.d1doctor/d1doctor.db"@,
{
    String::from_str("~/.d1doctor/d1doctor.db")
}

pub fn default_true() -> (r: bool)
    ensures
        r == true,
{
    true
}

pub fn default_log_level() -> (r: String)
    ensures
        r@ == "info"@,
{
    String::from_str("info")
}

pub fn default_permission_timeout() -> (r: u64)
    ensures
        r == 300,
{
    300
}

pub fn default_cache_ttl() -> (r: u64)
    ensures
        r == 3600,
{
    3600
}

pub struct SupabaseConfig {
    pub project_url: String,
    pub anon_key: String,
}

pub struct DatabaseConfig {
    pub path: String,
    pub wal_enabled: bool,
}

impl Default for DatabaseConfig {
    fn default() -> (r: Self)
        ensures
            r.path@ == "~/.d1doctor/d1doctor.db"@,
            r.wal_enabled == true,
    {
        DatabaseConfig { path: default_db_path(), wal_enabled: default_true() }
    }
}

pub struct LoggingConfig {
    pub level: String,
    pub json: bool,
    pub file: Option<String>,
}

impl Default for LoggingConfig {
    fn default() -> (r: Self)
        ensures
            r.level@ == "info"@,
            r.json == false,
            r.file is None,
    {
        LoggingConfig { level: default_log_level(), json: false, file: None }
    }
}

pub struct PermissionsConfig {
    pub approval_timeout: u64,
    pub cache_ttl: u64,
}

impl Default for PermissionsConfig {
    fn default() -> (r: Self)
        ensures
            r.approval_timeout == 300,
            r.cache_ttl == 3600,
    {
        PermissionsConfig {
            approval_timeout: default_permission_timeout(),
            cache_ttl: default_cache_ttl(),
        }
    }
}

/// The client-side configuration.
pub struct Config {
    pub orchestrator_url: String,
    pub daemon_port: u16,
    pub supabase: Option<SupabaseConfig>,
    pub database: DatabaseConfig,
    pub logging: LoggingConfig,
    pub permissions: PermissionsConfig,
}

impl Default for Config {
    fn default() -> (r: Self)
        ensures
            r.orchestrator_url@ == "wss://api.day1doctor.com/ws"@,
            r.daemon_port == crate::DEFAULT_DAEMON_PORT,
            r.supabase is None,
            r.database.path@ == "~/.d1doctor/d1doctor.db"@,
            r.database.wal_enabled == true,
            r.logging.level@ == "info"@,
            r.permissions.approval_timeout == 300,
            r.permissions.cache_ttl == 3600,
    {
        Config {
            orchestrator_url: default_orchestrator_url(),
            daemon_port: default_daemon_port(),
            supabase: None,
            database: DatabaseConfig::default(),
            logging: LoggingConfig::default(),
            permissions: PermissionsConfig::default(),
        }
    }
}

impl Config {
    /// The configuration file path under a home directory.
    pub fn config_path(home: &str) -> (r: String)
        ensures
            r@ == home@ + "/.d1doctor/config.toml"@,
    {
        config_path(home)
    }

    /// The configuration read from a parsed file, or the defaults when the
    /// file is absent. The process edge parses the file and passes it in.
    pub fn load(parsed: Option<Config>) -> (r: Config)
        ensures
            match parsed {
                Some(c) => r == c,
                None => {
                    &&& r.orchestrator_url@ == "wss://api.day1doctor.com/ws"@
                    &&& r.daemon_port == crate::DEFAULT_DAEMON_PORT
                    &&& r.supabase is None
                    &&& r.database.path@ == "~/.d1doctor/d1doctor.db"@
                    &&& r.database.wal_enabled == true
                    &&& r.logging.level@ == "info"@
                    &&& r.permissions.approval_timeout == 300
                    &&& r.permissions.cache_ttl == 3600
                },
            },
    {
        match parsed {
            Some(c) => c,
            None => Config::default(),
        }
    }

    /// Merges another configuration into this one; the other takes
    /// precedence wherever it differs from the defaults.
    pub fn merge(&mut self, other: Config)
        ensures
            final(self).orchestrator_url@ == (if other.orchestrator_url@
                != "wss://api.day1doctor.com/ws"@ {
                other.orchestrator_url@
            } else {
                old(self).orchestrator_url@
            }),
            final(self).daemon_port == (if other.daemon_port != crate::DEFAULT_DAEMON_PORT {
                other.daemon_port
            } else {
                old(self).daemon_port
            }),
            other.supabase is Some ==> final(self).supabase == other.supabase,
            other.supabase is None ==> final(self).supabase == old(self).supabase,
            final(self).database == other.database,
            final(self).logging == other.logging,
            final(self).permissions == other.permissions,
    {
        let default_url = default_orchestrator_url();
        if !(other.orchestrator_url == default_url) {
            self.orchestrator_url = other.orchestrator_url;
        }
        if other.daemon_port != default_daemon_port() {
            self.daemon_port = other.daemon_port;
        }
        if other.supabase.is_some() {
            self.supabase = other.supabase;
        }
        self.database = other.database;
        self.logging = other.logging;
        self.permissions = other.permissions;
    }
}

// ───────────────────────── daemon configuration ─────────────────────────

pub struct DaemonSection {
    pub port: u16,
    pub log_level: String,
    pub log_file: String,
    pub log_max_size_mb: u32,
    pub db_path: String,
    pub pid_file: String,
    pub shutdown_grace_secs: u32,
}

impl Default for DaemonSection {
    fn default() -> (r: Self)
        ensures
            r.port == 9876,
            r.log_level@ == "info"@,
            r.log_file@ == "~/.d1doctor/daemon.log"@,
            r.log_max_size_mb == 50,
            r.db_path@ == "~/.d1doctor/d1doctor.db"@,
            r.pid_file@ == "~/.d1doctor/d1d.pid"@,
            r.shutdown_grace_secs == 30,
    {
        DaemonSection {
            port: 9876,
            log_level: String::from_str("info"),
            log_file: String::from_str("~/.d1doctor/daemon.log"),
            log_max_size_mb: 50,
            db_path: String::from_str("~/.d1doctor/d1doctor.db"),
            pid_file: String::from_str("~/.d1doctor/d1d.pid"),
            shutdown_grace_secs: 30,
        }
    }
}

pub struct OrchestratorSection {
    pub url: String,
    pub allow_unauthenticated_local: bool,
    pub heartbeat_interval_secs: u64,
    pub reconnect_backoff_base_secs: u64,
    pub reconnect_backoff_max_secs: u64,
}

impl Default for OrchestratorSection {
    fn default() -> (r: Self)
        ensures
            r.url@ == "wss://api.day1doctor.com/ws/connect"@,
            r.allow_unauthenticated_local == false,
            r.heartbeat_interval_secs == 30,
            r.reconnect_backoff_base_secs == 1,
            r.reconnect_backoff_max_secs == 30,
    {
        OrchestratorSection {
            url: String::from_str("wss://api.day1doctor.com/ws/connect"),
            allow_unauthenticated_local: false,
            heartbeat_interval_secs: 30,
            reconnect_backoff_base_secs: 1,
            reconnect_backoff_max_secs: 30,
        }
    }
}

pub struct AuthSection {
    pub device_id: String,
    pub supabase_url: String,
    pub supabase_anon_key: String,
}

impl Default for AuthSection {
    fn default() -> (r: Self)
        ensures
            r.device_id@ == Seq::<char>::empty(),
            r.supabase_url@ == Seq::<char>::empty(),
            r.supabase_anon_key@ == Seq::<char>::empty(),
    {
        AuthSection {
            device_id: String::new(),
            supabase_url: String::new(),
            supabase_anon_key: String::new(),
        }
    }
}

pub struct PermissionsSection {
    pub approval_timeout_secs: u32,
}

impl Default for PermissionsSection {
    fn default() -> (r: Self)
        ensures
            r.approval_timeout_secs == 300,
    {
        PermissionsSection { approval_timeout_secs: 300 }
    }
}

/// The daemon's configuration.
pub struct DaemonConfig {
    pub daemon: DaemonSection,
    pub orchestrator: OrchestratorSection,
    pub auth: AuthSection,
    pub permissions: PermissionsSection,
}

impl Default for DaemonConfig {
    fn default() -> (r: Self)
        ensures
            r.daemon.port == 9876,
            r.daemon.log_level@ == "info"@,
            r.orchestrator.url@ == "wss://api.day1doctor.com/ws/connect"@,
            r.orchestrator.allow_unauthenticated_local == false,
            r.orchestrator.heartbeat_interval_secs == 30,
            r.orchestrator.reconnect_backoff_base_secs == 1,
            r.orchestrator.reconnect_backoff_max_secs == 30,
            r.permissions.approval_timeout_secs == 300,
    {
        DaemonConfig {
            daemon: DaemonSection::default(),
            orchestrator: OrchestratorSection::default(),
            auth: AuthSection::default(),
            permissions: PermissionsSection::default(),
        }
    }
}

/// Whether a URL points at the local loopback over plain ws.
pub open spec fn is_loopback_url(url: Seq<char>) -> bool {
    spec_has_prefix(url, "ws://localhost"@) || spec_has_prefix(url, "ws://127.0.0.1"@)
}

impl DaemonConfig {
    /// Local loopback orchestrators may be used unauthenticated: the flag
    /// is switched on automatically for `ws://localhost...` and
    /// `ws://127.0.0.1...` URLs, and left alone otherwise.
    pub fn apply_auto_rules(&mut self)
        ensures
            final(self).orchestrator.allow_unauthenticated_local == (is_loopback_url(
                old(self).orchestrator.url@,
            ) || old(self).orchestrator.allow_unauthenticated_local),
            final(self).orchestrator.url == old(self).orchestrator.url,
            final(self).orchestrator.heartbeat_interval_secs == old(self).orchestrator.heartbeat_interval_secs,
            final(self).orchestrator.reconnect_backoff_base_secs == old(self).orchestrator.reconnect_backoff_base_secs,
            final(self).orchestrator.reconnect_backoff_max_secs == old(self).orchestrator.reconnect_backoff_max_secs,
            final(self).daemon == old(self).daemon,
            final(self).auth == old(self).auth,
            final(self).permissions == old(self).permissions,
    {
        let local = has_prefix(self.orchestrator.url.as_str(), "ws://localhost") || has_prefix(
            self.orchestrator.url.as_str(),
            "ws://127.0.0.1",
        );
        if local {
            self.orchestrator.allow_unauthenticated_local = true;
        }
    }

    /// The configuration read from a parsed file (with the auto rules
    /// applied), or the defaults when the file is absent.
    pub fn load(parsed: Option<DaemonConfig>) -> (r: DaemonConfig)
        ensures
            match parsed {
                Some(c) => {
                    &&& r.orchestrator.allow_unauthenticated_local == (is_loopback_url(
                        c.orchestrator.url@,
                    ) || c.orchestrator.allow_unauthenticated_local)
                    &&& r.daemon == c.daemon
                    &&& r.auth == c.auth
                    &&& r.permissions == c.permissions
                    &&& r.orchestrator.url == c.orchestrator.url
                    &&& r.orchestrator.heartbeat_interval_secs
                        == c.orchestrator.heartbeat_interval_secs
                    &&& r.orchestrator.reconnect_backoff_base_secs
                        == c.orchestrator.reconnect_backoff_base_secs
                    &&& r.orchestrator.reconnect_backoff_max_secs
                        == c.orchestrator.reconnect_backoff_max_secs
                },
                None => {
                    &&& r.daemon.port == 9876
                    &&& r.daemon.log_level@ == "info"@
                    &&& r.orchestrator.url@ == "wss://api.day1doctor.com/ws/connect"@
                    &&& r.orchestrator.allow_unauthenticated_local == false
                    &&& r.orchestrator.heartbeat_interval_secs == 30
                    &&& r.orchestrator.reconnect_backoff_base_secs == 1
                    &&& r.orchestrator.reconnect_backoff_max_secs == 30
                    &&& r.permissions.approval_timeout_secs == 300
                },
            },
    {
        match parsed {
            Some(c) => {
                let mut cfg = c;
                cfg.apply_auto_rules();
                cfg
            },
            None => DaemonConfig::default(),
        }
    }

    /// Environment overrides for the port, the orchestrator URL (with the
    /// auto rules re-applied) and the log level.
    pub fn apply_env_overrides(
        &mut self,
        port: Option<u16>,
        url: Option<String>,
        log_level: Option<String>,
    )
        ensures
            final(self).daemon.port == (match port {
                Some(p) => p,
                None => old(self).daemon.port,
            }),
            match url {
                Some(u) => final(self).orchestrator.url == u && final(self).orchestrator.allow_unauthenticated_local == (is_loopback_url(u@) || old(self).orchestrator.allow_unauthenticated_local),
                None => final(self).orchestrator.url == old(self).orchestrator.url,
            },
            final(self).daemon.log_level == (match log_level {
                Some(l) => l,
                None => old(self).daemon.log_level,
            }),
    {
        match port {
            Some(p) => {
                self.daemon.port = p;
            },
            None => {
            },
        }
        match url {
            Some(u) => {
                self.orchestrator.url = u;
                self.apply_auto_rules();
            },
            None => {
            },
        }
        match log_level {
            Some(l) => {
                self.daemon.log_level = l;
            },
            None => {
            },
        }
    }

    /// Expands a leading `~/` to the given home directory.
    pub fn expand_path(path: &str, home: &str) -> (r: String)
        ensures
            spec_has_prefix(path@, "~/"@) ==> r@ == home@ + "/"@ + path@.skip(2),
            !spec_has_prefix(path@, "~/"@) ==> r@ == path@,
    {
        if has_prefix(path, "~/") {
            proof {
                reveal_strlit("~/");
            }
            let n = path.unicode_len();
            let rest = path.substring_char(2, n);
            let mut s = home.to_owned();
            s.append("/");
            s.append(rest);
            proof {
                assert(path@.subrange(2, path@.len() as int) =~= path@.skip(2));
                assert(s@ =~= home@ + "/"@ + path@.skip(2));
            }
            s
        } else {
            path.to_owned()
        }
    }

    /// The daemon's database path, with `~` expanded.
    pub fn db_path(&self, home: &str) -> (r: String)
        ensures
            spec_has_prefix(self.daemon.db_path@, "~/"@) ==> r@ == home@ + "/"@
                + self.daemon.db_path@.skip(2),
            !spec_has_prefix(self.daemon.db_path@, "~/"@) ==> r@ == self.daemon.db_path@,
    {
        Self::expand_path(self.daemon.db_path.as_str(), home)
    }
}

} // verus!
