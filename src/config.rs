use vstd::prelude::*;

verus! {

/// How much diagnostic output the tools produce.
#[derive(Debug, Clone, Copy, PartialEq, Eq, PartialOrd, Ord, Default)]
pub enum Verbosity {
    #[default]
    Quiet,
    Error,
    Warn,
    Info,
    Debug,
    Trace,
}

impl Verbosity {
    /// The numeric level, from 0 (quiet) to 5 (trace).
    pub open spec fn level(self) -> nat {
        match self {
            Verbosity::Quiet => 0,
            Verbosity::Error => 1,
            Verbosity::Warn => 2,
            Verbosity::Info => 3,
            Verbosity::Debug => 4,
            Verbosity::Trace => 5,
        }
    }

    /// The level for a count of `-v` flags; counts above five saturate.
    pub fn from_count(count: u8) -> (r: Self)
        ensures
            count <= 5 ==> r.level() == count as nat,
            count > 5 ==> r == Verbosity::Trace,
    {
        match count {
            0 => Verbosity::Quiet,
            1 => Verbosity::Error,
            2 => Verbosity::Warn,
            3 => Verbosity::Info,
            4 => Verbosity::Debug,
            _ => Verbosity::Trace,
        }
    }

    pub fn log_all_events(&self) -> (r: bool)
        ensures
            r == (self.level() >= 5),
    {
        match self {
            Verbosity::Trace => true,
            _ => false,
        }
    }

    pub fn log_window_events(&self) -> (r: bool)
        ensures
            r == (self.level() >= 4),
    {
        match self {
            Verbosity::Debug | Verbosity::Trace => true,
            _ => false,
        }
    }
}


pub fn default_app_id() -> (r: String)
    ensures
        r@ == "kitty"@,
{
    String::from_str("kitty")
}

pub fn default_verbose() -> (r: bool)
    ensures
        !r,
{
    false
}

/// Seconds to wait for a session to be established.
pub fn default_socket_timeout() -> (r: u64)
    ensures
        r == 5,
{
    5
}

pub fn default_max_retries() -> (r: u32)
    ensures
        r == 3,
{
    3
}

pub fn default_max_connections() -> (r: usize)
    ensures
        r == 30,
{
    30
}

/// Seconds a session may stay unused before it is reaped.
pub fn default_idle_timeout() -> (r: u64)
    ensures
        r == 1800,
{
    1800
}

/// Seconds between two sweeps of the reaper.
pub fn default_reap_interval() -> (r: u64)
    ensures
        r == 300,
{
    300
}

/// Font points moved by one adjustment command.
pub fn default_step_size() -> (r: u32)
    ensures
        r == 1,
{
    1
}

/// Milliseconds in `secs` seconds, saturating at the largest `u64`.
pub open spec fn secs_to_ms(secs: u64) -> u64 {
    if secs as int * 1000 > u64::MAX as int {
        u64::MAX
    } else {
        (secs * 1000) as u64
    }
}

pub fn secs_to_millis(secs: u64) -> (r: u64)
    ensures
        r == secs_to_ms(secs),
{
    match secs.checked_mul(1000) {
        Some(v) => v,
        None => u64::MAX,
    }
}

/// Settings of the connection registry; times are in milliseconds.
#[derive(Debug, Clone, Copy, PartialEq, Eq)]
pub struct RegistryConfig {
    pub socket_timeout_ms: u64,
    pub max_retries: u32,
    pub max_connections: usize,
    pub idle_timeout_ms: u64,
    pub reap_interval_ms: u64,
    pub verbose: bool,
}

impl Default for RegistryConfig {
    fn default() -> (r: Self)
        ensures
            r.socket_timeout_ms == 5000,
            r.max_retries == 3,
            r.max_connections == 30,
            r.idle_timeout_ms == 1_800_000,
            r.reap_interval_ms == 300_000,
            !r.verbose,
    {
        RegistryConfig {
            socket_timeout_ms: secs_to_millis(default_socket_timeout()),
            max_retries: default_max_retries(),
            max_connections: default_max_connections(),
            idle_timeout_ms: secs_to_millis(default_idle_timeout()),
            reap_interval_ms: secs_to_millis(default_reap_interval()),
            verbose: default_verbose(),
        }
    }
}

impl RegistryConfig {
    /// Accepts settings that leave room for at least one session.
    pub fn validate(&self) -> (r: Result<(), String>)
        ensures
            r is Ok <==> self.max_connections >= 1,
            r matches Err(m) ==> m@ == "max_connections must be at least 1"@,
    {
        if self.max_connections == 0 {
            Err(String::from_str("max_connections must be at least 1"))
        } else {
            Ok(())
        }
    }
}

/// Options given on the command line that override the configuration.
#[derive(Debug, Clone)]
pub struct CliArgs {
    pub app_id: String,
    pub verbosity: Verbosity,
    pub socket_timeout: u64,
    pub max_retries: u32,
    pub max_connections: usize,
    pub idle_timeout: u64,
    pub reap_interval: u64,
}

/// Hundredths of a point in one font point.
pub const CENTIPOINTS_PER_POINT: u32 = 100;

/// A zoom factor of 1, in thousandths.
pub const FACTOR_ONE: u32 = 1000;

/// How the font of a focused window is chosen.
#[derive(Debug, Clone, Copy, PartialEq, Eq, Structural)]
pub enum ZoomType {
    /// Set to an absolute font size.
    Absolute,
    /// Add an amount to the current font size.
    Additive,
    /// Scale the font size by a factor.
    Multiplicative,
}

/// The zoom policy. Font sizes and amounts are in hundredths of a point,
/// factors in thousandths; `step_size` is in whole points.
#[derive(Debug, Clone, Copy, PartialEq, Eq)]
pub struct ZoomConfig {
    pub absolute: Option<u32>,
    pub additive: Option<u32>,
    pub multiplicative: Option<u32>,
    pub step_size: u32,
    /// Land exactly on the target, with a last partial step, rather than
    /// rounding the number of whole steps up.
    pub exact_steps: bool,
    /// Ignore a focus loss of a process that was never seen gaining focus,
    /// rather than treating it as one at the baseline.
    pub blur_requires_focus: bool,
}

impl Default for ZoomConfig {
    fn default() -> (r: Self)
        ensures
            r.absolute is None,
            r.additive is None,
            r.multiplicative is None,
            r.step_size == 1,
            !r.exact_steps,
            !r.blur_requires_focus,
    {
        ZoomConfig {
            absolute: None,
            additive: None,
            multiplicative: None,
            step_size: default_step_size(),
            exact_steps: false,
            blur_requires_focus: false,
        }
    }
}

/// The names of the zoom types that are set, in declaration order.
pub open spec fn set_type_names(c: ZoomConfig) -> Seq<Seq<char>> {
    (if c.absolute is Some { seq!["absolute"@] } else { Seq::empty() })
        + (if c.additive is Some { seq!["additive"@] } else { Seq::empty() })
        + (if c.multiplicative is Some { seq!["multiplicative"@] } else { Seq::empty() })
}

/// The names joined by a comma and a space.
pub open spec fn join_names(names: Seq<Seq<char>>) -> Seq<char>
    decreases names.len(),
{
    if names.len() == 0 {
        Seq::empty()
    } else if names.len() == 1 {
        names[0]
    } else {
        join_names(names.drop_last()) + ", "@ + names.last()
    }
}

pub open spec fn multiple_types_message(c: ZoomConfig) -> Seq<char> {
    "Multiple zoom types configured: "@ + join_names(set_type_names(c))
        + ". Only one zoom type may be set."@
}

pub open spec fn active_type_of(c: ZoomConfig) -> Option<ZoomType> {
    if c.absolute is Some {
        Some(ZoomType::Absolute)
    } else if c.additive is Some {
        Some(ZoomType::Additive)
    } else if c.multiplicative is Some {
        Some(ZoomType::Multiplicative)
    } else {
        None
    }
}

/// At most one zoom type, a step of at least one point, and a positive
/// factor.
pub open spec fn valid_zoom_config(c: ZoomConfig) -> bool {
    &&& set_type_names(c).len() <= 1
    &&& c.step_size >= 1
    &&& c.multiplicative != Some(0u32)
}

impl ZoomConfig {
    /// Accepts a policy with at most one zoom type set, a step of at least
    /// one point and a positive factor.
    pub fn validate(&self) -> (r: Result<(), String>)
        ensures
            r is Ok <==> valid_zoom_config(*self),
            set_type_names(*self).len() > 1 ==> (r matches Err(m) && m@ == multiple_types_message(*self)),
            set_type_names(*self).len() <= 1 && self.step_size == 0 ==> (r matches Err(m)
                && m@ == "step_size must be at least 1"@),
    {
        let mut names: Vec<&str> = Vec::new();
        if self.absolute.is_some() {
            names.push("absolute");
        }
        if self.additive.is_some() {
            names.push("additive");
        }
        if self.multiplicative.is_some() {
            names.push("multiplicative");
        }
        proof {
            let n = set_type_names(*self);
            assert(names@.map_values(|s: &str| s@) =~= n);
        }
        if names.len() > 1 {
            let mut msg = String::from_str("Multiple zoom types configured: ");
            let joined = join_strs(&names);
            msg.append(joined.as_str());
            msg.append(". Only one zoom type may be set.");
            proof {
                assert(names@.map_values(|s: &str| s@) =~= set_type_names(*self));
            }
            return Err(msg);
        }
        if self.step_size == 0 {
            return Err(String::from_str("step_size must be at least 1"));
        }
        if self.multiplicative == Some(0u32) {
            return Err(String::from_str("multiplicative factor must be positive"));
        }
        Ok(())
    }

    pub fn active_type(&self) -> (r: Option<ZoomType>)
        ensures
            r == active_type_of(*self),
    {
        if self.absolute.is_some() {
            Some(ZoomType::Absolute)
        } else if self.additive.is_some() {
            Some(ZoomType::Additive)
        } else if self.multiplicative.is_some() {
            Some(ZoomType::Multiplicative)
        } else {
            None
        }
    }

    /// The value of the active zoom type.
    pub fn value(&self) -> (r: Option<u32>)
        ensures
            r == match active_type_of(*self) {
                Some(ZoomType::Absolute) => self.absolute,
                Some(ZoomType::Additive) => self.additive,
                Some(ZoomType::Multiplicative) => self.multiplicative,
                None => None,
            },
    {
        match self.active_type() {
            Some(ZoomType::Absolute) => self.absolute,
            Some(ZoomType::Additive) => self.additive,
            Some(ZoomType::Multiplicative) => self.multiplicative,
            None => None,
        }
    }

    pub fn is_configured(&self) -> (r: bool)
        ensures
            r == (active_type_of(*self) is Some),
    {
        self.active_type().is_some()
    }

    /// Applies zoom options given on the command line: a zoom type given
    /// there replaces whatever type was configured, the last one given
    /// winning, and a step size given there replaces the configured one.
    pub fn apply_overrides(&mut self, args: &CliZoomArgs)
        ensures
            final(self).step_size == match args.step_size {
                Some(s) => s,
                None => old(self).step_size,
            },
            final(self).exact_steps == old(self).exact_steps,
            final(self).blur_requires_focus == old(self).blur_requires_focus,
            args.multiplicative is Some ==> final(self).absolute is None && final(self).additive is None
                && final(self).multiplicative == args.multiplicative,
            args.multiplicative is None && args.additive is Some ==> final(self).absolute is None
                && final(self).multiplicative is None && final(self).additive == args.additive,
            args.multiplicative is None && args.additive is None && args.absolute is Some
                ==> final(self).additive is None && final(self).multiplicative is None
                && final(self).absolute == args.absolute,
            args.multiplicative is None && args.additive is None && args.absolute is None
                ==> final(self).absolute == old(self).absolute && final(self).additive == old(self).additive
                && final(self).multiplicative == old(self).multiplicative,
    {
        if args.absolute.is_some() {
            self.absolute = args.absolute;
            self.additive = None;
            self.multiplicative = None;
        }
        if args.additive.is_some() {
            self.additive = args.additive;
            self.absolute = None;
            self.multiplicative = None;
        }
        if args.multiplicative.is_some() {
            self.multiplicative = args.multiplicative;
            self.absolute = None;
            self.additive = None;
        }
        if let Some(s) = args.step_size {
            self.step_size = s;
        }
    }
}

/// Joins the names with a comma and a space.
fn join_strs(names: &Vec<&str>) -> (r: String)
    ensures
        r@ == join_names(names@.map_values(|s: &str| s@)),
{
    let mut out = String::from_str("");
    proof {
        reveal_strlit("");
        assert(names@.take(0).map_values(|s: &str| s@) =~= Seq::<Seq<char>>::empty());
    }
    let mut i: usize = 0;
    while i < names.len()
        invariant
            i <= names@.len(),
            out@ == join_names(names@.take(i as int).map_values(|s: &str| s@)),
        decreases names@.len() - i,
    {
        if i > 0 {
            out.append(", ");
        }
        out.append(names[i]);
        proof {
            let m = names@.take(i as int + 1).map_values(|s: &str| s@);
            assert(m.drop_last() =~= names@.take(i as int).map_values(|s: &str| s@));
        }
        i = i + 1;
    }
    assert(names@.take(i as int) =~= names@);
    out
}

/// Zoom options given on the command line, in the units of [`ZoomConfig`].
#[derive(Debug, Clone, Copy, Default)]
pub struct CliZoomArgs {
    pub absolute: Option<u32>,
    pub additive: Option<u32>,
    pub multiplicative: Option<u32>,
    pub step_size: Option<u32>,
}

/// The whole configuration of the zoomer; times are in seconds.
#[derive(Debug, Clone)]
pub struct Config {
    pub app_id: String,
    pub verbose: bool,
    pub verbosity: Verbosity,
    pub socket_timeout_secs: u64,
    pub max_retries: u32,
    pub max_connections: usize,
    pub idle_timeout_secs: u64,
    pub reap_interval_secs: u64,
    pub zoom: ZoomConfig,
}

impl Default for Config {
    fn default() -> (r: Self)
        ensures
            r.app_id@ == "kitty"@,
            !r.verbose,
            r.verbosity == Verbosity::Info,
            r.socket_timeout_secs == 5,
            r.max_retries == 3,
            r.max_connections == 30,
            r.idle_timeout_secs == 1800,
            r.reap_interval_secs == 300,
            r.zoom.absolute is None && r.zoom.additive is None && r.zoom.multiplicative is None,
            r.zoom.step_size == 1,
    {
        Config {
            app_id: default_app_id(),
            verbose: default_verbose(),
            verbosity: Verbosity::Info,
            socket_timeout_secs: default_socket_timeout(),
            max_retries: default_max_retries(),
            max_connections: default_max_connections(),
            idle_timeout_secs: default_idle_timeout(),
            reap_interval_secs: default_reap_interval(),
            zoom: ZoomConfig::default(),
        }
    }
}

impl Config {
    /// Applies the options given on the command line: a non-empty
    /// application id replaces the configured one, any verbosity above
    /// quiet turns verbose output on, and the registry settings replace
    /// the configured ones.
    pub fn apply_cli_args(&mut self, args: &CliArgs)
        ensures
            args.app_id@.len() > 0 ==> final(self).app_id@ == args.app_id@,
            args.app_id@.len() == 0 ==> final(self).app_id == old(self).app_id,
            final(self).verbose == (old(self).verbose || args.verbosity.level() > 0),
            final(self).verbosity == old(self).verbosity,
            final(self).socket_timeout_secs == args.socket_timeout,
            final(self).max_retries == args.max_retries,
            final(self).max_connections == args.max_connections,
            final(self).idle_timeout_secs == args.idle_timeout,
            final(self).reap_interval_secs == args.reap_interval,
            final(self).zoom == old(self).zoom,
    {
        if !args.app_id.as_str().is_empty() {
            self.app_id = args.app_id.as_str().to_owned();
        }
        let quiet = match args.verbosity {
            Verbosity::Quiet => true,
            _ => false,
        };
        if !quiet {
            self.verbose = true;
        }
        self.socket_timeout_secs = args.socket_timeout;
        self.max_retries = args.max_retries;
        self.max_connections = args.max_connections;
        self.idle_timeout_secs = args.idle_timeout;
        self.reap_interval_secs = args.reap_interval;
    }

    /// The registry settings: seconds become milliseconds, and the registry
    /// is verbose when asked to be or at debug level and above.
    pub fn to_registry_config(&self) -> (r: RegistryConfig)
        ensures
            r.socket_timeout_ms == secs_to_ms(self.socket_timeout_secs),
            r.max_retries == self.max_retries,
            r.max_connections == self.max_connections,
            r.idle_timeout_ms == secs_to_ms(self.idle_timeout_secs),
            r.reap_interval_ms == secs_to_ms(self.reap_interval_secs),
            r.verbose == (self.verbose || self.verbosity.level() >= 4),
    {
        RegistryConfig {
            socket_timeout_ms: secs_to_millis(self.socket_timeout_secs),
            max_retries: self.max_retries,
            max_connections: self.max_connections,
            idle_timeout_ms: secs_to_millis(self.idle_timeout_secs),
            reap_interval_ms: secs_to_millis(self.reap_interval_secs),
            verbose: self.verbose || self.verbosity.log_window_events(),
        }
    }
}

} // verus!
