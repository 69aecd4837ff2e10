use vstd::prelude::*;

use super::policy::RejectPolicy;
use crate::net::round_trip::law_socket_text_reads_back;
use crate::net::socket::{socket_parse, socket_text};
use crate::net::{CidrSet, SocketAddress};
use crate::text::{chars_of, starts_with, string_of, sub_chars};

verus! {

/// A listener address: either a TCP socket or a Unix domain socket path.
///
/// Written in the config as a string, e.g. `"tcp:127.0.0.1:10045"` or
/// `"unix:/run/rspf/policy.sock"`.
#[derive(Debug, Clone, PartialEq, Eq)]
pub enum ListenAddr {
    Tcp(SocketAddress),
    Unix(String),
}

/// Why a listener address could not be read.
#[derive(Debug, Clone, PartialEq, Eq)]
pub enum ListenAddrParseError {
    /// The text has neither a `tcp:` nor a `unix:` prefix.
    MissingScheme(String),
    /// The text after `tcp:` is no socket address: that text and the reason.
    InvalidTcp(String, String),
    /// `unix:` with nothing after it.
    EmptyUnixPath,
}

/// `ListenAddr` with the socket path as characters.
pub enum ListenAddrView {
    Tcp(SocketAddress),
    Unix(Seq<char>),
}

/// `ListenAddrParseError` with its texts as characters.
pub enum ListenAddrParseErrorView {
    MissingScheme(Seq<char>),
    InvalidTcp(Seq<char>, Seq<char>),
    EmptyUnixPath,
}

impl View for ListenAddr {
    type V = ListenAddrView;

    open spec fn view(&self) -> ListenAddrView {
        match self {
            ListenAddr::Tcp(a) => ListenAddrView::Tcp(*a),
            ListenAddr::Unix(p) => ListenAddrView::Unix(p@),
        }
    }
}

impl View for ListenAddrParseError {
    type V = ListenAddrParseErrorView;

    open spec fn view(&self) -> ListenAddrParseErrorView {
        match self {
            ListenAddrParseError::MissingScheme(s) => ListenAddrParseErrorView::MissingScheme(s@),
            ListenAddrParseError::InvalidTcp(s, m) => ListenAddrParseErrorView::InvalidTcp(s@, m@),
            ListenAddrParseError::EmptyUnixPath => ListenAddrParseErrorView::EmptyUnixPath,
        }
    }
}

/// What std's socket address parser says of text it refuses.
pub open spec fn invalid_socket_text() -> Seq<char> {
    "invalid socket address syntax"@
}

/// The listener that `s` names: `tcp:` and a socket address, or `unix:`
/// and a non-empty path.
pub open spec fn listen_parse(s: Seq<char>) -> Result<ListenAddrView, ListenAddrParseErrorView> {
    if starts_with(s, seq!['t', 'c', 'p', ':']) {
        match socket_parse(s.skip(4)) {
            Some(a) => Ok(ListenAddrView::Tcp(a)),
            None => Err(ListenAddrParseErrorView::InvalidTcp(s.skip(4), invalid_socket_text())),
        }
    } else if starts_with(s, seq!['u', 'n', 'i', 'x', ':']) {
        if s.len() == 5 {
            Err(ListenAddrParseErrorView::EmptyUnixPath)
        } else {
            Ok(ListenAddrView::Unix(s.skip(5)))
        }
    } else {
        Err(ListenAddrParseErrorView::MissingScheme(s))
    }
}

/// The text form of a listener: `tcp:` and the socket address, or `unix:`
/// and the path.
pub open spec fn listen_text(a: ListenAddrView) -> Seq<char> {
    match a {
        ListenAddrView::Tcp(sa) => seq!['t', 'c', 'p', ':'] + socket_text(sa),
        ListenAddrView::Unix(p) => seq!['u', 'n', 'i', 'x', ':'] + p,
    }
}

/// Whether `v` starts with the characters of `p`.
fn has_prefix(v: &[char], p: &[char]) -> (r: bool)
    ensures
        r == starts_with(v@, p@),
{
    if p.len() > v.len() {
        return false;
    }
    let mut i: usize = 0;
    while i < p.len()
        invariant
            p.len() <= v.len(),
            i <= p.len(),
            forall|j: int| 0 <= j < i ==> v@[j] == p@[j],
        decreases p.len() - i,
    {
        if v[i] != p[i] {
            assert(v@.take(p.len() as int)[i as int] != p@[i as int]);
            return false;
        }
        i = i + 1;
    }
    assert(v@.take(p.len() as int) =~= p@);
    true
}

impl ListenAddr {
    /// Reads a listener address such as `tcp:127.0.0.1:10045` or
    /// `unix:/run/rspf/policy.sock`.
    pub fn parse(s: &str) -> (r: Result<ListenAddr, ListenAddrParseError>)
        ensures
            r matches Ok(a) ==> listen_parse(s@) == Ok::<ListenAddrView, ListenAddrParseErrorView>(a@),
            r matches Err(e) ==> listen_parse(s@) == Err::<ListenAddrView, ListenAddrParseErrorView>(e@),
    {
        let v = chars_of(s);
        let tcp: Vec<char> = vec!['t', 'c', 'p', ':'];
        let unix: Vec<char> = vec!['u', 'n', 'i', 'x', ':'];
        assert(tcp@ =~= seq!['t', 'c', 'p', ':']);
        assert(unix@ =~= seq!['u', 'n', 'i', 'x', ':']);
        if has_prefix(v.as_slice(), tcp.as_slice()) {
            let rest = string_of(sub_chars(v.as_slice(), 4, v.len()).as_slice());
            assert(rest@ =~= s@.skip(4));
            match SocketAddress::parse(rest.as_str()) {
                Some(a) => Ok(ListenAddr::Tcp(a)),
                None => Err(
                    ListenAddrParseError::InvalidTcp(
                        rest,
                        String::from_str("invalid socket address syntax"),
                    ),
                ),
            }
        } else if has_prefix(v.as_slice(), unix.as_slice()) {
            if v.len() == 5 {
                return Err(ListenAddrParseError::EmptyUnixPath);
            }
            let rest = string_of(sub_chars(v.as_slice(), 5, v.len()).as_slice());
            assert(rest@ =~= s@.skip(5));
            Ok(ListenAddr::Unix(rest))
        } else {
            Err(ListenAddrParseError::MissingScheme(String::from_str(s)))
        }
    }

    /// The listener written as it is read: `tcp:` and the socket address,
    /// or `unix:` and the path.
    pub fn to_string(&self) -> (r: String)
        ensures
            r@ == listen_text(self@),
    {
        let mut out = String::new();
        match self {
            ListenAddr::Tcp(a) => {
                crate::text::push_char(&mut out, 't');
                crate::text::push_char(&mut out, 'c');
                crate::text::push_char(&mut out, 'p');
                crate::text::push_char(&mut out, ':');
                let t = a.to_string();
                crate::text::append_str(&mut out, t.as_str());
            },
            ListenAddr::Unix(p) => {
                crate::text::push_char(&mut out, 'u');
                crate::text::push_char(&mut out, 'n');
                crate::text::push_char(&mut out, 'i');
                crate::text::push_char(&mut out, 'x');
                crate::text::push_char(&mut out, ':');
                crate::text::append_str(&mut out, p.as_str());
            },
        }
        assert(out@ =~= listen_text(self@));
        out
    }
}

/// A listener written out reads back as itself: every TCP listener, and
/// every Unix listener with a non-empty path.
pub proof fn law_listen_text_reads_back(a: ListenAddrView)
    requires
        a matches ListenAddrView::Unix(p) ==> p.len() > 0,
    ensures
        listen_parse(listen_text(a)) == Ok::<ListenAddrView, ListenAddrParseErrorView>(a),
{
    let t = listen_text(a);
    match a {
        ListenAddrView::Tcp(sa) => {
            law_socket_text_reads_back(sa);
            assert(t.take(4) =~= seq!['t', 'c', 'p', ':']);
            assert(t.skip(4) =~= socket_text(sa));
        },
        ListenAddrView::Unix(p) => {
            assert(t[0] == 'u');
            assert(!starts_with(t, seq!['t', 'c', 'p', ':'])) by {
                if starts_with(t, seq!['t', 'c', 'p', ':']) {
                    assert(t.take(4)[0] == 't');
                }
            }
            assert(t.take(5) =~= seq!['u', 'n', 'i', 'x', ':']);
            assert(t.skip(5) =~= p);
        },
    }
}

impl std::str::FromStr for ListenAddr {
    type Err = ListenAddrParseError;

    fn from_str(s: &str) -> (r: Result<ListenAddr, ListenAddrParseError>)
        ensures
            r matches Ok(a) ==> listen_parse(s@) == Ok::<ListenAddrView, ListenAddrParseErrorView>(a@),
            r matches Err(e) ==> listen_parse(s@) == Err::<ListenAddrView, ListenAddrParseErrorView>(e@),
    {
        ListenAddr::parse(s)
    }
}

#[derive(Debug, Clone)]
pub struct ServerConfig {
    pub listen: Vec<ListenAddr>,
    pub test_only: bool,
}

#[derive(Debug, Clone, Copy, PartialEq, Eq, Structural)]
pub enum LogLevel {
    Off,
    Error,
    Warn,
    Info,
    Debug,
    Trace,
}

impl Default for LogLevel {
    fn default() -> (r: LogLevel)
        ensures
            r == LogLevel::Info,
    {
        LogLevel::Info
    }
}

#[derive(Debug, Clone)]
pub struct LogConfig {
    pub level: LogLevel,
}

impl Default for LogConfig {
    fn default() -> (r: LogConfig)
        ensures
            r.level == LogLevel::Info,
    {
        LogConfig { level: LogLevel::Info }
    }
}

#[derive(Debug, Clone)]
pub struct PolicyConfig {
    pub helo_reject: RejectPolicy,
    pub mail_from_reject: RejectPolicy,
    pub permerror_reject: bool,
    pub temperror_defer: bool,
}

impl Default for PolicyConfig {
    fn default() -> (r: PolicyConfig)
        ensures
            r.helo_reject == RejectPolicy::Fail,
            r.mail_from_reject == RejectPolicy::Fail,
            !r.permerror_reject,
            !r.temperror_defer,
    {
        PolicyConfig {
            helo_reject: RejectPolicy::Fail,
            mail_from_reject: RejectPolicy::Fail,
            permerror_reject: false,
            temperror_defer: false,
        }
    }
}

#[derive(Debug, Clone)]
pub struct SkipConfig {
    pub addresses: CidrSet,
}

impl Default for SkipConfig {
    fn default() -> (r: SkipConfig)
        ensures
            r.addresses@.len() == 0,
    {
        SkipConfig { addresses: CidrSet::empty() }
    }
}

#[derive(Debug, Clone)]
pub struct WhitelistConfig {
    pub ips: CidrSet,
    pub helo_names: Vec<String>,
    pub domains: Vec<String>,
    pub domains_ptr: Vec<String>,
    /// Paths of external whitelist files.
    pub files: Vec<String>,
}

impl Default for WhitelistConfig {
    fn default() -> (r: WhitelistConfig)
        ensures
            r.ips@.len() == 0,
            r.helo_names@.len() == 0,
            r.domains@.len() == 0,
            r.domains_ptr@.len() == 0,
            r.files@.len() == 0,
    {
        WhitelistConfig {
            ips: CidrSet::empty(),
            helo_names: Vec::new(),
            domains: Vec::new(),
            domains_ptr: Vec::new(),
            files: Vec::new(),
        }
    }
}

#[derive(Debug, Clone)]
pub struct SpfConfig {
    pub lookup_timeout_secs: u64,
    pub void_limit: usize,
    pub max_lookups: usize,
}

pub fn default_lookup_timeout_secs() -> (r: u64)
    ensures
        r == 20,
{
    20
}

pub fn default_void_limit() -> (r: usize)
    ensures
        r == 2,
{
    2
}

pub fn default_max_lookups() -> (r: usize)
    ensures
        r == 10,
{
    10
}

impl Default for SpfConfig {
    fn default() -> (r: SpfConfig)
        ensures
            r.lookup_timeout_secs == 20,
            r.void_limit == 2,
            r.max_lookups == 10,
    {
        SpfConfig {
            lookup_timeout_secs: default_lookup_timeout_secs(),
            void_limit: default_void_limit(),
            max_lookups: default_max_lookups(),
        }
    }
}

#[derive(Debug, Clone)]
pub struct SrsConfig {
    pub enabled: bool,
    pub secrets: Vec<String>,
    pub max_age_days: u32,
}

/// The maximum age of an SRS address when `[srs]` names none.
pub fn default_srs_max_age_days() -> (r: u32)
    ensures
        r == 21,
{
    21
}

impl Default for SrsConfig {
    /// The configuration when the `[srs]` section is absent altogether:
    /// disabled, no secrets, and a zero maximum age.
    fn default() -> (r: SrsConfig)
        ensures
            !r.enabled,
            r.secrets@.len() == 0,
            r.max_age_days == 0,
    {
        SrsConfig { enabled: false, secrets: Vec::new(), max_age_days: 0 }
    }
}

#[derive(Debug, Clone)]
pub struct RelayConfig {
    pub exempt_sasl_authenticated: bool,
    pub trusted_relays: CidrSet,
}

impl Default for RelayConfig {
    fn default() -> (r: RelayConfig)
        ensures
            !r.exempt_sasl_authenticated,
            r.trusted_relays@.len() == 0,
    {
        RelayConfig { exempt_sasl_authenticated: false, trusted_relays: CidrSet::empty() }
    }
}

#[derive(Debug, Clone, Copy, PartialEq, Eq, Structural)]
pub enum HeaderMode {
    /// Prepend a `Received-SPF` header to accepted mail.
    Spf,
    /// Prepend nothing (written `"none"` in the config).
    NoHeader,
}

impl Default for HeaderMode {
    fn default() -> (r: HeaderMode)
        ensures
            r == HeaderMode::Spf,
    {
        HeaderMode::Spf
    }
}

#[derive(Debug, Clone)]
pub struct HeaderConfig {
    pub mode: HeaderMode,
    pub hide_receiver: bool,
    pub authserv_id: Option<String>,
}

impl Default for HeaderConfig {
    fn default() -> (r: HeaderConfig)
        ensures
            r.mode == HeaderMode::Spf,
            !r.hide_receiver,
            r.authserv_id is None,
    {
        HeaderConfig { mode: HeaderMode::Spf, hide_receiver: false, authserv_id: None }
    }
}

#[derive(Debug, Clone)]
pub struct MessageTemplates {
    pub fail: String,
    pub softfail: String,
    pub neutral: String,
    pub none: String,
    pub permerror: String,
    pub temperror: String,
}

pub open spec fn default_fail_text() -> Seq<char> {
    "550 5.7.1 SPF check failed: {sender} is not allowed to send mail from {ip}"@
}

pub open spec fn default_softfail_text() -> Seq<char> {
    "550 5.7.1 SPF check failed (softfail): {sender} is not allowed to send mail from {ip}"@
}

pub open spec fn default_neutral_text() -> Seq<char> {
    "550 5.7.1 SPF check neutral for {sender} from {ip}"@
}

pub open spec fn default_none_text() -> Seq<char> {
    "550 5.7.1 SPF check found no record for {sender}"@
}

pub open spec fn default_permerror_text() -> Seq<char> {
    "550 5.7.1 SPF check permanent error for {sender}"@
}

pub open spec fn default_temperror_text() -> Seq<char> {
    "451 4.7.1 Temporary SPF error for {sender}, please try again later"@
}

/// The default `fail` message template.
pub fn default_fail_message() -> (r: String)
    ensures
        r@ == default_fail_text(),
{
    String::from_str("550 5.7.1 SPF check failed: {sender} is not allowed to send mail from {ip}")
}

/// The default `softfail` message template.
pub fn default_softfail_message() -> (r: String)
    ensures
        r@ == default_softfail_text(),
{
    String::from_str(
        "550 5.7.1 SPF check failed (softfail): {sender} is not allowed to send mail from {ip}",
    )
}

/// The default `neutral` message template.
pub fn default_neutral_message() -> (r: String)
    ensures
        r@ == default_neutral_text(),
{
    String::from_str("550 5.7.1 SPF check neutral for {sender} from {ip}")
}

/// The default `none` message template.
pub fn default_none_message() -> (r: String)
    ensures
        r@ == default_none_text(),
{
    String::from_str("550 5.7.1 SPF check found no record for {sender}")
}

/// The default `permerror` message template.
pub fn default_permerror_message() -> (r: String)
    ensures
        r@ == default_permerror_text(),
{
    String::from_str("550 5.7.1 SPF check permanent error for {sender}")
}

/// The default `temperror` message template.
pub fn default_temperror_message() -> (r: String)
    ensures
        r@ == default_temperror_text(),
{
    String::from_str("451 4.7.1 Temporary SPF error for {sender}, please try again later")
}

impl Default for MessageTemplates {
    fn default() -> (r: MessageTemplates)
        ensures
            r.fail@ == default_fail_text(),
            r.softfail@ == default_softfail_text(),
            r.neutral@ == default_neutral_text(),
            r.none@ == default_none_text(),
            r.permerror@ == default_permerror_text(),
            r.temperror@ == default_temperror_text(),
    {
        MessageTemplates {
            fail: default_fail_message(),
            softfail: default_softfail_message(),
            neutral: default_neutral_message(),
            none: default_none_message(),
            permerror: default_permerror_message(),
            temperror: default_temperror_message(),
        }
    }
}

#[derive(Debug, Clone)]
pub struct Config {
    pub server: ServerConfig,
    pub log: LogConfig,
    pub policy: PolicyConfig,
    pub skip: SkipConfig,
    pub whitelist: WhitelistConfig,
    pub spf: SpfConfig,
    /// Forced SPF records: (domain, record text), in configuration order.
    pub overrides: Vec<(String, String)>,
    pub srs: SrsConfig,
    pub relay: RelayConfig,
    pub header: HeaderConfig,
    pub messages: MessageTemplates,
}

impl Config {
    /// A configuration with the given `[server]` section and every other
    /// section at its default, as a config file with only `[server]` gives.
    pub fn new(server: ServerConfig) -> (r: Config)
        ensures
            r.server.listen@ == server.listen@,
            r.server.test_only == server.test_only,
            r.log.level == LogLevel::Info,
            r.policy.helo_reject == RejectPolicy::Fail,
            r.policy.mail_from_reject == RejectPolicy::Fail,
            !r.policy.permerror_reject,
            !r.policy.temperror_defer,
            r.skip.addresses@.len() == 0,
            r.whitelist.ips@.len() == 0,
            r.whitelist.helo_names@.len() == 0,
            r.whitelist.domains@.len() == 0,
            r.whitelist.domains_ptr@.len() == 0,
            r.whitelist.files@.len() == 0,
            r.spf.lookup_timeout_secs == 20,
            r.spf.void_limit == 2,
            r.spf.max_lookups == 10,
            r.overrides@.len() == 0,
            !r.srs.enabled,
            r.srs.secrets@.len() == 0,
            r.srs.max_age_days == 0,
            !r.relay.exempt_sasl_authenticated,
            r.relay.trusted_relays@.len() == 0,
            r.header.mode == HeaderMode::Spf,
            !r.header.hide_receiver,
            r.header.authserv_id is None,
            r.messages.fail@ == default_fail_text(),
            r.messages.softfail@ == default_softfail_text(),
            r.messages.neutral@ == default_neutral_text(),
            r.messages.none@ == default_none_text(),
            r.messages.permerror@ == default_permerror_text(),
            r.messages.temperror@ == default_temperror_text(),
    {
        Config {
            server,
            log: LogConfig::default(),
            policy: PolicyConfig::default(),
            skip: SkipConfig::default(),
            whitelist: WhitelistConfig::default(),
            spf: SpfConfig::default(),
            overrides: Vec::new(),
            srs: SrsConfig::default(),
            relay: RelayConfig::default(),
            header: HeaderConfig::default(),
            messages: MessageTemplates::default(),
        }
    }
}

/// A fully commented example configuration, valid as it stands.
pub const EXAMPLE_TOML: &'static str = "# rspf configuration (TOML). Every section but [server] is optional; the\n\
# values shown are the defaults unless marked as an example.\n\
\n\
[server]\n\
# Where to listen for Postfix policy requests: \"tcp:host:port\" or\n\
# \"unix:/path/to/socket\". At least one is required.\n\
listen = [\"tcp:127.0.0.1:10045\"]\n\
# Answer every request with DUNNO but still log what would have happened.\n\
test_only = false\n\
\n\
[log]\n\
# \"off\" | \"error\" | \"warn\" | \"info\" | \"debug\" | \"trace\"; always to stdout.\n\
level = \"info\"\n\
\n\
[policy]\n\
# When to reject on the HELO and MAIL FROM results:\n\
# \"fail\" | \"soft_fail\" | \"spf_not_pass\" | \"never\" | \"no_check\".\n\
helo_reject = \"fail\"\n\
mail_from_reject = \"fail\"\n\
# Reject on a permanent SPF error (a broken record).\n\
permerror_reject = false\n\
# Defer on a temporary SPF error (a DNS failure).\n\
temperror_defer = false\n\
\n\
[skip]\n\
# Clients never checked (and never given a header), as CIDRs.\n\
addresses = [\"127.0.0.0/8\", \"::1/128\"]\n\
\n\
[whitelist]\n\
# Clients exempt from rejection, as CIDRs (example: addresses = ...).\n\
ips = []\n\
# HELO names exempt from rejection (exact match, case-insensitive).\n\
helo_names = []\n\
# Domains whose HELO or MAIL FROM subdomains are exempt (suffix match).\n\
domains = []\n\
# Domains whose reverse-DNS client names are exempt (suffix match).\n\
domains_ptr = []\n\
# Further whitelist files, one \"ip:\", \"helo:\", \"domain:\" or \"ptr:\" entry\n\
# per line; \"#\" starts a comment.\n\
files = []\n\
\n\
[spf]\n\
lookup_timeout_secs = 20\n\
void_limit = 2\n\
# Leave at 10 (RFC 7208) unless you must.\n\
max_lookups = 10\n\
\n\
[overrides]\n\
# Forced SPF records, used instead of DNS, also when reached through\n\
# include: or redirect=. Example:\n\
# \"example.com\" = \"v=spf1 ip4:192.0.2.0/24 -all\"\n\
\n\
[srs]\n\
# Unwrap SRS0 addresses of forwarding relays, checking their hash with one\n\
# of the secrets (example: secrets = [\"the relay's secret\"]).\n\
enabled = false\n\
secrets = []\n\
max_age_days = 21\n\
\n\
[relay]\n\
# Exempt SASL-authenticated clients and trusted relays (CIDRs).\n\
exempt_sasl_authenticated = false\n\
trusted_relays = []\n\
\n\
[header]\n\
# \"spf\" prepends a Received-SPF header; \"none\" adds nothing.\n\
mode = \"spf\"\n\
hide_receiver = false\n\
# authserv_id = \"mx.example.com\"\n\
\n\
[messages]\n\
# Reject/defer texts per result; placeholders: {result}, {sender}, {helo},\n\
# {ip}, {recipient}.\n\
fail = \"550 5.7.1 SPF check failed: {sender} is not allowed to send mail from {ip}\"\n\
softfail = \"550 5.7.1 SPF check failed (softfail): {sender} is not allowed to send mail from {ip}\"\n\
neutral = \"550 5.7.1 SPF check neutral for {sender} from {ip}\"\n\
none = \"550 5.7.1 SPF check found no record for {sender}\"\n\
permerror = \"550 5.7.1 SPF check permanent error for {sender}\"\n\
temperror = \"451 4.7.1 Temporary SPF error for {sender}, please try again later\"\n";

} // verus!
