//! The configuration file's contents, its validation and its location.
use vstd::prelude::*;
use crate::error::{AppError, ErrorCode};
use crate::text::{
    concat, ends_with, chars_of, lemma_trim_idempotent, owned, strip_end_char, trim, trim_end_char,
    trim_str,
};

verus! {

broadcast use vstd::string::group_string_axioms;

/// The host of a parsed URL.
#[derive(Debug)]
pub enum UrlHost {
    Domain(String),
    Ipv4(u8, u8, u8, u8),
    Ipv6(Vec<u16>),
}

/// What validation reads from a parsed URL: its scheme and host.
#[derive(Debug)]
pub struct ParsedUrl {
    pub scheme: String,
    pub host: Option<UrlHost>,
}

/// The value of a [`UrlHost`].
pub enum UrlHostView {
    Domain(Seq<char>),
    Ipv4(u8, u8, u8, u8),
    Ipv6(Seq<u16>),
}

impl View for UrlHost {
    type V = UrlHostView;

    open spec fn view(&self) -> UrlHostView {
        match self {
            UrlHost::Domain(d) => UrlHostView::Domain(d@),
            UrlHost::Ipv4(a, b, c, d) => UrlHostView::Ipv4(*a, *b, *c, *d),
            UrlHost::Ipv6(s) => UrlHostView::Ipv6(s@),
        }
    }
}

/// The scheme and host of a parsed URL.
pub type ParsedUrlView = (Seq<char>, Option<UrlHostView>);

impl View for ParsedUrl {
    type V = ParsedUrlView;

    open spec fn view(&self) -> ParsedUrlView {
        (
            self.scheme@,
            match self.host {
                Some(h) => Some(h@),
                None => None,
            },
        )
    }
}

/// What `url::Url::parse` makes of a text: its scheme and host, or the
/// text of the parse error.
pub uninterp spec fn url_parse(s: Seq<char>) -> Result<ParsedUrlView, Seq<char>>;

/// Calls `url::Url::parse` and reads `scheme()` and `host()` of the result,
/// or the `Display` text of the `ParseError`. The contract states only that
/// the result is the parser's answer for `s`.
#[verifier::external_body]
pub(crate) fn parse_url(s: &str) -> (r: Result<ParsedUrl, String>)
    ensures
        match r {
            Ok(u) => url_parse(s@) == Ok::<ParsedUrlView, Seq<char>>(u@),
            Err(m) => url_parse(s@) == Err::<ParsedUrlView, Seq<char>>(m@),
        },
{
    match url::Url::parse(s) {
        Ok(u) => Ok(ParsedUrl {
            scheme: u.scheme().to_string(),
            host: u.host().map(|h| match h {
                url::Host::Domain(d) => UrlHost::Domain(d.to_string()),
                url::Host::Ipv4(a) => UrlHost::Ipv4(a.octets()[0], a.octets()[1], a.octets()[2], a.octets()[3]),
                url::Host::Ipv6(a) => UrlHost::Ipv6(a.segments().to_vec()),
            }),
        }),
        Err(e) => Err(e.to_string()),
    }
}

/// An `http` URL whose host is `localhost` or an IPv4 loopback address
/// (127.0.0.0/8). An IPv6 host never counts: its host text is bracketed, and
/// a bracketed text is not an IP address literal.
pub open spec fn is_loopback_http(u: ParsedUrlView) -> bool {
    &&& u.0 == "http"@
    &&& match u.1 {
        Some(UrlHostView::Domain(d)) => d == "localhost"@,
        Some(UrlHostView::Ipv4(a, _, _, _)) => a == 127,
        _ => false,
    }
}

fn text_eq(s: &str, t: &str) -> (r: bool)
    ensures
        r == (s@ == t@),
{
    let a = chars_of(s);
    let b = chars_of(t);
    if a.len() != b.len() {
        return false;
    }
    let mut i: usize = 0;
    while i < a.len()
        invariant
            i <= a@.len(),
            a@.len() == b@.len(),
            a@ == s@,
            b@ == t@,
            forall|k: int| 0 <= k < i ==> a@[k] == b@[k],
        decreases a.len() - i,
    {
        if a[i] != b[i] {
            return false;
        }
        i = i + 1;
    }
    assert(a@ =~= b@);
    true
}

/// Whether a parsed site URL is plain HTTP to a loopback test server.
pub fn is_loopback_http_url(site_url: &ParsedUrl) -> (r: bool)
    ensures
        r == is_loopback_http(site_url@),
{
    if !text_eq(site_url.scheme.as_str(), "http") {
        return false;
    }
    match &site_url.host {
        Some(UrlHost::Domain(d)) => text_eq(d.as_str(), "localhost"),
        Some(UrlHost::Ipv4(a, _, _, _)) => *a == 127,
        _ => false,
    }
}

/// The configuration: site, credentials and an optional default space.
#[derive(Debug)]
pub struct Config {
    pub site_url: String,
    pub email: String,
    pub api_token: String,
    pub default_space: Option<String>,
}

/// The value of a [`Config`].
pub struct ConfigView {
    pub site_url: Seq<char>,
    pub email: Seq<char>,
    pub api_token: Seq<char>,
    pub default_space: Option<Seq<char>>,
}

impl View for Config {
    type V = ConfigView;

    open spec fn view(&self) -> ConfigView {
        ConfigView {
            site_url: self.site_url@,
            email: self.email@,
            api_token: self.api_token@,
            default_space: match self.default_space {
                Some(s) => Some(s@),
                None => None,
            },
        }
    }
}

/// The default space after trimming; blank means none.
pub open spec fn normalized_space(s: Option<Seq<char>>) -> Option<Seq<char>> {
    match s {
        Some(v) => if trim(v).len() > 0 {
            Some(trim(v))
        } else {
            None
        },
        None => None,
    }
}

pub open spec fn missing_fields_message() -> Seq<char> {
    "Config must include site_url, email, and api_token."@
}

pub open spec fn invalid_url_prefix() -> Seq<char> {
    "Config site_url must be a valid URL: "@
}

pub open spec fn insecure_url_message() -> Seq<char> {
    "Config site_url must use https:// unless it points to a loopback HTTP test server."@
}

/// What validation makes of a configuration: trailing slashes of the site
/// URL dropped, the default space trimmed (blank meaning none), then the
/// site, email and token required, the site URL required to parse and to use
/// `https` unless it is plain HTTP to a loopback host. Every refusal is
/// `config_invalid` with the given message.
pub open spec fn validated(c: ConfigView) -> Result<ConfigView, Seq<char>> {
    let site = strip_end_char(c.site_url, '/');
    let normal = ConfigView {
        site_url: site,
        email: c.email,
        api_token: c.api_token,
        default_space: normalized_space(c.default_space),
    };
    if site.len() == 0 || c.email.len() == 0 || c.api_token.len() == 0 {
        Err(missing_fields_message())
    } else {
        match url_parse(site) {
            Err(m) => Err(invalid_url_prefix() + m),
            Ok(u) => if u.0 != "https"@ && !is_loopback_http(u) {
                Err(insecure_url_message())
            } else {
                Ok(normal)
            },
        }
    }
}

/// `r` is what validating `c` gives.
pub open spec fn validate_result(c: ConfigView, r: Result<Config, AppError>) -> bool {
    match validated(c) {
        Ok(v) => r matches Ok(n) && n@ == v,
        Err(m) => r matches Err(e) && e.code == ErrorCode::ConfigInvalid && e.message@ == m
            && !e.retryable && e.details@ == crate::error::empty_object(),
    }
}

proof fn lemma_strip_end_char_idempotent(s: Seq<char>, c: char)
    ensures
        strip_end_char(strip_end_char(s, c), c) == strip_end_char(s, c),
        strip_end_char(s, c).len() == 0 || strip_end_char(s, c).last() != c,
    decreases s.len(),
{
    if s.len() > 0 && s.last() == c {
        lemma_strip_end_char_idempotent(s.drop_last(), c);
    }
}

/// Validating a validated configuration changes nothing: a configuration
/// that was saved (validated) loads back (validated again) unchanged.
pub proof fn lemma_validate_idempotent(c: ConfigView)
    requires
        validated(c) is Ok,
    ensures
        validated(validated(c)->Ok_0) == validated(c),
{
    let v = validated(c)->Ok_0;
    lemma_strip_end_char_idempotent(c.site_url, '/');
    match c.default_space {
        Some(d) => {
            lemma_trim_idempotent(d);
        },
        None => {},
    }
    assert(normalized_space(v.default_space) == v.default_space);
}

impl Config {
    /// The validated configuration (see [`validated`]).
    pub fn validate(self) -> (r: Result<Config, AppError>)
        ensures
            validate_result(self@, r),
    {
        let site_url = trim_end_char(self.site_url.as_str(), '/');
        let default_space = match &self.default_space {
            Some(value) => {
                let t = trim_str(value.as_str());
                if t.as_str().is_empty() {
                    None
                } else {
                    Some(t)
                }
            },
            None => None,
        };
        if site_url.as_str().is_empty() || self.email.as_str().is_empty()
            || self.api_token.as_str().is_empty() {
            return Err(
                AppError::new(
                    ErrorCode::ConfigInvalid,
                    owned("Config must include site_url, email, and api_token."),
                ),
            );
        }
        match parse_url(site_url.as_str()) {
            Err(m) => {
                return Err(
                    AppError::new(
                        ErrorCode::ConfigInvalid,
                        concat("Config site_url must be a valid URL: ", m.as_str()),
                    ),
                );
            },
            Ok(u) => {
                if !text_eq(u.scheme.as_str(), "https") && !is_loopback_http_url(&u) {
                    return Err(
                        AppError::new(
                            ErrorCode::ConfigInvalid,
                            owned(
                                "Config site_url must use https:// unless it points to a loopback HTTP test server.",
                            ),
                        ),
                    );
                }
            },
        }
        Ok(
            Config {
                site_url,
                email: self.email,
                api_token: self.api_token,
                default_space,
            },
        )
    }

    /// The warning printed when the loaded configuration has no default space.
    pub fn missing_default_space_warning(&self) -> (r: Option<String>)
        ensures
            self.default_space is None <==> r is Some,
            r matches Some(w) ==> w@ == missing_default_space_text(),
    {
        match &self.default_space {
            Some(_) => None,
            None => Some(
                owned(
                    "Warning: config has no default_space; commands that need a space must name it explicitly.",
                ),
            ),
        }
    }
}

pub open spec fn missing_default_space_text() -> Seq<char> {
    "Warning: config has no default_space; commands that need a space must name it explicitly."@
}

// ---------------------------------------------------------------------------
// Location and loading
// ---------------------------------------------------------------------------

pub open spec fn default_config_suffix() -> Seq<char> {
    ".config/confluence-cli/config.toml"@
}

pub open spec fn home_unset_message() -> Seq<char> {
    "HOME is not set and CONFLUENCE_CLI_CONFIG was not provided."@
}

/// `home/.config/confluence-cli/config.toml`, joined as `PathBuf::join`
/// does: no separator is added after an empty home or one ending in `/`.
pub open spec fn default_config_path(home: Seq<char>) -> Seq<char> {
    if home.len() == 0 || home.last() == '/' {
        home + default_config_suffix()
    } else {
        home + "/"@ + default_config_suffix()
    }
}

/// The configuration path: the `CONFLUENCE_CLI_CONFIG` override when set,
/// else the default location under `HOME`.
pub fn resolve_config_path(override_path: Option<String>, home: Option<String>) -> (r: Result<
    String,
    AppError,
>)
    ensures
        override_path is Some ==> r is Ok && r->Ok_0@ == override_path->Some_0@,
        override_path is None && home is None ==> r is Err && r->Err_0.code
            == ErrorCode::ConfigInvalid && r->Err_0.message@ == home_unset_message(),
        override_path is None && home is Some ==> r is Ok && r->Ok_0@ == default_config_path(
            home->Some_0@,
        ),
{
    match override_path {
        Some(p) => Ok(p),
        None => match home {
            None => Err(
                AppError::new(
                    ErrorCode::ConfigInvalid,
                    owned("HOME is not set and CONFLUENCE_CLI_CONFIG was not provided."),
                ),
            ),
            Some(h) => {
                let hc = chars_of(h.as_str());
                proof {
                    reveal_strlit("/");
                }
                let ghost hv = h@;
                let base = if hc.len() == 0 || ends_with(hc.as_slice(), "/") {
                    proof {
                        if hv.len() > 0 {
                            assert(hv.skip(hv.len() - 1) =~= seq![hv.last()]);
                            assert("/"@ =~= seq!['/']);
                            assert(seq![hv.last()][0] == hv.last());
                            assert(hv.last() == '/');
                        }
                    }
                    h
                } else {
                    proof {
                        assert("/"@ =~= seq!['/']);
                        if hv.last() == '/' {
                            assert(hv.skip(hv.len() - 1) =~= "/"@);
                        }
                        assert(hv.last() != '/');
                    }
                    concat(h.as_str(), "/")
                };
                let path = concat(base.as_str(), ".config/confluence-cli/config.toml");
                Ok(path)
            },
        },
    }
}

/// The error for a configuration file that could not be read.
pub fn config_read_error(path: &str, not_found: bool) -> (e: AppError)
    ensures
        e.code == (if not_found {
            ErrorCode::ConfigNotFound
        } else {
            ErrorCode::ConfigInvalid
        }),
        e.message@ == "Failed to read config at "@ + path@ + "."@,
{
    let code = if not_found {
        ErrorCode::ConfigNotFound
    } else {
        ErrorCode::ConfigInvalid
    };
    let mut m = concat("Failed to read config at ", path);
    crate::text::push_str(&mut m, ".");
    AppError::new(code, m)
}

/// The configuration loaded from the parsed file: a TOML parse failure is
/// `config_invalid`; a parsed configuration is validated.
pub fn finish_load(parsed: Result<Config, String>) -> (r: Result<Config, AppError>)
    ensures
        parsed matches Err(m) ==> r matches Err(e) && e.code == ErrorCode::ConfigInvalid
            && e.message@ == "Failed to parse config TOML: "@ + m@,
        parsed matches Ok(c) ==> validate_result(c@, r),
{
    match parsed {
        Err(m) => Err(
            AppError::new(
                ErrorCode::ConfigInvalid,
                concat("Failed to parse config TOML: ", m.as_str()),
            ),
        ),
        Ok(c) => c.validate(),
    }
}

} // verus!
