//! Where the processors connect and listen.
use crate::text::decimal;
use vstd::prelude::*;

verus! {

/// What an optional value stands for.
pub open spec fn opt_view<T: View>(value: Option<T>) -> Option<T::V> {
    match value {
        Some(v) => Some(v@),
        None => None,
    }
}

/// What a list of values stands for.
pub open spec fn seq_view<T: View>(values: Seq<T>) -> Seq<T::V> {
    Seq::new(values.len(), |i: int| values[i]@)
}

/// Tell whether two optional texts are the same.
fn same_text(left: &Option<String>, right: &Option<String>) -> (r: bool)
    ensures
        r == (opt_view(*left) == opt_view(*right)),
{
    match (left, right) {
        (Some(l), Some(r)) => *l == *r,
        (None, None) => true,
        _ => false,
    }
}

/// Tell whether two lists hold the same texts in the same order.
fn same_texts(left: &Vec<String>, right: &Vec<String>) -> (r: bool)
    ensures
        r == (seq_view(left@) == seq_view(right@)),
{
    if left.len() != right.len() {
        assert(seq_view(left@).len() != seq_view(right@).len());
        return false;
    }
    let mut i: usize = 0;
    while i < left.len()
        invariant
            left.len() == right.len(),
            i <= left.len(),
            forall|j: int| 0 <= j < i ==> left@[j]@ == right@[j]@,
        decreases left.len() - i,
    {
        if left[i] != right[i] {
            assert(seq_view(left@)[i as int] != seq_view(right@)[i as int]);
            return false;
        }
        i += 1;
    }
    assert(seq_view(left@) =~= seq_view(right@));
    true
}

/// Copy a list of texts.
fn copy_texts(texts: &Vec<String>) -> (r: Vec<String>)
    ensures
        seq_view(r@) == seq_view(texts@),
{
    let mut r: Vec<String> = Vec::new();
    let mut i: usize = 0;
    while i < texts.len()
        invariant
            i <= texts.len(),
            r.len() == i,
            forall|j: int| 0 <= j < i ==> r@[j]@ == texts@[j]@,
        decreases texts.len() - i,
    {
        r.push(texts[i].clone());
        i += 1;
    }
    assert(seq_view(r@) =~= seq_view(texts@));
    r
}

/// Copy an optional text.
fn copy_text(text: &Option<String>) -> (r: Option<String>)
    ensures
        opt_view(r) == opt_view(*text),
{
    match text {
        Some(t) => Some(t.clone()),
        None => None,
    }
}

/// URL of the listener when nothing configures it.
pub const DEFAULT_LISTENER_URL: &'static str = "http://0.0.0.0:8080";

/// What the `url` crate makes of a text: the URL it reads, written out again, or nothing when the
/// text is no URL.
pub uninterp spec fn url_parse(text: Seq<char>) -> Option<Seq<char>>;

/// What the `url` crate makes of a URL once its port is set, or nothing when the URL takes none.
pub uninterp spec fn url_with_port(url: Seq<char>, port: u16) -> Option<Seq<char>>;

/// The scheme of a written URL, which stands before its first colon.
pub open spec fn scheme(url: Seq<char>) -> Seq<char> {
    match url.index_of_first(':') {
        Some(i) => url.take(i),
        None => url,
    }
}

/// Whether `text` ends with `suffix`.
pub open spec fn ends_with(text: Seq<char>, suffix: Seq<char>) -> bool {
    text.len() >= suffix.len() && text.skip(text.len() - suffix.len()) == suffix
}

/// Whether a scheme asks for SSL.
pub open spec fn ssl_scheme(scheme: Seq<char>) -> bool {
    ||| ends_with(scheme, "+ssl"@)
    ||| ends_with(scheme, "+tls"@)
    ||| scheme == "ssl"@
    ||| scheme == "tls"@
    ||| scheme == "https"@
    ||| scheme == "wss"@
}

/// A URL, written the way the `url` crate writes it.
#[derive(Debug)]
pub struct Url {
    text: String,
}

impl View for Url {
    type V = Seq<char>;

    closed spec fn view(&self) -> Seq<char> {
        self.text@
    }
}

impl Clone for Url {
    fn clone(&self) -> (r: Self)
        ensures
            r@ == self@,
    {
        Url { text: self.text.clone() }
    }
}

impl Url {
    /// Read a URL, or nothing when the text is none.
    pub fn parse(text: &str) -> (r: Option<Url>)
        ensures
            opt_view(r) == url_parse(text@),
            text@ == DEFAULT_LISTENER_URL@ ==> r is Some && r->0@ == DEFAULT_LISTENER_URL@ + "/"@,
    {
        match read_url(text) {
            Some(text) => Some(Url { text }),
            None => None,
        }
    }

    /// The URL as it is written.
    pub fn as_str(&self) -> (r: &str)
        ensures
            r@ == self@,
    {
        self.text.as_str()
    }

    /// Whether the two URLs are the same.
    pub fn same(&self, other: &Url) -> (r: bool)
        ensures
            r == (self@ == other@),
    {
        self.text == other.text
    }

    /// The URL with another port, or nothing when it takes none.
    pub fn with_port(&self, port: u16) -> (r: Option<Url>)
        ensures
            opt_view(r) == url_with_port(self@, port),
            self@ == DEFAULT_LISTENER_URL@ + "/"@ ==> r is Some && r->0@ == default_url(port),
    {
        match set_url_port(self.text.as_str(), port) {
            Some(text) => Some(Url { text }),
            None => None,
        }
    }

    /// Whether the scheme of the URL asks for SSL.
    pub fn is_ssl(&self) -> (r: bool)
        ensures
            r == url_is_ssl(self@),
    {
        written_url_is_ssl(self.text.as_str())
    }
}

/// Whether the URL a text reads as asks for SSL by its scheme.
pub open spec fn url_is_ssl(url: Seq<char>) -> bool {
    match url_parse(url) {
        Some(read) => ssl_scheme(scheme(read)),
        None => false,
    }
}

/// The URL of the default listener on a given port. The port HTTP uses by default is left out.
pub open spec fn default_url(port: u16) -> Seq<char> {
    if port == 80 {
        "http://0.0.0.0/"@
    } else {
        "http://0.0.0.0:"@ + decimal(port as nat) + "/"@
    }
}

/// Calls `url::Url::parse` and gives the URL as `url` writes it out.
///
/// Trusted: the result is a function of the text alone, and the default listener URL reads as itself
/// with the root path added.
#[verifier::external_body]
fn read_url(text: &str) -> (r: Option<String>)
    ensures
        opt_view(r) == url_parse(text@),
        text@ == DEFAULT_LISTENER_URL@ ==> r is Some && r->0@ == DEFAULT_LISTENER_URL@ + "/"@,
{
    url::Url::parse(text).ok().map(String::from)
}

/// Calls `url::Url::set_port` on the URL that `url` reads, and gives the URL as `url` writes it out.
///
/// Trusted: the result is a function of the URL and the port alone, and the default listener URL
/// takes any port, leaving out the one its scheme implies.
#[verifier::external_body]
fn set_url_port(url: &str, port: u16) -> (r: Option<String>)
    ensures
        opt_view(r) == url_with_port(url@, port),
        url@ == DEFAULT_LISTENER_URL@ + "/"@ ==> r is Some && r->0@ == default_url(port),
{
    let mut url = url::Url::parse(url).ok()?;
    url.set_port(Some(port)).ok()?;
    Some(String::from(url))
}

/// Calls `prosa::io::url_is_ssl` on the URL that `url` reads.
///
/// Trusted: it answers by the scheme alone, and a text that is no URL has none.
#[verifier::external_body]
fn written_url_is_ssl(url: &str) -> (r: bool)
    ensures
        r == url_is_ssl(url@),
{
    url::Url::parse(url).is_ok_and(|url| prosa::io::url_is_ssl(&url))
}

/// How `prosa` writes a target in messages and metrics, with or without an SSL configuration.
pub uninterp spec fn target_text(url: Seq<char>, ssl: bool) -> Seq<char>;

/// Calls `to_string` on the `prosa::io::stream::TargetSetting` made of the URL that `url` reads.
///
/// Trusted: the result is a function of the URL and of the presence of an SSL configuration alone.
/// A text that is no URL is written as nothing.
#[verifier::external_body]
fn written_target(url: &str, ssl: bool) -> (r: String)
    ensures
        r@ == target_text(url@, ssl),
{
    let ssl = if ssl { Some(prosa_utils::config::ssl::SslConfig::default()) } else { None };
    url::Url::parse(url).map_or(
        String::new(),
        |url| prosa::io::stream::TargetSetting::new(url, ssl, None).to_string(),
    )
}

/// Where the trusted certificates come from.
#[derive(Debug)]
pub enum Store {
    /// The system
    System,
    /// A file, a directory or a glob pattern
    File { path: String },
    /// A list of PEM certificates
    Cert { certs: Vec<String> },
}

/// What a [`Store`] stands for.
pub enum StoreView {
    /// The system
    System,
    /// A path
    File { path: Seq<char> },
    /// PEM certificates
    Cert { certs: Seq<Seq<char>> },
}

impl View for Store {
    type V = StoreView;

    open spec fn view(&self) -> StoreView {
        match self {
            Store::System => StoreView::System,
            Store::File { path } => StoreView::File { path: path@ },
            Store::Cert { certs } => StoreView::Cert { certs: seq_view(certs@) },
        }
    }
}

impl Clone for Store {
    fn clone(&self) -> (r: Self)
        ensures
            r@ == self@,
    {
        match self {
            Store::System => Store::System,
            Store::File { path } => Store::File { path: path.clone() },
            Store::Cert { certs } => Store::Cert { certs: copy_texts(certs) },
        }
    }
}

impl Store {
    /// Whether the two stores are the same.
    pub fn same(&self, other: &Store) -> (r: bool)
        ensures
            r == (self@ == other@),
    {
        match (self, other) {
            (Store::System, Store::System) => true,
            (Store::File { path: l }, Store::File { path: r }) => *l == *r,
            (Store::Cert { certs: l }, Store::Cert { certs: r }) => same_texts(l, r),
            _ => false,
        }
    }
}

/// SSL configuration of a connection or of a listener.
#[derive(Debug)]
pub struct SslConfig {
    /// Trusted certificates
    pub store: Option<Store>,
    /// PKCS12 path
    pub pkcs12: Option<String>,
    /// Certificate path
    pub cert: Option<String>,
    /// Private key path
    pub key: Option<String>,
    /// Passphrase of the private key or of the PKCS12
    pub passphrase: Option<String>,
    /// Protocols to negotiate, by order of preference
    pub alpn: Vec<String>,
    /// Whether the modern security level applies
    pub modern_security: bool,
    /// Timeout of an SSL operation, in milliseconds
    pub ssl_timeout: u64,
}

/// What an [`SslConfig`] stands for.
pub struct SslView {
    /// Trusted certificates
    pub store: Option<StoreView>,
    /// PKCS12 path
    pub pkcs12: Option<Seq<char>>,
    /// Certificate path
    pub cert: Option<Seq<char>>,
    /// Private key path
    pub key: Option<Seq<char>>,
    /// Passphrase
    pub passphrase: Option<Seq<char>>,
    /// Protocols to negotiate
    pub alpn: Seq<Seq<char>>,
    /// Whether the modern security level applies
    pub modern_security: bool,
    /// Timeout of an SSL operation, in milliseconds
    pub ssl_timeout: u64,
}

impl View for SslConfig {
    type V = SslView;

    open spec fn view(&self) -> SslView {
        SslView {
            store: opt_view(self.store),
            pkcs12: opt_view(self.pkcs12),
            cert: opt_view(self.cert),
            key: opt_view(self.key),
            passphrase: opt_view(self.passphrase),
            alpn: seq_view(self.alpn@),
            modern_security: self.modern_security,
            ssl_timeout: self.ssl_timeout,
        }
    }
}

impl Clone for SslConfig {
    fn clone(&self) -> (r: Self)
        ensures
            r@ == self@,
    {
        SslConfig {
            store: match &self.store {
                Some(store) => Some(store.clone()),
                None => None,
            },
            pkcs12: copy_text(&self.pkcs12),
            cert: copy_text(&self.cert),
            key: copy_text(&self.key),
            passphrase: copy_text(&self.passphrase),
            alpn: copy_texts(&self.alpn),
            modern_security: self.modern_security,
            ssl_timeout: self.ssl_timeout,
        }
    }
}

/// An SSL configuration nothing was configured of.
pub open spec fn default_ssl() -> SslView {
    SslView {
        store: None,
        pkcs12: None,
        cert: None,
        key: None,
        passphrase: None,
        alpn: Seq::empty(),
        modern_security: true,
        ssl_timeout: 3000,
    }
}

impl Default for SslConfig {
    fn default() -> (r: Self)
        ensures
            r@ == default_ssl(),
    {
        let r = SslConfig {
            store: None,
            pkcs12: None,
            cert: None,
            key: None,
            passphrase: None,
            alpn: Vec::new(),
            modern_security: true,
            ssl_timeout: 3000,
        };
        assert(seq_view(r.alpn@) =~= Seq::<Seq<char>>::empty());
        r
    }
}

impl SslConfig {
    /// Whether the two configurations are the same.
    pub fn same(&self, other: &SslConfig) -> (r: bool)
        ensures
            r == (self@ == other@),
    {
        let same_store = match (&self.store, &other.store) {
            (Some(l), Some(r)) => l.same(r),
            (None, None) => true,
            _ => false,
        };
        same_store && same_text(&self.pkcs12, &other.pkcs12) && same_text(&self.cert, &other.cert)
            && same_text(&self.key, &other.key) && same_text(&self.passphrase, &other.passphrase)
            && same_texts(&self.alpn, &other.alpn) && self.modern_security == other.modern_security
            && self.ssl_timeout == other.ssl_timeout
    }
}

/// The protocols every processor negotiates, HTTP/2 first.
pub open spec fn http_protocols() -> Seq<Seq<char>> {
    seq!["h2"@, "http/1.1"@]
}

/// An SSL configuration that negotiates `alpn`, made of the one there is.
pub open spec fn with_alpn(ssl: Option<SslView>, alpn: Seq<Seq<char>>) -> SslView {
    match ssl {
        Some(ssl) => SslView { alpn, ..ssl },
        None => SslView { alpn, ..default_ssl() },
    }
}

/// The SSL configuration once the protocols to negotiate are set: the one there is, or a default
/// one when the URL alone asks for SSL. Nothing is negotiated without SSL.
pub open spec fn negotiating(
    url: Seq<char>,
    ssl: Option<SslView>,
    alpn: Seq<Seq<char>>,
) -> Option<SslView> {
    if ssl is Some || url_is_ssl(url) {
        Some(with_alpn(ssl, alpn))
    } else {
        None
    }
}

/// Set the protocols to negotiate when the connection is over SSL.
fn negotiate(url: &Url, ssl: Option<SslConfig>, alpn: Vec<String>) -> (r: Option<SslConfig>)
    ensures
        opt_view(r) == negotiating(url@, opt_view(ssl), seq_view(alpn@)),
{
    if ssl.is_some() || url.is_ssl() {
        let mut config = match ssl {
            Some(ssl) => ssl,
            None => SslConfig::default(),
        };
        config.alpn = alpn;
        Some(config)
    } else {
        None
    }
}

/// Give the protocols every processor negotiates, HTTP/2 first.
pub fn http_alpn() -> (r: Vec<String>)
    ensures
        seq_view(r@) == http_protocols(),
{
    let mut r: Vec<String> = Vec::new();
    r.push("h2".to_owned());
    r.push("http/1.1".to_owned());
    assert(seq_view(r@) =~= http_protocols());
    r
}

/// Whether the two optional SSL configurations are the same.
fn same_ssl(left: &Option<SslConfig>, right: &Option<SslConfig>) -> (r: bool)
    ensures
        r == (opt_view(*left) == opt_view(*right)),
{
    match (left, right) {
        (Some(l), Some(r)) => l.same(r),
        (None, None) => true,
        _ => false,
    }
}

/// Copy an optional SSL configuration.
fn copy_ssl(ssl: &Option<SslConfig>) -> (r: Option<SslConfig>)
    ensures
        opt_view(r) == opt_view(*ssl),
{
    match ssl {
        Some(ssl) => Some(ssl.clone()),
        None => None,
    }
}

/// A backend a client connects to.
#[derive(Debug)]
pub struct TargetSetting {
    /// URL of the backend
    pub url: Url,
    /// SSL configuration of the connection
    pub ssl: Option<SslConfig>,
    /// Proxy the backend is reached through
    pub proxy: Option<Url>,
    /// Timeout of the connection, in milliseconds
    pub connect_timeout: u64,
}

/// What defines a connection: where it goes, how it is secured, what it goes through.
pub struct Connection {
    /// URL of the backend
    pub url: Seq<char>,
    /// SSL configuration
    pub ssl: Option<SslView>,
    /// Proxy
    pub proxy: Option<Seq<char>>,
}

/// What a [`TargetSetting`] stands for.
pub struct TargetView {
    /// What the connection is
    pub connection: Connection,
    /// Timeout of the connection, in milliseconds
    pub connect_timeout: u64,
}

impl View for TargetSetting {
    type V = TargetView;

    open spec fn view(&self) -> TargetView {
        TargetView {
            connection: Connection {
                url: self.url@,
                ssl: opt_view(self.ssl),
                proxy: opt_view(self.proxy),
            },
            connect_timeout: self.connect_timeout,
        }
    }
}

impl Clone for TargetSetting {
    fn clone(&self) -> (r: Self)
        ensures
            r@ == self@,
    {
        TargetSetting {
            url: self.url.clone(),
            ssl: copy_ssl(&self.ssl),
            proxy: match &self.proxy {
                Some(proxy) => Some(proxy.clone()),
                None => None,
            },
            connect_timeout: self.connect_timeout,
        }
    }
}

/// A backend once the protocols to negotiate are set.
pub open spec fn normalized_target(target: TargetView) -> TargetView {
    TargetView {
        connection: Connection {
            ssl: negotiating(target.connection.url, target.connection.ssl, http_protocols()),
            ..target.connection
        },
        ..target
    }
}

impl TargetSetting {
    /// A backend with the default connection timeout.
    pub fn new(url: Url, ssl: Option<SslConfig>, proxy: Option<Url>) -> (r: TargetSetting)
        ensures
            r.url == url,
            r.ssl == ssl,
            r.proxy == proxy,
            r.connect_timeout == 5000,
    {
        TargetSetting { url, ssl, proxy, connect_timeout: 5000 }
    }

    /// Whether the two targets are the same, connection timeout included.
    pub fn same(&self, other: &TargetSetting) -> (r: bool)
        ensures
            r == (self@ == other@),
    {
        self.same_connection(other) && self.connect_timeout == other.connect_timeout
    }

    /// Whether the two targets open the same connection, whatever time each is given to.
    pub fn same_connection(&self, other: &TargetSetting) -> (r: bool)
        ensures
            r == (self@.connection == other@.connection),
    {
        let same_proxy = match (&self.proxy, &other.proxy) {
            (Some(l), Some(r)) => l.same(r),
            (None, None) => true,
            _ => false,
        };
        self.url.same(&other.url) && same_ssl(&self.ssl, &other.ssl) && same_proxy
    }

    /// The target as it is written in messages and metrics, without credentials.
    pub fn to_text(&self) -> (r: String)
        ensures
            r@ == target_text(self@.connection.url, self@.connection.ssl is Some),
    {
        written_target(self.url.as_str(), self.ssl.is_some())
    }

    /// Replace the SSL configuration.
    pub fn set_ssl(&mut self, ssl: Option<SslConfig>)
        ensures
            *final(self) == (TargetSetting { ssl, ..*old(self) }),
    {
        self.ssl = ssl;
    }

    /// Set the protocols to negotiate. Nothing is done for a backend reached without SSL, and a
    /// default SSL configuration is created when only the URL asks for SSL.
    pub fn set_alpn(&mut self, alpn: Vec<String>)
        ensures
            final(self)@ == (TargetView {
                connection: Connection {
                    ssl: negotiating(
                        old(self)@.connection.url,
                        old(self)@.connection.ssl,
                        seq_view(alpn@),
                    ),
                    ..old(self)@.connection
                },
                ..old(self)@
            }),
    {
        let ssl = self.ssl.take();
        self.ssl = negotiate(&self.url, ssl, alpn);
    }
}

/// Where a server listens.
#[derive(Debug)]
pub struct ListenerSetting {
    /// URL to listen on
    pub url: Url,
    /// SSL configuration of the listener
    pub ssl: Option<SslConfig>,
    /// Number of sockets the listener can hold
    pub max_socket: u64,
}

/// What a [`ListenerSetting`] stands for.
pub struct ListenerView {
    /// URL to listen on
    pub url: Seq<char>,
    /// SSL configuration
    pub ssl: Option<SslView>,
    /// Number of sockets the listener can hold
    pub max_socket: u64,
}

impl View for ListenerSetting {
    type V = ListenerView;

    open spec fn view(&self) -> ListenerView {
        ListenerView { url: self.url@, ssl: opt_view(self.ssl), max_socket: self.max_socket }
    }
}

impl Clone for ListenerSetting {
    fn clone(&self) -> (r: Self)
        ensures
            r@ == self@,
    {
        ListenerSetting {
            url: self.url.clone(),
            ssl: copy_ssl(&self.ssl),
            max_socket: self.max_socket,
        }
    }
}

/// A listener once the protocols to negotiate are set.
pub open spec fn normalized_listener(listener: ListenerView) -> ListenerView {
    ListenerView { ssl: negotiating(listener.url, listener.ssl, http_protocols()), ..listener }
}

impl ListenerSetting {
    /// A listener on `url`.
    pub fn new(url: Url, ssl: Option<SslConfig>, max_socket: u64) -> (r: ListenerSetting)
        ensures
            r.url == url,
            r.ssl == ssl,
            r.max_socket == max_socket,
    {
        ListenerSetting { url, ssl, max_socket }
    }

    /// Whether the two listeners are the same.
    pub fn same(&self, other: &ListenerSetting) -> (r: bool)
        ensures
            r == (self@ == other@),
    {
        self.url.same(&other.url) && same_ssl(&self.ssl, &other.ssl) && self.max_socket
            == other.max_socket
    }

    /// Set the protocols to negotiate. Nothing is done for a listener without SSL, and a default
    /// SSL configuration is created when only the URL asks for SSL.
    pub fn set_alpn(&mut self, alpn: Vec<String>)
        ensures
            final(self)@ == (ListenerView {
                ssl: negotiating(old(self)@.url, old(self)@.ssl, seq_view(alpn@)),
                ..old(self)@
            }),
    {
        let ssl = self.ssl.take();
        self.ssl = negotiate(&self.url, ssl, alpn);
    }
}

/// Setting the protocols of a backend twice is the same as setting them once, so a reloaded backend
/// compares equal to the one a socket already runs.
pub proof fn law_normalize_target_idempotent(target: TargetView)
    ensures
        normalized_target(normalized_target(target)) == normalized_target(target),
{
}

/// Setting the protocols of a listener twice is the same as setting them once.
pub proof fn law_normalize_listener_idempotent(listener: ListenerView)
    ensures
        normalized_listener(normalized_listener(listener)) == normalized_listener(listener),
{
}

/// A backend reached without SSL is left as it is.
pub proof fn law_plain_target_unchanged(target: TargetView)
    requires
        target.connection.ssl is None,
        !url_is_ssl(target.connection.url),
    ensures
        normalized_target(target) == target,
{
}

/// Setting the protocols to negotiate changes nothing of an SSL configuration but those protocols:
/// the certificates, the keys, the passphrase, the security level and the timeout are the ones that
/// were configured.
pub proof fn law_protocols_keep_the_ssl_configuration(
    url: Seq<char>,
    ssl: SslView,
    alpn: Seq<Seq<char>>,
)
    ensures
        ({
            let set = negotiating(url, Some(ssl), alpn);
            &&& set is Some
            &&& set->0.store == ssl.store
            &&& set->0.pkcs12 == ssl.pkcs12
            &&& set->0.cert == ssl.cert
            &&& set->0.key == ssl.key
            &&& set->0.passphrase == ssl.passphrase
            &&& set->0.modern_security == ssl.modern_security
            &&& set->0.ssl_timeout == ssl.ssl_timeout
            &&& set->0.alpn == alpn
        }),
{
}

/// A URL that asks for SSL without a configuration is given one with nothing but the protocols: no
/// certificate, no key, the modern security level and three seconds for an operation. A URL that does
/// not is given none.
pub proof fn law_protocols_without_configuration(url: Seq<char>, alpn: Seq<Seq<char>>)
    ensures
        ({
            let set = negotiating(url, None, alpn);
            &&& set is Some <==> url_is_ssl(url)
            &&& set matches Some(ssl) ==> {
                &&& ssl.store is None
                &&& ssl.pkcs12 is None
                &&& ssl.cert is None
                &&& ssl.key is None
                &&& ssl.passphrase is None
                &&& ssl.modern_security
                &&& ssl.ssl_timeout == 3000
                &&& ssl.alpn == alpn
            }
        }),
{
}

/// An SSL configuration that nothing was configured of has no certificate, no key, no protocol, the
/// modern security level and three seconds for an operation.
pub proof fn law_default_ssl_is_empty()
    ensures
        default_ssl().store is None,
        default_ssl().pkcs12 is None,
        default_ssl().cert is None,
        default_ssl().key is None,
        default_ssl().passphrase is None,
        default_ssl().alpn.len() == 0,
        default_ssl().modern_security,
        default_ssl().ssl_timeout == 3000,
{
}

/// A processor negotiates two protocols, and HTTP/2 is the one it prefers.
pub proof fn law_http2_is_preferred()
    ensures
        http_protocols().len() == 2,
        http_protocols()[0] == "h2"@,
        http_protocols()[1] == "http/1.1"@,
{
}

/// Making a backend negotiate HTTP/2 keeps its address, its proxy, its connection timeout and all of
/// its SSL configuration but the protocols.
pub proof fn law_normalized_target_keeps_the_rest(target: TargetView)
    ensures
        ({
            let after = normalized_target(target);
            &&& after.connection.url == target.connection.url
            &&& after.connection.proxy == target.connection.proxy
            &&& after.connect_timeout == target.connect_timeout
            &&& after.connection.ssl is Some <==> target.connection.ssl is Some || url_is_ssl(
                target.connection.url,
            )
            &&& after.connection.ssl matches Some(ssl) ==> ssl.alpn == seq!["h2"@, "http/1.1"@]
            &&& target.connection.ssl matches Some(ssl) ==> {
                &&& after.connection.ssl->0.store == ssl.store
                &&& after.connection.ssl->0.pkcs12 == ssl.pkcs12
                &&& after.connection.ssl->0.cert == ssl.cert
                &&& after.connection.ssl->0.key == ssl.key
                &&& after.connection.ssl->0.passphrase == ssl.passphrase
                &&& after.connection.ssl->0.modern_security == ssl.modern_security
                &&& after.connection.ssl->0.ssl_timeout == ssl.ssl_timeout
            }
        }),
{
}

/// Making a listener negotiate HTTP/2 keeps its address, the number of its sockets and all of its SSL
/// configuration but the protocols.
pub proof fn law_normalized_listener_keeps_the_rest(listener: ListenerView)
    ensures
        ({
            let after = normalized_listener(listener);
            &&& after.url == listener.url
            &&& after.max_socket == listener.max_socket
            &&& after.ssl is Some <==> listener.ssl is Some || url_is_ssl(listener.url)
            &&& after.ssl matches Some(ssl) ==> ssl.alpn == seq!["h2"@, "http/1.1"@]
            &&& listener.ssl matches Some(ssl) ==> {
                &&& after.ssl->0.store == ssl.store
                &&& after.ssl->0.pkcs12 == ssl.pkcs12
                &&& after.ssl->0.cert == ssl.cert
                &&& after.ssl->0.key == ssl.key
                &&& after.ssl->0.passphrase == ssl.passphrase
                &&& after.ssl->0.modern_security == ssl.modern_security
                &&& after.ssl->0.ssl_timeout == ssl.ssl_timeout
            }
        }),
{
}

/// A URL asks for SSL by what stands before its first colon: `ssl`, `tls`, `https`, `wss`, or anything
/// over one of the first two. Nothing else does.
pub proof fn law_scheme_asks_for_ssl(url: Seq<char>, name: Seq<char>, rest: Seq<char>)
    requires
        url_parse(url) == Some(name + seq![':'] + rest),
        !name.contains(':'),
    ensures
        url_is_ssl(url) <==> {
            ||| name == "ssl"@
            ||| name == "tls"@
            ||| name == "https"@
            ||| name == "wss"@
            ||| exists|head: Seq<char>| name == #[trigger] (head + "+ssl"@)
            ||| exists|head: Seq<char>| name == #[trigger] (head + "+tls"@)
        },
{
    let read = name + seq![':'] + rest;
    assert(read[name.len() as int] == ':');
    assert forall|j: int| 0 <= j < name.len() implies read[j] != ':' by {
        assert(name.contains(name[j]));
    }
    read.index_of_first_ensures(':');
    assert(read.index_of_first(':') == Some(name.len() as int));
    assert(read.take(name.len() as int) =~= name);
    lemma_ends_with(name, "+ssl"@);
    lemma_ends_with(name, "+tls"@);
}

/// A text ends with a suffix when the suffix stands behind something.
proof fn lemma_ends_with(text: Seq<char>, suffix: Seq<char>)
    ensures
        ends_with(text, suffix) <==> exists|head: Seq<char>| text == #[trigger] (head + suffix),
{
    if ends_with(text, suffix) {
        assert(text =~= text.take(text.len() - suffix.len()) + suffix);
    }
    if exists|head: Seq<char>| text == #[trigger] (head + suffix) {
        let head = choose|head: Seq<char>| text == #[trigger] (head + suffix);
        assert(text.skip(text.len() - suffix.len()) =~= suffix);
    }
}

/// A text that is no URL does not ask for SSL.
pub proof fn law_no_url_asks_for_no_ssl(url: Seq<char>)
    requires
        url_parse(url) is None,
    ensures
        !url_is_ssl(url),
{
}

/// The default listener is written with its port, unless it is the one of HTTP.
pub proof fn law_default_url_shows_its_port(port: u16)
    ensures
        port == 80 ==> default_url(port) == "http://0.0.0.0/"@,
        port != 80 ==> default_url(port) == "http://0.0.0.0:"@ + decimal(port as nat) + "/"@,
{
}

/// What is known of an optional value is whether there is one, and what it is.
pub proof fn law_optional_view_is_faithful<T: View>(value: T)
    ensures
        opt_view(Some(value)) == Some(value@),
        opt_view(None::<T>) is None,
{
}

/// What is known of a list is each of its values, in order.
pub proof fn law_list_view_is_faithful<T: View>(values: Seq<T>, i: int)
    ensures
        seq_view(values).len() == values.len(),
        0 <= i < values.len() ==> seq_view(values)[i] == values[i]@,
{
}

/// What is known of an SSL configuration is all that it holds.
pub proof fn law_ssl_view_is_faithful(ssl: SslConfig)
    ensures
        ssl@.store == opt_view(ssl.store),
        ssl@.pkcs12 == opt_view(ssl.pkcs12),
        ssl@.cert == opt_view(ssl.cert),
        ssl@.key == opt_view(ssl.key),
        ssl@.passphrase == opt_view(ssl.passphrase),
        ssl@.alpn == seq_view(ssl.alpn@),
        ssl@.modern_security == ssl.modern_security,
        ssl@.ssl_timeout == ssl.ssl_timeout,
{
}

/// What is known of where certificates come from is which of the three it is, and what it names.
pub proof fn law_store_view_is_faithful(store: Store)
    ensures
        match store {
            Store::System => store@ is System,
            Store::File { path } => store@ is File && store@->path == path@,
            Store::Cert { certs } => store@ is Cert && store@->certs == seq_view(certs@),
        },
{
}

/// What is known of a backend is all that it holds.
pub proof fn law_target_view_is_faithful(target: TargetSetting)
    ensures
        target@.connection.url == target.url@,
        target@.connection.ssl == opt_view(target.ssl),
        target@.connection.proxy == opt_view(target.proxy),
        target@.connect_timeout == target.connect_timeout,
{
}

/// What is known of a listener is all that it holds.
pub proof fn law_listener_view_is_faithful(listener: ListenerSetting)
    ensures
        listener@.url == listener.url@,
        listener@.ssl == opt_view(listener.ssl),
        listener@.max_socket == listener.max_socket,
{
}

} // verus!
