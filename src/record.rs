//! Normalizing a resolved service advertisement into a discovered-server record.
use vstd::prelude::*;
use vstd::string::StrSliceExecFns;
use vstd::string::StringExecFns;

verus! {

/// What the discovery logic reads of one resolved service advertisement.
#[derive(Debug, Clone)]
pub struct ServiceResolution {
    /// Fully-qualified instance name, e.g. `orb-living-room._orb._tcp.local.`.
    pub fullname: String,
    /// Advertised host name, e.g. `orb-box.local.`.
    pub hostname: String,
    pub port: u16,
    /// Resolved network addresses, as text, in the order they were reported.
    pub addresses: Vec<String>,
    /// Value of the `path` metadata key, if present.
    pub path: Option<String>,
    /// Value of the `version` metadata key, if present.
    pub version: Option<String>,
}

/// One server found on the local network.
#[derive(Debug, Clone)]
pub struct DiscoveredServer {
    pub name: String,
    pub host: String,
    pub port: u16,
    pub url: String,
    pub version: String,
}

pub struct ResolutionView {
    pub fullname: Seq<char>,
    pub hostname: Seq<char>,
    pub port: u16,
    pub addresses: Seq<Seq<char>>,
    pub path: Option<Seq<char>>,
    pub version: Option<Seq<char>>,
}

pub struct ServerView {
    pub name: Seq<char>,
    pub host: Seq<char>,
    pub port: u16,
    pub url: Seq<char>,
    pub version: Seq<char>,
}

pub open spec fn text_view(s: Option<String>) -> Option<Seq<char>> {
    match s {
        Some(t) => Some(t@),
        None => None,
    }
}

impl View for ServiceResolution {
    type V = ResolutionView;

    open spec fn view(&self) -> ResolutionView {
        ResolutionView {
            fullname: self.fullname@,
            hostname: self.hostname@,
            port: self.port,
            addresses: self.addresses@.map_values(|a: String| a@),
            path: text_view(self.path),
            version: text_view(self.version),
        }
    }
}

impl View for DiscoveredServer {
    type V = ServerView;

    open spec fn view(&self) -> ServerView {
        ServerView {
            name: self.name@,
            host: self.host@,
            port: self.port,
            url: self.url@,
            version: self.version@,
        }
    }
}

/// `s` with every trailing `.` removed.
pub open spec fn trim_dots(s: Seq<char>) -> Seq<char>
    decreases s.len(),
{
    if s.len() > 0 && s.last() == '.' {
        trim_dots(s.drop_last())
    } else {
        s
    }
}

/// The characters of `s` before its first `.` (all of `s` if it has none).
pub open spec fn first_label(s: Seq<char>) -> Seq<char>
    decreases s.len(),
{
    if s.len() == 0 || s[0] == '.' {
        Seq::empty()
    } else {
        seq![s[0]] + first_label(s.drop_first())
    }
}

pub open spec fn digit(d: nat) -> char {
    seq!['0', '1', '2', '3', '4', '5', '6', '7', '8', '9'][d as int]
}

/// Decimal notation of `n`, without leading zeros.
pub open spec fn decimal(n: nat) -> Seq<char>
    decreases n,
{
    if n < 10 {
        seq![digit(n)]
    } else {
        decimal(n / 10) + seq![digit(n % 10)]
    }
}

/// `http://{host}:{port}{path}`.
pub open spec fn url_of(host: Seq<char>, port: u16, path: Seq<char>) -> Seq<char> {
    "http://"@ + host + ":"@ + decimal(port as nat) + path
}

/// The first resolved address, else the host name without trailing dots.
pub open spec fn host_of(r: ResolutionView) -> Seq<char> {
    if r.addresses.len() > 0 {
        r.addresses[0]
    } else {
        trim_dots(r.hostname)
    }
}

/// The first label of the instance name, or a fixed label where that is empty.
pub open spec fn name_of(fullname: Seq<char>) -> Seq<char> {
    if first_label(fullname).len() > 0 {
        first_label(fullname)
    } else {
        "Orb Server"@
    }
}

pub open spec fn path_of(r: ResolutionView) -> Seq<char> {
    match r.path {
        Some(p) => p,
        None => "/"@,
    }
}

pub open spec fn version_of(r: ResolutionView) -> Seq<char> {
    match r.version {
        Some(v) => v,
        None => "unknown"@,
    }
}

/// The record that a resolution stands for.
pub open spec fn server_of(r: ResolutionView) -> ServerView {
    ServerView {
        name: name_of(r.fullname),
        host: host_of(r),
        port: r.port,
        url: url_of(host_of(r), r.port, path_of(r)),
        version: version_of(r),
    }
}

/// `trim_dots(s)` is `s` less a run of trailing dots, and does not end in one.
pub proof fn lemma_trim_dots_strips_trailing(s: Seq<char>)
    ensures
        trim_dots(s).len() <= s.len(),
        trim_dots(s) == s.subrange(0, trim_dots(s).len() as int),
        forall|j: int| trim_dots(s).len() <= j < s.len() ==> s[j] == '.',
        trim_dots(s).len() == 0 || trim_dots(s).last() != '.',
    decreases s.len(),
{
    if s.len() > 0 && s.last() == '.' {
        lemma_trim_dots_strips_trailing(s.drop_last());
        let t = trim_dots(s.drop_last());
        assert(s.drop_last().subrange(0, t.len() as int) =~= s.subrange(0, t.len() as int));
        assert forall|j: int| t.len() <= j < s.len() implies s[j] == '.' by {
            if j < s.len() - 1 {
                assert(s.drop_last()[j] == s[j]);
            }
        }
    } else {
        assert(s.subrange(0, s.len() as int) =~= s);
    }
}

/// A resolution without addresses gives the advertised host name, with every
/// trailing dot removed, as the record's host.
pub proof fn lemma_host_falls_back_to_hostname(r: ResolutionView)
    requires
        r.addresses.len() == 0,
    ensures
        server_of(r).host == trim_dots(r.hostname),
        server_of(r).host == r.hostname.subrange(0, server_of(r).host.len() as int),
        forall|j: int|
            server_of(r).host.len() <= j < r.hostname.len() ==> r.hostname[j] == '.',
        server_of(r).host.len() == 0 || server_of(r).host.last() != '.',
{
    lemma_trim_dots_strips_trailing(r.hostname);
}

/// A resolution without a `path` gives a url that ends in `/` right after
/// `host:port`.
pub proof fn lemma_path_defaults_to_root(r: ResolutionView)
    requires
        r.path is None,
    ensures
        server_of(r).url == "http://"@ + server_of(r).host + ":"@ + decimal(r.port as nat) + "/"@,
{
}

/// A resolution without a `version` gives the version `unknown`.
pub proof fn lemma_version_defaults_to_unknown(r: ResolutionView)
    requires
        r.version is None,
    ensures
        server_of(r).version == "unknown"@,
{
}

proof fn lemma_trim_dots_prefix(s: Seq<char>, k: int)
    requires
        0 <= k <= s.len(),
        forall|j: int| k <= j < s.len() ==> s[j] == '.',
    ensures
        trim_dots(s) == trim_dots(s.subrange(0, k)),
    decreases s.len() - k,
{
    if k < s.len() {
        lemma_trim_dots_prefix(s, k + 1);
        let t = s.subrange(0, k + 1);
        assert(t.drop_last() =~= s.subrange(0, k));
    } else {
        assert(s.subrange(0, k) =~= s);
    }
}

/// Removes every trailing `.` of `s`.
pub fn trim_trailing_dots(s: &str) -> (r: String)
    ensures
        r@ == trim_dots(s@),
{
    let n = s.unicode_len();
    let mut k: usize = n;
    while k > 0 && s.get_char(k - 1) == '.'
        invariant
            n == s@.len(),
            k <= n,
            forall|j: int| k <= j < n ==> s@[j] == '.',
        decreases k,
    {
        k = k - 1;
    }
    let t = s.substring_char(0, k);
    proof {
        lemma_trim_dots_prefix(s@, k as int);
    }
    String::from_str(t)
}

proof fn lemma_first_label_prefix(s: Seq<char>, k: int)
    requires
        0 <= k <= s.len(),
        forall|j: int| 0 <= j < k ==> s[j] != '.',
        k == s.len() || s[k] == '.',
    ensures
        first_label(s) == s.subrange(0, k),
    decreases k,
{
    if k > 0 {
        lemma_first_label_prefix(s.drop_first(), k - 1);
        assert(seq![s[0]] + s.drop_first().subrange(0, k - 1) =~= s.subrange(0, k));
    } else {
        assert(s.subrange(0, k) =~= Seq::<char>::empty());
    }
}

/// The instance label of a fully-qualified service name: what stands before
/// its first `.`, or `Orb Server` where that is empty.
pub fn instance_label(fullname: &str) -> (r: String)
    ensures
        r@ == name_of(fullname@),
{
    let n = fullname.unicode_len();
    let mut k: usize = 0;
    while k < n && fullname.get_char(k) != '.'
        invariant
            n == fullname@.len(),
            k <= n,
            forall|j: int| 0 <= j < k ==> fullname@[j] != '.',
        decreases n - k,
    {
        k = k + 1;
    }
    proof {
        lemma_first_label_prefix(fullname@, k as int);
    }
    if k > 0 {
        String::from_str(fullname.substring_char(0, k))
    } else {
        String::from_str("Orb Server")
    }
}

fn digit_text(d: u16) -> (r: &'static str)
    requires
        d < 10,
    ensures
        r@ == seq![digit(d as nat)],
{
    if d == 0 {
        proof { reveal_strlit("0"); }
        "0"
    } else if d == 1 {
        proof { reveal_strlit("1"); }
        "1"
    } else if d == 2 {
        proof { reveal_strlit("2"); }
        "2"
    } else if d == 3 {
        proof { reveal_strlit("3"); }
        "3"
    } else if d == 4 {
        proof { reveal_strlit("4"); }
        "4"
    } else if d == 5 {
        proof { reveal_strlit("5"); }
        "5"
    } else if d == 6 {
        proof { reveal_strlit("6"); }
        "6"
    } else if d == 7 {
        proof { reveal_strlit("7"); }
        "7"
    } else if d == 8 {
        proof { reveal_strlit("8"); }
        "8"
    } else {
        proof { reveal_strlit("9"); }
        "9"
    }
}

/// Appends the decimal notation of `n` to `out`.
fn push_decimal(out: &mut String, n: u16)
    ensures
        final(out)@ == old(out)@ + decimal(n as nat),
    decreases n,
{
    if n >= 10 {
        push_decimal(out, n / 10);
    }
    out.append(digit_text(n % 10));
    proof {
        assert(final(out)@ =~= old(out)@ + decimal(n as nat));
    }
}

/// The HTTP endpoint `http://{host}:{port}{path}`.
pub fn endpoint_url(host: &str, port: u16, path: &str) -> (r: String)
    ensures
        r@ == url_of(host@, port, path@),
{
    let mut url = String::from_str("http://");
    url.append(host);
    url.append(":");
    push_decimal(&mut url, port);
    url.append(path);
    url
}

impl DiscoveredServer {
    /// The record for one resolved advertisement.
    pub fn from_resolution(r: &ServiceResolution) -> (s: DiscoveredServer)
        ensures
            s@ == server_of(r@),
    {
        let host = if r.addresses.len() > 0 {
            r.addresses[0].clone()
        } else {
            trim_trailing_dots(r.hostname.as_str())
        };
        let path = match &r.path {
            Some(p) => p.clone(),
            None => String::from_str("/"),
        };
        let version = match &r.version {
            Some(v) => v.clone(),
            None => String::from_str("unknown"),
        };
        let url = endpoint_url(host.as_str(), r.port, path.as_str());
        let name = instance_label(r.fullname.as_str());
        DiscoveredServer { name, host, port: r.port, url, version }
    }
}

} // verus!
