use crate::config::probe_config::OrganisationConfig;
use crate::http_probe::result::IpAddress;
use vstd::prelude::*;
use vstd::string::*;
use vstd::utf8::encode_utf8;

verus! {

/// An organisation under the short name it is configured with.
#[derive(Debug, Clone)]
pub struct NamedOrganisation {
    pub name: String,
    pub organisation: OrganisationConfig,
}

/// What the agent runs with.
#[derive(Debug, Clone)]
pub struct AppConfig {
    /// The organisations to monitor.
    pub config: Vec<NamedOrganisation>,
    /// The base URL of the remote-write backend.
    pub mimir_endpoint: String,
    /// The name servers to resolve with.
    pub dns_hosts: Vec<String>,
    /// The width of the longest organisation name, in bytes.
    pub max_org_width: usize,
}

/// Whether a character is white space, as Unicode defines it.
pub open spec fn is_white_space(c: char) -> bool {
    let code = c as u32;
    ||| 0x09 <= code <= 0x0D
    ||| code == 0x20
    ||| code == 0x85
    ||| code == 0xA0
    ||| code == 0x1680
    ||| 0x2000 <= code <= 0x200A
    ||| code == 0x2028
    ||| code == 0x2029
    ||| code == 0x202F
    ||| code == 0x205F
    ||| code == 0x3000
}

/// A text without the white space it begins with.
pub open spec fn trim_start(text: Seq<char>) -> Seq<char>
    decreases text.len(),
{
    if text.len() > 0 && is_white_space(text[0]) {
        trim_start(text.drop_first())
    } else {
        text
    }
}

/// A text without the white space it ends with.
pub open spec fn trim_end(text: Seq<char>) -> Seq<char>
    decreases text.len(),
{
    if text.len() > 0 && is_white_space(text.last()) {
        trim_end(text.drop_last())
    } else {
        text
    }
}

/// A text without the white space around it.
pub open spec fn trim(text: Seq<char>) -> Seq<char> {
    trim_end(trim_start(text))
}

/// The pieces of a text between its commas, in order. A text without a comma
/// is one piece; the empty text is one empty piece.
pub open spec fn split_commas(text: Seq<char>) -> Seq<Seq<char>>
    decreases text.len(),
{
    if text.len() == 0 {
        seq![Seq::empty()]
    } else {
        let before = split_commas(text.drop_last());
        if text.last() == ',' {
            before.push(Seq::empty())
        } else {
            before.update(before.len() - 1, before.last().push(text.last()))
        }
    }
}

/// The name servers that a comma-separated list names: its pieces, each
/// without the white space around it.
pub open spec fn host_list(raw: Seq<char>) -> Seq<Seq<char>> {
    split_commas(raw).map_values(|piece: Seq<char>| trim(piece))
}

/// The views of a sequence of texts.
pub open spec fn texts_view(texts: Seq<String>) -> Seq<Seq<char>> {
    texts.map_values(|t: String| t@)
}

/// Whether `c` is white space, as Unicode defines it.
pub fn is_whitespace(c: char) -> (white: bool)
    ensures
        white == is_white_space(c),
{
    let code = c as u32;
    (0x09 <= code && code <= 0x0D) || code == 0x20 || code == 0x85 || code == 0xA0 || code
        == 0x1680 || (0x2000 <= code && code <= 0x200A) || code == 0x2028 || code == 0x2029
        || code == 0x202F || code == 0x205F || code == 0x3000
}

/// `text` without the white space around it.
pub fn trimmed(text: &str) -> (result: String)
    ensures
        result@ == trim(text@),
{
    let n = text.unicode_len();
    let mut a: usize = 0;
    proof {
        assert(text@.skip(0) =~= text@);
    }
    while a < n
        invariant
            a <= n,
            n == text@.len(),
            trim_start(text@) == trim_start(text@.skip(a as int)),
        ensures
            a <= n,
            trim_start(text@) == text@.skip(a as int),
        decreases n - a,
    {
        if !is_whitespace(text.get_char(a)) {
            break ;
        }
        proof {
            assert(text@.skip(a as int).drop_first() =~= text@.skip(a + 1));
        }
        a += 1;
    }
    let mut b: usize = n;
    proof {
        assert(text@.skip(a as int) =~= text@.subrange(a as int, n as int));
    }
    while b > a
        invariant
            a <= b <= n,
            n == text@.len(),
            trim(text@) == trim_end(text@.subrange(a as int, b as int)),
        ensures
            a <= b <= n,
            trim(text@) == text@.subrange(a as int, b as int),
        decreases b - a,
    {
        if !is_whitespace(text.get_char(b - 1)) {
            break ;
        }
        proof {
            assert(text@.subrange(a as int, b as int).drop_last() =~= text@.subrange(
                a as int,
                b - 1,
            ));
        }
        b -= 1;
    }
    String::from_str(text.substring_char(a, b))
}

/// The name servers that the comma-separated list `raw` names.
pub fn split_hosts(raw: &str) -> (hosts: Vec<String>)
    ensures
        texts_view(hosts@) == host_list(raw@),
{
    let n = raw.unicode_len();
    let mut hosts: Vec<String> = Vec::new();
    let mut start: usize = 0;
    let mut i: usize = 0;
    let ghost mut done: Seq<Seq<char>> = Seq::empty();
    proof {
        assert(raw@.take(0) =~= Seq::empty());
        assert(raw@.subrange(0, 0) =~= Seq::empty());
        assert(split_commas(raw@.take(0)) =~= done.push(raw@.subrange(0, 0)));
        assert(texts_view(hosts@) =~= done.map_values(|piece: Seq<char>| trim(piece)));
    }
    while i < n
        invariant
            start <= i <= n,
            n == raw@.len(),
            split_commas(raw@.take(i as int)) == done.push(raw@.subrange(start as int, i as int)),
            texts_view(hosts@) == done.map_values(|piece: Seq<char>| trim(piece)),
        decreases n - i,
    {
        let c = raw.get_char(i);
        proof {
            assert(raw@.take(i + 1).drop_last() =~= raw@.take(i as int));
            assert(raw@.take(i + 1).last() == raw@[i as int]);
        }
        if c == ',' {
            let piece = trimmed(raw.substring_char(start, i));
            let ghost before = hosts@;
            hosts.push(piece);
            proof {
                let finished = raw@.subrange(start as int, i as int);
                assert(texts_view(hosts@) =~= texts_view(before).push(trim(finished)));
                assert(done.push(finished).map_values(|piece: Seq<char>| trim(piece))
                    =~= done.map_values(|piece: Seq<char>| trim(piece)).push(trim(finished)));
                done = done.push(finished);
                assert(raw@.subrange(i + 1, i + 1) =~= Seq::empty());
            }
            start = i + 1;
        } else {
            proof {
                let open = raw@.subrange(start as int, i as int);
                assert(open.push(c) =~= raw@.subrange(start as int, i + 1));
                assert(done.push(open).update(done.len() as int, open.push(c)) =~= done.push(
                    open.push(c),
                ));
            }
        }
        i += 1;
    }
    let piece = trimmed(raw.substring_char(start, n));
    let ghost before = hosts@;
    hosts.push(piece);
    proof {
        let finished = raw@.subrange(start as int, n as int);
        assert(raw@.take(n as int) =~= raw@);
        assert(texts_view(hosts@) =~= texts_view(before).push(trim(finished)));
        assert(done.push(finished).map_values(|piece: Seq<char>| trim(piece)) =~= done.map_values(
            |piece: Seq<char>| trim(piece),
        ).push(trim(finished)));
    }
    hosts
}

/// The width of an organisation name: the length of its UTF-8 encoding.
pub open spec fn name_width(name: Seq<char>) -> nat {
    encode_utf8(name).len()
}

/// The largest width among the first `count` names; 0 for none.
pub open spec fn widest(names: Seq<Seq<char>>, count: nat) -> nat
    decreases count,
{
    if count == 0 {
        0
    } else {
        let before = widest(names, (count - 1) as nat);
        let width = name_width(names[count - 1]);
        if width > before {
            width
        } else {
            before
        }
    }
}

/// The names of the configured organisations.
pub open spec fn organisation_names(config: Seq<NamedOrganisation>) -> Seq<Seq<char>> {
    config.map_values(|entry: NamedOrganisation| entry.name@)
}

/// The width to print organisation names in: that of the widest name, and 10
/// where no organisation is configured.
pub open spec fn org_width(names: Seq<Seq<char>>) -> nat {
    if names.len() == 0 {
        10
    } else {
        widest(names, names.len())
    }
}

/// The width to print organisation names in.
pub fn max_org_width(config: &Vec<NamedOrganisation>) -> (width: usize)
    ensures
        width == org_width(organisation_names(config@)),
{
    if config.len() == 0 {
        return 10;
    }
    let ghost names = organisation_names(config@);
    let mut width: usize = 0;
    let mut i: usize = 0;
    while i < config.len()
        invariant
            i <= config.len(),
            names == organisation_names(config@),
            width == widest(names, i as nat),
        decreases config.len() - i,
    {
        let len = config[i].name.as_str().as_bytes().len();
        proof {
            assert(names[i as int] == config@[i as int].name@);
            assert(len == name_width(names[i as int]));
            assert(widest(names, (i + 1) as nat) == if name_width(names[i as int]) > widest(
                names,
                i as nat,
            ) {
                name_width(names[i as int])
            } else {
                widest(names, i as nat)
            });
        }
        if len > width {
            width = len;
        }
        i += 1;
    }
    width
}

/// The configuration the agent runs with, made of what was read: the
/// organisations, the list of name servers and the endpoint of the backend.
///
/// Where no list of name servers was given, `1.1.1.1,8.8.8.8` stands in;
/// where no endpoint was given, `http://localhost:9009`.
pub fn load_config(
    config: Vec<NamedOrganisation>,
    dns_hosts: Option<&str>,
    mimir_endpoint: Option<&str>,
) -> (app: AppConfig)
    ensures
        app.config == config,
        app.mimir_endpoint@ == match mimir_endpoint {
            Some(endpoint) => endpoint@,
            None => "http://localhost:9009"@,
        },
        texts_view(app.dns_hosts@) == host_list(
            match dns_hosts {
                Some(raw) => raw@,
                None => "1.1.1.1,8.8.8.8"@,
            },
        ),
        app.max_org_width == org_width(organisation_names(config@)),
{
    let hosts = match dns_hosts {
        Some(raw) => split_hosts(raw),
        None => split_hosts("1.1.1.1,8.8.8.8"),
    };
    let endpoint = match mimir_endpoint {
        Some(endpoint) => String::from_str(endpoint),
        None => String::from_str("http://localhost:9009"),
    };
    let width = max_org_width(&config);
    AppConfig { config, mimir_endpoint: endpoint, dns_hosts: hosts, max_org_width: width }
}

/// How a name server is spoken to.
#[derive(Debug, Clone, Copy, PartialEq, Eq)]
pub enum Transport {
    Tcp,
}

/// A name server to resolve with.
#[derive(Debug, Clone, Copy, PartialEq, Eq)]
pub struct NameServer {
    pub address: IpAddress,
    pub port: u16,
    pub transport: Transport,
}

/// How the resolver is set up.
#[derive(Debug, Clone, PartialEq, Eq)]
pub struct ResolverSettings {
    /// How often a resolution is attempted.
    pub attempts: usize,
    /// The time each attempt may take, in milliseconds.
    pub timeout_millis: u64,
    /// The number of answers kept in the cache.
    pub cache_size: usize,
    /// The name servers, in the order given.
    pub name_servers: Vec<NameServer>,
}

/// The name server at `address`: asked over TCP, on port 53.
pub open spec fn name_server(address: IpAddress) -> NameServer {
    NameServer { address, port: 53, transport: Transport::Tcp }
}

/// The set-up of a resolver that asks the name servers at `dns_hosts`: two
/// attempts of 100 milliseconds each, a cache of 1024 answers, and every name
/// server asked over TCP on port 53.
pub fn setup_resolver(dns_hosts: &Vec<IpAddress>) -> (settings: ResolverSettings)
    ensures
        settings.attempts == 2,
        settings.timeout_millis == 100,
        settings.cache_size == 1024,
        settings.name_servers@ == dns_hosts@.map_values(|address: IpAddress| name_server(address)),
{
    let mut name_servers: Vec<NameServer> = Vec::new();
    let mut i: usize = 0;
    while i < dns_hosts.len()
        invariant
            i <= dns_hosts.len(),
            name_servers@ == dns_hosts@.take(i as int).map_values(
                |address: IpAddress| name_server(address),
            ),
        decreases dns_hosts.len() - i,
    {
        name_servers.push(
            NameServer { address: dns_hosts[i], port: 53, transport: Transport::Tcp },
        );
        proof {
            assert(dns_hosts@.take(i + 1) =~= dns_hosts@.take(i as int).push(dns_hosts@[i as int]));
            assert(name_servers@ =~= dns_hosts@.take(i + 1).map_values(
                |address: IpAddress| name_server(address),
            ));
        }
        i += 1;
    }
    proof {
        assert(dns_hosts@.take(i as int) =~= dns_hosts@);
    }
    ResolverSettings { attempts: 2, timeout_millis: 100, cache_size: 1024, name_servers }
}

} // verus!
