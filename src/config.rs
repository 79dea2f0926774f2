use vstd::prelude::*;

verus! {

/// Where the service stores its data and listens.
#[derive(Debug, Clone)]
pub struct Config {
    pub database_url: String,
    pub server_host: String,
    pub server_port: u16,
}

pub const DEFAULT_PORT: u16 = 8080;

pub open spec fn is_digit(c: char) -> bool {
    '0' <= c && c <= '9'
}

/// The number that a run of decimal digits denotes.
pub open spec fn digits_value(s: Seq<char>) -> int
    decreases s.len(),
{
    if s.len() == 0 {
        0
    } else {
        digits_value(s.drop_last()) * 10 + (s.last() as u32 - '0' as u32)
    }
}

/// The digits of a port text, after an optional leading `+`.
pub open spec fn port_digits(s: Seq<char>) -> Seq<char> {
    if s.len() > 0 && s[0] == '+' {
        s.drop_first()
    } else {
        s
    }
}

/// The port a text names: one or more decimal digits, optionally after a
/// `+`, with a value that fits in 16 bits.
pub open spec fn port_of(s: Seq<char>) -> Option<int> {
    let d = port_digits(s);
    if d.len() > 0 && (forall|i: int| 0 <= i < d.len() ==> is_digit(#[trigger] d[i]))
        && digits_value(d) <= u16::MAX {
        Some(digits_value(d))
    } else {
        None
    }
}

proof fn lemma_digits_value_grows(d: Seq<char>, i: int, j: int)
    requires
        0 <= i <= j <= d.len(),
        forall|k: int| 0 <= k < d.len() ==> is_digit(#[trigger] d[k]),
    ensures
        0 <= digits_value(d.take(i)) <= digits_value(d.take(j)),
    decreases j,
{
    if j > 0 {
        assert(d.take(j).drop_last() =~= d.take(j - 1));
        assert(d.take(j).last() == d[j - 1]);
        assert(is_digit(d[j - 1]));
        if i < j {
            lemma_digits_value_grows(d, i, j - 1);
        } else {
            lemma_digits_value_grows(d, 0, j - 1);
        }
    } else {
        assert(d.take(0) =~= Seq::<char>::empty());
    }
}

/// Reads a port number from its text.
pub fn parse_port(s: &str) -> (r: Option<u16>)
    ensures
        match port_of(s@) {
            Some(p) => r == Some(p as u16),
            None => r is None,
        },
{
    let n = s.unicode_len();
    let mut first: usize = 0;
    if n > 0 && s.get_char(0) == '+' {
        first = 1;
    }
    let ghost d = port_digits(s@);
    assert(d =~= s@.subrange(first as int, n as int));
    if first == n {
        return None;
    }
    let mut value: u32 = 0;
    let mut i: usize = first;
    while i < n
        invariant
            first <= i <= n,
            n == s@.len(),
            d == s@.subrange(first as int, n as int),
            d == port_digits(s@),
            d.len() > 0,
            value <= u16::MAX,
            value == digits_value(d.take(i - first)),
            forall|k: int| 0 <= k < i - first ==> is_digit(#[trigger] d[k]),
        decreases n - i,
    {
        let c = s.get_char(i);
        let ghost k = i - first;
        assert(d[k] == c);
        if c < '0' || c > '9' {
            assert(!is_digit(d[k]));
            return None;
        }
        assert(d.take(k + 1).drop_last() =~= d.take(k));
        assert(d.take(k + 1).last() == c);
        value = value * 10 + (c as u32 - '0' as u32);
        assert(value == digits_value(d.take(k + 1)));
        if value > u16::MAX as u32 {
            proof {
                if forall|j: int| 0 <= j < d.len() ==> is_digit(#[trigger] d[j]) {
                    lemma_digits_value_grows(d, k + 1, d.len() as int);
                    assert(d.take(d.len() as int) =~= d);
                }
            }
            return None;
        }
        i = i + 1;
    }
    assert(d.take(d.len() as int) =~= d);
    Some(value as u16)
}

impl Default for Config {
    fn default() -> (r: Config)
        ensures
            r.database_url@ == "sqlite:./videos.db?mode=rwc"@,
            r.server_host@ == "127.0.0.1"@,
            r.server_port == DEFAULT_PORT,
    {
        Config {
            database_url: String::from_str("sqlite:./videos.db?mode=rwc"),
            server_host: String::from_str("127.0.0.1"),
            server_port: DEFAULT_PORT,
        }
    }
}

impl Config {
    /// The configuration from optional settings: an absent setting, or a
    /// port that is not a 16-bit number, takes the default.
    pub fn from_values(
        database_url: Option<String>,
        server_host: Option<String>,
        server_port: Option<String>,
    ) -> (r: Config)
        ensures
            r.database_url@ == match database_url {
                Some(u) => u@,
                None => "sqlite:./videos.db?mode=rwc"@,
            },
            r.server_host@ == match server_host {
                Some(h) => h@,
                None => "127.0.0.1"@,
            },
            r.server_port == match server_port {
                Some(p) => match port_of(p@) {
                    Some(v) => v as u16,
                    None => DEFAULT_PORT,
                },
                None => DEFAULT_PORT,
            },
    {
        let defaults = Config::default();
        let database_url = match database_url {
            Some(u) => u,
            None => defaults.database_url,
        };
        let server_host = match server_host {
            Some(h) => h,
            None => defaults.server_host,
        };
        let server_port = match server_port {
            Some(p) => match parse_port(p.as_str()) {
                Some(v) => v,
                None => DEFAULT_PORT,
            },
            None => DEFAULT_PORT,
        };
        Config { database_url, server_host, server_port }
    }
}

} // verus!
