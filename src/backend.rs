use vstd::prelude::*;
use vstd::string::*;

verus! {

/// A proxy target: a name, unique within a registry, and the address it
/// listens on.
#[derive(Clone, Debug, PartialEq, Eq)]
pub struct Backend {
    pub name: String,
    pub host: String,
    pub port: u16,
}

/// The decimal character of a single digit.
pub open spec fn digit_char(d: nat) -> char {
    if d == 0 { '0' }
    else if d == 1 { '1' }
    else if d == 2 { '2' }
    else if d == 3 { '3' }
    else if d == 4 { '4' }
    else if d == 5 { '5' }
    else if d == 6 { '6' }
    else if d == 7 { '7' }
    else if d == 8 { '8' }
    else { '9' }
}

/// The decimal notation of `n`, without leading zeros.
pub open spec fn decimal(n: nat) -> Seq<char>
    decreases n,
{
    if n < 10 {
        seq![digit_char(n)]
    } else {
        decimal(n / 10) + seq![digit_char(n % 10)]
    }
}

/// The URL of `uri` on `host:port`: `http://{host}:{port}{uri}`.
pub open spec fn url_of(host: Seq<char>, port: u16, uri: Seq<char>) -> Seq<char> {
    "http://"@ + host + ":"@ + decimal(port as nat) + uri
}

fn digit_str(d: u16) -> (r: &'static str)
    requires
        d < 10,
    ensures
        r@ == seq![digit_char(d as nat)],
{
    proof {
        reveal_strlit("0");
        reveal_strlit("1");
        reveal_strlit("2");
        reveal_strlit("3");
        reveal_strlit("4");
        reveal_strlit("5");
        reveal_strlit("6");
        reveal_strlit("7");
        reveal_strlit("8");
        reveal_strlit("9");
    }
    match d {
        0 => "0",
        1 => "1",
        2 => "2",
        3 => "3",
        4 => "4",
        5 => "5",
        6 => "6",
        7 => "7",
        8 => "8",
        _ => "9",
    }
}

/// Appends the decimal notation of `n` to `s`.
pub fn push_decimal(s: &mut String, n: u16)
    ensures
        final(s)@ == old(s)@ + decimal(n as nat),
    decreases n,
{
    if n >= 10 {
        push_decimal(s, n / 10);
    }
    s.append(digit_str(n % 10));
    assert(final(s)@ =~= old(s)@ + decimal(n as nat));
}

impl Backend {
    pub fn new(name: String, host: String, port: u16) -> (r: Backend)
        ensures
            r.name@ == name@,
            r.host@ == host@,
            r.port == port,
    {
        Backend { name, host, port }
    }

    /// A copy of this descriptor.
    pub fn duplicate(&self) -> (r: Backend)
        ensures
            r == *self,
    {
        Backend { name: self.name.clone(), host: self.host.clone(), port: self.port }
    }

    /// The URL under which `uri` is requested from this backend.
    pub fn url_for(&self, uri: &str) -> (r: String)
        ensures
            r@ == url_of(self.host@, self.port, uri@),
    {
        proof {
            reveal_strlit("http://");
            reveal_strlit(":");
        }
        let mut s = String::from_str("http://");
        s.append(self.host.as_str());
        s.append(":");
        push_decimal(&mut s, self.port);
        s.append(uri);
        assert(s@ =~= url_of(self.host@, self.port, uri@));
        s
    }
}

} // verus!
