use vstd::prelude::*;

use crate::backend::{url_of, Backend};

verus! {

/// An HTTP request method.
#[derive(Clone, Debug, PartialEq, Eq)]
pub enum Method {
    Options,
    Get,
    Post,
    Put,
    Delete,
    Head,
    Trace,
    Connect,
    Patch,
    Extension(String),
}

impl Method {
    /// A copy of this method.
    pub fn duplicate(&self) -> (r: Method)
        ensures
            r == *self,
    {
        match self {
            Method::Options => Method::Options,
            Method::Get => Method::Get,
            Method::Post => Method::Post,
            Method::Put => Method::Put,
            Method::Delete => Method::Delete,
            Method::Head => Method::Head,
            Method::Trace => Method::Trace,
            Method::Connect => Method::Connect,
            Method::Patch => Method::Patch,
            Method::Extension(s) => Method::Extension(s.clone()),
        }
    }

    pub fn is_get(&self) -> (r: bool)
        ensures
            r == (*self is Get),
    {
        match self {
            Method::Get => true,
            _ => false,
        }
    }
}

/// A copy of a byte sequence.
pub fn copy_bytes(b: &Vec<u8>) -> (r: Vec<u8>)
    ensures
        r@ == b@,
{
    let mut r: Vec<u8> = Vec::new();
    let mut i: usize = 0;
    while i < b.len()
        invariant
            i <= b.len(),
            r@ == b@.subrange(0, i as int),
        decreases b.len() - i,
    {
        r.push(b[i]);
        i = i + 1;
        assert(r@ =~= b@.subrange(0, i as int));
    }
    assert(r@ =~= b@);
    r
}

/// One header line: a name and its raw value.
#[derive(Clone, Debug, PartialEq, Eq)]
pub struct Header {
    pub name: String,
    pub value: Vec<u8>,
}

impl View for Header {
    type V = (Seq<char>, Seq<u8>);

    open spec fn view(&self) -> (Seq<char>, Seq<u8>) {
        (self.name@, self.value@)
    }
}

/// The entries of `s` whose name is not `name`, in order.
pub open spec fn without_name(s: Seq<(Seq<char>, Seq<u8>)>, name: Seq<char>) -> Seq<(Seq<char>, Seq<u8>)>
    decreases s.len(),
{
    if s.len() == 0 {
        s
    } else {
        let rest = without_name(s.drop_last(), name);
        if s.last().0 == name {
            rest
        } else {
            rest.push(s.last())
        }
    }
}

/// The value of the first entry of `s` named `name`, if any.
pub open spec fn first_value(s: Seq<(Seq<char>, Seq<u8>)>, name: Seq<char>) -> Option<Seq<u8>>
    decreases s.len(),
{
    if s.len() == 0 {
        None
    } else if s[0].0 == name {
        Some(s[0].1)
    } else {
        first_value(s.drop_first(), name)
    }
}

/// The views of a sequence of header entries.
pub open spec fn entry_views(s: Seq<Header>) -> Seq<(Seq<char>, Seq<u8>)> {
    s.map_values(|h: Header| h@)
}

/// An ordered header multimap.
#[derive(Clone, Debug, PartialEq, Eq)]
pub struct Headers {
    pub entries: Vec<Header>,
}

impl View for Headers {
    type V = Seq<(Seq<char>, Seq<u8>)>;

    open spec fn view(&self) -> Seq<(Seq<char>, Seq<u8>)> {
        entry_views(self.entries@)
    }
}

impl Headers {
    pub fn new() -> (r: Headers)
        ensures
            r@ == Seq::<(Seq<char>, Seq<u8>)>::empty(),
    {
        let r = Headers { entries: Vec::new() };
        assert(r@ =~= Seq::<(Seq<char>, Seq<u8>)>::empty());
        r
    }

    pub fn len(&self) -> (r: usize)
        ensures
            r == self@.len(),
    {
        self.entries.len()
    }

    /// Removes every entry.
    pub fn clear(&mut self)
        ensures
            final(self)@ == Seq::<(Seq<char>, Seq<u8>)>::empty(),
    {
        self.entries = Vec::new();
        assert(self@ =~= Seq::<(Seq<char>, Seq<u8>)>::empty());
    }

    /// A copy of this header set; changing one leaves the other as it was.
    pub fn duplicate(&self) -> (r: Headers)
        ensures
            r@ == self@,
    {
        let mut entries: Vec<Header> = Vec::new();
        let mut i: usize = 0;
        while i < self.entries.len()
            invariant
                i <= self.entries.len(),
                entry_views(entries@) == self@.subrange(0, i as int),
            decreases self.entries.len() - i,
        {
            let h = Header { name: self.entries[i].name.clone(), value: copy_bytes(&self.entries[i].value) };
            let ghost prev = entries@;
            entries.push(h);
            assert(entry_views(entries@) =~= entry_views(prev).push(self@[i as int]));
            assert(self@.subrange(0, i + 1) =~= self@.subrange(0, i as int).push(self@[i as int]));
            i = i + 1;
            assert(entry_views(entries@) =~= self@.subrange(0, i as int));
        }
        let r = Headers { entries };
        assert(r@ =~= self@);
        r
    }

    /// Appends an entry, keeping any others of the same name.
    pub fn append_raw(&mut self, name: String, value: Vec<u8>)
        ensures
            final(self)@ == old(self)@.push((name@, value@)),
    {
        self.entries.push(Header { name, value });
        assert(self@ =~= old(self)@.push((name@, value@)));
    }

    /// Sets `name` to the single value `value`: every earlier entry of that
    /// name is removed and the new one goes last.
    pub fn set_raw(&mut self, name: String, value: Vec<u8>)
        ensures
            final(self)@ == without_name(old(self)@, name@).push((name@, value@)),
    {
        let ghost old_view = self@;
        let mut kept: Vec<Header> = Vec::new();
        let mut i: usize = 0;
        while i < self.entries.len()
            invariant
                i <= self.entries.len(),
                self@ == old_view,
                entry_views(kept@) == without_name(old_view.subrange(0, i as int), name@),
            decreases self.entries.len() - i,
        {
            assert(old_view.subrange(0, i + 1).drop_last() =~= old_view.subrange(0, i as int));
            if self.entries[i].name != name {
                let h = Header { name: self.entries[i].name.clone(), value: copy_bytes(&self.entries[i].value) };
                kept.push(h);
            }
            i = i + 1;
            assert(entry_views(kept@) =~= without_name(old_view.subrange(0, i as int), name@));
        }
        assert(old_view.subrange(0, i as int) =~= old_view);
        kept.push(Header { name, value });
        self.entries = kept;
        assert(self@ =~= without_name(old_view, name@).push((name@, value@)));
    }

    /// The value of the first entry named `name`.
    pub fn get_raw(&self, name: &String) -> (r: Option<Vec<u8>>)
        ensures
            match r {
                Some(v) => first_value(self@, name@) == Some(v@),
                None => first_value(self@, name@) is None,
            },
    {
        let mut i: usize = 0;
        assert(self@.subrange(0, self@.len() as int) =~= self@);
        while i < self.entries.len()
            invariant
                i <= self.entries.len(),
                first_value(self@, name@) == first_value(self@.subrange(i as int, self@.len() as int), name@),
            decreases self.entries.len() - i,
        {
            let ghost rest = self@.subrange(i as int, self@.len() as int);
            assert(rest.drop_first() =~= self@.subrange(i + 1, self@.len() as int));
            if self.entries[i].name == *name {
                return Some(copy_bytes(&self.entries[i].value));
            }
            i = i + 1;
        }
        None
    }
}

/// A response from a backend, or the one relayed to the client.
#[derive(Clone, Debug, PartialEq, Eq)]
pub struct Response {
    pub status: u16,
    pub headers: Headers,
    pub body: Vec<u8>,
}

impl View for Response {
    type V = (u16, Seq<(Seq<char>, Seq<u8>)>, Seq<u8>);

    open spec fn view(&self) -> (u16, Seq<(Seq<char>, Seq<u8>)>, Seq<u8>) {
        (self.status, self.headers@, self.body@)
    }
}

impl Response {
    pub fn new(status: u16, headers: Headers, body: Vec<u8>) -> (r: Response)
        ensures
            r@ == (status, headers@, body@),
    {
        Response { status, headers, body }
    }

    /// A copy of this response.
    pub fn duplicate(&self) -> (r: Response)
        ensures
            r@ == self@,
    {
        Response { status: self.status, headers: self.headers.duplicate(), body: copy_bytes(&self.body) }
    }
}

/// An inbound request, read whole: method, URI, headers and body.
#[derive(Clone, Debug, PartialEq, Eq)]
pub struct RequestCapture {
    pub method: Method,
    pub uri: String,
    pub headers: Headers,
    pub body: Vec<u8>,
}

/// One outbound request, addressed to one backend.
#[derive(Clone, Debug, PartialEq, Eq)]
pub struct OutboundRequest {
    pub url: String,
    pub method: Method,
    pub headers: Headers,
    pub body: Vec<u8>,
}

impl RequestCapture {
    pub fn new(method: Method, uri: String, headers: Headers, body: Vec<u8>) -> (r: RequestCapture)
        ensures
            r.method == method,
            r.uri@ == uri@,
            r.headers@ == headers@,
            r.body@ == body@,
    {
        RequestCapture { method, uri, headers, body }
    }

    /// The request to send to `target`: its URL, the captured method and
    /// body, and a private copy of the captured headers.
    pub fn outbound_for(&self, target: &Backend) -> (r: OutboundRequest)
        ensures
            r.url@ == url_of(target.host@, target.port, self.uri@),
            r.method == self.method,
            r.headers@ == self.headers@,
            r.body@ == self.body@,
    {
        OutboundRequest {
            url: target.url_for(self.uri.as_str()),
            method: self.method.duplicate(),
            headers: self.headers.duplicate(),
            body: copy_bytes(&self.body),
        }
    }
}

} // verus!
