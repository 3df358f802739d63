//! Requests and responses as the editor holds them.

use vstd::prelude::*;
use vstd::string::*;
use crate::chars::{lemma_utf8_injective, str_eq, utf8};

verus! {

/// The method of a request.
#[derive(Debug, Clone, Copy, PartialEq, Eq, Structural)]
pub enum Method {
    GET,
    POST,
    PUT,
    DELETE,
    PATCH,
    HEAD,
    OPTIONS,
}

impl Default for Method {
    fn default() -> (r: Self)
        ensures
            r == Method::GET,
    {
        Method::GET
    }
}

impl Method {
    /// The name of the method as it is written in a request.
    pub open spec fn spec_name(self) -> Seq<char> {
        match self {
            Method::GET => "GET"@,
            Method::POST => "POST"@,
            Method::PUT => "PUT"@,
            Method::DELETE => "DELETE"@,
            Method::PATCH => "PATCH"@,
            Method::HEAD => "HEAD"@,
            Method::OPTIONS => "OPTIONS"@,
        }
    }

    /// The name of the method as it is written in a request.
    pub fn name(&self) -> (r: &'static str)
        ensures
            r@ == self.spec_name(),
    {
        match self {
            Method::GET => "GET",
            Method::POST => "POST",
            Method::PUT => "PUT",
            Method::DELETE => "DELETE",
            Method::PATCH => "PATCH",
            Method::HEAD => "HEAD",
            Method::OPTIONS => "OPTIONS",
        }
    }
}

/// The headers of a request or a response: names with their values. Names are
/// told apart by case, and a name that is set again gets the new value.
#[derive(Debug)]
pub struct Headers {
    entries: Vec<(String, String)>,
}

/// The names of `entries`, in order.
pub open spec fn names_of(entries: Seq<(String, String)>) -> Seq<Seq<u8>> {
    entries.map_values(|e: (String, String)| utf8(e.0@))
}

/// The mapping that `entries` stands for: a later entry wins over an earlier
/// one of the same name.
pub open spec fn mapping_of(entries: Seq<(String, String)>) -> Map<Seq<u8>, Seq<u8>>
    decreases entries.len(),
{
    if entries.len() == 0 {
        Map::empty()
    } else {
        mapping_of(entries.drop_last()).insert(utf8(entries.last().0@), utf8(entries.last().1@))
    }
}

/// An entry of a list without a repeated name is what the mapping holds for
/// its name, and the mapping holds nothing else.
pub proof fn lemma_mapping_of(entries: Seq<(String, String)>)
    requires
        names_of(entries).no_duplicates(),
    ensures
        forall|i: int|
            0 <= i < entries.len() ==> mapping_of(entries).contains_pair(
                #[trigger] utf8(entries[i].0@),
                utf8(entries[i].1@),
            ),
        forall|k: Seq<u8>| #[trigger]
            mapping_of(entries).contains_key(k) ==> names_of(entries).contains(k),
    decreases entries.len(),
{
    if entries.len() > 0 {
        let front = entries.drop_last();
        assert(names_of(front) =~= names_of(entries).drop_last());
        lemma_mapping_of(front);
        let last = entries.len() - 1;
        assert forall|i: int| 0 <= i < entries.len() implies mapping_of(entries).contains_pair(
            #[trigger] utf8(entries[i].0@),
            utf8(entries[i].1@),
        ) by {
            if i < last {
                assert(front[i] == entries[i]);
                assert(names_of(entries)[i] != names_of(entries)[last]);
            }
        }
        assert forall|k: Seq<u8>| #[trigger]
            mapping_of(entries).contains_key(k) implies names_of(entries).contains(k) by {
            if k == utf8(entries[last].0@) {
                assert(names_of(entries)[last] == k);
            } else {
                assert(mapping_of(front).contains_key(k));
                let j = choose|j: int| 0 <= j < front.len() && names_of(front)[j] == k;
                assert(front[j] == entries[j]);
                assert(names_of(entries)[j] == k);
            }
        }
    }
}

impl Clone for Headers {
    fn clone(&self) -> (r: Self)
        ensures
            r.entries() == self.entries(),
            r@ == self@,
    {
        proof {
            use_type_invariant(self);
        }
        let mut entries: Vec<(String, String)> = Vec::new();
        let mut i: usize = 0;
        while i < self.entries.len()
            invariant
                i <= self.entries@.len(),
                entries@ == self.entries@.take(i as int),
            decreases self.entries@.len() - i,
        {
            let name = self.entries[i].0.clone();
            let value = self.entries[i].1.clone();
            entries.push((name, value));
            proof {
                assert(entries@ =~= self.entries@.take(i + 1));
            }
            i = i + 1;
        }
        proof {
            assert(entries@ =~= self.entries@);
        }
        Headers { entries }
    }
}

impl Headers {
    #[verifier::type_invariant]
    spec fn distinct_names(self) -> bool {
        names_of(self.entries@).no_duplicates()
    }

    /// The entries in the order in which their names were first set.
    pub closed spec fn entries(self) -> Seq<(String, String)> {
        self.entries@
    }

    /// The mapping from names to values.
    pub open spec fn view(self) -> Map<Seq<u8>, Seq<u8>> {
        mapping_of(self.entries())
    }

    /// No headers.
    pub fn new() -> (r: Self)
        ensures
            r.entries() == Seq::<(String, String)>::empty(),
            r@ == Map::<Seq<u8>, Seq<u8>>::empty(),
    {
        let r = Headers { entries: Vec::new() };
        assert(names_of(r.entries@) =~= Seq::empty());
        r
    }

    /// The number of headers. No name stands twice among them.
    pub fn len(&self) -> (n: usize)
        ensures
            n == self.entries().len(),
            names_of(self.entries()).no_duplicates(),
    {
        proof {
            use_type_invariant(self);
        }
        self.entries.len()
    }

    /// The name of the header at `index`.
    pub fn name_at(&self, index: usize) -> (r: &str)
        requires
            index < self.entries().len(),
        ensures
            r@ == self.entries()[index as int].0@,
    {
        self.entries[index].0.as_str()
    }

    /// The value of the header at `index`.
    pub fn value_at(&self, index: usize) -> (r: &str)
        requires
            index < self.entries().len(),
        ensures
            r@ == self.entries()[index as int].1@,
    {
        self.entries[index].1.as_str()
    }

    /// Where the header named `name` stands, if there is one.
    pub fn position(&self, name: &str) -> (r: Option<usize>)
        ensures
            match r {
                Some(i) => i < self.entries().len() && self.entries()[i as int].0@ == name@,
                None => !names_of(self.entries()).contains(utf8(name@)),
            },
    {
        let mut i: usize = 0;
        while i < self.entries.len()
            invariant
                i <= self.entries@.len(),
                forall|j: int| 0 <= j < i ==> self.entries@[j].0@ != name@,
            decreases self.entries@.len() - i,
        {
            if str_eq(self.entries[i].0.as_str(), name) {
                return Some(i);
            }
            i = i + 1;
        }
        proof {
            if names_of(self.entries@).contains(utf8(name@)) {
                let j = choose|j: int|
                    0 <= j < self.entries@.len() && names_of(self.entries@)[j] == utf8(name@);
                lemma_utf8_injective(self.entries@[j].0@, name@);
            }
        }
        None
    }

    /// The value of the header named `name`, if there is one.
    pub fn get(&self, name: &str) -> (r: Option<&str>)
        ensures
            match r {
                Some(v) => self@.contains_pair(utf8(name@), utf8(v@)),
                None => !self@.contains_key(utf8(name@)),
            },
    {
        proof {
            use_type_invariant(self);
            lemma_mapping_of(self.entries@);
        }
        match self.position(name) {
            Some(i) => Some(self.entries[i].1.as_str()),
            None => None,
        }
    }

    /// Sets the header `name` to `value`. A header of that name keeps its
    /// place and gets the new value; a new name goes to the end.
    pub fn insert(self, name: String, value: String) -> (r: Self)
        ensures
            r@ == self@.insert(utf8(name@), utf8(value@)),
            self@.contains_key(utf8(name@)) ==> exists|i: int|
                0 <= i < self.entries().len() && (#[trigger] self.entries()[i]).0@ == name@
                    && r.entries() == self.entries().update(i, (name, value)),
            !self@.contains_key(utf8(name@)) ==> r.entries() == self.entries().push((name, value)),
    {
        proof {
            use_type_invariant(&self);
            lemma_mapping_of(self.entries@);
        }
        let found = self.position(name.as_str());
        let ghost before = self.entries@;
        let mut entries = self.entries;
        match found {
            Some(i) => {
                entries.set(i, (name, value));
                proof {
                    assert(names_of(entries@) =~= names_of(before));
                    lemma_mapping_of(entries@);
                    lemma_mapping_update(before, i as int, entries@[i as int]);
                    assert(mapping_of(before).contains_pair(
                        utf8(before[i as int].0@),
                        utf8(before[i as int].1@),
                    ));
                    assert(before[i as int].0@ == name@);
                    assert(entries@ == before.update(i as int, (name, value)));
                }
            },
            None => {
                entries.push((name, value));
                proof {
                    assert(entries@.drop_last() =~= before);
                    assert(names_of(entries@) =~= names_of(before).push(utf8(name@)));
                }
            },
        }
        Headers { entries }
    }
}

/// Changing the value of one entry changes the mapping at its name alone.
pub proof fn lemma_mapping_update(entries: Seq<(String, String)>, i: int, entry: (String, String))
    requires
        names_of(entries).no_duplicates(),
        0 <= i < entries.len(),
        entry.0@ == entries[i].0@,
    ensures
        mapping_of(entries.update(i, entry)) == mapping_of(entries).insert(
            utf8(entry.0@),
            utf8(entry.1@),
        ),
{
    let after = entries.update(i, entry);
    assert(names_of(after) =~= names_of(entries));
    lemma_mapping_of(entries);
    lemma_mapping_of(after);
    let want = mapping_of(entries).insert(utf8(entry.0@), utf8(entry.1@));
    assert forall|k: Seq<u8>| mapping_of(after).contains_key(k) <==> want.contains_key(k) by {
        if mapping_of(after).contains_key(k) {
            let j = choose|j: int| 0 <= j < after.len() && names_of(after)[j] == k;
            assert(utf8(entries[j].0@) == k);
        }
        if want.contains_key(k) && k != utf8(entry.0@) {
            let j = choose|j: int| 0 <= j < entries.len() && names_of(entries)[j] == k;
            assert(utf8(after[j].0@) == k);
        }
        if k == utf8(entry.0@) {
            assert(utf8(after[i].0@) == k);
        }
    }
    assert forall|k: Seq<u8>| mapping_of(after).contains_key(k) implies mapping_of(after)[k]
        == want[k] by {
        let j = choose|j: int| 0 <= j < after.len() && names_of(after)[j] == k;
        assert(utf8(after[j].0@) == k);
        assert(utf8(entries[j].0@) == k);
        if j != i {
            assert(after[j] == entries[j]);
            assert(names_of(entries)[j] != names_of(entries)[i]);
        }
    }
    assert(mapping_of(after) =~= want);
}

/// A request as it is handed to the transport.
#[derive(Debug, Clone)]
pub struct Request {
    pub method: Method,
    pub url: String,
    pub headers: Headers,
    pub body: String,
}

/// What a request holds: its texts as bytes, its headers as a mapping.
pub struct RequestView {
    pub method: Method,
    pub url: Seq<u8>,
    pub headers: Map<Seq<u8>, Seq<u8>>,
    pub body: Seq<u8>,
}

impl View for Request {
    type V = RequestView;

    open spec fn view(&self) -> RequestView {
        RequestView {
            method: self.method,
            url: utf8(self.url@),
            headers: self.headers@,
            body: utf8(self.body@),
        }
    }
}

impl Default for Request {
    fn default() -> (r: Self)
        ensures
            r@ == (RequestView {
                method: Method::GET,
                url: Seq::empty(),
                headers: Map::empty(),
                body: Seq::empty(),
            }),
    {
        Request { method: Method::GET, url: String::new(), headers: Headers::new(), body: String::new() }
    }
}

impl Request {
    /// A request for `url` without headers and with an empty body.
    pub fn new(method: Method, url: String) -> (r: Self)
        ensures
            r@ == (RequestView {
                method,
                url: utf8(url@),
                headers: Map::empty(),
                body: Seq::empty(),
            }),
            r.url == url,
            r.headers.entries().len() == 0,
    {
        Request { method, url, headers: Headers::new(), body: String::new() }
    }

    /// The request with the header `key` set to `value`.
    pub fn with_header(self, key: String, value: String) -> (r: Self)
        ensures
            r@ == (RequestView {
                headers: self@.headers.insert(utf8(key@), utf8(value@)),
                ..self@
            }),
            r.url == self.url,
            r.body == self.body,
    {
        Request {
            method: self.method,
            url: self.url,
            headers: self.headers.insert(key, value),
            body: self.body,
        }
    }

    /// The request with `body` as its body.
    pub fn with_body(self, body: String) -> (r: Self)
        ensures
            r@ == (RequestView { body: utf8(body@), ..self@ }),
            r.url == self.url,
            r.headers == self.headers,
            r.body == body,
    {
        Request { method: self.method, url: self.url, headers: self.headers, body }
    }
}

/// The status that stands for a request that could not be carried out.
pub const INVALID_STATUS: u16 = 65535;

/// What came back for a request.
#[derive(Debug, Clone)]
pub struct Response {
    pub status: u16,
    pub status_text: String,
    pub headers: Headers,
    pub body: String,
    pub duration_ms: u128,
}

/// What a response holds: its texts as bytes, its headers as a mapping.
pub struct ResponseView {
    pub status: u16,
    pub status_text: Seq<u8>,
    pub headers: Map<Seq<u8>, Seq<u8>>,
    pub body: Seq<u8>,
    pub duration_ms: u128,
}

impl View for Response {
    type V = ResponseView;

    open spec fn view(&self) -> ResponseView {
        ResponseView {
            status: self.status,
            status_text: utf8(self.status_text@),
            headers: self.headers@,
            body: utf8(self.body@),
            duration_ms: self.duration_ms,
        }
    }
}

/// What stands in for the response to a request that could not be carried
/// out.
pub open spec fn spec_invalid_response() -> ResponseView {
    ResponseView {
        status: INVALID_STATUS,
        status_text: utf8("Invalid Request"@),
        headers: Map::empty(),
        body: Seq::empty(),
        duration_ms: 0,
    }
}

impl Response {
    /// A response without headers that took no time.
    pub fn new(status: u16, status_text: String, body: String) -> (r: Self)
        ensures
            r@ == (ResponseView {
                status,
                status_text: utf8(status_text@),
                headers: Map::empty(),
                body: utf8(body@),
                duration_ms: 0,
            }),
            r.status_text == status_text,
            r.body == body,
            r.headers.entries().len() == 0,
    {
        Response { status, status_text, headers: Headers::new(), body, duration_ms: 0 }
    }

    /// The response that stands in for a request that the transport could not
    /// carry out.
    pub fn invalid() -> (r: Self)
        ensures
            r@ == spec_invalid_response(),
            r.headers.entries().len() == 0,
    {
        Response::new(INVALID_STATUS, "Invalid Request".to_owned(), String::new())
    }
}

/// Whether `url` can be sent to at all: it must not be empty.
pub fn is_valid_url(url: &str) -> (r: bool)
    ensures
        r == (url@.len() > 0),
{
    !url.is_empty()
}

} // verus!
