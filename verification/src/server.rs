//! The compute side of connection handling: parsing the request line and
//! header lines, sizing the body from `Content-Length`, and serializing the
//! response head. The embedding process owns the sockets; it hands lines and
//! bytes in and writes the serialized results out.
use vstd::prelude::*;
use vstd::string::StrSliceExecFns;
use vstd::string::StringExecFns;
use crate::error::Error;
use crate::error::ErrorKind;
use crate::error::WebResult;
use crate::numbers::spec_nat_digits;
use crate::numbers::spec_parse_u64;
use crate::numbers::parse_u64;
use crate::numbers::u64_to_string;
use crate::router::Route;
use crate::string_map::StringMap;
use crate::string_map::spec_str_insert;
use crate::string_map::spec_str_lookup;
use crate::text_parse::spec_split;
use crate::text_parse::spec_split_pat;
use crate::text_parse::spec_trim;
use crate::text_parse::split_char;
use crate::text_parse::split_str;
use crate::text_parse::trim;

verus! {

/// Parses a request line into its verb and path: exactly three
/// space-separated parts (verb, path, and a protocol version that is
/// accepted but ignored); anything else is a connection error.
pub fn parse_request_line(line: &str) -> (r: WebResult<(String, String)>)
    ensures
        ({
            let parts = spec_split(line@, ' ');
            &&& parts.len() == 3 ==> r is Ok && (r->Ok_0).0@ == parts[0] && (r->Ok_0).1@
                == parts[1]
            &&& parts.len() != 3 ==> r is Err && r->Err_0.spec_kind() == ErrorKind::Connection
        }),
{
    let mut parts = split_char(line, ' ');
    if parts.len() != 3 {
        let mut msg: String = "Unimplemented request handle for: '".to_owned();
        msg.append(line);
        return Err(Error::Connection(msg));
    }
    let verb = parts.remove(0);
    let path = parts.remove(0);
    proof {
        assert(verb@ == spec_split(line@, ' ')[0]);
        assert(path@ == spec_split(line@, ' ')[1]);
    }
    Ok((verb, path))
}

/// Parses one header line: trimmed, it must split on `": "` into exactly a
/// key and a value; anything else is no header.
pub fn parse_header_line(line: &str) -> (r: Option<(String, String)>)
    ensures
        ({
            let parts = spec_split_pat(spec_trim(line@), seq![':', ' ']);
            &&& parts.len() == 2 ==> r is Some && (r->0).0@ == parts[0] && (r->0).1@ == parts[1]
            &&& parts.len() != 2 ==> r is None
        }),
{
    proof {
        reveal_strlit(": ");
        assert(": "@ =~= seq![':', ' ']);
    }
    let trimmed = trim(line);
    let mut parts = split_str(trimmed.as_str(), ": ");
    if parts.len() != 2 {
        return None;
    }
    let key = parts.remove(0);
    let value = parts.remove(0);
    proof {
        assert(key@ == spec_split_pat(spec_trim(line@), seq![':', ' '])[0]);
        assert(value@ == spec_split_pat(spec_trim(line@), seq![':', ' '])[1]);
    }
    Some((key, value))
}

/// The expected body length: the parsed `Content-Length` header, or zero
/// when the header is absent or unparseable.
pub open spec fn spec_content_length(headers: Seq<(Seq<char>, Seq<char>)>) -> u64 {
    match spec_str_lookup(headers, "Content-Length"@) {
        None => 0,
        Some(v) => match spec_parse_u64(v) {
            Some(n) => n,
            None => 0,
        },
    }
}

/// Reads the expected body length from the headers.
pub fn content_length(headers: &StringMap) -> (r: u64)
    ensures
        r == spec_content_length(headers@),
{
    match headers.get("Content-Length") {
        None => 0,
        Some(v) => match parse_u64(v.as_str()) {
            Some(n) => n,
            None => 0,
        },
    }
}

/// One serialized header line: the key, a colon and a space, the value.
pub open spec fn spec_header_text(p: (Seq<char>, Seq<char>)) -> Seq<char> {
    p.0 + seq![':', ' '] + p.1
}

/// The serialized header lines after the first, each preceded by a line
/// break.
pub open spec fn spec_join_rest(pairs: Seq<(Seq<char>, Seq<char>)>) -> Seq<char>
    decreases pairs.len(),
{
    if pairs.len() == 0 {
        Seq::empty()
    } else {
        seq!['\r', '\n'] + spec_header_text(pairs[0]) + spec_join_rest(pairs.drop_first())
    }
}

/// The serialized header block: the header lines joined by line breaks.
pub open spec fn spec_join_headers(pairs: Seq<(Seq<char>, Seq<char>)>) -> Seq<char> {
    if pairs.len() == 0 {
        Seq::empty()
    } else {
        spec_header_text(pairs[0]) + spec_join_rest(pairs.drop_first())
    }
}

/// The response head: the status line, the serialized headers, and the blank
/// line that separates the head from the body.
pub open spec fn spec_response_head(
    status_code: u32,
    pairs: Seq<(Seq<char>, Seq<char>)>,
) -> Seq<char> {
    "HTTP/1.1 "@ + spec_nat_digits(status_code as nat) + seq!['\r', '\n'] + spec_join_headers(
        pairs,
    ) + seq!['\r', '\n', '\r', '\n']
}

/// Serializes the response head for a status code, with the process-wide
/// default headers followed by the response's own headers.
#[verifier::loop_isolation(false)]
pub fn response_head(status_code: u32, default_headers: &StringMap, response_headers: &StringMap) -> (r:
    String)
    requires
        default_headers@.len() + response_headers@.len() <= usize::MAX,
    ensures
        r@ == spec_response_head(status_code, default_headers@ + response_headers@),
{
    proof {
        reveal_strlit(": ");
        reveal_strlit("\r\n");
        reveal_strlit("\r\n\r\n");
        assert(": "@ =~= seq![':', ' ']);
        assert("\r\n"@ =~= seq!['\r', '\n']);
        assert("\r\n\r\n"@ =~= seq!['\r', '\n', '\r', '\n']);
    }
    let ghost pairs = default_headers@ + response_headers@;
    let mut head: String = "HTTP/1.1 ".to_owned();
    head.append(u64_to_string(status_code as u64).as_str());
    head.append("\r\n");
    let dn = default_headers.entries.len();
    let rn = response_headers.entries.len();
    proof {
        assert(pairs.len() == dn + rn);
        assert(forall|j: int| 0 <= j < dn ==> pairs[j] == (
            #[trigger] default_headers.entries@[j].0@,
            default_headers.entries@[j].1@,
        ));
        assert(forall|j: int| 0 <= j < rn ==> pairs[dn + j] == (
            #[trigger] response_headers.entries@[j].0@,
            response_headers.entries@[j].1@,
        ));
    }
    let ghost status_line = "HTTP/1.1 "@ + spec_nat_digits(status_code as nat) + seq!['\r', '\n'];
    let mut k: usize = 0;
    while k < dn + rn
        invariant
            0 <= k <= dn + rn,
            dn == default_headers.entries@.len(),
            rn == response_headers.entries@.len(),
            k == 0 ==> head@ == status_line,
            k > 0 ==> head@ == status_line + spec_header_text(pairs[0]) + spec_join_rest(
                pairs.subrange(1, k as int),
            ),
        decreases dn + rn - k,
    {
        if k > 0 {
            head.append("\r\n");
        }
        let (key, value): (&String, &String) = if k < dn {
            (&default_headers.entries[k].0, &default_headers.entries[k].1)
        } else {
            (&response_headers.entries[k - dn].0, &response_headers.entries[k - dn].1)
        };
        proof {
            assert((key@, value@) == pairs[k as int]);
        }
        head.append(key.as_str());
        head.append(": ");
        head.append(value.as_str());
        proof {
            if k > 0 {
                lemma_join_rest_snoc(pairs, 1, k as int);
            }
        }
        k = k + 1;
    }
    head.append("\r\n\r\n");
    proof {
        if dn + rn == 0 {
            assert(spec_join_headers(pairs) =~= Seq::<char>::empty());
            assert(head@ =~= spec_response_head(status_code, pairs));
        } else {
            assert(pairs.subrange(1, pairs.len() as int) =~= pairs.drop_first());
            assert(head@ =~= spec_response_head(status_code, pairs));
        }
    }
    head
}

/// Appending one more pair to a join extends it by a line break and that
/// pair's text.
proof fn lemma_join_rest_snoc(pairs: Seq<(Seq<char>, Seq<char>)>, a: int, k: int)
    requires
        0 < a <= k < pairs.len(),
    ensures
        spec_join_rest(pairs.subrange(a, k + 1)) == spec_join_rest(pairs.subrange(a, k)) + (seq![
            '\r',
            '\n',
        ] + spec_header_text(pairs[k])),
    decreases k - a,
{
    let whole = pairs.subrange(a, k + 1);
    let part = pairs.subrange(a, k);
    if a == k {
        assert(part.len() == 0);
        assert(whole.len() == 1);
        assert(whole[0] == pairs[k]);
        assert(whole.drop_first().len() == 0);
        assert(spec_join_rest(whole.drop_first()) =~= Seq::<char>::empty());
        assert(spec_join_rest(whole) =~= seq!['\r', '\n'] + spec_header_text(pairs[k]));
        assert(spec_join_rest(part) =~= Seq::<char>::empty());
    } else {
        lemma_join_rest_snoc(pairs, a + 1, k);
        assert(whole[0] == pairs[a]);
        assert(part[0] == pairs[a]);
        assert(whole.drop_first() =~= pairs.subrange(a + 1, k + 1));
        assert(part.drop_first() =~= pairs.subrange(a + 1, k));
        assert(spec_join_rest(whole) =~= spec_join_rest(part) + (seq!['\r', '\n']
            + spec_header_text(pairs[k])));
    }
}

/// The response headers completed for the wire: a `Content-Length` entry
/// when none is present, then `Connection: close`.
pub open spec fn spec_finalize_headers(
    headers: Seq<(Seq<char>, Seq<char>)>,
    body_len: u64,
) -> Seq<(Seq<char>, Seq<char>)> {
    let with_length = if spec_str_lookup(headers, "Content-Length"@) is None {
        spec_str_insert(headers, "Content-Length"@, spec_nat_digits(body_len as nat))
    } else {
        headers
    };
    spec_str_insert(with_length, "Connection"@, "close"@)
}

/// Completes the response headers for the wire.
pub fn finalize_headers(headers: &StringMap, body_len: u64) -> (r: StringMap)
    ensures
        r@ == spec_finalize_headers(headers@, body_len),
{
    let mut out = headers.clone();
    if out.get("Content-Length").is_none() {
        out.insert("Content-Length".to_owned(), u64_to_string(body_len));
    }
    out.insert("Connection".to_owned(), "close".to_owned());
    out
}

/// How a server is configured: the address to bind, the number of worker
/// threads, and headers added to every response.
pub struct ServerOptions {
    pub address: String,
    pub threads: u32,
    pub default_headers: StringMap,
}

/// The declared routes and the configuration a listener runs with. The
/// listener loop itself — sockets, threads — belongs to the embedding
/// process.
pub struct Server {
    pub routes: Vec<Route>,
    pub options: ServerOptions,
}

impl Server {
    /// A server for the given routes, bound to `0.0.0.0:8080` with four
    /// worker threads and no default headers.
    pub fn new(routes: Vec<Route>) -> (r: Server)
        ensures
            r.routes == routes,
            r.options.address@ == "0.0.0.0:8080"@,
            r.options.threads == 4u32,
            r.options.default_headers@ == Seq::<(Seq<char>, Seq<char>)>::empty(),
    {
        Server {
            routes,
            options: ServerOptions {
                address: "0.0.0.0:8080".to_owned(),
                threads: 4,
                default_headers: StringMap::new(),
            },
        }
    }

    /// Changes the address to bind.
    pub fn set_address(&mut self, address: &str)
        ensures
            final(self).options.address@ == address@,
            final(self).options.threads == old(self).options.threads,
            final(self).options.default_headers == old(self).options.default_headers,
            final(self).routes == old(self).routes,
    {
        self.options.address = address.to_owned();
    }

    /// Changes the number of worker threads.
    pub fn set_threads(&mut self, threads: u32)
        ensures
            final(self).options.threads == threads,
            final(self).options.address == old(self).options.address,
            final(self).options.default_headers == old(self).options.default_headers,
            final(self).routes == old(self).routes,
    {
        self.options.threads = threads;
    }

    /// Adds a header sent with every response.
    pub fn add_default_header(&mut self, key: &str, value: &str)
        ensures
            final(self).options.default_headers@ == spec_str_insert(
                old(self).options.default_headers@,
                key@,
                value@,
            ),
            final(self).options.address == old(self).options.address,
            final(self).options.threads == old(self).options.threads,
            final(self).routes == old(self).routes,
    {
        self.options.default_headers.insert(key.to_owned(), value.to_owned());
    }
}

} // verus!
