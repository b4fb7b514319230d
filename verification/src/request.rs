//! The blocking HTTP capability (sync-request).
//!
//! A guest builds a request out of plain values, the host executes it with
//! its per-module HTTP client, and the response is bucketed into a
//! two-valued status: `Success` for any 2xx code, `Error` for everything
//! else, with the textual body included either way when it decodes.

use vstd::prelude::*;

verus! {

#[verifier::external_type_specification]
#[verifier::external_body]
pub struct ExClient(reqwest::blocking::Client);

#[verifier::external_type_specification]
#[verifier::external_body]
pub struct ExRequestBuilder(reqwest::blocking::RequestBuilder);

/// The verb of an HTTP request.
pub enum RequestVerb {
    Get,
    Put,
    Delete,
    Post,
}

/// The two-valued status a guest sees: `Success` exactly for 2xx codes.
#[derive(PartialEq, Eq, Structural)]
pub enum ResponseStatus {
    Success,
    Error,
}

/// The response a guest sees.
pub struct Response {
    pub status: ResponseStatus,
    pub body: Option<String>,
}

/// How a request can fail: it was malformed (`Builder`), or the transport
/// failed while sending or receiving (`Execute`).
pub enum RunRequestError {
    Builder(String),
    Execute(String),
}

/// Relies on `reqwest::blocking::ClientBuilder::build`: constructs an
/// HTTP client.
#[verifier::external_body]
pub fn new_http_client() -> (r: Result<reqwest::blocking::Client, String>) {
    reqwest::blocking::Client::builder().build().map_err(|e| e.to_string())
}

/// Relies on `reqwest::blocking::Client::get`: starts a GET request to
/// the given URL.
#[verifier::external_body]
fn client_get(client: &reqwest::blocking::Client, url: &str) -> (r: reqwest::blocking::RequestBuilder) {
    client.get(url)
}

/// Relies on `reqwest::blocking::Client::put`: starts a PUT request.
#[verifier::external_body]
fn client_put(client: &reqwest::blocking::Client, url: &str) -> (r: reqwest::blocking::RequestBuilder) {
    client.put(url)
}

/// Relies on `reqwest::blocking::Client::delete`: starts a DELETE request.
#[verifier::external_body]
fn client_delete(client: &reqwest::blocking::Client, url: &str) -> (r:
    reqwest::blocking::RequestBuilder) {
    client.delete(url)
}

/// Relies on `reqwest::blocking::Client::post`: starts a POST request.
#[verifier::external_body]
fn client_post(client: &reqwest::blocking::Client, url: &str) -> (r:
    reqwest::blocking::RequestBuilder) {
    client.post(url)
}

/// Relies on `reqwest::blocking::RequestBuilder::header`: adds one header.
#[verifier::external_body]
fn builder_header(b: reqwest::blocking::RequestBuilder, key: &str, value: &str) -> (r:
    reqwest::blocking::RequestBuilder) {
    b.header(key, value)
}

/// Relies on `reqwest::blocking::RequestBuilder::body`: sets the body.
#[verifier::external_body]
fn builder_body(b: reqwest::blocking::RequestBuilder, body: String) -> (r:
    reqwest::blocking::RequestBuilder) {
    b.body(body)
}

/// Relies on `reqwest::blocking`'s `RequestBuilder::build`,
/// `Client::execute`, `Response::status` and `Response::text`: finishes
/// the assembled request and performs the HTTP transaction, blocking
/// until it completes. A malformed request fails as `Builder`, a
/// transport failure as `Execute`; otherwise the numeric status code the
/// server returned comes back with the body decoded as text when it
/// decodes. The blocking client refuses to be driven from inside an
/// asynchronous runtime; guest calls run on a dedicated blocking context.
#[verifier::external_body]
fn builder_send(client: &reqwest::blocking::Client, b: reqwest::blocking::RequestBuilder) -> (r:
    Result<(u16, Option<String>), RunRequestError>) {
    let request = b.build().map_err(|e| RunRequestError::Builder(e.to_string()))?;
    let resp = client.execute(request).map_err(|e| RunRequestError::Execute(e.to_string()))?;
    let code = resp.status().as_u16();
    Ok((code, resp.text().ok()))
}

/// Buckets a numeric status code and a body into the guest-visible
/// response: `Success` exactly for the 2xx codes, the body as given.
pub fn bucket_response(code: u16, body: Option<String>) -> (r: Response)
    ensures
        r.status == ResponseStatus::Success <==> 200 <= code < 300,
        r.body == body,
{
    let status = if code / 100 == 2 {
        ResponseStatus::Success
    } else {
        ResponseStatus::Error
    };
    Response { status, body }
}

/// Keeps the header pairs whose key differs from `key`.
pub open spec fn header_keep_pred(key: Seq<char>) -> spec_fn((Seq<char>, Seq<char>)) -> bool {
    |h: (Seq<char>, Seq<char>)| h.0 != key
}

/// The headers of a request after setting `key` to `value`: any earlier
/// binding of the key is dropped and the new pair stands at the end.
pub open spec fn spec_header_set(
    hs: Seq<(Seq<char>, Seq<char>)>,
    key: Seq<char>,
    value: Seq<char>,
) -> Seq<(Seq<char>, Seq<char>)> {
    hs.filter(header_keep_pred(key)).push((key, value))
}

proof fn lemma_filter_push<A>(s: Seq<A>, pred: spec_fn(A) -> bool, x: A)
    ensures
        s.push(x).filter(pred) == if pred(x) {
            s.filter(pred).push(x)
        } else {
            s.filter(pred)
        },
{
    reveal_with_fuel(Seq::filter, 2);
    assert(s.push(x).drop_last() =~= s);
    assert(s.push(x).last() == x);
}

/// An HTTP request a guest assembles out of plain values.
pub struct Request {
    verb: RequestVerb,
    url: String,
    headers: Vec<(String, String)>,
    body: Option<String>,
}

impl Request {
    pub closed spec fn spec_verb(&self) -> RequestVerb {
        self.verb
    }

    pub closed spec fn spec_url(&self) -> Seq<char> {
        self.url@
    }

    pub closed spec fn spec_headers(&self) -> Seq<(Seq<char>, Seq<char>)> {
        self.headers@.map_values(|h: (String, String)| (h.0@, h.1@))
    }

    pub closed spec fn spec_body(&self) -> Option<Seq<char>> {
        match self.body {
            Some(ref b) => Some(b@),
            None => None,
        }
    }

    pub fn get(url: &str) -> (r: Request)
        ensures
            r.spec_verb() == RequestVerb::Get,
            r.spec_url() == url@,
            r.spec_headers() =~= Seq::<(Seq<char>, Seq<char>)>::empty(),
            r.spec_body() is None,
    {
        Request { verb: RequestVerb::Get, url: url.to_owned(), headers: Vec::new(), body: None }
    }

    pub fn put(url: &str) -> (r: Request)
        ensures
            r.spec_verb() == RequestVerb::Put,
            r.spec_url() == url@,
            r.spec_headers() =~= Seq::<(Seq<char>, Seq<char>)>::empty(),
            r.spec_body() is None,
    {
        Request { verb: RequestVerb::Put, url: url.to_owned(), headers: Vec::new(), body: None }
    }

    pub fn delete(url: &str) -> (r: Request)
        ensures
            r.spec_verb() == RequestVerb::Delete,
            r.spec_url() == url@,
            r.spec_headers() =~= Seq::<(Seq<char>, Seq<char>)>::empty(),
            r.spec_body() is None,
    {
        Request { verb: RequestVerb::Delete, url: url.to_owned(), headers: Vec::new(), body: None }
    }

    pub fn post(url: &str) -> (r: Request)
        ensures
            r.spec_verb() == RequestVerb::Post,
            r.spec_url() == url@,
            r.spec_headers() =~= Seq::<(Seq<char>, Seq<char>)>::empty(),
            r.spec_body() is None,
    {
        Request { verb: RequestVerb::Post, url: url.to_owned(), headers: Vec::new(), body: None }
    }

    /// Sets a header, overriding any earlier value under the same key.
    pub fn header(self, key: &str, val: &str) -> (r: Request)
        ensures
            r.spec_verb() == self.spec_verb(),
            r.spec_url() == self.spec_url(),
            r.spec_body() == self.spec_body(),
            r.spec_headers() == spec_header_set(self.spec_headers(), key@, val@),
    {
        let ghost old_view = self.spec_headers();
        let Request { verb, url, headers, body } = self;
        let key_string = key.to_owned();
        let mut kept: Vec<(String, String)> = Vec::new();
        let ghost mut kept_view = Seq::<(Seq<char>, Seq<char>)>::empty();
        let mut i: usize = 0;
        let n = headers.len();
        let mut rest = headers;
        while i < n
            invariant
                i <= n,
                n == old_view.len(),
                rest@.len() == n - i,
                forall|k: int|
                    0 <= k < rest@.len() ==> (#[trigger] rest@[k].0@, rest@[k].1@) == old_view[i
                        + k],
                key_string@ == key@,
                kept_view == old_view.take(i as int).filter(header_keep_pred(key@)),
                kept@.len() == kept_view.len(),
                forall|t: int|
                    0 <= t < kept@.len() ==> (#[trigger] kept@[t].0@, kept@[t].1@) == kept_view[t],
            decreases n - i,
        {
            proof {
                assert((rest@[0].0@, rest@[0].1@) == old_view[i as int]);
            }
            let (k, v) = rest.remove(0);
            let keep = !k.eq(&key_string);
            let ghost k_view = k@;
            let ghost v_view = v@;
            proof {
                assert(old_view.take(i + 1) =~= old_view.take(i as int).push(old_view[i as int]));
                lemma_filter_push(old_view.take(i as int), header_keep_pred(key@), old_view[i as int]);
                assert(old_view[i as int].0 == k_view);
                assert(keep == (k_view != key@));
                assert(header_keep_pred(key@)(old_view[i as int]) == (old_view[i as int].0
                    != key@));
                if keep {
                    kept_view = kept_view.push((k_view, v_view));
                }
            }
            if keep {
                kept.push((k, v));
            }
            i = i + 1;
        }
        proof {
            assert(old_view.take(n as int) =~= old_view);
        }
        let ghost val_view = val@;
        kept.push((key_string, val.to_owned()));
        let r = Request { verb, url, headers: kept, body };
        proof {
            assert(r.spec_headers() =~= kept_view.push((key@, val_view)));
            assert(r.spec_headers() =~= spec_header_set(old_view, key@, val@));
        }
        r
    }

    /// Sets the body, overriding any earlier one.
    pub fn body(self, body: &str) -> (r: Request)
        ensures
            r.spec_verb() == self.spec_verb(),
            r.spec_url() == self.spec_url(),
            r.spec_headers() == self.spec_headers(),
            r.spec_body() == Some(body@),
    {
        let Request { verb, url, headers, body: _ } = self;
        Request { verb, url, headers, body: Some(body.to_owned()) }
    }

    /// Executes the request through the given capability.
    pub fn run(self, api: &SyncRequestApi) -> (r: Result<Response, RunRequestError>) {
        api.run_request(self)
    }
}

/// The blocking-HTTP capability handed to one guest module; each module
/// owns its own client.
pub struct SyncRequestApi {
    client: reqwest::blocking::Client,
}

impl SyncRequestApi {
    /// Builds the capability with a fresh HTTP client; fails only when
    /// the client cannot be constructed.
    pub fn new() -> (r: Result<SyncRequestApi, String>) {
        match new_http_client() {
            Ok(client) => Ok(SyncRequestApi { client }),
            Err(e) => Err(e),
        }
    }

    /// Runs one request, blocking until the HTTP transaction completes.
    /// A malformed request fails with `Builder`, a transport failure with
    /// `Execute`; a response from the server is bucketed by
    /// [`bucket_response`], so its status is `Success` exactly when the
    /// server returned a 2xx code.
    pub fn run_request(&self, req: Request) -> (r: Result<Response, RunRequestError>) {
        let Request { verb, url, headers, body } = req;
        let mut builder = match verb {
            RequestVerb::Get => client_get(&self.client, url.as_str()),
            RequestVerb::Put => client_put(&self.client, url.as_str()),
            RequestVerb::Delete => client_delete(&self.client, url.as_str()),
            RequestVerb::Post => client_post(&self.client, url.as_str()),
        };
        let mut i: usize = 0;
        let n = headers.len();
        while i < n
            invariant
                i <= n,
                n == headers.len(),
            decreases n - i,
        {
            builder = builder_header(builder, headers[i].0.as_str(), headers[i].1.as_str());
            i = i + 1;
        }
        if let Some(b) = body {
            builder = builder_body(builder, b);
        }
        let (code, body_text) = match builder_send(&self.client, builder) {
            Ok(r) => r,
            Err(e) => return Err(e),
        };
        Ok(bucket_response(code, body_text))
    }
}

} // verus!
