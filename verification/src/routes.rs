//! What the extension's proxy routes decide: where a request to the Lambda
//! runtime API goes, which headers come back, and which faults are injected.

use vstd::prelude::*;

verus! {

/// State shared by the proxy routes: the `host:port` of the Lambda runtime
/// API that requests are forwarded to.
#[derive(Clone)]
pub struct AppState {
    pub runtime_api_address: String,
}

/// The address of `path` on the runtime API at `address`, over plain HTTP.
pub open spec fn runtime_url(address: Seq<char>, path: Seq<char>) -> Seq<char> {
    "http://"@ + address + path
}

/// The path that hands out the next invocation.
pub open spec fn next_invocation_path() -> Seq<char> {
    "/2018-06-01/runtime/invocation/next"@
}

/// The path that takes the response of invocation `request_id`.
pub open spec fn invocation_response_path(request_id: Seq<char>) -> Seq<char> {
    "/2018-06-01/runtime/invocation/"@ + request_id + "/response"@
}

/// The path that takes an initialization error.
pub open spec fn init_error_path() -> Seq<char> {
    "/2018-06-01/runtime/init/error"@
}

/// The path that takes the error of invocation `request_id`.
pub open spec fn invocation_error_path(request_id: Seq<char>) -> Seq<char> {
    "/2018-06-01/runtime/invocation/"@ + request_id + "/error"@
}

/// The response URL of an invocation is the runtime API's invocation prefix,
/// the request id itself, then `/response`: the id always occurs in it,
/// whole, right after the prefix.
pub proof fn lemma_response_url_holds_request_id(address: Seq<char>, request_id: Seq<char>)
    ensures
        runtime_url(address, invocation_response_path(request_id)) == "http://"@ + address
            + "/2018-06-01/runtime/invocation/"@ + request_id + "/response"@,
        ({
            let prefix = "http://"@ + address + "/2018-06-01/runtime/invocation/"@;
            runtime_url(address, invocation_response_path(request_id)).subrange(
                prefix.len() as int,
                (prefix.len() + request_id.len()) as int,
            ) == request_id
        }),
{
    let url = runtime_url(address, invocation_response_path(request_id));
    let prefix = "http://"@ + address + "/2018-06-01/runtime/invocation/"@;
    assert(url =~= prefix + request_id + "/response"@);
    assert(url.subrange(prefix.len() as int, (prefix.len() + request_id.len()) as int) =~= request_id);
}

/// The error URL of an invocation is the runtime API's invocation prefix,
/// the request id itself, then `/error`: the id always occurs in it, whole,
/// right after the prefix.
pub proof fn lemma_error_url_holds_request_id(address: Seq<char>, request_id: Seq<char>)
    ensures
        runtime_url(address, invocation_error_path(request_id)) == "http://"@ + address
            + "/2018-06-01/runtime/invocation/"@ + request_id + "/error"@,
        ({
            let prefix = "http://"@ + address + "/2018-06-01/runtime/invocation/"@;
            runtime_url(address, invocation_error_path(request_id)).subrange(
                prefix.len() as int,
                (prefix.len() + request_id.len()) as int,
            ) == request_id
        }),
{
    let url = runtime_url(address, invocation_error_path(request_id));
    let prefix = "http://"@ + address + "/2018-06-01/runtime/invocation/"@;
    assert(url =~= prefix + request_id + "/error"@);
    assert(url.subrange(prefix.len() as int, (prefix.len() + request_id.len()) as int) =~= request_id);
}

/// Every runtime URL starts with `http://` and the runtime API's address.
pub proof fn lemma_urls_start_with_address(address: Seq<char>, path: Seq<char>)
    ensures
        runtime_url(address, path).subrange(0, (7 + address.len()) as int) == "http://"@ + address,
        runtime_url(address, path) == "http://"@ + address + path,
{
    reveal_strlit("http://");
    assert(runtime_url(address, path).subrange(0, (7 + address.len()) as int) =~= "http://"@ + address);
}

impl AppState {
    /// URL of the runtime API's next-invocation endpoint.
    pub fn next_invocation_url(&self) -> (res: String)
        ensures
            res@ == runtime_url(self.runtime_api_address@, next_invocation_path()),
            res@ == "http://"@ + self.runtime_api_address@ + "/2018-06-01/runtime/invocation/next"@,
    {
        let mut url = String::from_str("http://");
        url.append(self.runtime_api_address.as_str());
        url.append("/2018-06-01/runtime/invocation/next");
        url
    }

    /// URL to which the response of invocation `request_id` is posted.
    pub fn invocation_response_url(&self, request_id: &str) -> (res: String)
        ensures
            res@ == runtime_url(self.runtime_api_address@, invocation_response_path(request_id@)),
            res@ == "http://"@ + self.runtime_api_address@ + "/2018-06-01/runtime/invocation/"@
                + request_id@ + "/response"@,
    {
        let mut url = String::from_str("http://");
        url.append(self.runtime_api_address.as_str());
        url.append("/2018-06-01/runtime/invocation/");
        url.append(request_id);
        url.append("/response");
        proof {
            lemma_response_url_holds_request_id(self.runtime_api_address@, request_id@);
        }
        url
    }

    /// URL to which an initialization error is posted.
    pub fn init_error_url(&self) -> (res: String)
        ensures
            res@ == runtime_url(self.runtime_api_address@, init_error_path()),
            res@ == "http://"@ + self.runtime_api_address@ + "/2018-06-01/runtime/init/error"@,
    {
        let mut url = String::from_str("http://");
        url.append(self.runtime_api_address.as_str());
        url.append("/2018-06-01/runtime/init/error");
        url
    }

    /// URL to which the error of invocation `request_id` is posted.
    pub fn invocation_error_url(&self, request_id: &str) -> (res: String)
        ensures
            res@ == runtime_url(self.runtime_api_address@, invocation_error_path(request_id@)),
            res@ == "http://"@ + self.runtime_api_address@ + "/2018-06-01/runtime/invocation/"@
                + request_id@ + "/error"@,
    {
        let mut url = String::from_str("http://");
        url.append(self.runtime_api_address.as_str());
        url.append("/2018-06-01/runtime/invocation/");
        url.append(request_id);
        url.append("/error");
        proof {
            lemma_error_url_holds_request_id(self.runtime_api_address@, request_id@);
        }
        url
    }
}

/// One header of an HTTP response: its name, as the `http` crate holds it
/// (lowercase), and its raw value.
pub struct Header {
    pub name: String,
    pub value: Vec<u8>,
}

/// A `transfer-encoding` header, which the proxy drops: it forwards bodies
/// whole, and a chunked encoding would no longer describe them.
pub open spec fn is_transfer_encoding(h: Header) -> bool {
    h.name@ == "transfer-encoding"@
}

/// The headers without any `transfer-encoding` header, the others in their
/// order.
pub open spec fn without_transfer_encoding(headers: Seq<Header>) -> Seq<Header>
    decreases headers.len(),
{
    if headers.len() == 0 {
        Seq::empty()
    } else {
        let kept = without_transfer_encoding(headers.drop_last());
        if is_transfer_encoding(headers.last()) {
            kept
        } else {
            kept.push(headers.last())
        }
    }
}

/// Removes every `transfer-encoding` header, as `HeaderMap::remove` does for
/// that name, and keeps the other headers in their order.
pub fn remove_transfer_encoding(headers: &mut Vec<Header>)
    ensures
        final(headers)@ == without_transfer_encoding(old(headers)@),
        final(headers)@ == old(headers)@.filter(|h: Header| h.name@ != "transfer-encoding"@),
{
    let ghost original = headers@;
    let unwanted = String::from_str("transfer-encoding");
    let mut i: usize = 0;
    let ghost mut j: int = 0;
    assert(original.take(0) =~= Seq::<Header>::empty());
    assert(headers@ =~= without_transfer_encoding(original.take(0)) + original.skip(0));
    while i < headers.len()
        invariant
            0 <= j <= original.len(),
            headers@ == without_transfer_encoding(original.take(j)) + original.skip(j),
            i == without_transfer_encoding(original.take(j)).len(),
            unwanted@ == "transfer-encoding"@,
        decreases original.len() - j,
    {
        let ghost kept = without_transfer_encoding(original.take(j));
        assert(headers@[i as int] == original[j]);
        assert(original.take(j + 1).drop_last() =~= original.take(j));
        assert(original.take(j + 1).last() == original[j]);
        if headers[i].name == unwanted {
            headers.remove(i);
            assert(headers@ =~= without_transfer_encoding(original.take(j + 1)) + original.skip(j + 1));
        } else {
            i = i + 1;
            assert(headers@ =~= without_transfer_encoding(original.take(j + 1)) + original.skip(j + 1));
        }
        proof {
            j = j + 1;
        }
    }
    assert(original.take(j) =~= original);
    assert(headers@ =~= without_transfer_encoding(original));
    proof {
        lemma_strip_keeps_exactly_other_headers(original);
    }
}

/// No header that the stripping keeps is a `transfer-encoding` header.
pub proof fn lemma_no_transfer_encoding_left(headers: Seq<Header>)
    ensures
        forall|i: int|
            0 <= i < without_transfer_encoding(headers).len() ==> !is_transfer_encoding(
                #[trigger] without_transfer_encoding(headers)[i],
            ),
    decreases headers.len(),
{
    if headers.len() > 0 {
        let kept = without_transfer_encoding(headers.drop_last());
        lemma_no_transfer_encoding_left(headers.drop_last());
        let all = without_transfer_encoding(headers);
        assert forall|i: int| 0 <= i < all.len() implies !is_transfer_encoding(
            #[trigger] all[i],
        ) by {
            if i < kept.len() {
                assert(all[i] == kept[i]);
            }
        }
    }
}

/// Headers with no `transfer-encoding` header among them pass unchanged.
pub proof fn lemma_clean_headers_pass_unchanged(headers: Seq<Header>)
    requires
        forall|i: int| 0 <= i < headers.len() ==> !is_transfer_encoding(#[trigger] headers[i]),
    ensures
        without_transfer_encoding(headers) == headers,
    decreases headers.len(),
{
    if headers.len() > 0 {
        let rest = headers.drop_last();
        assert forall|i: int| 0 <= i < rest.len() implies !is_transfer_encoding(
            #[trigger] rest[i],
        ) by {
            assert(rest[i] == headers[i]);
        }
        lemma_clean_headers_pass_unchanged(rest);
        assert(!is_transfer_encoding(headers[headers.len() - 1]));
        assert(rest.push(headers.last()) =~= headers);
    }
}

/// Stripping the `transfer-encoding` headers a second time changes nothing.
pub proof fn lemma_strip_idempotent(headers: Seq<Header>)
    ensures
        without_transfer_encoding(without_transfer_encoding(headers))
            == without_transfer_encoding(headers),
{
    lemma_no_transfer_encoding_left(headers);
    lemma_clean_headers_pass_unchanged(without_transfer_encoding(headers));
}

/// The latency, in seconds, injected before the next invocation is handed
/// out: the configured latency when latency injection is enabled and the
/// random draw fell below the configured probability, else none.
pub open spec fn injected_latency(enabled: bool, roll_hit: bool, seconds: u64) -> Option<u64> {
    if enabled && roll_hit {
        Some(seconds)
    } else {
        None
    }
}

/// Decides whether to delay the next invocation, and by how many seconds.
/// `roll_hit` tells whether the random draw fell below the configured
/// latency probability.
pub fn latency_fault(enabled: bool, roll_hit: bool, seconds: u64) -> (res: Option<u64>)
    ensures
        res == injected_latency(enabled, roll_hit, seconds),
        enabled && roll_hit ==> res == Some(seconds),
        !(enabled && roll_hit) ==> res is None,
{
    if enabled && roll_hit {
        Some(seconds)
    } else {
        None
    }
}

/// The response that replaces a function's own when no replacement is
/// configured.
pub open spec fn default_response_text() -> Seq<char> {
    "{\"body\":\"hello, Chaos!!!\",\"statusCode\":500}"@
}

/// The default replacement response, as JSON text.
pub fn default_response_body() -> (res: String)
    ensures
        res@ == default_response_text(),
        res@ == "{\"body\":\"hello, Chaos!!!\",\"statusCode\":500}"@,
{
    String::from_str("{\"body\":\"hello, Chaos!!!\",\"statusCode\":500}")
}

/// The body forwarded as an invocation's response: the configured
/// replacement (or the default one) when response replacement is enabled
/// and the random draw fell below the configured probability, else the
/// function's own response.
pub open spec fn forwarded_body(
    data: Seq<char>,
    enabled: bool,
    roll_hit: bool,
    replacement: Option<Seq<char>>,
) -> Seq<char> {
    if enabled && roll_hit {
        match replacement {
            Some(r) => r,
            None => default_response_text(),
        }
    } else {
        data
    }
}

/// Chooses the body forwarded as an invocation's response. `roll_hit` tells
/// whether the random draw fell below the configured response probability.
pub fn response_body(data: String, enabled: bool, roll_hit: bool, replacement: Option<String>) -> (res:
    String)
    ensures
        res@ == forwarded_body(data@, enabled, roll_hit, replacement.deep_view()),
        !(enabled && roll_hit) ==> res@ == data@,
        enabled && roll_hit && replacement is Some ==> res@ == replacement->0@,
        enabled && roll_hit && replacement is None ==> res@
            == "{\"body\":\"hello, Chaos!!!\",\"statusCode\":500}"@,
{
    if enabled && roll_hit {
        match replacement {
            Some(r) => r,
            None => default_response_body(),
        }
    } else {
        data
    }
}

/// A fault is injected only when it is enabled and the draw hits: with
/// either off, the invocation is handed out at once and the function's own
/// response is forwarded unchanged.
pub proof fn lemma_no_fault_without_enable_and_hit(
    enabled: bool,
    roll_hit: bool,
    seconds: u64,
    data: Seq<char>,
    replacement: Option<Seq<char>>,
)
    requires
        !(enabled && roll_hit),
    ensures
        injected_latency(enabled, roll_hit, seconds) is None,
        forwarded_body(data, enabled, roll_hit, replacement) == data,
{
}

/// Stripping keeps exactly the headers whose name is not `transfer-encoding`,
/// in their order, values untouched.
pub proof fn lemma_strip_keeps_exactly_other_headers(headers: Seq<Header>)
    ensures
        without_transfer_encoding(headers) == headers.filter(
            |h: Header| h.name@ != "transfer-encoding"@,
        ),
    decreases headers.len(),
{
    reveal_with_fuel(Seq::<_>::filter, 1);
    if headers.len() > 0 {
        lemma_strip_keeps_exactly_other_headers(headers.drop_last());
    }
}

/// Whenever latency injection is enabled and the draw hits, the injected
/// latency is the configured number of seconds, whatever it is; otherwise
/// nothing is injected.
pub proof fn lemma_latency_is_the_configured_one(seconds: u64, enabled: bool, roll_hit: bool)
    ensures
        injected_latency(true, true, seconds) == Some(seconds),
        injected_latency(enabled, roll_hit, seconds) is Some <==> enabled && roll_hit,
        injected_latency(enabled, roll_hit, seconds) is Some ==> injected_latency(
            enabled,
            roll_hit,
            seconds,
        )->0 == seconds,
{
}

/// Whenever response replacement is enabled and the draw hits, a configured
/// replacement is forwarded verbatim, whatever text it holds, and without one
/// the documented default is; otherwise the function's own response is.
pub proof fn lemma_replacement_is_forwarded_verbatim(
    data: Seq<char>,
    replacement: Seq<char>,
    enabled: bool,
    roll_hit: bool,
)
    ensures
        forwarded_body(data, true, true, Some(replacement)) == replacement,
        forwarded_body(data, true, true, None) == "{\"body\":\"hello, Chaos!!!\",\"statusCode\":500}"@,
        !(enabled && roll_hit) ==> forwarded_body(data, enabled, roll_hit, Some(replacement))
            == data,
{
}

} // verus!
