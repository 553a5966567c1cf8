//! Requests to the configuration service: their URLs, parameters and signatures, and the
//! server list.

use vstd::prelude::*;
use crate::text::{
    trim_spec, split_spec, signed_dec_spec, i64_to_dec, chars_of, split_chars, is_blank,
    string_of, lacks, lemma_split_at_sep, lemma_split_append_plain,
};
use crate::keyed::str_eq;
use super::digest::{hmac_sha1, base64_spec, hmac_sha1_code, base64_encode, now_millis};

verus! {

/// The views of a list of name and value pairs.
pub open spec fn pairs_view(v: Seq<(String, String)>) -> Seq<(Seq<char>, Seq<char>)> {
    v.map_values(|p: (String, String)| (p.0@, p.1@))
}

/// The value of the first pair named `key`.
pub open spec fn lookup_spec(params: Seq<(Seq<char>, Seq<char>)>, key: Seq<char>) -> Option<
    Seq<char>,
>
    decreases params.len(),
{
    if params.len() == 0 {
        None
    } else if params[0].0 == key {
        Some(params[0].1)
    } else {
        lookup_spec(params.drop_first(), key)
    }
}

/// The value of the first pair named `key`.
pub fn lookup_param<'a>(params: &'a Vec<(String, String)>, key: &str) -> (r: Option<&'a String>)
    ensures
        r matches Some(v) ==> lookup_spec(pairs_view(params@), key@) == Some(v@),
        r is None ==> lookup_spec(pairs_view(params@), key@) is None,
{
    let ghost pv = pairs_view(params@);
    let n = params.len();
    let mut i: usize = 0;
    assert(pv.skip(0) =~= pv);
    while i < n
        invariant
            n == params@.len(),
            i <= n,
            pv == pairs_view(params@),
            lookup_spec(pv, key@) == lookup_spec(pv.skip(i as int), key@),
        decreases n - i,
    {
        assert(pv.skip(i as int).drop_first() =~= pv.skip(i + 1));
        assert(pv.skip(i as int)[0] == pv[i as int]);
        if str_eq(params[i].0.as_str(), key) {
            return Some(&params[i].1);
        }
        i = i + 1;
    }
    None
}

/// How a request is sent: a form in the body for `post`, a query string otherwise.
#[derive(Debug, Clone, Copy, PartialEq, Eq, Structural)]
pub enum HttpMethod {
    Get,
    Post,
}

/// The way a request with the method name `m` is sent.
pub open spec fn method_spec(m: Option<Seq<char>>) -> HttpMethod {
    if m == Some("post"@) {
        HttpMethod::Post
    } else {
        HttpMethod::Get
    }
}

/// A request is sent as a form by POST exactly when its method name is `post`; every
/// other name, and none, sends it by GET with a query string.
pub proof fn lemma_only_post_is_posted(m: Option<Seq<char>>)
    ensures
        method_spec(m) == HttpMethod::Post <==> m == Some("post"@),
        m != Some("post"@) ==> method_spec(m) == HttpMethod::Get,
{
}

/// A request to the configuration service, before it is signed.
#[derive(Debug)]
pub struct AcmRequest {
    pub url: String,
    pub method: Option<String>,
    pub params: Vec<(String, String)>,
    pub headers: Option<Vec<(String, String)>>,
}

/// A signed request, ready to be sent.
#[derive(Debug)]
pub struct SignedRequest {
    pub url: String,
    pub method: HttpMethod,
    pub params: Vec<(String, String)>,
    pub headers: Vec<(String, String)>,
    pub timestamp: i64,
}

/// The text a request is signed on, before its time stamp: tenant and group joined by
/// `+` when both are given, whichever of them is given, or nothing.
pub open spec fn sign_base_spec(params: Seq<(Seq<char>, Seq<char>)>) -> Seq<char> {
    let g = lookup_spec(params, "group"@);
    let t = lookup_spec(params, "tenant"@);
    if g is Some && t is Some {
        t->Some_0 + "+"@ + g->Some_0
    } else if g is Some {
        g->Some_0
    } else if t is Some {
        t->Some_0
    } else {
        Seq::<char>::empty()
    }
}

/// The text a request with `params` is signed on at time `ts`.
pub open spec fn sign_text_spec(params: Seq<(Seq<char>, Seq<char>)>, ts: i64) -> Seq<char> {
    sign_base_spec(params) + "+"@ + signed_dec_spec(ts as int)
}

/// The signature of `text` under `secret`: Base64 of the HMAC-SHA1 code of the UTF-8
/// bytes of `text`, keyed by the UTF-8 bytes of `secret`.
pub open spec fn signature_spec(secret: Seq<char>, text: Seq<char>) -> Seq<char> {
    base64_spec(hmac_sha1(vstd::utf8::encode_utf8(secret), vstd::utf8::encode_utf8(text)))
}

/// The headers of a signed request: the fixed ones, then those the request asks for.
pub open spec fn headers_spec(
    access_key: Seq<char>,
    ts: i64,
    signature: Seq<char>,
    extra: Option<Seq<(Seq<char>, Seq<char>)>>,
) -> Seq<(Seq<char>, Seq<char>)> {
    seq![
        ("Client-Version"@, "0.1"@),
        ("Content-Type"@, "application/x-www-form-urlencoded; charset=GBK"@),
        ("Spas-AccessKey"@, access_key),
        ("timeStamp"@, signed_dec_spec(ts as int)),
        ("exConfigInfo"@, "true"@),
        ("Spas-Signature"@, signature),
    ] + match extra {
        Some(e) => e,
        None => Seq::<(Seq<char>, Seq<char>)>::empty(),
    }
}

/// The view of a request's optional extra headers.
pub open spec fn opt_pairs_view(h: Option<Vec<(String, String)>>) -> Option<
    Seq<(Seq<char>, Seq<char>)>,
> {
    match h {
        Some(v) => Some(pairs_view(v@)),
        None => None,
    }
}

/// The view of a request's method name.
pub open spec fn opt_string_view(m: Option<String>) -> Option<Seq<char>> {
    match m {
        Some(s) => Some(s@),
        None => None,
    }
}

/// Whether `r` is `req` signed with `access_key` and `secret` at time `ts`.
pub open spec fn signed_as(
    r: SignedRequest,
    req: AcmRequest,
    access_key: Seq<char>,
    secret: Seq<char>,
    ts: i64,
) -> bool {
    &&& r.url@ == req.url@
    &&& r.method == method_spec(opt_string_view(req.method))
    &&& pairs_view(r.params@) == pairs_view(req.params@)
    &&& pairs_view(r.headers@) == headers_spec(
        access_key,
        ts,
        signature_spec(secret, sign_text_spec(pairs_view(req.params@), ts)),
        opt_pairs_view(req.headers),
    )
    &&& r.timestamp == ts
}

/// A name and value pair of strings.
fn pair(name: &str, value: &str) -> (p: (String, String))
    ensures
        p.0@ == name@,
        p.1@ == value@,
{
    (String::from_str(name), String::from_str(value))
}

/// The text a request with `params` is signed on at time `ts`.
pub fn sign_text(params: &Vec<(String, String)>, ts: i64) -> (r: String)
    ensures
        r@ == sign_text_spec(pairs_view(params@), ts),
{
    let g = lookup_param(params, "group");
    let t = lookup_param(params, "tenant");
    let mut r = String::new();
    match (g, t) {
        (Some(g), Some(t)) => {
            r.append(t.as_str());
            r.append("+");
            r.append(g.as_str());
        },
        (Some(g), None) => {
            r.append(g.as_str());
        },
        (None, Some(t)) => {
            r.append(t.as_str());
        },
        (None, None) => {},
    }
    r.append("+");
    let d = i64_to_dec(ts);
    r.append(d.as_str());
    r
}

/// The server list URL, the configuration URL and the requests of the configuration
/// service; the client's own state is its credentials, the last server list and a
/// counter of server lookups.
pub struct InnerClient {
    pub tenant: String,
    pub access_key: String,
    pub access_secret: String,
    pub endpoint: String,
    pub server_list: Option<Vec<String>>,
    pub index: usize,
}

/// The pieces of `p` that are not blank.
pub open spec fn nonblank_pieces(p: Seq<Seq<char>>) -> Seq<Seq<char>>
    decreases p.len(),
{
    if p.len() == 0 {
        p
    } else {
        let r = nonblank_pieces(p.drop_last());
        if trim_spec(p.last()).len() > 0 {
            r.push(p.last())
        } else {
            r
        }
    }
}

/// The servers listed in `body`: its lines that are not blank, as they stand.
pub open spec fn server_list_spec(body: Seq<char>) -> Seq<Seq<char>> {
    nonblank_pieces(split_spec(body, '\n'))
}

/// The non-blank pieces of two runs of pieces are those of the first, then those of the
/// second.
pub proof fn lemma_nonblank_pieces_concat(p: Seq<Seq<char>>, q: Seq<Seq<char>>)
    ensures
        nonblank_pieces(p + q) == nonblank_pieces(p) + nonblank_pieces(q),
    decreases q.len(),
{
    if q.len() == 0 {
        assert(p + q =~= p);
        assert(nonblank_pieces(p) + nonblank_pieces(q) =~= nonblank_pieces(p));
    } else {
        lemma_nonblank_pieces_concat(p, q.drop_last());
        assert((p + q).drop_last() =~= p + q.drop_last());
        assert((p + q).last() == q.last());
        let a = nonblank_pieces(p);
        let b = nonblank_pieces(q.drop_last());
        assert((a + b).push(q.last()) =~= a + b.push(q.last()));
    }
}

/// A server list of one line with no line break lists that line, unless it is blank; a
/// list of none lists no server.
pub proof fn lemma_server_list_one_line(body: Seq<char>)
    requires
        lacks(body, '\n'),
    ensures
        trim_spec(body).len() > 0 ==> server_list_spec(body) == seq![body],
        trim_spec(body).len() == 0 ==> server_list_spec(body) == Seq::<Seq<char>>::empty(),
{
    lemma_split_append_plain(Seq::<char>::empty(), body, '\n');
    assert(Seq::<char>::empty() + body =~= body);
    assert(split_spec(body, '\n') =~= seq![body]);
    let p = seq![body];
    assert(p.drop_last() =~= Seq::<Seq<char>>::empty());
    assert(p.last() == body);
    assert(nonblank_pieces(p.drop_last()) == Seq::<Seq<char>>::empty());
    assert(Seq::<Seq<char>>::empty().push(body) =~= p);
}

/// Every line of a server list is read, the last one too: the servers of two parts joined
/// by a line break are the servers of the first part, then those of the second.
pub proof fn lemma_server_list_lines(x: Seq<char>, y: Seq<char>)
    ensures
        server_list_spec(x + seq!['\n'] + y) == server_list_spec(x) + server_list_spec(y),
{
    assert(x + seq!['\n'] + y =~= x.push('\n') + y);
    lemma_split_at_sep(x, y, '\n');
    lemma_nonblank_pieces_concat(split_spec(x, '\n'), split_spec(y, '\n'));
}

/// The views of a list of strings.
pub open spec fn strings_view(v: Seq<String>) -> Seq<Seq<char>> {
    v.map_values(|s: String| s@)
}

/// The servers listed in a server list response.
pub fn parse_server_list(body: &str) -> (r: Vec<String>)
    ensures
        strings_view(r@) == server_list_spec(body@),
{
    let v = chars_of(body);
    let pieces = split_chars(v.as_slice(), '\n');
    let ghost sp = split_spec(v@, '\n');
    let mut r: Vec<String> = Vec::new();
    let n = pieces.len();
    let mut i: usize = 0;
    while i < n
        invariant
            n == pieces@.len(),
            i <= n,
            crate::text::pieces_are(pieces@, sp),
            strings_view(r@) == nonblank_pieces(sp.take(i as int)),
        decreases n - i,
    {
        assert(sp.take(i + 1).drop_last() =~= sp.take(i as int));
        if !is_blank(pieces[i].as_slice()) {
            let s = string_of(pieces[i].as_slice());
            r.push(s);
        }
        assert(strings_view(r@) =~= nonblank_pieces(sp.take(i + 1)));
        i = i + 1;
    }
    assert(sp.take(n as int) =~= sp);
    r
}

/// The URL of the configuration endpoint of `server`.
pub fn config_url(server: &str) -> (r: String)
    ensures
        r@ == "http://"@ + server@ + ":8080/diamond-server/config.do"@,
{
    let mut r = String::from_str("http://");
    r.append(server);
    r.append(":8080/diamond-server/config.do");
    r
}

impl InnerClient {
    /// A client with the given credentials, no server list yet, and a zero counter.
    pub fn new(tenant: String, access_key: String, access_secret: String, endpoint: String) -> (r:
        Self)
        ensures
            r.tenant == tenant,
            r.access_key == access_key,
            r.access_secret == access_secret,
            r.endpoint == endpoint,
            r.server_list is None,
            r.index == 0,
    {
        InnerClient { tenant, access_key, access_secret, endpoint, server_list: None, index: 0 }
    }

    /// Counts one server lookup and gives the URL of the server list.
    pub fn begin_get_server(&mut self) -> (url: String)
        ensures
            url@ == "http://"@ + old(self).endpoint@ + ":8080/diamond-server/diamond"@,
            final(self).index == if old(self).index == usize::MAX {
                0
            } else {
                old(self).index + 1
            },
            final(self).tenant == old(self).tenant,
            final(self).access_key == old(self).access_key,
            final(self).access_secret == old(self).access_secret,
            final(self).endpoint == old(self).endpoint,
            final(self).server_list == old(self).server_list,
    {
        self.index = if self.index == usize::MAX {
            0
        } else {
            self.index + 1
        };
        let mut url = String::from_str("http://");
        url.append(self.endpoint.as_str());
        url.append(":8080/diamond-server/diamond");
        url
    }

    /// Keeps the server list that was fetched and gives its first server.
    pub fn record_server_list(&mut self, list: Vec<String>) -> (server: String)
        requires
            list@.len() > 0,
        ensures
            server@ == list@[0]@,
            final(self).server_list == Some(list),
            final(self).tenant == old(self).tenant,
            final(self).access_key == old(self).access_key,
            final(self).access_secret == old(self).access_secret,
            final(self).endpoint == old(self).endpoint,
            final(self).index == old(self).index,
    {
        let server = list[0].clone();
        self.server_list = Some(list);
        server
    }

    /// The request that reads the configuration `data_id` of `group_id` from `server`.
    pub fn get_config_request(&self, server: &str, data_id: &str, group_id: &str) -> (r:
        AcmRequest)
        ensures
            r.url@ == "http://"@ + server@ + ":8080/diamond-server/config.do"@,
            r.method is None,
            pairs_view(r.params@) == seq![
                ("dataId"@, data_id@),
                ("group"@, group_id@),
                ("tenant"@, self.tenant@),
            ],
            r.headers is None,
    {
        let mut params: Vec<(String, String)> = Vec::new();
        params.push(pair("dataId", data_id));
        params.push(pair("group", group_id));
        params.push(pair("tenant", self.tenant.as_str()));
        assert(pairs_view(params@) =~= seq![
            ("dataId"@, data_id@),
            ("group"@, group_id@),
            ("tenant"@, self.tenant@),
        ]);
        AcmRequest { url: config_url(server), method: None, params, headers: None }
    }

    /// The long-polling request that asks `server` which of the configurations in
    /// `probe_update` changed.
    pub fn poll_config_request(&self, server: &str, probe_update: &str) -> (r: AcmRequest)
        ensures
            r.url@ == "http://"@ + server@ + ":8080/diamond-server/config.do"@,
            opt_string_view(r.method) == Some("post"@),
            pairs_view(r.params@) == seq![("Probe-Modify-Request"@, probe_update@)],
            opt_pairs_view(r.headers) == Some(seq![("longPullingTimeout"@, "30000"@)]),
    {
        let mut params: Vec<(String, String)> = Vec::new();
        params.push(pair("Probe-Modify-Request", probe_update));
        let mut headers: Vec<(String, String)> = Vec::new();
        headers.push(pair("longPullingTimeout", "30000"));
        assert(pairs_view(params@) =~= seq![("Probe-Modify-Request"@, probe_update@)]);
        assert(pairs_view(headers@) =~= seq![("longPullingTimeout"@, "30000"@)]);
        AcmRequest {
            url: config_url(server),
            method: Some(String::from_str("post")),
            params,
            headers: Some(headers),
        }
    }

    /// `req`, signed at time `ts` with this client's credentials.
    pub fn sign_request(&self, req: AcmRequest, ts: i64) -> (r: SignedRequest)
        ensures
            signed_as(r, req, self.access_key@, self.access_secret@, ts),
    {
        let text = sign_text(&req.params, ts);
        let code = hmac_sha1_code(self.access_secret.as_str().as_bytes(), text.as_str().as_bytes());
        let sig = base64_encode(code.as_slice());
        let method = match &req.method {
            Some(m) => if str_eq(m.as_str(), "post") {
                HttpMethod::Post
            } else {
                HttpMethod::Get
            },
            None => HttpMethod::Get,
        };
        let ghost req0 = req;
        let mut headers: Vec<(String, String)> = Vec::new();
        headers.push(pair("Client-Version", "0.1"));
        headers.push(pair("Content-Type", "application/x-www-form-urlencoded; charset=GBK"));
        headers.push(pair("Spas-AccessKey", self.access_key.as_str()));
        let d = i64_to_dec(ts);
        headers.push(pair("timeStamp", d.as_str()));
        headers.push(pair("exConfigInfo", "true"));
        headers.push(pair("Spas-Signature", sig.as_str()));
        let ghost fixed = headers@;
        assert(sig@ == signature_spec(
            self.access_secret@,
            sign_text_spec(pairs_view(req.params@), ts),
        ));
        assert(pairs_view(fixed) =~= seq![
            ("Client-Version"@, "0.1"@),
            ("Content-Type"@, "application/x-www-form-urlencoded; charset=GBK"@),
            ("Spas-AccessKey"@, self.access_key@),
            ("timeStamp"@, signed_dec_spec(ts as int)),
            ("exConfigInfo"@, "true"@),
            ("Spas-Signature"@, sig@),
        ]);
        match req.headers {
            Some(extra) => {
                let n = extra.len();
                let mut i: usize = 0;
                while i < n
                    invariant
                        n == extra@.len(),
                        i <= n,
                        pairs_view(headers@) == pairs_view(fixed) + pairs_view(
                            extra@.take(i as int),
                        ),
                    decreases n - i,
                {
                    let e = &extra[i];
                    let k = e.0.clone();
                    let v = e.1.clone();
                    assert(k@ == extra@[i as int].0@ && v@ == extra@[i as int].1@);
                    let ghost prev = headers@;
                    headers.push((k, v));
                    assert(pairs_view(headers@) =~= pairs_view(prev).push(
                        (extra@[i as int].0@, extra@[i as int].1@),
                    ));
                    assert(pairs_view(extra@.take(i + 1)) =~= pairs_view(extra@.take(i as int)).push(
                        (extra@[i as int].0@, extra@[i as int].1@),
                    ));
                    assert(extra@.take(i + 1).drop_last() =~= extra@.take(i as int));
                    assert(pairs_view(headers@) =~= pairs_view(fixed) + pairs_view(
                        extra@.take(i + 1),
                    ));
                    i = i + 1;
                }
                assert(extra@.take(n as int) =~= extra@);
            },
            None => {
                assert(pairs_view(headers@) =~= pairs_view(fixed) + Seq::empty());
            },
        }
        SignedRequest { url: req.url, method, params: req.params, headers, timestamp: ts }
    }

    /// `req`, signed now with this client's credentials.
    pub fn request(&self, req: AcmRequest) -> (r: SignedRequest)
        ensures
            signed_as(r, req, self.access_key@, self.access_secret@, r.timestamp),
    {
        let ts = now_millis();
        self.sign_request(req, ts)
    }
}

} // verus!
