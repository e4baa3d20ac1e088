//! Middleware that sets default response headers: each configured header is
//! added to a response only when no header of that name is present, and an
//! optional flag adds a default content type the same way.

use vstd::prelude::*;

use crate::http::spec_contains_name;
use crate::http::spec_lookup;
use crate::request::HttpRequest;
use crate::response::RespModel;
use crate::response::Response;
use crate::service::HttpService;

verus! {

/// Append every pair of `to_add`, in order, whose name is not already
/// present.
pub open spec fn spec_add_absent(
    headers: Seq<(Seq<char>, Seq<char>)>,
    to_add: Seq<(Seq<char>, Seq<char>)>,
) -> Seq<(Seq<char>, Seq<char>)>
    decreases to_add.len(),
{
    if to_add.len() == 0 {
        headers
    } else {
        let h = if spec_contains_name(headers, to_add[0].0) {
            headers
        } else {
            headers.push(to_add[0])
        };
        spec_add_absent(h, to_add.drop_first())
    }
}

/// Middleware for setting default response headers.
///
/// It never overwrites: a header the response already carries is left as it
/// is.  With the content-type flag set, a response without a content type
/// gets `application/octet-stream`.
pub struct DefaultHeaders {
    /// The headers to apply, in order.
    pub headers: Vec<(String, String)>,
    /// Whether to set a default content type on responses without one.
    pub ct: bool,
}

impl Default for DefaultHeaders {
    fn default() -> (r: DefaultHeaders)
        ensures
            r.headers.deep_view() == Seq::<(Seq<char>, Seq<char>)>::empty(),
            r.ct == false,
    {
        let r = DefaultHeaders { headers: Vec::new(), ct: false };
        proof {
            assert(r.headers.deep_view() =~= Seq::<(Seq<char>, Seq<char>)>::empty());
        }
        r
    }
}

impl DefaultHeaders {
    /// Construct the middleware with no headers configured.
    pub fn new() -> (r: DefaultHeaders)
        ensures
            r.headers.deep_view() == Seq::<(Seq<char>, Seq<char>)>::empty(),
            r.ct == false,
    {
        DefaultHeaders::default()
    }

    /// Add a header to apply.
    pub fn header(self, key: &str, value: &str) -> (r: DefaultHeaders)
        ensures
            r.headers.deep_view() =~= self.headers.deep_view().push((key@, value@)),
            r.ct == self.ct,
    {
        let mut this = self;
        let ghost before = this.headers.deep_view();
        this.headers.push((key.to_owned(), value.to_owned()));
        proof {
            assert(this.headers.deep_view() =~= before.push((key@, value@)));
        }
        this
    }

    /// Set a default content type on responses that lack one.
    pub fn content_type(self) -> (r: DefaultHeaders)
        ensures
            r.headers == self.headers,
            r.ct == true,
    {
        let mut this = self;
        this.ct = true;
        this
    }

    /// What applying the middleware does to a response: absent configured
    /// headers are appended in order, then the default content type if
    /// asked for and still absent.
    pub open spec fn spec_apply(&self, r: RespModel) -> RespModel {
        let with = spec_add_absent(r.headers, self.headers.deep_view());
        let with_ct = if self.ct && !spec_contains_name(with, "content-type"@) {
            with.push(("content-type"@, "application/octet-stream"@))
        } else {
            with
        };
        RespModel { headers: with_ct, ..r }
    }

    /// Apply the configured defaults to a response.
    #[verifier::loop_isolation(false)]
    pub fn apply(&self, res: Response) -> (r: Response)
        ensures
            r@ == self.spec_apply(res@),
    {
        let ghost before = res@;
        let mut res = res;
        let n = self.headers.len();
        let ghost cfg = self.headers.deep_view();
        proof {
            assert(cfg.skip(0) =~= cfg);
        }
        for i in 0..n
            invariant
                res@.status == before.status,
                res@.body == before.body,
                spec_add_absent(before.headers, cfg) == spec_add_absent(
                    res@.headers,
                    cfg.skip(i as int),
                ),
        {
            proof {
                assert(cfg.skip(i as int)[0] == self.headers@[i as int].deep_view());
                assert(cfg.skip(i as int).drop_first() =~= cfg.skip(i as int + 1));
            }
            let (key, value) = &self.headers[i];
            if !res.has_header(key.as_str()) {
                res.append_header(key.clone(), value.clone());
            }
        }
        proof {
            assert(cfg.skip(n as int) =~= Seq::<(Seq<char>, Seq<char>)>::empty());
            assert(spec_add_absent(before.headers, cfg) == res@.headers);
        }
        if self.ct && !res.has_header("content-type") {
            res.append_header("content-type".to_owned(), "application/octet-stream".to_owned());
        }
        res
    }

    /// Run the middleware around an inner service: delegate the request,
    /// then post-process the response.
    pub fn call<S: HttpService>(&self, req: HttpRequest, srv: &S) -> (r: Response)
        ensures
            r@ == self.spec_apply(srv.spec_response(req@)),
    {
        self.apply(srv.call(req))
    }

    /// The middleware is always ready: it is a pure response post-processor.
    pub fn poll_ready(&self) -> (r: bool)
        ensures
            r == true,
    {
        true
    }
}

/// What applying all middlewares of a list does, first entry first.
pub open spec fn spec_apply_all(mws: Seq<DefaultHeaders>, r: RespModel) -> RespModel
    decreases mws.len(),
{
    if mws.len() == 0 {
        r
    } else {
        spec_apply_all(mws.drop_first(), mws[0].spec_apply(r))
    }
}

proof fn lemma_lookup_push(h: Seq<(Seq<char>, Seq<char>)>, p: (Seq<char>, Seq<char>), name: Seq<
    char,
>)
    ensures
        spec_lookup(h.push(p), name) == if spec_contains_name(h, name) {
            spec_lookup(h, name)
        } else if p.0 == name {
            Some(p.1)
        } else {
            None::<Seq<char>>
        },
    decreases h.len(),
{
    if h.len() == 0 {
        assert(h.push(p).drop_first() =~= Seq::<(Seq<char>, Seq<char>)>::empty());
    } else {
        assert(h.push(p).drop_first() =~= h.drop_first().push(p));
        lemma_lookup_push(h.drop_first(), p, name);
    }
}

/// What a name resolves to after the defaults are added: its value in the
/// response if present, else its first configured value if any.
proof fn lemma_add_absent_lookup(
    h: Seq<(Seq<char>, Seq<char>)>,
    to_add: Seq<(Seq<char>, Seq<char>)>,
    name: Seq<char>,
)
    ensures
        spec_lookup(spec_add_absent(h, to_add), name) == match spec_lookup(h, name) {
            Some(v) => Some(v),
            None => spec_lookup(to_add, name),
        },
    decreases to_add.len(),
{
    if to_add.len() > 0 {
        let p = to_add[0];
        let h2 = if spec_contains_name(h, p.0) {
            h
        } else {
            h.push(p)
        };
        lemma_lookup_push(h, p, name);
        lemma_add_absent_lookup(h2, to_add.drop_first(), name);
        if !spec_contains_name(h, p.0) {
            lemma_lookup_push(h, p, p.0);
        }
    }
}

/// The law the middleware obeys, name by name: a header the response
/// already has keeps its value; an absent one gets its first configured
/// value; with the content-type flag, a still-absent content type becomes
/// `application/octet-stream`; everything else stays absent.
pub proof fn lemma_apply_lookup(dh: DefaultHeaders, r: RespModel, name: Seq<char>)
    ensures
        spec_lookup(dh.spec_apply(r).headers, name) == match spec_lookup(r.headers, name) {
            Some(v) => Some(v),
            None => match spec_lookup(dh.headers.deep_view(), name) {
                Some(v) => Some(v),
                None => if dh.ct && name == "content-type"@ && !spec_contains_name(
                    spec_add_absent(r.headers, dh.headers.deep_view()),
                    "content-type"@,
                ) {
                    Some("application/octet-stream"@)
                } else {
                    None::<Seq<char>>
                },
            },
        },
{
    let with = spec_add_absent(r.headers, dh.headers.deep_view());
    lemma_add_absent_lookup(r.headers, dh.headers.deep_view(), name);
    if dh.ct && !spec_contains_name(with, "content-type"@) {
        lemma_lookup_push(with, ("content-type"@, "application/octet-stream"@), name);
    }
}

/// A pair's own name is always found in a list that holds the pair.
proof fn lemma_lookup_present(s: Seq<(Seq<char>, Seq<char>)>, i: int)
    requires
        0 <= i < s.len(),
    ensures
        spec_contains_name(s, s[i].0),
    decreases s.len(),
{
    if s[0].0 != s[i].0 {
        lemma_lookup_present(s.drop_first(), i - 1);
        assert(s.drop_first()[i - 1] == s[i]);
    }
}

/// Adding defaults whose names are all present changes nothing.
proof fn lemma_add_absent_all_present(
    h: Seq<(Seq<char>, Seq<char>)>,
    to_add: Seq<(Seq<char>, Seq<char>)>,
)
    requires
        forall|i: int| 0 <= i < to_add.len() ==> spec_contains_name(h, #[trigger] to_add[i].0),
    ensures
        spec_add_absent(h, to_add) == h,
    decreases to_add.len(),
{
    if to_add.len() > 0 {
        assert(spec_contains_name(h, to_add[0].0));
        assert forall|i: int|
            0 <= i < to_add.drop_first().len() implies spec_contains_name(
            h,
            #[trigger] to_add.drop_first()[i].0,
        ) by {
            assert(to_add.drop_first()[i] == to_add[i + 1]);
        }
        lemma_add_absent_all_present(h, to_add.drop_first());
    }
}

/// Applying the same defaults twice is the same as applying them once.
pub proof fn lemma_apply_idempotent(dh: DefaultHeaders, r: RespModel)
    ensures
        dh.spec_apply(dh.spec_apply(r)) == dh.spec_apply(r),
{
    let cfg = dh.headers.deep_view();
    let once = dh.spec_apply(r);
    assert forall|i: int|
        0 <= i < cfg.len() implies spec_contains_name(once.headers, #[trigger] cfg[i].0) by {
        lemma_apply_lookup(dh, r, cfg[i].0);
        lemma_lookup_present(cfg, i);
    }
    lemma_add_absent_all_present(once.headers, cfg);
    if dh.ct {
        lemma_apply_lookup(dh, r, "content-type"@);
        lemma_add_absent_lookup(r.headers, cfg, "content-type"@);
    }
    assert(dh.spec_apply(once) == once);
}

} // verus!
