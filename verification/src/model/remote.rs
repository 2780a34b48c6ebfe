//! Remote inference endpoints and the store that keeps them by name.
use vstd::prelude::*;
use crate::error::FuseError;
use crate::model::formats::keys::{
    compare_keys, key_lt, lemma_bytes_lt_irrefl, lemma_key_lt_asym, lemma_key_lt_total,
    lemma_key_lt_trans, KeyOrder,
};
use crate::model::source::{Auth, AuthModel};
use crate::text::{self, has_prefix};

verus! {

/// Remote endpoint configuration
#[derive(Debug, Clone, PartialEq)]
pub struct RemoteEndpoint {
    /// Unique name for this endpoint
    pub name: String,
    /// URL of the remote endpoint
    pub url: String,
    /// Authentication credentials
    pub auth: Option<Auth>,
    /// Whether this endpoint is enabled
    pub enabled: bool,
    /// Optional description
    pub description: Option<String>,
}

/// Model of an endpoint.
pub struct EndpointModel {
    pub name: Seq<char>,
    pub url: Seq<char>,
    pub auth: Option<AuthModel>,
    pub enabled: bool,
    pub description: Option<Seq<char>>,
}

impl View for RemoteEndpoint {
    type V = EndpointModel;

    open spec fn view(&self) -> EndpointModel {
        EndpointModel {
            name: self.name@,
            url: self.url@,
            auth: match self.auth {
                Some(a) => Some(a@),
                None => None,
            },
            enabled: self.enabled,
            description: match self.description {
                Some(d) => Some(d@),
                None => None,
            },
        }
    }
}

/// A usable endpoint: named, with an `http://` or `https://` URL.
pub open spec fn endpoint_valid(e: EndpointModel) -> bool {
    &&& e.name.len() > 0
    &&& e.url.len() > 0
    &&& (has_prefix(e.url, "http://"@) || has_prefix(e.url, "https://"@))
}

/// Why an endpoint's configuration is refused: a missing name, a missing URL, or a
/// URL without an `http://` or `https://` scheme, checked in that order.
pub open spec fn invalid_endpoint_message(e: EndpointModel) -> Seq<char> {
    if e.name.len() == 0 {
        "Endpoint name cannot be empty"@
    } else if e.url.len() == 0 {
        "Endpoint URL cannot be empty"@
    } else {
        "Invalid URL format: "@ + e.url + ". Must start with http:// or https://"@
    }
}

/// The message for an endpoint name that is not stored.
pub open spec fn not_found_message(name: Seq<char>) -> Seq<char> {
    "Remote endpoint '"@ + name + "' not found"@
}

/// The message for an endpoint name that is already stored.
pub open spec fn exists_message(name: Seq<char>) -> Seq<char> {
    "Remote endpoint '"@ + name + "' already exists"@
}

impl RemoteEndpoint {
    /// A new enabled endpoint without credentials or description.
    pub fn new(name: &str, url: &str) -> (r: RemoteEndpoint)
        ensures
            r@ == (EndpointModel {
                name: name@,
                url: url@,
                auth: None,
                enabled: true,
                description: None,
            }),
    {
        RemoteEndpoint {
            name: text::owned(name),
            url: text::owned(url),
            auth: None,
            enabled: true,
            description: None,
        }
    }

    /// The same endpoint with credentials.
    pub fn with_auth(self, auth: Auth) -> (r: RemoteEndpoint)
        ensures
            r@ == (EndpointModel { auth: Some(auth@), ..self@ }),
    {
        RemoteEndpoint { auth: Some(auth), ..self }
    }

    /// The same endpoint, enabled or not.
    pub fn with_enabled(self, enabled: bool) -> (r: RemoteEndpoint)
        ensures
            r@ == (EndpointModel { enabled, ..self@ }),
    {
        RemoteEndpoint { enabled, ..self }
    }

    /// The same endpoint with a description.
    pub fn with_description(self, description: &str) -> (r: RemoteEndpoint)
        ensures
            r@ == (EndpointModel { description: Some(description@), ..self@ }),
    {
        RemoteEndpoint { description: Some(text::owned(description)), ..self }
    }

    /// Checks the configuration: a name, a URL, and an `http://` or `https://` scheme.
    pub fn validate(&self) -> (r: Result<(), FuseError>)
        ensures
            r is Ok <==> endpoint_valid(self@),
            match r {
                Err(e) => e matches FuseError::ValidationError(m) && m@ == invalid_endpoint_message(self@),
                Ok(_) => true,
            },
    {
        if self.name.as_str().is_empty() {
            return Err(FuseError::ValidationError(text::owned("Endpoint name cannot be empty")));
        }
        if self.url.as_str().is_empty() {
            return Err(FuseError::ValidationError(text::owned("Endpoint URL cannot be empty")));
        }
        if !text::starts_with(self.url.as_str(), "http://") && !text::starts_with(
            self.url.as_str(),
            "https://",
        ) {
            let msg = text::concat3(
                "Invalid URL format: ",
                self.url.as_str(),
                ". Must start with http:// or https://",
            );
            return Err(FuseError::ValidationError(msg));
        }
        Ok(())
    }

    /// A copy of the endpoint.
    pub fn duplicate(&self) -> (r: RemoteEndpoint)
        ensures
            r@ == self@,
    {
        RemoteEndpoint {
            name: self.name.clone(),
            url: self.url.clone(),
            auth: match &self.auth {
                Some(a) => Some(a.duplicate()),
                None => None,
            },
            enabled: self.enabled,
            description: match &self.description {
                Some(d) => Some(d.clone()),
                None => None,
            },
        }
    }
}

/// Names strictly increase along the endpoints.
pub open spec fn sorted_names(s: Seq<EndpointModel>) -> bool {
    forall|i: int, j: int| 0 <= i < j < s.len() ==> key_lt(#[trigger] s[i].name, #[trigger] s[j].name)
}

pub open spec fn endpoint_models(s: Seq<RemoteEndpoint>) -> Seq<EndpointModel> {
    Seq::new(s.len(), |i: int| s[i]@)
}

/// The stored endpoint with a given name.
pub open spec fn find(s: Seq<EndpointModel>, name: Seq<char>) -> Option<EndpointModel> {
    if exists|i: int| 0 <= i < s.len() && #[trigger] s[i].name == name {
        Some(s[choose|i: int| 0 <= i < s.len() && #[trigger] s[i].name == name])
    } else {
        None
    }
}

/// Store of remote endpoints, kept by name: every stored endpoint is valid and
/// names are unique, in name order.
pub struct RemoteEndpointRepository {
    endpoints: Vec<RemoteEndpoint>,
}

impl View for RemoteEndpointRepository {
    type V = Seq<EndpointModel>;

    closed spec fn view(&self) -> Seq<EndpointModel> {
        endpoint_models(self.endpoints@)
    }
}

pub open spec fn repo_inv(s: Seq<EndpointModel>) -> bool {
    &&& sorted_names(s)
    &&& forall|i: int| 0 <= i < s.len() ==> endpoint_valid(#[trigger] s[i])
}

/// Where a scan for `name` stops: every name before `p` is smaller; at `p` the name is
/// not smaller.
pub open spec fn scan_pos(s: Seq<EndpointModel>, name: Seq<char>, p: int) -> bool {
    &&& 0 <= p <= s.len()
    &&& forall|j: int| 0 <= j < p ==> key_lt(#[trigger] s[j].name, name)
    &&& p == s.len() || !key_lt(s[p].name, name)
}

proof fn lemma_scan_found(s: Seq<EndpointModel>, name: Seq<char>, p: int)
    requires
        sorted_names(s),
        scan_pos(s, name, p),
    ensures
        (p < s.len() && s[p].name == name) ==> find(s, name) == Some(s[p]),
        !(p < s.len() && s[p].name == name) ==> find(s, name) is None,
{
    if p < s.len() && s[p].name == name {
        let i = choose|i: int| 0 <= i < s.len() && #[trigger] s[i].name == name;
        if i != p {
            if i < p {
                lemma_bytes_lt_irrefl(vstd::utf8::encode_utf8(name));
            } else {
                lemma_bytes_lt_irrefl(vstd::utf8::encode_utf8(name));
            }
        }
    } else {
        if exists|i: int| 0 <= i < s.len() && #[trigger] s[i].name == name {
            let i = choose|i: int| 0 <= i < s.len() && #[trigger] s[i].name == name;
            lemma_bytes_lt_irrefl(vstd::utf8::encode_utf8(name));
            if i > p {
                lemma_key_lt_total(s[p].name, name);
                lemma_key_lt_trans(name, s[p].name, s[i].name);
            }
        }
    }
}

proof fn lemma_sorted_insert(s: Seq<EndpointModel>, e: EndpointModel, p: int)
    requires
        sorted_names(s),
        scan_pos(s, e.name, p),
        p == s.len() || s[p].name != e.name,
    ensures
        sorted_names(s.insert(p, e)),
{
    if p < s.len() {
        lemma_key_lt_total(s[p].name, e.name);
    }
    let n = s.insert(p, e);
    assert forall|i: int, j: int| 0 <= i < j < n.len() implies key_lt(
        #[trigger] n[i].name,
        #[trigger] n[j].name,
    ) by {
        if j < p {
            assert(n[i] == s[i] && n[j] == s[j]);
        } else if j == p {
            assert(n[i] == s[i]);
        } else if i < p {
            assert(n[i] == s[i] && n[j] == s[j - 1]);
            if j - 1 > p {
                lemma_key_lt_trans(e.name, s[p].name, s[j - 1].name);
            }
            lemma_key_lt_trans(s[i].name, e.name, s[j - 1].name);
        } else if i == p {
            assert(n[j] == s[j - 1]);
            if j - 1 > p {
                lemma_key_lt_trans(e.name, s[p].name, s[j - 1].name);
            }
        } else {
            assert(n[i] == s[i - 1] && n[j] == s[j - 1]);
        }
    }
}

proof fn lemma_sorted_remove(s: Seq<EndpointModel>, p: int)
    requires
        sorted_names(s),
        0 <= p < s.len(),
    ensures
        sorted_names(s.remove(p)),
{
    let n = s.remove(p);
    assert forall|i: int, j: int| 0 <= i < j < n.len() implies key_lt(
        #[trigger] n[i].name,
        #[trigger] n[j].name,
    ) by {
        let a = if i < p { i } else { i + 1 };
        let b = if j < p { j } else { j + 1 };
        assert(n[i] == s[a] && n[j] == s[b]);
    }
}

proof fn lemma_names_unique(s: Seq<EndpointModel>, p: int, q: int)
    requires
        sorted_names(s),
        0 <= p < s.len(),
        0 <= q < s.len(),
        s[p].name == s[q].name,
    ensures
        p == q,
{
    if p != q {
        lemma_bytes_lt_irrefl(vstd::utf8::encode_utf8(s[p].name));
        if p < q {
            assert(key_lt(s[p].name, s[q].name));
        } else {
            assert(key_lt(s[q].name, s[p].name));
        }
    }
}

/// The endpoints that are enabled, in order.
pub open spec fn enabled_only(s: Seq<EndpointModel>) -> Seq<EndpointModel> {
    s.filter(|e: EndpointModel| e.enabled)
}

fn not_found(name: &str) -> (e: FuseError)
    ensures
        e matches FuseError::ValidationError(m) && m@ == not_found_message(name@),
{
    FuseError::ValidationError(text::concat3("Remote endpoint '", name, "' not found"))
}

impl RemoteEndpointRepository {
    #[verifier::type_invariant]
    spec fn inv(self) -> bool {
        repo_inv(endpoint_models(self.endpoints@))
    }

    /// An empty store.
    pub fn new() -> (r: RemoteEndpointRepository)
        ensures
            r@ == Seq::<EndpointModel>::empty(),
    {
        let r = RemoteEndpointRepository { endpoints: Vec::new() };
        assert(endpoint_models(r.endpoints@) =~= Seq::<EndpointModel>::empty());
        r
    }

    /// Position where `name` is or would be.
    fn position(&self, name: &str) -> (r: (usize, bool))
        ensures
            scan_pos(self@, name@, r.0 as int),
            r.1 <==> (r.0 < self@.len() && self@[r.0 as int].name == name@),
            repo_inv(self@),
            r.1 ==> find(self@, name@) == Some(self@[r.0 as int]),
            !r.1 ==> find(self@, name@) is None,
    {
        proof {
            use_type_invariant(self);
        }
        let ghost s = self@;
        let mut p: usize = 0;
        while p < self.endpoints.len()
            invariant
                p <= self.endpoints@.len(),
                s == endpoint_models(self.endpoints@),
                repo_inv(s),
                forall|j: int| 0 <= j < p ==> key_lt(#[trigger] s[j].name, name@),
            decreases self.endpoints.len() - p,
        {
            match compare_keys(self.endpoints[p].name.as_str(), name) {
                KeyOrder::Less => {},
                KeyOrder::Equal => {
                    proof {
                        lemma_bytes_lt_irrefl(vstd::utf8::encode_utf8(name@));
                        lemma_scan_found(s, name@, p as int);
                    }
                    return (p, true);
                },
                KeyOrder::Greater => {
                    proof {
                        lemma_key_lt_asym(name@, s[p as int].name);
                        lemma_scan_found(s, name@, p as int);
                    }
                    return (p, false);
                },
            }
            p = p + 1;
        }
        proof {
            lemma_scan_found(s, name@, p as int);
        }
        (p, false)
    }

    /// Adds a new endpoint: it must be valid and its name unused.
    pub fn add(&mut self, endpoint: RemoteEndpoint) -> (r: Result<(), FuseError>)
        ensures
            r is Ok <==> endpoint_valid(endpoint@) && find(old(self)@, endpoint@.name) is None,
            r is Ok ==> exists|p: int|
                0 <= p <= old(self)@.len() && final(self)@ == old(self)@.insert(p, endpoint@),
            r is Err ==> final(self)@ == old(self)@,
            match r {
                Err(e) => e matches FuseError::ValidationError(m) && m@ == if !endpoint_valid(endpoint@) {
                    invalid_endpoint_message(endpoint@)
                } else {
                    exists_message(endpoint@.name)
                },
                Ok(_) => true,
            },
    {
        match endpoint.validate() {
            Ok(()) => {},
            Err(e) => {
                return Err(e);
            },
        }
        let (p, found) = self.position(endpoint.name.as_str());
        if found {
            let msg = text::concat3("Remote endpoint '", endpoint.name.as_str(), "' already exists");
            return Err(FuseError::ValidationError(msg));
        }
        let ghost s = self@;
        proof {
            lemma_sorted_insert(s, endpoint@, p as int);
            assert forall|i: int| 0 <= i < s.insert(p as int, endpoint@).len() implies endpoint_valid(
                #[trigger] s.insert(p as int, endpoint@)[i],
            ) by {
                if i < p {
                    assert(s.insert(p as int, endpoint@)[i] == s[i]);
                } else if i > p {
                    assert(s.insert(p as int, endpoint@)[i] == s[i - 1]);
                }
            }
        }
        let mut e: Vec<RemoteEndpoint> = Vec::new();
        std::mem::swap(&mut e, &mut self.endpoints);
        e.insert(p, endpoint);
        assert(endpoint_models(e@) =~= s.insert(p as int, endpoint@));
        self.endpoints = e;
        Ok(())
    }

    /// Removes the endpoint with a given name; it must exist.
    pub fn remove(&mut self, name: &str) -> (r: Result<(), FuseError>)
        ensures
            r is Ok <==> find(old(self)@, name@) is Some,
            r is Ok ==> exists|p: int|
                0 <= p < old(self)@.len() && old(self)@[p].name == name@ && final(self)@ == old(
                    self,
                )@.remove(p),
            r is Err ==> final(self)@ == old(self)@,
            match r {
                Err(e) => e matches FuseError::ValidationError(m) && m@ == not_found_message(name@),
                Ok(_) => true,
            },
    {
        let (p, found) = self.position(name);
        if !found {
            return Err(not_found(name));
        }
        let ghost s = self@;
        proof {
            lemma_sorted_remove(s, p as int);
            assert forall|i: int| 0 <= i < s.remove(p as int).len() implies endpoint_valid(
                #[trigger] s.remove(p as int)[i],
            ) by {
                if i < p {
                    assert(s.remove(p as int)[i] == s[i]);
                } else {
                    assert(s.remove(p as int)[i] == s[i + 1]);
                }
            }
        }
        let mut e: Vec<RemoteEndpoint> = Vec::new();
        std::mem::swap(&mut e, &mut self.endpoints);
        e.remove(p);
        assert(endpoint_models(e@) =~= s.remove(p as int));
        self.endpoints = e;
        Ok(())
    }

    /// The endpoint with a given name, if stored.
    pub fn get(&self, name: &str) -> (r: Result<Option<RemoteEndpoint>, FuseError>)
        ensures
            repo_inv(self@),
            match r {
                Ok(Some(e)) => find(self@, name@) == Some(e@),
                Ok(None) => find(self@, name@) is None,
                Err(_) => false,
            },
    {
        let (p, found) = self.position(name);
        if found {
            Ok(Some(self.endpoints[p].duplicate()))
        } else {
            Ok(None)
        }
    }

    /// All endpoints, sorted by name.
    pub fn list(&self) -> (r: Result<Vec<RemoteEndpoint>, FuseError>)
        ensures
            match r {
                Ok(v) => endpoint_models(v@) == self@ && sorted_names(endpoint_models(v@)),
                Err(_) => false,
            },
    {
        proof {
            use_type_invariant(self);
        }
        let mut out: Vec<RemoteEndpoint> = Vec::new();
        let mut i: usize = 0;
        while i < self.endpoints.len()
            invariant
                i <= self.endpoints@.len(),
                endpoint_models(out@) == endpoint_models(self.endpoints@).take(i as int),
            decreases self.endpoints.len() - i,
        {
            let ghost before = endpoint_models(out@);
            let d = self.endpoints[i].duplicate();
            out.push(d);
            assert(endpoint_models(out@) =~= before.push(d@));
            assert(endpoint_models(self.endpoints@).take(i + 1) =~= endpoint_models(
                self.endpoints@,
            ).take(i as int).push(self.endpoints@[i as int]@));
            i = i + 1;
        }
        assert(endpoint_models(self.endpoints@).take(self.endpoints@.len() as int)
            =~= endpoint_models(self.endpoints@));
        Ok(out)
    }

    /// Replaces a stored endpoint by one of the same name; it must be valid and exist.
    pub fn update(&mut self, endpoint: RemoteEndpoint) -> (r: Result<(), FuseError>)
        ensures
            r is Ok <==> endpoint_valid(endpoint@) && find(old(self)@, endpoint@.name) is Some,
            r is Ok ==> exists|p: int|
                0 <= p < old(self)@.len() && old(self)@[p].name == endpoint@.name && final(self)@
                    == old(self)@.update(p, endpoint@),
            r is Err ==> final(self)@ == old(self)@,
            match r {
                Err(e) => e matches FuseError::ValidationError(m) && m@ == if !endpoint_valid(endpoint@) {
                    invalid_endpoint_message(endpoint@)
                } else {
                    not_found_message(endpoint@.name)
                },
                Ok(_) => true,
            },
    {
        match endpoint.validate() {
            Ok(()) => {},
            Err(e) => {
                return Err(e);
            },
        }
        let (p, found) = self.position(endpoint.name.as_str());
        if !found {
            return Err(not_found(endpoint.name.as_str()));
        }
        let ghost s = self@;
        let ghost n = s.update(p as int, endpoint@);
        proof {
            assert forall|i: int, j: int| 0 <= i < j < n.len() implies key_lt(
                #[trigger] n[i].name,
                #[trigger] n[j].name,
            ) by {
                assert(n[i].name == s[i].name && n[j].name == s[j].name);
            }
        }
        let mut e: Vec<RemoteEndpoint> = Vec::new();
        std::mem::swap(&mut e, &mut self.endpoints);
        e.set(p, endpoint);
        assert(endpoint_models(e@) =~= n);
        self.endpoints = e;
        Ok(())
    }

    /// Enables or disables a stored endpoint.
    pub fn set_enabled(&mut self, name: &str, enabled: bool) -> (r: Result<(), FuseError>)
        ensures
            r is Ok <==> find(old(self)@, name@) is Some,
            r is Ok ==> exists|p: int|
                0 <= p < old(self)@.len() && old(self)@[p].name == name@ && final(self)@ == old(
                    self,
                )@.update(p, EndpointModel { enabled, ..old(self)@[p] }),
            r is Err ==> final(self)@ == old(self)@,
            match r {
                Err(e) => e matches FuseError::ValidationError(m) && m@ == not_found_message(name@),
                Ok(_) => true,
            },
    {
        let ghost s = self@;
        let found = match self.get(name) {
            Ok(f) => f,
            Err(e) => {
                return Err(e);
            },
        };
        let mut endpoint = match found {
            Some(ep) => ep,
            None => {
                return Err(not_found(name));
            },
        };
        let ghost q = choose|i: int| 0 <= i < s.len() && #[trigger] s[i].name == name@;
        assert(endpoint@ == s[q]);
        endpoint.enabled = enabled;
        let r = self.update(endpoint);
        proof {
            if r is Ok {
                let p = choose|p: int|
                    0 <= p < s.len() && s[p].name == name@ && self@ == s.update(p, endpoint@);
                lemma_names_unique(s, p, q);
            }
        }
        r
    }

    /// The enabled endpoints, sorted by name.
    pub fn list_enabled(&self) -> (r: Result<Vec<RemoteEndpoint>, FuseError>)
        ensures
            match r {
                Ok(v) => endpoint_models(v@) == enabled_only(self@),
                Err(_) => false,
            },
    {
        let all = match self.list() {
            Ok(v) => v,
            Err(e) => {
                return Err(e);
            },
        };
        let ghost s = endpoint_models(all@);
        let mut out: Vec<RemoteEndpoint> = Vec::new();
        let mut i: usize = 0;
        while i < all.len()
            invariant
                i <= all@.len(),
                s == endpoint_models(all@),
                endpoint_models(out@) == enabled_only(s.take(i as int)),
            decreases all.len() - i,
        {
            let ghost before = endpoint_models(out@);
            assert(s.take(i + 1).drop_last() =~= s.take(i as int));
            if all[i].enabled {
                out.push(all[i].duplicate());
                assert(endpoint_models(out@) =~= before.push(s[i as int]));
            }
            proof {
                reveal_with_fuel(Seq::filter, 1);
            }
            i = i + 1;
        }
        assert(s.take(s.len() as int) =~= s);
        Ok(out)
    }
}

} // verus!
