use vstd::prelude::*;
use vstd::string::StringExecFns;

use crate::api_key::{presented_key, ApiKey, ApiKeyBase64};
use crate::error::ErrorKind;
use crate::key_store::KeyStore;
use crate::routing::{first_segment, root_segment, route_for, unrouted_name, PeerRoute, RouteTable};

verus! {

/// http's request target, carried opaquely.
#[verifier::external_type_specification]
#[verifier::external_body]
pub struct ExUri(http::Uri);

/// The path component of a request target.
pub uninterp spec fn uri_path(uri: http::Uri) -> Seq<char>;

/// Relies on `http::Uri::path`, which returns the path component of the
/// target, a function of the target alone.
pub assume_specification[ http::Uri::path ](uri: &http::Uri) -> (r: &str)
    ensures
        r@ == uri_path(*uri),
;

/// The first segment of the path of `uri`: `/api/users` and
/// `http://host/api` both give `api`. Fails with `UnknownRoute` where the
/// path has no segment, naming the whole path.
pub fn parse_uri_root_path(uri: &http::Uri) -> (r: Result<&str, ErrorKind>)
    ensures
        match first_segment(uri_path(*uri)) {
            Some(seg) => r is Ok && r->Ok_0@ == seg,
            None => r is Err && r->Err_0 is UnknownRoute
                && r->Err_0->UnknownRoute_0@ == uri_path(*uri),
        },
{
    let path = uri.path();
    match root_segment(path) {
        Some(seg) => Ok(seg),
        None => Err(ErrorKind::UnknownRoute(String::from_str(path))),
    }
}

/// What authentication makes of the key header `header` (`None` where the
/// request has none) against the keys `keys`.
pub open spec fn authentication(keys: Set<Seq<u8>>, header: Option<Seq<u8>>) -> Result<(), ErrorKind> {
    match header {
        None => Err(ErrorKind::MissingCredential),
        Some(value) => match presented_key(value) {
            Some(key) => if keys.contains(key) {
                Ok(())
            } else {
                Err(ErrorKind::InvalidCredential)
            },
            None => Err(ErrorKind::InvalidCredential),
        },
    }
}

/// The outcome of one request at the gateway.
#[derive(Debug)]
pub enum Decision<'a> {
    /// Forward the request to the host and port of this route.
    Admit(&'a PeerRoute),
    /// Refuse the request for this reason.
    Reject(ErrorKind),
}

/// Admits requests that carry a known key and forwards each to the route
/// keyed by the first segment of its path.
pub struct ApiGateway {
    routes: RouteTable,
    keys: KeyStore,
}

impl ApiGateway {
    /// The route table, keyed by path segment.
    pub closed spec fn routes_view(&self) -> Map<Seq<char>, PeerRoute> {
        self.routes.view()
    }

    /// The admissible keys.
    pub closed spec fn keys_view(&self) -> Set<Seq<u8>> {
        self.keys.view()
    }

    /// A gateway over `routes`, indexed by path segment with the later of two
    /// routes on one segment winning, and over the keys `keys`.
    pub fn new(routes: Vec<PeerRoute>, keys: KeyStore) -> (r: ApiGateway)
        ensures
            r.routes_view() == crate::routing::route_map(routes@),
            r.keys_view() == keys.view(),
    {
        ApiGateway { routes: RouteTable::build(routes), keys }
    }

    /// Checks the key header `header` (`None` where the request has none):
    /// it must be present, decode as URL-safe base64, and name a known key.
    pub fn authenticate(&self, header: Option<&[u8]>) -> (r: Result<(), ErrorKind>)
        ensures
            r == authentication(
                self.keys_view(),
                match header {
                    Some(v) => Some(v@),
                    None => None,
                },
            ),
    {
        match header {
            None => Err(ErrorKind::MissingCredential),
            Some(value) => {
                let encoded = match ApiKeyBase64::from_header_value(value) {
                    Ok(e) => e,
                    Err(e) => return Err(e),
                };
                let key = match ApiKey::try_from_base64(&encoded) {
                    Ok(k) => k,
                    Err(e) => return Err(e),
                };
                if self.keys.contains(&key) {
                    Ok(())
                } else {
                    Err(ErrorKind::InvalidCredential)
                }
            },
        }
    }

    /// The route that serves `path`, by its first segment.
    pub fn get_route(&self, path: &str) -> (r: Result<&PeerRoute, ErrorKind>)
        ensures
            match route_for(self.routes_view(), path@) {
                Some(route) => r is Ok && *r->Ok_0 == route,
                None => r is Err && r->Err_0 is UnknownRoute
                    && r->Err_0->UnknownRoute_0@ == unrouted_name(path@),
            },
    {
        self.routes.resolve_segment(path)
    }

    /// Decides one request from its key header and its path. The key is
    /// checked first, so a request without a known key learns nothing of
    /// the routes; an admitted request goes to the route of its first path
    /// segment.
    pub fn authorize_and_route(&self, header: Option<&[u8]>, path: &str) -> (r: Decision)
        ensures
            match authentication(
                self.keys_view(),
                match header {
                    Some(v) => Some(v@),
                    None => None,
                },
            ) {
                Err(e) => r == Decision::Reject(e),
                Ok(_) => match route_for(self.routes_view(), path@) {
                    Some(route) => r is Admit && *r->Admit_0 == route,
                    None => r is Reject && r->Reject_0 is UnknownRoute
                        && r->Reject_0->UnknownRoute_0@ == unrouted_name(path@),
                },
            },
            header is None ==> r == Decision::Reject(ErrorKind::MissingCredential),
            header is Some ==> r != Decision::Reject(ErrorKind::MissingCredential),
    {
        match self.authenticate(header) {
            Err(e) => Decision::Reject(e),
            Ok(()) => match self.get_route(path) {
                Ok(route) => Decision::Admit(route),
                Err(e) => Decision::Reject(e),
            },
        }
    }
}

/// A key of the store, sent in a header whose value presents it (as the
/// wire form that `ApiKey::to_base64` gives does), is admitted.
pub proof fn lemma_wire_form_admitted(keys: Set<Seq<u8>>, key: Seq<u8>, wire: Seq<u8>)
    requires
        keys.contains(key),
        presented_key(wire) == Some(key),
    ensures
        authentication(keys, Some(wire)) == Ok::<(), ErrorKind>(()),
{
}

} // verus!
