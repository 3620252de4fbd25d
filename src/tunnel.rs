use vstd::prelude::*;

use crate::api_key::{copy_bytes, ApiKeyBase64};
use crate::error::ErrorKind;

verus! {

/// One request header: its name and the value's bytes.
#[derive(Clone, Debug, PartialEq, Eq)]
pub struct Header {
    pub name: String,
    pub value: Vec<u8>,
}

/// What the tunnel reads of a local request: its path and its headers.
#[derive(Clone, Debug, PartialEq, Eq)]
pub struct TunnelRequest {
    pub path: String,
    pub headers: Vec<Header>,
}

/// An upstream endpoint: a host name or address, and a port.
#[derive(Clone, Debug, PartialEq, Eq)]
pub struct PeerAddress {
    pub host: String,
    pub port: u16,
}

/// A client certificate chain and its private key, DER-encoded, loaded once
/// and presented on every mutual-TLS handshake with the upstream.
#[derive(Clone, Debug, PartialEq, Eq)]
pub struct CertificateMaterial {
    pub certificate_chain: Vec<Vec<u8>>,
    pub private_key: Vec<u8>,
}

impl CertificateMaterial {
    /// The material made of a loaded certificate chain and private key;
    /// fails with `CertificateLoadFailure` where the chain is empty, its
    /// first certificate is empty, or the key is empty, since no handshake
    /// can present such material.
    pub fn new(certificate_chain: Vec<Vec<u8>>, private_key: Vec<u8>) -> (r: Result<
        CertificateMaterial,
        ErrorKind,
    >)
        ensures
            (certificate_chain@.len() > 0 && certificate_chain@[0]@.len() > 0 && private_key@.len() > 0)
                ==> r == Ok::<CertificateMaterial, ErrorKind>(
                CertificateMaterial { certificate_chain, private_key },
            ),
            !(certificate_chain@.len() > 0 && certificate_chain@[0]@.len() > 0 && private_key@.len() > 0)
                ==> r == Err::<CertificateMaterial, ErrorKind>(ErrorKind::CertificateLoadFailure),
    {
        if certificate_chain.len() > 0 && certificate_chain[0].len() > 0 && private_key.len() > 0 {
            Ok(CertificateMaterial { certificate_chain, private_key })
        } else {
            Err(ErrorKind::CertificateLoadFailure)
        }
    }
}

/// Where and how a forwarded request is sent.
#[derive(Debug)]
pub struct UpstreamPeer<'a> {
    pub address: &'a PeerAddress,
    pub tls: bool,
    pub server_name: &'a str,
    pub client_certificate: Option<&'a CertificateMaterial>,
}

/// The outcome of one local request at the tunnel.
#[derive(Debug)]
pub enum Forwarding<'a> {
    /// Answer the request locally, without contacting the upstream.
    RespondLocally { status: u16, body: Vec<u8> },
    /// Send the request, with these headers, to this peer.
    Forward { headers: Vec<Header>, peer: UpstreamPeer<'a> },
    /// Refuse the request for this reason.
    Reject(ErrorKind),
}

/// Whether `path` is the liveness path, which the tunnel answers itself.
pub open spec fn is_liveness_path(path: Seq<char>) -> bool {
    path == seq!['/']
}

/// Whether `a` and `b` are one character, or one ASCII letter in two cases.
pub open spec fn same_char_ignoring_case(a: char, b: char) -> bool {
    a == b || ('A' <= a <= 'Z' && b as u32 == a as u32 + 32) || ('A' <= b <= 'Z' && a as u32 == b as u32
        + 32)
}

/// Whether two header names are the same name: HTTP header names ignore
/// ASCII case.
pub open spec fn same_header_name(a: Seq<char>, b: Seq<char>) -> bool {
    a.len() == b.len() && forall|i: int| 0 <= i < a.len() ==> same_char_ignoring_case(#[trigger] a[i], b[i])
}

/// Whether one of `headers` is named `name`, ignoring ASCII case.
pub open spec fn has_header(headers: Seq<Header>, name: Seq<char>) -> bool {
    exists|i: int| 0 <= i < headers.len() && same_header_name((#[trigger] headers[i]).name@, name)
}

/// Whether `a` and `b` are the same header name, ignoring ASCII case.
pub fn header_names_equal(a: &str, b: &str) -> (r: bool)
    ensures
        r == same_header_name(a@, b@),
{
    let n = a.unicode_len();
    if n != b.unicode_len() {
        return false;
    }
    let mut i: usize = 0;
    while i < n
        invariant
            n == a@.len() == b@.len(),
            i <= n,
            forall|j: int| 0 <= j < i ==> same_char_ignoring_case(#[trigger] a@[j], b@[j]),
        decreases n - i,
    {
        let x = a.get_char(i);
        let y = b.get_char(i);
        let same = x == y || ('A' <= x && x <= 'Z' && y as u32 == x as u32 + 32) || ('A' <= y && y
            <= 'Z' && x as u32 == y as u32 + 32);
        if !same {
            return false;
        }
        i = i + 1;
    }
    true
}

/// The body of the local liveness answer: `OK`.
pub open spec fn liveness_body() -> Seq<u8> {
    seq![79u8, 75u8]
}

/// Forwards every local request to one upstream, with the key injected in
/// its header; answers the liveness path itself.
pub struct Tunnel {
    key: ApiKeyBase64,
    proxy_address: PeerAddress,
    key_header: String,
    tls: bool,
    server_name: String,
    client_certificate: Option<CertificateMaterial>,
}

impl Tunnel {
    /// The wire form of the key that the tunnel injects.
    pub closed spec fn key_view(&self) -> Seq<u8> {
        self.key@
    }

    /// The name of the key header.
    pub closed spec fn key_header_view(&self) -> Seq<char> {
        self.key_header@
    }

    /// The upstream that every forwarded request goes to.
    pub closed spec fn proxy_address_view(&self) -> PeerAddress {
        self.proxy_address
    }

    /// Whether forwarded requests use TLS.
    pub closed spec fn tls_view(&self) -> bool {
        self.tls
    }

    /// The TLS server name of the upstream.
    pub closed spec fn server_name_view(&self) -> Seq<char> {
        self.server_name@
    }

    /// The client certificate presented upstream; present exactly when
    /// mutual TLS is on.
    pub closed spec fn client_certificate_view(&self) -> Option<CertificateMaterial> {
        self.client_certificate
    }

    /// A tunnel to `proxy_address` that injects `key` under the header named
    /// `key_header`, speaks TLS to the upstream where `tls` is
    /// set with `server_name` as its name, and presents `client_certificate`
    /// where one is given.
    pub fn new(
        key: ApiKeyBase64,
        proxy_address: PeerAddress,
        key_header: String,
        tls: bool,
        server_name: String,
        client_certificate: Option<CertificateMaterial>,
    ) -> (r: Tunnel)
        ensures
            r.key_view() == key@,
            r.proxy_address_view() == proxy_address,
            r.key_header_view() == key_header@,
            r.tls_view() == tls,
            r.server_name_view() == server_name@,
            r.client_certificate_view() == client_certificate,
    {
        Tunnel { key, proxy_address, key_header, tls, server_name, client_certificate }
    }

    /// Decides one local request. The liveness path `/` is answered locally
    /// with `200 OK`. Any other request that already carries the key header
    /// (under its name in any ASCII case) is refused, so that no caller can
    /// assert a key of its own; the rest are forwarded to the upstream with
    /// exactly one key header added.
    pub fn decorate(&self, request: TunnelRequest) -> (r: Forwarding)
        ensures
            is_liveness_path(request.path@) ==> r is RespondLocally && r->RespondLocally_status == 200
                && r->RespondLocally_body@ == liveness_body(),
            !is_liveness_path(request.path@) && has_header(request.headers@, self.key_header_view())
                ==> r == Forwarding::Reject(ErrorKind::ExistingCredentialHeader),
            !is_liveness_path(request.path@) && !has_header(request.headers@, self.key_header_view())
                ==> r is Forward && ({
                let headers = r->Forward_headers@;
                let peer = r->Forward_peer;
                &&& headers.len() == request.headers@.len() + 1
                &&& headers.take(request.headers@.len() as int) == request.headers@
                &&& forall|i: int| 0 <= i < headers.len() - 1 ==> !same_header_name((#[trigger] headers[i]).name@, self.key_header_view())
                &&& headers.last().name@ == self.key_header_view()
                &&& headers.last().value@ == self.key_view()
                &&& *peer.address == self.proxy_address_view()
                &&& peer.tls == self.tls_view()
                &&& peer.server_name@ == self.server_name_view()
                &&& match peer.client_certificate {
                    Some(c) => self.client_certificate_view() == Some(*c),
                    None => self.client_certificate_view() is None,
                }
            }),
    {
        if request.path.as_str().unicode_len() == 1 && request.path.as_str().get_char(0) == '/' {
            proof {
                assert(request.path@ =~= seq!['/']);
            }
            return Forwarding::RespondLocally { status: 200, body: vec![79u8, 75u8] };
        }
        proof {
            assert(!is_liveness_path(request.path@));
        }
        let mut i: usize = 0;
        while i < request.headers.len()
            invariant
                i <= request.headers@.len(),
                !is_liveness_path(request.path@),
                forall|j: int| 0 <= j < i ==> !same_header_name((#[trigger] request.headers@[j]).name@, self.key_header@),
            decreases request.headers@.len() - i,
        {
            if header_names_equal(request.headers[i].name.as_str(), self.key_header.as_str()) {
                return Forwarding::Reject(ErrorKind::ExistingCredentialHeader);
            }
            i = i + 1;
        }
        let mut headers = request.headers;
        let ghost before = headers@;
        headers.push(Header { name: self.key_header.clone(), value: copy_bytes(self.key.0.as_slice()) });
        proof {
            assert(headers@.take(before.len() as int) =~= before);
        }
        let client_certificate = match &self.client_certificate {
            Some(c) => Some(c),
            None => None,
        };
        Forwarding::Forward {
            headers,
            peer: UpstreamPeer {
                address: &self.proxy_address,
                tls: self.tls,
                server_name: self.server_name.as_str(),
                client_certificate,
            },
        }
    }
}

} // verus!
