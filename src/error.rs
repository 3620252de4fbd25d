use vstd::prelude::*;

verus! {

/// Every way in which a request, or the loading of configuration, can fail.
///
/// The per-request kinds reject only the offending request; the others are
/// raised at startup and stop the process from serving.
#[derive(Clone, Debug, PartialEq, Eq)]
pub enum ErrorKind {
    /// The request carried no key header.
    MissingCredential,
    /// The key header was not valid URL-safe base64, or named no known key.
    InvalidCredential,
    /// The first path segment, held here, names no route; or the path, held
    /// here whole, has no segment.
    UnknownRoute(String),
    /// The route's host and port resolved to no usable address.
    AddressResolutionFailure,
    /// A request to be forwarded already carried a key header.
    ExistingCredentialHeader,
    /// A configuration file could not be read.
    ConfigReadFailure,
    /// No key was configured in the environment.
    MissingCredentialConfig,
    /// The certificate chain or private key could not be loaded.
    CertificateLoadFailure,
}

impl ErrorKind {
    /// Whether the runtime answers this rejection with an authorization-denied
    /// status; the other per-request kinds are answered as a refused
    /// connection to the upstream.
    pub fn is_authorization_failure(&self) -> (r: bool)
        ensures
            r == (self is MissingCredential || self is InvalidCredential),
    {
        match self {
            ErrorKind::MissingCredential => true,
            ErrorKind::InvalidCredential => true,
            _ => false,
        }
    }
}

} // verus!
