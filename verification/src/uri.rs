//! The connection URI: `siodb://`, `siodbs://` and `siodbu:`, with the
//! options `identity_file` and `trace`.

use vstd::prelude::*;
use crate::errors::DriverError;
use crate::errors::ErrorKind;

verus! {

/// How the server is reached.
#[derive(Clone, Copy, Debug, PartialEq, Eq, Structural)]
pub enum Scheme {
    /// `siodb`: TCP, in the clear.
    PlainTcp,
    /// `siodbs`: TLS over TCP.
    TlsTcp,
    /// `siodbu`: a Unix domain socket.
    UnixSocket,
}

/// What a URI is made of, as far as the driver reads it.
#[derive(Clone, Debug, PartialEq, Eq)]
pub struct UriParts {
    pub scheme: String,
    /// The user name; empty where the URI has none.
    pub username: String,
    pub host: Option<String>,
    pub port: Option<u16>,
    /// The pairs of the query, decoded, in the order of the URI.
    pub options: Vec<(String, String)>,
    /// The path of the URI as this machine's file system spells it, where
    /// it is the path of a file.
    pub file_path: Option<String>,
}

/// [`UriParts`] as contracts speak of it, but for the file path, which is
/// spoken of apart: it alone depends on the machine.
pub struct UriPartsView {
    pub scheme: Seq<char>,
    pub username: Seq<char>,
    pub host: Option<Seq<char>>,
    pub port: Option<u16>,
    pub options: Seq<(Seq<char>, Seq<char>)>,
}

impl View for UriParts {
    type V = UriPartsView;

    open spec fn view(&self) -> UriPartsView {
        UriPartsView {
            scheme: self.scheme@,
            username: self.username@,
            host: match self.host {
                Some(h) => Some(h@),
                None => None,
            },
            port: self.port,
            options: self.options.deep_view(),
        }
    }
}

/// Where and as whom to connect: what a connection is made from.
#[derive(Clone, Debug, PartialEq, Eq)]
pub struct UriDescriptor {
    pub scheme: Scheme,
    /// The host name; for a Unix socket, the path of the socket.
    pub host: String,
    pub port: u16,
    pub user: String,
    /// The path of the PEM file that holds the user's RSA private key.
    pub pkfile: String,
    pub trace: bool,
}

/// [`UriDescriptor`] as contracts speak of it.
pub struct UriView {
    pub scheme: Scheme,
    pub host: Seq<char>,
    pub port: u16,
    pub user: Seq<char>,
    pub pkfile: Seq<char>,
    pub trace: bool,
}

impl View for UriDescriptor {
    type V = UriView;

    open spec fn view(&self) -> UriView {
        UriView {
            scheme: self.scheme,
            host: self.host@,
            port: self.port,
            user: self.user@,
            pkfile: self.pkfile@,
            trace: self.trace,
        }
    }
}

/// The port of a URI that names none.
pub const DEFAULT_PORT: u16 = 50000;

/// The identity file and the trace flag after the first `k` options, or
/// `None` where one of them is unknown. A later option overrides an earlier
/// one; a `trace` that is neither `true` nor `false` changes nothing.
pub open spec fn options_after(options: Seq<(Seq<char>, Seq<char>)>, k: nat) -> Option<
    (Seq<char>, bool),
>
    decreases k,
{
    if k == 0 {
        Some(("~/.ssh/id_rsa"@, false))
    } else {
        match options_after(options, (k - 1) as nat) {
            Some((pkfile, trace)) => {
                let (name, value) = options[k - 1];
                if name == "identity_file"@ {
                    Some((value, trace))
                } else if name == "trace"@ {
                    if value == "true"@ {
                        Some((pkfile, true))
                    } else if value == "false"@ {
                        Some((pkfile, false))
                    } else {
                        Some((pkfile, trace))
                    }
                } else {
                    None
                }
            },
            None => None,
        }
    }
}

/// The transport that a scheme names; TLS where the scheme is empty.
pub open spec fn scheme_of(scheme: Seq<char>) -> Option<Scheme> {
    if scheme.len() == 0 || scheme == "siodbs"@ {
        Some(Scheme::TlsTcp)
    } else if scheme == "siodb"@ {
        Some(Scheme::PlainTcp)
    } else if scheme == "siodbu"@ {
        Some(Scheme::UnixSocket)
    } else {
        None
    }
}

/// The descriptor of a URI made of `parts`, whose path as a file is `path`;
/// `None` where the URI cannot be used: an unknown option, an unknown
/// scheme, a Unix socket without a path.
pub open spec fn descriptor(parts: UriPartsView, path: Option<Seq<char>>) -> Option<UriView> {
    match (options_after(parts.options, parts.options.len()), scheme_of(parts.scheme)) {
        (Some((pkfile, trace)), Some(scheme)) => {
            if scheme == Scheme::UnixSocket && path is None {
                None
            } else {
                Some(
                    UriView {
                        scheme,
                        host: if scheme == Scheme::UnixSocket {
                            path->0
                        } else if parts.host is Some {
                            parts.host->0
                        } else {
                            "localhost"@
                        },
                        port: if parts.port is Some {
                            parts.port->0
                        } else {
                            DEFAULT_PORT
                        },
                        user: if parts.username.len() > 0 {
                            parts.username
                        } else {
                            "root"@
                        },
                        pkfile,
                        trace,
                    },
                )
            }
        },
        _ => None,
    }
}

/// Whether `r` is the descriptor `d`, or a configuration error where there
/// is none.
pub open spec fn is_descriptor(r: Result<UriDescriptor, DriverError>, d: Option<UriView>) -> bool {
    match d {
        Some(v) => r matches Ok(u) && u@ == v,
        None => r matches Err(e) && e.kind == ErrorKind::Config,
    }
}

/// What the `url` crate makes of a URI: `None` where it is none, else its
/// scheme, user name, host, port and query pairs.
pub uninterp spec fn uri_parts(uri: Seq<char>) -> Option<UriPartsView>;

/// Whether `r` is `v`.
pub open spec fn is_parts(r: Option<UriParts>, v: Option<UriPartsView>) -> bool {
    match v {
        Some(parts) => r matches Some(p) && p@ == parts,
        None => r is None,
    }
}

/// `url::Url::parse`, then `Url::scheme`, `Url::username`, `Url::host`
/// (written out by its `Display`), `Url::port`, `Url::query_pairs` and
/// `Url::to_file_path` on the URL it gave. The contract claims only that the
/// outcome, but for the file path, depends on the text alone. Of the file
/// path nothing is claimed: what a file path is differs from one operating
/// system to the next. None of them panics.
#[verifier::external_body]
fn split_uri(uri: &str) -> (r: Option<UriParts>)
    ensures
        is_parts(r, uri_parts(uri@)),
{
    let url = url::Url::parse(uri).ok()?;
    Some(
        UriParts {
            scheme: url.scheme().to_string(),
            username: url.username().to_string(),
            host: url.host().map(|h| h.to_string()),
            port: url.port(),
            options: url.query_pairs().map(|(k, v)| (k.into_owned(), v.into_owned())).collect(),
            file_path: url.to_file_path().ok().and_then(|p| p.into_os_string().into_string().ok()),
        },
    )
}

/// The identity file and the trace flag that the options set.
fn read_options(options: &Vec<(String, String)>) -> (r: Option<(String, bool)>)
    ensures
        match options_after(options.deep_view(), options@.len()) {
            Some((pkfile, trace)) => r matches Some((p, t)) && p@ == pkfile && t == trace,
            None => r is None,
        },
{
    let mut pkfile: String = "~/.ssh/id_rsa".to_owned();
    let mut trace: bool = false;
    let mut i: usize = 0;
    while i < options.len()
        invariant
            i <= options.len(),
            options_after(options.deep_view(), i as nat) == Some((pkfile@, trace)),
        decreases options.len() - i,
    {
        let name = &options[i].0;
        let value = &options[i].1;
        assert(options.deep_view()[i as int] == (name@, value@));
        if *name == "identity_file".to_owned() {
            pkfile = value.clone();
        } else if *name == "trace".to_owned() {
            if *value == "true".to_owned() {
                trace = true;
            } else if *value == "false".to_owned() {
                trace = false;
            }
        } else {
            proof {
                lemma_options_stay_refused(
                    options.deep_view(),
                    (i + 1) as nat,
                    options@.len(),
                );
            }
            return None;
        }
        i += 1;
    }
    Some((pkfile, trace))
}

/// Once an option is unknown, the options are refused, whatever follows.
proof fn lemma_options_stay_refused(options: Seq<(Seq<char>, Seq<char>)>, j: nat, k: nat)
    requires
        j <= k,
        options_after(options, j) is None,
    ensures
        options_after(options, k) is None,
    decreases k,
{
    if j < k {
        lemma_options_stay_refused(options, j, (k - 1) as nat);
    }
}

/// The transport that a scheme names.
fn read_scheme(scheme: &String) -> (r: Option<Scheme>)
    ensures
        r == scheme_of(scheme@),
{
    if scheme.as_str().is_empty() || *scheme == "siodbs".to_owned() {
        Some(Scheme::TlsTcp)
    } else if *scheme == "siodb".to_owned() {
        Some(Scheme::PlainTcp)
    } else if *scheme == "siodbu".to_owned() {
        Some(Scheme::UnixSocket)
    } else {
        None
    }
}

impl UriDescriptor {
    /// The descriptor of a URI made of `parts`. An unknown option, an
    /// unknown scheme and a Unix socket without a file path are
    /// configuration errors.
    pub fn from_parts(parts: UriParts) -> (r: Result<UriDescriptor, DriverError>)
        ensures
            is_descriptor(r, descriptor(parts@, parts.file_path.deep_view())),
    {
        let (pkfile, trace) = match read_options(&parts.options) {
            Some(found) => found,
            None => {
                return Err(DriverError::with_kind(ErrorKind::Config, "Unknown option."));
            },
        };
        let scheme = match read_scheme(&parts.scheme) {
            Some(scheme) => scheme,
            None => {
                return Err(
                    DriverError::with_kind(
                        ErrorKind::Config,
                        "Wrong protocol. Should be 'siodb', 'siodbs' or 'siodbu'.",
                    ),
                );
            },
        };
        let host: String = match scheme {
            Scheme::UnixSocket => match parts.file_path {
                Some(p) => p,
                None => {
                    return Err(
                        DriverError::with_kind(ErrorKind::Config, "No path to the socket."),
                    );
                },
            },
            _ => match parts.host {
                Some(h) => h,
                None => "localhost".to_owned(),
            },
        };
        let port: u16 = match parts.port {
            Some(p) => p,
            None => DEFAULT_PORT,
        };
        let user: String = if !parts.username.as_str().is_empty() {
            parts.username
        } else {
            "root".to_owned()
        };
        Ok(UriDescriptor { scheme, host, port, user, pkfile, trace })
    }
}

/// What [`parse_uri`] may give for a URI.
pub open spec fn parse_uri_gives(uri: Seq<char>, r: Result<UriDescriptor, DriverError>) -> bool {
    match uri_parts(uri) {
        None => r matches Err(e) && e.kind == ErrorKind::Config,
        Some(parts) => if scheme_of(parts.scheme) == Some(Scheme::UnixSocket) {
            exists|path: Option<Seq<char>>| is_descriptor(r, descriptor(parts, path))
        } else {
            is_descriptor(r, descriptor(parts, None))
        },
    }
}

/// Reads a connection URI. Text that is no URI is a configuration error, as
/// is whatever [`UriDescriptor::from_parts`] refuses. For the two network
/// schemes the descriptor is that of the URI's parts; for a Unix socket the
/// host is the URI's path as this machine's file system spells it.
pub fn parse_uri(uri_str: &str) -> (r: Result<UriDescriptor, DriverError>)
    ensures
        parse_uri_gives(uri_str@, r),
{
    match split_uri(uri_str) {
        None => Err(DriverError::with_kind(ErrorKind::Config, "Unable to parse URI")),
        Some(parts) => {
            let r = UriDescriptor::from_parts(parts);
            proof {
                let path = parts.file_path.deep_view();
                assert(is_descriptor(r, descriptor(parts@, path)));
                if scheme_of(parts@.scheme) != Some(Scheme::UnixSocket) {
                    assert(descriptor(parts@, path) == descriptor(parts@, None));
                }
            }
            r
        },
    }
}

} // verus!
