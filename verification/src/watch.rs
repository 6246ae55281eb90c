//! Custom resources as a list or a watch delivers them, the requests that
//! ask for them, and a cache of the latest state of each by name.

#![allow(non_snake_case)]

use vstd::prelude::*;
use vstd::string::*;

verus! {

/// The text that `url::form_urlencoded` makes of one name or value: what
/// `byte_serialize` yields for its bytes, put together.
pub uninterp spec fn form_encoded(s: Seq<char>) -> Seq<char>;

/// Where the resources of one kind live.
#[derive(Clone, Debug, PartialEq, Eq)]
pub struct Resource {
    /// API Resource name
    pub resource: String,
    /// API Group
    pub group: String,
    /// Namespace the resources reside
    pub namespace: String,
}

/// A request to the cluster, ready to be sent.
#[derive(Clone, Debug, PartialEq, Eq)]
pub struct ApiRequest {
    pub method: String,
    pub uri: String,
    pub body: Vec<u8>,
}

/// Something that goes by a name.
pub trait Named {
    /// The name.
    spec fn named(&self) -> Seq<char>;

    /// Gives the name.
    fn name(&self) -> (r: String)
        ensures
            r@ == self.named(),
    ;
}

/// What the cluster says when a call fails.
#[derive(Debug, PartialEq, Eq, Clone)]
pub struct ApiError {
    pub status: String,
    pub message: Option<String>,
    pub reason: Option<String>,
    pub code: u16,
}

/// One event of a watch.
#[derive(Debug)]
pub enum WatchEvent<T> {
    Added(T),
    Modified(T),
    Deleted(T),
    Error(ApiError),
}

/// The metadata that a cache needs of a resource.
#[derive(Clone, Debug, Default, PartialEq, Eq)]
pub struct Metadata {
    pub name: String,
    pub annotations: Vec<(String, String)>,
    pub resourceVersion: String,
}

/// A custom resource with its spec.
#[derive(Debug, Clone)]
pub struct Crd<T> {
    pub apiVersion: String,
    pub kind: String,
    pub metadata: Metadata,
    pub spec: T,
}

/// A list of resources as the cluster returns it.
pub struct CrdList<T> {
    pub apiVersion: String,
    pub kind: String,
    pub metadata: Metadata,
    pub items: Vec<T>,
}

/// The path under which the resources of `r` are listed, with the question
/// mark that starts the query.
pub open spec fn collection_path(r: Resource) -> Seq<char> {
    "/apis/"@ + r.group@ + "/v1/namespaces/"@ + r.namespace@ + "/"@ + r.resource@ + "?"@
}

/// `target` with one more pair of a query: an ampersand where `target` is
/// not empty, then the encoded name, an equals sign and the encoded value.
pub open spec fn with_pair(target: Seq<char>, name: Seq<char>, value: Seq<char>) -> Seq<char> {
    target + (if target.len() > 0 {
        seq!['&']
    } else {
        Seq::<char>::empty()
    }) + form_encoded(name) + seq!['='] + form_encoded(value)
}

/// The address that watches the resources of `r` from the version `ver` on.
pub open spec fn watch_uri(r: Resource, ver: Seq<char>) -> Seq<char> {
    with_pair(
        with_pair(with_pair(collection_path(r), "timeoutSeconds"@, "10"@), "watch"@, "true"@),
        "resourceVersion"@,
        ver,
    )
}

/// Appends one pair to a query: hands `target` to
/// `url::form_urlencoded::Serializer::new`, calls `append_pair` and takes
/// the string back with `finish`. A serializer made by `new` counts the
/// whole of `target` as query, so the pair is set off by an ampersand
/// whenever `target` is not empty; name and value are encoded as
/// `form_encoded` says.
#[verifier::external_body]
fn append_query_pair(target: String, name: &str, value: &str) -> (r: String)
    ensures
        r@ == target@ + (if target@.len() > 0 {
            seq!['&']
        } else {
            Seq::<char>::empty()
        }) + form_encoded(name@) + seq!['='] + form_encoded(value@),
{
    url::form_urlencoded::Serializer::new(target).append_pair(name, value).finish()
}

fn collection_path_of(r: &Resource) -> (s: String)
    ensures
        s@ == collection_path(*r),
{
    let mut s = String::from_str("/apis/");
    s.append(r.group.as_str());
    s.append("/v1/namespaces/");
    s.append(r.namespace.as_str());
    s.append("/");
    s.append(r.resource.as_str());
    s.append("?");
    s
}

/// The request that lists all resources of `r`: a `GET` of their path,
/// without query and without body.
pub fn list_all_crd_entries(r: &Resource) -> (req: ApiRequest)
    ensures
        req.method@ == "GET"@,
        req.uri@ == collection_path(*r),
        req.body@.len() == 0,
{
    ApiRequest { method: String::from_str("GET"), uri: collection_path_of(r), body: Vec::new() }
}

/// The request that watches the resources of `r` from the version `ver`
/// on, for ten seconds: a `GET` without body.
pub fn watch_crd_entries_after(r: &Resource, ver: &str) -> (req: ApiRequest)
    ensures
        req.method@ == "GET"@,
        req.uri@ == watch_uri(*r, ver@),
        req.body@.len() == 0,
{
    let path = collection_path_of(r);
    let q1 = append_query_pair(path, "timeoutSeconds", "10");
    let q2 = append_query_pair(q1, "watch", "true");
    let q3 = append_query_pair(q2, "resourceVersion", ver);
    ApiRequest { method: String::from_str("GET"), uri: q3, body: Vec::new() }
}

} // verus!
