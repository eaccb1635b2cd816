//! JSON-RPC 2.0 envelopes, and the structural rule that tells them apart.

use crate::error::ResponseError;
use crate::types::Id;
use vstd::prelude::*;

verus! {

/// The protocol version every envelope carries.
pub open spec fn version() -> Seq<char> {
    "2.0"@
}

fn version_string() -> (r: String)
    ensures
        r@ == version(),
{
    "2.0".to_owned()
}

/// The part shared by every envelope.
#[derive(Debug, Clone)]
pub struct Message {
    pub jsonrpc: String,
}

impl Default for Message {
    fn default() -> (r: Self)
        ensures
            r.jsonrpc@ == version(),
    {
        Message { jsonrpc: version_string() }
    }
}

/// A call that expects a response.
#[derive(Debug, Clone)]
pub struct RequestMessage {
    pub jsonrpc: String,
    pub id: Id,
    pub method: String,
    pub params: Option<serde_json::Value>,
}

impl RequestMessage {
    pub fn new(id: Id, method: &str) -> (r: Self)
        ensures
            r.jsonrpc@ == version(),
            r.id == id,
            r.method@ == method@,
            r.params is None,
    {
        RequestMessage { jsonrpc: version_string(), id, method: method.to_owned(), params: None }
    }

    pub fn with_params(id: Id, method: &str, params: serde_json::Value) -> (r: Self)
        ensures
            r.jsonrpc@ == version(),
            r.id == id,
            r.method@ == method@,
            r.params == Some(params),
    {
        RequestMessage {
            jsonrpc: version_string(),
            id,
            method: method.to_owned(),
            params: Some(params),
        }
    }
}

/// The answer to a request: a result or an error.
#[derive(Debug, Clone)]
pub struct ResponseMessage {
    pub jsonrpc: String,
    pub id: Option<Id>,
    pub result: Option<serde_json::Value>,
    pub error: Option<ResponseError>,
}

impl ResponseMessage {
    /// A successful response to request `id`.
    pub fn success(id: Id, result: serde_json::Value) -> (r: Self)
        ensures
            r.jsonrpc@ == version(),
            r.id == Some(id),
            r.result == Some(result),
            r.error is None,
    {
        ResponseMessage { jsonrpc: version_string(), id: Some(id), result: Some(result), error: None }
    }

    /// A failed response, to request `id` if it is known.
    pub fn error(id: Option<Id>, error: ResponseError) -> (r: Self)
        ensures
            r.jsonrpc@ == version(),
            r.id == id,
            r.result is None,
            r.error == Some(error),
    {
        ResponseMessage { jsonrpc: version_string(), id, result: None, error: Some(error) }
    }

    pub fn is_error(&self) -> (r: bool)
        ensures
            r == self.error is Some,
    {
        self.error.is_some()
    }

    pub fn get_error(&self) -> (r: Option<&ResponseError>)
        ensures
            match self.error {
                Some(e) => r == Some(&e),
                None => r is None,
            },
    {
        match &self.error {
            Some(e) => Some(e),
            None => None,
        }
    }
}

/// A call that expects no response.
#[derive(Debug, Clone)]
pub struct NotificationMessage {
    pub jsonrpc: String,
    pub method: String,
    pub params: Option<serde_json::Value>,
}

impl NotificationMessage {
    pub fn new(method: &str) -> (r: Self)
        ensures
            r.jsonrpc@ == version(),
            r.method@ == method@,
            r.params is None,
    {
        NotificationMessage { jsonrpc: version_string(), method: method.to_owned(), params: None }
    }

    pub fn with_params(method: &str, params: serde_json::Value) -> (r: Self)
        ensures
            r.jsonrpc@ == version(),
            r.method@ == method@,
            r.params == Some(params),
    {
        NotificationMessage {
            jsonrpc: version_string(),
            method: method.to_owned(),
            params: Some(params),
        }
    }
}

/// Any JSON-RPC message.
#[derive(Debug, Clone)]
pub enum RpcMessage {
    Request(RequestMessage),
    Notification(NotificationMessage),
    Response(ResponseMessage),
}

impl RpcMessage {
    pub fn is_request(&self) -> (r: bool)
        ensures
            r == self is Request,
    {
        matches!(self, RpcMessage::Request(_))
    }

    pub fn is_response(&self) -> (r: bool)
        ensures
            r == self is Response,
    {
        matches!(self, RpcMessage::Response(_))
    }

    pub fn is_notification(&self) -> (r: bool)
        ensures
            r == self is Notification,
    {
        matches!(self, RpcMessage::Notification(_))
    }

    /// The method of a request or notification.
    pub fn method(&self) -> (r: Option<&str>)
        ensures
            match self {
                RpcMessage::Request(q) => r matches Some(m) && m@ == q.method@,
                RpcMessage::Notification(n) => r matches Some(m) && m@ == n.method@,
                RpcMessage::Response(_) => r is None,
            },
    {
        match self {
            RpcMessage::Request(q) => Some(q.method.as_str()),
            RpcMessage::Notification(n) => Some(n.method.as_str()),
            RpcMessage::Response(_) => None,
        }
    }

    /// The identifier of a request, or of a response that has one.
    pub fn id(&self) -> (r: Option<&Id>)
        ensures
            match self {
                RpcMessage::Request(q) => r == Some(&q.id),
                RpcMessage::Response(p) => match p.id {
                    Some(i) => r == Some(&i),
                    None => r is None,
                },
                RpcMessage::Notification(_) => r is None,
            },
    {
        match self {
            RpcMessage::Request(q) => Some(&q.id),
            RpcMessage::Response(p) => match &p.id {
                Some(i) => Some(i),
                None => None,
            },
            RpcMessage::Notification(_) => None,
        }
    }
}

/// Parameters of the `$/cancelRequest` notification.
#[derive(Debug, Clone)]
pub struct CancelParams {
    pub id: Id,
}

/// Parameters of the `$/progress` notification.
#[derive(Debug, Clone)]
pub struct ProgressParams<T> {
    pub token: Id,
    pub value: T,
}

/// The three shapes a decoded JSON-RPC object can have.
#[derive(Debug, Clone, Copy, PartialEq, Eq)]
pub enum MessageKind {
    Request,
    Notification,
    Response,
}

/// The shape of an object from the fields it has: an `id` and a `method` make a
/// request, a `method` alone a notification, anything else a response.
pub open spec fn kind_of(has_id: bool, has_method: bool) -> MessageKind {
    if has_id && has_method {
        MessageKind::Request
    } else if has_method {
        MessageKind::Notification
    } else {
        MessageKind::Response
    }
}

pub open spec fn has_field(keys: Seq<Seq<char>>, name: Seq<char>) -> bool {
    exists|i: int| 0 <= i < keys.len() && keys[i] == name
}

/// The shape of an object whose field names are `keys`.
pub open spec fn kind_of_fields(keys: Seq<Seq<char>>) -> MessageKind {
    kind_of(has_field(keys, "id"@), has_field(keys, "method"@))
}

pub fn classify(has_id: bool, has_method: bool) -> (r: MessageKind)
    ensures
        r == kind_of(has_id, has_method),
{
    if has_id && has_method {
        MessageKind::Request
    } else if has_method {
        MessageKind::Notification
    } else {
        MessageKind::Response
    }
}

fn contains_key(keys: &Vec<String>, name: &str) -> (r: bool)
    ensures
        r == has_field(keys@.map_values(|k: String| k@), name@),
{
    let ghost ks = keys@.map_values(|k: String| k@);
    let target = name.to_owned();
    let mut i: usize = 0;
    while i < keys.len()
        invariant
            target@ == name@,
            ks == keys@.map_values(|k: String| k@),
            i <= keys@.len(),
            forall|j: int| 0 <= j < i ==> ks[j] != name@,
        decreases keys@.len() - i,
    {
        if keys[i] == target {
            assert(ks[i as int] == name@);
            return true;
        }
        i = i + 1;
    }
    false
}

/// Classifies a decoded object by the names of its fields.
pub fn classify_fields(keys: &Vec<String>) -> (r: MessageKind)
    ensures
        r == kind_of_fields(keys@.map_values(|k: String| k@)),
{
    let has_id = contains_key(keys, "id");
    let has_method = contains_key(keys, "method");
    classify(has_id, has_method)
}

/// An object with both an `id` and a `method` is a request, in whatever order
/// its fields come: two objects with the same field names have the same shape.
pub proof fn lemma_request_priority(keys: Seq<Seq<char>>, other: Seq<Seq<char>>)
    requires
        keys.to_set() == other.to_set(),
    ensures
        kind_of_fields(keys) == kind_of_fields(other),
        has_field(keys, "id"@) && has_field(keys, "method"@) ==> kind_of_fields(keys)
            == MessageKind::Request,
{
    assert forall|name: Seq<char>| has_field(keys, name) == has_field(other, name) by {
        if has_field(keys, name) {
            let i = choose|i: int| 0 <= i < keys.len() && keys[i] == name;
            assert(keys.to_set().contains(keys[i]));
            assert(other.to_set().contains(name));
        }
        if has_field(other, name) {
            let i = choose|i: int| 0 <= i < other.len() && other[i] == name;
            assert(other.to_set().contains(other[i]));
            assert(keys.to_set().contains(name));
        }
    }
}

} // verus!
