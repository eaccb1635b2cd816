//! Identifiers and the records exchanged over the protocol.

use crate::text::{int_to_string, signed_decimal};
use vstd::prelude::*;
use vstd::std_specs::cmp::PartialEqSpec;

pub mod initialization;
pub mod jsonrpc;
pub mod lsp;

pub use initialization::{
    ClientCapabilities, ClientInfo, InitializeParams, InitializeResult, ServerCapabilities,
    ServerInfo,
};
pub use jsonrpc::{
    CancelParams, MessageKind, NotificationMessage, ProgressParams, RequestMessage,
    ResponseMessage, RpcMessage,
};
pub use lsp::{
    Diagnostic, DiagnosticCode, DiagnosticSeverity, DiagnosticTag, DocumentUri, Location,
    OneOf, Position, ProgressToken, Range, TextDocumentIdentifier, TextEdit, Uri,
    VersionedTextDocumentIdentifier,
};

verus! {

/// A request identifier: a number or a string. A number and a string are
/// never the same identifier, whatever their text.
#[derive(Debug, Clone, Hash)]
pub enum Id {
    Number(i64),
    String(String),
}

/// The abstract value of an [`Id`].
pub enum IdView {
    Number(i64),
    Text(Seq<char>),
}

impl View for Id {
    type V = IdView;

    open spec fn view(&self) -> IdView {
        match self {
            Id::Number(n) => IdView::Number(*n),
            Id::String(s) => IdView::Text(s@),
        }
    }
}

impl PartialEq for Id {
    fn eq(&self, other: &Id) -> (r: bool) {
        match (self, other) {
            (Id::Number(a), Id::Number(b)) => *a == *b,
            (Id::String(a), Id::String(b)) => *a == *b,
            _ => false,
        }
    }
}

impl vstd::std_specs::cmp::PartialEqSpecImpl for Id {
    open spec fn obeys_eq_spec() -> bool {
        true
    }

    open spec fn eq_spec(&self, other: &Id) -> bool {
        self@ == other@
    }
}

impl Eq for Id {
}

impl From<i64> for Id {
    fn from(value: i64) -> (r: Id) {
        Id::Number(value)
    }
}

impl vstd::std_specs::convert::FromSpecImpl<i64> for Id {
    open spec fn obeys_from_spec() -> bool {
        true
    }

    open spec fn from_spec(v: i64) -> Id {
        Id::Number(v)
    }
}

impl From<String> for Id {
    fn from(value: String) -> (r: Id) {
        Id::String(value)
    }
}

impl vstd::std_specs::convert::FromSpecImpl<String> for Id {
    open spec fn obeys_from_spec() -> bool {
        true
    }

    open spec fn from_spec(v: String) -> Id {
        Id::String(v)
    }
}

impl Id {
    /// A string identifier with the text `value`.
    pub fn from_text(value: &str) -> (r: Id)
        ensures
            r@ == IdView::Text(value@),
    {
        Id::String(value.to_owned())
    }
}

/// How an identifier is written in messages meant for people.
pub open spec fn id_text(id: IdView) -> Seq<char> {
    match id {
        IdView::Number(n) => signed_decimal(n as int),
        IdView::Text(s) => s,
    }
}

impl Id {
    /// A copy of this identifier.
    pub fn duplicate(&self) -> (r: Id)
        ensures
            r@ == self@,
    {
        match self {
            Id::Number(n) => Id::Number(*n),
            Id::String(s) => Id::String(s.clone()),
        }
    }

    /// The identifier as text: a number in decimal, a string as it is.
    pub fn to_string(&self) -> (r: String)
        ensures
            r@ == id_text(self@),
    {
        match self {
            Id::Number(n) => int_to_string(*n),
            Id::String(s) => s.clone(),
        }
    }
}

/// A number identifier and a string identifier differ even when the string is
/// the number's own decimal text.
pub proof fn lemma_number_id_differs_from_its_text(n: i64, s: String)
    requires
        s@ == id_text(IdView::Number(n)),
    ensures
        Id::Number(n)@ != Id::String(s)@,
        !Id::Number(n).eq_spec(&Id::String(s)),
        id_text(Id::Number(n)@) == id_text(Id::String(s)@),
{
}

} // verus!
