//! Records of the initialize handshake: what the client and the server can do.

use vstd::prelude::*;

verus! {

/// What the client can do.
#[derive(Debug, Clone, PartialEq)]
pub struct ClientCapabilities {
    pub workspace: Option<WorkspaceClientCapabilities>,
    pub text_document: Option<TextDocumentClientCapabilities>,
    pub notebook_document: Option<NotebookDocumentClientCapabilities>,
    pub window: Option<WindowClientCapabilities>,
    pub general: Option<GeneralClientCapabilities>,
    pub experimental: Option<serde_json::Value>,
}

impl Default for ClientCapabilities {
    fn default() -> (r: Self)
        ensures
            r.workspace is Some,
            r.text_document is Some,
            r.notebook_document is None,
            r.window is Some,
            r.general is Some,
            r.experimental is None,
    {
        ClientCapabilities {
            workspace: Some(WorkspaceClientCapabilities::default()),
            text_document: Some(TextDocumentClientCapabilities::default()),
            notebook_document: None,
            window: Some(WindowClientCapabilities::default()),
            general: Some(GeneralClientCapabilities::default()),
            experimental: None,
        }
    }
}

/// Workspace features of the client.
#[derive(Debug, Clone, PartialEq)]
pub struct WorkspaceClientCapabilities {
    pub apply_edit: Option<bool>,
    pub workspace_edit: Option<WorkspaceEditClientCapabilities>,
    pub did_change_configuration: Option<DidChangeConfigurationClientCapabilities>,
    pub did_change_watched_files: Option<DidChangeWatchedFilesClientCapabilities>,
    pub symbol: Option<WorkspaceSymbolClientCapabilities>,
    pub execute_command: Option<ExecuteCommandClientCapabilities>,
    pub workspace_folders: Option<bool>,
    pub configuration: Option<bool>,
}

impl Default for WorkspaceClientCapabilities {
    fn default() -> (r: Self)
        ensures
            r.apply_edit == Some(true),
            r.workspace_edit is Some,
            r.did_change_configuration == Some(
                DidChangeConfigurationClientCapabilities { dynamic_registration: Some(false) },
            ),
            r.did_change_watched_files == Some(
                DidChangeWatchedFilesClientCapabilities { dynamic_registration: Some(false) },
            ),
            r.symbol is None,
            r.execute_command == Some(
                ExecuteCommandClientCapabilities { dynamic_registration: Some(false) },
            ),
            r.workspace_folders == Some(true),
            r.configuration == Some(true),
    {
        WorkspaceClientCapabilities {
            apply_edit: Some(true),
            workspace_edit: Some(WorkspaceEditClientCapabilities::default()),
            did_change_configuration: Some(
                DidChangeConfigurationClientCapabilities { dynamic_registration: Some(false) },
            ),
            did_change_watched_files: Some(
                DidChangeWatchedFilesClientCapabilities { dynamic_registration: Some(false) },
            ),
            symbol: None,
            execute_command: Some(
                ExecuteCommandClientCapabilities { dynamic_registration: Some(false) },
            ),
            workspace_folders: Some(true),
            configuration: Some(true),
        }
    }
}

/// Workspace edit features of the client.
#[derive(Debug, Clone, PartialEq)]
pub struct WorkspaceEditClientCapabilities {
    pub document_changes: Option<bool>,
    pub resource_operations: Option<Vec<ResourceOperationKind>>,
    pub failure_handling: Option<FailureHandlingKind>,
    pub normalizes_line_endings: Option<bool>,
    pub change_annotation_support: Option<ChangeAnnotationsSupportOptions>,
}

impl Default for WorkspaceEditClientCapabilities {
    fn default() -> (r: Self)
        ensures
            r.document_changes == Some(true),
            r.resource_operations matches Some(v) && v@ == seq![
                ResourceOperationKind::Create,
                ResourceOperationKind::Rename,
                ResourceOperationKind::Delete,
            ],
            r.failure_handling == Some(FailureHandlingKind::Transactional),
            r.normalizes_line_endings == Some(false),
            r.change_annotation_support is None,
    {
        let mut kinds: Vec<ResourceOperationKind> = Vec::new();
        kinds.push(ResourceOperationKind::Create);
        kinds.push(ResourceOperationKind::Rename);
        kinds.push(ResourceOperationKind::Delete);
        assert(kinds@ =~= seq![
            ResourceOperationKind::Create,
            ResourceOperationKind::Rename,
            ResourceOperationKind::Delete,
        ]);
        WorkspaceEditClientCapabilities {
            document_changes: Some(true),
            resource_operations: Some(kinds),
            failure_handling: Some(FailureHandlingKind::Transactional),
            normalizes_line_endings: Some(false),
            change_annotation_support: None,
        }
    }
}

/// File operations a client can apply.
#[derive(Debug, Clone, Copy, PartialEq, Eq, Hash, Structural)]
pub enum ResourceOperationKind {
    Create,
    Rename,
    Delete,
}

/// How a client handles a workspace edit that fails part way.
#[derive(Debug, Clone, Copy, PartialEq, Eq, Hash, Structural)]
pub enum FailureHandlingKind {
    Abort,
    Transactional,
    TextOnlyTransactional,
    Undo,
}

#[derive(Debug, Clone, PartialEq)]
pub struct ChangeAnnotationsSupportOptions {
    pub groups_on_label: Option<bool>,
}

#[derive(Debug, Clone, PartialEq)]
pub struct DidChangeConfigurationClientCapabilities {
    pub dynamic_registration: Option<bool>,
}

#[derive(Debug, Clone, PartialEq)]
pub struct DidChangeWatchedFilesClientCapabilities {
    pub dynamic_registration: Option<bool>,
}

#[derive(Debug, Clone, PartialEq)]
pub struct WorkspaceSymbolClientCapabilities {
    pub dynamic_registration: Option<bool>,
}

#[derive(Debug, Clone, PartialEq)]
pub struct ExecuteCommandClientCapabilities {
    pub dynamic_registration: Option<bool>,
}

/// Document features of the client.
#[derive(Debug, Clone, PartialEq)]
pub struct TextDocumentClientCapabilities {
    pub synchronization: Option<TextDocumentSyncClientCapabilities>,
    pub completion: Option<CompletionClientCapabilities>,
    pub hover: Option<HoverClientCapabilities>,
}

impl Default for TextDocumentClientCapabilities {
    fn default() -> (r: Self)
        ensures
            r.synchronization is Some,
            r.completion is Some,
            r.hover is Some,
    {
        TextDocumentClientCapabilities {
            synchronization: Some(TextDocumentSyncClientCapabilities::default()),
            completion: Some(CompletionClientCapabilities::default()),
            hover: Some(HoverClientCapabilities::default()),
        }
    }
}

#[derive(Debug, Clone, PartialEq)]
pub struct TextDocumentSyncClientCapabilities {
    pub dynamic_registration: Option<bool>,
    pub will_save: Option<bool>,
    pub will_save_wait_until: Option<bool>,
    pub did_save: Option<bool>,
}

impl Default for TextDocumentSyncClientCapabilities {
    fn default() -> (r: Self)
        ensures
            r.dynamic_registration == Some(false),
            r.will_save == Some(true),
            r.will_save_wait_until == Some(true),
            r.did_save == Some(true),
    {
        TextDocumentSyncClientCapabilities {
            dynamic_registration: Some(false),
            will_save: Some(true),
            will_save_wait_until: Some(true),
            did_save: Some(true),
        }
    }
}

#[derive(Debug, Clone, PartialEq)]
pub struct CompletionClientCapabilities {
    pub dynamic_registration: Option<bool>,
    pub completion_item: Option<CompletionItemClientCapabilities>,
}

impl Default for CompletionClientCapabilities {
    fn default() -> (r: Self)
        ensures
            r.dynamic_registration == Some(false),
            r.completion_item is Some,
    {
        CompletionClientCapabilities {
            dynamic_registration: Some(false),
            completion_item: Some(CompletionItemClientCapabilities::default()),
        }
    }
}

fn markdown_then_plain() -> (r: Vec<MarkupKind>)
    ensures
        r@ == seq![MarkupKind::Markdown, MarkupKind::PlainText],
{
    let mut v: Vec<MarkupKind> = Vec::new();
    v.push(MarkupKind::Markdown);
    v.push(MarkupKind::PlainText);
    assert(v@ =~= seq![MarkupKind::Markdown, MarkupKind::PlainText]);
    v
}

#[derive(Debug, Clone, PartialEq)]
pub struct CompletionItemClientCapabilities {
    pub snippet_support: Option<bool>,
    pub commit_characters_support: Option<bool>,
    pub documentation_format: Option<Vec<MarkupKind>>,
}

impl Default for CompletionItemClientCapabilities {
    fn default() -> (r: Self)
        ensures
            r.snippet_support == Some(true),
            r.commit_characters_support == Some(true),
            r.documentation_format matches Some(v) && v@ == seq![
                MarkupKind::Markdown,
                MarkupKind::PlainText,
            ],
    {
        CompletionItemClientCapabilities {
            snippet_support: Some(true),
            commit_characters_support: Some(true),
            documentation_format: Some(markdown_then_plain()),
        }
    }
}

#[derive(Debug, Clone, PartialEq)]
pub struct HoverClientCapabilities {
    pub dynamic_registration: Option<bool>,
    pub content_format: Option<Vec<MarkupKind>>,
}

impl Default for HoverClientCapabilities {
    fn default() -> (r: Self)
        ensures
            r.dynamic_registration == Some(false),
            r.content_format matches Some(v) && v@ == seq![
                MarkupKind::Markdown,
                MarkupKind::PlainText,
            ],
    {
        HoverClientCapabilities {
            dynamic_registration: Some(false),
            content_format: Some(markdown_then_plain()),
        }
    }
}

/// Content formats.
#[derive(Debug, Clone, Copy, PartialEq, Eq, Hash, Structural)]
pub enum MarkupKind {
    PlainText,
    Markdown,
}

#[derive(Debug, Clone, PartialEq)]
pub struct NotebookDocumentClientCapabilities {
    pub synchronization: Option<NotebookDocumentSyncClientCapabilities>,
}

#[derive(Debug, Clone, PartialEq)]
pub struct NotebookDocumentSyncClientCapabilities {
    pub dynamic_registration: Option<bool>,
    pub execution_summary_support: Option<bool>,
}

/// Window features of the client.
#[derive(Debug, Clone, PartialEq)]
pub struct WindowClientCapabilities {
    pub work_done_progress: Option<bool>,
    pub show_message: Option<ShowMessageRequestClientCapabilities>,
    pub show_document: Option<ShowDocumentClientCapabilities>,
}

impl Default for WindowClientCapabilities {
    fn default() -> (r: Self)
        ensures
            r.work_done_progress == Some(true),
            r.show_message is None,
            r.show_document is None,
    {
        WindowClientCapabilities { work_done_progress: Some(true), show_message: None, show_document: None }
    }
}

#[derive(Debug, Clone, PartialEq)]
pub struct ShowMessageRequestClientCapabilities {
    pub message_action_item: Option<MessageActionItemClientCapabilities>,
}

#[derive(Debug, Clone, PartialEq)]
pub struct MessageActionItemClientCapabilities {
    pub additional_properties_support: Option<bool>,
}

#[derive(Debug, Clone, PartialEq)]
pub struct ShowDocumentClientCapabilities {
    pub support: bool,
}

pub open spec fn text_of(o: Option<String>) -> Option<Seq<char>> {
    match o {
        Some(s) => Some(s@),
        None => None,
    }
}

/// General features of the client.
#[derive(Debug, Clone, PartialEq)]
pub struct GeneralClientCapabilities {
    pub regular_expressions: Option<RegularExpressionsClientCapabilities>,
    pub markdown: Option<MarkdownClientCapabilities>,
}

impl Default for GeneralClientCapabilities {
    fn default() -> (r: Self)
        ensures
            r.regular_expressions matches Some(x) && x.engine@ == "ECMAScript"@
                && text_of(x.version) == Some("ES2020"@),
            r.markdown matches Some(m) && m.parser@ == "marked"@
                && text_of(m.version) == Some("1.1.0"@),
    {
        GeneralClientCapabilities {
            regular_expressions: Some(
                RegularExpressionsClientCapabilities {
                    engine: "ECMAScript".to_owned(),
                    version: Some("ES2020".to_owned()),
                },
            ),
            markdown: Some(
                MarkdownClientCapabilities {
                    parser: "marked".to_owned(),
                    version: Some("1.1.0".to_owned()),
                },
            ),
        }
    }
}

#[derive(Debug, Clone, PartialEq)]
pub struct RegularExpressionsClientCapabilities {
    pub engine: String,
    pub version: Option<String>,
}

#[derive(Debug, Clone, PartialEq)]
pub struct MarkdownClientCapabilities {
    pub parser: String,
    pub version: Option<String>,
}

/// Parameters of the `initialize` request.
#[derive(Debug, Clone, PartialEq)]
pub struct InitializeParams {
    pub process_id: Option<u32>,
    pub client_info: Option<ClientInfo>,
    pub locale: Option<String>,
    pub root_path: Option<String>,
    pub root_uri: Option<String>,
    pub initialization_options: Option<serde_json::Value>,
    pub capabilities: ClientCapabilities,
    pub trace: Option<TraceValue>,
    pub workspace_folders: Option<Vec<WorkspaceFolder>>,
}

impl InitializeParams {
    /// The parameters the handshake sends by default: default capabilities,
    /// the client's name and version, and the workspace root if there is one.
    pub fn for_client(
        process_id: Option<u32>,
        client_name: &str,
        client_version: Option<String>,
        root_uri: Option<String>,
    ) -> (r: Self)
        ensures
            r.process_id == process_id,
            r.client_info matches Some(c) && c.name@ == client_name@ && c.version == client_version,
            r.locale is None,
            r.root_path is None,
            r.root_uri == root_uri,
            r.initialization_options is None,
            r.trace is None,
            r.workspace_folders is None,
    {
        InitializeParams {
            process_id,
            client_info: Some(ClientInfo { name: client_name.to_owned(), version: client_version }),
            locale: None,
            root_path: None,
            root_uri,
            initialization_options: None,
            capabilities: ClientCapabilities::default(),
            trace: None,
            workspace_folders: None,
        }
    }
}

#[derive(Debug, Clone, PartialEq)]
pub struct ClientInfo {
    pub name: String,
    pub version: Option<String>,
}

#[derive(Debug, Clone, Copy, PartialEq, Eq, Hash, Structural)]
pub enum TraceValue {
    Off,
    Messages,
    Verbose,
}

#[derive(Debug, Clone, PartialEq)]
pub struct WorkspaceFolder {
    pub uri: String,
    pub name: String,
}

/// The server's answer to `initialize`.
#[derive(Debug, Clone, PartialEq)]
pub struct InitializeResult {
    pub capabilities: ServerCapabilities,
    pub server_info: Option<ServerInfo>,
}

#[derive(Debug, Clone, PartialEq)]
pub struct ServerInfo {
    pub name: String,
    pub version: Option<String>,
}

/// What the server can do.
#[derive(Debug, Clone, PartialEq)]
pub struct ServerCapabilities {
    pub text_document_sync: Option<TextDocumentSyncCapability>,
    pub completion_provider: Option<CompletionOptions>,
    pub hover_provider: Option<HoverProviderCapability>,
}

#[derive(Debug, Clone, PartialEq)]
pub enum TextDocumentSyncCapability {
    Kind(TextDocumentSyncKind),
    Options(TextDocumentSyncOptions),
}

/// How documents are synchronised; on the wire a number from 0 to 2.
#[derive(Debug, Clone, Copy, PartialEq, Eq, Hash, Structural)]
pub enum TextDocumentSyncKind {
    /// Documents are not synchronised at all.
    NoSync,
    Full,
    Incremental,
}

pub open spec fn sync_kind_code(k: TextDocumentSyncKind) -> u8 {
    match k {
        TextDocumentSyncKind::NoSync => 0,
        TextDocumentSyncKind::Full => 1,
        TextDocumentSyncKind::Incremental => 2,
    }
}

impl TextDocumentSyncKind {
    /// The number that stands for this kind on the wire.
    pub fn value(&self) -> (r: u8)
        ensures
            r == sync_kind_code(*self),
    {
        match self {
            TextDocumentSyncKind::NoSync => 0,
            TextDocumentSyncKind::Full => 1,
            TextDocumentSyncKind::Incremental => 2,
        }
    }

    /// The kind a wire number stands for; numbers above 2 stand for none.
    pub fn from_value(value: u8) -> (r: Option<Self>)
        ensures
            match r {
                Some(k) => sync_kind_code(k) == value,
                None => value > 2,
            },
    {
        match value {
            0 => Some(TextDocumentSyncKind::NoSync),
            1 => Some(TextDocumentSyncKind::Full),
            2 => Some(TextDocumentSyncKind::Incremental),
            _ => None,
        }
    }
}

#[derive(Debug, Clone, PartialEq)]
pub struct TextDocumentSyncOptions {
    pub open_close: Option<bool>,
    pub change: Option<TextDocumentSyncKind>,
    pub will_save: Option<bool>,
    pub will_save_wait_until: Option<bool>,
    pub save: Option<SaveOptions>,
}

#[derive(Debug, Clone, PartialEq)]
pub struct SaveOptions {
    pub include_text: Option<bool>,
}

#[derive(Debug, Clone, PartialEq)]
pub struct CompletionOptions {
    pub resolve_provider: Option<bool>,
    pub trigger_characters: Option<Vec<String>>,
    pub all_commit_characters: Option<Vec<String>>,
}

#[derive(Debug, Clone, PartialEq)]
pub enum HoverProviderCapability {
    Simple(bool),
    Options(HoverOptions),
}

#[derive(Debug, Clone, PartialEq)]
pub struct HoverOptions {
    pub work_done_progress: Option<bool>,
}

} // verus!
