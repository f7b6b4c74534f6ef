//! The surface offered to host platforms: flat records and enums, and
//! handles over the library's objects, with the conversions between them.

use vstd::prelude::*;
use crate::ai::{ChatMessage, ChatRole, CompletionResponse, EchoProvider};
use crate::chars::{push_str_chars, string_of};
use crate::document::{fm_str, title_spec, Document};
use crate::front_matter::{yaml_bool, yaml_i64, yaml_str_list};
use crate::index::BuildStats;
use crate::location::{scope_spec, Entry, EntryKind, Location, Scope, VfsError, WalkOptions};
use crate::text::plain_text_of;
use crate::watcher::{EventQueue, FsEvent};

verus! {

/// The RFC 3339 text that chrono writes for an instant, given in nanoseconds since the Unix epoch (UTC).
pub uninterp spec fn rfc3339_text(nanos: i64) -> Seq<char>;

/// Relies on `chrono::DateTime::<Utc>::from_timestamp_nanos` (total on `i64`)
/// and `DateTime::to_rfc3339`: the timestamp's RFC 3339 text.
#[verifier::external_body]
fn format_rfc3339(nanos: i64) -> (r: String)
    ensures
        r@ == rfc3339_text(nanos),
{
    chrono::DateTime::<chrono::Utc>::from_timestamp_nanos(nanos).to_rfc3339()
}

/// The errors offered to hosts: a small flat union with a message or a path.
#[derive(Debug, Clone, PartialEq, Eq)]
pub enum FfiError {
    NotFound { path: String },
    OutsideLocation { path: String },
    PermissionDenied { path: String },
    AlreadyExists { path: String },
    Io { message: String },
    Index { message: String },
    InvalidArgument { message: String },
    Internal { message: String },
}

/// `prefix` followed by `s`.
fn prefixed(prefix: &str, s: &str) -> (r: String)
    ensures
        r@ == prefix@ + s@,
{
    let mut cs: Vec<char> = Vec::new();
    push_str_chars(&mut cs, prefix);
    push_str_chars(&mut cs, s);
    string_of(&cs)
}

impl FfiError {
    /// The host error of a filesystem error: the four path errors keep their
    /// path; every other error becomes an I/O error with its description.
    pub fn from_vfs(e: VfsError) -> (r: Self)
        ensures
            e matches VfsError::NotFound(p) ==> r == (FfiError::NotFound { path: p }),
            e matches VfsError::OutsideLocation(p) ==> r == (FfiError::OutsideLocation { path: p }),
            e matches VfsError::PermissionDenied(p) ==> r == (FfiError::PermissionDenied { path: p }),
            e matches VfsError::AlreadyExists(p) ==> r == (FfiError::AlreadyExists { path: p }),
            !(e is NotFound || e is OutsideLocation || e is PermissionDenied || e is AlreadyExists) ==> r is Io,
    {
        match e {
            VfsError::NotFound(p) => FfiError::NotFound { path: p },
            VfsError::OutsideLocation(p) => FfiError::OutsideLocation { path: p },
            VfsError::PermissionDenied(p) => FfiError::PermissionDenied { path: p },
            VfsError::AlreadyExists(p) => FfiError::AlreadyExists { path: p },
            VfsError::IgnoredScope(p) => FfiError::Io { message: prefixed("path is in Ignored scope: ", p.as_str()) },
            VfsError::AtomicWriteFailed { path, reason } => {
                let head = prefixed("atomic write failed for ", path.as_str());
                let mid = prefixed(head.as_str(), ": ");
                FfiError::Io { message: prefixed(mid.as_str(), reason.as_str()) }
            },
            VfsError::WatcherError(m) => FfiError::Io { message: prefixed("watcher error: ", m.as_str()) },
            VfsError::Io(m) => FfiError::Io { message: prefixed("IO error: ", m.as_str()) },
        }
    }
}

/// The scope of an entry, for hosts.
#[derive(Debug, Clone, Copy, PartialEq, Eq, Structural)]
pub enum FfiScope {
    Managed,
    Ignored,
    Plain,
}

/// The host scope of a scope.
pub open spec fn ffi_scope(s: Scope) -> FfiScope {
    match s {
        Scope::Managed => FfiScope::Managed,
        Scope::Ignored => FfiScope::Ignored,
        Scope::Plain => FfiScope::Plain,
    }
}

impl From<Scope> for FfiScope {
    fn from(s: Scope) -> (r: Self) {
        match s {
            Scope::Managed => FfiScope::Managed,
            Scope::Ignored => FfiScope::Ignored,
            Scope::Plain => FfiScope::Plain,
        }
    }
}

impl vstd::std_specs::convert::FromSpecImpl<Scope> for FfiScope {
    open spec fn obeys_from_spec() -> bool {
        true
    }

    open spec fn from_spec(s: Scope) -> FfiScope {
        ffi_scope(s)
    }
}

/// The kind of an entry, for hosts.
#[derive(Debug, Clone, Copy, PartialEq, Eq, Structural)]
pub enum FfiEntryKind {
    File,
    Folder,
}

/// The host kind of an entry kind.
pub open spec fn ffi_kind(k: EntryKind) -> FfiEntryKind {
    match k {
        EntryKind::File => FfiEntryKind::File,
        EntryKind::Folder => FfiEntryKind::Folder,
    }
}

impl From<EntryKind> for FfiEntryKind {
    fn from(k: EntryKind) -> (r: Self) {
        match k {
            EntryKind::File => FfiEntryKind::File,
            EntryKind::Folder => FfiEntryKind::Folder,
        }
    }
}

impl vstd::std_specs::convert::FromSpecImpl<EntryKind> for FfiEntryKind {
    open spec fn obeys_from_spec() -> bool {
        true
    }

    open spec fn from_spec(k: EntryKind) -> FfiEntryKind {
        ffi_kind(k)
    }
}

/// An entry, for hosts; times are RFC 3339 text.
#[derive(Debug, Clone)]
pub struct FfiEntry {
    pub path: String,
    pub name: String,
    pub extension: Option<String>,
    pub kind: FfiEntryKind,
    pub size: u64,
    /// Modification time; empty when unknown.
    pub modified: String,
    pub created: Option<String>,
    pub scope: FfiScope,
}

impl FfiEntry {
    /// The host record of an entry.
    pub fn from_entry(e: Entry) -> (r: Self)
        ensures
            r.path == e.path,
            r.name == e.name,
            r.extension == e.extension,
            r.kind == ffi_kind(e.kind),
            r.size == e.size,
            r.modified@ == match e.modified {
                Some(m) => rfc3339_text(m),
                None => Seq::<char>::empty(),
            },
            match e.created {
                Some(c) => r.created.is_some() && r.created.unwrap()@ == rfc3339_text(c),
                None => r.created.is_none(),
            },
            r.scope == ffi_scope(e.scope),
    {
        let modified = match e.modified {
            Some(m) => format_rfc3339(m),
            None => String::new(),
        };
        let created = match e.created {
            Some(c) => Some(format_rfc3339(c)),
            None => None,
        };
        FfiEntry {
            path: e.path,
            name: e.name,
            extension: e.extension,
            kind: FfiEntryKind::from(e.kind),
            size: e.size,
            modified,
            created,
            scope: FfiScope::from(e.scope),
        }
    }
}

/// Traversal options, for hosts.
#[derive(Debug, Clone, Copy, Default)]
pub struct FfiWalkOptions {
    pub include_ignored: bool,
    pub max_depth: Option<u32>,
}

impl FfiWalkOptions {
    /// The library's traversal options.
    pub fn to_walk_options(&self) -> (r: WalkOptions)
        ensures
            r.include_ignored == self.include_ignored,
            r.max_depth == match self.max_depth {
                Some(d) => Some(d as usize),
                None => None::<usize>,
            },
    {
        WalkOptions {
            include_ignored: self.include_ignored,
            max_depth: match self.max_depth {
                Some(d) => Some(d as usize),
                None => None,
            },
        }
    }
}

/// A Location, for hosts.
#[derive(Debug)]
pub struct FfiLocation {
    pub inner: Location,
}

impl FfiLocation {
    /// The root path.
    pub fn root(&self) -> (r: String)
        ensures
            r@ == self.inner.root@,
    {
        self.inner.root.clone()
    }

    /// The label.
    pub fn label(&self) -> (r: String)
        ensures
            r@ == self.inner.label@,
    {
        self.inner.label.clone()
    }

    /// Whether the Location is managed.
    pub fn is_managed(&self) -> (r: bool)
        ensures
            r == self.inner.managed,
    {
        self.inner.is_managed()
    }

    /// The scope of `path`; `contained` and `is_dir` are what the filesystem says of it.
    pub fn scope_of(&self, path: &str, contained: bool, is_dir: bool) -> (r: Option<FfiScope>)
        ensures
            r == match scope_spec(self.inner.managed, self.inner.rules(), self.inner.root@, path@, contained, is_dir) {
                Some(s) => Some(ffi_scope(s)),
                None => None,
            },
    {
        match self.inner.scope_of(path, contained, is_dir) {
            Some(s) => Some(FfiScope::from(s)),
            None => None,
        }
    }
}

/// A parsed document, for hosts.
#[derive(Debug)]
pub struct FfiDocument {
    pub inner: Document,
}

impl FfiDocument {
    /// The handle of a parsed document.
    pub fn from_document(inner: Document) -> (r: Self)
        ensures
            r.inner == inner,
    {
        FfiDocument { inner }
    }

    /// The title (front matter `title`, else the first level-1 heading).
    pub fn title(&self) -> (r: Option<String>)
        ensures
            match title_spec(self.inner.front_matter, self.inner.blocks@) {
                Some(t) => r.is_some() && r.unwrap()@ == t,
                None => r.is_none(),
            },
    {
        self.inner.title()
    }

    /// The plain text.
    pub fn plain_text(&self) -> (r: String)
        ensures
            r@ == plain_text_of(self.inner.blocks@),
    {
        self.inner.plain_text()
    }

    /// Whether there is front matter.
    pub fn has_front_matter(&self) -> (r: bool)
        ensures
            r == self.inner.front_matter.is_some(),
    {
        self.inner.has_front_matter()
    }

    /// A string field of the front matter.
    pub fn front_matter_string(&self, key: &str) -> (r: Option<String>)
        ensures
            match fm_str(self.inner.front_matter, key@) {
                Some(s) => r.is_some() && r.unwrap()@ == s,
                None => r.is_none(),
            },
    {
        self.inner.front_matter_string(key)
    }

    /// A string-list field of the front matter.
    pub fn front_matter_string_list(&self, key: &str) -> (r: Option<Vec<String>>)
        ensures
            match self.inner.front_matter {
                Some(f) => match yaml_str_list(f.raw@, key@) {
                    Some(l) => r.is_some() && r.unwrap()@.map_values(|s: String| s@) == l,
                    None => r.is_none(),
                },
                None => r.is_none(),
            },
    {
        self.inner.front_matter_string_list(key)
    }

    /// An integer field of the front matter.
    pub fn front_matter_int(&self, key: &str) -> (r: Option<i64>)
        ensures
            r == match self.inner.front_matter {
                Some(f) => yaml_i64(f.raw@, key@),
                None => None,
            },
    {
        self.inner.front_matter_int(key)
    }

    /// A boolean field of the front matter.
    pub fn front_matter_bool(&self, key: &str) -> (r: Option<bool>)
        ensures
            r == match self.inner.front_matter {
                Some(f) => yaml_bool(f.raw@, key@),
                None => None,
            },
    {
        self.inner.front_matter_bool(key)
    }

    /// The number of top-level blocks, saturated to `u32`.
    pub fn block_count(&self) -> (r: u32)
        ensures
            r == if self.inner.blocks@.len() <= u32::MAX { self.inner.blocks@.len() as int } else { u32::MAX as int },
    {
        let n = self.inner.block_count();
        if n as u64 <= 4294967295u64 { n as u32 } else { u32::MAX }
    }
}

/// Build counters, for hosts.
#[derive(Debug, Clone, Copy)]
pub struct FfiBuildStats {
    pub files_scanned: u32,
    pub markdown_indexed: u32,
    pub metadata_updated: u32,
}

/// A count saturated to `u32`.
pub open spec fn sat_u32(n: usize) -> u32 {
    if n <= u32::MAX { n as u32 } else { u32::MAX }
}

/// A count saturated to `u32`.
fn to_u32(n: usize) -> (r: u32)
    ensures
        r == sat_u32(n),
{
    if n as u64 <= 4294967295u64 { n as u32 } else { u32::MAX }
}

impl FfiBuildStats {
    /// The host record of build counters, each saturated to `u32`.
    pub fn from_stats(s: BuildStats) -> (r: Self)
        ensures
            r.files_scanned == sat_u32(s.files_scanned),
            r.markdown_indexed == sat_u32(s.markdown_indexed),
            r.metadata_updated == sat_u32(s.metadata_updated),
    {
        FfiBuildStats {
            files_scanned: to_u32(s.files_scanned),
            markdown_indexed: to_u32(s.markdown_indexed),
            metadata_updated: to_u32(s.metadata_updated),
        }
    }
}

/// A chat role, for hosts.
#[derive(Debug, Clone, Copy, PartialEq, Eq, Structural)]
pub enum FfiChatRole {
    System,
    User,
    Assistant,
}

/// The host role of a chat role.
pub open spec fn ffi_role(r: ChatRole) -> FfiChatRole {
    match r {
        ChatRole::System => FfiChatRole::System,
        ChatRole::User => FfiChatRole::User,
        ChatRole::Assistant => FfiChatRole::Assistant,
    }
}

impl From<ChatRole> for FfiChatRole {
    fn from(r: ChatRole) -> (o: Self) {
        match r {
            ChatRole::System => FfiChatRole::System,
            ChatRole::User => FfiChatRole::User,
            ChatRole::Assistant => FfiChatRole::Assistant,
        }
    }
}

impl vstd::std_specs::convert::FromSpecImpl<ChatRole> for FfiChatRole {
    open spec fn obeys_from_spec() -> bool {
        true
    }

    open spec fn from_spec(r: ChatRole) -> FfiChatRole {
        ffi_role(r)
    }
}

impl FfiChatRole {
    /// The library's chat role.
    pub fn to_role(&self) -> (r: ChatRole)
        ensures
            ffi_role(r) == *self,
    {
        match self {
            FfiChatRole::System => ChatRole::System,
            FfiChatRole::User => ChatRole::User,
            FfiChatRole::Assistant => ChatRole::Assistant,
        }
    }
}

/// A chat message, for hosts.
#[derive(Debug, Clone)]
pub struct FfiChatMessage {
    pub role: FfiChatRole,
    pub content: String,
}

impl FfiChatMessage {
    /// The library's chat message.
    pub fn to_message(self) -> (r: ChatMessage)
        ensures
            ffi_role(r.role) == self.role,
            r.content == self.content,
    {
        ChatMessage { role: self.role.to_role(), content: self.content }
    }
}

/// A completion, for hosts.
#[derive(Debug, Clone)]
pub struct FfiCompletionResponse {
    pub content: String,
    pub tokens_used: u32,
    pub model: String,
}

impl FfiCompletionResponse {
    /// The host record of a completion.
    pub fn from_response(r: CompletionResponse) -> (o: Self)
        ensures
            o.content == r.content,
            o.tokens_used == r.tokens_used,
            o.model == r.model,
    {
        FfiCompletionResponse { content: r.content, tokens_used: r.tokens_used, model: r.model }
    }
}

/// The AI engine, for hosts; the echo provider is the one shipped.
#[derive(Debug, Clone, Copy)]
pub struct FfiAiEngine {
    pub provider: EchoProvider,
}

impl FfiAiEngine {
    /// An engine over the echo provider.
    pub fn new_echo() -> (r: Self) {
        FfiAiEngine { provider: EchoProvider }
    }

    /// The model name of the active provider.
    pub fn model_name(&self) -> (r: String)
        ensures
            r@ == "echo-v1"@,
    {
        self.provider.model_name().to_owned()
    }
}

/// The kind of a change event, for hosts.
#[derive(Debug, Clone, Copy, PartialEq, Eq, Structural)]
pub enum FfiFsEventKind {
    Created,
    Modified,
    Deleted,
    Renamed,
}

/// A change event, for hosts: a rename carries its old path apart.
#[derive(Debug, Clone, PartialEq, Eq)]
pub struct FfiFsEvent {
    pub kind: FfiFsEventKind,
    pub path: String,
    pub renamed_from: Option<String>,
}

/// The host record of a change event.
pub open spec fn ffi_event(e: FsEvent) -> FfiFsEvent {
    match e {
        FsEvent::Created(p) => FfiFsEvent { kind: FfiFsEventKind::Created, path: p, renamed_from: None },
        FsEvent::Modified(p) => FfiFsEvent { kind: FfiFsEventKind::Modified, path: p, renamed_from: None },
        FsEvent::Deleted(p) => FfiFsEvent { kind: FfiFsEventKind::Deleted, path: p, renamed_from: None },
        FsEvent::Renamed { from, to } => FfiFsEvent { kind: FfiFsEventKind::Renamed, path: to, renamed_from: Some(from) },
    }
}

impl FfiFsEvent {
    /// The host record of a change event.
    pub fn from_event(e: FsEvent) -> (r: Self)
        ensures
            r == ffi_event(e),
    {
        match e {
            FsEvent::Created(p) => FfiFsEvent { kind: FfiFsEventKind::Created, path: p, renamed_from: None },
            FsEvent::Modified(p) => FfiFsEvent { kind: FfiFsEventKind::Modified, path: p, renamed_from: None },
            FsEvent::Deleted(p) => FfiFsEvent { kind: FfiFsEventKind::Deleted, path: p, renamed_from: None },
            FsEvent::Renamed { from, to } => FfiFsEvent { kind: FfiFsEventKind::Renamed, path: to, renamed_from: Some(from) },
        }
    }
}

/// The event side of a watcher, for hosts: the notification source pushes,
/// the host drains; stopping is for good.
#[derive(Debug)]
pub struct FfiWatcher {
    queue: EventQueue,
}

impl FfiWatcher {
    /// The pending events, as host records, oldest first.
    pub closed spec fn pending(&self) -> Seq<FfiFsEvent> {
        self.queue.pending().map_values(|e: FsEvent| ffi_event(e))
    }

    /// Whether the watcher was stopped.
    pub closed spec fn is_stopped(&self) -> bool {
        self.queue.is_stopped()
    }

    /// Well-formedness: a stopped watcher holds nothing.
    pub closed spec fn wf(&self) -> bool {
        self.queue.wf()
    }

    /// A running watcher with nothing pending.
    pub fn new() -> (r: Self)
        ensures
            r.wf(),
            !r.is_stopped(),
            r.pending() == Seq::<FfiFsEvent>::empty(),
    {
        let w = FfiWatcher { queue: EventQueue::new() };
        assert(w.pending() =~= Seq::<FfiFsEvent>::empty());
        w
    }

    /// Queues an event from the notification source; dropped once stopped.
    pub fn push_event(&mut self, e: FsEvent)
        requires
            old(self).wf(),
        ensures
            final(self).wf(),
            final(self).is_stopped() == old(self).is_stopped(),
            !old(self).is_stopped() ==> final(self).pending() == old(self).pending().push(ffi_event(e)),
            old(self).is_stopped() ==> final(self).pending() == old(self).pending(),
    {
        self.queue.push(e);
        assert(!old(self).is_stopped() ==> self.pending() =~= old(self).pending().push(ffi_event(e)));
    }

    /// Takes every pending event, oldest first; empty once stopped.
    pub fn drain_events(&mut self) -> (r: Vec<FfiFsEvent>)
        requires
            old(self).wf(),
        ensures
            final(self).wf(),
            r@ == old(self).pending(),
            old(self).is_stopped() ==> r@.len() == 0,
            final(self).pending() == Seq::<FfiFsEvent>::empty(),
            final(self).is_stopped() == old(self).is_stopped(),
    {
        let events = self.queue.drain_events();
        let mut out: Vec<FfiFsEvent> = Vec::new();
        let mut i: usize = 0;
        let ghost src = events@;
        let n = events.len();
        let mut rest = events;
        while i < n
            invariant
                i <= n == src.len(),
                out@ == src.take(i as int).map_values(|e: FsEvent| ffi_event(e)),
                rest@ == src.skip(i as int),
            decreases n - i,
        {
            let e = rest.remove(0);
            assert(src.skip(i as int)[0] == src[i as int]);
            out.push(FfiFsEvent::from_event(e));
            assert(src.take(i + 1).map_values(|e: FsEvent| ffi_event(e)) =~= src.take(i as int).map_values(|e: FsEvent| ffi_event(e)).push(ffi_event(src[i as int])));
            assert(src.skip(i as int).drop_first() =~= src.skip(i + 1));
            i = i + 1;
        }
        assert(src.take(src.len() as int) =~= src);
        assert(self.pending() =~= Seq::<FfiFsEvent>::empty());
        out
    }

    /// Whether events are waiting.
    pub fn has_pending_events(&self) -> (r: bool)
        ensures
            r == (self.pending().len() > 0),
    {
        self.queue.has_pending_events()
    }

    /// Stops watching: pending events are dropped and no new ones are kept.
    pub fn stop(&mut self)
        ensures
            final(self).wf(),
            final(self).is_stopped(),
            final(self).pending() == Seq::<FfiFsEvent>::empty(),
    {
        self.queue.stop();
        assert(self.pending() =~= Seq::<FfiFsEvent>::empty());
    }
}

} // verus!
