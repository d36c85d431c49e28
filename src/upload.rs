//! One upload request as a state machine. The caller performs each
//! [`UploadAction`] (creating directories, creating and writing the file,
//! reading the next multipart field or chunk) and reports what happened as an
//! [`UploadEvent`]; the session decides what comes next and, at the end,
//! which response is sent.
use vstd::prelude::*;
use crate::outcome::UploadOutcome;
use crate::resolve::{is_safe_filename, join, join_path, request_dir, resolve_request_dir, safe_filename};
use crate::unique::{candidate, first_free, get_unique_filename};

verus! {

/// Where an upload session stands: which event it waits for.
#[derive(Clone, Copy, Debug, PartialEq, Eq, Structural)]
pub enum Phase {
    /// Waiting for the next multipart field, or the end of the body.
    AwaitField,
    /// Waiting for the target directory to be created and listed.
    AwaitDir,
    /// Waiting for the target file to be created.
    AwaitCreate,
    /// Waiting for the next chunk of the field, or its end.
    AwaitChunk,
    /// Waiting for a chunk to be written to the file.
    AwaitWrite,
    /// Waiting for a partly written file to be removed.
    AwaitRemoval,
    /// The response has been decided; no event is accepted any more.
    Finished,
}

/// What the caller reports back after performing an action.
#[derive(Debug)]
pub enum UploadEvent {
    /// A new field arrived, with the file name its metadata declares, if any.
    FieldStarted { filename: Option<String> },
    /// The body holds no further field.
    NoMoreFields,
    /// The directory exists now; `names` are the entries it holds.
    DirReady { names: Vec<String> },
    /// The directory could not be created.
    DirFailed,
    /// The target file was created.
    FileCreated,
    /// The target file could not be created.
    CreateFailed,
    /// The next chunk of the field's body arrived.
    ChunkReceived { data: Vec<u8> },
    /// The field's body failed in transport.
    ChunkFailed,
    /// The last chunk was written to the file.
    ChunkWritten,
    /// The last chunk could not be written.
    WriteFailed,
    /// The field's body has ended.
    FieldFinished,
    /// The partly written file was removed (or its removal was attempted).
    FileRemoved,
}

/// What the session asks the caller to do next.
#[derive(Debug)]
pub enum UploadAction {
    /// Read the next field of the multipart body.
    NextField,
    /// Create `dir` with all its ancestors, then list its entries.
    PrepareDir { dir: String },
    /// Create the file at `path`.
    CreateFile { path: String },
    /// Read the next chunk of the current field.
    NextChunk,
    /// Append `data` to the file.
    WriteChunk { data: Vec<u8> },
    /// Remove the file at `path`.
    RemoveFile { path: String },
    /// Send the response for `outcome`; the session is over.
    Respond { outcome: UploadOutcome },
}

/// An [`UploadEvent`] with its strings and bytes as sequences.
pub enum EventView {
    FieldStarted { filename: Option<Seq<char>> },
    NoMoreFields,
    DirReady { names: Seq<String> },
    DirFailed,
    FileCreated,
    CreateFailed,
    ChunkReceived { data: Seq<u8> },
    ChunkFailed,
    ChunkWritten,
    WriteFailed,
    FieldFinished,
    FileRemoved,
}

/// An [`UploadAction`] with its strings and bytes as sequences.
pub enum ActionView {
    NextField,
    PrepareDir { dir: Seq<char> },
    CreateFile { path: Seq<char> },
    NextChunk,
    WriteChunk { data: Seq<u8> },
    RemoveFile { path: Seq<char> },
    Respond { outcome: UploadOutcome },
}

impl View for UploadEvent {
    type V = EventView;

    open spec fn view(&self) -> EventView {
        match self {
            UploadEvent::FieldStarted { filename } => EventView::FieldStarted {
                filename: match filename {
                    Some(f) => Some(f@),
                    None => None,
                },
            },
            UploadEvent::NoMoreFields => EventView::NoMoreFields,
            UploadEvent::DirReady { names } => EventView::DirReady { names: names@ },
            UploadEvent::DirFailed => EventView::DirFailed,
            UploadEvent::FileCreated => EventView::FileCreated,
            UploadEvent::CreateFailed => EventView::CreateFailed,
            UploadEvent::ChunkReceived { data } => EventView::ChunkReceived { data: data@ },
            UploadEvent::ChunkFailed => EventView::ChunkFailed,
            UploadEvent::ChunkWritten => EventView::ChunkWritten,
            UploadEvent::WriteFailed => EventView::WriteFailed,
            UploadEvent::FieldFinished => EventView::FieldFinished,
            UploadEvent::FileRemoved => EventView::FileRemoved,
        }
    }
}

impl View for UploadAction {
    type V = ActionView;

    open spec fn view(&self) -> ActionView {
        match self {
            UploadAction::NextField => ActionView::NextField,
            UploadAction::PrepareDir { dir } => ActionView::PrepareDir { dir: dir@ },
            UploadAction::CreateFile { path } => ActionView::CreateFile { path: path@ },
            UploadAction::NextChunk => ActionView::NextChunk,
            UploadAction::WriteChunk { data } => ActionView::WriteChunk { data: data@ },
            UploadAction::RemoveFile { path } => ActionView::RemoveFile { path: path@ },
            UploadAction::Respond { outcome } => ActionView::Respond { outcome: *outcome },
        }
    }
}

/// The phase in which an event is expected.
pub open spec fn phase_for(ev: EventView) -> Phase {
    match ev {
        EventView::FieldStarted { .. } | EventView::NoMoreFields => Phase::AwaitField,
        EventView::DirReady { .. } | EventView::DirFailed => Phase::AwaitDir,
        EventView::FileCreated | EventView::CreateFailed => Phase::AwaitCreate,
        EventView::ChunkReceived { .. } | EventView::ChunkFailed | EventView::FieldFinished => Phase::AwaitChunk,
        EventView::ChunkWritten | EventView::WriteFailed => Phase::AwaitWrite,
        EventView::FileRemoved => Phase::AwaitRemoval,
    }
}

/// The state of an upload session.
pub struct SessionView {
    /// The directory under the storage root that the request path names;
    /// `None` where the path is refused.
    pub dir: Option<Seq<char>>,
    pub phase: Phase,
    /// The declared name of the current field's file.
    pub filename: Seq<char>,
    /// Where the current field's file is written.
    pub target: Seq<char>,
    /// The outcome to report once the session ends.
    pub pending: UploadOutcome,
}

impl SessionView {
    /// Every phase between a field's start and the end of the session has
    /// a directory.
    pub open spec fn wf(self) -> bool {
        self.phase != Phase::AwaitField && self.phase != Phase::Finished ==> self.dir is Some
    }

    pub open spec fn dir_path(self) -> Seq<char> {
        match self.dir {
            Some(d) => d,
            None => Seq::empty(),
        }
    }
}

/// A fresh session for a request whose path names `dir`.
pub open spec fn initial(dir: Option<Seq<char>>) -> SessionView {
    SessionView {
        dir,
        phase: Phase::AwaitField,
        filename: Seq::empty(),
        target: Seq::empty(),
        pending: UploadOutcome::Success,
    }
}

/// The session ends with `o`.
pub open spec fn finish(s: SessionView, o: UploadOutcome) -> (SessionView, ActionView) {
    (SessionView { phase: Phase::Finished, pending: o, ..s }, ActionView::Respond { outcome: o })
}

/// The name under which `filename` is stored when the directory holds
/// `names`: the first candidate that is free.
pub open spec fn free_name(filename: Seq<char>, names: Seq<String>) -> Seq<char> {
    candidate(filename, choose|n: nat| #[trigger] first_free(filename, names, n))
}

/// How a session in state `s` answers event `ev`: its next state and the
/// action it asks for.
pub open spec fn next(s: SessionView, ev: EventView) -> (SessionView, ActionView) {
    match ev {
        EventView::FieldStarted { filename } => match filename {
            None => finish(s, UploadOutcome::NoFilename),
            Some(f) => if f.len() == 0 {
                finish(s, UploadOutcome::NoFilename)
            } else if s.dir is None || !safe_filename(f) {
                finish(s, UploadOutcome::BadPath)
            } else {
                (
                    SessionView { phase: Phase::AwaitDir, filename: f, ..s },
                    ActionView::PrepareDir { dir: s.dir_path() },
                )
            },
        },
        EventView::NoMoreFields => finish(s, UploadOutcome::Success),
        EventView::DirFailed => finish(s, UploadOutcome::DirCreateFailed),
        EventView::DirReady { names } => {
            let t = join(s.dir_path(), free_name(s.filename, names));
            (SessionView { phase: Phase::AwaitCreate, target: t, ..s }, ActionView::CreateFile { path: t })
        },
        EventView::CreateFailed => finish(s, UploadOutcome::FileCreateFailed),
        EventView::FileCreated => (
            SessionView { phase: Phase::AwaitChunk, ..s },
            ActionView::NextChunk,
        ),
        EventView::ChunkReceived { data } => (
            SessionView { phase: Phase::AwaitWrite, ..s },
            ActionView::WriteChunk { data },
        ),
        EventView::ChunkFailed => (
            SessionView { phase: Phase::AwaitRemoval, pending: UploadOutcome::StreamFailed, ..s },
            ActionView::RemoveFile { path: s.target },
        ),
        EventView::FieldFinished => (
            SessionView { phase: Phase::AwaitField, ..s },
            ActionView::NextField,
        ),
        EventView::ChunkWritten => (
            SessionView { phase: Phase::AwaitChunk, ..s },
            ActionView::NextChunk,
        ),
        EventView::WriteFailed => (
            SessionView { phase: Phase::AwaitRemoval, pending: UploadOutcome::WriteFailed, ..s },
            ActionView::RemoveFile { path: s.target },
        ),
        EventView::FileRemoved => finish(s, s.pending),
    }
}

proof fn lemma_first_free_unique(name: Seq<char>, names: Seq<String>, a: nat, b: nat)
    requires
        first_free(name, names, a),
        first_free(name, names, b),
    ensures
        a == b,
{
    if a < b {
        assert(crate::unique::is_taken(names, candidate(name, a)));
    } else if b < a {
        assert(crate::unique::is_taken(names, candidate(name, b)));
    }
}

/// One upload request in progress.
pub struct UploadSession {
    dir: Option<String>,
    phase: Phase,
    filename: String,
    target: String,
    pending: UploadOutcome,
}

impl View for UploadSession {
    type V = SessionView;

    closed spec fn view(&self) -> SessionView {
        SessionView {
            dir: match self.dir {
                Some(d) => Some(d@),
                None => None,
            },
            phase: self.phase,
            filename: self.filename@,
            target: self.target@,
            pending: self.pending,
        }
    }
}

impl UploadSession {
    /// Starts the session for a request to `request_path` with storage root
    /// `root`.
    pub fn new(root: &str, request_path: &str) -> (s: Self)
        ensures
            s@ == initial(request_dir(root@, request_path@)),
            s@.wf(),
    {
        let dir = match resolve_request_dir(root, request_path) {
            Ok(d) => Some(d),
            Err(_) => None,
        };
        UploadSession {
            dir,
            phase: Phase::AwaitField,
            filename: String::new(),
            target: String::new(),
            pending: UploadOutcome::Success,
        }
    }

    /// The event the session waits for.
    pub fn phase(&self) -> (r: Phase)
        ensures
            r == self@.phase,
    {
        self.phase
    }

    /// Whether the session waits for `ev` now.
    pub fn accepts(&self, ev: &UploadEvent) -> (r: bool)
        ensures
            r == (self@.phase == phase_for(ev@)),
    {
        let p = match ev {
            UploadEvent::FieldStarted { .. } | UploadEvent::NoMoreFields => Phase::AwaitField,
            UploadEvent::DirReady { .. } | UploadEvent::DirFailed => Phase::AwaitDir,
            UploadEvent::FileCreated | UploadEvent::CreateFailed => Phase::AwaitCreate,
            UploadEvent::ChunkReceived { .. } | UploadEvent::ChunkFailed
            | UploadEvent::FieldFinished => Phase::AwaitChunk,
            UploadEvent::ChunkWritten | UploadEvent::WriteFailed => Phase::AwaitWrite,
            UploadEvent::FileRemoved => Phase::AwaitRemoval,
        };
        self.phase == p
    }

    fn finish(&mut self, o: UploadOutcome) -> (a: UploadAction)
        ensures
            (final(self)@, a@) == finish(old(self)@, o),
    {
        self.phase = Phase::Finished;
        self.pending = o;
        UploadAction::Respond { outcome: o }
    }

    /// Takes in what happened and returns what to do next.
    pub fn step(&mut self, ev: UploadEvent) -> (a: UploadAction)
        requires
            old(self)@.wf(),
            old(self)@.phase == phase_for(ev@),
        ensures
            (final(self)@, a@) == next(old(self)@, ev@),
            final(self)@.wf(),
    {
        match ev {
            UploadEvent::FieldStarted { filename } => {
                let f = match filename {
                    None => {
                        return self.finish(UploadOutcome::NoFilename);
                    },
                    Some(f) => f,
                };
                if f.as_str().unicode_len() == 0 {
                    return self.finish(UploadOutcome::NoFilename);
                }
                let dir = match &self.dir {
                    None => {
                        return self.finish(UploadOutcome::BadPath);
                    },
                    Some(d) => d.clone(),
                };
                if !is_safe_filename(f.as_str()) {
                    return self.finish(UploadOutcome::BadPath);
                }
                self.filename = f;
                self.phase = Phase::AwaitDir;
                UploadAction::PrepareDir { dir }
            },
            UploadEvent::NoMoreFields => self.finish(UploadOutcome::Success),
            UploadEvent::DirFailed => self.finish(UploadOutcome::DirCreateFailed),
            UploadEvent::DirReady { names } => {
                let dir = match &self.dir {
                    None => {
                        return self.finish(UploadOutcome::BadPath);
                    },
                    Some(d) => d.clone(),
                };
                let name = get_unique_filename(self.filename.as_str(), &names);
                proof {
                    let n = choose|n: nat| n <= names@.len() && #[trigger] candidate(self.filename@, n)
                        == name@ && first_free(self.filename@, names@, n);
                    let m = choose|m: nat| #[trigger] first_free(self.filename@, names@, m);
                    lemma_first_free_unique(self.filename@, names@, n, m);
                }
                let t = join_path(dir.as_str(), name.as_str());
                self.target = t.clone();
                self.phase = Phase::AwaitCreate;
                UploadAction::CreateFile { path: t }
            },
            UploadEvent::CreateFailed => self.finish(UploadOutcome::FileCreateFailed),
            UploadEvent::FileCreated => {
                self.phase = Phase::AwaitChunk;
                UploadAction::NextChunk
            },
            UploadEvent::ChunkReceived { data } => {
                self.phase = Phase::AwaitWrite;
                UploadAction::WriteChunk { data }
            },
            UploadEvent::ChunkFailed => {
                self.phase = Phase::AwaitRemoval;
                self.pending = UploadOutcome::StreamFailed;
                UploadAction::RemoveFile { path: self.target.clone() }
            },
            UploadEvent::FieldFinished => {
                self.phase = Phase::AwaitField;
                UploadAction::NextField
            },
            UploadEvent::ChunkWritten => {
                self.phase = Phase::AwaitChunk;
                UploadAction::NextChunk
            },
            UploadEvent::WriteFailed => {
                self.phase = Phase::AwaitRemoval;
                self.pending = UploadOutcome::WriteFailed;
                UploadAction::RemoveFile { path: self.target.clone() }
            },
            UploadEvent::FileRemoved => {
                let o = self.pending;
                self.finish(o)
            },
        }
    }
}

/// Runs the session from `s` through `evs`: the final state and the actions
/// asked for, one per event.
pub open spec fn run(s: SessionView, evs: Seq<EventView>) -> (SessionView, Seq<ActionView>)
    decreases evs.len(),
{
    if evs.len() == 0 {
        (s, Seq::empty())
    } else {
        let (s1, a) = next(s, evs[0]);
        let (s2, acts) = run(s1, evs.drop_first());
        (s2, seq![a] + acts)
    }
}

/// Every event of `evs` comes in the phase that expects it.
pub open spec fn accepted(s: SessionView, evs: Seq<EventView>) -> bool
    decreases evs.len(),
{
    evs.len() == 0 || (s.phase == phase_for(evs[0]) && accepted(next(s, evs[0]).0, evs.drop_first()))
}

/// The events of a field body that arrives as `chunks`, each written.
pub open spec fn chunk_events(chunks: Seq<Seq<u8>>) -> Seq<EventView>
    decreases chunks.len(),
{
    if chunks.len() == 0 {
        Seq::empty()
    } else {
        seq![EventView::ChunkReceived { data: chunks[0] }, EventView::ChunkWritten]
            + chunk_events(chunks.drop_first())
    }
}

/// The bytes that the actions `acts` append to the file, in order.
pub open spec fn bytes_written(acts: Seq<ActionView>) -> Seq<u8>
    decreases acts.len(),
{
    if acts.len() == 0 {
        Seq::empty()
    } else {
        let rest = bytes_written(acts.drop_first());
        match acts[0] {
            ActionView::WriteChunk { data } => data + rest,
            _ => rest,
        }
    }
}

/// `chunks` laid end to end.
pub open spec fn concat(chunks: Seq<Seq<u8>>) -> Seq<u8>
    decreases chunks.len(),
{
    if chunks.len() == 0 {
        Seq::empty()
    } else {
        chunks[0] + concat(chunks.drop_first())
    }
}

/// The actions that create or write a file.
pub open spec fn touches_file(a: ActionView) -> bool {
    a is CreateFile || a is WriteChunk
}

proof fn lemma_run_append(s: SessionView, a: Seq<EventView>, b: Seq<EventView>)
    ensures
        run(s, a + b).0 == run(run(s, a).0, b).0,
        run(s, a + b).1 == run(s, a).1 + run(run(s, a).0, b).1,
        accepted(s, a + b) == (accepted(s, a) && accepted(run(s, a).0, b)),
    decreases a.len(),
{
    if a.len() == 0 {
        assert(a + b =~= b);
        assert(run(s, a).1 + run(run(s, a).0, b).1 =~= run(run(s, a).0, b).1);
    } else {
        assert((a + b).drop_first() =~= a.drop_first() + b);
        lemma_run_append(next(s, a[0]).0, a.drop_first(), b);
        assert(run(s, a + b).1 =~= run(s, a).1 + run(run(s, a).0, b).1);
    }
}

proof fn lemma_bytes_written_append(a: Seq<ActionView>, b: Seq<ActionView>)
    ensures
        bytes_written(a + b) == bytes_written(a) + bytes_written(b),
    decreases a.len(),
{
    if a.len() == 0 {
        assert(a + b =~= b);
        assert(bytes_written(a) + bytes_written(b) =~= bytes_written(b));
    } else {
        assert((a + b).drop_first() =~= a.drop_first() + b);
        lemma_bytes_written_append(a.drop_first(), b);
        match a[0] {
            ActionView::WriteChunk { data } => {
                assert(data + (bytes_written(a.drop_first()) + bytes_written(b)) =~= (data
                    + bytes_written(a.drop_first())) + bytes_written(b));
            },
            _ => {},
        }
    }
}

proof fn lemma_stream(s: SessionView, chunks: Seq<Seq<u8>>)
    requires
        s.phase == Phase::AwaitChunk,
    ensures
        run(s, chunk_events(chunks)).0 == s,
        accepted(s, chunk_events(chunks)),
        bytes_written(run(s, chunk_events(chunks)).1) == concat(chunks),
        forall|i: int|
            0 <= i < run(s, chunk_events(chunks)).1.len() ==> !(#[trigger] run(
                s,
                chunk_events(chunks),
            ).1[i] is CreateFile),
    decreases chunks.len(),
{
    reveal_with_fuel(run, 3);
    reveal_with_fuel(accepted, 3);
    reveal_with_fuel(bytes_written, 3);
    let evs = chunk_events(chunks);
    if chunks.len() == 0 {
    } else {
        let head = seq![EventView::ChunkReceived { data: chunks[0] }, EventView::ChunkWritten];
        let tail = chunk_events(chunks.drop_first());
        lemma_stream(s, chunks.drop_first());
        lemma_run_append(s, head, tail);
        let s1 = next(s, head[0]).0;
        assert(head.drop_first() =~= seq![EventView::ChunkWritten]);
        assert(seq![EventView::ChunkWritten].drop_first() =~= Seq::<EventView>::empty());
        assert(run(s, head).0 == s);
        let acts = seq![ActionView::WriteChunk { data: chunks[0] }, ActionView::NextChunk];
        assert(run(s, head).1 =~= acts);
        assert(accepted(s, head));
        lemma_bytes_written_append(acts, run(s, tail).1);
        assert(acts.drop_first() =~= seq![ActionView::NextChunk]);
        assert(seq![ActionView::NextChunk].drop_first() =~= Seq::<ActionView>::empty());
        assert(bytes_written(seq![ActionView::NextChunk]) =~= Seq::<u8>::empty());
        assert(bytes_written(acts) =~= chunks[0]);
        let all = run(s, evs).1;
        assert forall|i: int| 0 <= i < all.len() implies !(#[trigger] all[i] is CreateFile) by {
            if i >= 2 {
                assert(all[i] == run(s, tail).1[i - 2]);
            }
        }
    }
}

/// An upload of one field named `f` into a directory where no entry is named
/// `f` creates the file at exactly the directory joined with `f`, appends
/// every chunk of the body unchanged and in order, so that the file holds
/// the body byte for byte, and answers `Success`.
pub proof fn lemma_upload_fresh(
    s: SessionView,
    f: Seq<char>,
    names: Seq<String>,
    chunks: Seq<Seq<u8>>,
)
    requires
        s.phase == Phase::AwaitField,
        s.dir is Some,
        safe_filename(f),
        !crate::unique::is_taken(names, f),
    ensures
        ({
            let evs = seq![
                EventView::FieldStarted { filename: Some(f) },
                EventView::DirReady { names },
                EventView::FileCreated,
            ] + chunk_events(chunks) + seq![EventView::FieldFinished, EventView::NoMoreFields];
            let (s2, acts) = run(s, evs);
            &&& accepted(s, evs)
            &&& acts[0] == ActionView::PrepareDir { dir: s.dir_path() }
            &&& acts[1] == ActionView::CreateFile { path: join(s.dir_path(), f) }
            &&& forall|i: int| 1 < i < acts.len() ==> !(#[trigger] acts[i] is CreateFile)
            &&& bytes_written(acts) == concat(chunks)
            &&& acts.last() == ActionView::Respond { outcome: UploadOutcome::Success }
            &&& s2.phase == Phase::Finished
        }),
{
    reveal_with_fuel(run, 4);
    reveal_with_fuel(accepted, 4);
    reveal_with_fuel(bytes_written, 4);
    let d = s.dir_path();
    let start = seq![
        EventView::FieldStarted { filename: Some(f) },
        EventView::DirReady { names },
        EventView::FileCreated,
    ];
    let body = chunk_events(chunks);
    let end = seq![EventView::FieldFinished, EventView::NoMoreFields];
    let evs = start + body + end;
    assert(first_free(f, names, 0));
    assert(free_name(f, names) == f) by {
        let n = choose|n: nat| #[trigger] first_free(f, names, n);
        lemma_first_free_unique(f, names, n, 0);
    }
    let s1 = SessionView { phase: Phase::AwaitDir, filename: f, ..s };
    let s2 = SessionView { phase: Phase::AwaitCreate, filename: f, target: join(d, f), ..s };
    let s3 = SessionView { phase: Phase::AwaitChunk, filename: f, target: join(d, f), ..s };
    assert(next(s, start[0]) == (s1, ActionView::PrepareDir { dir: d }));
    assert(next(s1, start[1]) == (s2, ActionView::CreateFile { path: join(d, f) }));
    assert(next(s2, start[2]) == (s3, ActionView::NextChunk));
    assert(start.drop_first() =~= seq![start[1], start[2]]);
    assert(seq![start[1], start[2]].drop_first() =~= seq![start[2]]);
    assert(seq![start[2]].drop_first() =~= Seq::<EventView>::empty());
    let a0 = seq![
        ActionView::PrepareDir { dir: d },
        ActionView::CreateFile { path: join(d, f) },
        ActionView::NextChunk,
    ];
    assert(run(s, start).0 == s3);
    assert(run(s, start).1 =~= a0);
    assert(accepted(s, start));
    lemma_stream(s3, chunks);
    let s4 = SessionView { phase: Phase::AwaitField, ..s3 };
    let s5 = SessionView { phase: Phase::Finished, pending: UploadOutcome::Success, ..s4 };
    assert(end.drop_first() =~= seq![EventView::NoMoreFields]);
    assert(seq![EventView::NoMoreFields].drop_first() =~= Seq::<EventView>::empty());
    let a2 = seq![ActionView::NextField, ActionView::Respond { outcome: UploadOutcome::Success }];
    assert(run(s3, end).0 == s5);
    assert(run(s3, end).1 =~= a2);
    assert(accepted(s3, end));
    lemma_run_append(s, start, body);
    lemma_run_append(s, start + body, end);
    let a1 = run(s3, body).1;
    let acts = run(s, evs).1;
    assert(acts =~= a0 + a1 + a2);
    lemma_bytes_written_append(a0, a1);
    lemma_bytes_written_append(a0 + a1, a2);
    assert(a0.drop_first() =~= seq![a0[1], a0[2]]);
    assert(seq![a0[1], a0[2]].drop_first() =~= seq![a0[2]]);
    assert(seq![a0[2]].drop_first() =~= Seq::<ActionView>::empty());
    assert(bytes_written(a0) =~= Seq::<u8>::empty());
    assert(a2.drop_first() =~= seq![a2[1]]);
    assert(seq![a2[1]].drop_first() =~= Seq::<ActionView>::empty());
    assert(bytes_written(a2) =~= Seq::<u8>::empty());
    assert(bytes_written(acts) =~= concat(chunks));
    assert forall|i: int| 1 < i < acts.len() implies !(#[trigger] acts[i] is CreateFile) by {
        if 3 <= i < 3 + a1.len() {
            assert(acts[i] == a1[i - 3]);
        }
    }
}

/// Where the declared name is already taken in the directory, the file is
/// created as `<stem>-<n>.<ext>` for the least `n` whose name is free: with
/// the name itself taken and `<stem>-1.<ext>` free, that is `<stem>-1.<ext>`.
pub proof fn lemma_upload_collision(s: SessionView, names: Seq<String>, n: nat)
    requires
        s.phase == Phase::AwaitDir,
        first_free(s.filename, names, n),
    ensures
        next(s, EventView::DirReady { names }).1 == (ActionView::CreateFile {
            path: join(s.dir_path(), candidate(s.filename, n)),
        }),
        crate::unique::is_taken(names, s.filename) && !crate::unique::is_taken(
            names,
            candidate(s.filename, 1),
        ) ==> n == 1 && candidate(s.filename, n) == crate::unique::stem_of(s.filename) + seq![
            '-',
            '1',
            '.',
        ] + crate::unique::ext_of(s.filename),
{
    let m = choose|m: nat| #[trigger] first_free(s.filename, names, m);
    lemma_first_free_unique(s.filename, names, n, m);
    if crate::unique::is_taken(names, s.filename) && !crate::unique::is_taken(
        names,
        candidate(s.filename, 1),
    ) {
        assert(first_free(s.filename, names, 1));
        lemma_first_free_unique(s.filename, names, n, 1);
        assert(crate::unique::decimal(1) =~= seq!['1']);
        assert(candidate(s.filename, 1) =~= crate::unique::stem_of(s.filename) + seq![
            '-',
            '1',
            '.',
        ] + crate::unique::ext_of(s.filename));
    }
}

/// A field without a file name, or with an empty one, ends the session with
/// `NoFilename`; a finished session accepts no event, so no file is created.
pub proof fn lemma_no_filename(s: SessionView, f: Option<Seq<char>>)
    requires
        s.phase == Phase::AwaitField,
        f is None || f->0.len() == 0,
    ensures
        next(s, EventView::FieldStarted { filename: f }).1 == (ActionView::Respond {
            outcome: UploadOutcome::NoFilename,
        }),
        next(s, EventView::FieldStarted { filename: f }).0.phase == Phase::Finished,
        forall|ev: EventView| phase_for(ev) != Phase::Finished,
{
}

/// A request path that decodes to `/upload` followed by something that does
/// not start with `/` is refused: its first field with a file name ends the
/// session with `BadPath`.
pub proof fn lemma_bad_path(
    root: Seq<char>,
    path: Seq<char>,
    x: Seq<char>,
    f: Seq<char>,
)
    requires
        crate::resolve::percent_decoded(path) == Some(crate::resolve::upload_prefix() + x),
        x.len() > 0,
        x[0] != '/',
        f.len() > 0,
    ensures
        request_dir(root, path) is None,
        next(initial(request_dir(root, path)), EventView::FieldStarted { filename: Some(f) }).1
            == (ActionView::Respond { outcome: UploadOutcome::BadPath }),
{
    let d = crate::resolve::upload_prefix() + x;
    assert(d.subrange(0, 7) =~= crate::resolve::upload_prefix());
    assert(d[7] == x[0]);
}

} // verus!
