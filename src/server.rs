use vstd::prelude::*;
use std::collections::HashMap;
use crate::request::request_line_of;
use crate::response::{
    document_path, escapes_root, file_response, file_response_of, file_view, make_response, served_response,
    Plan,
};

verus! {

broadcast use vstd::std_specs::hash::group_hash_axioms;

/// Where a connection stands: waiting for its request; waiting for the file
/// that the GET it received (kept as ghost state) names; or holding the part of
/// its response not yet written, which goes out as the socket becomes writable.
pub enum ConnectionState {
    AwaitingRequest,
    AwaitingFile(Ghost<Seq<u8>>),
    AwaitingWrite(Vec<u8>),
}

/// Every connection but `id` is live in `after` exactly when it is in `before`,
/// with the same socket and state.
pub open spec fn unchanged_except<S>(
    before: Map<usize, Connection<S>>,
    after: Map<usize, Connection<S>>,
    id: usize,
) -> bool {
    forall|k: usize|
        k != id ==> (#[trigger] after.contains_key(k) == before.contains_key(k)) && (
        before.contains_key(k) ==> after[k] == before[k])
}

/// Whether a connection holds, whole and unwritten, the response to `request`
/// met with the file outcome `file`.
pub open spec fn answers<S>(conn: Connection<S>, request: Seq<u8>, file: Option<Seq<u8>>) -> bool {
    conn.state matches ConnectionState::AwaitingWrite(v) && v@ == served_response(request, file)
}

/// A connection waiting for its file received a GET whose target stays under
/// the document root.
pub open spec fn awaits_own_file(state: ConnectionState) -> bool {
    state matches ConnectionState::AwaitingFile(request) ==> (request_line_of(request@) matches Some(
        line,
    ) && line.0 == "GET"@ && !escapes_root(line.1))
}

/// One accepted connection: its socket and its state.
pub struct Connection<S> {
    pub socket: S,
    pub state: ConnectionState,
}

/// What the event loop does after a readable event.
pub enum ReadStep<S> {
    /// No live connection has this identifier: the event is ignored.
    Stale,
    /// The peer closed: the connection left the table and its socket is handed back.
    Closed(S),
    /// A GET: the file at this path is to be read and its outcome handed to `file_loaded`.
    Fetch(String),
    /// The response is stored: the connection now waits to be writable.
    Respond,
}

/// What the event loop does after writing part of a response.
pub enum WriteStep<S> {
    /// No live connection with this identifier holds a response: nothing changed.
    Stale,
    /// Bytes remain: the connection keeps them and waits to be writable again.
    Pending,
    /// All of the response went out: the connection left the table and its
    /// socket is handed back to be closed.
    Finished(S),
}

/// The connection table and the identifier counter of the event loop.
/// Identifier 0 belongs to the listening socket; connections get 1, 2, ... in
/// order, never reused.
pub struct WebServer<S> {
    connections: HashMap<usize, Connection<S>>,
    next_connection_id: usize,
}

impl<S> WebServer<S> {
    /// The live connections by identifier.
    pub closed spec fn table(&self) -> Map<usize, Connection<S>> {
        self.connections@
    }

    /// The identifier the next accepted connection gets.
    pub closed spec fn next_id(&self) -> usize {
        self.next_connection_id
    }

    /// Every live identifier was handed out already: at least 1, below the
    /// counter; and a connection waits for a file only after a GET for it.
    pub open spec fn wf(&self) -> bool {
        &&& self.next_id() >= 1
        &&& forall|id: usize| #[trigger] self.table().contains_key(id) ==> 1 <= id < self.next_id()
        &&& forall|id: usize| #[trigger]
            self.table().contains_key(id) ==> awaits_own_file(self.table()[id].state)
    }

    pub fn new() -> (r: Self)
        ensures
            r.wf(),
            r.table().is_empty(),
            r.next_id() == 1,
    {
        WebServer { connections: HashMap::new(), next_connection_id: 1 }
    }

    /// The identifier the next accepted connection gets.
    pub fn next_connection_id(&self) -> (r: usize)
        ensures
            r == self.next_id(),
    {
        self.next_connection_id
    }

    /// The number of live connections.
    pub fn connection_count(&self) -> (r: usize)
        ensures
            r == self.table().len(),
    {
        self.connections.len()
    }

    /// Adds a newly accepted connection, waiting for its request, under the next
    /// identifier, which it returns. `None` when identifiers are exhausted; the
    /// socket is then dropped.
    pub fn connection_handler(&mut self, socket: S) -> (r: Option<usize>)
        requires
            old(self).wf(),
        ensures
            final(self).wf(),
            unchanged_except(old(self).table(), final(self).table(), old(self).next_id()),
            old(self).next_id() < usize::MAX ==> {
                &&& r == Some(old(self).next_id())
                &&& final(self).next_id() == old(self).next_id() + 1
                &&& final(self).table() == old(self).table().insert(
                    old(self).next_id(),
                    (Connection { socket, state: ConnectionState::AwaitingRequest }),
                )
            },
            old(self).next_id() == usize::MAX ==> {
                &&& r is None
                &&& final(self).next_id() == old(self).next_id()
                &&& final(self).table() == old(self).table()
            },
    {
        if self.next_connection_id == usize::MAX {
            return None;
        }
        let id = self.next_connection_id;
        assert(!self.table().contains_key(id));
        let previous = self.connections.insert(
            id,
            Connection { socket, state: ConnectionState::AwaitingRequest },
        );
        assert(previous is None);
        self.next_connection_id = id + 1;
        Some(id)
    }

    /// The socket of a live connection.
    pub fn socket(&self, id: usize) -> (r: Option<&S>)
        ensures
            match r {
                Some(s) => self.table().contains_key(id) && *s == self.table()[id].socket,
                None => !self.table().contains_key(id),
            },
    {
        match self.connections.get(&id) {
            Some(conn) => Some(&conn.socket),
            None => None,
        }
    }

    /// Handles a readable event on connection `id` that read the first `nbytes`
    /// bytes of `buffer`. No bytes means the peer closed: the connection leaves
    /// the table. Otherwise the request decides: a malformed request or a method
    /// other than GET, or a GET whose target `escapes_root`, gets its response
    /// stored at once; any other GET asks for its file under `root`. Other connections are left as they were.
    pub fn request_received(&mut self, id: usize, buffer: &[u8], nbytes: usize, root: &str) -> (r:
        ReadStep<S>)
        requires
            old(self).wf(),
            nbytes <= buffer@.len(),
        ensures
            final(self).wf(),
            final(self).next_id() == old(self).next_id(),
            unchanged_except(old(self).table(), final(self).table(), id),
            !old(self).table().contains_key(id) ==> r is Stale && final(self).table() == old(
                self,
            ).table(),
            old(self).table().contains_key(id) && nbytes == 0 ==> {
                &&& r matches ReadStep::Closed(s) && s == old(self).table()[id].socket
                &&& !final(self).table().contains_key(id)
            },
            old(self).table().contains_key(id) && nbytes > 0 ==> {
                let request = buffer@.take(nbytes as int);
                &&& final(self).table().contains_key(id)
                &&& final(self).table()[id].socket == old(self).table()[id].socket
                &&& match request_line_of(request) {
                    Some(line) if line.0 == "GET"@ && !escapes_root(line.1) => {
                        &&& r matches ReadStep::Fetch(path) && path@ == document_path(root@, line.1)
                        &&& final(self).table()[id].state == ConnectionState::AwaitingFile(
                            Ghost(request),
                        )
                    },
                    _ => {
                        &&& r is Respond
                        &&& final(self).table()[id].state is AwaitingWrite
                        &&& forall|file: Option<Seq<u8>>|
                            #[trigger] answers(final(self).table()[id], request, file)
                    },
                }
            },
    {
        let conn = match self.connections.remove(&id) {
            Some(conn) => conn,
            None => return ReadStep::Stale,
        };
        if nbytes == 0 {
            return ReadStep::Closed(conn.socket);
        }
        match make_response(buffer, nbytes, root) {
            Plan::ServeFile(path) => {
                let request = Ghost(buffer@.take(nbytes as int));
                self.connections.insert(
                    id,
                    Connection { socket: conn.socket, state: ConnectionState::AwaitingFile(request) },
                );
                ReadStep::Fetch(path)
            },
            Plan::Respond(response) => {
                self.connections.insert(
                    id,
                    Connection { socket: conn.socket, state: ConnectionState::AwaitingWrite(response) },
                );
                ReadStep::Respond
            },
        }
    }

    /// Stores the response to the GET that connection `id` waits on, once its
    /// file has been tried (`contents` is `None` when it could not be opened and
    /// read). Returns whether the connection was waiting for its file; if not,
    /// nothing changes. Other connections are left as they were.
    pub fn file_loaded(&mut self, id: usize, contents: Option<Vec<u8>>) -> (r: bool)
        requires
            old(self).wf(),
        ensures
            final(self).wf(),
            final(self).next_id() == old(self).next_id(),
            unchanged_except(old(self).table(), final(self).table(), id),
            r == (old(self).table().contains_key(id) && old(self).table()[id].state is AwaitingFile),
            !r ==> final(self).table() == old(self).table(),
            r ==> {
                &&& final(self).table().contains_key(id)
                &&& final(self).table()[id].socket == old(self).table()[id].socket
                &&& final(self).table()[id].state matches ConnectionState::AwaitingWrite(v) && v@
                    == file_response_of(file_view(contents))
                &&& answers(
                    final(self).table()[id],
                    old(self).table()[id].state->AwaitingFile_0@,
                    file_view(contents),
                )
            },
    {
        let conn = match self.connections.remove(&id) {
            Some(conn) => conn,
            None => return false,
        };
        match conn.state {
            ConnectionState::AwaitingFile(request) => {
                assert(awaits_own_file(old(self).table()[id].state));
                let response = file_response(contents);
                self.connections.insert(
                    id,
                    Connection { socket: conn.socket, state: ConnectionState::AwaitingWrite(response) },
                );
                true
            },
            _ => {
                self.connections.insert(id, conn);
                false
            },
        }
    }

    /// The socket of connection `id` and the bytes of its response not yet
    /// written, when it holds one.
    pub fn pending_output(&self, id: usize) -> (r: Option<(&S, &Vec<u8>)>)
        ensures
            match r {
                Some((s, v)) => {
                    &&& self.table().contains_key(id)
                    &&& *s == self.table()[id].socket
                    &&& self.table()[id].state == ConnectionState::AwaitingWrite(*v)
                },
                None => !(self.table().contains_key(id) && self.table()[id].state is AwaitingWrite),
            },
    {
        match self.connections.get(&id) {
            Some(conn) => match &conn.state {
                ConnectionState::AwaitingWrite(response) => Some((&conn.socket, response)),
                _ => None,
            },
            None => None,
        }
    }

    /// Records that the first `written` bytes of the pending response of
    /// connection `id` went out. Once all of it has, the connection leaves the
    /// table and its socket is handed back to be closed; until then it keeps the
    /// rest. A connection with no pending response is left as it was.
    pub fn response_written(&mut self, id: usize, written: usize) -> (r: WriteStep<S>)
        requires
            old(self).wf(),
        ensures
            final(self).wf(),
            final(self).next_id() == old(self).next_id(),
            unchanged_except(old(self).table(), final(self).table(), id),
            !(old(self).table().contains_key(id) && old(self).table()[id].state is AwaitingWrite)
                ==> r is Stale && final(self).table() == old(self).table(),
            old(self).table().contains_key(id) && old(self).table()[id].state is AwaitingWrite
                ==> {
                let rest = old(self).table()[id].state->AwaitingWrite_0@;
                if written >= rest.len() {
                    &&& r matches WriteStep::Finished(s) && s == old(self).table()[id].socket
                    &&& !final(self).table().contains_key(id)
                } else {
                    &&& r is Pending
                    &&& final(self).table().contains_key(id)
                    &&& final(self).table()[id].socket == old(self).table()[id].socket
                    &&& final(self).table()[id].state matches ConnectionState::AwaitingWrite(v)
                        && v@ == rest.skip(written as int)
                }
            },
    {
        let conn = match self.connections.remove(&id) {
            Some(conn) => conn,
            None => return WriteStep::Stale,
        };
        match conn.state {
            ConnectionState::AwaitingWrite(response) => {
                if written >= response.len() {
                    return WriteStep::Finished(conn.socket);
                }
                let mut rest: Vec<u8> = Vec::new();
                let mut i: usize = written;
                while i < response.len()
                    invariant
                        written <= i <= response@.len(),
                        rest@ == response@.subrange(written as int, i as int),
                    decreases response@.len() - i,
                {
                    rest.push(response[i]);
                    i = i + 1;
                    proof {
                        assert(rest@ =~= response@.subrange(written as int, i as int));
                    }
                }
                assert(rest@ =~= response@.skip(written as int));
                self.connections.insert(
                    id,
                    Connection { socket: conn.socket, state: ConnectionState::AwaitingWrite(rest) },
                );
                WriteStep::Pending
            },
            _ => {
                self.connections.insert(id, conn);
                WriteStep::Stale
            },
        }
    }

    /// Drops connection `id` from the table, as after a transport error on its
    /// socket, and hands its socket back. Other connections are left as they were.
    pub fn close_connection(&mut self, id: usize) -> (r: Option<S>)
        requires
            old(self).wf(),
        ensures
            final(self).wf(),
            final(self).next_id() == old(self).next_id(),
            final(self).table() == old(self).table().remove(id),
            unchanged_except(old(self).table(), final(self).table(), id),
            match r {
                Some(s) => old(self).table().contains_key(id) && s == old(self).table()[id].socket,
                None => !old(self).table().contains_key(id),
            },
    {
        match self.connections.remove(&id) {
            Some(conn) => Some(conn.socket),
            None => None,
        }
    }
}

/// The same request met with the same file outcome leaves byte-identical
/// responses on any two connections that hold them.
pub proof fn lemma_same_request_same_bytes<S>(
    first: Connection<S>,
    second: Connection<S>,
    request: Seq<u8>,
    file: Option<Seq<u8>>,
)
    requires
        answers(first, request, file),
        answers(second, request, file),
    ensures
        first.state->AwaitingWrite_0@ == second.state->AwaitingWrite_0@,
{
}

/// A response stored for connection `id` stays exactly the response to its own
/// request through any handler on another connection (each leaves the table
/// `unchanged_except` for the connection it handles): responses are never
/// mixed, whatever order the events of other connections come in.
pub proof fn lemma_answer_kept<S>(
    before: WebServer<S>,
    after: WebServer<S>,
    id: usize,
    other: usize,
    request: Seq<u8>,
    file: Option<Seq<u8>>,
)
    requires
        id != other,
        unchanged_except(before.table(), after.table(), other),
        before.table().contains_key(id),
        answers(before.table()[id], request, file),
    ensures
        after.table().contains_key(id),
        answers(after.table()[id], request, file),
{
    assert(after.table().contains_key(id) == before.table().contains_key(id));
}

} // verus!
