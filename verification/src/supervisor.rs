//! Backend supervisor: the decision core that owns the port registry and
//! the handle of the spawned backend process. The driver around it performs
//! the outside work — spawning, reading the child's streams, killing the
//! process tree — and feeds every observation in here, where the reaction
//! is decided and the state is kept.

use vstd::prelude::*;

use crate::fallback::port_from_server_info;
use crate::fallback::server_info_port;
use crate::registry::url_of;
use crate::registry::PortRegistry;
use crate::scan::lemma_scan_in_range;
use crate::scan::parse_port_from_line;
use crate::scan::scan_spec;

verus! {

/// One observation taken from the child process: a line of either output
/// stream, a spawn-machinery error, or its termination with an optional
/// exit code. Each event is consumed exactly once and never stored.
pub enum OutputEvent {
    StdoutLine(String),
    StderrLine(String),
    SpawnError(String),
    Terminated(Option<i32>),
}

/// What one line does to the registry state: nothing once a port is held,
/// otherwise whatever the scanner makes of the line.
pub open spec fn after_line(state: Option<u16>, line: Seq<char>) -> Option<u16> {
    match state {
        Some(_) => state,
        None => scan_spec(line),
    }
}

/// What one event does to the registry state: both output streams are
/// scanned alike; errors and termination leave the state alone.
pub open spec fn after_event(state: Option<u16>, event: OutputEvent) -> Option<u16> {
    match event {
        OutputEvent::StdoutLine(l) => after_line(state, l@),
        OutputEvent::StderrLine(l) => after_line(state, l@),
        OutputEvent::SpawnError(_) => state,
        OutputEvent::Terminated(_) => state,
    }
}

/// What the fallback file text does to the registry state: nothing once a
/// port is held, otherwise whatever the file offers.
pub open spec fn after_fallback(state: Option<u16>, content: Seq<char>) -> Option<
    u16,
> {
    match state {
        Some(_) => state,
        None => server_info_port(content),
    }
}

/// The supervisor owns at most one live backend process at a time, known
/// here by its process identifier, and the registry the port lands in.
pub struct Supervisor {
    registry: PortRegistry,
    child: Option<u32>,
}

/// The full effect of one `shutdown` call: the handle is taken out and
/// handed to the caller for termination, and the registry is untouched.
pub open spec fn shutdown_post(
    pre: Supervisor,
    post: Supervisor,
    victim: Option<u32>,
) -> bool {
    &&& post.child_view() is None
    &&& victim == pre.child_view()
    &&& post.port_view() == pre.port_view()
}

impl Supervisor {
    /// The registry state: the discovered port, if any.
    pub closed spec fn port_view(&self) -> Option<u16> {
        self.registry@
    }

    /// The stored process handle, if a backend is live.
    pub closed spec fn child_view(&self) -> Option<u32> {
        self.child
    }

    /// A supervisor with no backend spawned and nothing discovered.
    pub fn new() -> (r: Self)
        ensures
            r.port_view() is None,
            r.child_view() is None,
    {
        Supervisor { registry: PortRegistry::new(), child: None }
    }

    /// Whether `start` may spawn: at most one backend is ever live, so a
    /// start request while a handle exists must be dropped.
    pub fn may_start(&self) -> (r: bool)
        ensures
            r == (self.child_view() is None),
    {
        self.child.is_none()
    }

    /// Records the freshly spawned backend. The caller spawns only after
    /// `may_start`, so no live handle is ever overwritten.
    pub fn attach_child(&mut self, pid: u32)
        requires
            old(self).child_view() is None,
        ensures
            final(self).child_view() == Some(pid),
            final(self).port_view() == old(self).port_view(),
    {
        self.child = Some(pid);
    }

    /// Consumes one event of the monitoring loop. While the registry is
    /// still empty, output lines are fed to the scanner and the first
    /// success is written; afterwards lines pass through untouched. The
    /// result says whether the loop is over. A line that yields no port is
    /// a normal outcome, never an error.
    pub fn handle_event(&mut self, event: OutputEvent) -> (done: bool)
        ensures
            final(self).child_view() == old(self).child_view(),
            final(self).port_view() == after_event(old(self).port_view(), event),
            done == (event is Terminated),
    {
        match &event {
            OutputEvent::StdoutLine(l) => {
                self.scan_line(l.as_str());
                false
            },
            OutputEvent::StderrLine(l) => {
                self.scan_line(l.as_str());
                false
            },
            OutputEvent::SpawnError(_) => false,
            OutputEvent::Terminated(_) => true,
        }
    }

    /// Feeds one output line to the scanner while no port is held yet.
    fn scan_line(&mut self, line: &str)
        ensures
            final(self).child_view() == old(self).child_view(),
            final(self).port_view() == after_line(old(self).port_view(), line@),
    {
        if self.registry.get().is_none() {
            match parse_port_from_line(line) {
                Some(p) => {
                    proof {
                        lemma_scan_in_range(line@);
                    }
                    self.registry.offer(p);
                },
                None => {},
            }
        }
    }

    /// Whether the fallback file is worth reading: only a still-empty
    /// registry takes a fallback port.
    pub fn needs_fallback(&self) -> (r: bool)
        ensures
            r == (self.port_view() is None),
    {
        self.registry.get().is_none()
    }

    /// Consumes the text of the fallback file, read after the event stream
    /// closed with the registry still empty.
    pub fn apply_fallback(&mut self, content: &str)
        ensures
            final(self).child_view() == old(self).child_view(),
            final(self).port_view() == after_fallback(
                old(self).port_view(),
                content@,
            ),
    {
        if self.registry.get().is_none() {
            match port_from_server_info(content) {
                Some(p) => self.registry.offer(p),
                None => {},
            }
        }
    }

    /// The URL the shell addresses the backend by. Never blocks, never
    /// fails: without a discovered port it is the fixed default.
    pub fn get_backend_url(&self) -> (r: String)
        ensures
            r@ == url_of(self.port_view()),
    {
        self.registry.query_url()
    }

    /// The discovered port, or zero while none is known.
    pub fn get_backend_port(&self) -> (r: u16)
        ensures
            r == match self.port_view() {
                Some(p) => p,
                None => 0u16,
            },
    {
        match self.registry.get() {
            Some(p) => p,
            None => 0,
        }
    }

    /// Takes the stored handle out for termination. The caller must kill
    /// the whole descendant tree of the returned process and then clean the
    /// temp artifacts; with no handle stored there is nothing to do.
    pub fn shutdown(&mut self) -> (victim: Option<u32>)
        ensures
            shutdown_post(*old(self), *final(self), victim),
    {
        let victim = self.child;
        self.child = None;
        victim
    }
}

/// Once a port is held, it is held for the rest of the supervisor's
/// lifetime: no later line, event or fallback text ever changes it.
pub proof fn lemma_port_is_stable(p: u16, event: OutputEvent, content: Seq<char>)
    ensures
        after_event(Some(p), event) == Some(p),
        after_fallback(Some(p), content) == Some(p),
{
}

/// Shutting down twice in a row is safe: the second call finds no handle,
/// asks the caller to kill nothing, and changes nothing.
pub proof fn lemma_shutdown_idempotent(
    s1: Supervisor,
    s2: Supervisor,
    s3: Supervisor,
    v2: Option<u32>,
    v3: Option<u32>,
)
    requires
        shutdown_post(s1, s2, v2),
        shutdown_post(s2, s3, v3),
    ensures
        v3 is None,
        s3.child_view() == s2.child_view(),
        s3.port_view() == s2.port_view(),
{
}

} // verus!
