//! The synthetic network connection: connection state, fault modes and the
//! CFStream status machine that the guest polls.
use vstd::prelude::*;
use crate::profiles::{spec_payload_bytes, TitleProfile};
use crate::text::{push_char, push_signed_dec, signed_dec_seq};
use super::{MemoryArm32Backend, NetworkState};

verus! {

/// Connection state code: 5 cancelled, 4 faulted, 3 completed, 2 receiving,
/// 1 scheduled, 0 idle (the first condition that holds wins).
pub open spec fn spec_connection_state_code(n: NetworkState) -> u32 {
    if n.network_cancelled {
        5
    } else if n.network_faulted {
        4
    } else if n.network_completed {
        3
    } else if n.network_armed && n.network_stage > 0 {
        2
    } else if n.network_armed {
        1
    } else {
        0
    }
}

/// The name of a connection state code.
pub open spec fn spec_connection_state_name(code: u32) -> Seq<char> {
    if code == 1 {
        "scheduled"@
    } else if code == 2 {
        "receiving"@
    } else if code == 3 {
        "completed"@
    } else if code == 4 {
        "faulted"@
    } else if code == 5 {
        "cancelled"@
    } else {
        "idle"@
    }
}

/// Whether the connection will be retried: not cancelled and in fault mode 1, 2 or 3.
pub open spec fn spec_should_retry(n: NetworkState) -> bool {
    !n.network_cancelled && (n.network_fault_mode == 1 || n.network_fault_mode == 2 || n.network_fault_mode == 3)
}

/// How many payload bytes have been delivered so far.
pub open spec fn spec_delivered_len(n: NetworkState) -> nat {
    if n.network_cancelled {
        0
    } else if n.network_bytes_delivered > 0 {
        n.network_bytes_delivered as nat
    } else if n.network_completed {
        128
    } else {
        0
    }
}

/// The NSURL error code of the fault mode.
pub open spec fn spec_error_code(mode: u32) -> i32 {
    if mode == 2 {
        -1004i32
    } else if mode == 3 {
        -1005i32
    } else if mode == 4 {
        -999i32
    } else {
        -1001i32
    }
}

/// The short name of the fault mode.
pub open spec fn spec_error_kind(mode: u32) -> Seq<char> {
    if mode == 2 {
        "cannot-connect"@
    } else if mode == 3 {
        "lost-connection"@
    } else if mode == 4 {
        "cancelled"@
    } else {
        "timed-out"@
    }
}

/// The read stream's status after synchronising with the transport.
pub open spec fn spec_read_stream_status(n: NetworkState, delivered: nat) -> u32 {
    if n.read_stream_open {
        if n.network_cancelled || n.network_faulted {
            7
        } else if delivered == 0 {
            2
        } else if n.read_stream_bytes_consumed >= delivered {
            if n.network_source_closed {
                5
            } else {
                2
            }
        } else if n.read_stream_bytes_consumed > 0 {
            3
        } else {
            2
        }
    } else if n.read_stream_status != 6 {
        0
    } else {
        n.read_stream_status
    }
}

/// The write stream's status after synchronising with the transport.
pub open spec fn spec_write_stream_status(n: NetworkState) -> u32 {
    if n.write_stream_open {
        if n.network_cancelled || n.network_faulted {
            7
        } else if n.write_stream_bytes_written > 0 {
            4
        } else {
            2
        }
    } else if n.write_stream_status != 6 {
        0
    } else {
        n.write_stream_status
    }
}

/// Everything in the runtime state but the network connection, its fault
/// history and the run-loop counters is the same in `a` and `b`.
pub open spec fn runtime_others_same(a: MemoryArm32Backend, b: MemoryArm32Backend) -> bool {
    &&& b.runtime.heap == a.runtime.heap
    &&& b.runtime.objc == a.runtime.objc
    &&& b.runtime.ui_objects == a.runtime.ui_objects
    &&& b.runtime.openal == a.runtime.openal
    &&& b.runtime.audio_queue == a.runtime.audio_queue
    &&& b.runtime.graphics == a.runtime.graphics
    &&& b.runtime.recent_gl_calls == a.runtime.recent_gl_calls
    &&& b.runtime.gl_call_counts == a.runtime.gl_call_counts
    &&& b.runtime.foundation == a.runtime.foundation
    &&& b.runtime.textures == a.runtime.textures
    &&& b.runtime.ui_graphics == a.runtime.ui_graphics
}

/// Everything in the runtime state but the network connection and the
/// run-loop counters is the same in `a` and `b`.
pub open spec fn runtime_rest_same(a: MemoryArm32Backend, b: MemoryArm32Backend) -> bool {
    &&& b.runtime.heap == a.runtime.heap
    &&& b.runtime.objc == a.runtime.objc
    &&& b.runtime.network_fault_history == a.runtime.network_fault_history
    &&& b.runtime.ui_objects == a.runtime.ui_objects
    &&& b.runtime.openal == a.runtime.openal
    &&& b.runtime.audio_queue == a.runtime.audio_queue
    &&& b.runtime.graphics == a.runtime.graphics
    &&& b.runtime.recent_gl_calls == a.runtime.recent_gl_calls
    &&& b.runtime.gl_call_counts == a.runtime.gl_call_counts
    &&& b.runtime.foundation == a.runtime.foundation
    &&& b.runtime.textures == a.runtime.textures
    &&& b.runtime.ui_graphics == a.runtime.ui_graphics
}

/// The connection state with both stream statuses recomputed.
pub open spec fn synced(n: NetworkState) -> NetworkState {
    NetworkState {
        read_stream_status: spec_read_stream_status(n, spec_delivered_len(n)),
        write_stream_status: spec_write_stream_status(n),
        ..n
    }
}

/// The read stream reports its end exactly when it should: an open stream
/// on a live connection that delivered a payload and consumed all of it is
/// at its end (5) when the source is closed and open (2) while it is not;
/// a stream with bytes still unread is never at its end.
pub proof fn lemma_read_stream_end(n: NetworkState)
    requires
        n.read_stream_open,
        !n.network_cancelled,
        !n.network_faulted,
    ensures
        spec_delivered_len(n) > 0 && n.read_stream_bytes_consumed >= spec_delivered_len(n) ==> {
            &&& (synced(n).read_stream_status == 5) == n.network_source_closed
            &&& !n.network_source_closed ==> synced(n).read_stream_status == 2
        },
        n.read_stream_bytes_consumed < spec_delivered_len(n) ==> synced(n).read_stream_status != 5,
{
}

/// Streams report what the transport is doing, in CFStreamStatus terms:
/// an open stream on a cancelled or faulted connection is in error (7);
/// a read stream part of whose payload was read is reading (3); a write
/// stream that has written bytes on a live connection is writing (4); a
/// stream that is not open stays closed (6) once closed and is otherwise
/// not open (0). Each status is named by its CFStreamStatus meaning.
pub proof fn lemma_stream_status_kinds(n: NetworkState)
    ensures
        n.read_stream_open && (n.network_cancelled || n.network_faulted) ==> synced(n).read_stream_status == 7,
        n.write_stream_open && (n.network_cancelled || n.network_faulted) ==> synced(n).write_stream_status == 7,
        n.read_stream_open && !n.network_cancelled && !n.network_faulted && 0 < n.read_stream_bytes_consumed
            < spec_delivered_len(n) ==> synced(n).read_stream_status == 3,
        n.write_stream_open && !n.network_cancelled && !n.network_faulted && n.write_stream_bytes_written > 0
            ==> synced(n).write_stream_status == 4,
        !n.read_stream_open ==> synced(n).read_stream_status == (if n.read_stream_status == 6 {
            6u32
        } else {
            0u32
        }),
        !n.write_stream_open ==> synced(n).write_stream_status == (if n.write_stream_status == 6 {
            6u32
        } else {
            0u32
        }),
        spec_stream_status_name(0) == "not-open"@,
        spec_stream_status_name(2) == "open"@,
        spec_stream_status_name(3) == "reading"@,
        spec_stream_status_name(4) == "writing"@,
        spec_stream_status_name(5) == "at-end"@,
        spec_stream_status_name(6) == "closed"@,
        spec_stream_status_name(7) == "error"@,
{
}

/// The error a fault reports is one error: its NSURL code, its short kind
/// and its description name the same failure (-999 cancelled, -1004
/// cannot connect, -1005 connection lost, -1001 timed out).
pub proof fn lemma_error_code_kind_agree(mode: u32)
    ensures
        (spec_error_code(mode) == -999) == (spec_error_kind(mode) == "cancelled"@),
        (spec_error_code(mode) == -999) == (spec_error_description(mode) == "The connection was cancelled."@),
        (spec_error_code(mode) == -1004) == (spec_error_kind(mode) == "cannot-connect"@),
        (spec_error_code(mode) == -1004) == (spec_error_description(mode)
            == "The connection could not be established."@),
        (spec_error_code(mode) == -1005) == (spec_error_kind(mode) == "lost-connection"@),
        (spec_error_code(mode) == -1005) == (spec_error_description(mode) == "The network connection was lost."@),
        (spec_error_code(mode) == -1001) == (spec_error_kind(mode) == "timed-out"@),
        (spec_error_code(mode) == -1001) == (spec_error_description(mode) == "The request timed out."@),
{
    reveal_strlit("cancelled");
    reveal_strlit("cannot-connect");
    reveal_strlit("lost-connection");
    reveal_strlit("timed-out");
    reveal_strlit("The connection was cancelled.");
    reveal_strlit("The connection could not be established.");
    reveal_strlit("The network connection was lost.");
    reveal_strlit("The request timed out.");
    assert("timed-out"@[0] != "cancelled"@[0]);
    assert("cannot-connect"@.len() != "cancelled"@.len());
    assert("lost-connection"@.len() != "cancelled"@.len());
    assert("cannot-connect"@.len() != "lost-connection"@.len());
    assert("cannot-connect"@.len() != "timed-out"@.len());
    assert("lost-connection"@.len() != "timed-out"@.len());
    assert("The connection was cancelled."@.len() != "The request timed out."@.len());
    assert("The connection was cancelled."@.len() != "The network connection was lost."@.len());
    assert("The connection was cancelled."@.len() != "The connection could not be established."@.len());
    assert("The request timed out."@.len() != "The network connection was lost."@.len());
    assert("The request timed out."@.len() != "The connection could not be established."@.len());
    assert("The network connection was lost."@.len() != "The connection could not be established."@.len());
}

/// A title's endpoint URL is `https://`, its host, then its path.
pub proof fn lemma_network_url_parts(p: TitleProfile)
    ensures
        spec_network_url(p) == "https://"@ + spec_network_host(p) + spec_network_path(p),
{
    reveal_strlit("https://");
    reveal_strlit("bootstrap.generic.local");
    reveal_strlit("/bootstrap.txt");
    reveal_strlit("https://bootstrap.generic.local/bootstrap.txt");
    reveal_strlit("bootstrap.forever-entertainment.local");
    reveal_strlit("/aboveandbelow/bootstrap.txt");
    reveal_strlit("https://bootstrap.forever-entertainment.local/aboveandbelow/bootstrap.txt");
    match p {
        TitleProfile::Default => {
            assert(spec_network_url(p) =~= "https://"@ + spec_network_host(p) + spec_network_path(p));
        },
        TitleProfile::AboveAndBelow => {
            assert(spec_network_url(p) =~= "https://"@ + spec_network_host(p) + spec_network_path(p));
        },
    }
}

/// The state a connection reports follows its flags: a cancelled one is
/// `cancelled`, a faulted one `faulted`, a completed one `completed`, an
/// armed one `receiving` once a stage began and `scheduled` before, any
/// other `idle`; each earlier condition wins.
pub proof fn lemma_connection_state_name(n: NetworkState)
    ensures
        n.network_cancelled ==> spec_connection_state_name(spec_connection_state_code(n)) == "cancelled"@,
        !n.network_cancelled && n.network_faulted ==> spec_connection_state_name(spec_connection_state_code(n))
            == "faulted"@,
        !n.network_cancelled && !n.network_faulted && n.network_completed ==> spec_connection_state_name(
            spec_connection_state_code(n),
        ) == "completed"@,
        !n.network_cancelled && !n.network_faulted && !n.network_completed && n.network_armed ==> spec_connection_state_name(
            spec_connection_state_code(n),
        ) == (if n.network_stage > 0 {
            "receiving"@
        } else {
            "scheduled"@
        }),
        !n.network_cancelled && !n.network_faulted && !n.network_completed && !n.network_armed ==> spec_connection_state_name(
            spec_connection_state_code(n),
        ) == "idle"@,
{
}

/// The names of the set reachability flags, joined by `|`, or `None`.
pub open spec fn spec_reachability_label(flags: u32) -> Seq<char> {
    let reachable = (flags & 1) != 0;
    let transient = (flags & 2) != 0;
    let wwan = (flags & 4) != 0;
    if !reachable && !transient && !wwan {
        "None"@
    } else {
        (if reachable { "Reachable"@ } else { Seq::empty() }) + (if transient {
            (if reachable { "|"@ } else { Seq::empty() }) + "TransientConnection"@
        } else {
            Seq::empty()
        }) + (if wwan {
            (if reachable || transient { "|"@ } else { Seq::empty() }) + "WWAN"@
        } else {
            Seq::empty()
        })
    }
}

/// The absolute URL of a title's synthetic endpoint.
pub open spec fn spec_network_url(p: TitleProfile) -> Seq<char> {
    match p {
        TitleProfile::Default => "https://bootstrap.generic.local/bootstrap.txt"@,
        TitleProfile::AboveAndBelow => "https://bootstrap.forever-entertainment.local/aboveandbelow/bootstrap.txt"@,
    }
}

/// The host of a title's synthetic endpoint.
pub open spec fn spec_network_host(p: TitleProfile) -> Seq<char> {
    match p {
        TitleProfile::Default => "bootstrap.generic.local"@,
        TitleProfile::AboveAndBelow => "bootstrap.forever-entertainment.local"@,
    }
}

/// The localized description of a fault mode.
pub open spec fn spec_error_description(mode: u32) -> Seq<char> {
    if mode == 2 {
        "The connection could not be established."@
    } else if mode == 3 {
        "The network connection was lost."@
    } else if mode == 4 {
        "The connection was cancelled."@
    } else {
        "The request timed out."@
    }
}

/// The path of a title's synthetic endpoint.
pub open spec fn spec_network_path(p: TitleProfile) -> Seq<char> {
    match p {
        TitleProfile::Default => "/bootstrap.txt"@,
        TitleProfile::AboveAndBelow => "/aboveandbelow/bootstrap.txt"@,
    }
}

/// The name of a CFStream status code.
pub open spec fn spec_stream_status_name(code: u32) -> Seq<char> {
    if code == 1 {
        "opening"@
    } else if code == 2 {
        "open"@
    } else if code == 3 {
        "reading"@
    } else if code == 4 {
        "writing"@
    } else if code == 5 {
        "at-end"@
    } else if code == 6 {
        "closed"@
    } else if code == 7 {
        "error"@
    } else {
        "not-open"@
    }
}

impl MemoryArm32Backend {
    /// The absolute URL of the synthetic endpoint.
    pub fn network_url_string(&self) -> (s: &'static str)
        ensures
            s@ == spec_network_url(self.profile),
            self.profile == TitleProfile::Default ==> s@ == "https://bootstrap.generic.local/bootstrap.txt"@,
            self.profile == TitleProfile::AboveAndBelow ==> s@
                == "https://bootstrap.forever-entertainment.local/aboveandbelow/bootstrap.txt"@,
    {
        self.profile.synthetic_network_profile().url
    }

    /// The host of the synthetic endpoint.
    pub fn network_host_string(&self) -> (s: &'static str)
        ensures
            s@ == spec_network_host(self.profile),
            self.profile == TitleProfile::Default ==> s@ == "bootstrap.generic.local"@,
            self.profile == TitleProfile::AboveAndBelow ==> s@ == "bootstrap.forever-entertainment.local"@,
    {
        self.profile.synthetic_network_profile().host
    }

    /// The path of the synthetic endpoint.
    pub fn network_path_string(&self) -> (s: &'static str)
        ensures
            s@ == spec_network_path(self.profile),
            self.profile == TitleProfile::Default ==> s@ == "/bootstrap.txt"@,
            self.profile == TitleProfile::AboveAndBelow ==> s@ == "/aboveandbelow/bootstrap.txt"@,
    {
        self.profile.synthetic_network_profile().path
    }

    /// The HTTP method of the synthetic request.
    pub fn network_http_method(&self) -> (s: &'static str)
        ensures
            s@ == "GET"@,
    {
        self.profile.synthetic_network_profile().method
    }

    /// The current reachability flags.
    pub fn reachability_flags(&self) -> (f: u32)
        ensures
            f == self.runtime.ui_network.reachability_flags,
    {
        self.runtime.ui_network.reachability_flags
    }

    /// The reachability flags by name, e.g. `Reachable|WWAN`, or `None`.
    pub fn reachability_flags_label(&self) -> (s: String)
        ensures
            s@ == spec_reachability_label(self.runtime.ui_network.reachability_flags),
    {
        let flags = self.reachability_flags();
        let mut s = String::new();
        let mut any = false;
        if (flags & 0x1) != 0 {
            s.append("Reachable");
            any = true;
        }
        let ghost after_first = s@;
        if (flags & 0x2) != 0 {
            if any {
                s.append("|");
            }
            s.append("TransientConnection");
            any = true;
        }
        let ghost after_second = s@;
        if (flags & 0x4) != 0 {
            if any {
                s.append("|");
            }
            s.append("WWAN");
            any = true;
        }
        if !any {
            s.append("None");
        }
        proof {
            assert(after_first =~= (if (flags & 1) != 0 { "Reachable"@ } else { Seq::<char>::empty() }));
        }
        s
    }

    /// The name of a CFStream status code.
    pub fn stream_status_name(code: u32) -> (s: &'static str)
        ensures
            s@ == spec_stream_status_name(code),
    {
        match code {
            1 => "opening",
            2 => "open",
            3 => "reading",
            4 => "writing",
            5 => "at-end",
            6 => "closed",
            7 => "error",
            _ => "not-open",
        }
    }

    /// Whether the read stream still has undelivered payload bytes.
    pub fn read_stream_has_bytes_available(&self) -> (b: bool)
        ensures
            b == (self.runtime.ui_network.read_stream_open && self.runtime.ui_network.read_stream_bytes_consumed
                < spec_delivered_len(self.runtime.ui_network)),
    {
        let payload = self.synthetic_payload_bytes();
        let delivered = payload.len();
        self.runtime.ui_network.read_stream_open && (self.runtime.ui_network.read_stream_bytes_consumed as usize)
            < delivered
    }

    /// Whether the write stream accepts bytes: open, and the connection is
    /// neither cancelled nor faulted.
    pub fn write_stream_can_accept_bytes(&self) -> (b: bool)
        ensures
            b == (self.runtime.ui_network.write_stream_open && !self.runtime.ui_network.network_cancelled
                && !self.runtime.ui_network.network_faulted),
    {
        self.runtime.ui_network.write_stream_open && !self.runtime.ui_network.network_cancelled
            && !self.runtime.ui_network.network_faulted
    }

    /// Recomputes both stream statuses from the connection state.
    pub fn sync_stream_transport_state(&mut self)
        ensures
            final(self).runtime.ui_network == synced(old(self).runtime.ui_network),
            ({
                let n = old(self).runtime.ui_network;
                n.read_stream_open && !n.network_cancelled && !n.network_faulted && spec_delivered_len(n) > 0
                    && n.read_stream_bytes_consumed >= spec_delivered_len(n) ==> (
                final(self).runtime.ui_network.read_stream_status == 5) == n.network_source_closed
            }),
            runtime_rest_same(*old(self), *final(self)),
            final(self).runtime.ui_runtime == old(self).runtime.ui_runtime,
            final(self).cpu == old(self).cpu,
            final(self).execution == old(self).execution,
            final(self).address_space == old(self).address_space,
            final(self).diag == old(self).diag,
            final(self).profile == old(self).profile,
            final(self).tuning == old(self).tuning,
    {
        proof {
            if self.runtime.ui_network.read_stream_open && !self.runtime.ui_network.network_cancelled
                && !self.runtime.ui_network.network_faulted {
                lemma_read_stream_end(self.runtime.ui_network);
            }
        }
        let delivered = self.synthetic_payload_bytes().len();
        let n = &self.runtime.ui_network;
        let read_status = if n.read_stream_open {
            if n.network_cancelled || n.network_faulted {
                7
            } else if delivered == 0 {
                2
            } else if (n.read_stream_bytes_consumed as usize) >= delivered {
                if n.network_source_closed {
                    5
                } else {
                    2
                }
            } else if n.read_stream_bytes_consumed > 0 {
                3
            } else {
                2
            }
        } else if n.read_stream_status != 6 {
            0
        } else {
            n.read_stream_status
        };
        let write_status = if n.write_stream_open {
            if n.network_cancelled || n.network_faulted {
                7
            } else if n.write_stream_bytes_written > 0 {
                4
            } else {
                2
            }
        } else if n.write_stream_status != 6 {
            0
        } else {
            n.write_stream_status
        };
        self.runtime.ui_network.read_stream_status = read_status;
        self.runtime.ui_network.write_stream_status = write_status;
    }

    /// Rewinds both streams (no bytes consumed or written, no events) and
    /// resynchronises their statuses; a closed stream reports `not-open`.
    #[verifier::spinoff_prover]
    #[verifier::rlimit(30)]
    pub fn reset_synthetic_stream_transport(&mut self)
        ensures
            ({
                let n0 = old(self).runtime.ui_network;
                let n1 = NetworkState {
                    read_stream_bytes_consumed: 0,
                    write_stream_bytes_written: 0,
                    read_stream_events: 0,
                    write_stream_events: 0,
                    read_stream_status: if !n0.read_stream_open { 0 } else { n0.read_stream_status },
                    write_stream_status: if !n0.write_stream_open { 0 } else { n0.write_stream_status },
                    ..n0
                };
                final(self).runtime.ui_network == (NetworkState {
                    read_stream_status: spec_read_stream_status(n1, spec_delivered_len(n1)),
                    write_stream_status: spec_write_stream_status(n1),
                    ..n1
                })
            }),
            final(self).runtime.heap == old(self).runtime.heap,
            final(self).runtime.openal == old(self).runtime.openal,
            final(self).address_space == old(self).address_space,
            final(self).cpu == old(self).cpu,
            final(self).profile == old(self).profile,
    {
        self.runtime.ui_network.read_stream_bytes_consumed = 0;
        self.runtime.ui_network.write_stream_bytes_written = 0;
        self.runtime.ui_network.read_stream_events = 0;
        self.runtime.ui_network.write_stream_events = 0;
        if !self.runtime.ui_network.read_stream_open {
            self.runtime.ui_network.read_stream_status = 0;
        }
        if !self.runtime.ui_network.write_stream_open {
            self.runtime.ui_network.write_stream_status = 0;
        }
        self.sync_stream_transport_state();
    }

    /// Size of the complete synthetic payload.
    pub fn network_payload_len(&self) -> (n: u32)
        ensures
            n == 128,
    {
        128
    }

    /// The error domain reported for network faults.
    pub fn network_error_domain(&self) -> (s: &'static str)
        ensures
            s@ == "NSURLErrorDomain"@,
    {
        "NSURLErrorDomain"
    }

    /// The NSURL error code of the current fault mode.
    pub fn network_error_code(&self) -> (c: i32)
        ensures
            c == spec_error_code(self.runtime.ui_network.network_fault_mode),
    {
        match self.runtime.ui_network.network_fault_mode {
            2 => -1004,
            3 => -1005,
            4 => -999,
            _ => -1001,
        }
    }

    /// The short name of the current fault mode.
    pub fn network_error_kind(&self) -> (s: &'static str)
        ensures
            s@ == spec_error_kind(self.runtime.ui_network.network_fault_mode),
    {
        match self.runtime.ui_network.network_fault_mode {
            2 => "cannot-connect",
            3 => "lost-connection",
            4 => "cancelled",
            _ => "timed-out",
        }
    }

    /// The localized description of the current fault mode.
    pub fn network_error_description(&self) -> (s: &'static str)
        ensures
            s@ == spec_error_description(self.runtime.ui_network.network_fault_mode),
            self.runtime.ui_network.network_fault_mode == 2 ==> s@ == "The connection could not be established."@,
            self.runtime.ui_network.network_fault_mode == 3 ==> s@ == "The network connection was lost."@,
            self.runtime.ui_network.network_fault_mode == 4 ==> s@ == "The connection was cancelled."@,
            !(2 <= self.runtime.ui_network.network_fault_mode <= 4) ==> s@ == "The request timed out."@,
    {
        match self.runtime.ui_network.network_fault_mode {
            2 => "The connection could not be established.",
            3 => "The network connection was lost.",
            4 => "The connection was cancelled.",
            _ => "The request timed out.",
        }
    }

    /// The outcome recorded for a failed request.
    pub fn network_failure_result(&self) -> (s: &'static str)
        ensures
            self.runtime.ui_network.network_fault_mode == 2 ==> s@ == "failed-cannot-connect"@,
            self.runtime.ui_network.network_fault_mode == 3 ==> s@ == "failed-lost-connection"@,
            self.runtime.ui_network.network_fault_mode == 4 ==> s@ == "cancelled"@,
            !(2 <= self.runtime.ui_network.network_fault_mode <= 4) ==> s@ == "failed-timeout"@,
    {
        match self.runtime.ui_network.network_fault_mode {
            2 => "failed-cannot-connect",
            3 => "failed-lost-connection",
            4 => "cancelled",
            _ => "failed-timeout",
        }
    }

    /// Whether the guest should retry the request.
    pub fn network_should_retry(&self) -> (b: bool)
        ensures
            b == spec_should_retry(self.runtime.ui_network),
    {
        let mode = self.runtime.ui_network.network_fault_mode;
        !self.runtime.ui_network.network_cancelled && (mode == 1 || mode == 2 || mode == 3)
    }

    /// `"<code> <kind>"` when the connection was cancelled, faulted or has a
    /// timeout armed; `"none"` otherwise.
    pub fn network_last_error_summary(&self) -> (s: String)
        ensures
            s@ == (if self.runtime.ui_network.network_cancelled || self.runtime.ui_network.network_faulted
                || self.runtime.ui_network.network_timeout_armed {
                signed_dec_seq(spec_error_code(self.runtime.ui_network.network_fault_mode) as int) + " "@
                    + spec_error_kind(self.runtime.ui_network.network_fault_mode)
            } else {
                "none"@
            }),
    {
        let mut s = String::new();
        if self.runtime.ui_network.network_cancelled || self.runtime.ui_network.network_faulted
            || self.runtime.ui_network.network_timeout_armed {
            push_signed_dec(&mut s, self.network_error_code() as i64);
            s.append(" ");
            s.append(self.network_error_kind());
        } else {
            s.append("none");
        }
        s
    }

    /// The connection state code.
    pub fn network_connection_state_code(&self) -> (c: u32)
        ensures
            c == spec_connection_state_code(self.runtime.ui_network),
    {
        let n = &self.runtime.ui_network;
        if n.network_cancelled {
            5
        } else if n.network_faulted {
            4
        } else if n.network_completed {
            3
        } else if n.network_armed && n.network_stage > 0 {
            2
        } else if n.network_armed {
            1
        } else {
            0
        }
    }

    /// The connection state's name.
    pub fn network_connection_state_name(&self) -> (s: &'static str)
        ensures
            s@ == spec_connection_state_name(spec_connection_state_code(self.runtime.ui_network)),
    {
        match self.network_connection_state_code() {
            1 => "scheduled",
            2 => "receiving",
            3 => "completed",
            4 => "faulted",
            5 => "cancelled",
            _ => "idle",
        }
    }

    /// A lost connection still delivers a response it retained.
    pub fn network_fault_has_response(&self) -> (b: bool)
        ensures
            b == (self.runtime.ui_network.network_fault_mode == 3 && self.runtime.ui_network.network_response_retained),
    {
        self.runtime.ui_network.network_fault_mode == 3 && self.runtime.ui_network.network_response_retained
    }

    /// A lost connection still delivers the data it retained.
    pub fn network_fault_has_data(&self) -> (b: bool)
        ensures
            b == (self.runtime.ui_network.network_fault_mode == 3 && self.runtime.ui_network.network_data_retained),
    {
        self.runtime.ui_network.network_fault_mode == 3 && self.runtime.ui_network.network_data_retained
    }

    /// `YES` or `NO`.
    pub fn retained_flag(value: bool) -> (s: &'static str)
        ensures
            s@ == (if value { "YES"@ } else { "NO"@ }),
    {
        if value {
            "YES"
        } else {
            "NO"
        }
    }

    /// The payload delivered so far: the profile's bootstrap text for the
    /// current connection state, cut or padded to the delivered length.
    pub fn synthetic_payload_bytes(&self) -> (bytes: Vec<u8>)
        ensures
            bytes@ == spec_payload_bytes(
                vstd::utf8::encode_utf8(self.profile.spec_bundle_id()),
                vstd::utf8::encode_utf8(spec_connection_state_name(spec_connection_state_code(self.runtime.ui_network))),
                spec_should_retry(self.runtime.ui_network),
                spec_delivered_len(self.runtime.ui_network),
            ),
            bytes@.len() == spec_delivered_len(self.runtime.ui_network),
    {
        let n = &self.runtime.ui_network;
        let delivered: usize = if n.network_cancelled {
            0
        } else if n.network_bytes_delivered > 0 {
            n.network_bytes_delivered as usize
        } else if n.network_completed {
            self.network_payload_len() as usize
        } else {
            0
        };
        self.profile.synthetic_payload(self.network_connection_state_name(), self.network_should_retry(), delivered)
    }

    /// Up to 96 payload characters, NUL bytes dropped.
    pub fn synthetic_payload_preview(&self) -> (s: String)
        ensures
            s@ == spec_preview(
                spec_payload_bytes(
                    vstd::utf8::encode_utf8(self.profile.spec_bundle_id()),
                    vstd::utf8::encode_utf8(
                        spec_connection_state_name(spec_connection_state_code(self.runtime.ui_network)),
                    ),
                    spec_should_retry(self.runtime.ui_network),
                    spec_delivered_len(self.runtime.ui_network),
                ),
                96,
            ),
    {
        let bytes = self.synthetic_payload_bytes();
        preview_text(&bytes, 96)
    }
}

/// The non-NUL bytes of `b` as characters, at most `limit` of them.
pub open spec fn spec_preview(b: Seq<u8>, limit: nat) -> Seq<char>
    decreases b.len(),
{
    if b.len() == 0 {
        Seq::empty()
    } else {
        let prev = spec_preview(b.drop_last(), limit);
        if b.last() == 0 || prev.len() >= limit {
            prev
        } else {
            prev.push(b.last() as char)
        }
    }
}

/// Builds the text preview of a byte payload.
pub fn preview_text(bytes: &Vec<u8>, limit: usize) -> (s: String)
    ensures
        s@ == spec_preview(bytes@, limit as nat),
{
    let mut s = String::new();
    let mut count: usize = 0;
    let mut i: usize = 0;
    while i < bytes.len()
        invariant
            i <= bytes@.len(),
            s@ == spec_preview(bytes@.subrange(0, i as int), limit as nat),
            count == s@.len(),
            count <= limit,
        decreases bytes@.len() - i,
    {
        let ghost pre = bytes@.subrange(0, (i + 1) as int);
        assert(pre.drop_last() == bytes@.subrange(0, i as int));
        let b = bytes[i];
        if b != 0 && count < limit {
            push_char(&mut s, b as char);
            count = count + 1;
        }
        proof {
            lemma_preview_len(bytes@.subrange(0, i as int), limit as nat);
        }
        i = i + 1;
    }
    assert(bytes@.subrange(0, bytes@.len() as int) == bytes@);
    s
}

/// The preview never exceeds its limit.
proof fn lemma_preview_len(b: Seq<u8>, limit: nat)
    ensures
        spec_preview(b, limit).len() <= limit,
    decreases b.len(),
{
    if b.len() > 0 {
        lemma_preview_len(b.drop_last(), limit);
    }
}

} // verus!
