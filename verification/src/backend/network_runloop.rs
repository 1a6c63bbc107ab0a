//! The run-loop side of the synthetic network connection: connection and
//! fault-probe state labels, the tick that delivers a response, the tick that
//! fails a connection, and the fault probes scheduled once a connection is
//! idle. Delegate callbacks are returned to the caller, which runs them in
//! the guest.
use vstd::prelude::*;
use crate::profiles::TitleProfile;
use crate::text::{dec_seq, push_dec, push_signed_dec, signed_dec_seq, str_eq};
use super::{MemoryArm32Backend, NetworkState, RegionView};
use super::guest_strings::{describe_in, labels_view, lemma_labels_view_insert};
use super::heap::sat_add;
use super::network::{
    runtime_others_same, runtime_rest_same, spec_connection_state_code,
    spec_delivered_len, spec_error_code, spec_error_kind, spec_network_path, spec_network_url,
    spec_reachability_label, spec_stream_status_name, synced,
};

verus! {

/// A delegate message the run loop wants delivered to the guest.
#[derive(Debug, Clone, Copy)]
pub struct NetworkDelegateCall {
    /// The receiving delegate object.
    pub target: u32,
    pub selector: &'static str,
    pub arg2: u32,
    pub arg3: u32,
    /// How the connection ended up, as reported with the callback.
    pub result: &'static str,
}

/// `YES` or `NO`.
pub open spec fn yes_no(b: bool) -> Seq<char> {
    if b {
        "YES"@
    } else {
        "NO"@
    }
}

/// The connection delegate: the one registered with the connection, or the
/// application delegate.
pub open spec fn spec_current_delegate(b: MemoryArm32Backend) -> u32 {
    if b.runtime.ui_network.network_delegate != 0 {
        b.runtime.ui_network.network_delegate
    } else {
        b.runtime.ui_objects.delegate
    }
}

/// How the main connection is described in its label.
pub open spec fn spec_network_state_label(n: NetworkState) -> Seq<char> {
    let total = dec_seq(128);
    let delivered = dec_seq(n.network_bytes_delivered as nat);
    if n.network_cancelled {
        "cancelled code="@ + signed_dec_seq(spec_error_code(n.network_fault_mode) as int) + " retained(error="@
            + yes_no(n.network_error_retained) + ")"@
    } else if n.network_faulted {
        "failed "@ + spec_error_kind(n.network_fault_mode) + " code="@ + signed_dec_seq(
            spec_error_code(n.network_fault_mode) as int,
        ) + " retained(error="@ + yes_no(n.network_error_retained) + ")"@
    } else if n.network_completed {
        if n.network_source_closed {
            "idle-complete "@ + delivered + "/"@ + total + " retained(response="@ + yes_no(
                n.network_response_retained,
            ) + ",data="@ + yes_no(n.network_data_retained) + ")"@
        } else {
            "completed "@ + delivered + "/"@ + total
        }
    } else if n.network_armed {
        if n.network_stage == 0 {
            "scheduled"@
        } else if n.network_stage == 1 {
            "response-ready 0/"@ + total
        } else {
            "receiving "@ + delivered + "/"@ + total
        }
    } else {
        "idle "@ + delivered + "/"@ + total
    }
}

/// How the fault-probe connection is described in its label.
pub open spec fn spec_network_fault_state_label(n: NetworkState) -> Seq<char> {
    if n.network_cancelled {
        "cancelled code="@ + signed_dec_seq(spec_error_code(n.network_fault_mode) as int) + " retained(error="@
            + yes_no(n.network_error_retained) + ")"@
    } else if n.network_faulted {
        "failed "@ + spec_error_kind(n.network_fault_mode) + " code="@ + signed_dec_seq(
            spec_error_code(n.network_fault_mode) as int,
        ) + " retained(error="@ + yes_no(n.network_error_retained) + ")"@
    } else if n.network_timeout_armed {
        "scheduled-"@ + spec_error_kind(n.network_fault_mode)
    } else {
        "idle"@
    }
}

/// The fault probe scheduled after `idle_ticks` idle ticks of a completed
/// connection that has seen `fault_events` faults: timeout, cannot-connect,
/// lost-connection and cancel, one per tick, in that order.
pub open spec fn spec_next_fault_mode(idle_ticks: u32, fault_events: u32) -> Option<u32> {
    if 1 <= idle_ticks <= 4 && fault_events == idle_ticks - 1 {
        Some(idle_ticks)
    } else {
        None
    }
}

/// ` retained after <kind>>`, ` retained>` or `>`.
pub open spec fn retained_suffix(n: NetworkState, retained: bool) -> Seq<char> {
    if retained {
        if n.network_faulted || n.network_cancelled {
            " retained after "@ + spec_error_kind(n.network_fault_mode) + ">"@
        } else {
            " retained>"@
        }
    } else {
        ">"@
    }
}

/// The label of the synthetic HTTP response.
pub open spec fn response_label(n: NetworkState) -> Seq<char> {
    "NSHTTPURLResponse.synthetic#0<200 text/plain "@ + dec_seq(128) + " bytes"@ + retained_suffix(
        n,
        n.network_response_retained,
    )
}

/// The label of the synthetic response data.
pub open spec fn data_label(n: NetworkState) -> Seq<char> {
    "NSData.synthetic#0<"@ + dec_seq(n.network_bytes_delivered as nat) + " / "@ + dec_seq(128) + " bytes"@
        + retained_suffix(n, n.network_data_retained)
}

/// The label of the synthetic network error.
pub open spec fn error_label(n: NetworkState) -> Seq<char> {
    "NSError.synthetic#0<"@ + "NSURLErrorDomain"@ + " "@ + signed_dec_seq(spec_error_code(n.network_fault_mode) as int) + " "@
        + spec_error_kind(n.network_fault_mode) + if n.network_error_retained {
        " retained>"@
    } else {
        ">"@
    }
}

/// The label of the read stream.
pub open spec fn read_stream_label(n: NetworkState) -> Seq<char> {
    "CFReadStream.synthetic#0<state="@ + spec_stream_status_name(n.read_stream_status) + " read="@ + dec_seq(
        n.read_stream_bytes_consumed as nat,
    ) + "/"@ + dec_seq(spec_delivered_len(n)) + " scheduled="@ + yes_no(n.read_stream_scheduled) + " open="@
        + yes_no(n.read_stream_open) + ">"@
}

/// The label of the write stream.
pub open spec fn write_stream_label(n: NetworkState) -> Seq<char> {
    "CFWriteStream.synthetic#0<state="@ + spec_stream_status_name(n.write_stream_status) + " written="@ + dec_seq(
        n.write_stream_bytes_written as nat,
    ) + " scheduled="@ + yes_no(n.write_stream_scheduled) + " open="@ + yes_no(n.write_stream_open) + ">"@
}

/// The label of the reachability object.
pub open spec fn reachability_label(n: NetworkState) -> Seq<char> {
    "SCNetworkReachability.synthetic#0<flags="@ + spec_reachability_label(n.reachability_flags) + " scheduled="@
        + yes_no(n.reachability_scheduled) + " callback="@ + yes_no(n.reachability_callback_set) + ">"@
}

/// The URL, request and connection labels written over `lv`.
pub open spec fn endpoint_labels(
    lv: Map<u32, Seq<char>>,
    n: NetworkState,
    mem: Seq<RegionView>,
    delegate: u32,
    profile: TitleProfile,
) -> Map<u32, Seq<char>> {
    let lv2 = lv.insert(n.network_url, "NSURL.synthetic#0<'"@ + spec_network_url(profile) + "'>"@).insert(
        n.network_request,
        "NSURLRequest.synthetic#0<"@ + "GET"@ + " "@ + spec_network_path(profile) + ">"@,
    );
    lv2.insert(
        n.network_connection,
        "NSURLConnection.synthetic#0<delegate="@ + describe_in(lv2, mem, delegate) + " state="@
            + spec_network_state_label(n) + ">"@,
    )
}

/// The response, data, proxy-settings and fault-connection labels written
/// over `lv`.
pub open spec fn payload_labels(
    lv: Map<u32, Seq<char>>,
    n: NetworkState,
    mem: Seq<RegionView>,
    delegate: u32,
) -> Map<u32, Seq<char>> {
    let lv6 = lv.insert(n.network_response, response_label(n)).insert(n.network_data, data_label(n)).insert(
        n.proxy_settings,
        "CFProxySettings.synthetic#0<direct/no-proxy>"@,
    );
    lv6.insert(
        n.fault_connection,
        "NSURLConnection.synthetic#fault<delegate="@ + describe_in(lv6, mem, delegate) + " state="@
            + spec_network_fault_state_label(n) + ">"@,
    )
}

/// The error, stream and reachability labels written over `lv`.
pub open spec fn stream_labels(lv: Map<u32, Seq<char>>, n: NetworkState) -> Map<u32, Seq<char>> {
    lv.insert(n.network_error, error_label(n)).insert(n.read_stream, read_stream_label(n)).insert(
        n.write_stream,
        write_stream_label(n),
    ).insert(n.reachability, reachability_label(n))
}

/// The object labels after the network objects are relabelled from state
/// `n`, in order: URL, request, connection, response, data, proxy settings,
/// fault connection, error, read stream, write stream, reachability. The two
/// connection labels describe the delegate with the labels present when each
/// is written.
pub open spec fn network_labels(
    lv: Map<u32, Seq<char>>,
    n: NetworkState,
    mem: Seq<RegionView>,
    delegate: u32,
    profile: TitleProfile,
) -> Map<u32, Seq<char>> {
    stream_labels(payload_labels(endpoint_labels(lv, n, mem, delegate, profile), n, mem, delegate), n)
}

/// What a connection reports when it fails in fault mode `mode`.
pub open spec fn spec_failure_result(mode: u32) -> Seq<char> {
    if mode == 2 {
        "failed-cannot-connect"@
    } else if mode == 3 {
        "failed-lost-connection"@
    } else if mode == 4 {
        "cancelled"@
    } else {
        "failed-timeout"@
    }
}

/// A failing connection reports its fault in the delegate's result: a
/// cancelled one reports `cancelled`; a refused or lost connection reports
/// `failed-` and the kind of its error; a timed-out one `failed-timeout`.
pub proof fn lemma_failure_result_names_kind(mode: u32)
    ensures
        (spec_error_kind(mode) == "cancelled"@) == (spec_failure_result(mode) == "cancelled"@),
        mode == 2 || mode == 3 ==> spec_failure_result(mode) == "failed-"@ + spec_error_kind(mode),
        mode != 4 ==> spec_failure_result(mode).subrange(0, 7) == "failed-"@,
{
    reveal_strlit("cancelled");
    reveal_strlit("failed-");
    reveal_strlit("cannot-connect");
    reveal_strlit("lost-connection");
    reveal_strlit("timed-out");
    reveal_strlit("failed-cannot-connect");
    reveal_strlit("failed-lost-connection");
    reveal_strlit("failed-timeout");
    assert("timed-out"@[0] != "cancelled"@[0]);
    assert("cannot-connect"@.len() != "cancelled"@.len());
    assert("lost-connection"@.len() != "cancelled"@.len());
    assert("failed-timeout"@.len() != "cancelled"@.len());
    assert("failed-cannot-connect"@.len() != "cancelled"@.len());
    assert("failed-lost-connection"@.len() != "cancelled"@.len());
    if mode == 2 {
        assert(spec_failure_result(mode) =~= "failed-"@ + "cannot-connect"@);
        assert(spec_failure_result(mode).subrange(0, 7) =~= "failed-"@);
    } else if mode == 3 {
        assert(spec_failure_result(mode) =~= "failed-"@ + "lost-connection"@);
        assert(spec_failure_result(mode).subrange(0, 7) =~= "failed-"@);
    } else if mode != 4 {
        assert(spec_failure_result(mode).subrange(0, 7) =~= "failed-"@);
    }
}

/// When an armed fault probe fires, the connection ends: it reports
/// itself cancelled (fault mode 4) or faulted (any other mode), its source
/// is closed, it is no longer armed and its error is kept; only a lost
/// connection keeps part of its payload, and a cancelled one delivers none.
pub proof fn lemma_fault_fires_ends_connection(n: NetworkState)
    ensures
        spec_connection_state_code(timeout_state(n)) == (if n.network_fault_mode == 4 {
            5u32
        } else {
            4u32
        }),
        timeout_state(n).network_source_closed,
        !timeout_state(n).network_armed,
        !timeout_state(n).network_timeout_armed,
        timeout_state(n).network_error_retained,
        n.network_fault_mode == 3 ==> spec_delivered_len(timeout_state(n)) == 64,
        n.network_fault_mode == 4 ==> spec_delivered_len(timeout_state(n)) == 0,
        n.network_fault_mode != 3 ==> timeout_state(n).network_bytes_delivered == 0,
{
}

/// An active connection runs response, data, finish: the tick at stage 1
/// delivers the whole 128-byte payload, and the tick at any later stage
/// completes the connection (unless it was cancelled or faulted) and
/// closes its source.
pub proof fn lemma_active_tick_progress(n: NetworkState)
    ensures
        n.network_stage == 1 && !n.network_cancelled ==> spec_delivered_len(active_changes(n)) == 128,
        n.network_stage >= 2 ==> active_changes(n).network_source_closed && !active_changes(n).network_armed,
        n.network_stage >= 2 && !n.network_cancelled && !n.network_faulted ==> spec_connection_state_code(
            active_changes(n),
        ) == 3,
        n.network_stage == 0 ==> active_changes(n).network_bytes_delivered == n.network_bytes_delivered,
{
}

/// The connection state once the armed fault probe fires: the connection is
/// closed with its error retained; fault mode 4 cancels it, every other
/// mode fails it, and a lost connection (mode 3) keeps its response and half
/// of the payload.
pub open spec fn timeout_state(n: NetworkState) -> NetworkState {
    let m = n.network_fault_mode;
    NetworkState {
        network_events: sat_add(n.network_events, 1),
        network_fault_events: sat_add(n.network_fault_events, 1),
        network_timeout_armed: false,
        network_error_retained: true,
        network_source_closed: true,
        network_armed: false,
        network_faulted: m != 4,
        network_cancelled: m == 4,
        network_response_retained: m == 3,
        network_data_retained: m == 3,
        network_bytes_delivered: if m == 3 {
            64
        } else {
            0
        },
        ..n
    }
}

/// What one tick of an active connection changes besides the stage:
/// stage 0 only counts the event, stage 1 delivers the whole payload, any
/// later stage completes and closes the connection, retaining response and
/// data.
pub open spec fn active_changes(n: NetworkState) -> NetworkState {
    let n1 = NetworkState { network_events: sat_add(n.network_events, 1), ..n };
    if n.network_stage == 0 {
        n1
    } else if n.network_stage == 1 {
        NetworkState { network_bytes_delivered: 128, ..n1 }
    } else {
        NetworkState {
            network_completed: true,
            network_armed: false,
            network_source_closed: true,
            network_response_retained: true,
            network_data_retained: true,
            ..n1
        }
    }
}

/// The connection state once fault probe `mode` is armed.
pub open spec fn armed_probe_state(n: NetworkState, mode: u32) -> NetworkState {
    NetworkState {
        network_fault_mode: mode,
        network_timeout_armed: true,
        network_faulted: false,
        network_cancelled: false,
        network_error_retained: false,
        network_response_retained: false,
        network_data_retained: false,
        network_bytes_delivered: 0,
        ..n
    }
}

/// The texts of a list of strings.
pub open spec fn texts(v: Seq<String>) -> Seq<Seq<char>> {
    v.map_values(|s: String| s@)
}

/// Only the object labels differ between `a` and `b`.
pub open spec fn only_labels_changed(a: MemoryArm32Backend, b: MemoryArm32Backend) -> bool {
    &&& b.diag.symbol_labels == a.diag.symbol_labels
    &&& b.diag.writes == a.diag.writes
    &&& b.runtime == a.runtime
    &&& b.address_space == a.address_space
    &&& b.cpu == a.cpu
    &&& b.execution == a.execution
    &&& b.profile == a.profile
    &&& b.tuning == a.tuning
}

/// What firing the armed fault probe does to backend `b0`, giving `b1` and
/// the delegate callback `call` (see `handle_network_timeout_tick`).
pub open spec fn timeout_tick_effect(b0: MemoryArm32Backend, b1: MemoryArm32Backend, call: NetworkDelegateCall) -> bool {
    &&& ({
        let n0 = b0.runtime.ui_network;
        let n1 = timeout_state(n0);
        let h0 = texts(b0.runtime.network_fault_history@);
        &&& b1.runtime.ui_network == (NetworkState {
            delegate_callbacks: sat_add(n0.delegate_callbacks, 1),
            ..synced(n1)
        })
        &&& texts(b1.runtime.network_fault_history@) == if h0.contains(
            spec_error_kind(n0.network_fault_mode),
        ) {
            h0
        } else {
            h0.push(spec_error_kind(n0.network_fault_mode))
        }
        &&& labels_view(b1.diag.object_labels@) == network_labels(
            labels_view(b0.diag.object_labels@),
            synced(n1),
            b0.mem(),
            spec_current_delegate(b0),
            b0.profile,
        )
        &&& call.target == spec_current_delegate(b0)
        &&& call.selector@ == "connection:didFailWithError:"@
        &&& call.arg2 == n0.fault_connection
        &&& call.arg3 == n0.network_error
        &&& call.result@ == spec_failure_result(n0.network_fault_mode)
    })
    &&& runtime_others_same(b0, b1)
    &&& b1.runtime.ui_runtime == b0.runtime.ui_runtime
    &&& b1.diag.symbol_labels == b0.diag.symbol_labels
    &&& b1.diag.writes == b0.diag.writes
    &&& b1.address_space == b0.address_space
    &&& b1.cpu == b0.cpu
    &&& b1.profile == b0.profile
    &&& b1.tuning == b0.tuning
}

/// What one tick of an active connection does to backend `b0`, giving `b1`
/// and the delegate callback `call` (see `handle_active_network_tick`).
pub open spec fn active_tick_effect(b0: MemoryArm32Backend, b1: MemoryArm32Backend, call: NetworkDelegateCall) -> bool {
    &&& ({
        let n0 = b0.runtime.ui_network;
        let n1 = active_changes(n0);
        let relabelled = n0.network_stage >= 1;
        let n2 = if relabelled {
            synced(n1)
        } else {
            n1
        };
        &&& b1.runtime.ui_network == (NetworkState {
            delegate_callbacks: sat_add(n0.delegate_callbacks, 1),
            network_stage: sat_add(n0.network_stage, 1),
            ..n2
        })
        &&& labels_view(b1.diag.object_labels@) == if relabelled {
            network_labels(
                labels_view(b0.diag.object_labels@),
                synced(n1),
                b0.mem(),
                spec_current_delegate(b0),
                b0.profile,
            )
        } else {
            labels_view(b0.diag.object_labels@)
        }
        &&& call.target == spec_current_delegate(b0)
        &&& call.arg2 == n0.network_connection
        &&& if n0.network_stage == 0 {
            &&& call.selector@ == "connection:didReceiveResponse:"@
            &&& call.arg3 == n0.network_response
            &&& call.result@ == "continue-loading"@
        } else if n0.network_stage == 1 {
            &&& call.selector@ == "connection:didReceiveData:"@
            &&& call.arg3 == n0.network_data
            &&& call.result@ == "append-data"@
        } else {
            &&& call.selector@ == "connectionDidFinishLoading:"@
            &&& call.arg3 == 0
            &&& call.result@ == "completed"@
        }
    })
    &&& runtime_rest_same(b0, b1)
    &&& b1.runtime.ui_runtime == b0.runtime.ui_runtime
    &&& b1.diag.symbol_labels == b0.diag.symbol_labels
    &&& b1.diag.writes == b0.diag.writes
    &&& b1.address_space == b0.address_space
    &&& b1.cpu == b0.cpu
    &&& b1.profile == b0.profile
    &&& b1.tuning == b0.tuning
}

/// What one idle tick of a completed connection does to backend `b0`,
/// giving `b1` (see `handle_completed_network_idle_tick`).
pub open spec fn idle_tick_effect(b0: MemoryArm32Backend, b1: MemoryArm32Backend) -> bool {
    let due = if b0.tuning.synthetic_network_fault_probes {
        spec_next_fault_mode(
            sat_add(b0.runtime.ui_runtime.idle_ticks_after_completion, 1),
            b0.runtime.ui_network.network_fault_events,
        )
    } else {
        None
    };
    &&& b1.runtime.ui_runtime.idle_ticks_after_completion == sat_add(
        b0.runtime.ui_runtime.idle_ticks_after_completion,
        1,
    )
    &&& b1.runtime.ui_runtime.runloop_ticks == b0.runtime.ui_runtime.runloop_ticks
    &&& match due {
        Some(mode) => b1.runtime.ui_network == synced(armed_probe_state(b0.runtime.ui_network, mode))
            && labels_view(b1.diag.object_labels@) == network_labels(
            labels_view(b0.diag.object_labels@),
            synced(armed_probe_state(b0.runtime.ui_network, mode)),
            b0.mem(),
            spec_current_delegate(b0),
            b0.profile,
        ),
        None => b1.runtime.ui_network == b0.runtime.ui_network && b1.diag.object_labels == b0.diag.object_labels,
    }
    &&& runtime_rest_same(b0, b1)
    &&& b1.diag.symbol_labels == b0.diag.symbol_labels
    &&& b1.diag.writes == b0.diag.writes
    &&& b1.address_space == b0.address_space
    &&& b1.cpu == b0.cpu
    &&& b1.profile == b0.profile
    &&& b1.tuning == b0.tuning
}

/// The fault probe step of a run-loop pass: when a probe is armed it fires,
/// giving the callback `first`; otherwise nothing happens.
pub open spec fn probe_phase(b0: MemoryArm32Backend, b1: MemoryArm32Backend, first: Option<NetworkDelegateCall>) -> bool {
    if b0.runtime.ui_network.network_timeout_armed {
        first matches Some(c) && timeout_tick_effect(b0, b1, c)
    } else {
        first is None && b1 == b0
    }
}

/// The connection step of a run-loop pass: an active connection advances,
/// giving the callback `second`; a completed and closed one idles; otherwise
/// nothing happens.
pub open spec fn source_phase(b0: MemoryArm32Backend, b1: MemoryArm32Backend, second: Option<NetworkDelegateCall>) -> bool {
    let n = b0.runtime.ui_network;
    if n.network_armed && !n.network_completed {
        second matches Some(c) && active_tick_effect(b0, b1, c)
    } else if n.network_completed && n.network_source_closed {
        second is None && idle_tick_effect(b0, b1)
    } else {
        second is None && b1 == b0
    }
}

/// The callbacks of an optional step, as a sequence.
pub open spec fn opt_calls(c: Option<NetworkDelegateCall>) -> Seq<NetworkDelegateCall> {
    match c {
        Some(x) => seq![x],
        None => Seq::empty(),
    }
}

/// The connection state once the armed fault probe fires.
pub fn timeout_transition(n: NetworkState) -> (r: NetworkState)
    ensures
        r == timeout_state(n),
{
    let m = n.network_fault_mode;
    NetworkState {
        network_events: n.network_events.saturating_add(1),
        network_fault_events: n.network_fault_events.saturating_add(1),
        network_timeout_armed: false,
        network_error_retained: true,
        network_source_closed: true,
        network_armed: false,
        network_faulted: m != 4,
        network_cancelled: m == 4,
        network_response_retained: m == 3,
        network_data_retained: m == 3,
        network_bytes_delivered: if m == 3 {
            128 / 2
        } else {
            0
        },
        ..n
    }
}

/// What one tick of an active connection changes besides the stage.
pub fn active_transition(n: NetworkState) -> (r: NetworkState)
    ensures
        r == active_changes(n),
{
    let n1 = NetworkState { network_events: n.network_events.saturating_add(1), ..n };
    if n.network_stage == 0 {
        n1
    } else if n.network_stage == 1 {
        NetworkState { network_bytes_delivered: 128, ..n1 }
    } else {
        NetworkState {
            network_completed: true,
            network_armed: false,
            network_source_closed: true,
            network_response_retained: true,
            network_data_retained: true,
            ..n1
        }
    }
}

/// Whether one of `v` reads `text`.
pub fn texts_contain(v: &Vec<String>, text: &str) -> (b: bool)
    ensures
        b == texts(v@).contains(text@),
{
    let ghost h = texts(v@);
    let mut i: usize = 0;
    while i < v.len()
        invariant
            i <= h.len(),
            h == texts(v@),
            forall|j: int| 0 <= j < i ==> h[j] != text@,
        decreases h.len() - i,
    {
        if str_eq(v[i].as_str(), text) {
            proof {
                assert(h[i as int] == text@);
            }
            return true;
        }
        i = i + 1;
    }
    false
}

impl MemoryArm32Backend {
    /// The connection delegate: the one registered with the connection, or
    /// the application delegate.
    pub fn current_network_delegate(&self) -> (d: u32)
        ensures
            d == spec_current_delegate(*self),
    {
        if self.runtime.ui_network.network_delegate != 0 {
            self.runtime.ui_network.network_delegate
        } else {
            self.runtime.ui_objects.delegate
        }
    }

    /// Describes the main connection's state, e.g. `receiving 128/128`.
    pub fn network_state_label(&self) -> (s: String)
        ensures
            s@ == spec_network_state_label(self.runtime.ui_network),
    {
        let n = &self.runtime.ui_network;
        let mut s = String::new();
        if n.network_cancelled {
            s.append("cancelled code=");
            push_signed_dec(&mut s, self.network_error_code() as i64);
            s.append(" retained(error=");
            s.append(Self::retained_flag(n.network_error_retained));
            s.append(")");
        } else if n.network_faulted {
            s.append("failed ");
            s.append(self.network_error_kind());
            s.append(" code=");
            push_signed_dec(&mut s, self.network_error_code() as i64);
            s.append(" retained(error=");
            s.append(Self::retained_flag(n.network_error_retained));
            s.append(")");
        } else if n.network_completed {
            if n.network_source_closed {
                s.append("idle-complete ");
                push_dec(&mut s, n.network_bytes_delivered as u64);
                s.append("/");
                push_dec(&mut s, self.network_payload_len() as u64);
                s.append(" retained(response=");
                s.append(Self::retained_flag(n.network_response_retained));
                s.append(",data=");
                s.append(Self::retained_flag(n.network_data_retained));
                s.append(")");
            } else {
                s.append("completed ");
                push_dec(&mut s, n.network_bytes_delivered as u64);
                s.append("/");
                push_dec(&mut s, self.network_payload_len() as u64);
            }
        } else if n.network_armed {
            if n.network_stage == 0 {
                s.append("scheduled");
            } else if n.network_stage == 1 {
                s.append("response-ready 0/");
                push_dec(&mut s, self.network_payload_len() as u64);
            } else {
                s.append("receiving ");
                push_dec(&mut s, n.network_bytes_delivered as u64);
                s.append("/");
                push_dec(&mut s, self.network_payload_len() as u64);
            }
        } else {
            s.append("idle ");
            push_dec(&mut s, n.network_bytes_delivered as u64);
            s.append("/");
            push_dec(&mut s, self.network_payload_len() as u64);
        }
        s
    }

    /// Describes the fault-probe connection's state, e.g. `scheduled-timed-out`.
    pub fn network_fault_state_label(&self) -> (s: String)
        ensures
            s@ == spec_network_fault_state_label(self.runtime.ui_network),
    {
        let n = &self.runtime.ui_network;
        let mut s = String::new();
        if n.network_cancelled {
            s.append("cancelled code=");
            push_signed_dec(&mut s, self.network_error_code() as i64);
            s.append(" retained(error=");
            s.append(Self::retained_flag(n.network_error_retained));
            s.append(")");
        } else if n.network_faulted {
            s.append("failed ");
            s.append(self.network_error_kind());
            s.append(" code=");
            push_signed_dec(&mut s, self.network_error_code() as i64);
            s.append(" retained(error=");
            s.append(Self::retained_flag(n.network_error_retained));
            s.append(")");
        } else if n.network_timeout_armed {
            s.append("scheduled-");
            s.append(self.network_error_kind());
        } else {
            s.append("idle");
        }
        s
    }

    /// Counts a delegate callback and returns the message to deliver to the
    /// current delegate.
    pub fn emit_network_delegate_callback(
        &mut self,
        selector: &'static str,
        arg2: u32,
        arg3: u32,
        result: &'static str,
    ) -> (call: NetworkDelegateCall)
        ensures
            call.target == spec_current_delegate(*old(self)),
            call.selector@ == selector@,
            call.arg2 == arg2,
            call.arg3 == arg3,
            call.result@ == result@,
            final(self).runtime.ui_network == (NetworkState {
                delegate_callbacks: if old(self).runtime.ui_network.delegate_callbacks == u32::MAX {
                    u32::MAX
                } else {
                    (old(self).runtime.ui_network.delegate_callbacks + 1) as u32
                },
                ..old(self).runtime.ui_network
            }),
            runtime_rest_same(*old(self), *final(self)),
            final(self).runtime.ui_runtime == old(self).runtime.ui_runtime,
            final(self).diag == old(self).diag,
            final(self).address_space == old(self).address_space,
            final(self).cpu == old(self).cpu,
            final(self).execution == old(self).execution,
            final(self).profile == old(self).profile,
            final(self).tuning == old(self).tuning,
    {
        self.runtime.ui_network.delegate_callbacks = self.runtime.ui_network.delegate_callbacks.saturating_add(1);
        let target = self.current_network_delegate();
        NetworkDelegateCall { target, selector, arg2, arg3, result }
    }

    /// The fault probe due on this idle tick, if any.
    pub fn next_network_fault_mode(&self) -> (m: Option<u32>)
        ensures
            m == spec_next_fault_mode(
                self.runtime.ui_runtime.idle_ticks_after_completion,
                self.runtime.ui_network.network_fault_events,
            ),
    {
        let ticks = self.runtime.ui_runtime.idle_ticks_after_completion;
        let faults = self.runtime.ui_network.network_fault_events;
        if ticks == 1 && faults == 0 {
            Some(1)
        } else if ticks == 2 && faults == 1 {
            Some(2)
        } else if ticks == 3 && faults == 2 {
            Some(3)
        } else if ticks == 4 && faults == 3 {
            Some(4)
        } else {
            None
        }
    }

    /// Adds or replaces the label of the object at `addr`.
    fn set_object_label(&mut self, addr: u32, text: String)
        ensures
            labels_view(final(self).diag.object_labels@) == labels_view(old(self).diag.object_labels@).insert(
                addr,
                text@,
            ),
            final(self).diag.symbol_labels == old(self).diag.symbol_labels,
            final(self).diag.writes == old(self).diag.writes,
            final(self).runtime == old(self).runtime,
            final(self).address_space == old(self).address_space,
            final(self).cpu == old(self).cpu,
            final(self).execution == old(self).execution,
            final(self).profile == old(self).profile,
            final(self).tuning == old(self).tuning,
    {
        let ghost m0 = self.diag.object_labels@;
        self.diag.object_labels.insert(addr, text);
        proof {
            lemma_labels_view_insert(m0, addr, text);
        }
    }

    /// Recomputes the stream statuses and relabels every network object
    /// from the connection state.
    pub fn refresh_network_object_labels(&mut self)
        requires
            old(self).wf(),
        ensures
            final(self).wf(),
            final(self).runtime.ui_network == synced(old(self).runtime.ui_network),
            labels_view(final(self).diag.object_labels@) == network_labels(
                labels_view(old(self).diag.object_labels@),
                synced(old(self).runtime.ui_network),
                old(self).mem(),
                spec_current_delegate(*old(self)),
                old(self).profile,
            ),
            runtime_rest_same(*old(self), *final(self)),
            final(self).runtime.ui_runtime == old(self).runtime.ui_runtime,
            final(self).diag.symbol_labels == old(self).diag.symbol_labels,
            final(self).diag.writes == old(self).diag.writes,
            final(self).address_space == old(self).address_space,
            final(self).cpu == old(self).cpu,
            final(self).execution == old(self).execution,
            final(self).profile == old(self).profile,
            final(self).tuning == old(self).tuning,
    {
        self.sync_stream_transport_state();
        let delegate = self.current_network_delegate();
        self.label_network_endpoints(delegate);
        self.label_network_payload(delegate);
        self.label_network_streams();
    }

    /// Labels the URL, the request and the main connection.
    fn label_network_endpoints(&mut self, delegate: u32)
        requires
            old(self).wf(),
        ensures
            final(self).wf(),
            only_labels_changed(*old(self), *final(self)),
            labels_view(final(self).diag.object_labels@) == endpoint_labels(
                labels_view(old(self).diag.object_labels@),
                old(self).runtime.ui_network,
                old(self).mem(),
                delegate,
                old(self).profile,
            ),
    {
        let mut t = String::from_str("NSURL.synthetic#0<'");
        t.append(self.network_url_string());
        t.append("'>");
        self.set_object_label(self.runtime.ui_network.network_url, t);
        let mut t = String::from_str("NSURLRequest.synthetic#0<");
        t.append(self.network_http_method());
        t.append(" ");
        t.append(self.network_path_string());
        t.append(">");
        self.set_object_label(self.runtime.ui_network.network_request, t);
        let mut t = String::from_str("NSURLConnection.synthetic#0<delegate=");
        let d = self.describe_ptr(delegate);
        t.append(d.as_str());
        t.append(" state=");
        let st = self.network_state_label();
        t.append(st.as_str());
        t.append(">");
        self.set_object_label(self.runtime.ui_network.network_connection, t);
    }

    /// Labels the response, the data, the proxy settings and the fault-probe
    /// connection.
    fn label_network_payload(&mut self, delegate: u32)
        requires
            old(self).wf(),
        ensures
            final(self).wf(),
            only_labels_changed(*old(self), *final(self)),
            labels_view(final(self).diag.object_labels@) == payload_labels(
                labels_view(old(self).diag.object_labels@),
                old(self).runtime.ui_network,
                old(self).mem(),
                delegate,
            ),
    {
        let t = self.network_object_retained_label(
            "NSHTTPURLResponse.synthetic#0<200 text/plain ",
            None,
            self.runtime.ui_network.network_response_retained,
        );
        self.set_object_label(self.runtime.ui_network.network_response, t);
        let t = self.network_object_retained_label(
            "NSData.synthetic#0<",
            Some(self.runtime.ui_network.network_bytes_delivered),
            self.runtime.ui_network.network_data_retained,
        );
        self.set_object_label(self.runtime.ui_network.network_data, t);
        self.set_object_label(
            self.runtime.ui_network.proxy_settings,
            String::from_str("CFProxySettings.synthetic#0<direct/no-proxy>"),
        );
        let mut t = String::from_str("NSURLConnection.synthetic#fault<delegate=");
        let d = self.describe_ptr(delegate);
        t.append(d.as_str());
        t.append(" state=");
        let st = self.network_fault_state_label();
        t.append(st.as_str());
        t.append(">");
        self.set_object_label(self.runtime.ui_network.fault_connection, t);
    }

    /// Labels the error, the two streams and the reachability object.
    fn label_network_streams(&mut self)
        requires
            old(self).wf(),
        ensures
            final(self).wf(),
            only_labels_changed(*old(self), *final(self)),
            labels_view(final(self).diag.object_labels@) == stream_labels(
                labels_view(old(self).diag.object_labels@),
                old(self).runtime.ui_network,
            ),
    {
        let mut t = String::from_str("NSError.synthetic#0<");
        t.append(self.network_error_domain());
        t.append(" ");
        push_signed_dec(&mut t, self.network_error_code() as i64);
        t.append(" ");
        t.append(self.network_error_kind());
        if self.runtime.ui_network.network_error_retained {
            t.append(" retained>");
        } else {
            t.append(">");
        }
        self.set_object_label(self.runtime.ui_network.network_error, t);
        let mut t = String::from_str("CFReadStream.synthetic#0<state=");
        t.append(Self::stream_status_name(self.runtime.ui_network.read_stream_status));
        t.append(" read=");
        push_dec(&mut t, self.runtime.ui_network.read_stream_bytes_consumed as u64);
        t.append("/");
        let payload = self.synthetic_payload_bytes();
        push_dec(&mut t, payload.len() as u64);
        t.append(" scheduled=");
        t.append(Self::retained_flag(self.runtime.ui_network.read_stream_scheduled));
        t.append(" open=");
        t.append(Self::retained_flag(self.runtime.ui_network.read_stream_open));
        t.append(">");
        self.set_object_label(self.runtime.ui_network.read_stream, t);
        let mut t = String::from_str("CFWriteStream.synthetic#0<state=");
        t.append(Self::stream_status_name(self.runtime.ui_network.write_stream_status));
        t.append(" written=");
        push_dec(&mut t, self.runtime.ui_network.write_stream_bytes_written as u64);
        t.append(" scheduled=");
        t.append(Self::retained_flag(self.runtime.ui_network.write_stream_scheduled));
        t.append(" open=");
        t.append(Self::retained_flag(self.runtime.ui_network.write_stream_open));
        t.append(">");
        self.set_object_label(self.runtime.ui_network.write_stream, t);
        let mut t = String::from_str("SCNetworkReachability.synthetic#0<flags=");
        let flags = self.reachability_flags_label();
        t.append(flags.as_str());
        t.append(" scheduled=");
        t.append(Self::retained_flag(self.runtime.ui_network.reachability_scheduled));
        t.append(" callback=");
        t.append(Self::retained_flag(self.runtime.ui_network.reachability_callback_set));
        t.append(">");
        self.set_object_label(self.runtime.ui_network.reachability, t);
    }

    /// `<prefix>[<delivered> / ]128 bytes` followed by the retention suffix.
    fn network_object_retained_label(&self, prefix: &str, delivered: Option<u32>, retained: bool) -> (s: String)
        ensures
            s@ == match delivered {
                Some(d) => prefix@ + dec_seq(d as nat) + " / "@,
                None => prefix@,
            } + dec_seq(128) + " bytes"@ + retained_suffix(self.runtime.ui_network, retained),
    {
        let mut s = String::from_str(prefix);
        match delivered {
            Some(d) => {
                push_dec(&mut s, d as u64);
                s.append(" / ");
            },
            None => {},
        }
        push_dec(&mut s, self.network_payload_len() as u64);
        s.append(" bytes");
        if retained {
            if self.runtime.ui_network.network_faulted || self.runtime.ui_network.network_cancelled {
                s.append(" retained after ");
                s.append(self.network_error_kind());
                s.append(">");
            } else {
                s.append(" retained>");
            }
        } else {
            s.append(">");
        }
        s
    }

    /// Adds the current fault kind to the fault history unless it is there.
    fn note_fault_kind(&mut self)
        ensures
            texts(final(self).runtime.network_fault_history@) == if texts(
                old(self).runtime.network_fault_history@,
            ).contains(spec_error_kind(old(self).runtime.ui_network.network_fault_mode)) {
                texts(old(self).runtime.network_fault_history@)
            } else {
                texts(old(self).runtime.network_fault_history@).push(
                    spec_error_kind(old(self).runtime.ui_network.network_fault_mode),
                )
            },
            final(self).runtime.ui_network == old(self).runtime.ui_network,
            runtime_others_same(*old(self), *final(self)),
            final(self).runtime.ui_runtime == old(self).runtime.ui_runtime,
            final(self).diag == old(self).diag,
            final(self).address_space == old(self).address_space,
            final(self).cpu == old(self).cpu,
            final(self).execution == old(self).execution,
            final(self).profile == old(self).profile,
            final(self).tuning == old(self).tuning,
    {
        let kind = self.network_error_kind();
        if !texts_contain(&self.runtime.network_fault_history, kind) {
            let ghost h = texts(self.runtime.network_fault_history@);
            self.runtime.network_fault_history.push(String::from_str(kind));
            proof {
                assert(texts(self.runtime.network_fault_history@) =~= h.push(kind@));
            }
        }
    }

    /// Fires the armed fault probe: closes the connection as failed (or
    /// cancelled), records the fault kind, relabels the network objects and
    /// returns the `connection:didFailWithError:` callback for the fault
    /// connection.
    #[verifier::spinoff_prover]
    pub fn handle_network_timeout_tick(&mut self) -> (call: NetworkDelegateCall)
        requires
            old(self).wf(),
        ensures
            final(self).wf(),
            timeout_tick_effect(*old(self), *final(self), call),
    {
        self.runtime.ui_network = timeout_transition(self.runtime.ui_network);
        self.note_fault_kind();
        self.refresh_network_object_labels();
        let result = self.network_failure_result();
        let conn = self.runtime.ui_network.fault_connection;
        let err = self.runtime.ui_network.network_error;
        self.emit_network_delegate_callback("connection:didFailWithError:", conn, err, result)
    }

    /// Advances an active connection by one stage and returns the delegate
    /// callback for it: `connection:didReceiveResponse:`, then
    /// `connection:didReceiveData:` with the whole payload, then
    /// `connectionDidFinishLoading:` once the connection completes.
    #[verifier::spinoff_prover]
    pub fn handle_active_network_tick(&mut self) -> (call: NetworkDelegateCall)
        requires
            old(self).wf(),
        ensures
            final(self).wf(),
            active_tick_effect(*old(self), *final(self), call),
    {
        let stage = self.runtime.ui_network.network_stage;
        let conn = self.runtime.ui_network.network_connection;
        self.runtime.ui_network = active_transition(self.runtime.ui_network);
        let call = if stage == 0 {
            let response = self.runtime.ui_network.network_response;
            self.emit_network_delegate_callback("connection:didReceiveResponse:", conn, response, "continue-loading")
        } else {
            self.refresh_and_emit(
                if stage == 1 {
                    "connection:didReceiveData:"
                } else {
                    "connectionDidFinishLoading:"
                },
                conn,
                if stage == 1 {
                    self.runtime.ui_network.network_data
                } else {
                    0
                },
                if stage == 1 {
                    "append-data"
                } else {
                    "completed"
                },
            )
        };
        self.runtime.ui_network.network_stage = self.runtime.ui_network.network_stage.saturating_add(1);
        call
    }

    /// Arms fault probe `mode`: the connection is reset to not failed, not
    /// cancelled, nothing retained or delivered, and the network objects are
    /// relabelled.
    pub fn arm_synthetic_fault_probe(&mut self, mode: u32)
        requires
            old(self).wf(),
        ensures
            final(self).wf(),
            final(self).runtime.ui_network == synced(armed_probe_state(old(self).runtime.ui_network, mode)),
            labels_view(final(self).diag.object_labels@) == network_labels(
                labels_view(old(self).diag.object_labels@),
                synced(armed_probe_state(old(self).runtime.ui_network, mode)),
                old(self).mem(),
                spec_current_delegate(*old(self)),
                old(self).profile,
            ),
            runtime_rest_same(*old(self), *final(self)),
            final(self).runtime.ui_runtime == old(self).runtime.ui_runtime,
            final(self).diag.symbol_labels == old(self).diag.symbol_labels,
            final(self).diag.writes == old(self).diag.writes,
            final(self).address_space == old(self).address_space,
            final(self).cpu == old(self).cpu,
            final(self).profile == old(self).profile,
            final(self).tuning == old(self).tuning,
    {
        let n = &mut self.runtime.ui_network;
        n.network_fault_mode = mode;
        n.network_timeout_armed = true;
        n.network_faulted = false;
        n.network_cancelled = false;
        n.network_error_retained = false;
        n.network_response_retained = false;
        n.network_data_retained = false;
        n.network_bytes_delivered = 0;
        self.refresh_network_object_labels();
    }

    /// One idle tick of a completed connection: counts it and, when fault
    /// probes are enabled, arms the probe due on this tick.
    pub fn handle_completed_network_idle_tick(&mut self)
        requires
            old(self).wf(),
        ensures
            final(self).wf(),
            idle_tick_effect(*old(self), *final(self)),
    {
        self.runtime.ui_runtime.idle_ticks_after_completion =
            self.runtime.ui_runtime.idle_ticks_after_completion.saturating_add(1);
        let next = self.next_network_fault_mode();
        if self.tuning.synthetic_network_fault_probes {
            match next {
                Some(mode) => {
                    self.runtime.ui_network.network_faulted = false;
                    self.runtime.ui_network.network_cancelled = false;
                    self.arm_synthetic_fault_probe(mode);
                },
                None => {},
            }
        }
    }

    /// Relabels the network objects, then counts and returns a delegate
    /// callback.
    fn refresh_and_emit(
        &mut self,
        selector: &'static str,
        arg2: u32,
        arg3: u32,
        result: &'static str,
    ) -> (call: NetworkDelegateCall)
        requires
            old(self).wf(),
        ensures
            final(self).wf(),
            final(self).runtime.ui_network == (NetworkState {
                delegate_callbacks: sat_add(old(self).runtime.ui_network.delegate_callbacks, 1),
                ..synced(old(self).runtime.ui_network)
            }),
            labels_view(final(self).diag.object_labels@) == network_labels(
                labels_view(old(self).diag.object_labels@),
                synced(old(self).runtime.ui_network),
                old(self).mem(),
                spec_current_delegate(*old(self)),
                old(self).profile,
            ),
            call.target == spec_current_delegate(*old(self)),
            call.selector@ == selector@,
            call.arg2 == arg2,
            call.arg3 == arg3,
            call.result@ == result@,
            runtime_rest_same(*old(self), *final(self)),
            final(self).runtime.ui_runtime == old(self).runtime.ui_runtime,
            final(self).diag.symbol_labels == old(self).diag.symbol_labels,
            final(self).diag.writes == old(self).diag.writes,
            final(self).address_space == old(self).address_space,
            final(self).cpu == old(self).cpu,
            final(self).profile == old(self).profile,
            final(self).tuning == old(self).tuning,
    {
        self.refresh_network_object_labels();
        self.emit_network_delegate_callback(selector, arg2, arg3, result)
    }
    /// One run-loop pass over the network sources: fires an armed fault
    /// probe, then advances an active connection or idles a completed,
    /// closed one. Returns the delegate callbacks to deliver, in order.
    pub fn drive_runloop_network_sources(&mut self) -> (calls: Vec<NetworkDelegateCall>)
        requires
            old(self).wf(),
        ensures
            final(self).wf(),
            exists|mid: MemoryArm32Backend, first: Option<NetworkDelegateCall>, second: Option<NetworkDelegateCall>|
                #![trigger probe_phase(*old(self), mid, first), source_phase(mid, *final(self), second)]
                probe_phase(*old(self), mid, first) && source_phase(mid, *final(self), second) && calls@ == opt_calls(
                    first,
                ) + opt_calls(second),
    {
        let mut calls: Vec<NetworkDelegateCall> = Vec::new();
        let ghost mut first: Option<NetworkDelegateCall> = None;
        if self.runtime.ui_network.network_timeout_armed {
            let c = self.handle_network_timeout_tick();
            proof {
                first = Some(c);
            }
            calls.push(c);
        }
        let ghost mid = *self;
        let ghost mut second: Option<NetworkDelegateCall> = None;
        if self.runtime.ui_network.network_armed && !self.runtime.ui_network.network_completed {
            let c = self.handle_active_network_tick();
            proof {
                second = Some(c);
            }
            calls.push(c);
        } else if self.runtime.ui_network.network_completed && self.runtime.ui_network.network_source_closed {
            self.handle_completed_network_idle_tick();
        }
        proof {
            assert(probe_phase(*old(self), mid, first));
            assert(source_phase(mid, *self, second));
            assert(calls@ =~= opt_calls(first) + opt_calls(second));
        }
        calls
    }
}

} // verus!
