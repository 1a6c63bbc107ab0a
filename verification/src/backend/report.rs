//! A snapshot of the runtime's own state: the heap, the network connection
//! and its derived status, the run loop and the tuning switches.
use vstd::prelude::*;
use super::{MemoryArm32Backend, NetworkState, SyntheticHeapAllocation};
use super::heap::{active_count, active_reserved, blocks_ordered};
use super::network::{
    spec_connection_state_code, spec_connection_state_name, spec_delivered_len, spec_error_code, spec_error_description,
    spec_error_kind, spec_network_host, spec_network_path, spec_network_url, spec_reachability_label, spec_should_retry,
    spec_stream_status_name,
};

verus! {

/// The heap part of a snapshot.
#[derive(Debug, Clone, Copy, PartialEq, Eq)]
pub struct RuntimeHeapSummary {
    pub base: u32,
    pub end: u32,
    pub cursor: u32,
    pub allocations_total: u32,
    pub allocations_active: u32,
    pub frees: u32,
    pub reallocs: u32,
    pub bytes_active: u32,
    pub bytes_peak: u32,
    pub bytes_reserved: u32,
    pub last_alloc_ptr: Option<u32>,
    pub last_alloc_size: Option<u32>,
    pub last_freed_ptr: Option<u32>,
    pub last_realloc_old_ptr: Option<u32>,
    pub last_realloc_new_ptr: Option<u32>,
    pub last_realloc_size: Option<u32>,
}

/// The network part of a snapshot: the endpoint, the connection's flags
/// and counters, with its state and the error it reports.
#[derive(Debug, Clone)]
pub struct RuntimeNetworkSummary {
    pub url: &'static str,
    pub host: &'static str,
    pub path: &'static str,
    pub method: &'static str,
    pub connection: NetworkState,
    pub payload_len: u32,
    pub state_code: u32,
    pub state: &'static str,
    pub last_error_domain: Option<&'static str>,
    pub last_error_code: Option<i32>,
    pub last_error_kind: Option<&'static str>,
    pub last_error_description: Option<&'static str>,
    pub retry_recommended: bool,
}

/// The reachability part of a snapshot.
#[derive(Debug, Clone)]
pub struct RuntimeReachabilitySummary {
    pub scheduled: bool,
    pub callback_set: bool,
    pub flags: u32,
    pub flags_label: String,
    pub state: &'static str,
}

/// The stream part of a snapshot.
#[derive(Debug, Clone)]
pub struct RuntimeStreamSummary {
    pub read_status_code: u32,
    pub read_status: &'static str,
    pub read_open: bool,
    pub read_scheduled: bool,
    pub read_events: u32,
    pub read_bytes_consumed: u32,
    pub read_has_bytes_available: bool,
    pub write_status_code: u32,
    pub write_status: &'static str,
    pub write_open: bool,
    pub write_scheduled: bool,
    pub write_events: u32,
    pub write_bytes_written: u32,
    pub write_can_accept_bytes: bool,
}

/// The run-loop part of a snapshot.
#[derive(Debug, Clone, Copy, PartialEq, Eq)]
pub struct RuntimeRunloopSummary {
    pub ticks: u32,
    pub idle_ticks_after_completion: u32,
}

/// A snapshot of the runtime's state.
#[derive(Debug, Clone)]
pub struct RuntimeStateReport {
    pub network_fault_probes: bool,
    pub runloop: RuntimeRunloopSummary,
    pub network: RuntimeNetworkSummary,
    pub reachability: RuntimeReachabilitySummary,
    pub streams: RuntimeStreamSummary,
    pub heap: RuntimeHeapSummary,
}

/// The lowest block address, or the lower of cursor and end when no block
/// was ever handed out.
pub open spec fn heap_base(a: Seq<SyntheticHeapAllocation>, cursor: u32, end: u32) -> u32 {
    if a.len() == 0 {
        if cursor < end {
            cursor
        } else {
            end
        }
    } else {
        a[0].ptr
    }
}

/// The connection reports an error once it is cancelled, faulted or its
/// timeout is armed.
pub open spec fn network_has_error(n: NetworkState) -> bool {
    n.network_cancelled || n.network_faulted || n.network_timeout_armed
}

impl MemoryArm32Backend {
    /// A snapshot of the heap, the network connection, the run loop and the
    /// tuning switches.
    pub fn runtime_state_snapshot(&self) -> (r: RuntimeStateReport)
        requires
            self.runtime.heap.heap_wf(),
        ensures
            ({
                let h = self.runtime.heap;
                let a = h.synthetic_heap_allocations@;
                let n = self.runtime.ui_network;
                &&& r.network_fault_probes == self.tuning.synthetic_network_fault_probes
                &&& r.runloop == (RuntimeRunloopSummary {
                    ticks: self.runtime.ui_runtime.runloop_ticks,
                    idle_ticks_after_completion: self.runtime.ui_runtime.idle_ticks_after_completion,
                })
                &&& r.heap == (RuntimeHeapSummary {
                    base: heap_base(a, h.synthetic_heap_cursor, h.synthetic_heap_end),
                    end: h.synthetic_heap_end,
                    cursor: h.synthetic_heap_cursor,
                    allocations_total: h.synthetic_heap_allocations_total,
                    allocations_active: active_count(a) as u32,
                    frees: h.synthetic_heap_frees,
                    reallocs: h.synthetic_heap_reallocs,
                    bytes_active: h.synthetic_heap_bytes_active,
                    bytes_peak: h.synthetic_heap_bytes_peak,
                    bytes_reserved: active_reserved(a) as u32,
                    last_alloc_ptr: h.synthetic_heap_last_alloc_ptr,
                    last_alloc_size: h.synthetic_heap_last_alloc_size,
                    last_freed_ptr: h.synthetic_heap_last_freed_ptr,
                    last_realloc_old_ptr: h.synthetic_heap_last_realloc_old_ptr,
                    last_realloc_new_ptr: h.synthetic_heap_last_realloc_new_ptr,
                    last_realloc_size: h.synthetic_heap_last_realloc_size,
                })
                &&& forall|i: int| 0 <= i < a.len() ==> r.heap.base <= (#[trigger] a[i]).ptr
                &&& r.network.connection == n
                &&& r.network.payload_len == 128
                &&& r.network.state_code == spec_connection_state_code(n)
                &&& r.network.last_error_code == (if network_has_error(n) {
                    Some(spec_error_code(n.network_fault_mode))
                } else {
                    None
                })
                &&& r.network.retry_recommended == spec_should_retry(n)
                &&& r.network.url@ == spec_network_url(self.profile)
                &&& r.network.host@ == spec_network_host(self.profile)
                &&& r.network.path@ == spec_network_path(self.profile)
                &&& r.network.method@ == "GET"@
                &&& r.network.state@ == spec_connection_state_name(spec_connection_state_code(n))
                &&& (network_has_error(n) ==> {
                    &&& r.network.last_error_domain matches Some(d) && d@ == "NSURLErrorDomain"@
                    &&& r.network.last_error_kind matches Some(k) && k@ == spec_error_kind(n.network_fault_mode)
                    &&& r.network.last_error_description matches Some(t) && t@ == spec_error_description(
                        n.network_fault_mode,
                    )
                })
                &&& (!network_has_error(n) ==> r.network.last_error_domain is None && r.network.last_error_kind is None
                    && r.network.last_error_description is None)
                &&& r.reachability.scheduled == n.reachability_scheduled
                &&& r.reachability.callback_set == n.reachability_callback_set
                &&& r.reachability.flags == n.reachability_flags
                &&& r.reachability.flags_label@ == spec_reachability_label(n.reachability_flags)
                &&& r.reachability.state@ == (if n.reachability_scheduled {
                    "reachable"@
                } else {
                    "idle"@
                })
                &&& r.streams.read_status_code == n.read_stream_status
                &&& r.streams.read_status@ == spec_stream_status_name(n.read_stream_status)
                &&& r.streams.read_open == n.read_stream_open
                &&& r.streams.read_scheduled == n.read_stream_scheduled
                &&& r.streams.read_events == n.read_stream_events
                &&& r.streams.read_bytes_consumed == n.read_stream_bytes_consumed
                &&& r.streams.read_has_bytes_available == (n.read_stream_open && n.read_stream_bytes_consumed
                    < spec_delivered_len(n))
                &&& r.streams.write_status_code == n.write_stream_status
                &&& r.streams.write_status@ == spec_stream_status_name(n.write_stream_status)
                &&& r.streams.write_open == n.write_stream_open
                &&& r.streams.write_scheduled == n.write_stream_scheduled
                &&& r.streams.write_events == n.write_stream_events
                &&& r.streams.write_bytes_written == n.write_stream_bytes_written
                &&& r.streams.write_can_accept_bytes == (n.write_stream_open && !n.network_cancelled
                    && !n.network_faulted)
            }),
    {
        let h = &self.runtime.heap;
        let base = if h.synthetic_heap_allocations.len() == 0 {
            if h.synthetic_heap_cursor < h.synthetic_heap_end {
                h.synthetic_heap_cursor
            } else {
                h.synthetic_heap_end
            }
        } else {
            h.synthetic_heap_allocations[0].ptr
        };
        proof {
            let a = h.synthetic_heap_allocations@;
            assert forall|i: int| 0 <= i < a.len() implies base <= (#[trigger] a[i]).ptr by {
                if i > 0 {
                    assert(blocks_ordered(a));
                    assert(a[0].ptr + a[0].reserved_size <= a[i].ptr);
                }
            }
        }
        let heap = RuntimeHeapSummary {
            base,
            end: h.synthetic_heap_end,
            cursor: h.synthetic_heap_cursor,
            allocations_total: h.synthetic_heap_allocations_total,
            allocations_active: self.active_synthetic_heap_allocations(),
            frees: h.synthetic_heap_frees,
            reallocs: h.synthetic_heap_reallocs,
            bytes_active: h.synthetic_heap_bytes_active,
            bytes_peak: h.synthetic_heap_bytes_peak,
            bytes_reserved: self.synthetic_heap_reserved_bytes(),
            last_alloc_ptr: h.synthetic_heap_last_alloc_ptr,
            last_alloc_size: h.synthetic_heap_last_alloc_size,
            last_freed_ptr: h.synthetic_heap_last_freed_ptr,
            last_realloc_old_ptr: h.synthetic_heap_last_realloc_old_ptr,
            last_realloc_new_ptr: h.synthetic_heap_last_realloc_new_ptr,
            last_realloc_size: h.synthetic_heap_last_realloc_size,
        };
        let n = self.runtime.ui_network;
        let has_error = n.network_cancelled || n.network_faulted || n.network_timeout_armed;
        let network = RuntimeNetworkSummary {
            url: self.network_url_string(),
            host: self.network_host_string(),
            path: self.network_path_string(),
            method: self.network_http_method(),
            connection: n,
            payload_len: self.network_payload_len(),
            state_code: self.network_connection_state_code(),
            state: self.network_connection_state_name(),
            last_error_domain: if has_error { Some(self.network_error_domain()) } else { None },
            last_error_code: if has_error { Some(self.network_error_code()) } else { None },
            last_error_kind: if has_error { Some(self.network_error_kind()) } else { None },
            last_error_description: if has_error { Some(self.network_error_description()) } else { None },
            retry_recommended: self.network_should_retry(),
        };
        let reachability = RuntimeReachabilitySummary {
            scheduled: n.reachability_scheduled,
            callback_set: n.reachability_callback_set,
            flags: self.reachability_flags(),
            flags_label: self.reachability_flags_label(),
            state: if n.reachability_scheduled { "reachable" } else { "idle" },
        };
        let streams = RuntimeStreamSummary {
            read_status_code: n.read_stream_status,
            read_status: Self::stream_status_name(n.read_stream_status),
            read_open: n.read_stream_open,
            read_scheduled: n.read_stream_scheduled,
            read_events: n.read_stream_events,
            read_bytes_consumed: n.read_stream_bytes_consumed,
            read_has_bytes_available: self.read_stream_has_bytes_available(),
            write_status_code: n.write_stream_status,
            write_status: Self::stream_status_name(n.write_stream_status),
            write_open: n.write_stream_open,
            write_scheduled: n.write_stream_scheduled,
            write_events: n.write_stream_events,
            write_bytes_written: n.write_stream_bytes_written,
            write_can_accept_bytes: self.write_stream_can_accept_bytes(),
        };
        RuntimeStateReport {
            network_fault_probes: self.tuning.synthetic_network_fault_probes,
            runloop: RuntimeRunloopSummary {
                ticks: self.runtime.ui_runtime.runloop_ticks,
                idle_ticks_after_completion: self.runtime.ui_runtime.idle_ticks_after_completion,
            },
            network,
            reachability,
            streams,
            heap,
        }
    }
}

} // verus!
