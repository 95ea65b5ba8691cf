//! Prometheus exporter: the decision core of the throttled HTTP metrics
//! endpoint.  Exactly one path serves freshly generated metric text; every
//! other path answers with a short static hint.  A last-refresh timestamp
//! gates snapshot regeneration so that concurrent requests inside one
//! staleness window share a single refresh.

use vstd::prelude::*;
use crate::decimal::{dec_val, is_dec_seq, parse_u64};
use crate::text::str_eq;

verus! {

/// Default address to expose the service on: any IPv4 or IPv6 address.
pub fn default_address() -> (r: &'static str)
    ensures
        r@ == "::"@,
{
    "::"
}

/// Default TCP port to expose the service on.
pub fn default_port() -> (r: &'static str)
    ensures
        r@ == "8080"@,
{
    "8080"
}

/// Default URL suffix to access metrics.  The minimal handler hard-codes
/// the `/metrics` path and does not honour a changed suffix — a documented
/// discrepancy of the configuration surface.
pub fn default_suffix() -> (r: &'static str)
    ensures
        r@ == "metrics"@,
{
    "metrics"
}

/// Parses a TCP port number: some value exactly when the string is a
/// non-empty run of digits whose value fits in a port number.  Anything
/// else is a fatal startup configuration error for the caller.
pub fn parse_port(s: &str) -> (r: Option<u16>)
    ensures
        r is Some <==> is_dec_seq(s@) && dec_val(s@) <= u16::MAX,
        r is Some ==> r->Some_0 == dec_val(s@),
{
    match parse_u64(s) {
        None => None,
        Some(v) => if v <= 0xffff {
            Some(v as u16)
        } else {
            None
        },
    }
}

/// How long a refreshed snapshot stays fresh, in milliseconds.
pub const STALENESS_WINDOW_MS: u64 = 5000;

/// A refresh is due when none has happened yet, or when the request
/// arrives more than the staleness window after the last one.
pub open spec fn spec_refresh_due(last_refresh_ms: Option<u64>, now_ms: u64) -> bool {
    match last_refresh_ms {
        None => true,
        Some(t) => now_ms - t > STALENESS_WINDOW_MS,
    }
}

/// Exactly one refresh per staleness window: once a refresh is recorded,
/// no request arriving within the window triggers another.
pub proof fn lemma_one_refresh_per_window(refreshed_at: u64, now_ms: u64)
    requires
        now_ms - refreshed_at <= STALENESS_WINDOW_MS,
    ensures
        !spec_refresh_due(Some(refreshed_at), now_ms),
{
}

/// Exporter that exposes metrics to an HTTP endpoint matching the
/// Prometheus.io metrics format.  It owns the request-side decisions: the
/// staleness gate and the response routing; the transport and the topology
/// refresh itself stay with the caller.
pub struct PrometheusExporter {
    /// Host name stamped on the exported metrics.
    pub hostname: String,
    /// Whether VM-aware labelling is enabled.
    pub qemu: bool,
    /// Whether container-aware labelling is enabled.
    pub containers: bool,
    /// When the shared snapshot was last refreshed; nothing has been
    /// refreshed yet on a fresh exporter.
    pub last_refresh_ms: Option<u64>,
}

impl PrometheusExporter {
    /// Instantiates PrometheusExporter and returns the instance.
    pub fn new(hostname: String, qemu: bool, containers: bool) -> (r: PrometheusExporter)
        ensures
            r.hostname == hostname,
            r.qemu == qemu,
            r.containers == containers,
            r.last_refresh_ms is None,
    {
        PrometheusExporter { hostname, qemu, containers, last_refresh_ms: None }
    }

    /// The staleness gate: true exactly when this request must perform the
    /// purge-and-refresh pass, in which case the refresh is recorded at
    /// `now_ms` so that every further request inside the window reuses the
    /// snapshot without waiting.  First writer wins: of several requests
    /// observing the same expired window, the one the caller runs first
    /// gets true and the rest see the renewed window.
    pub fn should_refresh(&mut self, now_ms: u64) -> (r: bool)
        ensures
            r == spec_refresh_due(old(self).last_refresh_ms, now_ms),
            final(self).last_refresh_ms == if r {
                Some(now_ms)
            } else {
                old(self).last_refresh_ms
            },
            final(self).hostname == old(self).hostname,
            final(self).qemu == old(self).qemu,
            final(self).containers == old(self).containers,
    {
        let due = match self.last_refresh_ms {
            None => true,
            Some(t) => now_ms > t && now_ms - t > STALENESS_WINDOW_MS,
        };
        if due {
            self.last_refresh_ms = Some(now_ms);
        }
        due
    }

    /// Routes one request: the metrics path gets the freshly generated
    /// body, every other path a short static hint towards it.
    pub fn respond(path: &str, metrics_body: String) -> (r: String)
        ensures
            path@ == "/metrics"@ ==> r@ == metrics_body@,
            path@ != "/metrics"@ ==> r@ == "go to /metrics !!"@,
    {
        if str_eq(path, "/metrics") {
            metrics_body
        } else {
            "go to /metrics !!".to_owned()
        }
    }
}

} // verus!
