//! Internal counters of a node (authentications, tunnels, relayed bytes), in the
//! Prometheus exposition format.
//!
//! The library never binds a port to serve them: it counts them and renders them
//! as text, and the caller writes that text to a file. The text is a function of
//! the counters alone: no peer and no address appears in it.

use vstd::prelude::*;
use vstd::string::StringExecFns;
use crate::text::push_decimal;
use crate::tunnel::TunnelOutcome;

verus! {

/// A sample line under its header: the text before the value, the value, the end
/// of the line.
pub open spec fn sample(head: Seq<char>, value: u64) -> Seq<char> {
    head + crate::text::decimal(value as nat) + "\n"@
}

/// Appends a sample line under its header.
pub(crate) fn push_sample(out: &mut String, head: &str, value: u64)
    ensures
        final(out)@ == old(out)@ + sample(head@, value),
{
    let ghost before = out@;
    out.append(head);
    push_decimal(out, value);
    out.append("\n");
    assert(out@ =~= before + sample(head@, value));
}

/// Values of the counters of a node.
pub struct MetricsModel {
    /// Successful authentications.
    pub auth_granted: u64,
    /// Refused authentications.
    pub auth_denied: u64,
    /// Tunnels established.
    pub tunnels_opened: u64,
    /// Tunnel streams dropped before they were established.
    pub tunnels_denied: u64,
    /// Tunnels in progress.
    pub tunnels_active: u64,
    /// Bytes received from peers.
    pub bytes_from_peer: u64,
    /// Bytes sent to peers.
    pub bytes_to_peer: u64,
}

impl MetricsModel {
    /// After the end of a stream: it is no longer in progress, and counts as
    /// opened with its bytes or as denied.
    pub open spec fn finished(self, outcome: TunnelOutcome) -> MetricsModel {
        let done = MetricsModel { tunnels_active: self.tunnels_active.wrapping_sub(1), ..self };
        match outcome {
            TunnelOutcome::Served { bytes_from_peer, bytes_to_peer } => MetricsModel {
                tunnels_opened: self.tunnels_opened.wrapping_add(1),
                bytes_from_peer: self.bytes_from_peer.wrapping_add(bytes_from_peer),
                bytes_to_peer: self.bytes_to_peer.wrapping_add(bytes_to_peer),
                ..done
            },
            TunnelOutcome::Denied => MetricsModel {
                tunnels_denied: self.tunnels_denied.wrapping_add(1),
                ..done
            },
        }
    }

    /// After the start of a stream.
    pub open spec fn started(self) -> MetricsModel {
        MetricsModel { tunnels_active: self.tunnels_active.wrapping_add(1), ..self }
    }

    /// The text of the counters.
    pub open spec fn text(self) -> Seq<char> {
        sample(
            "# HELP nux_auth_granted_total Authentifications réussies.\n# TYPE nux_auth_granted_total counter\nnux_auth_granted_total "@,
            self.auth_granted,
        ) + sample(
            "# HELP nux_auth_denied_total Authentifications refusées (pair inconnu, signature invalide, arrêt en cours).\n# TYPE nux_auth_denied_total counter\nnux_auth_denied_total "@,
            self.auth_denied,
        ) + sample(
            "# HELP nux_tunnels_opened_total Tunnels établis avec succès (acquittement envoyé).\n# TYPE nux_tunnels_opened_total counter\nnux_tunnels_opened_total "@,
            self.tunnels_opened,
        ) + sample(
            "# HELP nux_tunnels_denied_total Flux tunnel abandonnés avant établissement (silence radio).\n# TYPE nux_tunnels_denied_total counter\nnux_tunnels_denied_total "@,
            self.tunnels_denied,
        ) + sample(
            "# HELP nux_tunnels_active Tunnels actuellement en cours de relais.\n# TYPE nux_tunnels_active gauge\nnux_tunnels_active "@,
            self.tunnels_active,
        ) + sample(
            "# HELP nux_bytes_from_peer_total Octets reçus du pair et relayés vers le service local.\n# TYPE nux_bytes_from_peer_total counter\nnux_bytes_from_peer_total "@,
            self.bytes_from_peer,
        ) + sample(
            "# HELP nux_bytes_to_peer_total Octets reçus du service local et relayés vers le pair.\n# TYPE nux_bytes_to_peer_total counter\nnux_bytes_to_peer_total "@,
            self.bytes_to_peer,
        )
    }
}

/// Counters of a node, Guard or Client. They wrap around at 2^64.
#[derive(Debug)]
pub struct Metrics {
    auth_granted: u64,
    auth_denied: u64,
    tunnels_opened: u64,
    tunnels_denied: u64,
    tunnels_active: u64,
    bytes_from_peer: u64,
    bytes_to_peer: u64,
}

impl View for Metrics {
    type V = MetricsModel;

    closed spec fn view(&self) -> MetricsModel {
        MetricsModel {
            auth_granted: self.auth_granted,
            auth_denied: self.auth_denied,
            tunnels_opened: self.tunnels_opened,
            tunnels_denied: self.tunnels_denied,
            tunnels_active: self.tunnels_active,
            bytes_from_peer: self.bytes_from_peer,
            bytes_to_peer: self.bytes_to_peer,
        }
    }
}

impl Default for Metrics {
    fn default() -> (r: Self)
        ensures
            r@ == (MetricsModel {
                auth_granted: 0,
                auth_denied: 0,
                tunnels_opened: 0,
                tunnels_denied: 0,
                tunnels_active: 0,
                bytes_from_peer: 0,
                bytes_to_peer: 0,
            }),
    {
        Metrics {
            auth_granted: 0,
            auth_denied: 0,
            tunnels_opened: 0,
            tunnels_denied: 0,
            tunnels_active: 0,
            bytes_from_peer: 0,
            bytes_to_peer: 0,
        }
    }
}

impl Metrics {
    /// An authentication succeeded.
    pub fn record_auth_granted(&mut self)
        ensures
            final(self)@ == (MetricsModel {
                auth_granted: old(self)@.auth_granted.wrapping_add(1),
                ..old(self)@
            }),
    {
        self.auth_granted = self.auth_granted.wrapping_add(1);
    }

    /// An authentication was refused.
    pub fn record_auth_denied(&mut self)
        ensures
            final(self)@ == (MetricsModel {
                auth_denied: old(self)@.auth_denied.wrapping_add(1),
                ..old(self)@
            }),
    {
        self.auth_denied = self.auth_denied.wrapping_add(1);
    }

    /// A tunnel stream was dropped before it was served.
    pub fn record_tunnel_denied(&mut self)
        ensures
            final(self)@ == (MetricsModel {
                tunnels_denied: old(self)@.tunnels_denied.wrapping_add(1),
                ..old(self)@
            }),
    {
        self.tunnels_denied = self.tunnels_denied.wrapping_add(1);
    }

    /// A tunnel stream is being served.
    pub fn record_tunnel_started(&mut self)
        ensures
            final(self)@ == old(self)@.started(),
    {
        self.tunnels_active = self.tunnels_active.wrapping_add(1);
    }

    /// A tunnel stream that was being served ended.
    pub fn record_tunnel_finished(&mut self, outcome: TunnelOutcome)
        ensures
            final(self)@ == old(self)@.finished(outcome),
    {
        self.tunnels_active = self.tunnels_active.wrapping_sub(1);
        match outcome {
            TunnelOutcome::Served { bytes_from_peer, bytes_to_peer } => {
                self.tunnels_opened = self.tunnels_opened.wrapping_add(1);
                self.bytes_from_peer = self.bytes_from_peer.wrapping_add(bytes_from_peer);
                self.bytes_to_peer = self.bytes_to_peer.wrapping_add(bytes_to_peer);
            },
            TunnelOutcome::Denied => {
                self.tunnels_denied = self.tunnels_denied.wrapping_add(1);
            },
        }
    }

    /// The counters in the Prometheus exposition format.
    pub fn to_prometheus_text(&self) -> (r: String)
        ensures
            r@ == self@.text(),
    {
        let mut out = String::new();
        push_sample(
            &mut out,
            "# HELP nux_auth_granted_total Authentifications réussies.\n# TYPE nux_auth_granted_total counter\nnux_auth_granted_total ",
            self.auth_granted,
        );
        push_sample(
            &mut out,
            "# HELP nux_auth_denied_total Authentifications refusées (pair inconnu, signature invalide, arrêt en cours).\n# TYPE nux_auth_denied_total counter\nnux_auth_denied_total ",
            self.auth_denied,
        );
        push_sample(
            &mut out,
            "# HELP nux_tunnels_opened_total Tunnels établis avec succès (acquittement envoyé).\n# TYPE nux_tunnels_opened_total counter\nnux_tunnels_opened_total ",
            self.tunnels_opened,
        );
        push_sample(
            &mut out,
            "# HELP nux_tunnels_denied_total Flux tunnel abandonnés avant établissement (silence radio).\n# TYPE nux_tunnels_denied_total counter\nnux_tunnels_denied_total ",
            self.tunnels_denied,
        );
        push_sample(
            &mut out,
            "# HELP nux_tunnels_active Tunnels actuellement en cours de relais.\n# TYPE nux_tunnels_active gauge\nnux_tunnels_active ",
            self.tunnels_active,
        );
        push_sample(
            &mut out,
            "# HELP nux_bytes_from_peer_total Octets reçus du pair et relayés vers le service local.\n# TYPE nux_bytes_from_peer_total counter\nnux_bytes_from_peer_total ",
            self.bytes_from_peer,
        );
        push_sample(
            &mut out,
            "# HELP nux_bytes_to_peer_total Octets reçus du service local et relayés vers le pair.\n# TYPE nux_bytes_to_peer_total counter\nnux_bytes_to_peer_total ",
            self.bytes_to_peer,
        );
        assert(out@ =~= self@.text());
        out
    }
}

/// A stream that started and ended leaves the number of tunnels in progress as it
/// was, and is counted once: as opened or as denied.
pub proof fn finished_stream_is_counted_once(m: MetricsModel, outcome: TunnelOutcome)
    ensures
        m.started().finished(outcome).tunnels_active == m.tunnels_active,
        m.started().finished(outcome).tunnels_opened == if outcome is Served {
            m.tunnels_opened.wrapping_add(1)
        } else {
            m.tunnels_opened
        },
        m.started().finished(outcome).tunnels_denied == if outcome is Served {
            m.tunnels_denied
        } else {
            m.tunnels_denied.wrapping_add(1)
        },
{
}

/// The streams are counted as they are: one more in progress at its start, one fewer at its end,
/// when its bytes are added each to its own counter; the authentications are left alone.
pub proof fn streams_are_counted(m: MetricsModel, from_peer: u64, to_peer: u64)
    requires
        0 < m.tunnels_active < u64::MAX,
        m.tunnels_opened < u64::MAX,
        m.tunnels_denied < u64::MAX,
        m.bytes_from_peer + from_peer <= u64::MAX,
        m.bytes_to_peer + to_peer <= u64::MAX,
    ensures
        m.started() == (MetricsModel { tunnels_active: (m.tunnels_active + 1) as u64, ..m }),
        m.finished(TunnelOutcome::Denied) == (MetricsModel {
            tunnels_active: (m.tunnels_active - 1) as u64,
            tunnels_denied: (m.tunnels_denied + 1) as u64,
            ..m
        }),
        m.finished(
            TunnelOutcome::Served { bytes_from_peer: from_peer, bytes_to_peer: to_peer },
        ) == (MetricsModel {
            tunnels_active: (m.tunnels_active - 1) as u64,
            tunnels_opened: (m.tunnels_opened + 1) as u64,
            bytes_from_peer: (m.bytes_from_peer + from_peer) as u64,
            bytes_to_peer: (m.bytes_to_peer + to_peer) as u64,
            ..m
        }),
{
}

/// Whether a text holds a counter: its description, its name and its value in decimal, on lines
/// of their own.
pub open spec fn shows(text: Seq<char>, head: Seq<char>, value: u64) -> bool {
    exists|before: Seq<char>, after: Seq<char>|
        text == #[trigger] (before + (head + crate::text::decimal(value as nat) + "\n"@) + after)
}

/// Each counter is shown under its own name.
pub proof fn every_counter_is_shown(m: MetricsModel)
    ensures
        shows(
            m.text(),
            "# HELP nux_auth_granted_total Authentifications réussies.\n# TYPE nux_auth_granted_total counter\nnux_auth_granted_total "@,
            m.auth_granted,
        ),
        shows(
            m.text(),
            "# HELP nux_auth_denied_total Authentifications refusées (pair inconnu, signature invalide, arrêt en cours).\n# TYPE nux_auth_denied_total counter\nnux_auth_denied_total "@,
            m.auth_denied,
        ),
        shows(
            m.text(),
            "# HELP nux_tunnels_opened_total Tunnels établis avec succès (acquittement envoyé).\n# TYPE nux_tunnels_opened_total counter\nnux_tunnels_opened_total "@,
            m.tunnels_opened,
        ),
        shows(
            m.text(),
            "# HELP nux_tunnels_denied_total Flux tunnel abandonnés avant établissement (silence radio).\n# TYPE nux_tunnels_denied_total counter\nnux_tunnels_denied_total "@,
            m.tunnels_denied,
        ),
        shows(
            m.text(),
            "# HELP nux_tunnels_active Tunnels actuellement en cours de relais.\n# TYPE nux_tunnels_active gauge\nnux_tunnels_active "@,
            m.tunnels_active,
        ),
        shows(
            m.text(),
            "# HELP nux_bytes_from_peer_total Octets reçus du pair et relayés vers le service local.\n# TYPE nux_bytes_from_peer_total counter\nnux_bytes_from_peer_total "@,
            m.bytes_from_peer,
        ),
        shows(
            m.text(),
            "# HELP nux_bytes_to_peer_total Octets reçus du service local et relayés vers le pair.\n# TYPE nux_bytes_to_peer_total counter\nnux_bytes_to_peer_total "@,
            m.bytes_to_peer,
        ),
{
    let a = sample(
        "# HELP nux_auth_granted_total Authentifications réussies.\n# TYPE nux_auth_granted_total counter\nnux_auth_granted_total "@,
        m.auth_granted,
    );
    let b = sample(
        "# HELP nux_auth_denied_total Authentifications refusées (pair inconnu, signature invalide, arrêt en cours).\n# TYPE nux_auth_denied_total counter\nnux_auth_denied_total "@,
        m.auth_denied,
    );
    let c = sample(
        "# HELP nux_tunnels_opened_total Tunnels établis avec succès (acquittement envoyé).\n# TYPE nux_tunnels_opened_total counter\nnux_tunnels_opened_total "@,
        m.tunnels_opened,
    );
    let d = sample(
        "# HELP nux_tunnels_denied_total Flux tunnel abandonnés avant établissement (silence radio).\n# TYPE nux_tunnels_denied_total counter\nnux_tunnels_denied_total "@,
        m.tunnels_denied,
    );
    let e = sample(
        "# HELP nux_tunnels_active Tunnels actuellement en cours de relais.\n# TYPE nux_tunnels_active gauge\nnux_tunnels_active "@,
        m.tunnels_active,
    );
    let f = sample(
        "# HELP nux_bytes_from_peer_total Octets reçus du pair et relayés vers le service local.\n# TYPE nux_bytes_from_peer_total counter\nnux_bytes_from_peer_total "@,
        m.bytes_from_peer,
    );
    let g = sample(
        "# HELP nux_bytes_to_peer_total Octets reçus du service local et relayés vers le pair.\n# TYPE nux_bytes_to_peer_total counter\nnux_bytes_to_peer_total "@,
        m.bytes_to_peer,
    );
    let none = Seq::<char>::empty();
    assert(m.text() =~= none + a + (b + c + d + e + f + g));
    assert(m.text() =~= a + b + (c + d + e + f + g));
    assert(m.text() =~= (a + b) + c + (d + e + f + g));
    assert(m.text() =~= (a + b + c) + d + (e + f + g));
    assert(m.text() =~= (a + b + c + d) + e + (f + g));
    assert(m.text() =~= (a + b + c + d + e) + f + g);
    assert(m.text() =~= (a + b + c + d + e + f) + g + none);
}

} // verus!
