//! Internal counters of a relay (reservations, circuits), in the Prometheus
//! exposition format. No peer and no address appears in the text.

use vstd::prelude::*;
use crate::metrics::push_sample;

verus! {

/// Values of the counters of a relay.
pub struct MetricsModel {
    /// Reservations accepted.
    pub reservations_total: u64,
    /// Reservations refused.
    pub reservations_denied_total: u64,
    /// Reservations expired.
    pub reservations_expired_total: u64,
    /// Circuits opened.
    pub circuits_opened_total: u64,
    /// Circuits open now.
    pub circuits_active: u64,
}

impl MetricsModel {
    /// After a circuit opened.
    pub open spec fn opened(self) -> MetricsModel {
        MetricsModel {
            circuits_opened_total: self.circuits_opened_total.wrapping_add(1),
            circuits_active: self.circuits_active.wrapping_add(1),
            ..self
        }
    }

    /// After a circuit closed.
    pub open spec fn closed_one(self) -> MetricsModel {
        MetricsModel { circuits_active: self.circuits_active.wrapping_sub(1), ..self }
    }

    /// After an event.
    pub open spec fn after(self, event: RelayEvent) -> MetricsModel {
        match event {
            RelayEvent::ReservationAccepted => MetricsModel {
                reservations_total: self.reservations_total.wrapping_add(1),
                ..self
            },
            RelayEvent::ReservationDenied => MetricsModel {
                reservations_denied_total: self.reservations_denied_total.wrapping_add(1),
                ..self
            },
            RelayEvent::ReservationExpired => MetricsModel {
                reservations_expired_total: self.reservations_expired_total.wrapping_add(1),
                ..self
            },
            RelayEvent::CircuitOpened => self.opened(),
            RelayEvent::CircuitClosed => self.closed_one(),
            RelayEvent::Other => self,
        }
    }

    /// The text of the counters.
    pub open spec fn text(self) -> Seq<char> {
        crate::metrics::sample(
            "# HELP nux_relay_reservations_total Réservations de circuit acceptées.\n# TYPE nux_relay_reservations_total counter\nnux_relay_reservations_total "@,
            self.reservations_total,
        ) + crate::metrics::sample(
            "# HELP nux_relay_reservations_denied_total Réservations de circuit refusées.\n# TYPE nux_relay_reservations_denied_total counter\nnux_relay_reservations_denied_total "@,
            self.reservations_denied_total,
        ) + crate::metrics::sample(
            "# HELP nux_relay_reservations_expired_total Réservations de circuit expirées.\n# TYPE nux_relay_reservations_expired_total counter\nnux_relay_reservations_expired_total "@,
            self.reservations_expired_total,
        ) + crate::metrics::sample(
            "# HELP nux_relay_circuits_opened_total Circuits relayés établis avec succès.\n# TYPE nux_relay_circuits_opened_total counter\nnux_relay_circuits_opened_total "@,
            self.circuits_opened_total,
        ) + crate::metrics::sample(
            "# HELP nux_relay_circuits_active Circuits relayés actuellement ouverts.\n# TYPE nux_relay_circuits_active gauge\nnux_relay_circuits_active "@,
            self.circuits_active,
        )
    }
}

/// What happens to the reservations and circuits of a relay.
#[derive(Debug, Clone, Copy, PartialEq, Eq, Structural)]
pub enum RelayEvent {
    /// A reservation was accepted.
    ReservationAccepted,
    /// A reservation was refused.
    ReservationDenied,
    /// A reservation expired.
    ReservationExpired,
    /// A circuit opened.
    CircuitOpened,
    /// A circuit closed.
    CircuitClosed,
    /// Anything else: it is logged, and no counter is about it.
    Other,
}

/// Counters of a relay. They wrap around at 2^64.
#[derive(Debug)]
pub struct Metrics {
    reservations_total: u64,
    reservations_denied_total: u64,
    reservations_expired_total: u64,
    circuits_opened_total: u64,
    circuits_active: u64,
}

impl View for Metrics {
    type V = MetricsModel;

    closed spec fn view(&self) -> MetricsModel {
        MetricsModel {
            reservations_total: self.reservations_total,
            reservations_denied_total: self.reservations_denied_total,
            reservations_expired_total: self.reservations_expired_total,
            circuits_opened_total: self.circuits_opened_total,
            circuits_active: self.circuits_active,
        }
    }
}

impl Default for Metrics {
    fn default() -> (r: Self)
        ensures
            r@ == (MetricsModel {
                reservations_total: 0,
                reservations_denied_total: 0,
                reservations_expired_total: 0,
                circuits_opened_total: 0,
                circuits_active: 0,
            }),
    {
        Metrics {
            reservations_total: 0,
            reservations_denied_total: 0,
            reservations_expired_total: 0,
            circuits_opened_total: 0,
            circuits_active: 0,
        }
    }
}

impl Metrics {
    /// A reservation was accepted.
    pub fn record_reservation_accepted(&mut self)
        ensures
            final(self)@ == (MetricsModel {
                reservations_total: old(self)@.reservations_total.wrapping_add(1),
                ..old(self)@
            }),
    {
        self.reservations_total = self.reservations_total.wrapping_add(1);
    }

    /// A reservation was refused.
    pub fn record_reservation_denied(&mut self)
        ensures
            final(self)@ == (MetricsModel {
                reservations_denied_total: old(self)@.reservations_denied_total.wrapping_add(1),
                ..old(self)@
            }),
    {
        self.reservations_denied_total = self.reservations_denied_total.wrapping_add(1);
    }

    /// A reservation expired.
    pub fn record_reservation_expired(&mut self)
        ensures
            final(self)@ == (MetricsModel {
                reservations_expired_total: old(self)@.reservations_expired_total.wrapping_add(1),
                ..old(self)@
            }),
    {
        self.reservations_expired_total = self.reservations_expired_total.wrapping_add(1);
    }

    /// A circuit opened.
    pub fn record_circuit_opened(&mut self)
        ensures
            final(self)@ == old(self)@.opened(),
    {
        self.circuits_opened_total = self.circuits_opened_total.wrapping_add(1);
        self.circuits_active = self.circuits_active.wrapping_add(1);
    }

    /// A circuit closed.
    pub fn record_circuit_closed(&mut self)
        ensures
            final(self)@ == old(self)@.closed_one(),
    {
        self.circuits_active = self.circuits_active.wrapping_sub(1);
    }

    /// Counts an event of the relay.
    pub fn record(&mut self, event: RelayEvent)
        ensures
            final(self)@ == old(self)@.after(event),
    {
        match event {
            RelayEvent::ReservationAccepted => self.record_reservation_accepted(),
            RelayEvent::ReservationDenied => self.record_reservation_denied(),
            RelayEvent::ReservationExpired => self.record_reservation_expired(),
            RelayEvent::CircuitOpened => self.record_circuit_opened(),
            RelayEvent::CircuitClosed => self.record_circuit_closed(),
            RelayEvent::Other => {},
        }
    }

    /// The counters in the Prometheus exposition format.
    pub fn to_prometheus_text(&self) -> (r: String)
        ensures
            r@ == self@.text(),
    {
        let mut out = String::new();
        push_sample(
            &mut out,
            "# HELP nux_relay_reservations_total Réservations de circuit acceptées.\n# TYPE nux_relay_reservations_total counter\nnux_relay_reservations_total ",
            self.reservations_total,
        );
        push_sample(
            &mut out,
            "# HELP nux_relay_reservations_denied_total Réservations de circuit refusées.\n# TYPE nux_relay_reservations_denied_total counter\nnux_relay_reservations_denied_total ",
            self.reservations_denied_total,
        );
        push_sample(
            &mut out,
            "# HELP nux_relay_reservations_expired_total Réservations de circuit expirées.\n# TYPE nux_relay_reservations_expired_total counter\nnux_relay_reservations_expired_total ",
            self.reservations_expired_total,
        );
        push_sample(
            &mut out,
            "# HELP nux_relay_circuits_opened_total Circuits relayés établis avec succès.\n# TYPE nux_relay_circuits_opened_total counter\nnux_relay_circuits_opened_total ",
            self.circuits_opened_total,
        );
        push_sample(
            &mut out,
            "# HELP nux_relay_circuits_active Circuits relayés actuellement ouverts.\n# TYPE nux_relay_circuits_active gauge\nnux_relay_circuits_active ",
            self.circuits_active,
        );
        assert(out@ =~= self@.text());
        out
    }
}

/// A circuit that opened and closed leaves the number of open circuits as it was.
pub proof fn closed_circuit_is_not_active(m: MetricsModel)
    ensures
        m.opened().closed_one().circuits_active == m.circuits_active,
{
}

/// The counters after events.
pub open spec fn run(m: MetricsModel, events: Seq<RelayEvent>) -> MetricsModel
    decreases events.len(),
{
    if events.len() == 0 {
        m
    } else {
        run(m, events.drop_last()).after(events.last())
    }
}

/// How many of the events are of a kind.
pub open spec fn count(events: Seq<RelayEvent>, kind: RelayEvent) -> nat
    decreases events.len(),
{
    if events.len() == 0 {
        0
    } else {
        count(events.drop_last(), kind) + if events.last() == kind {
            1nat
        } else {
            0nat
        }
    }
}

/// Whether no more circuits closed than opened, at any time.
pub open spec fn closes_follow_opens(events: Seq<RelayEvent>) -> bool {
    forall|n: int|
        0 <= n <= events.len() ==> count(#[trigger] events.take(n), RelayEvent::CircuitClosed)
            <= count(events.take(n), RelayEvent::CircuitOpened)
}

proof fn lemma_count_bound(events: Seq<RelayEvent>, kind: RelayEvent)
    ensures
        count(events, kind) <= events.len(),
    decreases events.len(),
{
    if events.len() > 0 {
        lemma_count_bound(events.drop_last(), kind);
    }
}

/// The counters count: from zero, after fewer than 2^64 events of which no circuit closed
/// before it opened, the open circuits are those opened less those closed, closing lowers
/// no total, and each counter of reservations is the number of its events alone.
pub proof fn counters_count_the_events(m: MetricsModel, events: Seq<RelayEvent>)
    requires
        m == (MetricsModel {
            reservations_total: 0,
            reservations_denied_total: 0,
            reservations_expired_total: 0,
            circuits_opened_total: 0,
            circuits_active: 0,
        }),
        events.len() <= u64::MAX,
        closes_follow_opens(events),
    ensures
        run(m, events).circuits_opened_total == count(events, RelayEvent::CircuitOpened),
        run(m, events).circuits_active == count(events, RelayEvent::CircuitOpened) - count(
            events,
            RelayEvent::CircuitClosed,
        ),
        run(m, events).circuits_active <= run(m, events).circuits_opened_total,
        run(m, events).reservations_total == count(events, RelayEvent::ReservationAccepted),
        run(m, events).reservations_denied_total == count(events, RelayEvent::ReservationDenied),
        run(m, events).reservations_expired_total == count(events, RelayEvent::ReservationExpired),
    decreases events.len(),
{
    assert(events.take(events.len() as int) =~= events);
    if events.len() > 0 {
        let front = events.drop_last();
        assert(closes_follow_opens(front)) by {
            assert forall|n: int| 0 <= n <= front.len() implies count(
                #[trigger] front.take(n),
                RelayEvent::CircuitClosed,
            ) <= count(front.take(n), RelayEvent::CircuitOpened) by {
                assert(front.take(n) =~= events.take(n));
            }
        }
        counters_count_the_events(m, front);
        lemma_count_bound(front, RelayEvent::CircuitOpened);
        lemma_count_bound(front, RelayEvent::ReservationAccepted);
        lemma_count_bound(front, RelayEvent::ReservationDenied);
        lemma_count_bound(front, RelayEvent::ReservationExpired);
    }
}

/// Each counter of a relay is shown under its own name.
pub proof fn every_relay_counter_is_shown(m: MetricsModel)
    ensures
        crate::metrics::shows(
            m.text(),
            "# HELP nux_relay_reservations_total Réservations de circuit acceptées.\n# TYPE nux_relay_reservations_total counter\nnux_relay_reservations_total "@,
            m.reservations_total,
        ),
        crate::metrics::shows(
            m.text(),
            "# HELP nux_relay_reservations_denied_total Réservations de circuit refusées.\n# TYPE nux_relay_reservations_denied_total counter\nnux_relay_reservations_denied_total "@,
            m.reservations_denied_total,
        ),
        crate::metrics::shows(
            m.text(),
            "# HELP nux_relay_reservations_expired_total Réservations de circuit expirées.\n# TYPE nux_relay_reservations_expired_total counter\nnux_relay_reservations_expired_total "@,
            m.reservations_expired_total,
        ),
        crate::metrics::shows(
            m.text(),
            "# HELP nux_relay_circuits_opened_total Circuits relayés établis avec succès.\n# TYPE nux_relay_circuits_opened_total counter\nnux_relay_circuits_opened_total "@,
            m.circuits_opened_total,
        ),
        crate::metrics::shows(
            m.text(),
            "# HELP nux_relay_circuits_active Circuits relayés actuellement ouverts.\n# TYPE nux_relay_circuits_active gauge\nnux_relay_circuits_active "@,
            m.circuits_active,
        ),
{
    let a = crate::metrics::sample(
        "# HELP nux_relay_reservations_total Réservations de circuit acceptées.\n# TYPE nux_relay_reservations_total counter\nnux_relay_reservations_total "@,
        m.reservations_total,
    );
    let b = crate::metrics::sample(
        "# HELP nux_relay_reservations_denied_total Réservations de circuit refusées.\n# TYPE nux_relay_reservations_denied_total counter\nnux_relay_reservations_denied_total "@,
        m.reservations_denied_total,
    );
    let c = crate::metrics::sample(
        "# HELP nux_relay_reservations_expired_total Réservations de circuit expirées.\n# TYPE nux_relay_reservations_expired_total counter\nnux_relay_reservations_expired_total "@,
        m.reservations_expired_total,
    );
    let d = crate::metrics::sample(
        "# HELP nux_relay_circuits_opened_total Circuits relayés établis avec succès.\n# TYPE nux_relay_circuits_opened_total counter\nnux_relay_circuits_opened_total "@,
        m.circuits_opened_total,
    );
    let e = crate::metrics::sample(
        "# HELP nux_relay_circuits_active Circuits relayés actuellement ouverts.\n# TYPE nux_relay_circuits_active gauge\nnux_relay_circuits_active "@,
        m.circuits_active,
    );
    let none = Seq::<char>::empty();
    assert(m.text() =~= none + a + (b + c + d + e));
    assert(m.text() =~= a + b + (c + d + e));
    assert(m.text() =~= (a + b) + c + (d + e));
    assert(m.text() =~= (a + b + c) + d + e);
    assert(m.text() =~= (a + b + c + d) + e + none);
}

} // verus!
