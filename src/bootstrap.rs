//! The serving topology, decided once at start from whether the TLS
//! certificate and key locations are configured.
use vstd::prelude::*;

verus! {

/// One network listener to start.
#[derive(PartialEq, Eq, Structural, Clone, Copy, Debug)]
pub struct Listener {
    /// Bound to the loopback interface only (else to all interfaces).
    pub loopback_only: bool,
    /// Terminates TLS (else plain HTTP).
    pub tls: bool,
    pub port: u16,
}

/// The listeners to start, and two warnings that never stop the start:
/// the configuration names only one of the TLS locations, or it names both
/// but no port is left above `port` for the TLS listener.
pub struct ListenerPlan {
    pub listeners: Vec<Listener>,
    pub misconfigured: bool,
    pub tls_unplaced: bool,
}

/// The listeners, the half-configured warning and the unplaced-TLS warning
/// for the given configuration.
pub open spec fn plan_spec(has_cert: bool, has_key: bool, port: u16) -> (Seq<Listener>, bool, bool) {
    if has_cert && has_key {
        if port == u16::MAX {
            (seq![Listener { loopback_only: true, tls: false, port }], false, true)
        } else {
            (
                seq![
                    Listener { loopback_only: true, tls: false, port },
                    Listener { loopback_only: false, tls: true, port: (port + 1) as u16 },
                ],
                false,
                false,
            )
        }
    } else {
        (seq![Listener { loopback_only: false, tls: false, port }], has_cert || has_key, false)
    }
}

/// Decides the listeners: with both TLS locations, plain HTTP on loopback
/// at `port` and TLS on all interfaces at `port + 1` (when `port` is the
/// last port, the TLS listener cannot be placed and the loopback listener
/// runs alone, with a warning); otherwise one plain listener on all
/// interfaces at `port`, flagged as misconfigured when exactly one
/// location is set.
pub fn listener_plan(has_cert: bool, has_key: bool, port: u16) -> (r: ListenerPlan)
    ensures
        plan_spec(has_cert, has_key, port) == (r.listeners@, r.misconfigured, r.tls_unplaced),
{
    if has_cert && has_key {
        if port == u16::MAX {
            let listeners = vec![Listener { loopback_only: true, tls: false, port }];
            proof {
                assert(listeners@ =~= seq![Listener { loopback_only: true, tls: false, port }]);
            }
            ListenerPlan { listeners, misconfigured: false, tls_unplaced: true }
        } else {
            let listeners = vec![
                Listener { loopback_only: true, tls: false, port },
                Listener { loopback_only: false, tls: true, port: port + 1 },
            ];
            proof {
                assert(listeners@ =~= seq![
                    Listener { loopback_only: true, tls: false, port },
                    Listener { loopback_only: false, tls: true, port: (port + 1) as u16 },
                ]);
            }
            ListenerPlan { listeners, misconfigured: false, tls_unplaced: false }
        }
    } else {
        let listeners = vec![Listener { loopback_only: false, tls: false, port }];
        proof {
            assert(listeners@ =~= seq![Listener { loopback_only: false, tls: false, port }]);
        }
        ListenerPlan { listeners, misconfigured: has_cert || has_key, tls_unplaced: false }
    }
}

/// With both TLS locations a trusted plain listener on loopback always
/// starts, and beside it a TLS one on all interfaces unless no port is left
/// for it, which is only flagged; with one or none, exactly one plain
/// listener starts, and one location alone is only flagged.
pub proof fn lemma_listener_topology(has_cert: bool, has_key: bool, port: u16)
    ensures
        has_cert && has_key ==> {
            let (ls, warn, unplaced) = plan_spec(has_cert, has_key, port);
            &&& ls[0] == Listener { loopback_only: true, tls: false, port }
            &&& !warn
            &&& port < u16::MAX ==> ls.len() == 2 && !ls[1].loopback_only && ls[1].tls
                && !unplaced
            &&& port == u16::MAX ==> ls.len() == 1 && unplaced
        },
        !(has_cert && has_key) ==> {
            let (ls, warn, unplaced) = plan_spec(has_cert, has_key, port);
            &&& ls.len() == 1
            &&& !ls[0].tls && !ls[0].loopback_only && ls[0].port == port
            &&& warn == (has_cert != has_key)
            &&& !unplaced
        },
{
}

} // verus!
