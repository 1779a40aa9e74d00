use scmstore::assoc::{AssocMap, KeySet};
use scmstore::rendezvous::{project, Dispatch, RendezVous, RendezVousController};

struct Fixed {
    batch: bool,
    threshold: usize,
}

impl RendezVousController for Fixed {
    fn should_batch(&self) -> bool {
        self.batch
    }

    fn early_dispatch_threshold(&self) -> usize {
        self.threshold
    }
}

fn set_of(keys: &[u64]) -> KeySet<u64> {
    let mut s = KeySet::new();
    for k in keys {
        s.insert(*k);
    }
    s
}

fn listed(keys: &KeySet<u64>) -> Vec<u64> {
    (0..keys.len()).map(|i| *keys.key_at(i)).collect()
}

#[test]
fn rendezvous_dedup() {
    let mut rdv: RendezVous<u64, Fixed> = RendezVous::new(Fixed { batch: true, threshold: 10 });
    let first = set_of(&[1, 2]);
    let second = set_of(&[2, 3]);
    assert!(matches!(rdv.dispatch(&first), Dispatch::Scheduled));
    assert!(rdv.has_staging());
    match rdv.dispatch(&second) {
        Dispatch::Joined { notify_early } => assert!(!notify_early),
        _ => panic!("the second request joins the open slot"),
    }
    assert_eq!(rdv.stats().keys_deduplicated, 1);
    // One backend call, for the merged keys.
    let batch = rdv.take_batch(false);
    assert_eq!(listed(&batch), vec![1, 2, 3]);
    assert!(!rdv.has_staging());
    let stats = rdv.stats();
    assert_eq!(stats.dispatch_batch_scheduled, 1);
    assert_eq!(stats.dispatch_batch_early, 0);
    assert_eq!(stats.dispatch_no_batch, 0);
    assert_eq!(stats.keys_dispatched, 3);
    assert_eq!(stats.inflight, 1);
    // The backend knows the keys 1 and 3 only.
    let mut result: AssocMap<u64, Vec<u8>> = AssocMap::new();
    result.insert(1, b"one".to_vec());
    result.insert(3, b"three".to_vec());
    rdv.complete(12);
    assert_eq!(rdv.stats().inflight, 0);
    assert_eq!(rdv.stats().fetch_completion_time_ms, 12);
    // Each caller receives its own keys, and `None` for what is missing.
    let one = project(&first, &result);
    assert_eq!(one.len(), 2);
    assert_eq!(one[0], (1, Some(&b"one".to_vec())));
    assert_eq!(one[1], (2, None));
    let two = project(&second, &result);
    assert_eq!(two.len(), 2);
    assert_eq!(two[0], (2, None));
    assert_eq!(two[1], (3, Some(&b"three".to_vec())));
}

#[test]
fn rendezvous_dispatches_directly_when_batching_is_off() {
    let mut rdv: RendezVous<u64, Fixed> = RendezVous::new(Fixed { batch: false, threshold: 10 });
    match rdv.dispatch(&set_of(&[4, 5])) {
        Dispatch::Direct(keys) => assert_eq!(listed(&keys), vec![4, 5]),
        _ => panic!("not batched"),
    }
    assert!(!rdv.has_staging());
    let stats = rdv.stats();
    assert_eq!(stats.dispatch_no_batch, 1);
    assert_eq!(stats.keys_dispatched, 2);
    assert_eq!(stats.inflight, 1);
}

#[test]
fn rendezvous_dispatches_directly_at_the_threshold() {
    let mut rdv: RendezVous<u64, Fixed> = RendezVous::new(Fixed { batch: true, threshold: 2 });
    assert!(matches!(rdv.dispatch(&set_of(&[4, 5])), Dispatch::Direct(_)));
    assert!(matches!(rdv.dispatch(&set_of(&[4, 5, 6])), Dispatch::Direct(_)));
    assert!(matches!(rdv.dispatch(&set_of(&[4])), Dispatch::Scheduled));
    assert_eq!(rdv.stats().dispatch_no_batch, 2);
}

#[test]
fn rendezvous_signals_early_dispatch_when_the_batch_is_full() {
    let mut rdv: RendezVous<u64, Fixed> = RendezVous::new(Fixed { batch: true, threshold: 3 });
    assert!(matches!(rdv.dispatch(&set_of(&[1, 2])), Dispatch::Scheduled));
    // A repeated key does not fill the batch.
    assert!(matches!(
        rdv.dispatch(&set_of(&[2])),
        Dispatch::Joined { notify_early: false }
    ));
    assert!(matches!(
        rdv.dispatch(&set_of(&[3])),
        Dispatch::Joined { notify_early: true }
    ));
    let batch = rdv.take_batch(true);
    assert_eq!(listed(&batch), vec![1, 2, 3]);
    let stats = rdv.stats();
    assert_eq!(stats.dispatch_batch_early, 1);
    assert_eq!(stats.dispatch_batch_scheduled, 0);
    assert_eq!(stats.keys_deduplicated, 1);
}

#[test]
fn rendezvous_opens_a_fresh_slot_after_a_batch_was_taken() {
    let mut rdv: RendezVous<u64, Fixed> = RendezVous::new(Fixed { batch: true, threshold: 10 });
    assert!(matches!(rdv.dispatch(&set_of(&[1])), Dispatch::Scheduled));
    assert!(matches!(rdv.dispatch(&set_of(&[2])), Dispatch::Joined { .. }));
    assert_eq!(listed(&rdv.take_batch(false)), vec![1, 2]);
    // Requests that arrive now are not part of the batch that was taken.
    assert!(matches!(rdv.dispatch(&set_of(&[3])), Dispatch::Scheduled));
    assert_eq!(listed(&rdv.take_batch(false)), vec![3]);
    assert_eq!(rdv.stats().dispatch_batch_scheduled, 2);
    assert_eq!(rdv.stats().keys_dispatched, 3);
}

#[test]
fn rendezvous_decide_takes_what_the_controller_said() {
    let mut rdv: RendezVous<u64, Fixed> = RendezVous::new(Fixed { batch: false, threshold: 0 });
    assert!(matches!(rdv.decide(&set_of(&[1]), true, 5), Dispatch::Scheduled));
    assert!(matches!(rdv.decide(&set_of(&[1]), false, 5), Dispatch::Direct(_)));
    assert!(matches!(
        rdv.decide(&set_of(&[1, 2, 3, 4]), true, 5),
        Dispatch::Joined { notify_early: false }
    ));
    assert_eq!(rdv.stats().keys_deduplicated, 1);
}
