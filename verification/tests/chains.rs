use surfman_chains::chain::Creation;
use surfman_chains::chains::SwapChains;
use surfman_chains::provider::SurfmanProvider;
use surfman_chains::surface::{Error, Size2D, Surface, SurfaceAccess};

type Chains = SwapChains<u64, &'static str>;
type Outcome = Result<(), Error<&'static str>>;

fn shown(chains: &Chains, context_id: u64) -> Vec<(u64, &'static str)> {
    let mut entries = chains.iter(context_id);
    entries.sort();
    entries
}

// Takes out all the swap chains of a producer context.
fn destroy_all(chains: &mut Chains, context_id: u64) -> Vec<&'static str> {
    let mut doomed = chains.destroy_all(context_id);
    let mut found = vec![];
    while let Some(chain) = chains.next_doomed(&mut doomed) {
        found.push(chain);
    }
    assert!(doomed.is_empty());
    found.sort();
    found
}

// Three swap chains, two of the producer context 1 and one of the producer context 2.
fn some_chains() -> Chains {
    let mut chains: Chains = SwapChains::new();
    let outcome: Outcome = chains.create_attached_swap_chain(10, 1, "ten");
    assert!(outcome.is_ok());
    let outcome: Outcome = chains.create_detached_swap_chain(11, 1, Ok("eleven"));
    assert!(outcome.is_ok());
    let outcome: Outcome = chains.create_attached_swap_chain(20, 2, "twenty");
    assert!(outcome.is_ok());
    chains
}

#[test]
fn new_collection_is_empty() {
    let mut chains: Chains = SwapChains::new();
    assert_eq!(chains.get(&10), None);
    assert_eq!(shown(&chains, 1), vec![]);
    assert_eq!(destroy_all(&mut chains, 1), Vec::<&'static str>::new());
    assert_eq!(chains.destroy(&10), None);
}

#[test]
fn default_collection_is_empty() {
    let chains: Chains = Default::default();
    assert_eq!(chains.get(&10), None);
    assert_eq!(shown(&chains, 1), vec![]);
}

#[test]
fn created_chains_can_be_found() {
    let chains = some_chains();
    assert_eq!(chains.get(&10), Some("ten"));
    assert_eq!(chains.get(&11), Some("eleven"));
    assert_eq!(chains.get(&20), Some("twenty"));
    assert_eq!(chains.get(&21), None);
}

#[test]
fn each_context_is_shown_its_own_chains() {
    let chains = some_chains();
    assert_eq!(shown(&chains, 1), vec![(10, "ten"), (11, "eleven")]);
    assert_eq!(shown(&chains, 2), vec![(20, "twenty")]);
    assert_eq!(shown(&chains, 3), vec![]);
}

#[test]
fn occupied_ids_are_rejected() {
    let mut chains = some_chains();
    let vacant: Outcome = chains.check_vacant(&10);
    assert!(matches!(vacant, Err(Error::Failed)));
    let vacant: Outcome = chains.check_vacant(&12);
    assert!(vacant.is_ok());
    let outcome: Outcome = chains.create_attached_swap_chain(10, 2, "other");
    assert!(matches!(outcome, Err(Error::Failed)));
    let outcome: Outcome = chains.create_detached_swap_chain(10, 2, Ok("other"));
    assert!(matches!(outcome, Err(Error::Failed)));
    let outcome: Outcome = chains.create_detached_swap_chain(10, 2, Err(Error::Refused("late")));
    assert!(matches!(outcome, Err(Error::Failed)));
    assert_eq!(chains.get(&10), Some("ten"));
    assert_eq!(shown(&chains, 2), vec![(20, "twenty")]);
}

#[test]
fn failed_creations_leave_no_trace() {
    let mut chains = some_chains();
    let outcome: Outcome =
        chains.create_detached_swap_chain(12, 1, Err(Error::Refused("no memory")));
    assert!(matches!(outcome, Err(Error::Refused("no memory"))));
    assert_eq!(chains.get(&12), None);
    assert_eq!(shown(&chains, 1), vec![(10, "ten"), (11, "eleven")]);
    let vacant: Outcome = chains.check_vacant(&12);
    assert!(vacant.is_ok());
}

#[test]
fn destroyed_chains_cannot_be_found() {
    let mut chains = some_chains();
    assert_eq!(chains.destroy(&10), Some("ten"));
    let outcome: Outcome = chains.finish_destroy(&10, 1, Some(Ok(())));
    assert!(outcome.is_ok());
    assert_eq!(chains.get(&10), None);
    assert_eq!(shown(&chains, 1), vec![(11, "eleven")]);
    assert_eq!(chains.destroy(&10), None);
    let outcome: Outcome = chains.finish_destroy(&10, 3, None);
    assert!(outcome.is_ok());
    let outcome: Outcome = chains.create_attached_swap_chain(10, 2, "again");
    assert!(outcome.is_ok());
    assert_eq!(shown(&chains, 1), vec![(11, "eleven")]);
    assert_eq!(shown(&chains, 2), vec![(10, "again"), (20, "twenty")]);
}

#[test]
fn failed_destructions_leave_no_id_behind() {
    let mut chains = some_chains();
    assert_eq!(chains.destroy(&10), Some("ten"));
    let outcome: Outcome = chains.finish_destroy(&10, 2, Some(Err(Error::IncompatibleContext)));
    assert!(matches!(outcome, Err(Error::IncompatibleContext)));
    assert_eq!(chains.get(&10), None);
    assert_eq!(shown(&chains, 1), vec![(11, "eleven")]);
    // Another context may use the id, and the first one does not see it.
    let outcome: Outcome = chains.create_attached_swap_chain(10, 2, "again");
    assert!(outcome.is_ok());
    assert_eq!(shown(&chains, 1), vec![(11, "eleven")]);
    assert_eq!(shown(&chains, 2), vec![(10, "again"), (20, "twenty")]);
    assert_eq!(destroy_all(&mut chains, 1), vec!["eleven"]);
    assert_eq!(chains.get(&10), Some("again"));
}

#[test]
fn ids_are_taken_off_every_list() {
    let mut chains: SwapChains<u64, u64> = SwapChains::new();
    for context_id in 0..50 {
        let outcome: Outcome = chains.create_attached_swap_chain(context_id, context_id, 1);
        assert!(outcome.is_ok());
    }
    assert_eq!(chains.destroy(&33), Some(1));
    let outcome: Outcome = chains.finish_destroy(&33, 5, Some(Err(Error::Refused("stuck"))));
    assert!(matches!(outcome, Err(Error::Refused("stuck"))));
    assert_eq!(chains.destroy_all(33), vec![]);
    for context_id in (0..50).filter(|context_id| *context_id != 33) {
        assert_eq!(chains.destroy_all(context_id), vec![context_id]);
    }
}

#[test]
fn detached_creation_starts_where_the_id_is_free() {
    let chains = some_chains();
    let size = Size2D { width: 4, height: 3 };
    let pool: SurfmanProvider<u32, &'static str> = SurfmanProvider::new(SurfaceAccess::GPUCPU);
    match chains.start_detached(&12, 1, pool, size) {
        Ok(Creation::NeedsSurface { access, size: asked, pending }) => {
            assert_eq!(access, SurfaceAccess::GPUCPU);
            assert_eq!(asked, size);
            let chain = pending.finish(Ok(Surface { handle: 1, size })).unwrap();
            assert!(!chain.is_attached());
            assert!(chain.validate_context::<&'static str>(1).is_ok());
        }
        _ => panic!("a new provider has no surface"),
    }
    let pool: SurfmanProvider<u32, &'static str> = SurfmanProvider::new(SurfaceAccess::GPUCPU);
    assert!(matches!(chains.start_detached(&10, 1, pool, size), Err(Error::Failed)));
}

#[test]
fn all_chains_of_a_context_are_destroyed() {
    let mut chains = some_chains();
    assert_eq!(destroy_all(&mut chains, 1), vec!["eleven", "ten"]);
    assert_eq!(chains.get(&10), None);
    assert_eq!(chains.get(&11), None);
    assert_eq!(shown(&chains, 1), vec![]);
    assert_eq!(chains.get(&20), Some("twenty"));
    assert_eq!(shown(&chains, 2), vec![(20, "twenty")]);
    assert_eq!(destroy_all(&mut chains, 1), Vec::<&'static str>::new());
}

// The swap chains that `destroy_all` hands out, if the destruction of the one with the number in
// `fails` goes wrong, and its result.
fn destroy_until(
    chains: &mut Chains,
    context_id: u64,
    fails: usize,
) -> (Vec<&'static str>, Outcome) {
    let mut doomed = chains.destroy_all(context_id);
    let mut found = vec![];
    let mut destroyed: Outcome = Ok(());
    loop {
        match chains.next_doomed_after(&mut doomed, destroyed) {
            Ok(Some(chain)) => {
                destroyed =
                    if found.len() == fails { Err(Error::Refused("stuck")) } else { Ok(()) };
                found.push(chain);
            }
            Ok(None) => return (found, Ok(())),
            Err(error) => {
                assert!(doomed.is_empty());
                return (found, Err(error));
            }
        }
    }
}

#[test]
fn destructions_that_succeed_reach_the_end() {
    let mut chains = some_chains();
    let (mut found, outcome) = destroy_until(&mut chains, 1, 2);
    found.sort();
    assert_eq!(found, vec!["eleven", "ten"]);
    assert!(outcome.is_ok());
    assert_eq!(chains.get(&10), None);
    assert_eq!(chains.get(&11), None);
}

#[test]
fn the_first_failed_destruction_is_the_last() {
    let mut chains = some_chains();
    let (found, outcome) = destroy_until(&mut chains, 1, 0);
    assert_eq!(found.len(), 1);
    assert!(matches!(outcome, Err(Error::Refused("stuck"))));
    // The one that was handed out is gone, the other one is still there.
    let (gone, kept) = if found[0] == "ten" { (10, 11) } else { (11, 10) };
    assert_eq!(chains.get(&gone), None);
    assert!(chains.get(&kept).is_some());
    assert_eq!(shown(&chains, 1), vec![]);
    assert_eq!(shown(&chains, 2), vec![(20, "twenty")]);
}

#[test]
fn doomed_ids_without_a_chain_are_skipped() {
    let mut chains = some_chains();
    let mut doomed = vec![10, 98, 11, 99];
    assert_eq!(chains.next_doomed(&mut doomed), Some("eleven"));
    assert_eq!(doomed, vec![10, 98]);
    assert_eq!(chains.next_doomed(&mut doomed), Some("ten"));
    assert_eq!(doomed, vec![]);
    assert_eq!(chains.next_doomed(&mut doomed), None);
    let mut doomed = vec![97, 98, 99];
    assert_eq!(chains.next_doomed(&mut doomed), None);
    assert_eq!(doomed, vec![]);
}

#[test]
fn ids_can_be_strings() {
    let mut chains: SwapChains<String, u32> = SwapChains::new();
    let outcome: Outcome = chains.create_attached_swap_chain("canvas".to_string(), 1, 1);
    assert!(outcome.is_ok());
    assert_eq!(chains.get(&"canvas".to_string()), Some(1));
    assert_eq!(chains.iter(1), vec![("canvas".to_string(), 1)]);
}

#[test]
fn many_chains_are_kept_apart() {
    let mut chains: SwapChains<u64, u64> = SwapChains::new();
    for id in 0..1000 {
        let outcome: Outcome = chains.create_attached_swap_chain(id, id % 7, id * id);
        assert!(outcome.is_ok());
    }
    for id in 0..1000 {
        assert_eq!(chains.get(&id), Some(id * id));
    }
    let mut entries = chains.iter(3);
    entries.sort();
    let expected: Vec<(u64, u64)> =
        (0..1000).filter(|id| id % 7 == 3).map(|id| (id, id * id)).collect();
    assert_eq!(entries, expected);
    let mut doomed = chains.destroy_all(3);
    doomed.sort();
    assert_eq!(doomed, expected.iter().map(|entry| entry.0).collect::<Vec<u64>>());
}
