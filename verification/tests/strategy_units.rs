use std::collections::VecDeque;
use std::sync::Mutex;

use kasino::components::{PopSig, PushPopCollection, ValueSig};
use kasino::construction::{total, DEFAULT_QUEUE_CAP};
use kasino::storage::{OwnedStorage, StorageBackend};
use kasino::strategy::choice::{first_min_position, last_max_position, pick_first_least, pick_last_greatest};
use kasino::strategy::collect::{
    collect_pass, double_collect, no_epoch_advanced, read_epochs, DoubleCollectState, StakeView,
};
use kasino::strategy::padded::type_eval::{Eval, False, Or, True, Truthiness, TypeOr};
use kasino::strategy::padded::{NoPad, NoPadding, PaddingRequest, RequiresPadding, TypeView};
use kasino::strategy::policy::{
    InvalidationPolicy, OfferAndPollInvalidate, OfferInvalidate, PollInvalidate,
};
use kasino::strategy::random::{splitmix_output, PerThreadRng, SplitMix64, SPLITMIX_GAMMA};
use kasino::strategy::round_robin::RoundRobinGambler;
use kasino::strategy::{
    poll_pass, DoubleCollect, EDCount, Hook, Hooked, InstrumentedState, NoCollect, RandomAccess, RoundRobin,
    Strategy, DCBO, DRA,
};
use kasino::topology::{CoreID, CorePinned, CorePinnedGambler, RuntimeData};
use kasino::{BoxedBandit, Collection, InlineBandit, InlineStorage, WithCapacity};

struct Fifo<T> {
    raw: Mutex<VecDeque<T>>,
    cap: usize,
}

impl<T> Collection for Fifo<T> {
    type OfferSignature = ValueSig<T>;
    type PollSignature = PopSig<T>;

    fn offer(&self, item: T) -> Result<(), T> {
        let mut lock = self.raw.lock().unwrap();
        if lock.len() >= self.cap {
            return Err(item);
        }
        lock.push_back(item);
        Ok(())
    }

    fn poll(&self, _input: ()) -> Result<T, ()> {
        self.raw.lock().unwrap().pop_front().ok_or(())
    }

    fn len(&self) -> usize {
        self.raw.lock().unwrap().len()
    }

    fn capacity(&self) -> usize {
        self.cap
    }
}

impl<T, const N: usize> WithCapacity<N> for Fifo<T> {
    fn with_capacity() -> Self {
        Fifo { raw: Mutex::new(VecDeque::new()), cap: N }
    }
}

struct Stack<T> {
    raw: Mutex<Vec<T>>,
}

impl<T> PushPopCollection for Stack<T> {
    type Item = T;

    fn push(&self, item: T) -> Result<(), T> {
        self.raw.lock().unwrap().push(item);
        Ok(())
    }

    fn pop(&self) -> Option<T> {
        self.raw.lock().unwrap().pop()
    }

    fn len(&self) -> usize {
        self.raw.lock().unwrap().len()
    }
}

impl<T, const N: usize> WithCapacity<N> for Stack<T> {
    fn with_capacity() -> Self {
        Stack { raw: Mutex::new(Vec::new()) }
    }
}

struct NoCores;

impl RuntimeData for NoCores {
    type Error = ();

    fn get_affinity() -> Result<CoreID, ()> {
        Err(())
    }

    fn set_affinity(_id: CoreID) -> Result<(), ()> {
        Err(())
    }

    fn available_cores() -> Vec<CoreID> {
        Vec::new()
    }

    fn available_parallelism() -> Result<usize, ()> {
        Ok(1)
    }
}

#[test]
fn first_min_picks_first_least_key() {
    assert_eq!(first_min_position(&vec![5, 3, 7, 3, 9]), 1);
    assert_eq!(first_min_position(&vec![4]), 0);
    assert_eq!(first_min_position(&vec![2, 2, 2]), 0);
    assert_eq!(first_min_position(&vec![9, 8, 7, 6]), 3);
}

#[test]
fn last_max_picks_last_greatest_key() {
    assert_eq!(last_max_position(&vec![5, 9, 7, 9, 1]), 3);
    assert_eq!(last_max_position(&vec![4]), 0);
    assert_eq!(last_max_position(&vec![2, 2, 2]), 2);
    assert_eq!(last_max_position(&vec![9, 8, 7, 6]), 0);
}

#[test]
fn splitmix_output_known_values() {
    assert_eq!(splitmix_output(0), 0);
    assert_eq!(splitmix_output(1), 0x5692161d100b05e5);
    assert_eq!(splitmix_output(SPLITMIX_GAMMA), 0xe220a8397b1dcdaf);
    assert_eq!(splitmix_output(42), 0xa759ea27d4727622);
}

#[test]
fn splitmix_sequence_scrambles_the_state_it_advanced_from() {
    let seq = SplitMix64::from_seed(42);
    assert_eq!(seq.next_u64(), 0xa759ea27d4727622);
    assert_eq!(seq.next_u64(), 0xbdd732262feb6e95);
    let seq = SplitMix64::default();
    assert_eq!(seq.next_u64(), 0xe220a8397b1dcdaf);
    assert_eq!(seq.next_u64(), 0x6e789e6aa1b965f4);
}

#[test]
fn random_below_stays_below_bound() {
    let mut rng = PerThreadRng::default();
    for _ in 0..100 {
        assert_eq!(rng.random_below(1), 0);
        assert!(rng.random_below(7) < 7);
    }
    let mut child = rng.fork_thread();
    for _ in 0..100 {
        assert!(child.random_below(3) < 3);
    }
}

#[test]
fn round_robin_cycles_through_arms() {
    let mut gambler = RoundRobinGambler::default();
    let picks: Vec<usize> = (0..7).map(|_| gambler.next_arm(3)).collect();
    assert_eq!(picks, vec![0, 1, 2, 0, 1, 2, 0]);
}

#[test]
fn round_robin_strategy_alternates_arms() {
    let stakes: InlineStorage<NoPad<InstrumentedState<()>>, 2> =
        InlineStorage::from_fn(|_| Default::default());
    let strategy = RoundRobin;
    let mut gambler = <RoundRobin as Strategy<Fifo<u8>>>::create_gambler(&strategy);
    let offers: Vec<usize> = (0..4)
        .map(|_| <RoundRobin as Strategy<Fifo<u8>>>::choose_offer_arm(&strategy, &stakes, &mut gambler))
        .collect();
    assert_eq!(offers, vec![0, 1, 0, 1]);
    let poll = <RoundRobin as Strategy<Fifo<u8>>>::choose_poll_arm(&strategy, &stakes, &mut gambler);
    assert_eq!(poll, 0);
}

#[test]
fn sampling_strategies_pick_existing_arms() {
    let padded: InlineStorage<crossbeam_utils::CachePadded<EDCount>, 3> =
        InlineStorage::from_fn(|_| Default::default());
    let dcbo = DCBO::<2>;
    let mut g = <DCBO<2> as Strategy<Fifo<u8>>>::create_gambler(&dcbo);
    let dra = DRA::<3>::default();
    let mut h = <DRA<3> as Strategy<Fifo<u8>>>::create_gambler(&dra);
    for _ in 0..50 {
        assert!(<DCBO<2> as Strategy<Fifo<u8>>>::choose_offer_arm(&dcbo, &padded, &mut g) < 3);
        assert!(<DCBO<2> as Strategy<Fifo<u8>>>::choose_poll_arm(&dcbo, &padded, &mut g) < 3);
        assert!(<DRA<3> as Strategy<Fifo<u8>>>::choose_offer_arm(&dra, &padded, &mut h) < 3);
        assert!(<DRA<3> as Strategy<Fifo<u8>>>::choose_poll_arm(&dra, &padded, &mut h) < 3);
    }
    let plain: InlineStorage<NoPad<InstrumentedState<()>>, 5> =
        InlineStorage::from_fn(|_| Default::default());
    let random = RandomAccess;
    let mut r = <RandomAccess as Strategy<Fifo<u8>>>::create_gambler(&random);
    for _ in 0..50 {
        assert!(<RandomAccess as Strategy<Fifo<u8>>>::choose_offer_arm(&random, &plain, &mut r) < 5);
    }
}

#[test]
fn dcbo_with_one_choice_and_one_arm_picks_it() {
    let padded: InlineStorage<crossbeam_utils::CachePadded<EDCount>, 1> =
        InlineStorage::from_fn(|_| Default::default());
    let dcbo = DCBO::<1>;
    let mut g = <DCBO<1> as Strategy<Fifo<u8>>>::create_gambler(&dcbo);
    assert_eq!(<DCBO<1> as Strategy<Fifo<u8>>>::choose_offer_arm(&dcbo, &padded, &mut g), 0);
}

#[test]
fn dcbo_prefers_the_less_loaded_arm() {
    // With two arms and ten samples, the arm with fewer offers is almost surely sampled.
    let padded: InlineStorage<crossbeam_utils::CachePadded<EDCount>, 2> =
        InlineStorage::from_fn(|_| Default::default());
    for _ in 0..5 {
        padded.get(0).on_offer_succ();
    }
    assert_eq!(padded.get(0).offer_count(), 5);
    assert_eq!(padded.get(1).offer_count(), 0);
    let dcbo = DCBO::<10>;
    let mut g = <DCBO<10> as Strategy<Fifo<u8>>>::create_gambler(&dcbo);
    assert_eq!(<DCBO<10> as Strategy<Fifo<u8>>>::choose_offer_arm(&dcbo, &padded, &mut g), 1);
}

#[test]
fn counters_count_successes_only() {
    let count = EDCount::default();
    count.on_offer_succ();
    count.on_offer_succ();
    count.on_offer_fail();
    count.on_poll_succ();
    count.on_poll_fail();
    assert_eq!(count.offer_count(), 2);
    assert_eq!(count.poll_count(), 1);
    let copy = count.clone();
    assert_eq!(copy.offer_count(), 2);

    let state: InstrumentedState<EDCount> = Default::default();
    state.on_offer_succ();
    state.on_poll_succ();
    state.on_poll_succ();
    assert_eq!(state.offer_count(), 1);
    assert_eq!(state.poll_count(), 2);
    assert_eq!(state.offer_count(), 1);
    assert_eq!(state.poll_count(), 2);
}

#[test]
fn wrappers_project_to_their_contents() {
    let padded: NoPad<InstrumentedState<()>> = Default::default();
    padded.on_offer_succ();
    assert_eq!(padded.project().offer_count(), 1);
    assert_eq!(padded.as_ref().offer_count(), 1);
    let view: TypeView<EDCount> = Default::default();
    view.on_poll_succ();
    assert_eq!(view.project().poll_count(), 1);
    assert_eq!(view.poll_count(), 1);
}

#[test]
fn epochs_decide_the_double_collect() {
    assert!(no_epoch_advanced(&vec![1, 2, 3], &vec![1, 2, 3]));
    assert!(no_epoch_advanced(&vec![], &vec![]));
    assert!(!no_epoch_advanced(&vec![1, 2, 3], &vec![1, 3, 3]));
    assert!(no_epoch_advanced(&vec![4], &vec![2]));
}

#[test]
fn policies_state_what_invalidates() {
    assert!(OfferInvalidate::invalidate_on_offer());
    assert!(!OfferInvalidate::invalidate_on_poll());
    assert!(!PollInvalidate::invalidate_on_offer());
    assert!(PollInvalidate::invalidate_on_poll());
    assert!(OfferAndPollInvalidate::invalidate_on_offer());
    assert!(OfferAndPollInvalidate::invalidate_on_poll());
}

#[test]
fn double_collect_state_projects_and_forwards() {
    let state: DoubleCollectState<EDCount, PollInvalidate> = Default::default();
    state.on_offer_succ();
    state.on_poll_succ();
    assert_eq!(state.project().offer_count(), 1);
    assert_eq!(state.project().poll_count(), 1);
}

#[test]
fn totals_wrap_around() {
    assert_eq!(total(&vec![]), 0);
    assert_eq!(total(&vec![1, 2, 3]), 6);
    assert_eq!(total(&vec![usize::MAX, 2]), 1);
    assert_eq!(total(&vec![32, 32, 32, 32]), 4 * DEFAULT_QUEUE_CAP);
}

#[test]
fn inline_storage_holds_what_it_was_built_from() {
    let storage: InlineStorage<usize, 4> = InlineStorage::from_fn(|i| i * 10 + 1);
    assert_eq!(storage.len(), 4);
    assert!(!storage.is_empty());
    assert_eq!(*storage.get(0), 1);
    assert_eq!(*storage.get(3), 31);
    assert_eq!(storage.into_vec(), vec![1, 11, 21, 31]);
    let empty: InlineStorage<u8, 0> = InlineStorage::from_fn(|_| 0);
    assert!(empty.is_empty());
}

#[test]
fn core_pinned_gambler_pulls_its_core() {
    let strategy: CorePinned<NoCores> = Default::default();
    let mut gambler = <CorePinned<NoCores> as Strategy<Fifo<u8>>>::create_gambler(&strategy);
    assert_eq!(gambler.pinned_arm(4), 0);
    gambler.pin_thread(CoreID(6));
    assert_eq!(gambler.pinned_arm(4), 2);
    let forked: CorePinnedGambler<NoCores> =
        <CorePinned<NoCores> as Strategy<Fifo<u8>>>::fork_gambler(&strategy, &gambler);
    assert_eq!(forked.pinned_arm(4), 2);
    let stakes: InlineStorage<(), 4> = InlineStorage::from_fn(|_| ());
    let mut g = forked;
    assert_eq!(<CorePinned<NoCores> as Strategy<Fifo<u8>>>::choose_offer_arm(&strategy, &stakes, &mut g), 2);
    assert_eq!(<CorePinned<NoCores> as Strategy<Fifo<u8>>>::choose_poll_arm(&strategy, &stakes, &mut g), 2);
}

#[test]
fn core_pinned_bandit_uses_one_arm_only() {
    let bandit: InlineBandit<Fifo<u32>, CorePinned<NoCores>, 3, 2> = InlineBandit::new();
    let mut handle = bandit.buy_in();
    assert!(handle.offer(1).is_ok());
    assert!(handle.offer(2).is_ok());
    // The pinned arm is full and nothing else is tried.
    assert_eq!(handle.offer(3), Err(3));
    assert_eq!(handle.poll(()), Ok(1));
    assert_eq!(handle.poll(()), Ok(2));
    assert_eq!(handle.poll(()), Err(()));
    assert_eq!(handle.len(), 0);
    assert_eq!(handle.capacity(), 6);
}

#[test]
fn default_strategies_hand_errors_back() {
    let stakes: InlineStorage<NoPad<InstrumentedState<()>>, 2> =
        InlineStorage::from_fn(|_| Default::default());
    let arms: InlineStorage<Fifo<u8>, 2> = InlineStorage::from_fn(|_| <Fifo<u8> as WithCapacity<1>>::with_capacity());
    let strategy = RoundRobin;
    assert_eq!(<RoundRobin as Strategy<Fifo<u8>>>::on_offer_fail(&strategy, &stakes, &arms, 9), Err(9));
    assert_eq!(<RoundRobin as Strategy<Fifo<u8>>>::on_poll_fail(&strategy, &stakes, &arms, ()), None);
    assert!(arms.get(1).offer(5).is_ok());
    assert_eq!(<RoundRobin as Strategy<Fifo<u8>>>::on_poll_fail(&strategy, &stakes, &arms, ()), Some((5, 1)));
    let no_collect: NoCollect<RoundRobin> = Default::default();
    assert!(arms.get(0).offer(6).is_ok());
    assert_eq!(<NoCollect<RoundRobin> as Strategy<Fifo<u8>>>::on_poll_fail(&no_collect, &stakes, &arms, ()), None);
}

#[test]
fn double_collect_finds_remaining_items() {
    let bandit: InlineBandit<Fifo<u32>, DoubleCollect<RoundRobin, OfferInvalidate>, 3, 4> =
        InlineBandit::new();
    let mut handle = bandit.buy_in();
    assert_eq!(handle.poll(()), Err(()));
    assert!(handle.offer(10).is_ok());
    // Round robin would poll arm 1 next, which is empty; the collect finds arm 0.
    assert_eq!(handle.poll(()), Ok(10));
    assert_eq!(handle.poll(()), Err(()));
    let (res, stake) = handle.offer_with_info(11);
    assert!(res.is_ok());
    let _ = stake;
    let (res, _) = handle.poll_with_info(());
    assert_eq!(res, Ok(11));
}

#[test]
fn no_collect_gives_up_on_the_pulled_arm() {
    let bandit: InlineBandit<Fifo<u32>, NoCollect<RoundRobin>, 2, 4> = InlineBandit::new();
    let mut handle = bandit.buy_in();
    assert!(handle.offer(10).is_ok());
    // Round robin polls arm 1, which is empty, and nothing else is tried.
    assert_eq!(handle.poll(()), Err(()));
    assert_eq!(handle.poll(()), Ok(10));
}

#[test]
fn handles_report_arm_count_and_state() {
    let bandit: InlineBandit<Fifo<u32>, RoundRobin, 3, 2> = InlineBandit::new();
    assert_eq!(bandit.arm_count(), 3);
    let mut handle = bandit.buy_in();
    let forked = handle.fork();
    assert_eq!(forked.arm_count(), 3);
    assert_eq!(handle.capacity(), 6);
    assert!(handle.is_empty());
    assert!(handle.offer(1).is_ok());
    assert!(handle.offer(2).is_ok());
    assert_eq!(forked.len(), 2);
    let stakes = handle.state();
    assert_eq!(stakes.len(), 3);
    assert_eq!(stakes[0].as_ref().offer_count(), 1);
    assert_eq!(stakes[1].as_ref().offer_count(), 1);
    assert_eq!(stakes[2].as_ref().offer_count(), 0);
}

#[test]
fn full_arm_failure_is_reported_with_the_item() {
    let bandit: InlineBandit<Fifo<u32>, RoundRobin, 2, 1> = InlineBandit::new();
    let mut handle = bandit.buy_in();
    assert!(handle.offer(1).is_ok());
    assert!(handle.offer(2).is_ok());
    assert_eq!(handle.offer(3), Err(3));
    let (res, stake) = handle.offer_with_info(4);
    assert_eq!(res, Err(4));
    assert_eq!(stake.as_ref().offer_count(), 1);
}

#[test]
fn push_pop_collections_get_push_and_pop() {
    let bandit: InlineBandit<Stack<u32>, RoundRobin, 2, 8> = InlineBandit::new();
    let mut handle = bandit.buy_in();
    assert!(handle.push(1).is_ok());
    assert!(handle.push(2).is_ok());
    assert_eq!(handle.capacity(), usize::MAX.wrapping_add(usize::MAX));
    assert_eq!(handle.pop(), Some(1));
    assert_eq!(handle.pop(), Some(2));
    assert_eq!(handle.pop(), None);
    let arms = bandit.into_arms();
    assert_eq!(arms.len(), 2);
}

#[test]
fn boxed_bandit_has_run_time_arm_count() {
    let bandit: BoxedBandit<Fifo<u32>, DCBO<2>, 4> = BoxedBandit::new(5);
    assert_eq!(bandit.arm_count(), 5);
    let mut handle = bandit.buy_in();
    assert_eq!(handle.capacity(), 20);
    assert!(handle.offer(3).is_ok());
    assert_eq!(handle.pop_like(), Ok(3));
}

trait PopLike {
    fn pop_like(&mut self) -> Result<u32, ()>;
}

impl<'a> PopLike for kasino::BoxedBanditHandle<'a, Fifo<u32>, DCBO<2>, 4> {
    fn pop_like(&mut self) -> Result<u32, ()> {
        self.poll(())
    }
}

#[test]
fn padding_requests_and_type_level_or() {
    assert!(RequiresPadding::requests_padding());
    assert!(!NoPadding::requests_padding());
    let _: <Or<NoPadding, RequiresPadding> as Eval>::Output = RequiresPadding;
    let _: <Or<RequiresPadding, NoPadding> as Eval>::Output = RequiresPadding;
    let _: <Or<NoPadding, NoPadding> as Eval>::Output = NoPadding;
    let _: <Or<NoPadding, RequiresPadding> as Truthiness>::IsTruthy = True;
    let _: <Or<NoPadding, NoPadding> as Truthiness>::IsTruthy = False;
    let _: <False as TypeOr<True>>::Output = True;
    assert!(<<DCBO<2> as Strategy<Fifo<u8>>>::Gambler as Hooked>::RequestedPadding::requests_padding());
    assert!(!<<RoundRobin as Strategy<Fifo<u8>>>::Gambler as Hooked>::RequestedPadding::requests_padding());
    assert!(<<DoubleCollect<RoundRobin, OfferInvalidate> as Strategy<Fifo<u8>>>::Gambler as Hooked>::RequestedPadding::requests_padding());
}

#[test]
fn dra_balances_offer_and_poll_surplus() {
    let padded: InlineStorage<crossbeam_utils::CachePadded<EDCount>, 2> =
        InlineStorage::from_fn(|_| Default::default());
    // Arm 0: 5 offers, 1 poll (offer surplus 4). Arm 1: 1 offer, 3 polls (offer surplus 0).
    // Offers go to the emptier arm 1, polls to the fuller arm 0.
    for _ in 0..5 {
        padded.get(0).on_offer_succ();
    }
    padded.get(0).on_poll_succ();
    padded.get(1).on_offer_succ();
    for _ in 0..3 {
        padded.get(1).on_poll_succ();
    }
    let dra = DRA::<12>::default();
    let mut g = <DRA<12> as Strategy<Fifo<u8>>>::create_gambler(&dra);
    assert_eq!(<DRA<12> as Strategy<Fifo<u8>>>::choose_offer_arm(&dra, &padded, &mut g), 1);
    assert_eq!(<DRA<12> as Strategy<Fifo<u8>>>::choose_poll_arm(&dra, &padded, &mut g), 0);
}

#[test]
fn double_collect_under_every_policy() {
    let bandit: InlineBandit<Fifo<u32>, DoubleCollect<DCBO<2>, PollInvalidate>, 4, 2> =
        InlineBandit::new();
    let mut handle = bandit.buy_in();
    for i in 0..8 {
        while handle.offer(i).is_err() {}
    }
    let mut seen: Vec<u32> = (0..8).map(|_| handle.poll(()).unwrap()).collect();
    seen.sort();
    assert_eq!(seen, (0..8).collect::<Vec<u32>>());
    assert_eq!(handle.poll(()), Err(()));

    let bandit: InlineBandit<Fifo<u32>, DoubleCollect<RandomAccess, OfferAndPollInvalidate>, 3, 1> =
        InlineBandit::new();
    let mut handle = bandit.buy_in();
    assert!(handle.offer(7).is_ok());
    assert_eq!(handle.poll(()), Ok(7));
    assert_eq!(handle.poll(()), Err(()));
}

#[test]
fn type_view_gives_access_to_its_contents() {
    let mut view: TypeView<EDCount> = Default::default();
    view.as_mut().on_offer_succ();
    assert_eq!(view.as_ref().offer_count(), 1);
    let mut padded: NoPad<EDCount> = Default::default();
    padded.as_mut().on_poll_succ();
    assert_eq!(padded.as_ref().poll_count(), 1);
}

fn fifo_with(items: &[u32]) -> Fifo<u32> {
    let q: Fifo<u32> = <Fifo<u32> as WithCapacity<4>>::with_capacity();
    for &x in items {
        q.offer(x).unwrap();
    }
    q
}

fn three_arms(contents: [&[u32]; 3]) -> InlineStorage<Fifo<u32>, 3> {
    InlineStorage::from_fn(|i: usize| fifo_with(contents[i]))
}

#[test]
fn picks_take_the_sampled_arm_at_the_chosen_key() {
    assert_eq!(pick_first_least(&vec![3, 5, 7], &vec![2, 1, 1]), 5);
    assert_eq!(pick_first_least(&vec![6], &vec![9]), 6);
    assert_eq!(pick_last_greatest(&vec![3, 5, 7], &vec![2, 4, 4]), 7);
    assert_eq!(pick_last_greatest(&vec![3, 5, 7], &vec![8, 4, 4]), 3);
}

#[test]
fn poll_pass_stops_at_the_first_success() {
    let arms = three_arms([&[], &[7, 8], &[9]]);
    let (found, _) = poll_pass::<Fifo<u32>, _>(&arms, ());
    assert_eq!(found, Some((7, 1)));
    assert_eq!(arms.get(1).len(), 1);
    assert_eq!(arms.get(2).len(), 1);
    let empty = three_arms([&[], &[], &[]]);
    let (found, _) = poll_pass::<Fifo<u32>, _>(&empty, ());
    assert_eq!(found, None);
}

#[test]
fn collect_pass_reads_epochs_and_stops_at_the_first_success() {
    let stakes: InlineStorage<crossbeam_utils::CachePadded<DoubleCollectState<(), OfferInvalidate>>, 3> =
        InlineStorage::default();
    let arms = three_arms([&[], &[], &[4]]);
    let (found, versions, _) = collect_pass::<Fifo<u32>, _, _, _, _>(&stakes, &arms, ());
    assert_eq!(found, Some((4, 2)));
    assert_eq!(versions.len(), 3);
    let empty = three_arms([&[], &[], &[]]);
    let (found, versions, _) = collect_pass::<Fifo<u32>, _, _, _, _>(&stakes, &empty, ());
    assert_eq!(found, None);
    assert_eq!(versions, read_epochs(&stakes));
}

#[test]
fn double_collect_settles_on_empty_arms() {
    let stakes: InlineStorage<crossbeam_utils::CachePadded<DoubleCollectState<(), OfferInvalidate>>, 3> =
        InlineStorage::default();
    let empty = three_arms([&[], &[], &[]]);
    let (found, _) = double_collect::<Fifo<u32>, _, _, _, _>(&stakes, &empty, ());
    assert_eq!(found, None);
    let arms = three_arms([&[], &[5], &[6]]);
    let (found, _) = double_collect::<Fifo<u32>, _, _, _, _>(&stakes, &arms, ());
    assert_eq!(found, Some((5, 1)));
    assert_eq!(read_epochs(&stakes), vec![0, 0, 0]);
}

#[test]
fn no_collect_wraps_its_strategy() {
    let b: InlineBandit<Fifo<u32>, NoCollect<RoundRobin>, 2, 1> = InlineBandit::new();
    let mut h = b.buy_in();
    assert_eq!(h.offer(1), Ok(()));
    assert_eq!(h.offer(2), Ok(()));
    assert_eq!(h.offer(3), Err(3));
    let _ = NoCollect::new(RoundRobin);
}

#[test]
fn refused_offer_reports_the_pulled_arm_and_leaves_the_other() {
    let bandit: InlineBandit<Fifo<u32>, RoundRobin, 2, 1> = InlineBandit::new();
    let mut first = bandit.buy_in();
    let mut second = bandit.buy_in();
    assert_eq!(first.offer(7), Ok(()));
    let (res, stake) = second.offer_with_info(8);
    assert_eq!(res, Err(8));
    assert_eq!(stake.as_ref().offer_count(), 1);
    assert_eq!(second.len(), 1);
    let arms = bandit.into_arms();
    assert_eq!(arms[0].len(), 1);
    assert_eq!(arms[1].len(), 0);
}

#[test]
fn failed_poll_falls_back_to_other_arms() {
    let bandit: InlineBandit<Fifo<u32>, RoundRobin, 2, 2> = InlineBandit::new();
    let mut handle = bandit.buy_in();
    assert_eq!(handle.offer(7), Ok(()));
    let (res, stake) = handle.poll_with_info(());
    assert_eq!(res, Ok(7));
    assert_eq!(stake.as_ref().poll_count(), 1);
    assert!(handle.is_empty());
    assert_eq!(handle.poll(()), Err(()));
}

#[test]
fn pushes_and_pops_through_a_handle() {
    let bandit: InlineBandit<Stack<u32>, RoundRobin, 2, 1> = InlineBandit::new();
    let mut handle = bandit.buy_in();
    assert_eq!(handle.push(1), Ok(()));
    assert_eq!(handle.push(2), Ok(()));
    assert_eq!(handle.capacity(), usize::MAX.wrapping_mul(2));
    assert_eq!(handle.pop(), Some(1));
    assert_eq!(handle.pop(), Some(2));
    assert_eq!(handle.pop(), None);
}

#[test]
fn forked_round_robin_gamblers_start_at_the_parents_seed_values() {
    let strategy = RoundRobin;
    let parent = <RoundRobin as Strategy<Fifo<u8>>>::create_gambler(&strategy);
    let mut first = <RoundRobin as Strategy<Fifo<u8>>>::fork_gambler(&strategy, &parent);
    let mut second = <RoundRobin as Strategy<Fifo<u8>>>::fork_gambler(&strategy, &parent);
    assert_eq!(first.next_arm(1000), (0xe220a8397b1dcdafu64 as usize) % 1000);
    assert_eq!(second.next_arm(1000), (0x6e789e6aa1b965f4u64 as usize) % 1000);
    let mut grandchild = <RoundRobin as Strategy<Fifo<u8>>>::fork_gambler(&strategy, &first);
    assert_eq!(grandchild.next_arm(usize::MAX), (splitmix_output(0xe220a8397b1dcdaf) as usize) % usize::MAX);
}

#[test]
fn forked_generators_are_seeded_from_the_parents_sequence() {
    let a = PerThreadRng::default();
    let b = PerThreadRng::default();
    let mut child_a = a.fork_thread();
    let mut child_b = b.fork_thread();
    let mut other = a.fork_thread();
    let draws_a: Vec<usize> = (0..16).map(|_| child_a.random_below(1 << 20)).collect();
    let draws_b: Vec<usize> = (0..16).map(|_| child_b.random_below(1 << 20)).collect();
    let draws_other: Vec<usize> = (0..16).map(|_| other.random_below(1 << 20)).collect();
    assert_eq!(draws_a, draws_b);
    assert_ne!(draws_a, draws_other);
}
