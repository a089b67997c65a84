use std::time::Duration;

use junie_tui::id::{Id, Part, PartRef};
use junie_tui::runtime::feedback::{FeedbackClock, FeedbackClockError, FeedbackState, SimulationMoment};
use junie_tui::runtime::session::wait_bound;
use junie_tui::runtime::time::Moment;

#[test]
fn wait_bound_caps_at_the_lifecycle_quantum() {
    let now = Moment::from_millis(100);
    assert_eq!(wait_bound(None, now), Duration::from_millis(100));
    assert_eq!(wait_bound(Some(Moment::from_millis(10_100)), now), Duration::from_millis(100));
    assert_eq!(wait_bound(Some(Moment::from_millis(150)), now), Duration::from_millis(50));
    assert_eq!(wait_bound(Some(Moment::from_millis(100)), now), Duration::ZERO);
    assert_eq!(wait_bound(Some(Moment::from_millis(99)), now), Duration::ZERO);
}

#[test]
fn moments_saturate_and_keep_sub_millisecond_precision() {
    let m = Moment::from_duration(Duration::new(3, 250));
    assert_eq!(m.as_duration(), Duration::new(3, 250));
    let later = m.saturating_add(Duration::from_millis(1500));
    assert_eq!(later.as_duration(), Duration::new(4, 500_000_250));
    assert_eq!(later.saturating_duration_since(m), Duration::from_millis(1500));
    assert_eq!(m.saturating_duration_since(later), Duration::ZERO);
    let max = Moment::from_duration(Duration::MAX);
    assert_eq!(max.saturating_add(Duration::from_secs(1)).as_duration(), Duration::MAX);
    assert_eq!(Moment::zero().as_duration(), Duration::ZERO);
}

#[test]
fn elapsed_feedback_expires_at_its_deadline() {
    let owner = Id::root("button");
    let part = PartRef::of(Part::container());
    let mut f = FeedbackState::new(FeedbackClock::Elapsed);
    f.activate(owner, part, Moment::from_millis(1_000), Duration::from_millis(120));
    assert_eq!(f.pressed(), Some((owner, part)));
    assert_eq!(f.elapsed_deadline(), Some(Moment::from_millis(1_120)));
    let live = f.active(Moment::from_millis(1_050)).expect("live");
    assert_eq!(live.remaining, Duration::from_millis(70));
    assert!(!f.expire_elapsed(Moment::from_millis(1_119)));
    assert!(f.expire_elapsed(Moment::from_millis(1_120)));
    assert_eq!(f.pressed(), None);
    assert_eq!(f.sync(SimulationMoment::from_millis(5)), Err(FeedbackClockError::WrongPolicy));
}

#[test]
fn simulation_feedback_ages_only_when_synchronized() {
    let owner = Id::root("cell");
    let part = PartRef::of(Part::label());
    let mut f = FeedbackState::new(FeedbackClock::Simulation { initial: SimulationMoment::from_millis(500) });
    f.activate(owner, part, Moment::from_millis(0), Duration::from_millis(100));
    assert_eq!(f.elapsed_deadline(), None);
    assert!(!f.expire_elapsed(Moment::from_millis(10_000)));
    assert_eq!(f.sync(SimulationMoment::from_millis(500)), Ok(false));
    assert_eq!(
        f.sync(SimulationMoment::from_millis(400)),
        Err(FeedbackClockError::Backwards {
            current: SimulationMoment::from_millis(500),
            requested: SimulationMoment::from_millis(400),
        })
    );
    assert_eq!(f.sync(SimulationMoment::from_millis(550)), Ok(false));
    assert_eq!(f.active(Moment::zero()).map(|a| a.remaining), Some(Duration::from_millis(50)));
    assert_eq!(f.sync(SimulationMoment::from_millis(600)), Ok(true));
    assert_eq!(f.pressed(), None);
    let mut z = FeedbackState::new(FeedbackClock::Simulation { initial: SimulationMoment::zero() });
    z.activate(owner, part, Moment::zero(), Duration::ZERO);
    assert_eq!(z.pressed(), None);
    assert_eq!(FeedbackClockError::WrongPolicy.message(), "feedback uses elapsed time, not simulation time");
}

#[test]
fn ids_are_fnv1a_of_the_name() {
    assert_eq!(Id::root("a").0, 0xaf63_dc4c_8601_ec8c);
    assert_eq!(Id::root(""), Id(0xcbf2_9ce4_8422_2325));
    assert_ne!(Id::root("owner").index(0), Id::root("owner").index(1));
    assert_eq!(junie_tui::id::fnv1a(0xcbf2_9ce4_8422_2325, b"a"), 0xaf63_dc4c_8601_ec8c);
}
