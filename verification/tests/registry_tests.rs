use periph_guard::registry::Registry;

const RCC: usize = 0;
const GPIOA: usize = 1;
const GPIOE: usize = 2;
const TIM2: usize = 3;
const NVIC: usize = 4;

#[test]
fn new_registry_all_free() {
    let reg = Registry::new(5);
    assert_eq!(reg.len(), 5);
    for id in 0..5 {
        assert!(!reg.is_taken(id));
    }
}

#[test]
fn acquire_marks_taken_and_reports_id() {
    let mut reg = Registry::new(5);
    let h = reg.acquire(TIM2).expect("free peripheral must be acquirable");
    assert_eq!(h.peripheral(), TIM2);
    assert!(reg.is_taken(TIM2));
    assert!(!reg.is_taken(GPIOE));
}

#[test]
fn acquire_conflict_returns_none() {
    let mut reg = Registry::new(5);
    let _h = reg.acquire(RCC).unwrap();
    // Second checkout of the same peripheral: a normal empty result, not
    // a panic; the caller escalates if the peripheral was required.
    assert!(reg.acquire(RCC).is_none());
    // Other peripherals are unaffected.
    assert!(reg.acquire(GPIOA).is_some());
}

#[test]
fn release_enables_reacquire() {
    let mut reg = Registry::new(5);
    for id in 0..5 {
        let h = reg.acquire(id).unwrap();
        reg.release(h);
        let h2 = reg.acquire(id).expect("acquire after release must succeed");
        reg.release(h2);
    }
}

#[test]
fn mutual_exclusion_interleaved_contexts() {
    // Two simulated contexts (foreground and one interrupt) interleave
    // acquire/release on one peripheral. At every instant the number of
    // live handles is 0 or 1, and no two acquires succeed without an
    // intervening release.
    let mut reg = Registry::new(5);
    let mut foreground = None;
    let mut interrupt = None;

    // Interleaving: F acquires, I tries (fails), F releases, I acquires,
    // F tries (fails), I releases, F acquires again.
    foreground = reg.acquire(TIM2);
    assert!(foreground.is_some());
    interrupt = reg.acquire(TIM2);
    assert!(interrupt.is_none());
    assert!(live_count(&foreground, &interrupt) <= 1);

    reg.release(foreground.take().unwrap());
    interrupt = reg.acquire(TIM2);
    assert!(interrupt.is_some());
    assert!(live_count(&foreground, &interrupt) <= 1);

    foreground = reg.acquire(TIM2);
    assert!(foreground.is_none());
    assert!(live_count(&foreground, &interrupt) <= 1);

    reg.release(interrupt.take().unwrap());
    foreground = reg.acquire(TIM2);
    assert!(foreground.is_some());
    assert!(live_count(&foreground, &interrupt) <= 1);
}

fn live_count(
    a: &Option<periph_guard::registry::PeripheralHandle>,
    b: &Option<periph_guard::registry::PeripheralHandle>,
) -> usize {
    a.is_some() as usize + b.is_some() as usize
}

#[test]
fn unchecked_access_bypasses_ownership() {
    let mut reg = Registry::new(5);
    let _h = reg.acquire(GPIOE).unwrap();
    // The bypass works whether or not the peripheral is taken, and
    // changes no ownership state.
    let view = reg.unchecked_access(GPIOE);
    assert_eq!(view.peripheral(), GPIOE);
    assert!(reg.is_taken(GPIOE));
    let view2 = reg.unchecked_access(NVIC);
    assert_eq!(view2.peripheral(), NVIC);
    assert!(!reg.is_taken(NVIC));
}
