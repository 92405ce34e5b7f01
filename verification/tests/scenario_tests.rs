//! End-to-end scenarios: a foreground context and a simulated interrupt
//! context sharing a timer and a GPIO port through the registry and the
//! register layer.

use periph_guard::device::{RegisterBlock, RegisterDesc, RegisterKind};
use periph_guard::driver::{led_cycle_step, set_pin, timer_tick};
use periph_guard::field::Field;
use periph_guard::registry::Registry;

const GPIOE: usize = 0;
const TIM2: usize = 1;

// The timer's register block, by register index.
const CR1: usize = 0;
const DIER: usize = 1;
const SR: usize = 2;
const PSC: usize = 3;
const ARR: usize = 4;

const CEN: Field = Field { offset: 0, width: 1 };
const UIE: Field = Field { offset: 0, width: 1 };
const UIF: Field = Field { offset: 0, width: 1 };

// The GPIO port: one output-data register, reachable through an atomic
// bit-set/bit-reset path, so classified atomic-effect.
const ODR: usize = 0;

fn timer_block() -> RegisterBlock {
    let rmw = |reset_value| RegisterDesc {
        reset_value,
        kind: RegisterKind::ReadModifyWrite,
    };
    RegisterBlock::new(vec![rmw(0), rmw(0), rmw(0), rmw(0), rmw(0xffff_ffff)])
}

fn gpio_block() -> RegisterBlock {
    RegisterBlock::new(vec![RegisterDesc {
        reset_value: 0,
        kind: RegisterKind::AtomicEffect,
    }])
}

#[test]
fn tim2_end_to_end() {
    let mut registry = Registry::new(2);
    let mut tim = timer_block();

    // Foreground: acquire TIM2 and configure it.
    let h = registry.acquire(TIM2).expect("TIM2 must be free at startup");
    tim.write(PSC, 1_000_000);
    tim.write(ARR, 40);
    tim.write_field(DIER, UIE, 1).unwrap();
    tim.write_field(CR1, CEN, 1).unwrap();
    registry.release(h);

    // Hardware raises the update flag.
    tim.write_field(SR, UIF, 1).unwrap();

    // Simulated interrupt context: re-acquire TIM2, clear the pending
    // update flag with a field-level modify, release again.
    let h = registry
        .acquire(TIM2)
        .expect("released peripheral must be acquirable from the interrupt context");
    tim.write_field(SR, UIF, 0).unwrap();
    registry.release(h);

    // The registry shows TIM2 free, and the flag reads as cleared.
    assert!(!registry.is_taken(TIM2));
    assert_eq!(tim.read_field(SR, UIF), 0);
    // The configuration made by the foreground is still in place.
    assert_eq!(tim.read(PSC), 1_000_000);
    assert_eq!(tim.read(ARR), 40);
    assert_eq!(tim.read_field(CR1, CEN), 1);
    assert_eq!(tim.read_field(DIER, UIE), 1);
}

#[test]
fn timer_tick_clears_flag_and_toggles_led() {
    let mut registry = Registry::new(2);
    let mut tim = timer_block();
    let mut gpio = gpio_block();
    let led7 = Field { offset: 7, width: 1 };

    tim.write_field(SR, UIF, 1).unwrap();
    assert_eq!(gpio.read_field(ODR, led7), 0);

    timer_tick(&mut registry, &mut tim, &mut gpio, TIM2, GPIOE, SR, UIF, ODR, led7);
    assert_eq!(tim.read_field(SR, UIF), 0);
    assert_eq!(gpio.read_field(ODR, led7), 1);
    assert!(!registry.is_taken(TIM2));

    // The next tick toggles the LED back.
    tim.write_field(SR, UIF, 1).unwrap();
    timer_tick(&mut registry, &mut tim, &mut gpio, TIM2, GPIOE, SR, UIF, ODR, led7);
    assert_eq!(gpio.read_field(ODR, led7), 0);
    assert!(!registry.is_taken(TIM2));
}

#[test]
fn led_cycle_matches_the_three_phases() {
    let mut gpio = gpio_block();
    let led8 = Field { offset: 8, width: 1 };
    let led9 = Field { offset: 9, width: 1 };

    led_cycle_step(&mut gpio, ODR, led8, led9, 0);
    assert_eq!(gpio.read_field(ODR, led8), 0);
    assert_eq!(gpio.read_field(ODR, led9), 0);

    led_cycle_step(&mut gpio, ODR, led8, led9, 1);
    assert_eq!(gpio.read_field(ODR, led8), 1);
    assert_eq!(gpio.read_field(ODR, led9), 0);

    led_cycle_step(&mut gpio, ODR, led8, led9, 2);
    assert_eq!(gpio.read_field(ODR, led8), 0);
    assert_eq!(gpio.read_field(ODR, led9), 1);
}

#[test]
fn set_pin_drives_pin_high() {
    let mut gpio = gpio_block();
    let pin9 = Field { offset: 9, width: 1 };
    set_pin(&mut gpio, ODR, pin9);
    assert_eq!(gpio.read_field(ODR, pin9), 1);
    // Setting an already-high pin keeps it high and touches nothing else.
    let before = gpio.read(ODR);
    set_pin(&mut gpio, ODR, pin9);
    assert_eq!(gpio.read(ODR), before);
}

#[test]
fn foreground_and_interrupt_share_odr_safely() {
    // The foreground LED cycle and the interrupt's LED toggle touch
    // disjoint bits of the same atomic-effect register: interleaving
    // them loses neither side's update.
    let mut registry = Registry::new(2);
    let mut tim = timer_block();
    let mut gpio = gpio_block();
    let led7 = Field { offset: 7, width: 1 };
    let led8 = Field { offset: 8, width: 1 };
    let led9 = Field { offset: 9, width: 1 };

    led_cycle_step(&mut gpio, ODR, led8, led9, 1);
    // Interrupt preempts between two foreground steps.
    tim.write_field(SR, UIF, 1).unwrap();
    timer_tick(&mut registry, &mut tim, &mut gpio, TIM2, GPIOE, SR, UIF, ODR, led7);
    led_cycle_step(&mut gpio, ODR, led8, led9, 2);

    // The interrupt's bit survived the foreground stores, and the
    // foreground's phase is exactly what it last requested.
    assert_eq!(gpio.read_field(ODR, led7), 1);
    assert_eq!(gpio.read_field(ODR, led8), 0);
    assert_eq!(gpio.read_field(ODR, led9), 1);
}
