use tick_os::critical::Runtime;
use tick_os::ticks::TickCounter;
use tick_os::hal::{GpioPin, GPIO_PORTC_BASE, OUTPUT_DATA_REGISTER_OFFSET};

#[test]
fn fresh_runtime_reads_zero() {
    let mut rt = Runtime::new();
    assert!(rt.interrupts_enabled());
    assert_eq!(rt.depth(), 0);
    assert!(!rt.is_pending());
    assert_eq!(rt.read_ticks(), 0);
}

#[test]
fn firings_interleaved_with_reads_count_exactly() {
    let mut rt = Runtime::new();
    let mut expected = 0u32;
    for n in 0..50u32 {
        for _ in 0..(n % 3) {
            rt.timer_expired();
            expected += 1;
        }
        assert_eq!(rt.read_ticks(), expected);
        assert_eq!(rt.read_ticks(), expected);
    }
    assert_eq!(expected, 49);
    assert_eq!(rt.read_ticks(), 49);
}

#[test]
fn racing_read_sees_value_before_expiry() {
    let mut rt = Runtime::new();
    rt.timer_expired();
    rt.timer_expired();
    let cs = rt.enter();
    rt.timer_expired();
    assert!(rt.is_pending());
    let seen = rt.ticks_in(&cs);
    rt.exit(cs);
    assert_eq!(seen, 2);
    assert!(!rt.is_pending());
    assert_eq!(rt.read_ticks(), 3);
}

#[test]
fn nested_sections_hold_interrupts_until_outermost_exit() {
    let mut rt = Runtime::new();
    let outer = rt.enter();
    assert!(!rt.interrupts_enabled());
    let inner = rt.enter();
    assert_eq!(rt.depth(), 2);
    rt.timer_expired();
    rt.timer_expired();
    assert_eq!(rt.ticks_in(&inner), 0);
    rt.exit(inner);
    assert!(!rt.interrupts_enabled());
    assert!(rt.is_pending());
    assert_eq!(rt.ticks_in(&outer), 0);
    rt.exit(outer);
    assert!(rt.interrupts_enabled());
    assert_eq!(rt.depth(), 0);
    assert!(!rt.is_pending());
    assert_eq!(rt.read_ticks(), 1);
}

#[test]
fn run_exclusive_returns_body_value_and_restores() {
    let mut rt = Runtime::new();
    rt.timer_expired();
    let v = rt.run_exclusive(|_cs| 41 + 1);
    assert_eq!(v, 42);
    assert!(rt.interrupts_enabled());
    assert_eq!(rt.depth(), 0);
    assert_eq!(rt.read_ticks(), 1);
}

#[test]
fn run_exclusive_inside_section_keeps_interrupts_masked() {
    let mut rt = Runtime::new();
    let cs = rt.enter();
    let v = rt.run_exclusive(|_inner| 7u8);
    assert_eq!(v, 7);
    assert!(!rt.interrupts_enabled());
    assert_eq!(rt.depth(), 1);
    rt.exit(cs);
    assert!(rt.interrupts_enabled());
}

#[test]
fn gpio_register_addresses() {
    let pin = GpioPin::new(GPIO_PORTC_BASE, 13);
    assert_eq!(pin.pin_number(), 13);
    assert_eq!(pin.mode_register(), 0x4002_0C00);
    assert_eq!(pin.output_register(), 0x4002_0C14);
    assert_eq!(pin.output_register(), GPIO_PORTC_BASE + OUTPUT_DATA_REGISTER_OFFSET);
}

#[test]
fn gpio_output_mode_sets_low_mode_bit() {
    let pin = GpioPin::new(GPIO_PORTC_BASE, 13);
    assert_eq!(pin.output_mode(0), 1 << 26);
    assert_eq!(pin.output_mode(0x0000_0005), 0x0400_0005);
}

#[test]
fn gpio_levels_touch_only_their_bit() {
    let pin = GpioPin::new(GPIO_PORTC_BASE, 13);
    assert_eq!(pin.set_high(0), 0x2000);
    assert_eq!(pin.set_high(0x0000_0001), 0x0000_2001);
    assert_eq!(pin.set_low(0xFFFF_FFFF), 0xFFFF_DFFF);
    assert_eq!(pin.set_low(0x0000_2001), 0x0000_0001);
    let pin0 = GpioPin::new(GPIO_PORTC_BASE, 0);
    assert_eq!(pin0.set_high(0x10), 0x11);
    assert_eq!(pin0.output_mode(0), 1);
}

#[test]
fn tick_counter_counts_under_a_section() {
    let mut rt = Runtime::new();
    let cs = rt.enter();
    let mut counter = TickCounter::new();
    assert_eq!(counter.read(&cs), 0);
    for _ in 0..5 {
        counter.increment(&cs);
    }
    assert_eq!(counter.read(&cs), 5);
    rt.exit(cs);
}
