//! The button-controlled blinker: a lamp pair blinks slowly or quickly, a
//! button press switches the speed, and each completed blink is counted.
use vstd::prelude::*;

verus! {

/// The blink period at slow speed, in milliseconds.
pub const SLOW_BLINK_MS: u64 = 1000;
/// The blink period at fast speed, in milliseconds.
pub const FAST_BLINK_MS: u64 = 300;
/// How long without a button press before the watchdog warns, in seconds.
pub const WATCHDOG_TIMEOUT_S: u64 = 5;
/// How often the counter is logged, in seconds.
pub const LOG_PERIOD_S: u64 = 2;

/// What ends one wait of the blink loop.
#[derive(Clone, Copy, Debug, PartialEq, Eq, Structural)]
pub enum LoopEvent {
    /// The blink period ran out.
    DelayElapsed,
    /// The button was pressed before it did.
    ButtonPressed,
}

/// The blink period at the given speed.
pub fn blink_delay_ms(fast: bool) -> (ms: u64)
    ensures
        ms == if fast { FAST_BLINK_MS } else { SLOW_BLINK_MS },
{
    if fast {
        FAST_BLINK_MS
    } else {
        SLOW_BLINK_MS
    }
}

/// The speed after a button press.
pub fn toggled_speed(fast: bool) -> (r: bool)
    ensures
        r == !fast,
{
    !fast
}

/// The lamp state and blink count after one event.
pub open spec fn after_event_spec(led_on: bool, counter: int, event: LoopEvent) -> (bool, int) {
    match event {
        LoopEvent::DelayElapsed => (!led_on, counter + 1),
        LoopEvent::ButtonPressed => (led_on, counter),
    }
}

/// The lamp state and blink count after a run of events.
pub open spec fn after_events(led_on: bool, counter: int, events: Seq<LoopEvent>) -> (bool, int)
    decreases events.len(),
{
    if events.len() == 0 {
        (led_on, counter)
    } else {
        let (l, c) = after_events(led_on, counter, events.drop_last());
        after_event_spec(l, c, events.last())
    }
}

/// How many events of a run are elapsed blink periods.
pub open spec fn elapsed_count(events: Seq<LoopEvent>) -> nat
    decreases events.len(),
{
    if events.len() == 0 {
        0
    } else {
        elapsed_count(events.drop_last()) + if events.last() == LoopEvent::DelayElapsed {
            1nat
        } else {
            0nat
        }
    }
}

/// The lamp state and blink count after one event of the blink loop: an
/// elapsed period switches the lamps and counts a blink, a press does neither.
pub fn after_event(led_on: bool, counter: u32, event: LoopEvent) -> (r: (bool, u32))
    requires
        event == LoopEvent::DelayElapsed ==> counter < u32::MAX,
    ensures
        (r.0, r.1 as int) == after_event_spec(led_on, counter as int, event),
{
    match event {
        LoopEvent::DelayElapsed => (!led_on, counter + 1),
        LoopEvent::ButtonPressed => (led_on, counter),
    }
}

/// Over any run of events, the counter grows by the number of elapsed periods,
/// and the lamps are switched exactly when that number is odd: button presses
/// neither count nor switch.
pub proof fn law_counter_counts_blinks(led_on: bool, counter: int, events: Seq<LoopEvent>)
    ensures
        after_events(led_on, counter, events).1 == counter + elapsed_count(events),
        after_events(led_on, counter, events).0 == (led_on != (elapsed_count(events) % 2 == 1)),
    decreases events.len(),
{
    if events.len() > 0 {
        law_counter_counts_blinks(led_on, counter, events.drop_last());
    }
}

} // verus!
