//! Decoding of the rotary encoder and its push button: raw counter readings
//! become detents, button samples become presses.

use crate::event::put_all_spec;
use crate::event::EventQueue;
use crate::event::InterruptEvent;
use vstd::prelude::*;

verus! {

/// Number of counts of the encoder's counter in one detent.
pub const COUNTS_PER_DETENT: u16 = 4;

/// A press of the button.
#[derive(Debug, Clone, Copy, PartialEq, Eq, Structural)]
pub enum Button {
    /// Released before the long-press threshold.
    ShortPress,
    /// Held for the long-press threshold.
    LongPress,
}

/// The signed distance from `last` to `count` on the 16-bit counter, which
/// runs round: the one of the two ways that is shorter than half a turn, and
/// the backward one for exactly half a turn.
pub open spec fn signed_diff(count: u16, last: u16) -> int {
    let forward = (count - last) % 65536;
    if forward < 32768 {
        forward
    } else {
        forward - 65536
    }
}

/// The whole detents in a distance, towards zero.
pub open spec fn detents(diff: int) -> int {
    if diff >= 0 {
        diff / 4
    } else {
        -((-diff) / 4)
    }
}

/// The signed byte that agrees with `q` in its low eight bits.
pub open spec fn wrap_i8(q: int) -> i8 {
    let low = q % 256;
    if low < 128 {
        low as i8
    } else {
        (low - 256) as i8
    }
}

/// What the button reports at a sample, given for how many samples it has
/// been held: a short press at the release after fewer than `timeout`
/// samples, a long press at the sample at which it has been held for
/// `timeout`.
pub open spec fn button_event(pressed: bool, held: u32, timeout: u32) -> Option<Button> {
    if !pressed && 0 < held < timeout {
        Some(Button::ShortPress)
    } else if pressed && held == timeout {
        Some(Button::LongPress)
    } else {
        None
    }
}

/// For how many samples the button has been held after a sample: one more
/// while it is held, as far as the count goes, and none after a release.
pub open spec fn button_held(pressed: bool, held: u32) -> u32 {
    if !pressed {
        0
    } else if held == u32::MAX {
        held
    } else {
        (held + 1) as u32
    }
}

/// For how many samples the button has been held after the given samples.
pub open spec fn held_after(held: u32, samples: Seq<bool>) -> u32
    decreases samples.len(),
{
    if samples.len() == 0 {
        held
    } else {
        button_held(samples.last(), held_after(held, samples.drop_last()))
    }
}

/// What the button reports at sample `i` of `samples`.
pub open spec fn event_at(held: u32, samples: Seq<bool>, i: int, timeout: u32) -> Option<Button> {
    button_event(samples[i], held_after(held, samples.subrange(0, i)), timeout)
}

/// `n` samples of a held button.
pub open spec fn hold(n: nat) -> Seq<bool> {
    Seq::new(n, |i: int| true)
}

/// A button that is held from rest has been held for as many samples as
/// were taken.
pub proof fn lemma_held_after_hold(n: nat)
    requires
        n <= u32::MAX,
    ensures
        held_after(0, hold(n)) == n,
    decreases n,
{
    if n > 0 {
        lemma_held_after_hold((n - 1) as nat);
        assert(hold(n).drop_last() =~= hold((n - 1) as nat));
    }
}

/// Press classification. While a button is held from rest, the only event
/// is one long press, at the sample at which it has been held for `timeout`
/// samples. At its release it reports a short press where it was held for
/// at least one sample and fewer than `timeout`, and nothing otherwise: not
/// after a long press, and not where it was not held at all.
pub proof fn lemma_press_classification(n: nat, timeout: u32)
    requires
        n <= u32::MAX,
    ensures
        forall|i: int|
            0 <= i < n ==> #[trigger] event_at(0, hold(n), i, timeout) == if i == timeout {
                Some(Button::LongPress)
            } else {
                None::<Button>
            },
        event_at(0, hold(n).push(false), n as int, timeout) == if 0 < n < timeout {
            Some(Button::ShortPress)
        } else {
            None::<Button>
        },
        held_after(0, hold(n).push(false)) == 0,
{
    assert forall|i: int| 0 <= i < n implies #[trigger] event_at(0, hold(n), i, timeout) == if i
        == timeout {
        Some(Button::LongPress)
    } else {
        None::<Button>
    } by {
        lemma_held_after_hold(i as nat);
        assert(hold(n).subrange(0, i) =~= hold(i as nat));
    }
    lemma_held_after_hold(n);
    assert(hold(n).push(false).subrange(0, n as int) =~= hold(n));
    assert(hold(n).push(false).drop_last() =~= hold(n));
}

/// Decoder of the rotary encoder and its button. It keeps the counter
/// reading from which the next detents are measured, and for how many
/// samples the button has been held.
#[derive(Debug, Clone, Copy, PartialEq, Eq, Structural)]
pub struct Encoder {
    pub last_count: u16,
    pub btn_count: u32,
}

impl Encoder {
    /// The events of one poll, in the order in which they are queued: the
    /// tick, then the detents, then the press.
    pub open spec fn poll_events(self, count: u16, pressed: bool, timeout: u32) -> Seq<
        InterruptEvent,
    > {
        let diff = signed_diff(count, self.last_count);
        let turned = if diff >= 4 || diff <= -4 {
            seq![InterruptEvent::Encoder(wrap_i8(detents(diff)))]
        } else {
            Seq::empty()
        };
        let pressed = match button_event(pressed, self.btn_count, timeout) {
            Some(Button::ShortPress) => seq![InterruptEvent::ShortPress],
            Some(Button::LongPress) => seq![InterruptEvent::LongPress],
            None => Seq::empty(),
        };
        seq![InterruptEvent::Tick] + turned + pressed
    }

    /// The decoder after one poll.
    pub open spec fn polled(self, count: u16, pressed: bool) -> Encoder {
        let diff = signed_diff(count, self.last_count);
        Encoder {
            last_count: if diff >= 4 || diff <= -4 {
                count
            } else {
                self.last_count
            },
            btn_count: button_held(pressed, self.btn_count),
        }
    }

    /// Creates a decoder that measures from the counter reading `count`,
    /// with the button at rest.
    pub fn new(count: u16) -> (e: Self)
        ensures
            e == (Encoder { last_count: count, btn_count: 0 }),
    {
        Encoder { last_count: count, btn_count: 0 }
    }

    /// Takes a counter reading. Where it lies at least one detent from the
    /// reading kept, returns the whole detents between them and keeps the
    /// new reading; else returns nothing and keeps the old one, so that
    /// parts of a detent add up.
    pub fn check(&mut self, count: u16) -> (r: Option<i8>)
        ensures
            final(self).btn_count == old(self).btn_count,
            ({
                let diff = signed_diff(count, old(self).last_count);
                if diff >= 4 || diff <= -4 {
                    r == Some(wrap_i8(detents(diff))) && final(self).last_count == count
                } else {
                    r is None && final(self).last_count == old(self).last_count
                }
            }),
    {
        let forward: u32 = if count >= self.last_count {
            (count - self.last_count) as u32
        } else {
            65536 - (self.last_count - count) as u32
        };
        assert(forward == (count - old(self).last_count) % 65536);
        if forward < 32768 {
            if forward >= 4 {
                self.last_count = count;
                let low: u32 = (forward / 4) % 256;
                Some(low_to_i8(low))
            } else {
                None
            }
        } else {
            let backward: u32 = 65536 - forward;
            if backward >= 4 {
                self.last_count = count;
                let q: u32 = backward / 4;
                let low: u32 = (256 - q % 256) % 256;
                assert(low == (-(q as int)) % 256);
                Some(low_to_i8(low))
            } else {
                None
            }
        }
    }

    /// Takes a sample of the button, `timeout` being the number of samples
    /// of a long press.
    pub fn check_btn(&mut self, pressed: bool, timeout: u32) -> (r: Option<Button>)
        ensures
            r == button_event(pressed, old(self).btn_count, timeout),
            final(self).btn_count == button_held(pressed, old(self).btn_count),
            final(self).last_count == old(self).last_count,
    {
        let cnt = self.btn_count;
        let evt = if !pressed && 0 < cnt && cnt < timeout {
            Some(Button::ShortPress)
        } else if pressed && cnt == timeout {
            Some(Button::LongPress)
        } else {
            None
        };
        self.btn_count = if pressed {
            if cnt == u32::MAX {
                cnt
            } else {
                cnt + 1
            }
        } else {
            0
        };
        evt
    }

    /// One poll of the inputs, as the polling timer makes it: queues a tick,
    /// then the detents that the counter reading gives, then the press that
    /// the button sample gives.
    pub fn poll<const N: usize>(
        &mut self,
        queue: &mut EventQueue<N>,
        count: u16,
        pressed: bool,
        timeout: u32,
    )
        requires
            old(queue).wf(),
        ensures
            final(queue).wf(),
            *final(self) == old(self).polled(count, pressed),
            final(queue)@ == put_all_spec(
                old(queue)@,
                N as nat,
                old(self).poll_events(count, pressed, timeout),
            ),
    {
        let ghost q0 = queue@;
        let ghost events = self.poll_events(count, pressed, timeout);
        let ghost mut done: Seq<InterruptEvent> = Seq::empty();
        queue.put(InterruptEvent::Tick);
        proof {
            done = done.push(InterruptEvent::Tick);
            assert(done.drop_last() =~= Seq::<InterruptEvent>::empty());
            assert(put_all_spec(q0, N as nat, Seq::<InterruptEvent>::empty()) == q0);
            assert(queue@ == put_all_spec(q0, N as nat, done));
        }
        if let Some(change) = self.check(count) {
            queue.put(InterruptEvent::Encoder(change));
            proof {
                let before = done;
                done = done.push(InterruptEvent::Encoder(change));
                assert(done.drop_last() =~= before);
                assert(queue@ == put_all_spec(q0, N as nat, done));
            }
        }
        if let Some(evt) = self.check_btn(pressed, timeout) {
            let queued = match evt {
                Button::ShortPress => InterruptEvent::ShortPress,
                Button::LongPress => InterruptEvent::LongPress,
            };
            queue.put(queued);
            proof {
                let before = done;
                done = done.push(queued);
                assert(done.drop_last() =~= before);
                assert(queue@ == put_all_spec(q0, N as nat, done));
            }
        }
        assert(done =~= events);
    }
}

/// The signed byte whose eight bits are `low`.
fn low_to_i8(low: u32) -> (r: i8)
    requires
        low < 256,
    ensures
        r == if low < 128 {
            low as int
        } else {
            low - 256
        },
{
    if low < 128 {
        low as i8
    } else {
        (low as i32 - 256) as i8
    }
}

} // verus!
