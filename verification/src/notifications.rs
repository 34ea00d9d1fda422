//! Notification toasts: messages arrive over a channel, live for a while, and at most
//! a few of the newest are shown.
use std::sync::mpsc::{self, Receiver, Sender};
use std::collections::VecDeque;
use std::time::Instant;
use crate::layout::Area;
use vstd::prelude::*;
use vstd::string::StringSliceAdditionalSpecFns;
use vstd::utf8::*;

verus! {

#[verifier::external_type_specification]
#[verifier::external_body]
#[verifier::reject_recursive_types(T)]
pub struct ExSender<T>(Sender<T>);

#[verifier::external_type_specification]
#[verifier::external_body]
#[verifier::reject_recursive_types(T)]
pub struct ExReceiver<T>(Receiver<T>);

#[verifier::external_type_specification]
#[verifier::external_body]
pub struct ExInstant(Instant);

/// How many toasts are kept, the newest ones.
pub const MAX_VISIBLE: usize = 3;

/// How long a toast lives, in nanoseconds: four seconds.
pub const TOAST_TTL_NS: u64 = 4_000_000_000;

/// The width of a toast on screen, in cells.
pub const TOAST_WIDTH: u16 = 36;

/// The height of a toast on screen, in cells.
pub const TOAST_HEIGHT: u16 = 3;

/// A toast as the contracts see it: its message and the time it was received.
pub type ToastView = (Seq<char>, u64);

/// A message shown for a while, with the time (in nanoseconds since the daemon
/// started) at which it was received.
pub struct Toast {
    pub message: String,
    pub born_ns: u64,
}

impl View for Toast {
    type V = ToastView;

    open spec fn view(&self) -> ToastView {
        (self.message@, self.born_ns)
    }
}

impl Toast {
    fn duplicate(&self) -> (t: Toast)
        ensures
            t@ == self@,
    {
        Toast { message: self.message.clone(), born_ns: self.born_ns }
    }
}

/// The toasts of `v`, as the contracts see them.
pub open spec fn toasts_view(v: Seq<Toast>) -> Seq<ToastView> {
    v.map_values(|t: Toast| t@)
}

/// How long ago `born` was at time `now`; a time in the future counts as no time.
pub open spec fn age(born: u64, now: u64) -> int {
    if now >= born {
        now - born
    } else {
        0
    }
}

/// Whether a toast is still alive at time `now`.
pub open spec fn is_alive(t: ToastView, now: u64) -> bool {
    age(t.1, now) < TOAST_TTL_NS
}

/// The predicate of being alive at time `now`.
pub open spec fn alive_at(now: u64) -> spec_fn(ToastView) -> bool {
    |t: ToastView| is_alive(t, now)
}

/// The toasts that messages received at time `now` become.
pub open spec fn arrivals(messages: Seq<Seq<char>>, now: u64) -> Seq<ToastView> {
    messages.map_values(|m: Seq<char>| (m, now))
}

/// The last `k` elements of `s`, or all of them when there are fewer.
pub open spec fn keep_newest(s: Seq<ToastView>, k: nat) -> Seq<ToastView> {
    if s.len() > k {
        s.skip(s.len() - k)
    } else {
        s
    }
}

/// The toasts after a tick at time `now` that received `messages`: the new messages are
/// appended, those no longer alive dropped, and only the newest few kept.
pub open spec fn after_tick(toasts: Seq<ToastView>, messages: Seq<Seq<char>>, now: u64) -> Seq<
    ToastView,
> {
    keep_newest(
        (toasts + arrivals(messages, now)).filter(alive_at(now)),
        MAX_VISIBLE as nat,
    )
}

/// The channel that a sender sends into: an identity of the channel, nothing more.
pub uninterp spec fn sender_channel(tx: Sender<String>) -> nat;

/// The channel that a receiver receives from: an identity of the channel, nothing more.
pub uninterp spec fn receiver_channel(rx: Receiver<String>) -> nat;

/// std's `mpsc::channel`: a new channel, its sender and its receiver. Claimed: the sender
/// sends into the channel the receiver receives from.
#[verifier::external_body]
pub(crate) fn open_channel() -> (pair: (Sender<String>, Receiver<String>))
    ensures
        sender_channel(pair.0) == receiver_channel(pair.1),
{
    mpsc::channel()
}

/// `Sender::clone`: claimed, as std documents it, to be another sender into the same
/// channel.
#[verifier::external_body]
fn clone_sender(tx: &Sender<String>) -> (copy: Sender<String>)
    ensures
        sender_channel(copy) == sender_channel(*tx),
{
    tx.clone()
}

/// `Receiver::try_iter`, collected: the messages waiting in the channel, in the order
/// they were sent. Left unsaid: which messages those are; that depends on the other
/// threads that hold a sender.
#[verifier::external_body]
fn receive_pending(rx: &Receiver<String>) -> Vec<String> {
    rx.try_iter().collect()
}

/// `Instant::now`: the current time of the monotonic clock.
#[verifier::external_body]
fn clock_now() -> Instant {
    Instant::now()
}

/// `Instant::elapsed`, in whole nanoseconds (cut to 64 bits, which lasts some 584 years):
/// the time since `start`. Left unsaid: its value, which depends on the clock.
#[verifier::external_body]
fn nanos_since(start: &Instant) -> u64 {
    start.elapsed().as_nanos() as u64
}

/// How many bytes of a message fit in a toast.
pub open spec fn text_room() -> int {
    TOAST_WIDTH - 4
}

/// The text shown for a message: the whole message when its UTF-8 encoding fits in the
/// toast, else its first bytes, one fewer than fit, followed by an ellipsis.
pub open spec fn toast_text_of(message: Seq<char>) -> Seq<char> {
    if encode_utf8(message).len() > text_room() {
        decode_utf8(encode_utf8(message).take(text_room() - 1)) + seq!['\u{2026}']
    } else {
        message
    }
}

/// Whether a message can be shown: if it must be shortened, it can be cut where its
/// text is cut, at a character boundary of its UTF-8 encoding.
pub open spec fn is_showable(message: Seq<char>) -> bool {
    encode_utf8(message).len() > text_room() ==> is_char_boundary(
        encode_utf8(message),
        text_room() - 1,
    )
}

/// The text a toast shows for `message`.
pub fn toast_text(message: &str) -> (text: String)
    requires
        is_showable(message@),
    ensures
        text@ == toast_text_of(message@),
{
    let room = (TOAST_WIDTH as usize) - 4;
    let bytes = message.as_bytes();
    assert(bytes@.len() <= usize::MAX) by {
        broadcast use vstd::slice::axiom_spec_len;

        assert(bytes.len() == bytes@.len());
    }
    if message.len() > room {
        let (head, _) = message.split_at(room - 1);
        let mut text = String::from_str(head);
        text.append("\u{2026}");
        proof {
            reveal_strlit("\u{2026}");
            broadcast use encode_utf8_decode_utf8;

            assert(head.spec_bytes() =~= encode_utf8(message@).take(text_room() - 1));
        }
        text
    } else {
        String::from_str(message)
    }
}

/// A toast placed on screen: where, what it says, and when its message arrived.
pub struct ToastSlot {
    pub area: Area,
    pub text: String,
    pub born_ns: u64,
}

/// How many toasts are placed in `area` when `count` are kept: the newest ones, as many
/// as fit below each other, at most `MAX_VISIBLE`.
pub open spec fn placed_count(count: nat, area: Area) -> nat {
    let fit = (area.height / 4) as nat;
    if count <= MAX_VISIBLE && count <= fit {
        count
    } else if MAX_VISIBLE <= fit {
        MAX_VISIBLE as nat
    } else {
        fit
    }
}

/// The row of the `j`th toast placed from the top of `area`.
pub open spec fn slot_row(area: Area, j: int) -> int {
    area.y + 1 + 4 * j
}

/// The column of the toasts in `area`: against its right edge, one cell in.
pub open spec fn slot_column(area: Area) -> int {
    area.x + (if area.width > TOAST_WIDTH + 1 { area.width - (TOAST_WIDTH + 1) } else { 0 })
}

/// The row checked for the `j`th toast, if placing reaches it, stays within a `u16`.
pub open spec fn row_in_range(area: Area, toasts: Seq<ToastView>, j: int) -> bool {
    0 <= j <= placed_count(toasts.len(), area) && j < MAX_VISIBLE && j < toasts.len() ==> slot_row(
        area,
        j,
    ) + TOAST_HEIGHT <= u16::MAX
}

/// The coordinates of the `j`th toast, if it is placed, stay within a `u16`, and its
/// message can be shown.
pub open spec fn slot_in_range(area: Area, toasts: Seq<ToastView>, j: int) -> bool {
    0 <= j < placed_count(toasts.len(), area) ==> {
        &&& slot_column(area) <= u16::MAX
        &&& slot_row(area, j) + TOAST_HEIGHT + 1 <= u16::MAX
        &&& is_showable(toasts[toasts.len() - 1 - j].0)
    }
}

/// The coordinates computed while placing the toasts of `toasts` in `area` stay within
/// a `u16`, and every message placed can be shown.
pub open spec fn placement_in_range(area: Area, toasts: Seq<ToastView>) -> bool {
    toasts.len() > 0 ==> {
        &&& area.y < u16::MAX
        &&& area.y + area.height <= u16::MAX
        &&& forall|j: int| #[trigger] row_in_range(area, toasts, j)
        &&& forall|j: int| #[trigger] slot_in_range(area, toasts, j)
    }
}

/// Whether `slot` is the `j`th toast placed, from the top, when `toasts` are kept: the
/// newest toast first.
pub open spec fn is_slot(slot: ToastSlot, area: Area, toasts: Seq<ToastView>, j: int) -> bool {
    let t = toasts[toasts.len() - 1 - j];
    &&& slot.area == Area {
        x: slot_column(area) as u16,
        y: slot_row(area, j) as u16,
        width: TOAST_WIDTH,
        height: TOAST_HEIGHT,
    }
    &&& slot.text@ == toast_text_of(t.0)
    &&& slot.born_ns == t.1
}

/// Receives messages over a channel and keeps the toasts to show for them.
pub struct NotificationDaemon {
    rx: Receiver<String>,
    pub tx: Sender<String>,
    toasts: VecDeque<Toast>,
    started: Instant,
}

impl NotificationDaemon {
    /// The toasts kept, oldest first.
    pub closed spec fn shown(&self) -> Seq<ToastView> {
        toasts_view(self.toasts@)
    }

    /// The channel the daemon receives its messages from.
    pub closed spec fn channel(&self) -> nat {
        receiver_channel(self.rx)
    }

    /// The channel that the daemon's sender `tx` sends into.
    pub closed spec fn tx_channel(&self) -> nat {
        sender_channel(self.tx)
    }

    /// A daemon with a new channel and no toasts; its sender `tx` sends into the channel
    /// it receives from.
    pub fn new() -> (d: NotificationDaemon)
        ensures
            d.shown() == Seq::<ToastView>::empty(),
            d.tx_channel() == d.channel(),
    {
        let (tx, rx) = open_channel();
        let d = NotificationDaemon { rx, tx, toasts: VecDeque::new(), started: clock_now() };
        assert(d.shown() =~= Seq::<ToastView>::empty());
        d
    }

    /// Another sender into the channel of the daemon's `tx` (its own channel, as `new`
    /// made it), so other parts can push messages.
    pub fn sender(&self) -> (tx: Sender<String>)
        ensures
            sender_channel(tx) == self.tx_channel(),
    {
        clone_sender(&self.tx)
    }

    /// Where the toasts go in `area`: stacked down from one row below its top, against
    /// its right edge, newest first, as many as fit, at most `MAX_VISIBLE`.
    pub fn toast_slots(&self, area: Area) -> (slots: Vec<ToastSlot>)
        requires
            placement_in_range(area, self.shown()),
        ensures
            slots.len() == placed_count(self.shown().len(), area),
            forall|j: int| 0 <= j < slots.len() ==> is_slot(#[trigger] slots@[j], area, self.shown(), j),
    {
        let n = self.toasts.len();
        let mut slots: Vec<ToastSlot> = Vec::new();
        if n == 0 {
            return slots;
        }
        let mut y: u16 = area.y + 1;
        let mut j: usize = 0;
        while j < n && j < MAX_VISIBLE && y + TOAST_HEIGHT <= area.y + area.height
            invariant
                n == self.toasts.len(),
                n == self.shown().len(),
                n > 0,
                placement_in_range(area, self.shown()),
                row_in_range(area, self.shown(), j as int),
                j <= placed_count(n as nat, area),
                y == slot_row(area, j as int),
                slots.len() == j,
                forall|k: int| 0 <= k < slots.len() ==> is_slot(#[trigger] slots@[k], area, self.shown(), k),
            decreases MAX_VISIBLE - j,
        {
            assert(row_in_range(area, self.shown(), j as int));
            assert(slot_in_range(area, self.shown(), j as int));
            let x = area.x + area.width.saturating_sub(TOAST_WIDTH + 1);
            let toast = &self.toasts[n - 1 - j];
            let text = toast_text(toast.message.as_str());
            slots.push(
                ToastSlot {
                    area: Area { x, y, width: TOAST_WIDTH, height: TOAST_HEIGHT },
                    text,
                    born_ns: toast.born_ns,
                },
            );
            y = y + (TOAST_HEIGHT + 1);
            j = j + 1;
        }
        slots
    }

    /// Whether the toasts can be placed in `area`: what `toast_slots` asks of it.
    pub fn placement_fits(&self, area: Area) -> (fits: bool)
        ensures
            fits == placement_in_range(area, self.shown()),
    {
        let n = self.toasts.len();
        if n == 0 {
            return true;
        }
        if area.y == u16::MAX || (area.y as u32) + (area.height as u32) > (u16::MAX as u32) {
            return false;
        }
        let fit = (area.height / 4) as usize;
        let count = if n <= MAX_VISIBLE && n <= fit {
            n
        } else if MAX_VISIBLE <= fit {
            MAX_VISIBLE
        } else {
            fit
        };
        assert(count == placed_count(self.shown().len(), area));
        let column = (area.x as u32) + (if area.width > TOAST_WIDTH + 1 {
            (area.width - (TOAST_WIDTH + 1)) as u32
        } else {
            0
        });
        let mut j: usize = 0;
        while j <= count && j < MAX_VISIBLE && j < n
            invariant
                n == self.toasts.len(),
                n == self.shown().len(),
                count == placed_count(self.shown().len(), area),
                column == slot_column(area),
                j <= MAX_VISIBLE,
                forall|k: int| 0 <= k < j ==> #[trigger] row_in_range(area, self.shown(), k),
                forall|k: int| 0 <= k < j ==> #[trigger] slot_in_range(area, self.shown(), k),
            decreases MAX_VISIBLE - j,
        {
            let row = (area.y as u32) + 1 + 4 * (j as u32);
            if row + (TOAST_HEIGHT as u32) > (u16::MAX as u32) {
                assert(!row_in_range(area, self.shown(), j as int));
                return false;
            }
            if j < count {
                let message = self.toasts[n - 1 - j].message.as_str();
                let bytes = message.as_bytes();
                let long = bytes.len() > (TOAST_WIDTH as usize) - 4;
                if column > (u16::MAX as u32) || row + (TOAST_HEIGHT as u32) + 1 > (u16::MAX as u32)
                    || (long && !message.is_char_boundary((TOAST_WIDTH as usize) - 5)) {
                    assert(!slot_in_range(area, self.shown(), j as int));
                    return false;
                }
            }
            assert(row_in_range(area, self.shown(), j as int));
            assert(slot_in_range(area, self.shown(), j as int));
            j = j + 1;
        }
        assert forall|k: int| #[trigger] row_in_range(area, self.shown(), k) by {
        }
        assert forall|k: int| #[trigger] slot_in_range(area, self.shown(), k) by {
        }
        true
    }

    /// The daemon's time now, in nanoseconds since it started: the clock toasts are born
    /// by. Left unsaid: its value, which the clock decides.
    pub fn now_ns(&self) -> u64 {
        nanos_since(&self.started)
    }

    /// Receives the waiting messages and expires old toasts.
    pub fn tick(&mut self)
        ensures
            exists|messages: Seq<Seq<char>>, now: u64|
                final(self).shown() == after_tick(old(self).shown(), messages, now),
            final(self).channel() == old(self).channel(),
            final(self).tx_channel() == old(self).tx_channel(),
    {
        let messages = receive_pending(&self.rx);
        let now = nanos_since(&self.started);
        self.advance(messages, now);
        proof {
            let ms = messages@.map_values(|m: String| m@);
            assert(self.shown() == after_tick(old(self).shown(), ms, now));
        }
    }

    /// One tick at time `now` (nanoseconds since the daemon started) in which
    /// `messages` were received: each becomes a toast born now, the toasts that are
    /// no longer alive are dropped, and only the newest `MAX_VISIBLE` are kept.
    pub fn advance(&mut self, messages: Vec<String>, now: u64)
        ensures
            final(self).shown() == after_tick(
                old(self).shown(),
                messages@.map_values(|m: String| m@),
                now,
            ),
            final(self).channel() == old(self).channel(),
            final(self).tx_channel() == old(self).tx_channel(),
    {
        let ghost msgs = messages@.map_values(|m: String| m@);
        let mut all: VecDeque<Toast> = VecDeque::new();
        std::mem::swap(&mut all, &mut self.toasts);
        let ghost before = toasts_view(all@);
        assert(before == old(self).shown());
        let mut i: usize = 0;
        while i < messages.len()
            invariant
                i <= messages.len(),
                msgs == messages@.map_values(|m: String| m@),
                toasts_view(all@) == before + arrivals(msgs.take(i as int), now),
            decreases messages.len() - i,
        {
            let t = Toast { message: messages[i].clone(), born_ns: now };
            let ghost prev = all@;
            all.push_back(t);
            assert(toasts_view(all@) =~= toasts_view(prev).push((msgs[i as int], now)));
            assert(msgs.take(i + 1) =~= msgs.take(i as int).push(msgs[i as int]));
            assert(arrivals(msgs.take(i + 1), now) =~= arrivals(msgs.take(i as int), now).push(
                (msgs[i as int], now),
            ));
            assert(toasts_view(all@) =~= before + arrivals(msgs.take(i + 1), now));
            i = i + 1;
        }
        assert(msgs.take(i as int) =~= msgs);
        let ghost every = toasts_view(all@);
        let ghost alive = alive_at(now);
        let mut kept: VecDeque<Toast> = VecDeque::new();
        let mut j: usize = 0;
        while j < all.len()
            invariant
                j <= all.len(),
                every == toasts_view(all@),
                alive == alive_at(now),
                toasts_view(kept@) == every.take(j as int).filter(alive),
            decreases all.len() - j,
        {
            proof {
                reveal(Seq::filter);
                assert(every.take(j + 1).drop_last() =~= every.take(j as int));
            }
            if now < all[j].born_ns || now - all[j].born_ns < TOAST_TTL_NS {
                kept.push_back(all[j].duplicate());
                assert(toasts_view(kept@) =~= every.take(j as int).filter(alive).push(every[j as int]));
            } else {
                assert(toasts_view(kept@) =~= every.take(j as int).filter(alive));
            }
            j = j + 1;
        }
        assert(every.take(j as int) =~= every);
        let ghost filtered = every.filter(alive);
        let ghost mut dropped: int = 0;
        while kept.len() > MAX_VISIBLE
            invariant
                0 <= dropped <= filtered.len(),
                toasts_view(kept@) == filtered.skip(dropped),
                kept.len() >= MAX_VISIBLE ==> dropped == filtered.len() - kept.len(),
                kept.len() < MAX_VISIBLE ==> dropped == 0,
            decreases kept.len(),
        {
            let ghost prev = kept@;
            kept.pop_front();
            assert(toasts_view(kept@) =~= toasts_view(prev).drop_first());
            proof {
                dropped = dropped + 1;
            }
            assert(toasts_view(kept@) =~= filtered.skip(dropped));
        }
        assert(toasts_view(kept@) =~= keep_newest(filtered, MAX_VISIBLE as nat));
        self.toasts = kept;
    }
}

/// After a tick, at most `MAX_VISIBLE` toasts are kept, all of them alive, and they are
/// the newest alive ones, in the order they were received.
pub proof fn law_tick_keeps_few_living_newest(
    toasts: Seq<ToastView>,
    messages: Seq<Seq<char>>,
    now: u64,
)
    ensures
        after_tick(toasts, messages, now).len() <= MAX_VISIBLE,
        forall|i: int|
            0 <= i < after_tick(toasts, messages, now).len() ==> is_alive(
                #[trigger] after_tick(toasts, messages, now)[i],
                now,
            ),
        after_tick(toasts, messages, now).is_suffix_of(
            (toasts + arrivals(messages, now)).filter(alive_at(now)),
        ),
{
    let alive = alive_at(now);
    let filtered = (toasts + arrivals(messages, now)).filter(alive);
    broadcast use vstd::seq_lib::group_filter_ensures;

    let r = after_tick(toasts, messages, now);
    assert forall|i: int| 0 <= i < r.len() implies is_alive(#[trigger] r[i], now) by {
        let k = filtered.len() - r.len();
        assert(r[i] == filtered[i + k]);
        (toasts + arrivals(messages, now)).lemma_filter_pred(alive, i + k);
    }
    assert(r =~= filtered.subrange(filtered.len() - r.len(), filtered.len() as int));
}

/// A message received in a tick is shown after it, as the newest toast, as long as it
/// is alive (the tick's own arrivals always are).
pub proof fn law_newest_message_is_shown(
    toasts: Seq<ToastView>,
    messages: Seq<Seq<char>>,
    now: u64,
)
    requires
        messages.len() > 0,
    ensures
        after_tick(toasts, messages, now).len() > 0,
        after_tick(toasts, messages, now).last() == (messages.last(), now),
{
    let alive = alive_at(now);
    let all = toasts + arrivals(messages, now);
    reveal(Seq::filter);
    assert(all.drop_last() + seq![all.last()] =~= all);
    assert(all.last() == (messages.last(), now));
    assert(alive(all.last()));
}

} // verus!
