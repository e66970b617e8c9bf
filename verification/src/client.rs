//! Client identification.

use vstd::prelude::*;

use crate::inventory::{
    bit_set, lemma_no_bits_set, lemma_wrap_i32_id, lemma_wrap_i32_step, set_bits_below,
    slot_updates, wrap_i32, InventoryId, InventorySlots, SlotUpdate,
};
use crate::item::{slot_eq, slot_view, ItemStack, Slot};
use crate::key::Key;

verus! {

/// An identifier for a client on the server.
#[derive(Clone, Copy, PartialEq, Eq, PartialOrd, Ord, Hash, Default, Debug, Structural)]
pub struct ClientId(pub Key);

impl ClientId {
    /// The ID that never names a client.
    pub fn null() -> (c: Self)
        ensures
            c.0 == Key::null_spec(),
    {
        ClientId(Key::null())
    }
}


/// Why a client must be disconnected.
#[derive(Clone, Copy, PartialEq, Eq, Debug, Structural)]
pub enum ClientError {
    /// A teleport was confirmed while none was pending.
    UnexpectedTeleportConfirmation,
    /// A teleport was confirmed with another ID than that of the oldest
    /// pending one.
    UnexpectedTeleportId { expected: u32, got: u32 },
    /// A keepalive was answered that had already been answered.
    UnexpectedKeepalive,
    /// A keepalive answer carried another ID than the last keepalive sent.
    KeepaliveMismatch { sent: u64, received: u64 },
    /// The last keepalive sent was not answered in time.
    TimedOut,
}

/// What a server and a client must agree on: the teleports the client has
/// not confirmed yet, and whether the last keepalive was answered.
#[derive(Clone, Copy, PartialEq, Eq, Debug, Structural)]
pub struct ClientSync {
    /// Counts up as teleports are sent; the ID of the next teleport.
    pub teleport_id_counter: u32,
    /// How many teleports the client has not confirmed yet. Position
    /// updates from the client are ignored while this is nonzero.
    pub pending_teleports: u32,
    /// The ID of the last keepalive sent.
    pub last_keepalive_id: u64,
    /// Whether the last keepalive sent was answered.
    pub got_keepalive: bool,
    /// The highest sequence number of the block changes the client made
    /// since the last acknowledgement; zero when there are none.
    pub block_change_sequence: i32,
}

/// The ID that the oldest pending teleport was sent with.
pub open spec fn expected_teleport_id(s: ClientSync) -> u32 {
    ((s.teleport_id_counter - s.pending_teleports) % 0x1_0000_0000) as u32
}

/// What a tick of the server does about keepalives.
#[derive(Clone, Copy, PartialEq, Eq, Debug, Structural)]
pub enum KeepaliveAction {
    /// Nothing this tick.
    Wait,
    /// Send a keepalive with this ID.
    Send(u64),
}

/// Whether a keepalive is due at `current_tick`: every ten seconds' worth
/// of ticks, that is when `tick_rate * 10` divides the tick.
pub open spec fn keepalive_due(current_tick: i64, tick_rate: i64) -> bool {
    let t = current_tick as int;
    (if t < 0 { -t } else { t }) % (tick_rate * 10) == 0
}

/// A keepalive is due exactly on the ticks that are a whole number of ten
/// seconds' worth of ticks, `tick_rate * 10`: every tenth second, counted
/// from tick 0 both ways.
pub proof fn keepalive_period_law(current_tick: i64, tick_rate: i64)
    requires
        0 < tick_rate,
    ensures
        keepalive_due(current_tick, tick_rate) <==> (current_tick as int) % (tick_rate * 10) == 0,
        keepalive_due(current_tick, tick_rate) <==> exists|k: int| #[trigger] (k * (tick_rate * 10)) == current_tick,
{
    let t = current_tick as int;
    let m = tick_rate * 10;
    vstd::arithmetic::div_mod::lemma_fundamental_div_mod(t, m);
    vstd::arithmetic::div_mod::lemma_fundamental_div_mod(-t, m);
    if t % m == 0 {
        let q = t / m;
        assert(-t == (-q) * m) by (nonlinear_arith)
            requires
                t == m * q,
        ;
        vstd::arithmetic::div_mod::lemma_mod_multiples_basic(-q, m);
        assert(q * m == t) by (nonlinear_arith)
            requires
                t == m * q,
        ;
    }
    if (-t) % m == 0 {
        let q = (-t) / m;
        assert(t == (-q) * m) by (nonlinear_arith)
            requires
                -t == m * q,
        ;
        vstd::arithmetic::div_mod::lemma_mod_multiples_basic(-q, m);
    }
    assert forall|k: int| #[trigger] (k * m) == t implies t % m == 0 by {
        vstd::arithmetic::div_mod::lemma_mod_multiples_basic(k, m);
    }
}

impl ClientSync {
    /// A new client: no teleports sent, and no keepalive outstanding.
    pub fn new() -> (s: Self)
        ensures
            s == (ClientSync {
                teleport_id_counter: 0,
                pending_teleports: 0,
                last_keepalive_id: 0,
                got_keepalive: true,
                block_change_sequence: 0,
            }),
    {
        ClientSync {
            teleport_id_counter: 0,
            pending_teleports: 0,
            last_keepalive_id: 0,
            got_keepalive: true,
            block_change_sequence: 0,
        }
    }

    /// Records a teleport sent to the client and returns the ID it is sent
    /// with. Both counters wrap around.
    pub fn teleport(&mut self) -> (id: u32)
        ensures
            id == old(self).teleport_id_counter,
            final(self).teleport_id_counter == (old(self).teleport_id_counter + 1) % 0x1_0000_0000,
            final(self).pending_teleports == (old(self).pending_teleports + 1) % 0x1_0000_0000,
            final(self).last_keepalive_id == old(self).last_keepalive_id,
            final(self).got_keepalive == old(self).got_keepalive,
            final(self).block_change_sequence == old(self).block_change_sequence,
    {
        let id = self.teleport_id_counter;
        self.pending_teleports = self.pending_teleports.wrapping_add(1);
        self.teleport_id_counter = self.teleport_id_counter.wrapping_add(1);
        id
    }

    /// Whether position updates from the client are to be ignored: they are
    /// while a teleport is unconfirmed.
    pub fn ignores_movement(&self) -> (b: bool)
        ensures
            b == (self.pending_teleports != 0),
    {
        self.pending_teleports != 0
    }

    /// Handles the client's confirmation of the teleport with ID `got`: it
    /// must be the oldest pending one.
    pub fn confirm_teleport(&mut self, got: u32) -> (r: Result<(), ClientError>)
        ensures
            old(self).pending_teleports == 0 ==> r == Err::<(), ClientError>(
                ClientError::UnexpectedTeleportConfirmation,
            ) && *final(self) == *old(self),
            old(self).pending_teleports != 0 && got != expected_teleport_id(*old(self)) ==> r
                == Err::<(), ClientError>(
                ClientError::UnexpectedTeleportId { expected: expected_teleport_id(*old(self)), got },
            ) && *final(self) == *old(self),
            old(self).pending_teleports != 0 && got == expected_teleport_id(*old(self)) ==> r is Ok
                && *final(self) == (ClientSync {
                pending_teleports: (old(self).pending_teleports - 1) as u32,
                ..*old(self)
            }),
    {
        if self.pending_teleports == 0 {
            return Err(ClientError::UnexpectedTeleportConfirmation);
        }
        let expected = self.teleport_id_counter.wrapping_sub(self.pending_teleports);
        if got == expected {
            self.pending_teleports = self.pending_teleports - 1;
            Ok(())
        } else {
            Err(ClientError::UnexpectedTeleportId { expected, got })
        }
    }

    /// Handles the client's answer `id` to a keepalive: the last keepalive
    /// sent must be unanswered and carry this ID.
    pub fn receive_keepalive(&mut self, id: u64) -> (r: Result<(), ClientError>)
        ensures
            old(self).got_keepalive ==> r == Err::<(), ClientError>(ClientError::UnexpectedKeepalive)
                && *final(self) == *old(self),
            !old(self).got_keepalive && id != old(self).last_keepalive_id ==> r == Err::<
                (),
                ClientError,
            >(ClientError::KeepaliveMismatch { sent: old(self).last_keepalive_id, received: id })
                && *final(self) == *old(self),
            !old(self).got_keepalive && id == old(self).last_keepalive_id ==> r is Ok
                && *final(self) == (ClientSync { got_keepalive: true, ..*old(self) }),
    {
        if self.got_keepalive {
            Err(ClientError::UnexpectedKeepalive)
        } else if id != self.last_keepalive_id {
            Err(ClientError::KeepaliveMismatch { sent: self.last_keepalive_id, received: id })
        } else {
            self.got_keepalive = true;
            Ok(())
        }
    }

    /// Records a block change the client made with sequence number
    /// `sequence`; zero stands for none. The highest number is kept.
    pub fn record_block_change(&mut self, sequence: i32)
        ensures
            final(self).block_change_sequence == (if sequence != 0
                && sequence > old(self).block_change_sequence {
                sequence
            } else {
                old(self).block_change_sequence
            }),
            final(self).teleport_id_counter == old(self).teleport_id_counter,
            final(self).pending_teleports == old(self).pending_teleports,
            final(self).last_keepalive_id == old(self).last_keepalive_id,
            final(self).got_keepalive == old(self).got_keepalive,
    {
        if sequence != 0 && sequence > self.block_change_sequence {
            self.block_change_sequence = sequence;
        }
    }

    /// The sequence number to acknowledge to the client this tick, if it
    /// made block changes; they are then forgotten.
    pub fn take_block_change_ack(&mut self) -> (ack: Option<i32>)
        ensures
            ack == (if old(self).block_change_sequence != 0 {
                Some(old(self).block_change_sequence)
            } else {
                None::<i32>
            }),
            *final(self) == (ClientSync { block_change_sequence: 0, ..*old(self) }),
    {
        if self.block_change_sequence != 0 {
            let s = self.block_change_sequence;
            self.block_change_sequence = 0;
            Some(s)
        } else {
            None
        }
    }

    /// Decides what the tick `current_tick` does about keepalives, for a
    /// server running `tick_rate` ticks a second. A keepalive is due every
    /// ten seconds; if the last one is unanswered by then, the client has
    /// timed out. Otherwise `fresh_id`, a random number, is sent.
    pub fn keepalive_tick(&mut self, current_tick: i64, tick_rate: i64, fresh_id: u64) -> (r:
        Result<KeepaliveAction, ClientError>)
        requires
            0 < tick_rate,
            tick_rate * 10 <= i64::MAX,
        ensures
            !keepalive_due(current_tick, tick_rate) ==> r == Ok::<KeepaliveAction, ClientError>(
                KeepaliveAction::Wait,
            ) && *final(self) == *old(self),
            keepalive_due(current_tick, tick_rate) && !old(self).got_keepalive ==> r == Err::<
                KeepaliveAction,
                ClientError,
            >(ClientError::TimedOut) && *final(self) == *old(self),
            keepalive_due(current_tick, tick_rate) && old(self).got_keepalive ==> r == Ok::<
                KeepaliveAction,
                ClientError,
            >(KeepaliveAction::Send(fresh_id)) && *final(self) == (ClientSync {
                last_keepalive_id: fresh_id,
                got_keepalive: false,
                ..*old(self)
            }),
            (current_tick as int) % (tick_rate * 10) != 0 <==> r == Ok::<KeepaliveAction, ClientError>(
                KeepaliveAction::Wait,
            ),
    {
        proof {
            keepalive_period_law(current_tick, tick_rate);
        }
        let period = (tick_rate * 10) as u64;
        let magnitude: u64 = if current_tick >= 0 {
            current_tick as u64
        } else {
            (-(current_tick as i128)) as u64
        };
        if magnitude % period != 0 {
            return Ok(KeepaliveAction::Wait);
        }
        if self.got_keepalive {
            self.last_keepalive_id = fresh_id;
            self.got_keepalive = false;
            Ok(KeepaliveAction::Send(fresh_id))
        } else {
            Err(ClientError::TimedOut)
        }
    }
}

/// Teleports are confirmed in the order they were sent. After a teleport is
/// sent, the one the client must confirm next is still the oldest pending
/// one, or the new one when none was pending; and once the oldest is
/// confirmed, the next one expected is the teleport sent after it.
pub proof fn teleport_order_law(s: ClientSync)
    requires
        s.pending_teleports < u32::MAX,
    ensures
        expected_teleport_id(
            ClientSync {
                teleport_id_counter: ((s.teleport_id_counter + 1) % 0x1_0000_0000) as u32,
                pending_teleports: (s.pending_teleports + 1) as u32,
                ..s
            },
        ) == (if s.pending_teleports == 0 {
            s.teleport_id_counter
        } else {
            expected_teleport_id(s)
        }),
        s.pending_teleports > 0 ==> expected_teleport_id(
            ClientSync { pending_teleports: (s.pending_teleports - 1) as u32, ..s },
        ) == (expected_teleport_id(s) + 1) % 0x1_0000_0000,
{
}

/// The number of slots of a player's own inventory.
pub const PLAYER_INVENTORY_SLOTS: u16 = 45;

/// A view distance brought into `2..=32` chunks.
pub open spec fn clamp_view_distance(d: u8) -> u8 {
    if d < 2 {
        2
    } else if d > 32 {
        32
    } else {
        d
    }
}

/// A view distance is kept within 2 to 32 chunks: one in that range is
/// taken as it is, a smaller one becomes 2 and a larger one 32.
pub proof fn view_distance_law(d: u8)
    ensures
        2 <= clamp_view_distance(d) <= 32,
        2 <= d <= 32 ==> clamp_view_distance(d) == d,
        d < 2 ==> clamp_view_distance(d) == 2,
        d > 32 ==> clamp_view_distance(d) == 32,
{
}

/// Sets a client's view distance from `current` to `requested`, clamped
/// to `2..=32`. Returns the new distance, and whether the client must be
/// told: when it changed, unless the client joined this tick.
pub fn change_view_distance(current: u8, requested: u8, created_this_tick: bool) -> (r: (u8, bool))
    ensures
        r.0 == clamp_view_distance(requested),
        r.1 == (clamp_view_distance(requested) != current && !created_this_tick),
{
    let d = if requested < 2 {
        2
    } else if requested > 32 {
        32
    } else {
        requested
    };
    (d, d != current && !created_this_tick)
}

/// A packet that updates what a client sees of its inventories.
#[derive(Clone, Copy, PartialEq, Eq, Debug, Structural)]
pub enum InventoryPacket {
    /// All the slots of window `window_id` (0 for the player's own
    /// inventory) and the cursor item.
    SetContents { window_id: u8, state_id: i32 },
    /// One slot; window -1 and slot -1 stand for the cursor item.
    SetSlot(SlotUpdate),
    /// Opens window `window_id` on the inventory the client has open.
    OpenScreen { window_id: u8 },
}

/// The updates for the slots `idxs` of the player's own inventory, each
/// sent with the state ID before it is raised by one, from `state_id` on.
pub open spec fn own_slot_updates(state_id: i32, idxs: Seq<u16>) -> Seq<InventoryPacket> {
    Seq::new(
        idxs.len(),
        |k: int|
            InventoryPacket::SetSlot(
                SlotUpdate { window_id: 0, state_id: wrap_i32(state_id + k), slot_idx: idxs[k] as i16 },
            ),
    )
}

/// What the update of the player's own inventory sends, and the state ID
/// it leaves: the modified slots (all of them, as the whole contents, when
/// the client joined this tick), then the cursor item when it changed.
pub open spec fn own_inventory_update(
    modified: u64,
    state_id: i32,
    cursor_item_modified: bool,
    created_this_tick: bool,
) -> (Seq<InventoryPacket>, i32) {
    let whole = modified != 0 && (created_this_tick || (modified == u64::MAX
        && cursor_item_modified));
    let own = set_bits_below(modified, PLAYER_INVENTORY_SLOTS as nat);
    let p1 = if modified == 0 {
        Seq::empty()
    } else if whole {
        seq![InventoryPacket::SetContents { window_id: 0, state_id }]
    } else {
        own_slot_updates(state_id, own)
    };
    let s1 = if modified == 0 {
        state_id
    } else if whole {
        wrap_i32(state_id + 1)
    } else {
        wrap_i32(state_id + own.len())
    };
    if cursor_item_modified && !whole {
        (
            p1 + seq![
                InventoryPacket::SetSlot(
                    SlotUpdate { window_id: -1i8, state_id: s1, slot_idx: -1i16 },
                ),
            ],
            wrap_i32(s1 + 1),
        )
    } else {
        (p1, s1)
    }
}

/// What the update of the inventory a client has open sends, and the state
/// ID and window ID it leaves. `open` is the modified slots and the number
/// of slots of that inventory, if it exists. A newly opened inventory is
/// opened in the next window, with all its contents; otherwise its modified
/// slots are sent.
pub open spec fn open_inventory_update(
    state_id: i32,
    open_inventory_modified: bool,
    window_id: u8,
    open: Option<(u64, nat)>,
) -> (Seq<InventoryPacket>, i32, u8) {
    match open {
        None => (Seq::empty(), state_id, window_id),
        Some((m, n)) => if open_inventory_modified {
            let w = (window_id % 100 + 1) as u8;
            let s = wrap_i32(state_id + 1);
            (
                seq![
                    InventoryPacket::OpenScreen { window_id: w },
                    InventoryPacket::SetContents { window_id: w, state_id: s },
                ],
                s,
                w,
            )
        } else {
            let idxs = set_bits_below(m, n);
            (
                slot_updates(window_id as i8, state_id, idxs).map_values(
                    |u: SlotUpdate| InventoryPacket::SetSlot(u),
                ),
                wrap_i32(state_id + idxs.len()),
                window_id,
            )
        },
    }
}

/// What a client holds: the slots of its own inventory, the item on its
/// cursor and the inventory it has open, with what changed since the last
/// update and the IDs that keep the client in step.
pub struct ClientInventory {
    slots: InventorySlots,
    state_id: i32,
    cursor_item: Slot,
    cursor_item_modified: bool,
    open_inventory: InventoryId,
    open_inventory_modified: bool,
    window_id: u8,
}

impl ClientInventory {
    #[verifier::type_invariant]
    spec fn has_player_slots(self) -> bool {
        self.slots.spec_slots().len() == PLAYER_INVENTORY_SLOTS
    }

    /// What each slot of the player's own inventory holds.
    pub closed spec fn spec_slots(&self) -> Seq<Option<(u16, u8, Option<Seq<u8>>)>> {
        self.slots.spec_slots()
    }

    /// The slots modified since the last update.
    pub closed spec fn spec_modified(&self) -> u64 {
        self.slots.spec_modified()
    }

    /// Counts up as inventories change, so that the client stays in step.
    pub closed spec fn spec_state_id(&self) -> i32 {
        self.state_id
    }

    pub closed spec fn spec_cursor_item(&self) -> Option<(u16, u8, Option<Seq<u8>>)> {
        slot_view(self.cursor_item)
    }

    pub closed spec fn spec_cursor_item_modified(&self) -> bool {
        self.cursor_item_modified
    }

    pub closed spec fn spec_open_inventory(&self) -> InventoryId {
        self.open_inventory
    }

    pub closed spec fn spec_open_inventory_modified(&self) -> bool {
        self.open_inventory_modified
    }

    /// The ID of the window last opened; counts `1..=100` round.
    pub closed spec fn spec_window_id(&self) -> u8 {
        self.window_id
    }

    /// The inventory of a client that just joined: empty, nothing on the
    /// cursor, no inventory open.
    pub fn new() -> (c: Self)
        ensures
            c.spec_slots().len() == PLAYER_INVENTORY_SLOTS,
            forall|i: int| 0 <= i < PLAYER_INVENTORY_SLOTS ==> c.spec_slots()[i] is None,
            c.spec_modified() == 0,
            c.spec_state_id() == 0,
            c.spec_cursor_item() is None,
            !c.spec_cursor_item_modified(),
            c.spec_open_inventory() == (InventoryId(Key::null_spec())),
            !c.spec_open_inventory_modified(),
            c.spec_window_id() == 0,
    {
        ClientInventory {
            slots: InventorySlots::new(PLAYER_INVENTORY_SLOTS),
            state_id: 0,
            cursor_item: None,
            cursor_item_modified: false,
            open_inventory: InventoryId::null(),
            open_inventory_modified: false,
            window_id: 0,
        }
    }

    /// The stack in slot `idx` of the player's own inventory, if any.
    pub fn slot(&self, idx: u16) -> (r: Option<&ItemStack>)
        requires
            idx < PLAYER_INVENTORY_SLOTS,
        ensures
            match r {
                Some(st) => self.spec_slots()[idx as int] == slot_view(Some(*st)),
                None => self.spec_slots()[idx as int] is None,
            },
    {
        proof {
            use_type_invariant(self);
        }
        self.slots.slot(idx)
    }

    /// Puts `item` in slot `idx` of the player's own inventory and returns
    /// what was there; the slot is recorded as modified when that changes.
    pub fn replace_slot(&mut self, idx: u16, item: Slot) -> (prev: Slot)
        requires
            idx < PLAYER_INVENTORY_SLOTS,
        ensures
            slot_view(prev) == old(self).spec_slots()[idx as int],
            final(self).spec_slots() == old(self).spec_slots().update(idx as int, slot_view(item)),
            final(self).spec_modified() == (if slot_view(item) != old(self).spec_slots()[idx as int] {
                old(self).spec_modified() | (1u64 << idx)
            } else {
                old(self).spec_modified()
            }),
            final(self).spec_state_id() == old(self).spec_state_id(),
            final(self).spec_cursor_item() == old(self).spec_cursor_item(),
            final(self).spec_cursor_item_modified() == old(self).spec_cursor_item_modified(),
            final(self).spec_open_inventory() == old(self).spec_open_inventory(),
            final(self).spec_open_inventory_modified() == old(self).spec_open_inventory_modified(),
            final(self).spec_window_id() == old(self).spec_window_id(),
    {
        proof {
            use_type_invariant(&*self);
        }
        self.slots.replace_slot(idx, item)
    }

    /// The stack on the cursor, if any.
    pub fn cursor_item(&self) -> (r: Option<&ItemStack>)
        ensures
            match r {
                Some(st) => self.spec_cursor_item() == slot_view(Some(*st)),
                None => self.spec_cursor_item() is None,
            },
    {
        match &self.cursor_item {
            Some(s) => Some(s),
            None => None,
        }
    }

    /// Puts `item` on the cursor and returns what was there. Only an item
    /// equal to the one on the cursor can be put there: informing the client
    /// of another is not supported.
    pub fn replace_cursor_item(&mut self, item: Slot) -> (prev: Slot)
        requires
            slot_view(item) == old(self).spec_cursor_item(),
        ensures
            slot_view(prev) == old(self).spec_cursor_item(),
            final(self).spec_cursor_item() == old(self).spec_cursor_item(),
            final(self).spec_slots() == old(self).spec_slots(),
            final(self).spec_modified() == old(self).spec_modified(),
            final(self).spec_state_id() == old(self).spec_state_id(),
            final(self).spec_cursor_item_modified() == old(self).spec_cursor_item_modified(),
            final(self).spec_open_inventory() == old(self).spec_open_inventory(),
            final(self).spec_open_inventory_modified() == old(self).spec_open_inventory_modified(),
            final(self).spec_window_id() == old(self).spec_window_id(),
    {
        proof {
            use_type_invariant(&*self);
        }
        let mut item = item;
        std::mem::swap(&mut self.cursor_item, &mut item);
        item
    }

    /// The inventory the client has open.
    pub fn open_inventory(&self) -> (id: InventoryId)
        ensures
            id == self.spec_open_inventory(),
    {
        self.open_inventory
    }

    /// Opens inventory `id` for the client; a change is recorded for the
    /// next update.
    pub fn set_open_inventory(&mut self, id: InventoryId)
        ensures
            final(self).spec_open_inventory() == id,
            final(self).spec_open_inventory_modified() == (old(self).spec_open_inventory_modified()
                || old(self).spec_open_inventory() != id),
            final(self).spec_slots() == old(self).spec_slots(),
            final(self).spec_modified() == old(self).spec_modified(),
            final(self).spec_state_id() == old(self).spec_state_id(),
            final(self).spec_cursor_item() == old(self).spec_cursor_item(),
            final(self).spec_cursor_item_modified() == old(self).spec_cursor_item_modified(),
            final(self).spec_window_id() == old(self).spec_window_id(),
    {
        proof {
            use_type_invariant(&*self);
        }
        if self.open_inventory != id {
            self.open_inventory_modified = true;
            self.open_inventory = id;
        }
    }

    /// The state ID last sent.
    pub fn state_id(&self) -> (s: i32)
        ensures
            s == self.spec_state_id(),
    {
        self.state_id
    }

    /// The ID of the window last opened.
    pub fn window_id(&self) -> (w: u8)
        ensures
            w == self.spec_window_id(),
    {
        self.window_id
    }

    /// The updates of the player's own slots, one per modified slot in
    /// order of slot, each sent with the state ID before it is raised.
    fn own_slot_packets(&mut self, out: &mut Vec<InventoryPacket>)
        requires
            old(self).spec_modified() != 0,
        ensures
            final(out)@ == old(out)@ + own_slot_updates(
                old(self).spec_state_id(),
                set_bits_below(old(self).spec_modified(), PLAYER_INVENTORY_SLOTS as nat),
            ),
            final(self).spec_state_id() == wrap_i32(
                old(self).spec_state_id() + set_bits_below(
                    old(self).spec_modified(),
                    PLAYER_INVENTORY_SLOTS as nat,
                ).len(),
            ),
            final(self).spec_slots() == old(self).spec_slots(),
            final(self).spec_modified() == old(self).spec_modified(),
            final(self).spec_cursor_item() == old(self).spec_cursor_item(),
            final(self).spec_cursor_item_modified() == old(self).spec_cursor_item_modified(),
            final(self).spec_open_inventory() == old(self).spec_open_inventory(),
            final(self).spec_open_inventory_modified() == old(self).spec_open_inventory_modified(),
            final(self).spec_window_id() == old(self).spec_window_id(),
    {
        proof {
            use_type_invariant(&*self);
        }
        let m = self.slots.modified();
        let s0 = self.state_id;
        let ghost out0 = out@;
        proof {
            lemma_wrap_i32_id(s0);
        }
        let mut idx: u16 = 0;
        while idx < PLAYER_INVENTORY_SLOTS
            invariant
                0 <= idx <= PLAYER_INVENTORY_SLOTS,
                m == self.slots.spec_modified(),
                out@ == out0 + own_slot_updates(s0, set_bits_below(m, idx as nat)),
                self.state_id == wrap_i32(s0 + set_bits_below(m, idx as nat).len()),
                self.slots == old(self).slots,
                self.slots.spec_slots().len() == PLAYER_INVENTORY_SLOTS,
                self.cursor_item == old(self).cursor_item,
                self.cursor_item_modified == old(self).cursor_item_modified,
                self.open_inventory == old(self).open_inventory,
                self.open_inventory_modified == old(self).open_inventory_modified,
                self.window_id == old(self).window_id,
            decreases PLAYER_INVENTORY_SLOTS - idx,
        {
            let ghost prev = set_bits_below(m, idx as nat);
            if (m >> idx as u64) & 1 == 1 {
                out.push(
                    InventoryPacket::SetSlot(
                        SlotUpdate { window_id: 0, state_id: self.state_id, slot_idx: idx as i16 },
                    ),
                );
                proof {
                    lemma_wrap_i32_step(s0 + prev.len());
                }
                self.state_id = self.state_id.wrapping_add(1);
                proof {
                    assert(set_bits_below(m, (idx + 1) as nat) == prev.push(idx));
                    assert(out@ =~= out0 + own_slot_updates(s0, set_bits_below(m, (idx + 1) as nat)));
                }
            } else {
                proof {
                    assert(set_bits_below(m, (idx + 1) as nat) == prev);
                }
            }
            idx = idx + 1;
        }
    }

    /// The updates of the player's own inventory, see
    /// [`own_inventory_update`]; the changes are forgotten.
    fn update_own(&mut self, created_this_tick: bool) -> (out: Vec<InventoryPacket>)
        ensures
            ({
                let r = own_inventory_update(
                    old(self).spec_modified(),
                    old(self).spec_state_id(),
                    old(self).spec_cursor_item_modified(),
                    created_this_tick,
                );
                &&& out@ == r.0
                &&& final(self).spec_state_id() == r.1
            }),
            final(self).spec_modified() == 0,
            !final(self).spec_cursor_item_modified(),
            final(self).spec_slots() == old(self).spec_slots(),
            final(self).spec_cursor_item() == old(self).spec_cursor_item(),
            final(self).spec_open_inventory() == old(self).spec_open_inventory(),
            final(self).spec_open_inventory_modified() == old(self).spec_open_inventory_modified(),
            final(self).spec_window_id() == old(self).spec_window_id(),
    {
        proof {
            use_type_invariant(&*self);
        }
        let mut out: Vec<InventoryPacket> = Vec::new();
        let m = self.slots.modified();
        if m != 0 {
            if created_this_tick || (m == u64::MAX && self.cursor_item_modified) {
                out.push(InventoryPacket::SetContents { window_id: 0, state_id: self.state_id });
                proof {
                    lemma_wrap_i32_step(self.state_id as int);
                    lemma_wrap_i32_id(self.state_id);
                }
                self.state_id = self.state_id.wrapping_add(1);
                self.cursor_item_modified = false;
            } else {
                self.own_slot_packets(&mut out);
                proof {
                    assert(out@ =~= own_slot_updates(
                        old(self).spec_state_id(),
                        set_bits_below(m, PLAYER_INVENTORY_SLOTS as nat),
                    ));
                }
            }
            self.slots.clear_modified();
        }
        if self.cursor_item_modified {
            self.cursor_item_modified = false;
            out.push(
                InventoryPacket::SetSlot(
                    SlotUpdate { window_id: -1, state_id: self.state_id, slot_idx: -1 },
                ),
            );
            proof {
                lemma_wrap_i32_step(self.state_id as int);
                lemma_wrap_i32_id(self.state_id);
            }
            self.state_id = self.state_id.wrapping_add(1);
        }
        out
    }

    /// The updates of the inventory the client has open, see
    /// [`open_inventory_update`], appended to `out`.
    fn update_open(&mut self, open: Option<&InventorySlots>, out: &mut Vec<InventoryPacket>)
        requires
            open matches Some(inv) ==> (inv.spec_modified() == 0 || inv.spec_slots().len() <= 64),
        ensures
            ({
                let r = open_inventory_update(
                    old(self).spec_state_id(),
                    old(self).spec_open_inventory_modified(),
                    old(self).spec_window_id(),
                    match open {
                        Some(inv) => Some((inv.spec_modified(), inv.spec_slots().len())),
                        None => None,
                    },
                );
                &&& final(out)@ == old(out)@ + r.0
                &&& final(self).spec_state_id() == r.1
                &&& final(self).spec_window_id() == r.2
            }),
            !final(self).spec_open_inventory_modified(),
            final(self).spec_modified() == old(self).spec_modified(),
            final(self).spec_cursor_item_modified() == old(self).spec_cursor_item_modified(),
            final(self).spec_slots() == old(self).spec_slots(),
            final(self).spec_cursor_item() == old(self).spec_cursor_item(),
            final(self).spec_open_inventory() == old(self).spec_open_inventory(),
    {
        proof {
            use_type_invariant(&*self);
        }
        let ghost out0 = out@;
        if self.open_inventory_modified {
            self.open_inventory_modified = false;
            if open.is_some() {
                self.window_id = self.window_id % 100 + 1;
                proof {
                    lemma_wrap_i32_step(self.state_id as int);
                    lemma_wrap_i32_id(self.state_id);
                }
                self.state_id = self.state_id.wrapping_add(1);
                out.push(InventoryPacket::OpenScreen { window_id: self.window_id });
                out.push(InventoryPacket::SetContents { window_id: self.window_id, state_id: self.state_id });
                proof {
                    assert(out@ =~= out0 + seq![
                        InventoryPacket::OpenScreen { window_id: self.window_id },
                        InventoryPacket::SetContents { window_id: self.window_id, state_id: self.state_id },
                    ]);
                }
            } else {
                proof {
                    assert(out@ =~= out0 + Seq::<InventoryPacket>::empty());
                }
            }
        } else {
            match open {
                Some(inv) => {
                    let (ups, s) = inv.update_packets(self.window_id, self.state_id);
                    let mut i: usize = 0;
                    while i < ups.len()
                        invariant
                            0 <= i <= ups@.len(),
                            out@ == out0 + ups@.take(i as int).map_values(
                                |u: SlotUpdate| InventoryPacket::SetSlot(u),
                            ),
                        decreases ups@.len() - i,
                    {
                        out.push(InventoryPacket::SetSlot(ups[i]));
                        proof {
                            assert(ups@.take(i + 1) =~= ups@.take(i as int).push(ups@[i as int]));
                        }
                        i = i + 1;
                        proof {
                            assert(out@ =~= out0 + ups@.take(i as int).map_values(
                                |u: SlotUpdate| InventoryPacket::SetSlot(u),
                            ));
                        }
                    }
                    proof {
                        assert(ups@.take(ups@.len() as int) =~= ups@);
                    }
                    self.state_id = s;
                },
                None => {
                    proof {
                        assert(out@ =~= out0 + Seq::<InventoryPacket>::empty());
                    }
                },
            }
        }
    }

    /// Sends what changed since the last update and forgets the changes:
    /// first the player's own inventory, see [`own_inventory_update`], then
    /// the inventory the client has open, see [`open_inventory_update`].
    /// `created_this_tick` tells whether the client joined this tick; `open`
    /// is the inventory the client has open, if it exists.
    pub fn update(&mut self, created_this_tick: bool, open: Option<&InventorySlots>) -> (packets: Vec<
        InventoryPacket,
    >)
        requires
            open matches Some(inv) ==> (inv.spec_modified() == 0 || inv.spec_slots().len() <= 64),
        ensures
            ({
                let own = own_inventory_update(
                    old(self).spec_modified(),
                    old(self).spec_state_id(),
                    old(self).spec_cursor_item_modified(),
                    created_this_tick,
                );
                let opened = open_inventory_update(
                    own.1,
                    old(self).spec_open_inventory_modified(),
                    old(self).spec_window_id(),
                    match open {
                        Some(inv) => Some((inv.spec_modified(), inv.spec_slots().len())),
                        None => None,
                    },
                );
                &&& packets@ == own.0 + opened.0
                &&& final(self).spec_state_id() == opened.1
                &&& final(self).spec_window_id() == opened.2
            }),
            final(self).spec_modified() == 0,
            !final(self).spec_cursor_item_modified(),
            !final(self).spec_open_inventory_modified(),
            final(self).spec_slots() == old(self).spec_slots(),
            final(self).spec_cursor_item() == old(self).spec_cursor_item(),
            final(self).spec_open_inventory() == old(self).spec_open_inventory(),
    {
        let mut out = self.update_own(created_this_tick);
        self.update_open(open, &mut out);
        out
    }
}

/// An update after which nothing changed sends nothing more: nothing about
/// the player's own inventory, nothing about an open inventory none of whose
/// slots changed, and the state ID and the window stay as they are.
pub proof fn quiet_update_law(state_id: i32, window_id: u8, created_this_tick: bool, n: nat)
    ensures
        own_inventory_update(0, state_id, false, created_this_tick) == (
            Seq::<InventoryPacket>::empty(),
            state_id,
        ),
        open_inventory_update(state_id, false, window_id, Some((0u64, n))) == (
            Seq::<InventoryPacket>::empty(),
            state_id,
            window_id,
        ),
{
    lemma_no_bits_set(0, n);
    lemma_wrap_i32_id(state_id);
    assert(slot_updates(window_id as i8, state_id, Seq::<u16>::empty()).map_values(
        |u: SlotUpdate| InventoryPacket::SetSlot(u),
    ) =~= Seq::<InventoryPacket>::empty());
}

} // verus!
