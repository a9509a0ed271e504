//! The device assignment table: a mapping from player identifier to at most
//! one input device, kept injective — no two players ever hold the same
//! device. Assigning a device first evicts its current holder.

use vstd::prelude::*;
use crate::device::InputDevice;

verus! {

/// Whether some entry of `s` carries the key `k`.
pub open spec fn seq_has_key(s: Seq<(u32, InputDevice)>, k: u32) -> bool {
    exists|i: int| 0 <= i < s.len() && s[i].0 == k
}

/// The device carried by the entry with key `k` (meaningful when the keys are
/// distinct and `k` is present).
pub open spec fn entry_value(s: Seq<(u32, InputDevice)>, k: u32) -> InputDevice {
    let i = choose|i: int| 0 <= i < s.len() && s[i].0 == k;
    s[i].1
}

/// Entry keys are pairwise distinct.
pub open spec fn distinct_keys(s: Seq<(u32, InputDevice)>) -> bool {
    forall|i: int, j: int| 0 <= i < j < s.len() ==> s[i].0 != s[j].0
}

/// Entry devices are pairwise distinct.
pub open spec fn distinct_devices(s: Seq<(u32, InputDevice)>) -> bool {
    forall|i: int, j: int| 0 <= i < j < s.len() ==> s[i].1 != s[j].1
}

/// The finite map described by a sequence of (player, device) entries.
pub open spec fn map_of(s: Seq<(u32, InputDevice)>) -> Map<u32, InputDevice> {
    Map::new(|k: u32| seq_has_key(s, k), |k: u32| entry_value(s, k))
}

/// With distinct keys, the entry at index `i` gives its key's value.
proof fn lemma_entry_value(s: Seq<(u32, InputDevice)>, i: int)
    requires
        distinct_keys(s),
        0 <= i < s.len(),
    ensures
        map_of(s).dom().contains(s[i].0),
        map_of(s)[s[i].0] == s[i].1,
{
    assert(seq_has_key(s, s[i].0));
    let j = choose|j: int| 0 <= j < s.len() && s[j].0 == s[i].0;
    assert(j == i);
}

/// The table after `assign(player_id, device)`: whoever held the device loses
/// it, then `player_id` maps to `device`.
pub open spec fn spec_assign(m: Map<u32, InputDevice>, player_id: u32, device: InputDevice) -> Map<
    u32,
    InputDevice,
> {
    Map::new(
        |q: u32| q == player_id || (m.dom().contains(q) && m[q] != device),
        |q: u32| if q == player_id { device } else { m[q] },
    )
}

/// Whether any player holds `device` in `m`.
pub open spec fn spec_holds_device(m: Map<u32, InputDevice>, device: InputDevice) -> bool {
    exists|p: u32| m.dom().contains(p) && m[p] == device
}

/// Injectivity of a table: no two distinct players hold the same device.
pub open spec fn spec_injective(m: Map<u32, InputDevice>) -> bool {
    forall|p1: u32, p2: u32|
        p1 != p2 && #[trigger] m.dom().contains(p1) && #[trigger] m.dom().contains(p2)
            ==> m[p1] != m[p2]
}

/// The assign transition preserves injectivity: eviction before insertion
/// keeps every device with at most one holder.
pub proof fn lemma_assign_preserves_injective(
    m: Map<u32, InputDevice>,
    player_id: u32,
    device: InputDevice,
)
    requires
        spec_injective(m),
    ensures
        spec_injective(spec_assign(m, player_id, device)),
{
}

/// The unassign transition preserves injectivity.
pub proof fn lemma_remove_preserves_injective(m: Map<u32, InputDevice>, player_id: u32)
    requires
        spec_injective(m),
    ensures
        spec_injective(m.remove(player_id)),
{
}

/// The table of device assignments: which player holds which device.
///
/// Invariant (`wf`): the mapping is injective — no two players hold the same
/// device. Every constructor establishes it and every mutation preserves it,
/// so it holds after any sequence of `assign_device` / `unassign_player`
/// calls.
pub struct InputDeviceAssignment {
    entries: Vec<(u32, InputDevice)>,
    pub max_players: u32,
}

impl View for InputDeviceAssignment {
    type V = Map<u32, InputDevice>;

    closed spec fn view(&self) -> Map<u32, InputDevice> {
        map_of(self.entries@)
    }
}

/// Whether `e` survives filtering out an optional key and an optional device.
spec fn keeps(e: (u32, InputDevice), p: Option<u32>, d: Option<InputDevice>) -> bool {
    (match p {
        Some(pp) => e.0 != pp,
        None => true,
    }) && (match d {
        Some(dd) => e.1 != dd,
        None => true,
    })
}

/// The entries with a given key or a given device dropped.
fn filtered(
    entries: &Vec<(u32, InputDevice)>,
    p: Option<u32>,
    d: Option<InputDevice>,
) -> (r: Vec<(u32, InputDevice)>)
    requires
        distinct_keys(entries@),
        distinct_devices(entries@),
    ensures
        distinct_keys(r@),
        distinct_devices(r@),
        forall|a: int|
            0 <= a < r@.len() ==> #[trigger] keeps(r@[a], p, d) && exists|b: int|
                0 <= b < entries@.len() && entries@[b] == r@[a],
        forall|b: int|
            0 <= b < entries@.len() && #[trigger] keeps(entries@[b], p, d) ==> exists|a: int|
                0 <= a < r@.len() && r@[a] == entries@[b],
{
    let mut kept: Vec<(u32, InputDevice)> = Vec::new();
    let mut i: usize = 0;
    while i < entries.len()
        invariant
            i <= entries@.len(),
            distinct_keys(entries@),
            distinct_devices(entries@),
            distinct_keys(kept@),
            distinct_devices(kept@),
            forall|a: int|
                0 <= a < kept@.len() ==> keeps(#[trigger] kept@[a], p, d) && exists|b: int|
                    0 <= b < i && entries@[b] == kept@[a],
            forall|b: int|
                0 <= b < i && keeps(#[trigger] entries@[b], p, d) ==> exists|a: int|
                    0 <= a < kept@.len() && kept@[a] == entries@[b],
        decreases entries@.len() - i,
    {
        let e = entries[i];
        let ghost pre = kept@;
        let keep = (match p {
            Some(pp) => e.0 != pp,
            None => true,
        }) && (match d {
            Some(dd) => !(e.1 == dd),
            None => true,
        });
        if keep {
            proof {
                assert forall|a: int| 0 <= a < kept@.len() implies kept@[a].0 != e.0 && kept@[a].1
                    != e.1 by {
                    assert(keeps(kept@[a], p, d));
                    let b = choose|b: int| 0 <= b < i && entries@[b] == kept@[a];
                    assert(entries@[b].0 != entries@[i as int].0);
                    assert(entries@[b].1 != entries@[i as int].1);
                }
            }
            kept.push(e);
        }
        let ghost i_prev = i as int;
        i = i + 1;
        proof {
            assert forall|a: int| 0 <= a < kept@.len() implies keeps(#[trigger] kept@[a], p, d)
                && exists|b: int| 0 <= b < i && entries@[b] == kept@[a] by {
                if a < pre.len() {
                    assert(kept@[a] == pre[a]);
                    assert(keeps(pre[a], p, d));
                    let b = choose|b: int| 0 <= b < i_prev && entries@[b] == pre[a];
                    assert(0 <= b < i && entries@[b] == kept@[a]);
                } else {
                    assert(kept@[a] == e);
                    assert(keeps(e, p, d));
                    assert(0 <= i_prev < i && entries@[i_prev] == kept@[a]);
                }
            }
            assert forall|b: int|
                0 <= b < i && keeps(#[trigger] entries@[b], p, d) implies exists|a: int|
                    0 <= a < kept@.len() && kept@[a] == entries@[b] by {
                if b < i_prev {
                    let a = choose|a: int| 0 <= a < pre.len() && pre[a] == entries@[b];
                    assert(kept@[a] == entries@[b]);
                } else {
                    assert(keep);
                    assert(kept@[kept@.len() - 1] == entries@[b]);
                }
            }
        }
    }
    proof {
        assert forall|a: int| 0 <= a < kept@.len() implies #[trigger] keeps(kept@[a], p, d)
            && exists|b: int| 0 <= b < entries@.len() && entries@[b] == kept@[a] by {
            assert(keeps(kept@[a], p, d));
            let b = choose|b: int| 0 <= b < i && entries@[b] == kept@[a];
            assert(0 <= b < entries@.len() && entries@[b] == kept@[a]);
        }
    }
    kept
}

impl InputDeviceAssignment {
    /// The injectivity invariant, maintained by every public operation.
    pub closed spec fn wf(&self) -> bool {
        distinct_keys(self.entries@) && distinct_devices(self.entries@)
    }

    /// The configured player limit.
    pub closed spec fn spec_max_players(&self) -> u32 {
        self.max_players
    }

    /// The configured player limit.
    pub fn get_max_players(&self) -> (r: u32)
        ensures
            r == self.spec_max_players(),
    {
        self.max_players
    }

    /// An empty table for up to `max_players` players.
    pub fn new(max_players: u32) -> (r: Self)
        ensures
            r@ == Map::<u32, InputDevice>::empty(),
            r.spec_max_players() == max_players,
            r.wf(),
    {
        let r = InputDeviceAssignment { entries: Vec::new(), max_players };
        proof {
            assert(r@ =~= Map::<u32, InputDevice>::empty());
        }
        r
    }

    /// Whether no player is assigned any device.
    pub fn is_empty(&self) -> (r: bool)
        ensures
            r == (self@ == Map::<u32, InputDevice>::empty()),
    {
        if self.entries.len() == 0 {
            proof {
                assert(self@ =~= Map::<u32, InputDevice>::empty());
            }
            true
        } else {
            proof {
                assert(seq_has_key(self.entries@, self.entries@[0].0));
                assert(self@.dom().contains(self.entries@[0].0));
            }
            false
        }
    }

    /// Assign a device to a player. The device is first removed from whichever
    /// player currently holds it, so the table stays injective; the new
    /// binding always takes effect (last writer wins).
    pub fn assign_device(&mut self, player_id: u32, device: InputDevice)
        requires
            old(self).wf(),
        ensures
            final(self).wf(),
            final(self)@ == spec_assign(old(self)@, player_id, device),
            final(self).spec_max_players() == old(self).spec_max_players(),
    {
        let ghost s_old = self.entries@;
        let mut kept = filtered(&self.entries, Some(player_id), Some(device));
        proof {
            assert forall|a: int| 0 <= a < kept@.len() implies kept@[a].0 != player_id && kept@[a].1
                != device by {
                assert(keeps(kept@[a], Some(player_id), Some(device)));
            }
        }
        let ghost k_pre = kept@;
        kept.push((player_id, device));
        self.entries = kept;
        proof {
            let s_new = self.entries@;
            assert(s_new.drop_last() =~= k_pre);
            assert forall|a: int| 0 <= a < s_new.len() - 1 implies #[trigger] keeps(
                s_new[a],
                Some(player_id),
                Some(device),
            ) && exists|b: int| 0 <= b < s_old.len() && s_old[b] == s_new[a] by {
                assert(s_new[a] == k_pre[a]);
                assert(keeps(k_pre[a], Some(player_id), Some(device)));
                let b = choose|b: int| 0 <= b < s_old.len() && s_old[b] == k_pre[a];
                assert(0 <= b < s_old.len() && s_old[b] == s_new[a]);
            }
            assert forall|a: int| 0 <= a < s_new.len() - 1 implies s_new[a].0 != player_id
                && s_new[a].1 != device by {
                assert(s_new[a] == k_pre[a]);
            }
            assert forall|b: int|
                0 <= b < s_old.len() && #[trigger] keeps(s_old[b], Some(player_id), Some(device))
                    implies exists|a: int| 0 <= a < s_new.len() - 1 && s_new[a] == s_old[b] by {
                let a = choose|a: int| 0 <= a < k_pre.len() && k_pre[a] == s_old[b];
                assert(s_new[a] == s_old[b]);
            }
            lemma_filtered_assign(s_old, s_new, player_id, device);
        }
    }

    /// Remove any device assignment from a player. A no-op when the player
    /// holds nothing.
    pub fn unassign_player(&mut self, player_id: u32)
        requires
            old(self).wf(),
        ensures
            final(self).wf(),
            final(self)@ == old(self)@.remove(player_id),
            final(self).spec_max_players() == old(self).spec_max_players(),
    {
        let ghost s_old = self.entries@;
        let kept = filtered(&self.entries, Some(player_id), None);
        self.entries = kept;
        proof {
            let s_new = self.entries@;
            assert forall|k: u32| #[trigger] map_of(s_new).dom().contains(k)
                <==> map_of(s_old).remove(player_id).dom().contains(k) by {
                if seq_has_key(s_new, k) {
                    let a = choose|a: int| 0 <= a < s_new.len() && s_new[a].0 == k;
                    assert(keeps(s_new[a], Some(player_id), None));
                    let b = choose|b: int| 0 <= b < s_old.len() && s_old[b] == s_new[a];
                    assert(seq_has_key(s_old, k));
                }
                if k != player_id && seq_has_key(s_old, k) {
                    let b = choose|b: int| 0 <= b < s_old.len() && s_old[b].0 == k;
                    assert(keeps(s_old[b], Some(player_id), None));
                    let a = choose|a: int| 0 <= a < s_new.len() && s_new[a] == s_old[b];
                    assert(seq_has_key(s_new, k));
                }
            }
            assert forall|k: u32| map_of(s_new).dom().contains(k) implies #[trigger] map_of(
                s_new,
            )[k] == map_of(s_old).remove(player_id)[k] by {
                let a = choose|a: int| 0 <= a < s_new.len() && s_new[a].0 == k;
                lemma_entry_value(s_new, a);
                assert(keeps(s_new[a], Some(player_id), None));
                let b = choose|b: int| 0 <= b < s_old.len() && s_old[b] == s_new[a];
                lemma_entry_value(s_old, b);
            }
            assert(map_of(s_new) =~= map_of(s_old).remove(player_id));
        }
    }

    /// The device assigned to a player, if any.
    pub fn get_device_for_player(&self, player_id: u32) -> (r: Option<InputDevice>)
        requires
            self.wf(),
        ensures
            match r {
                Some(d) => self@.dom().contains(player_id) && self@[player_id] == d,
                None => !self@.dom().contains(player_id),
            },
    {
        let mut i: usize = 0;
        while i < self.entries.len()
            invariant
                i <= self.entries@.len(),
                self.wf(),
                forall|b: int| 0 <= b < i ==> self.entries@[b].0 != player_id,
            decreases self.entries@.len() - i,
        {
            if self.entries[i].0 == player_id {
                proof {
                    lemma_entry_value(self.entries@, i as int);
                }
                return Some(self.entries[i].1);
            }
            i = i + 1;
        }
        proof {
            assert(!seq_has_key(self.entries@, player_id));
        }
        None
    }

    /// Whether some player holds the device.
    pub fn is_device_assigned(&self, device: &InputDevice) -> (r: bool)
        requires
            self.wf(),
        ensures
            r == spec_holds_device(self@, *device),
    {
        let mut i: usize = 0;
        while i < self.entries.len()
            invariant
                i <= self.entries@.len(),
                self.wf(),
                forall|b: int| 0 <= b < i ==> self.entries@[b].1 != *device,
            decreases self.entries@.len() - i,
        {
            if self.entries[i].1 == *device {
                proof {
                    lemma_entry_value(self.entries@, i as int);
                }
                return true;
            }
            i = i + 1;
        }
        proof {
            if spec_holds_device(self@, *device) {
                let p = choose|p: u32| self@.dom().contains(p) && self@[p] == *device;
                let b = choose|b: int|
                    0 <= b < self.entries@.len() && self.entries@[b].0 == p;
                lemma_entry_value(self.entries@, b);
            }
        }
        false
    }

    /// The player holding the device, if any.
    pub fn get_player_for_device(&self, device: &InputDevice) -> (r: Option<u32>)
        requires
            self.wf(),
        ensures
            match r {
                Some(p) => self@.dom().contains(p) && self@[p] == *device,
                None => !spec_holds_device(self@, *device),
            },
    {
        let mut i: usize = 0;
        while i < self.entries.len()
            invariant
                i <= self.entries@.len(),
                self.wf(),
                forall|b: int| 0 <= b < i ==> self.entries@[b].1 != *device,
            decreases self.entries@.len() - i,
        {
            if self.entries[i].1 == *device {
                proof {
                    lemma_entry_value(self.entries@, i as int);
                }
                return Some(self.entries[i].0);
            }
            i = i + 1;
        }
        proof {
            if spec_holds_device(self@, *device) {
                let p = choose|p: u32| self@.dom().contains(p) && self@[p] == *device;
                let b = choose|b: int|
                    0 <= b < self.entries@.len() && self.entries@[b].0 == p;
                lemma_entry_value(self.entries@, b);
            }
        }
        None
    }

    /// Remove every assignment.
    pub fn clear(&mut self)
        ensures
            final(self).wf(),
            final(self)@ == Map::<u32, InputDevice>::empty(),
            final(self).spec_max_players() == old(self).spec_max_players(),
    {
        self.entries = Vec::new();
        proof {
            assert(self@ =~= Map::<u32, InputDevice>::empty());
        }
    }

    /// The players that currently hold a device, each once.
    pub fn get_assigned_players(&self) -> (r: Vec<u32>)
        requires
            self.wf(),
        ensures
            forall|p: u32| r@.contains(p) <==> self@.dom().contains(p),
            forall|i: int, j: int| 0 <= i < j < r@.len() ==> r@[i] != r@[j],
    {
        let mut players: Vec<u32> = Vec::new();
        let mut i: usize = 0;
        while i < self.entries.len()
            invariant
                i <= self.entries@.len(),
                self.wf(),
                players@.len() == i,
                forall|b: int| 0 <= b < i ==> players@[b] == self.entries@[b].0,
            decreases self.entries@.len() - i,
        {
            players.push(self.entries[i].0);
            i = i + 1;
        }
        proof {
            assert forall|p: u32| players@.contains(p) implies self@.dom().contains(p) by {
                let a = choose|a: int| 0 <= a < players@.len() && players@[a] == p;
                assert(seq_has_key(self.entries@, p));
            }
            assert forall|p: u32| self@.dom().contains(p) implies players@.contains(p) by {
                let b = choose|b: int|
                    0 <= b < self.entries@.len() && self.entries@[b].0 == p;
                assert(players@[b] == p);
            }
        }
        players
    }
}

impl Default for InputDeviceAssignment {
    /// An empty table with no player slots.
    fn default() -> (r: Self)
        ensures
            r@ == Map::<u32, InputDevice>::empty(),
            r.spec_max_players() == 0,
            r.wf(),
    {
        InputDeviceAssignment::new(0)
    }
}

/// The filtered-and-pushed entries describe exactly the evict-then-assign map.
proof fn lemma_filtered_assign(
    s_old: Seq<(u32, InputDevice)>,
    s_new: Seq<(u32, InputDevice)>,
    player_id: u32,
    device: InputDevice,
)
    requires
        distinct_keys(s_old),
        distinct_devices(s_old),
        s_new.len() > 0,
        s_new.last() == (player_id, device),
        distinct_keys(s_new.drop_last()),
        distinct_devices(s_new.drop_last()),
        forall|a: int|
            0 <= a < s_new.len() - 1 ==> s_new[a].0 != player_id && s_new[a].1 != device,
        forall|a: int|
            0 <= a < s_new.len() - 1 ==> #[trigger] keeps(
                s_new[a],
                Some(player_id),
                Some(device),
            ) && exists|b: int| 0 <= b < s_old.len() && s_old[b] == s_new[a],
        forall|b: int|
            0 <= b < s_old.len() && #[trigger] keeps(s_old[b], Some(player_id), Some(device))
                ==> exists|a: int| 0 <= a < s_new.len() - 1 && s_new[a] == s_old[b],
    ensures
        distinct_keys(s_new),
        distinct_devices(s_new),
        map_of(s_new) == spec_assign(map_of(s_old), player_id, device),
{
    let m_old = map_of(s_old);
    let m_goal = spec_assign(m_old, player_id, device);
    assert(distinct_keys(s_new)) by {
        assert forall|i: int, j: int| 0 <= i < j < s_new.len() implies s_new[i].0 != s_new[j].0 by {
            if j == s_new.len() - 1 {
                assert(s_new[i].0 != player_id);
            } else {
                assert(s_new.drop_last()[i] == s_new[i]);
                assert(s_new.drop_last()[j] == s_new[j]);
            }
        }
    }
    assert(distinct_devices(s_new)) by {
        assert forall|i: int, j: int| 0 <= i < j < s_new.len() implies s_new[i].1 != s_new[j].1 by {
            if j == s_new.len() - 1 {
                assert(s_new[i].1 != device);
            } else {
                assert(s_new.drop_last()[i] == s_new[i]);
                assert(s_new.drop_last()[j] == s_new[j]);
            }
        }
    }
    assert forall|k: u32| #[trigger] map_of(s_new).dom().contains(k) <==> m_goal.dom().contains(
        k,
    ) by {
        if seq_has_key(s_new, k) {
            let a = choose|a: int| 0 <= a < s_new.len() && s_new[a].0 == k;
            if a < s_new.len() - 1 {
                assert(keeps(s_new[a], Some(player_id), Some(device)));
                let b = choose|b: int| 0 <= b < s_old.len() && s_old[b] == s_new[a];
                assert(seq_has_key(s_old, k));
                lemma_entry_value(s_old, b);
                assert(m_old[k] == s_old[b].1);
                assert(m_old[k] != device);
            }
        }
        if k == player_id {
            assert(s_new[s_new.len() - 1].0 == k);
            assert(seq_has_key(s_new, k));
        } else if m_old.dom().contains(k) && m_old[k] != device {
            let b = choose|b: int| 0 <= b < s_old.len() && s_old[b].0 == k;
            lemma_entry_value(s_old, b);
            assert(keeps(s_old[b], Some(player_id), Some(device)));
            let a = choose|a: int| 0 <= a < s_new.len() - 1 && s_new[a] == s_old[b];
            assert(seq_has_key(s_new, k));
        }
    }
    assert forall|k: u32| map_of(s_new).dom().contains(k) implies #[trigger] map_of(s_new)[k]
        == m_goal[k] by {
        if k == player_id {
            lemma_entry_value(s_new, s_new.len() - 1);
        } else {
            let a = choose|a: int| 0 <= a < s_new.len() && s_new[a].0 == k;
            assert(a < s_new.len() - 1);
            lemma_entry_value(s_new, a);
            assert(keeps(s_new[a], Some(player_id), Some(device)));
            let b = choose|b: int| 0 <= b < s_old.len() && s_old[b] == s_new[a];
            lemma_entry_value(s_old, b);
        }
    }
    assert(map_of(s_new) =~= m_goal);
}

/// Injectivity: in a well-formed table no two distinct players hold the same
/// device. Every constructor of `InputDeviceAssignment` establishes `wf` and
/// every mutating method preserves it, so this holds at every point of any
/// sequence of `assign_device` / `unassign_player` / `clear` calls.
pub proof fn lemma_assignment_injective(t: &InputDeviceAssignment)
    requires
        t.wf(),
    ensures
        spec_injective(t@),
{
    assert forall|p1: u32, p2: u32|
        p1 != p2 && #[trigger] t@.dom().contains(p1) && #[trigger] t@.dom().contains(p2) implies
        t@[p1] != t@[p2] by {
        let s = t.entries@;
        let b1 = choose|b: int| 0 <= b < s.len() && s[b].0 == p1;
        let b2 = choose|b: int| 0 <= b < s.len() && s[b].0 == p2;
        lemma_entry_value(s, b1);
        lemma_entry_value(s, b2);
        assert(b1 != b2);
    }
}

/// Evict-then-assign: assigning device `d` to player `a` and then to a
/// different player `b` leaves `a` unassigned and `b` holding `d`.
pub proof fn lemma_evict_then_assign(m: Map<u32, InputDevice>, a: u32, b: u32, d: InputDevice)
    requires
        a != b,
    ensures
        !spec_assign(spec_assign(m, a, d), b, d).dom().contains(a),
        spec_assign(spec_assign(m, a, d), b, d).dom().contains(b),
        spec_assign(spec_assign(m, a, d), b, d)[b] == d,
{
    let m1 = spec_assign(m, a, d);
    assert(m1[a] == d);
}

} // verus!
