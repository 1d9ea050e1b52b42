//! Items, stacks, the slot inventory and the equipment loadout.
use vstd::prelude::*;

verus! {

/// Types of items in the game.
#[derive(Debug, Clone, Copy, PartialEq, Eq, Hash, Structural)]
pub enum ItemType {
    Weapon,
    Armor,
    Accessory,
    Consumable,
    QuestItem,
    Material,
}

/// Item rarity, from most to least common.
#[derive(Debug, Clone, Copy, PartialEq, Eq, PartialOrd, Ord, Structural)]
pub enum Rarity {
    Common,
    Uncommon,
    Rare,
    Epic,
    Legendary,
}

/// Equipment slot types.
#[derive(Debug, Clone, Copy, PartialEq, Eq, Hash, Structural)]
pub enum EquipSlot {
    Weapon,
    Helmet,
    Chest,
    Legs,
    Boots,
    Gloves,
    Ring1,
    Ring2,
    Amulet,
}

/// A unique item identifier.
#[derive(Debug, Clone, Copy, PartialEq, Eq, Hash, Structural)]
pub struct ItemId(pub u32);

/// A quantity of one item in an inventory slot.
#[derive(Debug, Clone, Copy, PartialEq, Eq, Structural)]
pub struct ItemStack {
    pub item_id: ItemId,
    pub quantity: u32,
}

impl ItemStack {
    pub fn new(item_id: ItemId, quantity: u32) -> (r: Self)
        ensures
            r.item_id == item_id,
            r.quantity == quantity,
    {
        ItemStack { item_id, quantity }
    }

    pub fn single(item_id: ItemId) -> (r: Self)
        ensures
            r.item_id == item_id,
            r.quantity == 1,
    {
        Self::new(item_id, 1)
    }
}

/// What one slot adds to the count of item `id`.
pub open spec fn slot_count(slot: Option<ItemStack>, id: ItemId) -> nat {
    match slot {
        Some(s) => if s.item_id == id { s.quantity as nat } else { 0 },
        None => 0,
    }
}

/// Total quantity of item `id` over the slots.
pub open spec fn count_spec(items: Seq<Option<ItemStack>>, id: ItemId) -> nat
    decreases items.len(),
{
    if items.len() == 0 {
        0
    } else {
        count_spec(items.drop_last(), id) + slot_count(items.last(), id)
    }
}

/// Every stack of item `id` holds at most `max_stack`.
pub open spec fn stacks_within(items: Seq<Option<ItemStack>>, id: ItemId, max_stack: u32) -> bool {
    forall|i: int|
        0 <= i < items.len() && (#[trigger] items[i]) is Some && items[i]->0.item_id == id
            ==> items[i]->0.quantity <= max_stack
}

/// Tops up one slot holding item `id` with as much of `q` as fits.
pub open spec fn merge_step(slot: Option<ItemStack>, id: ItemId, max_stack: u32, q: nat) -> (Option<ItemStack>, nat) {
    match slot {
        Some(s) => if s.item_id == id {
            let space = max_stack - s.quantity;
            let add = if q < space { q } else { space as nat };
            (Some(ItemStack { item_id: id, quantity: (s.quantity + add) as u32 }), (q - add) as nat)
        } else {
            (slot, q)
        },
        None => (slot, q),
    }
}

/// Puts a new stack of item `id` into an empty slot while some is left.
pub open spec fn fill_step(slot: Option<ItemStack>, id: ItemId, max_stack: u32, q: nat) -> (Option<ItemStack>, nat) {
    if slot is None && q > 0 {
        let add = if q < max_stack { q } else { max_stack as nat };
        (Some(ItemStack { item_id: id, quantity: add as u32 }), (q - add) as nat)
    } else {
        (slot, q)
    }
}

/// The slots and the quantity left after topping up the first `n` slots.
pub open spec fn merge_prefix(items: Seq<Option<ItemStack>>, id: ItemId, max_stack: u32, q: nat, n: nat) -> (Seq<Option<ItemStack>>, nat)
    decreases n,
{
    if n == 0 {
        (items, q)
    } else {
        let prev = merge_prefix(items, id, max_stack, q, (n - 1) as nat);
        let step = merge_step(prev.0[n - 1], id, max_stack, prev.1);
        (prev.0.update(n - 1, step.0), step.1)
    }
}

/// The slots and the quantity left after filling empty slots among the first `n`.
pub open spec fn fill_prefix(items: Seq<Option<ItemStack>>, id: ItemId, max_stack: u32, q: nat, n: nat) -> (Seq<Option<ItemStack>>, nat)
    decreases n,
{
    if n == 0 {
        (items, q)
    } else {
        let prev = fill_prefix(items, id, max_stack, q, (n - 1) as nat);
        let step = fill_step(prev.0[n - 1], id, max_stack, prev.1);
        (prev.0.update(n - 1, step.0), step.1)
    }
}

/// Adding `q` of item `id`: first top up the stacks of that item in slot
/// order, then open new stacks of at most `max_stack` in empty slots in slot
/// order. Gives the new slots and the quantity that did not fit.
pub open spec fn add_spec(items: Seq<Option<ItemStack>>, id: ItemId, max_stack: u32, q: nat) -> (Seq<Option<ItemStack>>, nat) {
    let merged = merge_prefix(items, id, max_stack, q, items.len());
    fill_prefix(merged.0, id, max_stack, merged.1, items.len())
}

proof fn lemma_merge_prefix_facts(items: Seq<Option<ItemStack>>, id: ItemId, max_stack: u32, q: nat, n: nat)
    requires
        n <= items.len(),
        stacks_within(items, id, max_stack),
    ensures
        merge_prefix(items, id, max_stack, q, n).0.len() == items.len(),
        merge_prefix(items, id, max_stack, q, n).1 <= q,
        forall|i: int| n <= i < items.len() ==> #[trigger] merge_prefix(items, id, max_stack, q, n).0[i] == items[i],
        stacks_within(merge_prefix(items, id, max_stack, q, n).0, id, max_stack),
    decreases n,
{
    if n > 0 {
        lemma_merge_prefix_facts(items, id, max_stack, q, (n - 1) as nat);
    }
}

proof fn lemma_fill_prefix_facts(items: Seq<Option<ItemStack>>, id: ItemId, max_stack: u32, q: nat, n: nat)
    requires
        n <= items.len(),
    ensures
        fill_prefix(items, id, max_stack, q, n).0.len() == items.len(),
        fill_prefix(items, id, max_stack, q, n).1 <= q,
        forall|i: int| n <= i < items.len() ==> #[trigger] fill_prefix(items, id, max_stack, q, n).0[i] == items[i],
    decreases n,
{
    if n > 0 {
        lemma_fill_prefix_facts(items, id, max_stack, q, (n - 1) as nat);
    }
}

proof fn lemma_count_update(items: Seq<Option<ItemStack>>, id: ItemId, i: int, x: Option<ItemStack>)
    requires
        0 <= i < items.len(),
    ensures
        count_spec(items.update(i, x), id) + slot_count(items[i], id) == count_spec(items, id) + slot_count(x, id),
    decreases items.len(),
{
    let t = items.update(i, x);
    if i == items.len() - 1 {
        assert(t.drop_last() =~= items.drop_last());
    } else {
        assert(t.drop_last() =~= items.drop_last().update(i, x));
        lemma_count_update(items.drop_last(), id, i, x);
    }
}

proof fn lemma_merge_prefix_count(items: Seq<Option<ItemStack>>, id: ItemId, max_stack: u32, q: nat, n: nat)
    requires
        n <= items.len(),
        stacks_within(items, id, max_stack),
    ensures
        count_spec(merge_prefix(items, id, max_stack, q, n).0, id) + merge_prefix(items, id, max_stack, q, n).1
            == count_spec(items, id) + q,
    decreases n,
{
    if n > 0 {
        lemma_merge_prefix_count(items, id, max_stack, q, (n - 1) as nat);
        lemma_merge_prefix_facts(items, id, max_stack, q, (n - 1) as nat);
        let prev = merge_prefix(items, id, max_stack, q, (n - 1) as nat);
        let step = merge_step(prev.0[n - 1], id, max_stack, prev.1);
        lemma_count_update(prev.0, id, n - 1, step.0);
    }
}

proof fn lemma_fill_prefix_count(items: Seq<Option<ItemStack>>, id: ItemId, max_stack: u32, q: nat, n: nat)
    requires
        n <= items.len(),
    ensures
        count_spec(fill_prefix(items, id, max_stack, q, n).0, id) + fill_prefix(items, id, max_stack, q, n).1
            == count_spec(items, id) + q,
    decreases n,
{
    if n > 0 {
        lemma_fill_prefix_count(items, id, max_stack, q, (n - 1) as nat);
        lemma_fill_prefix_facts(items, id, max_stack, q, (n - 1) as nat);
        let prev = fill_prefix(items, id, max_stack, q, (n - 1) as nat);
        let step = fill_step(prev.0[n - 1], id, max_stack, prev.1);
        lemma_count_update(prev.0, id, n - 1, step.0);
    }
}

/// A slot inventory with a purse of gold.
#[derive(Debug, Clone)]
pub struct Inventory {
    pub max_slots: usize,
    pub items: Vec<Option<ItemStack>>,
    pub gold: i32,
}

impl Inventory {
    /// An inventory of `max_slots` empty slots and no gold.
    pub fn new(max_slots: usize) -> (r: Self)
        ensures
            r.max_slots == max_slots,
            r.items@ == Seq::new(max_slots as nat, |i: int| None::<ItemStack>),
            r.gold == 0,
    {
        let mut items: Vec<Option<ItemStack>> = Vec::new();
        let mut i: usize = 0;
        while i < max_slots
            invariant
                i <= max_slots,
                items@ == Seq::new(i as nat, |k: int| None::<ItemStack>),
            decreases max_slots - i,
        {
            items.push(None);
            i = i + 1;
            assert(items@ =~= Seq::new(i as nat, |k: int| None::<ItemStack>));
        }
        Inventory { max_slots, items, gold: 0 }
    }

    /// Adds `quantity` of the item `item_id`, whose stacks hold at most
    /// `max_stack`: existing stacks of it are topped up first, in slot order,
    /// then new stacks go into empty slots, in slot order. Returns how many
    /// did not fit (0 when all were added).
    pub fn add_item(&mut self, item_id: ItemId, max_stack: u32, quantity: u32) -> (r: u32)
        requires
            stacks_within(old(self).items@, item_id, max_stack),
        ensures
            (final(self).items@, r as nat) == add_spec(old(self).items@, item_id, max_stack, quantity as nat),
            r <= quantity,
            count_spec(final(self).items@, item_id) == count_spec(old(self).items@, item_id) + quantity - r,
            final(self).items@.len() == old(self).items@.len(),
            final(self).max_slots == old(self).max_slots,
            final(self).gold == old(self).gold,
    {
        let ghost items0 = self.items@;
        let n = self.items.len();
        let mut q: u32 = quantity;
        let mut i: usize = 0;
        while i < n
            invariant
                n == self.items.len(),
                n == items0.len(),
                i <= n,
                stacks_within(items0, item_id, max_stack),
                (self.items@, q as nat) == merge_prefix(items0, item_id, max_stack, quantity as nat, i as nat),
                self.max_slots == old(self).max_slots,
                self.gold == old(self).gold,
            decreases n - i,
        {
            proof {
                lemma_merge_prefix_facts(items0, item_id, max_stack, quantity as nat, i as nat);
            }
            let slot = self.items[i];
            match slot {
                Some(s) => {
                    if s.item_id == item_id {
                        let space: u32 = max_stack - s.quantity;
                        let add: u32 = if q < space { q } else { space };
                        self.items.set(i, Some(ItemStack::new(item_id, s.quantity + add)));
                        q = q - add;
                    }
                },
                None => {},
            }
            i = i + 1;
        }
        proof {
            lemma_merge_prefix_facts(items0, item_id, max_stack, quantity as nat, n as nat);
        }
        let ghost items1 = self.items@;
        let ghost q1 = q as nat;
        let mut i: usize = 0;
        while i < n
            invariant
                n == self.items.len(),
                n == items1.len(),
                i <= n,
                (self.items@, q as nat) == fill_prefix(items1, item_id, max_stack, q1, i as nat),
                self.max_slots == old(self).max_slots,
                self.gold == old(self).gold,
            decreases n - i,
        {
            proof {
                lemma_fill_prefix_facts(items1, item_id, max_stack, q1, i as nat);
            }
            if self.items[i].is_none() && q > 0 {
                let add: u32 = if q < max_stack { q } else { max_stack };
                self.items.set(i, Some(ItemStack::new(item_id, add)));
                q = q - add;
            }
            i = i + 1;
        }
        proof {
            lemma_merge_prefix_count(items0, item_id, max_stack, quantity as nat, n as nat);
            lemma_fill_prefix_count(items1, item_id, max_stack, q1, n as nat);
            lemma_fill_prefix_facts(items1, item_id, max_stack, q1, n as nat);
        }
        q
    }

    /// Removes up to `quantity` from the stack in `slot`. Taking the whole
    /// stack (or more) empties the slot and returns the stack; taking less
    /// returns a stack of `quantity`. An empty or missing slot gives `None`.
    pub fn remove_item(&mut self, slot: usize, quantity: u32) -> (r: Option<ItemStack>)
        ensures
            final(self).max_slots == old(self).max_slots,
            final(self).gold == old(self).gold,
            slot >= old(self).items.len() ==> r is None && final(self).items@ == old(self).items@,
            slot < old(self).items.len() ==> match old(self).items@[slot as int] {
                None => r is None && final(self).items@ == old(self).items@,
                Some(s) => if s.quantity <= quantity {
                    r == Some(s) && final(self).items@ == old(self).items@.update(slot as int, None)
                } else {
                    r == Some(ItemStack { item_id: s.item_id, quantity })
                        && final(self).items@ == old(self).items@.update(
                        slot as int,
                        Some(ItemStack { item_id: s.item_id, quantity: (s.quantity - quantity) as u32 }),
                    )
                },
            },
    {
        if slot >= self.items.len() {
            return None;
        }
        match self.items[slot] {
            Some(s) => {
                if s.quantity <= quantity {
                    self.items.set(slot, None);
                    Some(s)
                } else {
                    self.items.set(slot, Some(ItemStack::new(s.item_id, s.quantity - quantity)));
                    Some(ItemStack::new(s.item_id, quantity))
                }
            },
            None => None,
        }
    }

    /// The stack in `slot`, if the slot exists and is filled.
    pub fn get_item(&self, slot: usize) -> (r: Option<&ItemStack>)
        ensures
            match r {
                Some(s) => slot < self.items.len() && self.items@[slot as int] == Some(*s),
                None => slot >= self.items.len() || self.items@[slot as int] is None,
            },
    {
        if slot < self.items.len() {
            match &self.items[slot] {
                Some(s) => Some(s),
                None => None,
            }
        } else {
            None
        }
    }

    /// Total quantity of `item_id` over all slots.
    pub fn count_item(&self, item_id: ItemId) -> (r: u32)
        requires
            count_spec(self.items@, item_id) <= u32::MAX,
        ensures
            r == count_spec(self.items@, item_id),
    {
        let mut total: u32 = 0;
        let mut i: usize = 0;
        while i < self.items.len()
            invariant
                i <= self.items.len(),
                count_spec(self.items@, item_id) <= u32::MAX,
                total == count_spec(self.items@.subrange(0, i as int), item_id),
            decreases self.items.len() - i,
        {
            proof {
                lemma_count_prefix_le(self.items@, item_id, i as int + 1);
                assert(self.items@.subrange(0, i as int + 1).drop_last() =~= self.items@.subrange(0, i as int));
            }
            match &self.items[i] {
                Some(s) => {
                    if s.item_id == item_id {
                        total = total + s.quantity;
                    }
                },
                None => {},
            }
            i = i + 1;
        }
        assert(self.items@.subrange(0, i as int) =~= self.items@);
        total
    }

    /// Whether the slots hold at least `quantity` of `item_id` in all.
    pub fn has_at_least(&self, item_id: ItemId, quantity: u32) -> (r: bool)
        ensures
            r == (count_spec(self.items@, item_id) >= quantity),
    {
        if quantity == 0 {
            return true;
        }
        let mut total: u64 = 0;
        let mut i: usize = 0;
        while i < self.items.len()
            invariant
                i <= self.items.len(),
                total == count_spec(self.items@.subrange(0, i as int), item_id),
                total < quantity,
            decreases self.items.len() - i,
        {
            proof {
                assert(self.items@.subrange(0, i as int + 1).drop_last() =~= self.items@.subrange(0, i as int));
            }
            match &self.items[i] {
                Some(s) => {
                    if s.item_id == item_id {
                        total = total + s.quantity as u64;
                    }
                },
                None => {},
            }
            i = i + 1;
            if total >= quantity as u64 {
                proof {
                    lemma_count_prefix_le(self.items@, item_id, i as int);
                }
                return true;
            }
        }
        assert(self.items@.subrange(0, i as int) =~= self.items@);
        false
    }

    /// Whether some slot is empty.
    pub fn has_space(&self) -> (r: bool)
        ensures
            r == exists|i: int| 0 <= i < self.items.len() && #[trigger] self.items@[i] is None,
    {
        let mut i: usize = 0;
        while i < self.items.len()
            invariant
                i <= self.items.len(),
                forall|k: int| 0 <= k < i ==> #[trigger] self.items@[k] is Some,
            decreases self.items.len() - i,
        {
            if self.items[i].is_none() {
                return true;
            }
            i = i + 1;
        }
        false
    }

    /// Adds `amount` of gold (which may be negative); the purse never drops below 0.
    pub fn add_gold(&mut self, amount: i32)
        requires
            old(self).gold + amount <= i32::MAX,
        ensures
            final(self).gold == if old(self).gold + amount < 0 { 0 } else { old(self).gold + amount },
            final(self).items == old(self).items,
            final(self).max_slots == old(self).max_slots,
    {
        let sum: i64 = self.gold as i64 + amount as i64;
        self.gold = if sum < 0 { 0 } else { sum as i32 };
    }

    /// Spends `amount` of gold if the purse holds that much.
    pub fn spend_gold(&mut self, amount: i32) -> (r: bool)
        requires
            old(self).gold >= amount ==> old(self).gold - amount <= i32::MAX,
        ensures
            r == (old(self).gold >= amount),
            final(self).gold == if r { old(self).gold - amount } else { old(self).gold as int },
            final(self).items == old(self).items,
            final(self).max_slots == old(self).max_slots,
    {
        if self.gold >= amount {
            self.gold = self.gold - amount;
            true
        } else {
            false
        }
    }
}

/// Counting over a prefix never gives more than over the whole.
proof fn lemma_count_prefix_le(items: Seq<Option<ItemStack>>, id: ItemId, n: int)
    requires
        0 <= n <= items.len(),
    ensures
        count_spec(items.subrange(0, n), id) <= count_spec(items, id),
    decreases items.len(),
{
    if n < items.len() {
        assert(items.drop_last().subrange(0, n) =~= items.subrange(0, n));
        lemma_count_prefix_le(items.drop_last(), id, n);
    } else {
        assert(items.subrange(0, n) =~= items);
    }
}

/// The position of each slot in the loadout.
pub open spec fn slot_index_spec(slot: EquipSlot) -> int {
    match slot {
        EquipSlot::Weapon => 0,
        EquipSlot::Helmet => 1,
        EquipSlot::Chest => 2,
        EquipSlot::Legs => 3,
        EquipSlot::Boots => 4,
        EquipSlot::Gloves => 5,
        EquipSlot::Ring1 => 6,
        EquipSlot::Ring2 => 7,
        EquipSlot::Amulet => 8,
    }
}

fn slot_index(slot: EquipSlot) -> (r: usize)
    ensures
        r == slot_index_spec(slot),
        r < 9,
{
    match slot {
        EquipSlot::Weapon => 0,
        EquipSlot::Helmet => 1,
        EquipSlot::Chest => 2,
        EquipSlot::Legs => 3,
        EquipSlot::Boots => 4,
        EquipSlot::Gloves => 5,
        EquipSlot::Ring1 => 6,
        EquipSlot::Ring2 => 7,
        EquipSlot::Amulet => 8,
    }
}

fn slot_at(i: usize) -> (r: EquipSlot)
    requires
        i < 9,
    ensures
        slot_index_spec(r) == i,
{
    match i {
        0 => EquipSlot::Weapon,
        1 => EquipSlot::Helmet,
        2 => EquipSlot::Chest,
        3 => EquipSlot::Legs,
        4 => EquipSlot::Boots,
        5 => EquipSlot::Gloves,
        6 => EquipSlot::Ring1,
        7 => EquipSlot::Ring2,
        _ => EquipSlot::Amulet,
    }
}

/// The equipment loadout: at most one item per slot.
#[derive(Debug, Clone)]
pub struct Equipment {
    pub slots: [Option<ItemId>; 9],
}

impl View for Equipment {
    type V = Map<EquipSlot, ItemId>;

    /// The item equipped in each filled slot.
    open spec fn view(&self) -> Map<EquipSlot, ItemId> {
        Map::new(
            |s: EquipSlot| self.slots@[slot_index_spec(s)] is Some,
            |s: EquipSlot| self.slots@[slot_index_spec(s)]->0,
        )
    }
}

impl Equipment {
    /// A loadout with every slot empty.
    pub fn new() -> (r: Self)
        ensures
            r@ == Map::<EquipSlot, ItemId>::empty(),
    {
        let r = Equipment { slots: [None; 9] };
        assert(r@ =~= Map::<EquipSlot, ItemId>::empty());
        r
    }

    /// Puts `item_id` into `slot`, returning the item it replaces.
    pub fn equip(&mut self, slot: EquipSlot, item_id: ItemId) -> (r: Option<ItemId>)
        ensures
            final(self)@ == old(self)@.insert(slot, item_id),
            r == (if old(self)@.contains_key(slot) { Some(old(self)@[slot]) } else { None }),
    {
        let i = slot_index(slot);
        let prev = self.slots[i];
        self.slots[i] = Some(item_id);
        proof {
            assert forall|s: EquipSlot| slot_index_spec(s) == i implies s == slot by {}
        }
        assert(self@ =~= old(self)@.insert(slot, item_id));
        prev
    }

    /// Empties `slot`, returning the item it held.
    pub fn unequip(&mut self, slot: EquipSlot) -> (r: Option<ItemId>)
        ensures
            final(self)@ == old(self)@.remove(slot),
            r == (if old(self)@.contains_key(slot) { Some(old(self)@[slot]) } else { None }),
    {
        let i = slot_index(slot);
        let prev = self.slots[i];
        self.slots[i] = None;
        proof {
            assert forall|s: EquipSlot| slot_index_spec(s) == i implies s == slot by {}
        }
        assert(self@ =~= old(self)@.remove(slot));
        prev
    }

    /// The item in `slot`, if any.
    pub fn get_equipped(&self, slot: EquipSlot) -> (r: Option<ItemId>)
        ensures
            r == (if self@.contains_key(slot) { Some(self@[slot]) } else { None }),
    {
        self.slots[slot_index(slot)]
    }

    /// Every filled slot with its item, in slot order.
    pub fn all_equipped(&self) -> (r: Vec<(EquipSlot, ItemId)>)
        ensures
            forall|k: int| 0 <= k < r.len() ==> #[trigger] self@.contains_key(r@[k].0) && self@[r@[k].0] == r@[k].1,
            forall|s: EquipSlot| #[trigger] self@.contains_key(s) ==> exists|k: int| 0 <= k < r.len() && #[trigger] r@[k].0 == s,
            forall|k1: int, k2: int|
                0 <= k1 < k2 < r.len() ==> slot_index_spec(#[trigger] r@[k1].0) < slot_index_spec(#[trigger] r@[k2].0),
    {
        let mut r: Vec<(EquipSlot, ItemId)> = Vec::new();
        let mut i: usize = 0;
        while i < 9
            invariant
                i <= 9,
                forall|k: int| 0 <= k < r.len() ==> #[trigger] self@.contains_key(r@[k].0) && self@[r@[k].0] == r@[k].1,
                forall|k: int| 0 <= k < r.len() ==> slot_index_spec(#[trigger] r@[k].0) < i,
                forall|s: EquipSlot| #[trigger] self@.contains_key(s) && slot_index_spec(s) < i
                    ==> exists|k: int| 0 <= k < r.len() && #[trigger] r@[k].0 == s,
                forall|k1: int, k2: int|
                    0 <= k1 < k2 < r.len() ==> slot_index_spec(#[trigger] r@[k1].0) < slot_index_spec(#[trigger] r@[k2].0),
            decreases 9 - i,
        {
            let s = slot_at(i);
            match self.slots[i] {
                Some(id) => {
                    let ghost old_r = r@;
                    assert(self@.contains_key(s) && self@[s] == id);
                    r.push((s, id));
                    proof {
                        assert forall|t: EquipSlot| #[trigger] self@.contains_key(t) && slot_index_spec(t) < i + 1
                            implies exists|k: int| 0 <= k < r.len() && #[trigger] r@[k].0 == t by {
                            if slot_index_spec(t) == i {
                                assert(t == s);
                                assert(r@[old_r.len() as int].0 == t);
                            } else {
                                let k = choose|k: int| 0 <= k < old_r.len() && #[trigger] old_r[k].0 == t;
                                assert(r@[k].0 == t);
                            }
                        }
                    }
                },
                None => {
                    proof {
                        assert forall|t: EquipSlot| #[trigger] self@.contains_key(t) && slot_index_spec(t) < i + 1
                            implies exists|k: int| 0 <= k < r.len() && #[trigger] r@[k].0 == t by {
                            assert(slot_index_spec(t) != i);
                        }
                    }
                },
            }
            i = i + 1;
        }
        r
    }
}

} // verus!
