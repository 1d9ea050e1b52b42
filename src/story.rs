//! Branching dialogue, quests and the story database that holds both.
use vstd::prelude::*;
use std::collections::HashMap;
use crate::items::{ItemId, Inventory, count_spec};
use crate::keyed::{keyed_map, is_last_with_key, lemma_keyed_push, lemma_keyed_absent, lemma_keyed_last, lemma_keyed_update_last};
use crate::player::QuestFlags;
use crate::stats::Level;

verus! {

broadcast use vstd::std_specs::hash::group_hash_axioms;

/// Unique dialogue node identifier.
#[derive(Debug, Clone, Copy, PartialEq, Eq, Hash, Structural)]
pub struct DialogueId(pub u32);

/// Who speaks a line of dialogue.
#[derive(Debug, Clone)]
pub enum Speaker {
    Npc(String),
    Player,
    Narrator,
}

/// Condition for offering a dialogue choice.
#[derive(Debug, Clone)]
pub enum DialogueCondition {
    HasQuestFlag(String),
    NoQuestFlag(String),
    /// Item and minimum quantity.
    HasItem(ItemId, u32),
    MinLevel(i32),
    MinGold(i32),
    AlwaysTrue,
}

/// What a condition says of a player with these flags, level and inventory.
pub open spec fn condition_holds(
    c: DialogueCondition,
    flags: Map<Seq<char>, bool>,
    level: Level,
    items: Seq<Option<crate::items::ItemStack>>,
    gold: i32,
) -> bool {
    match c {
        DialogueCondition::HasQuestFlag(f) => flags.contains_key(f@) && flags[f@],
        DialogueCondition::NoQuestFlag(f) => !(flags.contains_key(f@) && flags[f@]),
        DialogueCondition::HasItem(id, q) => count_spec(items, id) >= q,
        DialogueCondition::MinLevel(l) => level.current_level >= l,
        DialogueCondition::MinGold(g) => gold >= g,
        DialogueCondition::AlwaysTrue => true,
    }
}

impl DialogueCondition {
    /// Whether the condition holds for a player with the given quest flags,
    /// level and inventory.
    pub fn check(&self, flags: &QuestFlags, level: &Level, inventory: &Inventory) -> (r: bool)
        ensures
            r == condition_holds(*self, flags@, *level, inventory.items@, inventory.gold),
    {
        match self {
            DialogueCondition::HasQuestFlag(flag) => flags.has_quest_flag(flag.as_str()),
            DialogueCondition::NoQuestFlag(flag) => !flags.has_quest_flag(flag.as_str()),
            DialogueCondition::HasItem(item_id, quantity) => inventory.has_at_least(*item_id, *quantity),
            DialogueCondition::MinLevel(min) => level.current_level >= *min,
            DialogueCondition::MinGold(gold) => inventory.gold >= *gold,
            DialogueCondition::AlwaysTrue => true,
        }
    }
}

/// Action to perform when a dialogue choice is taken.
#[derive(Debug, Clone)]
pub enum DialogueAction {
    SetQuestFlag(String, bool),
    GiveItem(ItemId, u32),
    TakeItem(ItemId, u32),
    GiveGold(i32),
    TakeGold(i32),
    GiveExp(i32),
    /// Enemy to spawn.
    StartBattle(u32),
    /// Checkpoint name.
    Teleport(String),
    EndDialogue,
}

/// A single dialogue choice.
#[derive(Debug, Clone)]
pub struct DialogueChoice {
    pub text: String,
    pub condition: DialogueCondition,
    pub next_node: Option<DialogueId>,
    pub actions: Vec<DialogueAction>,
}

impl DialogueChoice {
    /// A choice always offered, leading nowhere, with no action.
    pub fn new(text: &str) -> (r: Self)
        ensures
            r.text@ == text@,
            r.condition is AlwaysTrue,
            r.next_node is None,
            r.actions@.len() == 0,
    {
        DialogueChoice {
            text: text.to_owned(),
            condition: DialogueCondition::AlwaysTrue,
            next_node: None,
            actions: Vec::new(),
        }
    }

    pub fn with_condition(self, condition: DialogueCondition) -> (r: Self)
        ensures
            r == (DialogueChoice { condition, ..self }),
    {
        DialogueChoice { condition, ..self }
    }

    pub fn with_next(self, next_id: DialogueId) -> (r: Self)
        ensures
            r == (DialogueChoice { next_node: Some(next_id), ..self }),
    {
        DialogueChoice { next_node: Some(next_id), ..self }
    }

    /// Appends `action` to the actions taken with this choice.
    pub fn with_action(self, action: DialogueAction) -> (r: Self)
        ensures
            r.text == self.text,
            r.condition == self.condition,
            r.next_node == self.next_node,
            r.actions@ == self.actions@.push(action),
    {
        let mut r = self;
        r.actions.push(action);
        r
    }
}

/// One piece of conversation.
#[derive(Debug, Clone)]
pub struct DialogueNode {
    pub id: DialogueId,
    pub speaker: Speaker,
    pub text: String,
    pub choices: Vec<DialogueChoice>,
    /// The node that follows on its own, if any.
    pub auto_continue: Option<DialogueId>,
}

impl DialogueNode {
    pub fn new(id: u32, speaker: Speaker, text: &str) -> (r: Self)
        ensures
            r.id == DialogueId(id),
            r.speaker == speaker,
            r.text@ == text@,
            r.choices@.len() == 0,
            r.auto_continue is None,
    {
        DialogueNode { id: DialogueId(id), speaker, text: text.to_owned(), choices: Vec::new(), auto_continue: None }
    }

    /// Appends `choice` to the node's choices.
    pub fn with_choice(self, choice: DialogueChoice) -> (r: Self)
        ensures
            r.id == self.id,
            r.speaker == self.speaker,
            r.text == self.text,
            r.choices@ == self.choices@.push(choice),
            r.auto_continue == self.auto_continue,
    {
        let mut r = self;
        r.choices.push(choice);
        r
    }

    pub fn with_auto_continue(self, next_id: DialogueId) -> (r: Self)
        ensures
            r == (DialogueNode { auto_continue: Some(next_id), ..self }),
    {
        DialogueNode { auto_continue: Some(next_id), ..self }
    }
}

/// The choices of `choices` whose conditions hold for the player.
pub open spec fn available_spec(
    choices: Seq<DialogueChoice>,
    flags: Map<Seq<char>, bool>,
    level: Level,
    items: Seq<Option<crate::items::ItemStack>>,
    gold: i32,
) -> Seq<DialogueChoice> {
    choices.filter(|c: DialogueChoice| condition_holds(c.condition, flags, level, items, gold))
}

/// A complete conversation: its nodes by number.
#[derive(Debug, Clone)]
pub struct DialogueTree {
    pub id: String,
    pub name: String,
    pub root_node: DialogueId,
    pub nodes: HashMap<u32, DialogueNode>,
}

impl DialogueTree {
    pub fn new(id: &str, name: &str, root_node: DialogueId) -> (r: Self)
        ensures
            r.id@ == id@,
            r.name@ == name@,
            r.root_node == root_node,
            r.nodes@ == Map::<u32, DialogueNode>::empty(),
    {
        DialogueTree { id: id.to_owned(), name: name.to_owned(), root_node, nodes: HashMap::new() }
    }

    /// Adds `node` under its id, replacing a node of the same id.
    pub fn add_node(&mut self, node: DialogueNode)
        ensures
            final(self).nodes@ == old(self).nodes@.insert(node.id.0, node),
            final(self).id == old(self).id,
            final(self).name == old(self).name,
            final(self).root_node == old(self).root_node,
    {
        let key = node.id.0;
        self.nodes.insert(key, node);
    }

    pub fn get_node(&self, id: DialogueId) -> (r: Option<&DialogueNode>)
        ensures
            match r {
                Some(n) => self.nodes@.contains_key(id.0) && self.nodes@[id.0] == *n,
                None => !self.nodes@.contains_key(id.0),
            },
    {
        self.nodes.get(&id.0)
    }

    /// The choices of node `node_id` whose conditions hold for the player,
    /// in their order; none where there is no such node.
    pub fn get_available_choices(
        &self,
        node_id: DialogueId,
        flags: &QuestFlags,
        level: &Level,
        inventory: &Inventory,
    ) -> (r: Vec<&DialogueChoice>)
        ensures
            !self.nodes@.contains_key(node_id.0) ==> r@.len() == 0,
            self.nodes@.contains_key(node_id.0) ==> {
                let avail = available_spec(
                    self.nodes@[node_id.0].choices@,
                    flags@,
                    *level,
                    inventory.items@,
                    inventory.gold,
                );
                &&& r@.len() == avail.len()
                &&& forall|k: int| 0 <= k < r@.len() ==> *(#[trigger] r@[k]) == avail[k]
            },
    {
        let mut r: Vec<&DialogueChoice> = Vec::new();
        match self.nodes.get(&node_id.0) {
            Some(node) => {
                let ghost pred = |c: DialogueChoice|
                    condition_holds(c.condition, flags@, *level, inventory.items@, inventory.gold);
                let mut i: usize = 0;
                while i < node.choices.len()
                    invariant
                        i <= node.choices.len(),
                        pred == (|c: DialogueChoice|
                            condition_holds(c.condition, flags@, *level, inventory.items@, inventory.gold)),
                        r@.len() == node.choices@.subrange(0, i as int).filter(pred).len(),
                        forall|k: int| 0 <= k < r@.len() ==> *(#[trigger] r@[k]) == node.choices@.subrange(0, i as int).filter(pred)[k],
                    decreases node.choices.len() - i,
                {
                    let c = &node.choices[i];
                    let ok = c.condition.check(flags, level, inventory);
                    let ghost s = node.choices@.subrange(0, i as int);
                    let ghost t = node.choices@.subrange(0, i as int + 1);
                    proof {
                        assert(t =~= s.push(*c));
                        s.lemma_filter_push(*c, pred);
                        assert(pred(*c) == ok);
                    }
                    let ghost r0 = r@;
                    if ok {
                        r.push(c);
                        assert(t.filter(pred) == s.filter(pred).push(*c));
                        assert forall|k: int| 0 <= k < r@.len() implies *(#[trigger] r@[k]) == t.filter(pred)[k] by {
                            if k < r0.len() {
                                assert(r@[k] == r0[k]);
                            }
                        }
                    } else {
                        assert(t.filter(pred) == s.filter(pred));
                    }
                    i = i + 1;
                }
                assert(node.choices@.subrange(0, i as int) =~= node.choices@);
            },
            None => {},
        }
        r
    }
}

/// Quest status.
#[derive(Debug, Clone, Copy, PartialEq, Eq, Structural)]
pub enum QuestStatus {
    NotStarted,
    Active,
    Completed,
    Failed,
}

/// One objective of a quest.
#[derive(Debug, Clone)]
pub enum QuestObjective {
    KillEnemies { enemy_id: u32, current: u32, required: u32 },
    CollectItems { item_id: ItemId, current: u32, required: u32 },
    ReachLocation { location: String, reached: bool },
    TalkToNpc { npc_id: String, talked: bool },
}

pub open spec fn objective_done(o: QuestObjective) -> bool {
    match o {
        QuestObjective::KillEnemies { current, required, .. } => current >= required,
        QuestObjective::CollectItems { current, required, .. } => current >= required,
        QuestObjective::ReachLocation { reached, .. } => reached,
        QuestObjective::TalkToNpc { talked, .. } => talked,
    }
}

pub open spec fn digit_char(d: nat) -> char {
    if d == 0 { '0' }
    else if d == 1 { '1' }
    else if d == 2 { '2' }
    else if d == 3 { '3' }
    else if d == 4 { '4' }
    else if d == 5 { '5' }
    else if d == 6 { '6' }
    else if d == 7 { '7' }
    else if d == 8 { '8' }
    else { '9' }
}

/// The decimal digits of `n`, most significant first, without leading zeros.
pub open spec fn decimal_spec(n: nat) -> Seq<char>
    decreases n,
{
    if n < 10 {
        seq![digit_char(n)]
    } else {
        decimal_spec(n / 10).push(digit_char(n % 10))
    }
}

fn digit_str(d: u32) -> (r: &'static str)
    requires
        d < 10,
    ensures
        r@ == seq![digit_char(d as nat)],
{
    let digits = "0123456789";
    proof {
        reveal_strlit("0123456789");
    }
    let r = digits.substring_ascii(d as usize, d as usize + 1);
    assert(r@ =~= seq![digit_char(d as nat)]);
    r
}

/// `n` written in decimal.
fn decimal(n: u32) -> (r: String)
    ensures
        r@ == decimal_spec(n as nat),
    decreases n,
{
    if n < 10 {
        String::from_str(digit_str(n))
    } else {
        let mut s = decimal(n / 10);
        s.append(digit_str(n % 10));
        s
    }
}

/// The line that describes an objective's progress.
pub open spec fn objective_text(o: QuestObjective) -> Seq<char> {
    match o {
        QuestObjective::KillEnemies { current, required, .. } =>
            "Defeat enemies: "@ + decimal_spec(current as nat) + "/"@ + decimal_spec(required as nat),
        QuestObjective::CollectItems { current, required, .. } =>
            "Collect items: "@ + decimal_spec(current as nat) + "/"@ + decimal_spec(required as nat),
        QuestObjective::ReachLocation { location, reached } =>
            "Reach "@ + location@ + ": "@ + (if reached { "\u{2713}"@ } else { "\u{2717}"@ }),
        QuestObjective::TalkToNpc { npc_id, talked } =>
            "Talk to "@ + npc_id@ + ": "@ + (if talked { "\u{2713}"@ } else { "\u{2717}"@ }),
    }
}

fn progress_text(label: &str, current: u32, required: u32) -> (r: String)
    ensures
        r@ == label@ + decimal_spec(current as nat) + "/"@ + decimal_spec(required as nat),
{
    let mut s = String::from_str(label);
    s.append(decimal(current).as_str());
    s.append("/");
    s.append(decimal(required).as_str());
    s
}

fn mark_text(label: &str, subject: &String, done: bool) -> (r: String)
    ensures
        r@ == label@ + subject@ + ": "@ + (if done { "\u{2713}"@ } else { "\u{2717}"@ }),
{
    let mut s = String::from_str(label);
    s.append(subject.as_str());
    s.append(": ");
    s.append(if done { "\u{2713}" } else { "\u{2717}" });
    s
}

impl QuestObjective {
    pub fn is_complete(&self) -> (r: bool)
        ensures
            r == objective_done(*self),
    {
        match self {
            QuestObjective::KillEnemies { current, required, .. } => *current >= *required,
            QuestObjective::CollectItems { current, required, .. } => *current >= *required,
            QuestObjective::ReachLocation { reached, .. } => *reached,
            QuestObjective::TalkToNpc { talked, .. } => *talked,
        }
    }

    /// A line such as `Defeat enemies: 2/5` or `Reach Cave: ✗`.
    pub fn description(&self) -> (r: String)
        ensures
            r@ == objective_text(*self),
    {
        match self {
            QuestObjective::KillEnemies { current, required, .. } => progress_text("Defeat enemies: ", *current, *required),
            QuestObjective::CollectItems { current, required, .. } => progress_text("Collect items: ", *current, *required),
            QuestObjective::ReachLocation { location, reached } => mark_text("Reach ", location, *reached),
            QuestObjective::TalkToNpc { npc_id, talked } => mark_text("Talk to ", npc_id, *talked),
        }
    }
}

/// A quest: objectives to meet and rewards for meeting them.
#[derive(Debug, Clone)]
pub struct Quest {
    pub id: String,
    pub name: String,
    pub description: String,
    pub status: QuestStatus,
    pub objectives: Vec<QuestObjective>,
    pub rewards: Vec<DialogueAction>,
    pub required_level: i32,
}

impl Quest {
    /// A quest not started, with no objective or reward, open from level 1.
    pub fn new(id: &str, name: &str, description: &str) -> (r: Self)
        ensures
            r.id@ == id@,
            r.name@ == name@,
            r.description@ == description@,
            r.status == QuestStatus::NotStarted,
            r.objectives@.len() == 0,
            r.rewards@.len() == 0,
            r.required_level == 1,
    {
        Quest {
            id: id.to_owned(),
            name: name.to_owned(),
            description: description.to_owned(),
            status: QuestStatus::NotStarted,
            objectives: Vec::new(),
            rewards: Vec::new(),
            required_level: 1,
        }
    }

    /// Appends an objective.
    pub fn with_objective(self, objective: QuestObjective) -> (r: Self)
        ensures
            r == (Quest { objectives: r.objectives, ..self }),
            r.objectives@ == self.objectives@.push(objective),
    {
        let mut r = self;
        r.objectives.push(objective);
        r
    }

    /// Appends a reward.
    pub fn with_reward(self, reward: DialogueAction) -> (r: Self)
        ensures
            r == (Quest { rewards: r.rewards, ..self }),
            r.rewards@ == self.rewards@.push(reward),
    {
        let mut r = self;
        r.rewards.push(reward);
        r
    }

    pub fn with_required_level(self, level: i32) -> (r: Self)
        ensures
            r == (Quest { required_level: level, ..self }),
    {
        Quest { required_level: level, ..self }
    }

    /// Whether every objective is met.
    pub fn is_complete(&self) -> (r: bool)
        ensures
            r == forall|k: int| 0 <= k < self.objectives@.len() ==> objective_done(#[trigger] self.objectives@[k]),
    {
        let mut i: usize = 0;
        while i < self.objectives.len()
            invariant
                i <= self.objectives.len(),
                forall|k: int| 0 <= k < i ==> objective_done(#[trigger] self.objectives@[k]),
            decreases self.objectives.len() - i,
        {
            if !self.objectives[i].is_complete() {
                return false;
            }
            i = i + 1;
        }
        true
    }

    pub fn start(&mut self)
        ensures
            *final(self) == (Quest { status: QuestStatus::Active, ..*old(self) }),
    {
        self.status = QuestStatus::Active;
    }

    pub fn complete(&mut self)
        ensures
            *final(self) == (Quest { status: QuestStatus::Completed, ..*old(self) }),
    {
        self.status = QuestStatus::Completed;
    }
}

pub open spec fn tree_key(t: DialogueTree) -> Seq<char> {
    t.id@
}

pub open spec fn quest_key(q: Quest) -> Seq<char> {
    q.id@
}

/// All dialogues and quests, each by its id.
pub struct StoryDatabase {
    dialogues: Vec<DialogueTree>,
    quests: Vec<Quest>,
}

impl StoryDatabase {
    /// The dialogues by id.
    pub closed spec fn dialogues(&self) -> Map<Seq<char>, DialogueTree> {
        keyed_map(self.dialogues@, |t: DialogueTree| tree_key(t))
    }

    /// The quests by id.
    pub closed spec fn quests(&self) -> Map<Seq<char>, Quest> {
        keyed_map(self.quests@, |q: Quest| quest_key(q))
    }

    pub fn new() -> (r: Self)
        ensures
            r.dialogues() == Map::<Seq<char>, DialogueTree>::empty(),
            r.quests() == Map::<Seq<char>, Quest>::empty(),
    {
        StoryDatabase { dialogues: Vec::new(), quests: Vec::new() }
    }

    fn find_dialogue(&self, id: &String) -> (r: Option<usize>)
        ensures
            match r {
                Some(i) => is_last_with_key(self.dialogues@, |t: DialogueTree| tree_key(t), id@, i as int),
                None => forall|j: int| 0 <= j < self.dialogues@.len() ==> tree_key(#[trigger] self.dialogues@[j]) != id@,
            },
    {
        let mut i: usize = self.dialogues.len();
        while i > 0
            invariant
                i <= self.dialogues.len(),
                forall|j: int| i <= j < self.dialogues@.len() ==> tree_key(#[trigger] self.dialogues@[j]) != id@,
            decreases i,
        {
            i = i - 1;
            if self.dialogues[i].id == *id {
                return Some(i);
            }
        }
        None
    }

    fn find_quest(&self, id: &String) -> (r: Option<usize>)
        ensures
            match r {
                Some(i) => is_last_with_key(self.quests@, |q: Quest| quest_key(q), id@, i as int),
                None => forall|j: int| 0 <= j < self.quests@.len() ==> quest_key(#[trigger] self.quests@[j]) != id@,
            },
    {
        let mut i: usize = self.quests.len();
        while i > 0
            invariant
                i <= self.quests.len(),
                forall|j: int| i <= j < self.quests@.len() ==> quest_key(#[trigger] self.quests@[j]) != id@,
            decreases i,
        {
            i = i - 1;
            if self.quests[i].id == *id {
                return Some(i);
            }
        }
        None
    }

    /// Stores `dialogue` under its id, replacing one of the same id.
    pub fn add_dialogue(&mut self, dialogue: DialogueTree)
        ensures
            final(self).dialogues() == old(self).dialogues().insert(dialogue.id@, dialogue),
            final(self).quests() == old(self).quests(),
    {
        let ghost key = |t: DialogueTree| tree_key(t);
        match self.find_dialogue(&dialogue.id) {
            Some(i) => {
                proof {
                    lemma_keyed_update_last(self.dialogues@, key, dialogue.id@, i as int, dialogue);
                }
                self.dialogues.set(i, dialogue);
            },
            None => {
                proof {
                    lemma_keyed_push(self.dialogues@, key, dialogue);
                }
                self.dialogues.push(dialogue);
            },
        }
    }

    pub fn get_dialogue(&self, id: &str) -> (r: Option<&DialogueTree>)
        ensures
            match r {
                Some(t) => self.dialogues().contains_key(id@) && self.dialogues()[id@] == *t,
                None => !self.dialogues().contains_key(id@),
            },
    {
        let name = id.to_owned();
        let ghost key = |t: DialogueTree| tree_key(t);
        match self.find_dialogue(&name) {
            Some(i) => {
                proof {
                    lemma_keyed_last(self.dialogues@, key, id@, i as int);
                }
                Some(&self.dialogues[i])
            },
            None => {
                proof {
                    lemma_keyed_absent(self.dialogues@, key, id@);
                }
                None
            },
        }
    }

    /// Stores `quest` under its id, replacing one of the same id.
    pub fn add_quest(&mut self, quest: Quest)
        ensures
            final(self).quests() == old(self).quests().insert(quest.id@, quest),
            final(self).dialogues() == old(self).dialogues(),
    {
        let ghost key = |q: Quest| quest_key(q);
        match self.find_quest(&quest.id) {
            Some(i) => {
                proof {
                    lemma_keyed_update_last(self.quests@, key, quest.id@, i as int, quest);
                }
                self.quests.set(i, quest);
            },
            None => {
                proof {
                    lemma_keyed_push(self.quests@, key, quest);
                }
                self.quests.push(quest);
            },
        }
    }

    pub fn get_quest(&self, id: &str) -> (r: Option<&Quest>)
        ensures
            match r {
                Some(q) => self.quests().contains_key(id@) && self.quests()[id@] == *q,
                None => !self.quests().contains_key(id@),
            },
    {
        let name = id.to_owned();
        let ghost key = |q: Quest| quest_key(q);
        match self.find_quest(&name) {
            Some(i) => {
                proof {
                    lemma_keyed_last(self.quests@, key, id@, i as int);
                }
                Some(&self.quests[i])
            },
            None => {
                proof {
                    lemma_keyed_absent(self.quests@, key, id@);
                }
                None
            },
        }
    }

    /// The quest of id `id`, to change in place.
    pub fn get_quest_mut(&mut self, id: &str) -> (r: Option<&mut Quest>)
        ensures
            match r {
                Some(q) => {
                    &&& old(self).quests().contains_key(id@)
                    &&& old(self).quests()[id@] == *q
                    &&& final(q).id@ == id@ ==> final(self).quests() == old(self).quests().insert(id@, *final(q))
                    &&& final(self).dialogues() == old(self).dialogues()
                },
                None => !old(self).quests().contains_key(id@) && *final(self) == *old(self),
            },
    {
        let name = id.to_owned();
        let ghost key = |q: Quest| quest_key(q);
        match self.find_quest(&name) {
            Some(i) => {
                proof {
                    lemma_keyed_last(self.quests@, key, id@, i as int);
                }
                broadcast use crate::keyed::lemma_keyed_replace;
                Some(&mut self.quests[i])
            },
            None => {
                proof {
                    lemma_keyed_absent(self.quests@, key, id@);
                }
                None
            },
        }
    }
}


impl StoryDatabase {
    /// A database holding the merchant's dialogue and two starter quests.
    pub fn with_starter_content() -> (r: Self)
        ensures
            r.dialogues().dom() == set!["merchant_1"@],
            r.quests().dom() == set!["rat_problem"@, "mysterious_key"@],
            r.dialogues()["merchant_1"@].root_node == DialogueId(1000),
            r.dialogues()["merchant_1"@].nodes@.dom() == set![1000u32, 1001u32, 1002u32],
            r.quests()["rat_problem"@].objectives@.len() == 1,
            !objective_done(r.quests()["rat_problem"@].objectives@[0]),
            r.quests()["mysterious_key"@].objectives@.len() == 1,
            !objective_done(r.quests()["mysterious_key"@].objectives@[0]),
            r.quests()["rat_problem"@].status == QuestStatus::NotStarted,
            r.quests()["rat_problem"@].required_level == 1,
            r.quests()["mysterious_key"@].status == QuestStatus::NotStarted,
            r.quests()["mysterious_key"@].required_level == 3,
    {
        let mut db = Self::new();

        let mut merchant = DialogueTree::new("merchant_1", "Merchant", DialogueId(1000));
        merchant.add_node(
            DialogueNode::new(
                1000,
                Speaker::Npc(String::from_str("Merchant")),
                "Welcome, traveler! Looking to buy or sell?",
            ).with_choice(DialogueChoice::new("What do you have for sale?").with_next(DialogueId(1001))).with_choice(
                DialogueChoice::new("I need a health potion.").with_condition(
                    DialogueCondition::MinGold(10),
                ).with_action(DialogueAction::TakeGold(10)).with_action(
                    DialogueAction::GiveItem(ItemId(100), 1),
                ).with_next(DialogueId(1002)),
            ).with_choice(DialogueChoice::new("Goodbye.").with_action(DialogueAction::EndDialogue)),
        );
        merchant.add_node(
            DialogueNode::new(
                1001,
                Speaker::Npc(String::from_str("Merchant")),
                "I have potions, weapons, and armor. All reasonably priced!",
            ).with_auto_continue(DialogueId(1000)),
        );
        merchant.add_node(
            DialogueNode::new(
                1002,
                Speaker::Npc(String::from_str("Merchant")),
                "Here you go! That'll be 10 gold.",
            ).with_auto_continue(DialogueId(1000)),
        );
        db.add_dialogue(merchant);

        // Enemy 1 is the slime, standing in for the rats.
        db.add_quest(
            Quest::new(
                "rat_problem",
                "The Rat Problem",
                "The town is being overrun by giant rats. Defeat 5 of them.",
            ).with_objective(QuestObjective::KillEnemies { enemy_id: 1, current: 0, required: 5 }).with_reward(
                DialogueAction::GiveExp(100),
            ).with_reward(DialogueAction::GiveGold(50)).with_reward(DialogueAction::GiveItem(ItemId(2), 1)),
        );

        db.add_quest(
            Quest::new(
                "mysterious_key",
                "The Mysterious Key",
                "Find the mysterious key hidden somewhere in the dungeon.",
            ).with_objective(
                QuestObjective::CollectItems { item_id: ItemId(200), current: 0, required: 1 },
            ).with_required_level(3).with_reward(DialogueAction::GiveExp(200)).with_reward(
                DialogueAction::GiveGold(100),
            ),
        );
        proof {
            reveal_strlit("rat_problem");
            reveal_strlit("mysterious_key");
            assert("rat_problem"@.len() != "mysterious_key"@.len());
            assert(db.dialogues().dom() =~= set!["merchant_1"@]);
            assert(db.dialogues()["merchant_1"@].nodes@.dom() =~= set![1000u32, 1001u32, 1002u32]);
            assert(db.quests().dom() =~= set!["rat_problem"@, "mysterious_key"@]);
        }
        db
    }
}

} // verus!
