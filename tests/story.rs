use game_core::items::{Inventory, ItemId};
use game_core::player::{PlayerClass, QuestFlags};
use game_core::stats::Level;
use game_core::story::{
    DialogueAction, DialogueChoice, DialogueCondition, DialogueId, DialogueNode, DialogueTree, Quest,
    QuestObjective, QuestStatus, Speaker, StoryDatabase,
};

#[test]
fn class_names_and_descriptions() {
    assert_eq!(PlayerClass::Warrior.name(), "Warrior");
    assert_eq!(PlayerClass::Balanced.name(), "Adventurer");
    assert_eq!(PlayerClass::Mage.description(), "High intelligence. Master of magic and spells.");
}

#[test]
fn quest_flags_default_false() {
    let mut flags = QuestFlags::new();
    assert!(!flags.has_quest_flag("met_merchant"));
    flags.set_quest_flag("met_merchant", true);
    assert!(flags.has_quest_flag("met_merchant"));
    flags.set_quest_flag("met_merchant", false);
    assert!(!flags.has_quest_flag("met_merchant"));
    flags.set_quest_flag("other", true);
    assert!(flags.has_quest_flag("other"));
    assert!(!flags.has_quest_flag("met_merchant"));
}

#[test]
fn conditions() {
    let mut flags = QuestFlags::new();
    flags.set_quest_flag("door_open", true);
    let level = Level::new();
    let mut inv = Inventory::new(2);
    inv.add_gold(15);
    inv.add_item(ItemId(100), 99, 3);
    assert!(DialogueCondition::HasQuestFlag("door_open".to_string()).check(&flags, &level, &inv));
    assert!(!DialogueCondition::NoQuestFlag("door_open".to_string()).check(&flags, &level, &inv));
    assert!(DialogueCondition::NoQuestFlag("unknown".to_string()).check(&flags, &level, &inv));
    assert!(DialogueCondition::HasItem(ItemId(100), 3).check(&flags, &level, &inv));
    assert!(!DialogueCondition::HasItem(ItemId(100), 4).check(&flags, &level, &inv));
    assert!(DialogueCondition::MinLevel(1).check(&flags, &level, &inv));
    assert!(!DialogueCondition::MinLevel(2).check(&flags, &level, &inv));
    assert!(DialogueCondition::MinGold(10).check(&flags, &level, &inv));
    assert!(!DialogueCondition::MinGold(16).check(&flags, &level, &inv));
    assert!(DialogueCondition::AlwaysTrue.check(&flags, &level, &inv));
}

#[test]
fn available_choices_filter_by_condition() {
    let mut tree = DialogueTree::new("t", "Test", DialogueId(1));
    tree.add_node(
        DialogueNode::new(1, Speaker::Narrator, "Hello")
            .with_choice(DialogueChoice::new("a"))
            .with_choice(DialogueChoice::new("b").with_condition(DialogueCondition::MinGold(10)))
            .with_choice(DialogueChoice::new("c").with_next(DialogueId(2)).with_action(DialogueAction::EndDialogue)),
    );
    let flags = QuestFlags::new();
    let level = Level::new();
    let mut inv = Inventory::new(1);
    let texts: Vec<String> =
        tree.get_available_choices(DialogueId(1), &flags, &level, &inv).iter().map(|c| c.text.clone()).collect();
    assert_eq!(texts, vec!["a".to_string(), "c".to_string()]);
    inv.add_gold(10);
    assert_eq!(tree.get_available_choices(DialogueId(1), &flags, &level, &inv).len(), 3);
    assert!(tree.get_available_choices(DialogueId(9), &flags, &level, &inv).is_empty());
    assert_eq!(tree.get_node(DialogueId(1)).map(|n| n.choices.len()), Some(3));
    assert!(tree.get_node(DialogueId(2)).is_none());
}

#[test]
fn objective_descriptions() {
    let kill = QuestObjective::KillEnemies { enemy_id: 1, current: 2, required: 15 };
    assert_eq!(kill.description(), "Defeat enemies: 2/15");
    assert!(!kill.is_complete());
    let collect = QuestObjective::CollectItems { item_id: ItemId(200), current: 1, required: 1 };
    assert_eq!(collect.description(), "Collect items: 1/1");
    assert!(collect.is_complete());
    let reach = QuestObjective::ReachLocation { location: "Cave".to_string(), reached: false };
    assert_eq!(reach.description(), "Reach Cave: \u{2717}");
    let talk = QuestObjective::TalkToNpc { npc_id: "Smith".to_string(), talked: true };
    assert_eq!(talk.description(), "Talk to Smith: \u{2713}");
    let big = QuestObjective::KillEnemies { enemy_id: 1, current: 0, required: 4294967295 };
    assert_eq!(big.description(), "Defeat enemies: 0/4294967295");
}

#[test]
fn quest_lifecycle() {
    let mut q = Quest::new("q", "Quest", "Do it")
        .with_objective(QuestObjective::TalkToNpc { npc_id: "a".to_string(), talked: true })
        .with_objective(QuestObjective::KillEnemies { enemy_id: 1, current: 4, required: 5 })
        .with_reward(DialogueAction::GiveGold(5))
        .with_required_level(2);
    assert_eq!(q.required_level, 2);
    assert_eq!(q.rewards.len(), 1);
    assert!(!q.is_complete());
    assert_eq!(q.status, QuestStatus::NotStarted);
    q.start();
    assert_eq!(q.status, QuestStatus::Active);
    q.objectives[1] = QuestObjective::KillEnemies { enemy_id: 1, current: 5, required: 5 };
    assert!(q.is_complete());
    q.complete();
    assert_eq!(q.status, QuestStatus::Completed);
    assert!(Quest::new("e", "E", "").is_complete());
}

#[test]
fn story_database_lookup_and_replace() {
    let mut db = StoryDatabase::new();
    assert!(db.get_quest("a").is_none());
    db.add_quest(Quest::new("a", "First", ""));
    db.add_quest(Quest::new("b", "Second", ""));
    db.add_quest(Quest::new("a", "Replaced", ""));
    assert_eq!(db.get_quest("a").map(|q| q.name.clone()), Some("Replaced".to_string()));
    assert_eq!(db.get_quest("b").map(|q| q.name.clone()), Some("Second".to_string()));
    if let Some(q) = db.get_quest_mut("b") {
        q.start();
    }
    assert_eq!(db.get_quest("b").map(|q| q.status), Some(QuestStatus::Active));
    assert!(db.get_quest_mut("zzz").is_none());
    db.add_dialogue(DialogueTree::new("d", "Dialogue", DialogueId(1)));
    assert_eq!(db.get_dialogue("d").map(|t| t.root_node), Some(DialogueId(1)));
    assert!(db.get_dialogue("x").is_none());
}

#[test]
fn starter_content() {
    let db = StoryDatabase::with_starter_content();
    let merchant = db.get_dialogue("merchant_1").expect("merchant dialogue");
    assert_eq!(merchant.nodes.len(), 3);
    assert_eq!(merchant.get_node(DialogueId(1000)).map(|n| n.choices.len()), Some(3));
    let rats = db.get_quest("rat_problem").expect("rat quest");
    assert_eq!(rats.rewards.len(), 3);
    assert_eq!(db.get_quest("mysterious_key").map(|q| q.required_level), Some(3));
}
