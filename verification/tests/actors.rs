use adventure_rs::adventurer::Adventurer;
use adventure_rs::enemy::Enemy;
use adventure_rs::game_actor::GameActor;
use adventure_rs::item::ItemMap;

#[test]
fn adventurer_reports_its_capabilities() {
    let noob = Adventurer { items: ItemMap::new(), health: 10, mana: 10 };
    assert_eq!(noob.get_game_actor_type(), "Adventurer");
    assert_eq!(*noob.get_health(), 10);
    assert_eq!(*noob.get_mana(), 10);
}

#[test]
fn enemy_takes_a_blow() {
    let mut skeleton = Enemy { health: 5, mana: 5 };
    assert_eq!(skeleton.get_game_actor_type(), "Enemy");
    skeleton.set_health(skeleton.get_health() - 1);
    assert_eq!(*skeleton.get_health(), 4);
    assert_eq!(*skeleton.get_mana(), 5);
}

#[test]
fn set_then_get_returns_exactly_the_amount() {
    let mut hero = Adventurer { items: ItemMap::new(), health: 99, mana: 99 };
    hero.set_health(7);
    assert_eq!(*hero.get_health(), 7);
    hero.set_mana(3);
    assert_eq!(*hero.get_mana(), 3);
    assert_eq!(*hero.get_health(), 7);

    let mut skeleton = Enemy { health: 5, mana: 5 };
    skeleton.set_mana(0);
    assert_eq!(*skeleton.get_mana(), 0);
    assert_eq!(*skeleton.get_health(), 5);
}
