use daleks::enums::{ObjectType, PlayerCommand};

#[test]
fn robots_are_robots() {
    assert!(ObjectType::Robot1.is_robot());
    assert!(ObjectType::Robot2.is_robot());
    assert!(!ObjectType::Player.is_robot());
    assert!(!ObjectType::Heap.is_robot());
    assert!(!ObjectType::Empty.is_robot());
}

#[test]
fn directions_of_commands() {
    assert_eq!(PlayerCommand::NW.to_direction(), (-1, -1));
    assert_eq!(PlayerCommand::N.to_direction(), (0, -1));
    assert_eq!(PlayerCommand::NE.to_direction(), (1, -1));
    assert_eq!(PlayerCommand::W.to_direction(), (-1, 0));
    assert_eq!(PlayerCommand::Stay.to_direction(), (0, 0));
    assert_eq!(PlayerCommand::E.to_direction(), (1, 0));
    assert_eq!(PlayerCommand::SW.to_direction(), (-1, 1));
    assert_eq!(PlayerCommand::S.to_direction(), (0, 1));
    assert_eq!(PlayerCommand::SE.to_direction(), (1, 1));
    assert_eq!(PlayerCommand::SafeTeleport.to_direction(), (0, 0));
    assert_eq!(PlayerCommand::RandomTeleport.to_direction(), (0, 0));
    assert_eq!(PlayerCommand::Wait.to_direction(), (0, 0));
}
