use mcrs::{is_valid_command_name, Argument, Block, Command, Coordinate, Coordinate2D};

#[test]
fn command_with_coordinates() {
    let line = Command::new("world.getBlocksWithData")
        .arg_coordinate(Coordinate::new(0, 0, 0))
        .arg_coordinate(Coordinate::new(1, 1, 1))
        .build();
    assert_eq!(line, "world.getBlocksWithData(0,0,0,1,1,1)\n");
}

#[test]
fn command_without_arguments() {
    assert_eq!(Command::new("player.getPos").build(), "player.getPos()\n");
}

#[test]
fn command_integer_and_block_arguments() {
    let line = Command::new("world.setBlock")
        .arg_coordinate(Coordinate::new(-12, 0, i32::MIN))
        .arg_block(Block::new(41, 0))
        .arg_int(i32::MAX)
        .build();
    assert_eq!(line, "world.setBlock(-12,0,-2147483648,41,0,2147483647)\n");
    let line = Command::new("a").arg_block(Block::new(u32::MAX, 7)).build();
    assert_eq!(line, "a(4294967295,7)\n");
}

#[test]
fn string_arguments_are_sanitized() {
    let line = Command::new("chat.post").arg_string("Hel)\nlo").build();
    assert_eq!(line, "chat.post(Hel) lo)\n");
    let line = Command::new("chat.post")
        .arg_string("h\u{e9}llo\u{1}\tok\r")
        .build();
    assert_eq!(line, "chat.post(hllo\tok)\n");
    let line = Command::new("player.doCommand").arg_string("help\n").build();
    assert_eq!(line, "player.doCommand(help )\n");
}

#[test]
fn command_names() {
    assert!(is_valid_command_name("world.getBlocksWithData"));
    assert!(is_valid_command_name("chat.post"));
    assert!(is_valid_command_name("a"));
    assert!(!is_valid_command_name(""));
    assert!(!is_valid_command_name(".post"));
    assert!(!is_valid_command_name("chat."));
    assert!(!is_valid_command_name("."));
    assert!(!is_valid_command_name("chat post"));
    assert!(!is_valid_command_name("chat(post"));
    assert!(!is_valid_command_name("w\u{e9}rld"));
}

#[test]
fn argument_wire_forms() {
    let mut out = Vec::new();
    Argument::Coordinate(Coordinate::new(1, -2, 3)).write_to(&mut out);
    assert_eq!(out, b"1,-2,3".to_vec());
    let mut out = Vec::new();
    Argument::Coordinate2D(Coordinate2D::new(-7, 70)).write_to(&mut out);
    assert_eq!(out, b"-7,70".to_vec());
    let mut out = Vec::new();
    Argument::Block(Block::new(35, 14)).write_to(&mut out);
    assert_eq!(out, b"35,14".to_vec());
    let mut out = b"x".to_vec();
    Argument::Int(-305).write_to(&mut out);
    assert_eq!(out, b"x-305".to_vec());
    let mut out = Vec::new();
    Argument::Text(String::from("a\nb\u{7f}c")).write_to(&mut out);
    assert_eq!(out, b"a bc".to_vec());
}
