use match_sim::codes::{position_of_code, read_position, read_surface, surface_of_code};
use match_sim::entities::{Position, Surface};

#[test]
fn positions_are_read_from_their_codes() {
    assert_eq!(position_of_code("av"), Position::Attacker);
    assert_eq!(position_of_code("vd"), Position::Defender);
    assert_eq!(position_of_code("mv"), Position::Midfield);
    assert_eq!(position_of_code("kp"), Position::Goalkeeper);
}

#[test]
fn an_unknown_code_is_a_player_off_the_field() {
    for code in ["", "xx", " av", "av ", "a", "avv", "attacker"] {
        assert_eq!(position_of_code(code), Position::NotOnTheField);
        assert_eq!(code.parse::<Position>(), Ok(Position::NotOnTheField));
    }
}

#[test]
fn a_code_in_lower_case_is_read_as_it_stands() {
    assert_eq!(position_of_code("AV"), Position::NotOnTheField);
    assert_eq!(surface_of_code("Grass"), Surface::Unknown);
}

#[test]
fn positions_are_read_in_any_case() {
    assert_eq!("AV".parse::<Position>(), Ok(Position::Attacker));
    assert_eq!("Vd".parse::<Position>(), Ok(Position::Defender));
    assert_eq!("mV".parse::<Position>(), Ok(Position::Midfield));
    assert_eq!("KP".parse::<Position>(), Ok(Position::Goalkeeper));
    assert_eq!(read_position("Av"), Position::Attacker);
    // The Kelvin sign is an upper-case letter whose lower case is k.
    assert_eq!("\u{212A}p".parse::<Position>(), Ok(Position::Goalkeeper));
}

#[test]
fn surfaces_are_read_from_their_names() {
    assert_eq!(surface_of_code("grass"), Surface::Grass);
    assert_eq!(surface_of_code("kunstgras"), Surface::ArtificialGrass);
    assert_eq!(surface_of_code("hybride"), Surface::Hybrid);
    assert_eq!(surface_of_code("sand"), Surface::Unknown);
    assert_eq!(surface_of_code(""), Surface::Unknown);
}

#[test]
fn surfaces_are_read_in_any_case() {
    assert_eq!("Grass".parse::<Surface>(), Ok(Surface::Grass));
    assert_eq!("KUNSTGRAS".parse::<Surface>(), Ok(Surface::ArtificialGrass));
    assert_eq!("Hybride".parse::<Surface>(), Ok(Surface::Hybrid));
    assert_eq!("hybrid".parse::<Surface>(), Ok(Surface::Unknown));
    assert_eq!(read_surface("GRASS"), Surface::Grass);
}
