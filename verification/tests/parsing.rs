//! The ship submission format: strict parsing, encoding, and the
//! round-trip guarantee.

use battleship::board::Coordinate;
use battleship::codec::encode_ship_coords;
use battleship::ships::ShipValidator;
use battleship::GameError;

fn c(x: u8, y: u8) -> Coordinate {
    Coordinate::new(x, y).unwrap()
}

#[test]
fn parse_simple_group() {
    let coords = ShipValidator::parse_ship_coords("0,0;0,1;0,2").unwrap();
    assert_eq!(coords, vec![c(0, 0), c(0, 1), c(0, 2)]);
}

#[test]
fn parse_single_pair() {
    let coords = ShipValidator::parse_ship_coords("7,3").unwrap();
    assert_eq!(coords, vec![c(7, 3)]);
}

#[test]
fn parse_accepts_leading_zeros() {
    let coords = ShipValidator::parse_ship_coords("07,003").unwrap();
    assert_eq!(coords, vec![c(7, 3)]);
}

#[test]
fn parse_rejects_malformed_input() {
    for bad in [
        "",
        ";",
        "1",
        "1,",
        ",1",
        "1,2;",
        ";1,2",
        "1,2;;3,4",
        "a,b",
        "1,2 ;3,4",
        " 1,2",
        "1,2,3",
        "1;2",
        "1.2",
    ] {
        let r = ShipValidator::parse_ship_coords(bad);
        assert!(
            matches!(r, Err(GameError::Invalid(_))),
            "expected Invalid for {:?}",
            bad
        );
    }
}

#[test]
fn parse_rejects_out_of_range_values() {
    assert!(matches!(
        ShipValidator::parse_ship_coords("10,0"),
        Err(GameError::Invalid(_))
    ));
    assert!(matches!(
        ShipValidator::parse_ship_coords("0,10"),
        Err(GameError::Invalid(_))
    ));
    assert!(matches!(
        ShipValidator::parse_ship_coords("0,0;999,1"),
        Err(GameError::Invalid(_))
    ));
    assert!(matches!(
        ShipValidator::parse_ship_coords("123456789123456789,0"),
        Err(GameError::Invalid(_))
    ));
}

#[test]
fn encode_produces_the_submission_format() {
    let coords = [c(0, 0), c(1, 0), c(2, 0)];
    assert_eq!(encode_ship_coords(&coords), "0,0;1,0;2,0");
    let one = [c(9, 9)];
    assert_eq!(encode_ship_coords(&one), "9,9");
}

#[test]
fn encode_then_parse_round_trips() {
    let fleets: Vec<Vec<Coordinate>> = vec![
        vec![c(0, 0), c(1, 0), c(2, 0), c(3, 0), c(4, 0)],
        vec![c(5, 5), c(5, 6)],
        vec![c(9, 0), c(9, 1), c(9, 2), c(9, 3)],
        vec![c(3, 7)],
    ];
    for coords in fleets {
        let encoded = encode_ship_coords(&coords);
        let parsed = ShipValidator::parse_ship_coords(encoded.as_str()).unwrap();
        assert_eq!(parsed, coords);
    }
}
