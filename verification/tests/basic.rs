use chess::{Board, Colour, Square};

#[test]
fn board() {
    let board = Board::new();
    let _ = board;
}

#[test]
fn square() {
    let indexed_square1 = Square::from_index(0).coord;
    assert_eq!(indexed_square1.row, 0);
    assert_eq!(indexed_square1.column, 0);

    let indexed_square2 = Square::from_index(8).coord;
    assert_eq!(indexed_square2.row, 1);
    assert_eq!(indexed_square2.column, 0);

    let indexed_square3 = Square::from_index(5).coord;
    assert_eq!(indexed_square3.row, 0);
    assert_eq!(indexed_square3.column, 5);

    let indexed_square4 = Square::from_index(19).coord;
    assert_eq!(indexed_square4.row, 2);
    assert_eq!(indexed_square4.column, 3)
}

#[test]
fn colour() {
    assert_eq!(Colour::White, Colour::Black.invert());
    assert_eq!(Colour::White, Colour::White);
    assert_eq!(Colour::Black, Colour::White.invert());
    assert_eq!(Colour::Black, Colour::Black);
    assert_ne!(Colour::Black, Colour::White);
}

#[test]
fn square_from_coord() {
    let sq = Square::from_coord(&chess::Coord { row: 2, column: 3 });
    assert_eq!(sq.index, 19);
}

#[test]
fn square_from_text() {
    let sq = Square::from_str(&['f', '3']).unwrap();
    assert_eq!(sq.coord.row, 2);
    assert_eq!(sq.coord.column, 5);
    assert_eq!(sq.index, 21);

    let digits = Square::from_str(&['2', '4']).unwrap();
    assert_eq!(digits.coord.column, 1);
    assert_eq!(digits.coord.row, 3);

    assert_eq!(
        Square::from_str(&['z', '3']).unwrap_err(),
        "Invalid column letter"
    );
    assert_eq!(Square::from_str(&['a', '9']).unwrap_err(), "Row was not 1 to 8");
    assert_eq!(Square::from_str(&['a', '0']).unwrap_err(), "Row was not 1 to 8");
    assert_eq!(
        Square::from_str(&['a', 'x']).unwrap_err(),
        "Row was not a number"
    );
}
