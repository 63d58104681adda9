use agari::tile::{Honor, Suit, Tile};


#[test]
    fn create_tiles() {
        // Using the new helper methods
        let five_man = Tile::suited(Suit::Man, 5);
        let red_dragon = Tile::honor(Honor::Red);

        println!("{:?}", five_man);
        println!("{:?}", red_dragon);

        assert_eq!(five_man, Tile::suited(Suit::Man, 5));
    }

#[test]
    fn tile_properties() {
        // Simples: 2-8 of any suit
        assert!(Tile::suited(Suit::Pin, 5).is_simple());
        assert!(!Tile::suited(Suit::Pin, 1).is_simple());
        assert!(!Tile::suited(Suit::Pin, 9).is_simple());
        assert!(!Tile::honor(Honor::East).is_simple());

        // Terminals and honors
        assert!(Tile::suited(Suit::Sou, 1).is_terminal_or_honor());
        assert!(Tile::suited(Suit::Sou, 9).is_terminal_or_honor());
        assert!(Tile::honor(Honor::White).is_terminal_or_honor());
        assert!(!Tile::suited(Suit::Man, 5).is_terminal_or_honor());
    }
