use agari::display::{tile_to_unicode, tiles_to_unicode};
use agari::tile::{Honor, Suit, Tile};


#[test]
    fn test_tile_to_unicode() {
        assert_eq!(tile_to_unicode(&Tile::suited(Suit::Man, 1)), "🀇 ");
        assert_eq!(tile_to_unicode(&Tile::suited(Suit::Man, 9)), "🀏 ");
        assert_eq!(tile_to_unicode(&Tile::honor(Honor::East)), "🀀 ");
        assert_eq!(tile_to_unicode(&Tile::honor(Honor::Red)), "🀄︎ ");
    }

#[test]
    fn test_tiles_to_unicode() {
        let tiles = vec![
            Tile::suited(Suit::Man, 1),
            Tile::suited(Suit::Man, 2),
            Tile::suited(Suit::Man, 3),
        ];
        assert_eq!(tiles_to_unicode(&tiles), "🀇 🀈 🀉 ");
    }
