use ultima::{File, Rank, Rankfile};

fn rf(r: i8, f: i8) -> Rankfile {
    Rankfile::from(r, f).unwrap()
}

#[test]
fn round_trip_all_coords() {
    for r in 0..8i8 {
        for f in 0..8i8 {
            let a = Rankfile::from(r, f).expect("in-bounds coordinates must build a square");
            assert_eq!(a.to_signed_coords(), (r, f));
            let (ur, uf) = a.to_unsigned_coords();
            assert_eq!((ur, uf), (r as usize, f as usize));
        }
    }
}

#[test]
fn out_of_range_coords_yield_no_value() {
    assert!(Rankfile::from(-1, 0).is_none());
    assert!(Rankfile::from(0, -1).is_none());
    assert!(Rankfile::from(8, 0).is_none());
    assert!(Rankfile::from(0, 8).is_none());
    assert!(Rankfile::from(127, 127).is_none());
    assert!(Rank::new_if_exists(8).is_none());
    assert!(Rank::new_if_exists(-1).is_none());
    assert!(File::new_if_exists(8).is_none());
    assert!(File::new_if_exists(-1).is_none());
}

#[test]
fn rank_and_file_indices_round_trip() {
    for i in 0..8i8 {
        let r = Rank::new_if_exists(i).unwrap();
        assert_eq!(r.as_index(), i);
        let f = File::new_if_exists(i).unwrap();
        assert_eq!(f.as_index(), i);
    }
}

#[test]
fn from_strings_accepts_valid_notation() {
    let a = Rankfile::from_strings(String::from("3"), String::from("C")).unwrap();
    assert_eq!(a.to_signed_coords(), (2, 2));
    let b = Rankfile::from_strings(String::from("3"), String::from("c")).unwrap();
    assert_eq!(b.to_signed_coords(), (2, 2));
    let c = Rankfile::from_strings(String::from("1"), String::from("a")).unwrap();
    assert_eq!(c.to_signed_coords(), (0, 0));
    let d = Rankfile::from_strings(String::from("8"), String::from("H")).unwrap();
    assert_eq!(d.to_signed_coords(), (7, 7));
}

#[test]
fn from_strings_rejects_invalid_notation() {
    assert!(Rankfile::from_strings(String::from("9"), String::from("A")).is_none());
    assert!(Rankfile::from_strings(String::from("0"), String::from("A")).is_none());
    assert!(Rankfile::from_strings(String::from("1"), String::from("I")).is_none());
    assert!(Rankfile::from_strings(String::from("12"), String::from("A")).is_none());
    assert!(Rankfile::from_strings(String::from("1"), String::from("AB")).is_none());
    assert!(Rankfile::from_strings(String::from(""), String::from("A")).is_none());
    assert!(Rankfile::from_strings(String::from("1"), String::from("")).is_none());
    assert!(Rankfile::from_strings(String::from("A"), String::from("1")).is_none());
}

#[test]
fn to_strings_produces_notation() {
    let (r, f) = rf(0, 0).to_strings();
    assert_eq!(r, "1");
    assert_eq!(f, "A");
    let (r, f) = rf(7, 7).to_strings();
    assert_eq!(r, "8");
    assert_eq!(f, "H");
    let (r, f) = rf(3, 4).to_strings();
    assert_eq!(r, "4");
    assert_eq!(f, "E");
}

#[test]
fn strings_round_trip() {
    for r in 0..8i8 {
        for f in 0..8i8 {
            let a = rf(r, f);
            let (rs, fs) = a.to_strings();
            let b = Rankfile::from_strings(rs, fs).unwrap();
            assert_eq!(b, a);
        }
    }
}

#[test]
fn direction_sets_have_fixed_contents() {
    let all: Vec<(i8, i8)> = Rankfile::all_directions();
    assert_eq!(
        all,
        vec![(1, 0), (1, -1), (0, -1), (-1, -1), (-1, 0), (-1, 1), (0, 1), (1, 1)]
    );
    let card: Vec<(i8, i8)> = Rankfile::cardinal_directions();
    assert_eq!(card, vec![(1, 0), (0, -1), (-1, 0), (0, 1)]);
}

#[test]
fn surrounding_squares_respect_the_board_edge() {
    let corner = rf(0, 0).surrounding_rankfiles();
    assert_eq!(corner.len(), 3);
    assert!(corner.contains(&rf(1, 0)));
    assert!(corner.contains(&rf(0, 1)));
    assert!(corner.contains(&rf(1, 1)));
    let centre = rf(3, 3).surrounding_rankfiles();
    assert_eq!(centre.len(), 8);
    assert!(!centre.contains(&rf(3, 3)));
}

#[test]
fn ray_enumerations_stop_at_the_edge() {
    let card = rf(0, 0).card_rankfiles();
    assert_eq!(card.len(), 14);
    assert!(card.contains(&rf(7, 0)));
    assert!(card.contains(&rf(0, 7)));
    let all = rf(0, 0).card_ord_rankfiles();
    assert_eq!(all.len(), 21);
    assert!(all.contains(&rf(7, 7)));
    assert!(!all.contains(&rf(0, 0)));
}
