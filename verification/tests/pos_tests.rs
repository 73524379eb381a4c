use libcoinche::pos::{PlayerPos, Team};

#[test]
fn test_teams() {
    assert_eq!(PlayerPos::P0.team(), PlayerPos::P2.team());
    assert_eq!(PlayerPos::P0.team(), Team::T02);

    assert_eq!(PlayerPos::P1.team(), PlayerPos::P3.team());
    assert_eq!(PlayerPos::P1.team(), Team::T13);

    assert!(PlayerPos::P0.team() != PlayerPos::P1.team());
}

#[test]
fn test_pos() {
    let mut count = [0; 4];
    for i in 0..4 {
        let mut it = PlayerPos::from_n(i).until(PlayerPos::from_n(0));
        while let Some(pos) = it.next() {
            count[pos.n()] += 1;
        }
        let mut it = PlayerPos::from_n(0).until(PlayerPos::from_n(i));
        while let Some(pos) = it.next() {
            count[pos.n()] += 1;
        }
    }

    for c in count.iter() {
        assert!(*c == 5);
    }

    for i in 0..4 {
        assert!(PlayerPos::from_n(i).next() == PlayerPos::from_n((i + 1) % 4));
        assert!(PlayerPos::from_n(i) == PlayerPos::from_n((i + 1) % 4).prev());
        assert!(PlayerPos::from_n(i).next().prev() == PlayerPos::from_n(i));
    }
}

#[test]
fn test_team_of_seat() {
    assert_eq!(Team::from_n(0), Team::T02);
    assert_eq!(Team::from_n(1), Team::T13);
    assert_eq!(Team::from_n(2), Team::T02);
    assert_eq!(Team::from_n(3), Team::T13);
    assert_eq!(Team::T02.opponent(), Team::T13);
    assert_eq!(Team::T13.opponent(), Team::T02);
}

#[test]
fn test_distance_until() {
    assert_eq!(PlayerPos::P0.distance_until(PlayerPos::P1), 1);
    assert_eq!(PlayerPos::P0.distance_until(PlayerPos::P3), 3);
    assert_eq!(PlayerPos::P0.distance_until(PlayerPos::P0), 4);
    assert_eq!(PlayerPos::P3.distance_until(PlayerPos::P0), 1);
    assert_eq!(PlayerPos::P2.next_n(6), PlayerPos::P0);
    assert_eq!(PlayerPos::P2.next_n(0), PlayerPos::P2);
    assert!(PlayerPos::P0.is_partner(PlayerPos::P2));
    assert!(!PlayerPos::P0.is_partner(PlayerPos::P3));
}
