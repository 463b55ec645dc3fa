use termchat::colors::{Color, UserColors};

const PALETTE: [Color; 9] = [
    Color { red: 255, green: 0, blue: 0 },
    Color { red: 0, green: 255, blue: 0 },
    Color { red: 255, green: 255, blue: 0 },
    Color { red: 255, green: 0, blue: 255 },
    Color { red: 0, green: 255, blue: 255 },
    Color { red: 255, green: 100, blue: 100 },
    Color { red: 255, green: 255, blue: 100 },
    Color { red: 255, green: 100, blue: 255 },
    Color { red: 100, green: 255, blue: 255 },
];

const SENTINEL: Color = Color { red: 135, green: 206, blue: 235 };

#[test]
fn same_username_keeps_its_color() {
    let mut t = UserColors::new();
    let first = t.get_color("alice");
    t.get_color("bob");
    t.get_color("carol");
    assert_eq!(t.get_color("alice"), first);
    assert_eq!(t.get_color("alice"), first);
}

#[test]
fn distinct_usernames_cycle_through_palette() {
    let mut t = UserColors::new();
    for round in 0..2 {
        for i in 0..9 {
            let name = format!("user-{}-{}", round, i);
            assert_eq!(t.get_color(&name), PALETTE[i], "round {} name {}", round, name);
        }
    }
}

#[test]
fn tenth_user_repeats_first_hue() {
    let mut t = UserColors::new();
    let mut colors = Vec::new();
    for i in 0..10 {
        colors.push(t.get_color(&format!("u{}", i)));
    }
    assert_eq!(colors[9], colors[0]);
    assert_ne!(colors[1], colors[0]);
}

#[test]
fn reserved_name_always_gets_sentinel() {
    let mut t = UserColors::new();
    assert_eq!(t.get_color("Server"), SENTINEL);
    assert_eq!(t.get_color("server"), SENTINEL);
    assert_eq!(t.get_color("SERVER"), SENTINEL);
    assert_eq!(t.get_color(" server "), SENTINEL);
}

#[test]
fn reserved_name_never_consumes_a_palette_slot() {
    let mut t = UserColors::new();
    t.get_color("Server");
    t.get_color("SERVER");
    // The first real user still gets the first palette color: the
    // reserved lookups left the table untouched.
    assert_eq!(t.get_color("alice"), PALETTE[0]);
    assert_eq!(t.assigned.len(), 1);
}

#[test]
fn case_variants_of_one_name_share_a_color() {
    // Keys are normalized, so sightings differing only in case or
    // surrounding whitespace are one user.
    let mut t = UserColors::new();
    let c = t.get_color("Alice");
    assert_eq!(t.get_color("alice"), c);
    assert_eq!(t.get_color(" ALICE "), c);
    assert_eq!(t.assigned.len(), 1);
}
