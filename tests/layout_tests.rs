use keylayout::geometry::{key_fingers, key_hands, key_rows, Finger, Hand, Row};
use keylayout::layout::{KeyPress, Layout, LAYOUT_MASK_NUM_SWAPPABLE};
use keylayout::presets::{
    colemak_layout, dvorak_layout, init_layout, qgmlwy_layout, qwerty_layout, workman_layout,
};

fn sorted(keys: [char; 33]) -> Vec<char> {
    let mut v = keys.to_vec();
    v.sort();
    v
}

fn all_presets() -> Vec<Layout> {
    vec![
        init_layout(),
        qwerty_layout(),
        dvorak_layout(),
        colemak_layout(),
        qgmlwy_layout(),
        workman_layout(),
    ]
}

#[test]
fn init_layout_display_text() {
    let expected = "q u p g / | z l w y - =\n\
                    a r n s d | f h t i o '\n\
                    j k v c ; | x m b , .\n        \
                    e";
    assert_eq!(init_layout().to_string(), expected);
}

#[test]
fn qwerty_display_text() {
    let expected = "q w e r t | y u i o p -\na s d f g | h j k l ; '\nz x c v b | n m , . /\n        \0";
    assert_eq!(qwerty_layout().to_string(), expected);
}

#[test]
fn key_press_of_q_in_init_layout() {
    let map = init_layout().get_position_map();
    let kp = KeyPress::new('q', &map).unwrap();
    assert_eq!(kp.kc, 'q');
    assert_eq!(kp.pos, 0);
    assert_eq!(kp.finger, Finger::Pinky);
    assert_eq!(kp.hand, Hand::Left);
    assert_eq!(kp.row, Row::Top);
}

#[test]
fn key_press_of_thumb_key() {
    let map = init_layout().get_position_map();
    let kp = KeyPress::new('e', &map).unwrap();
    assert_eq!(kp.pos, 32);
    assert_eq!(kp.finger, Finger::Thumb);
    assert_eq!(kp.hand, Hand::Left);
    assert_eq!(kp.row, Row::Thumb);
}

#[test]
fn key_press_of_right_hand_home_key() {
    let map = init_layout().get_position_map();
    let kp = KeyPress::new('T', &map).unwrap();
    assert_eq!(kp.pos, 18);
    assert_eq!(kp.finger, Finger::Middle);
    assert_eq!(kp.hand, Hand::Right);
    assert_eq!(kp.row, Row::Home);
}

#[test]
fn every_present_char_is_classified_by_the_geometry() {
    let fingers = key_fingers();
    let hands = key_hands();
    let rows = key_rows();
    for layout in all_presets() {
        let map = layout.get_position_map();
        let lower = layout.lower_keys();
        let upper = layout.upper_keys();
        for c in lower.iter().chain(upper.iter()) {
            let kp = KeyPress::new(*c, &map).unwrap();
            assert_eq!(kp.kc, *c);
            assert!(kp.pos < 33);
            assert!(lower[kp.pos] == *c || upper[kp.pos] == *c);
            assert_eq!(kp.finger, fingers.0[kp.pos]);
            assert_eq!(kp.hand, hands.0[kp.pos]);
            assert_eq!(kp.row, rows.0[kp.pos]);
        }
    }
}

#[test]
fn absent_char_has_no_key_press() {
    let map = init_layout().get_position_map();
    assert!(KeyPress::new('!', &map).is_none());
    assert_eq!(map.get_key_position('!'), None);
}

#[test]
fn wide_chars_have_no_position() {
    for layout in all_presets() {
        let map = layout.get_position_map();
        assert_eq!(map.get_key_position('\u{1F600}'), None);
        assert_eq!(map.get_key_position('\u{80}'), None);
        assert_eq!(map.get_key_position('é'), None);
        assert!(KeyPress::new('\u{1F600}', &map).is_none());
    }
}

#[test]
fn later_position_wins_within_a_layer() {
    // The shifted Colemak layer holds 'Z' at positions 22 and 31.
    let map = colemak_layout().get_position_map();
    assert_eq!(map.get_key_position('Z'), Some(31));
}

#[test]
fn nul_key_is_indexed() {
    let map = qwerty_layout().get_position_map();
    assert_eq!(map.get_key_position('\0'), Some(32));
}

#[test]
fn swap_exchanges_both_layers() {
    let mut layout = init_layout();
    layout.swap(0, 1);
    let lower = layout.lower_keys();
    let upper = layout.upper_keys();
    assert_eq!(lower[0], 'u');
    assert_eq!(lower[1], 'q');
    assert_eq!(upper[0], 'U');
    assert_eq!(upper[1], 'Q');
    assert_eq!(layout.get_position_map().get_key_position('q'), Some(1));
}

#[test]
fn swap_of_a_position_with_itself_changes_nothing() {
    let mut layout = init_layout();
    layout.swap(7, 7);
    assert_eq!(layout.lower_keys(), init_layout().lower_keys());
    assert_eq!(layout.upper_keys(), init_layout().upper_keys());
}

#[test]
fn shuffle_zero_times_changes_nothing() {
    let mut layout = init_layout();
    layout.shuffle(0);
    assert_eq!(layout.lower_keys(), init_layout().lower_keys());
    assert_eq!(layout.upper_keys(), init_layout().upper_keys());
}

#[test]
fn shuffle_keeps_the_keys_of_each_layer() {
    for original in all_presets() {
        let mut layout = original.clone();
        layout.shuffle(1000);
        assert_eq!(sorted(layout.lower_keys()), sorted(original.lower_keys()));
        assert_eq!(sorted(layout.upper_keys()), sorted(original.upper_keys()));
    }
}

#[test]
fn shuffle_moves_both_layers_together() {
    let original = init_layout();
    let mut layout = original.clone();
    layout.shuffle(500);
    let lower0 = original.lower_keys();
    let upper0 = original.upper_keys();
    let lower = layout.lower_keys();
    let upper = layout.upper_keys();
    for k in 0..33 {
        let from = lower0.iter().position(|c| *c == lower[k]).unwrap();
        assert_eq!(upper[k], upper0[from]);
    }
}

#[test]
fn shuffle_leaves_ineligible_keys_in_place() {
    for original in all_presets() {
        let mut layout = original.clone();
        for _ in 0..200 {
            layout.shuffle(50);
            for k in [10usize, 32usize] {
                assert_eq!(layout.lower_keys()[k], original.lower_keys()[k]);
                assert_eq!(layout.upper_keys()[k], original.upper_keys()[k]);
            }
        }
    }
}

#[test]
fn random_draws_select_distinct_eligible_positions() {
    for _ in 0..10000 {
        let (i, j) = Layout::positions_from_draws(rand::random(), rand::random());
        assert_ne!(i, j);
        assert!(i < 33 && j < 33);
        assert!(i != 10 && i != 32);
        assert!(j != 10 && j != 32);
    }
}

#[test]
fn every_draw_near_the_bounds_is_valid() {
    for a in [0usize, 1, 29, 30, 31, 62, usize::MAX - 1, usize::MAX] {
        for b in [0usize, 1, 28, 29, 30, 59, usize::MAX - 1, usize::MAX] {
            let (i, j) = Layout::positions_from_draws(a, b);
            assert_ne!(i, j);
            assert!(i < 33 && j < 33 && i != 10 && i != 32 && j != 10 && j != 32);
        }
    }
}

#[test]
fn draws_map_to_exact_positions() {
    assert_eq!(Layout::positions_from_draws(0, 0), (0, 1));
    assert_eq!(Layout::positions_from_draws(10, 9), (11, 9));
    assert_eq!(Layout::positions_from_draws(9, 9), (9, 11));
    assert_eq!(Layout::positions_from_draws(30, 29), (31, 30));
    assert_eq!(Layout::positions_from_draws(31, 30), (0, 1));
    assert_eq!(Layout::positions_from_draws(5, 3), (5, 3));
    assert_eq!(Layout::positions_from_draws(5, 5), (5, 6));
}

#[test]
fn every_ordered_pair_of_ranks_is_reachable() {
    let mut seen = vec![vec![false; 33]; 33];
    for a in 0..LAYOUT_MASK_NUM_SWAPPABLE {
        for b in 0..LAYOUT_MASK_NUM_SWAPPABLE - 1 {
            let (i, j) = Layout::positions_from_draws(a, b);
            assert!(!seen[i][j]);
            seen[i][j] = true;
        }
    }
    let mut count = 0;
    for i in 0..33 {
        for j in 0..33 {
            let eligible = i != 10 && i != 32 && j != 10 && j != 32 && i != j;
            assert_eq!(seen[i][j], eligible);
            if seen[i][j] {
                count += 1;
            }
        }
    }
    assert_eq!(count, 31 * 30);
}

#[test]
fn shuffling_a_clone_leaves_the_original() {
    let original = init_layout();
    let mut copy = original.clone();
    copy.shuffle(100);
    assert_eq!(original.lower_keys(), init_layout().lower_keys());
    assert_eq!(original.upper_keys(), init_layout().upper_keys());
    assert_eq!(original.to_string(), init_layout().to_string());
}

#[test]
fn position_map_is_a_snapshot() {
    let mut layout = init_layout();
    let map = layout.get_position_map();
    layout.swap(0, 1);
    assert_eq!(map.get_key_position('q'), Some(0));
    assert_eq!(layout.get_position_map().get_key_position('q'), Some(1));
}

#[test]
fn geometry_tables() {
    let fingers = key_fingers();
    let hands = key_hands();
    let rows = key_rows();
    assert_eq!(fingers.0[4], Finger::Index);
    assert_eq!(fingers.0[10], Finger::Pinky);
    assert_eq!(fingers.0[24], Finger::Middle);
    assert_eq!(hands.0[4], Hand::Left);
    assert_eq!(hands.0[5], Hand::Right);
    assert_eq!(hands.0[21], Hand::Right);
    assert_eq!(rows.0[10], Row::Top);
    assert_eq!(rows.0[11], Row::Home);
    assert_eq!(rows.0[31], Row::Bottom);
    let copy = fingers.clone();
    assert_eq!(copy.0, fingers.0);
}

#[test]
fn one_shuffle_swaps_exactly_one_eligible_pair() {
    for _ in 0..1000 {
        let original = init_layout();
        let mut layout = original.clone();
        layout.shuffle(1);
        let lower0 = original.lower_keys();
        let upper0 = original.upper_keys();
        let lower = layout.lower_keys();
        let upper = layout.upper_keys();
        let changed: Vec<usize> = (0..33).filter(|k| lower[*k] != lower0[*k]).collect();
        assert_eq!(changed.len(), 2);
        let (p, q) = (changed[0], changed[1]);
        for k in [p, q] {
            assert!(k != 10 && k != 32);
        }
        assert_eq!(lower[p], lower0[q]);
        assert_eq!(lower[q], lower0[p]);
        assert_eq!(upper[p], upper0[q]);
        assert_eq!(upper[q], upper0[p]);
        for k in 0..33 {
            if k != p && k != q {
                assert_eq!(upper[k], upper0[k]);
            }
        }
    }
}
