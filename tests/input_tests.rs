use rollback_core::input::{encode, input, InputSet, Intent};

const ALL: [Intent; 7] = [
    Intent::UpRight,
    Intent::Up,
    Intent::UpLeft,
    Intent::DownLeft,
    Intent::Down,
    Intent::DownRight,
    Intent::Interact,
];

#[test]
fn intents_have_distinct_single_bits() {
    for (a, i) in ALL.iter().enumerate() {
        let bits = i.input_set().to_bits();
        assert_eq!(bits.count_ones(), 1);
        for (b, j) in ALL.iter().enumerate() {
            if a != b {
                assert_eq!(bits & j.input_set().to_bits(), 0);
            }
        }
    }
}

#[test]
fn intent_bit_layout() {
    assert_eq!(Intent::UpRight.input_set().to_bits(), 1);
    assert_eq!(Intent::Up.input_set().to_bits(), 2);
    assert_eq!(Intent::UpLeft.input_set().to_bits(), 4);
    assert_eq!(Intent::DownLeft.input_set().to_bits(), 8);
    assert_eq!(Intent::Down.input_set().to_bits(), 16);
    assert_eq!(Intent::DownRight.input_set().to_bits(), 32);
    assert_eq!(Intent::Interact.input_set().to_bits(), 64);
}

#[test]
fn encode_of_nothing_is_empty() {
    assert_eq!(encode(&vec![]), InputSet::empty());
    assert_eq!(InputSet::empty().to_bits(), 0);
}

#[test]
fn union_of_encodings_is_encoding_of_union() {
    let s1 = vec![Intent::Up, Intent::Interact];
    let s2 = vec![Intent::Up, Intent::DownLeft];
    let both = vec![Intent::Up, Intent::Interact, Intent::DownLeft];
    assert_eq!(encode(&s1).union(encode(&s2)), encode(&both));
    assert_eq!(encode(&both).to_bits(), 2 | 64 | 8);
}

#[test]
fn encode_ignores_repeats() {
    assert_eq!(encode(&vec![Intent::Down, Intent::Down]), Intent::Down.input_set());
}

#[test]
fn contains_means_all_bits() {
    let s = encode(&vec![Intent::Up, Intent::DownRight]);
    assert!(s.contains(Intent::Up.input_set()));
    assert!(s.contains(encode(&vec![Intent::Up, Intent::DownRight])));
    assert!(!s.contains(encode(&vec![Intent::Up, Intent::Down])));
    assert!(s.contains(InputSet::empty()));
    assert!(!InputSet::empty().contains(Intent::Up.input_set()));
}

#[test]
fn intersection_keeps_common_bits() {
    let a = encode(&vec![Intent::Up, Intent::Down]);
    let b = encode(&vec![Intent::Down, Intent::Interact]);
    assert_eq!(a.intersection(b), Intent::Down.input_set());
}

#[test]
fn input_folds_held_controls() {
    let controls = vec![
        (false, Intent::UpLeft),
        (true, Intent::Up),
        (false, Intent::UpRight),
        (false, Intent::DownLeft),
        (false, Intent::Down),
        (true, Intent::DownRight),
        (false, Intent::Interact),
    ];
    assert_eq!(input(&controls).to_bits(), 2 | 32);
    assert_eq!(input(&vec![]).to_bits(), 0);
}

#[test]
fn bits_round_trip() {
    assert_eq!(InputSet::from_bits(37).to_bits(), 37);
}

#[test]
fn one_key_inputs_are_distinct_single_bits() {
    for (a, i) in ALL.iter().enumerate() {
        for (b, j) in ALL.iter().enumerate() {
            let r1 = input(&vec![(true, *i), (false, *j)]);
            let r2 = input(&vec![(false, *i), (true, *j)]);
            assert_eq!(r1.to_bits().count_ones(), 1);
            assert_eq!(r2.to_bits().count_ones(), 1);
            if a != b {
                assert_eq!(r1.intersection(r2), InputSet::empty());
            }
        }
    }
}
