use rotcipher::ascii::{set_case, to_lowerish};
use rotcipher::policy::{Mapping, Policy, Rot13, RotBy};

#[test]
fn rot_by_1() {
    let mapping = RotBy::new(1, false);
    assert_eq!("Ifmmp, xpsme!", &*mapping.map_str("Hello, world!"));
}

#[test]
fn unrot_by_1() {
    let mapping = RotBy::new(1, true);
    assert_eq!("Hello, world!", &*mapping.map_str("Ifmmp, xpsme!"));
}

#[test]
fn rot13_round_trip() {
    let encoded = Rot13.map_str("Hello, World!");
    assert_eq!("Uryyb, Jbeyq!", &*encoded);
    assert_eq!("Hello, World!", &*Rot13.map_str(&encoded));
}

#[test]
fn non_alphabetic_input_is_unchanged() {
    assert_eq!("123!@#", &*Rot13.map_str("123!@#"));
    assert_eq!("123!@#", &*RotBy::new(5, false).map_str("123!@#"));
    assert_eq!("123!@#", &*RotBy::new(19, true).map_str("123!@#"));
}

#[test]
fn empty_input_gives_empty_output() {
    assert_eq!("", &*Rot13.map_str(""));
    assert_eq!("", &*RotBy::new(7, false).map_str(""));
}

#[test]
fn case_is_preserved_for_every_letter() {
    let policies: Vec<Policy> = vec![
        Policy::from_config(None, false),
        Policy::from_config(Some(7), false),
        Policy::from_config(Some(7), true),
    ];
    for policy in &policies {
        for b in 0u8..=255 {
            match policy.get(b) {
                Some(out) => {
                    assert!(b.is_ascii_alphabetic());
                    assert_eq!(b.is_ascii_lowercase(), out.is_ascii_lowercase());
                    assert_eq!(b.is_ascii_uppercase(), out.is_ascii_uppercase());
                }
                None => assert!(!b.is_ascii_alphabetic()),
            }
        }
    }
}

#[test]
fn rot13_is_its_own_inverse() {
    for b in 0u8..=255 {
        let once = Rot13.get(b).unwrap_or(b);
        let twice = Rot13.get(once).unwrap_or(once);
        assert_eq!(b, twice);
    }
}

#[test]
fn reverse_rotation_inverts_forward_rotation() {
    for n in 0u8..=26 {
        let forward = RotBy::new(n, false);
        let reverse = RotBy::new(n, true);
        for b in 0u8..=255 {
            let there = reverse.get(b).unwrap_or(b);
            let back = forward.get(there).unwrap_or(there);
            assert_eq!(b, back);
        }
    }
}

#[test]
fn offset_edge_values_mean_no_rotation() {
    assert_eq!(Some(b'a'), RotBy::new(0, true).get(b'a'));
    assert_eq!(Some(b'Z'), RotBy::new(26, false).get(b'Z'));
    assert_eq!(None, RotBy::new(0, true).get(b'!'));
}

#[test]
fn rot13_maps_single_bytes() {
    assert_eq!(Some(b'n'), Rot13.get(b'a'));
    assert_eq!(Some(b'm'), Rot13.get(b'z'));
    assert_eq!(Some(b'N'), Rot13.get(b'A'));
    assert_eq!(Some(b'M'), Rot13.get(b'Z'));
    assert_eq!(None, Rot13.get(b'5'));
    assert_eq!(None, Rot13.get(0xE9));
}

#[test]
fn default_policy_is_rot13() {
    let policy = Policy::from_config(None, false);
    assert_eq!(Some(b'U'), policy.get(b'H'));
    let other = Policy::from_config(Some(13), false);
    assert_eq!(Some(b'U'), other.get(b'H'));
}

#[test]
fn lowering_and_case_restoring_helpers() {
    assert_eq!(b'a', to_lowerish(b'A'));
    assert_eq!(b'a', to_lowerish(b'a'));
    assert_eq!(b'!', to_lowerish(b'!'));
    assert_eq!(b'n', set_case(b'n', b'a'));
    assert_eq!(b'N', set_case(b'n', b'A'));
}

#[test]
fn high_bit_bytes_are_never_letters() {
    for b in 128u8..=255 {
        assert_eq!(None, Rot13.get(b));
        assert_eq!(None, RotBy::new(3, false).get(b));
    }
}
