use player_checker::display::{dec_digits, dump, print_start_text, whole_seconds};
use player_checker::player::{bytes_eq, contains_player, Player};

#[test]
fn whole_seconds_of_exact_values() {
    assert_eq!(whole_seconds(600.0f32.to_bits()), 600);
    assert_eq!(whole_seconds(30.5f32.to_bits()), 30);
    assert_eq!(whole_seconds(0.0f32.to_bits()), 0);
    assert_eq!(whole_seconds(0.99f32.to_bits()), 0);
    assert_eq!(whole_seconds(1.0f32.to_bits()), 1);
    assert_eq!(whole_seconds(16777215.0f32.to_bits()), 16777215);
}

#[test]
fn whole_seconds_of_large_values() {
    let p40 = (1u64 << 40) as f32;
    assert_eq!(whole_seconds(p40.to_bits()), 1u64 << 40);
    let p63 = 9.223372e18f32; // close to 2^63
    let expected = p63 as u64;
    assert_eq!(whole_seconds(p63.to_bits()), expected);
}

#[test]
fn whole_seconds_clamps_and_saturates() {
    assert_eq!(whole_seconds((-3.0f32).to_bits()), 0);
    assert_eq!(whole_seconds((-0.0f32).to_bits()), 0);
    assert_eq!(whole_seconds(f32::INFINITY.to_bits()), u64::MAX);
    assert_eq!(whole_seconds(f32::NAN.to_bits()), u64::MAX);
    assert_eq!(whole_seconds(2e19f32.to_bits()), u64::MAX); // past 2^64
}

#[test]
fn whole_seconds_against_float_truncation() {
    for v in [0.1f32, 1.5, 2.0, 59.9, 60.0, 61.2, 3599.5, 86400.25, 123456.7] {
        assert_eq!(whole_seconds(v.to_bits()), v as u64);
    }
}

#[test]
fn dec_digits_renders_decimal() {
    assert_eq!(dec_digits(0), b"0");
    assert_eq!(dec_digits(7), b"7");
    assert_eq!(dec_digits(10), b"10");
    assert_eq!(dec_digits(1234567890), b"1234567890");
    assert_eq!(dec_digits(u64::MAX), b"18446744073709551615");
}

#[test]
fn player_line_shows_minutes() {
    let p = Player::new(b"Alice".to_vec(), 600.0f32.to_bits());
    assert_eq!(p.line(), b"Alice [10min]");
    let q = Player::new(b"Bob".to_vec(), 30.5f32.to_bits());
    assert_eq!(q.line(), b"Bob [0min]");
}

#[test]
fn dump_renders_one_line_per_player() {
    let players = vec![
        Player::new(b"Alice".to_vec(), 600.0f32.to_bits()),
        Player::new(b"Bob".to_vec(), 30.5f32.to_bits()),
    ];
    assert_eq!(dump(&players), b"Alice [10min]\nBob [0min]\n");
    assert_eq!(dump(&Vec::new()), b"");
}

#[test]
fn start_text_is_the_banner() {
    assert_eq!(
        print_start_text(),
        "\u{1b}[1m\u{1b}[31mRust Player Checker v0.1.0\u{1b}[0m"
    );
}

#[test]
fn contains_player_finds_exact_names() {
    let players = vec![
        Player::new(b"Alice".to_vec(), 0),
        Player::new(b"Bob".to_vec(), 0),
    ];
    assert!(contains_player(&players, b"Alice"));
    assert!(contains_player(&players, b"Bob"));
    assert!(!contains_player(&players, b"alice"));
    assert!(!contains_player(&players, b"Ali"));
    assert!(!contains_player(&Vec::new(), b"Alice"));
}

#[test]
fn bytes_eq_compares_content() {
    assert!(bytes_eq(b"abc", b"abc"));
    assert!(!bytes_eq(b"abc", b"abd"));
    assert!(!bytes_eq(b"abc", b"ab"));
    assert!(bytes_eq(b"", b""));
}
