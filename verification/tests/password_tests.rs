use xkpasswd::dict::load_dict;
use xkpasswd::entropy::Entropy;
use xkpasswd::prelude::Xkpasswd;
use xkpasswd::prelude::eligible;
use xkpasswd::randomizer::FixedRandomizer;
use xkpasswd::randomizer::PaddingResult;
use xkpasswd::settings::PaddingStrategy;
use xkpasswd::settings::SeededRand;
use xkpasswd::settings::Settings;
use xkpasswd::settings::WordTransform;
use xkpasswd::settings::apply_transform;

fn mock_settings(
    padding_digits: (usize, usize),
    padding_symbols: (usize, usize),
    padding_result: PaddingResult,
) -> FixedRandomizer {
    FixedRandomizer {
        lengths: (3, 4),
        words: vec!["foo".to_string(), "bar".to_string(), "baz".to_string()],
        separator: ".".to_string(),
        prefix_symbols: "?????"[..padding_symbols.0].to_string(),
        prefix_digits: "12345"[..padding_digits.0].to_string(),
        suffix_digits: "67890"[..padding_digits.1].to_string(),
        suffix_symbols: "!!!!!!"[..padding_symbols.1].to_string(),
        padding: padding_result,
        entropy: Entropy::default(),
    }
}

#[test]
fn test_xkpasswd_gen_pass() {
    let pass = Xkpasswd::default();
    let table = [
        (
            "foo.bar.baz",
            mock_settings((0, 0), (0, 0), PaddingResult::Unchanged),
        ),
        (
            "foo.bar.baz.67!!",
            mock_settings((0, 2), (0, 2), PaddingResult::Unchanged),
        ),
        (
            "??12.foo.bar.baz",
            mock_settings((2, 0), (2, 0), PaddingResult::Unchanged),
        ),
        (
            "?1.foo.bar.baz.67!!",
            mock_settings((1, 2), (1, 2), PaddingResult::Unchanged),
        ),
        (
            "??foo.bar.baz.67!!",
            mock_settings((0, 2), (2, 2), PaddingResult::Unchanged),
        ),
        (
            "?1.foo.bar.baz!!",
            mock_settings((1, 0), (1, 2), PaddingResult::Unchanged),
        ),
        (
            "?????12345.foo.bar.baz",
            mock_settings((5, 5), (5, 5), PaddingResult::TrimTo(22)),
        ),
        (
            "??12.foo.bar.baz$$$$$",
            mock_settings((2, 0), (2, 0), PaddingResult::Pad("$$$$$".to_string())),
        ),
    ];

    for (expected, settings) in table {
        let (passwd, _) = pass.gen_pass(&settings);
        assert_eq!(expected, passwd);
    }
}

#[test]
fn test_gen_pass_trim_length() {
    // An adaptive trim target at or below the pre-trim length is honoured
    // exactly.
    let pass = Xkpasswd::default();
    let settings = mock_settings((5, 5), (5, 5), PaddingResult::TrimTo(22));
    let (passwd, _) = pass.gen_pass(&settings);
    assert_eq!(22, passwd.chars().count());
}

#[test]
fn test_gen_pass_pad_appends() {
    let pass = Xkpasswd::default();
    let settings = mock_settings((2, 0), (2, 0), PaddingResult::Pad("$$$$$".to_string()));
    let (passwd, _) = pass.gen_pass(&settings);
    assert_eq!("??12.foo.bar.baz$$$$$", passwd);
    assert!(passwd.ends_with("$$$$$"));
}

#[test]
fn test_gen_pass_no_words() {
    // A zero word count leaves an empty joined-words segment; the digit
    // affixes still take part in the separator join.
    let pass = Xkpasswd::default();
    let settings = FixedRandomizer {
        lengths: (3, 4),
        words: vec![],
        separator: ".".to_string(),
        prefix_symbols: "?".to_string(),
        prefix_digits: "1".to_string(),
        suffix_digits: "67".to_string(),
        suffix_symbols: "!!".to_string(),
        padding: PaddingResult::Unchanged,
        entropy: Entropy::default(),
    };
    let (passwd, _) = pass.gen_pass(&settings);
    assert_eq!("?1.67!!", passwd);
}

#[test]
fn test_gen_pass_trim_below_prefix() {
    // An adaptive target shorter than the mandatory prefix is honoured
    // literally by truncation.
    let pass = Xkpasswd::default();
    let settings = mock_settings((2, 0), (2, 0), PaddingResult::TrimTo(3));
    let (passwd, _) = pass.gen_pass(&settings);
    assert_eq!("??1", passwd);
}

#[test]
fn test_gen_pass_seeded_adaptive_length() {
    // Adaptive padding extends a short password to exactly the target.
    let gen = Xkpasswd::from_bytes("4:acid,bird,cake,dawn,echo".as_bytes());
    let mut settings = Settings::default();
    settings.word_length_min = 4;
    settings.word_length_max = 4;
    settings.padding_strategy = PaddingStrategy::Adaptive(30);
    let (passwd, _) = gen.gen_pass(&SeededRand::new(settings, 11));
    assert_eq!(30, passwd.chars().count());
}

#[test]
fn test_gen_pass_deterministic() {
    // Identical dictionary, settings and seed always give the identical
    // password and entropy report.
    let gen = Xkpasswd::from_bytes("3:foo,bar,baz\n4:quux,word\n5:crane".as_bytes());
    let mut s1 = Settings::default();
    s1.word_length_min = 3;
    s1.word_length_max = 5;
    let first = gen.gen_pass(&SeededRand::new(s1, 1234567));
    let mut s2 = Settings::default();
    s2.word_length_min = 3;
    s2.word_length_max = 5;
    let second = gen.gen_pass(&SeededRand::new(s2, 1234567));
    assert_eq!(first.0, second.0);
    assert_eq!(first.1.blind_min, second.1.blind_min);
    assert_eq!(first.1.blind_max, second.1.blind_max);
    assert_eq!(first.1.seen, second.1.seen);

    // A different seed is allowed to produce something else; the report has
    // ordered blind estimates either way.
    let third = gen.gen_pass(&SeededRand::new(Settings::default(), 7));
    assert!(third.1.blind_min <= third.1.blind_max);
}

#[test]
fn test_gen_pass_seeded_shape() {
    // Three words of three letters joined by dots with two digits and two
    // symbols appended: 3*3 + 2 dots + separator-joined digits and symbols.
    let gen = Xkpasswd::from_bytes("3:foo,bar,baz,qux,zip".as_bytes());
    let mut settings = Settings::default();
    settings.word_length_min = 3;
    settings.word_length_max = 3;
    let (passwd, entropy) = gen.gen_pass(&SeededRand::new(settings, 99));
    // symbol suffix "??" style: 11 chars of words and dots, one dot, two
    // digits, two symbols.
    assert_eq!(11 + 1 + 2 + 2, passwd.chars().count());
    assert!(entropy.blind_min <= entropy.blind_max);
}

#[test]
fn test_eligible_pool_respects_range() {
    let dict = load_dict("2:an,do\n3:foo,bar\n4:quux".as_bytes());
    let pool = eligible(&dict, 3, 4);
    assert_eq!(vec!["foo", "bar", "quux"], pool);
    let all = eligible(&dict, 0, 255);
    assert_eq!(5, all.len());
    let none = eligible(&dict, 10, 12);
    assert!(none.is_empty());
}

#[test]
fn test_seeded_entropy_exact_bits() {
    // Three words of exactly four letters: 3 * 4 * lg2(26) = 48 blind bits
    // from the words, none from the single separator, 2 * lg2(10) = 6 from
    // the digit suffix and 2 * lg2(18) = 8 from the symbol suffix.  Seen
    // bits swap the letter space for the five-word pool: 3 * lg2(5) = 6.
    let gen = Xkpasswd::from_bytes("4:acid,bird,cake,dawn,echo".as_bytes());
    let mut settings = Settings::default();
    settings.word_length_min = 4;
    settings.word_length_max = 4;
    let (_, entropy) = gen.gen_pass(&SeededRand::new(settings, 5));
    assert_eq!(62, entropy.blind_min);
    assert_eq!(62, entropy.blind_max);
    assert_eq!(20, entropy.seen);
    // 62 blind bits land in the million-years regime.
    assert_eq!(1_000_001, entropy.guess_time.years);
}

#[test]
fn test_apply_transform_cases() {
    assert_eq!("foo", apply_transform(WordTransform::Lowercase, "FoO"));
    assert_eq!("FOO", apply_transform(WordTransform::Uppercase, "foo"));
    assert_eq!("Foo", apply_transform(WordTransform::Titlecase, "fOO"));
    assert_eq!("fOO", apply_transform(WordTransform::InvertedTitlecase, "Foo"));
    // Characters outside the ASCII letters pass through unchanged.
    assert_eq!("F-9O", apply_transform(WordTransform::Uppercase, "f-9o"));
    assert_eq!("", apply_transform(WordTransform::Titlecase, ""));
}
