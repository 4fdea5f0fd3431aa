use cocore_provider::determinism::params;

fn degrees(milli: Option<u32>) -> Option<f32> {
    milli.map(|m| m as f32 / 1000.0)
}

#[test]
fn off_by_default() {
    assert_eq!(params(None, None), (None, None));
}

#[test]
fn enabled_with_default_seed() {
    let (temp, seed) = params(Some("1"), None);
    assert_eq!(degrees(temp), Some(0.0));
    assert_eq!(seed, Some(42));
}

#[test]
fn enabled_with_custom_seed() {
    let (temp, seed) = params(Some("true"), Some("1337"));
    assert_eq!(degrees(temp), Some(0.0));
    assert_eq!(seed, Some(1337));
}

#[test]
fn words_that_enable() {
    for on in ["1", "true", "yes", " TRUE\n", "Yes", "\u{a0}1"] {
        assert_eq!(params(Some(on), None), (Some(0), Some(42)), "{on:?}");
    }
    for off in ["", "0", "false", "no", "on", "11", "y e s", "tru\u{e9}"] {
        assert_eq!(params(Some(off), Some("7")), (None, None), "{off:?}");
    }
}

#[test]
fn seeds() {
    let seed = |s: &str| params(Some("1"), Some(s)).1;
    assert_eq!(seed(" 7 "), Some(7));
    assert_eq!(seed("+7"), Some(7));
    assert_eq!(seed("007"), Some(7));
    assert_eq!(seed("18446744073709551615"), Some(u64::MAX));
    assert_eq!(seed("18446744073709551616"), Some(42));
    for bad in ["", "+", "-7", "7.0", "seven", "1_000", "++1"] {
        assert_eq!(seed(bad), Some(42), "{bad:?}");
    }
}
