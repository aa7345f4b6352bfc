use base64::Engine;
use dafont::order::{
    compare_bytes, compare_flags, compare_names, compare_numbers, compare_text, KeyOrder,
};
use dafont::{FcFont, FcFontCache, FcFontPath, FcPattern, PatternMatch};

fn pattern(
    name: &str,
    family: &str,
    bold: PatternMatch,
    italic: PatternMatch,
    monospace: PatternMatch,
) -> FcPattern {
    FcPattern {
        name: Some(name.to_string()),
        family: Some(family.to_string()),
        bold,
        italic,
        monospace,
        ..Default::default()
    }
}

fn location(path: &str) -> FcFontPath {
    FcFontPath { path: path.to_string(), font_index: 0 }
}

fn next(seed: &mut u64) -> u64 {
    *seed = seed.wrapping_mul(6364136223846793005).wrapping_add(1442695040888963407);
    *seed >> 33
}

fn random_flag(seed: &mut u64) -> PatternMatch {
    match next(seed) % 3 {
        0 => PatternMatch::True,
        1 => PatternMatch::False,
        _ => PatternMatch::DontCare,
    }
}

fn random_text(seed: &mut u64) -> Option<String> {
    let words = ["", "A", "Ab", "B", "Mono", "Sans", "\u{e9}t\u{e9}"];
    match next(seed) % 8 {
        7 => None,
        n => Some(words[n as usize].to_string()),
    }
}

fn random_pattern(seed: &mut u64) -> FcPattern {
    FcPattern {
        name: random_text(seed),
        family: random_text(seed),
        italic: random_flag(seed),
        oblique: random_flag(seed),
        bold: random_flag(seed),
        monospace: random_flag(seed),
        condensed: random_flag(seed),
        weight: (next(seed) % 3) as usize,
        unicode_range: [(next(seed) % 2) as usize, (next(seed) % 2) as usize],
    }
}

fn admits(key: &FcPattern, query: &FcPattern) -> bool {
    let flag = |q: &PatternMatch, k: &PatternMatch| *q == PatternMatch::DontCare || q == k;
    (query.name.is_none() || query.name == key.name)
        && (query.family.is_none() || query.family == key.family)
        && flag(&query.italic, &key.italic)
        && flag(&query.oblique, &key.oblique)
        && flag(&query.bold, &key.bold)
        && flag(&query.monospace, &key.monospace)
}

fn sample_cache() -> FcFontCache {
    FcFontCache::build(Some(vec![
        (
            pattern("Mono Bold", "Mono", PatternMatch::True, PatternMatch::False, PatternMatch::True),
            location("/mono-bold.ttf"),
        ),
        (
            pattern("Sans", "Sans", PatternMatch::False, PatternMatch::False, PatternMatch::False),
            location("/sans.ttf"),
        ),
        (
            pattern("Mono", "Mono", PatternMatch::False, PatternMatch::False, PatternMatch::True),
            location("/mono.ttf"),
        ),
        (
            pattern("Sans Italic", "Sans", PatternMatch::False, PatternMatch::True, PatternMatch::False),
            location("/sans-italic.ttf"),
        ),
    ]))
}

#[test]
fn build_without_discovery_is_empty() {
    let cache = FcFontCache::build(None);
    assert_eq!(cache.list().len(), 0);
    assert_eq!(cache.len(), 0);
    assert!(cache.is_empty());
    assert!(cache.query(&FcPattern::default()).is_none());
    assert!(cache.query_all(&FcPattern::default()).is_empty());
    assert_eq!(cache, FcFontCache::default());
    assert_eq!(cache, FcFontCache::new());
    assert_eq!(FcFontCache::build(Some(vec![])), FcFontCache::default());
}

#[test]
fn build_keeps_the_last_of_equal_patterns() {
    let p = pattern("A Regular", "A", PatternMatch::False, PatternMatch::False, PatternMatch::False);
    let cache = FcFontCache::build(Some(vec![
        (p.clone(), location("/first.ttf")),
        (p.clone(), location("/second.ttf")),
    ]));
    assert_eq!(cache.list().len(), 1);
    assert_eq!(cache.query(&p), Some(&location("/second.ttf")));
    let mut cache = cache;
    cache.insert(p.clone(), location("/third.ttf"));
    assert_eq!(cache.list(), &vec![(p.clone(), location("/third.ttf"))]);
}

#[test]
fn list_is_in_key_order() {
    let cache = sample_cache();
    let names: Vec<&str> =
        cache.list().iter().map(|(k, _)| k.name.as_deref().unwrap_or("")).collect();
    assert_eq!(names, vec!["Mono", "Mono Bold", "Sans", "Sans Italic"]);
    let mut sorted = cache.list().clone();
    sorted.sort();
    assert_eq!(cache.list(), &sorted);
    assert_eq!(cache.clone().into_entries(), sorted);
}

#[test]
fn query_all_filters_by_concrete_fields() {
    let cache = sample_cache();
    let monospace = FcPattern { monospace: PatternMatch::True, ..Default::default() };
    assert_eq!(
        cache.query_all(&monospace),
        vec![&location("/mono.ttf"), &location("/mono-bold.ttf")]
    );
    let proportional = FcPattern { monospace: PatternMatch::False, ..Default::default() };
    assert_eq!(
        cache.query_all(&proportional),
        vec![&location("/sans.ttf"), &location("/sans-italic.ttf")]
    );
    let sans = FcPattern { family: Some("Sans".to_string()), ..Default::default() };
    assert_eq!(cache.query_all(&sans), vec![&location("/sans.ttf"), &location("/sans-italic.ttf")]);
    let bold_mono = FcPattern {
        family: Some("Mono".to_string()),
        bold: PatternMatch::True,
        ..Default::default()
    };
    assert_eq!(cache.query_all(&bold_mono), vec![&location("/mono-bold.ttf")]);
    let named = FcPattern { name: Some("Sans Italic".to_string()), ..Default::default() };
    assert_eq!(cache.query_all(&named), vec![&location("/sans-italic.ttf")]);
    let absent = FcPattern { name: Some("Serif".to_string()), ..Default::default() };
    assert!(cache.query_all(&absent).is_empty());
    assert_eq!(cache.query(&absent), None);
}

#[test]
fn query_returns_the_first_match_in_key_order() {
    let cache = sample_cache();
    let monospace = FcPattern { monospace: PatternMatch::True, ..Default::default() };
    assert_eq!(cache.query(&monospace), Some(&location("/mono.ttf")));
    let italic = FcPattern { italic: PatternMatch::True, ..Default::default() };
    assert_eq!(cache.query(&italic), Some(&location("/sans-italic.ttf")));
    assert_eq!(cache.query(&FcPattern::default()), Some(&location("/mono.ttf")));
}

#[test]
fn reserved_fields_never_filter_but_oblique_does() {
    let cache = sample_cache();
    let reserved = FcPattern {
        condensed: PatternMatch::True,
        weight: 700,
        unicode_range: [32, 128],
        ..Default::default()
    };
    assert_eq!(cache.query_all(&reserved).len(), 4);
    let oblique = FcPattern { oblique: PatternMatch::False, ..Default::default() };
    assert!(cache.query_all(&oblique).is_empty());
}

#[test]
fn needs_to_match_is_true_for_definite_flags() {
    assert!(PatternMatch::True.needs_to_match());
    assert!(PatternMatch::False.needs_to_match());
    assert!(!PatternMatch::DontCare.needs_to_match());
    assert_eq!(PatternMatch::default(), PatternMatch::DontCare);
    assert_eq!(PatternMatch::from_bool(true), PatternMatch::True);
    assert_eq!(PatternMatch::from_bool(false), PatternMatch::False);
}

#[test]
fn query_matches_internal_follows_the_rule() {
    let key = pattern("N", "F", PatternMatch::True, PatternMatch::False, PatternMatch::True);
    assert!(FcFontCache::query_matches_internal(&key, &FcPattern::default()));
    assert!(FcFontCache::query_matches_internal(&key, &key));
    let name_only = FcPattern { name: Some("N".to_string()), ..Default::default() };
    assert!(FcFontCache::query_matches_internal(&key, &name_only));
    assert!(!FcFontCache::query_matches_internal(&name_only, &key));
    let other_family = FcPattern { family: Some("G".to_string()), ..Default::default() };
    assert!(!FcFontCache::query_matches_internal(&key, &other_family));
    let not_bold = FcPattern { bold: PatternMatch::False, ..Default::default() };
    assert!(!FcFontCache::query_matches_internal(&key, &not_bold));
    let unknown_key = FcPattern { bold: PatternMatch::DontCare, ..key.clone() };
    let bold = FcPattern { bold: PatternMatch::True, ..Default::default() };
    assert!(!FcFontCache::query_matches_internal(&unknown_key, &bold));
}

#[test]
fn query_all_agrees_with_the_rule_on_generated_caches() {
    let mut seed = 7u64;
    for round in 0..60 {
        let size = (next(&mut seed) % 12) as usize;
        let mut pairs = Vec::new();
        for i in 0..size {
            pairs.push((random_pattern(&mut seed), location(&format!("/{round}/{i}.ttf"))));
        }
        let cache = FcFontCache::build(Some(pairs.clone()));
        let mut queries = vec![FcPattern::default()];
        for _ in 0..8 {
            queries.push(random_pattern(&mut seed));
        }
        queries.extend(pairs.iter().map(|(k, _)| k.clone()));
        for query in &queries {
            let expected: Vec<&FcFontPath> = cache
                .list()
                .iter()
                .filter(|(k, _)| admits(k, query))
                .map(|(_, v)| v)
                .collect();
            assert_eq!(cache.query_all(query), expected);
            assert_eq!(cache.query(query), expected.first().copied());
            for (k, _) in cache.list() {
                assert_eq!(FcFontCache::query_matches_internal(k, query), admits(k, query));
            }
        }
        let everything: Vec<&FcFontPath> = cache.list().iter().map(|(_, v)| v).collect();
        assert_eq!(cache.query_all(&FcPattern::default()), everything);
    }
}

#[test]
fn build_agrees_with_an_ordered_map() {
    let mut seed = 99u64;
    for round in 0..40 {
        let size = (next(&mut seed) % 20) as usize;
        let mut pairs = Vec::new();
        for i in 0..size {
            pairs.push((random_pattern(&mut seed), location(&format!("/{round}/{i}.ttf"))));
        }
        let reference: std::collections::BTreeMap<FcPattern, FcFontPath> =
            pairs.clone().into_iter().collect();
        let cache = FcFontCache::build(Some(pairs));
        let listed: Vec<(FcPattern, FcFontPath)> = reference.into_iter().collect();
        assert_eq!(cache.list(), &listed);
    }
}

#[test]
fn neutral_query_returns_the_full_cache_whatever_the_flags() {
    let flags = [PatternMatch::True, PatternMatch::False, PatternMatch::DontCare];
    let mut pairs = Vec::new();
    for (i, bold) in flags.iter().enumerate() {
        for (j, mono) in flags.iter().enumerate() {
            let key = FcPattern { bold: *bold, monospace: *mono, ..Default::default() };
            pairs.push((key, location(&format!("/{i}{j}.ttf"))));
        }
    }
    let cache = FcFontCache::build(Some(pairs));
    assert_eq!(cache.list().len(), 9);
    let all = cache.query_all(&FcPattern::default());
    let listed: Vec<&FcFontPath> = cache.list().iter().map(|(_, v)| v).collect();
    assert_eq!(all, listed);
    let neutral_with_reserved =
        FcPattern { condensed: PatternMatch::False, weight: 3, ..Default::default() };
    assert_eq!(cache.query_all(&neutral_with_reserved), listed);
}

#[test]
fn rebuilding_from_the_same_pairs_in_another_order_gives_the_same_keys() {
    let mut seed = 3u64;
    let mut pairs = Vec::new();
    for i in 0..30 {
        pairs.push((random_pattern(&mut seed), location(&format!("/{i}.ttf"))));
    }
    let first = FcFontCache::build(Some(pairs.clone()));
    let mut reversed = pairs.clone();
    reversed.reverse();
    let second = FcFontCache::build(Some(reversed));
    let mut rotated = pairs.clone();
    rotated.rotate_left(11);
    let third = FcFontCache::build(Some(rotated));
    let keys = |c: &FcFontCache| c.list().iter().map(|(k, _)| k.clone()).collect::<Vec<_>>();
    assert_eq!(keys(&first), keys(&second));
    assert_eq!(keys(&first), keys(&third));
    assert_eq!(FcFontCache::build(Some(pairs.clone())), first);
}

#[test]
fn memory_font_round_trip() {
    let bytes: Vec<u8> = vec![0xfb, 0xff, 0x00, 0x10, 0x83, 0x7f, 0x3e];
    let key = pattern("Inline", "Memory", PatternMatch::False, PatternMatch::False, PatternMatch::True);
    let font = FcFont { bytes: bytes.clone(), font_index: 2 };
    let mut cache = FcFontCache::default();
    cache.with_memory_fonts(&[(key.clone(), font.clone())]);
    let found = cache.query(&key).expect("the font was added under this pattern");
    assert_eq!(found.font_index, 2);
    assert_eq!(found.path, "base64:-_8AEIN_Pg==");
    assert!(found.is_memory_font());
    assert_eq!(found.memory_bytes(), Some(bytes.clone()));
    let text = found.path.strip_prefix("base64:").expect("marker");
    let decoded = base64::engine::general_purpose::URL_SAFE.decode(text).expect("valid text");
    assert_eq!(decoded, bytes);
    assert_eq!(font.location(), *found);
}

#[test]
fn memory_fonts_join_scanned_fonts() {
    let mut cache = sample_cache();
    let key = pattern("Mono", "Mono", PatternMatch::False, PatternMatch::False, PatternMatch::True);
    let other = pattern("Extra", "Extra", PatternMatch::True, PatternMatch::True, PatternMatch::False);
    let len = cache
        .with_memory_fonts(&[
            (key.clone(), FcFont { bytes: vec![1, 2, 3], font_index: 0 }),
            (other.clone(), FcFont { bytes: vec![], font_index: 1 }),
            (other.clone(), FcFont { bytes: vec![9], font_index: 5 }),
        ])
        .len();
    assert_eq!(len, 5);
    assert_eq!(cache.query(&key), Some(&FcFontPath { path: "base64:AQID".to_string(), font_index: 0 }));
    assert_eq!(cache.query(&other), Some(&FcFontPath { path: "base64:CQ==".to_string(), font_index: 5 }));
    assert_eq!(cache.query(&other).and_then(|p| p.memory_bytes()), Some(vec![9]));
    cache.with_memory_fonts(&[]);
    assert_eq!(cache.len(), 5);
}

#[test]
fn fonts_of_ordinary_size_fit_in_a_path() {
    assert!(FcFont { bytes: vec![], font_index: 0 }.fits_in_path());
    assert!(FcFont { bytes: vec![0; 4096], font_index: 0 }.fits_in_path());
    assert_eq!(
        FcFont { bytes: vec![0; 4], font_index: 9 }.location(),
        FcFontPath { path: "base64:AAAAAA==".to_string(), font_index: 9 }
    );
}

#[test]
fn file_paths_carry_no_bytes() {
    assert!(!location("/usr/share/fonts/a.ttf").is_memory_font());
    assert_eq!(location("/usr/share/fonts/a.ttf").memory_text(), None);
    assert_eq!(location("base64:AQID").memory_text(), Some("AQID"));
    assert_eq!(location("base64:").memory_text(), Some(""));
    assert_eq!(location("base64:\u{e9}+").memory_text(), Some("\u{e9}+"));
    assert_eq!(location("/usr/share/fonts/a.ttf").memory_bytes(), None);
    assert_eq!(location("base64").memory_bytes(), None);
    assert_eq!(location("base64:").memory_bytes(), Some(vec![]));
    assert_eq!(location("base64:AQID").memory_bytes(), Some(vec![1, 2, 3]));
    assert_eq!(location("base64:AQ").memory_bytes(), None);
    assert_eq!(location("base64:+/8=").memory_bytes(), None);
    assert_eq!(location("base64:\u{e9}").memory_bytes(), None);
    assert_eq!(location("Base64:AQID").memory_bytes(), None);
}

#[test]
fn key_order_agrees_with_the_derived_order() {
    let mut seed = 11u64;
    let mut patterns = vec![FcPattern::default()];
    for _ in 0..60 {
        patterns.push(random_pattern(&mut seed));
    }
    for a in &patterns {
        for b in &patterns {
            let expected = match a.cmp(b) {
                std::cmp::Ordering::Less => KeyOrder::Before,
                std::cmp::Ordering::Equal => KeyOrder::Same,
                std::cmp::Ordering::Greater => KeyOrder::After,
            };
            assert_eq!(a.key_order(b), expected);
        }
    }
}

#[test]
fn strings_are_ordered_by_their_bytes() {
    assert_eq!(compare_bytes(b"", b""), KeyOrder::Same);
    assert_eq!(compare_bytes(b"", b"a"), KeyOrder::Before);
    assert_eq!(compare_bytes(b"a", b""), KeyOrder::After);
    assert_eq!(compare_bytes(b"ab", b"abc"), KeyOrder::Before);
    assert_eq!(compare_bytes(b"abd", b"abc"), KeyOrder::After);
    assert_eq!(compare_bytes(&[0xff], &[0x7f, 0x01]), KeyOrder::After);
    assert_eq!(compare_text("Z", "a"), KeyOrder::Before);
    assert_eq!(compare_text("z", "\u{e9}"), KeyOrder::Before);
    assert_eq!(compare_text("\u{e9}", "\u{e9}"), KeyOrder::Same);
    assert_eq!(compare_text("\u{10000}", "\u{ffff}"), KeyOrder::After);
}

#[test]
fn flags_and_absent_names_are_ordered() {
    assert_eq!(compare_flags(PatternMatch::True, PatternMatch::False), KeyOrder::Before);
    assert_eq!(compare_flags(PatternMatch::False, PatternMatch::DontCare), KeyOrder::Before);
    assert_eq!(compare_flags(PatternMatch::DontCare, PatternMatch::True), KeyOrder::After);
    assert_eq!(compare_flags(PatternMatch::False, PatternMatch::False), KeyOrder::Same);
    assert_eq!(compare_names(&None, &Some(String::new())), KeyOrder::Before);
    assert_eq!(compare_names(&Some("a".to_string()), &None), KeyOrder::After);
    assert_eq!(compare_names(&None, &None), KeyOrder::Same);
    assert_eq!(compare_numbers(1, 2), KeyOrder::Before);
    assert_eq!(compare_numbers(2, 2), KeyOrder::Same);
    assert_eq!(compare_numbers(3, 2), KeyOrder::After);
}
