use dafont::font::{
    all_equal, family_and_name, get_font_name, patterns_from_names, read_name_records,
    read_spacing_evidence, stored_transformed, FcParseFont, FcParseFontFiles, Found, NameEntry,
    SpacingEvidence, TAG_GLYF, TAG_HEAD, TAG_HHEA, TAG_HMTX, TAG_MAXP, TAG_NAME, TAG_OS_2,
    TAG_POST,
};
use dafont::{FcFontPath, FcPattern, PatternMatch};

fn put16(out: &mut Vec<u8>, value: u16) {
    out.extend_from_slice(&value.to_be_bytes());
}

fn put32(out: &mut Vec<u8>, value: u32) {
    out.extend_from_slice(&value.to_be_bytes());
}

fn head_table(mac_style: u16) -> Vec<u8> {
    let mut t = Vec::new();
    put16(&mut t, 1);
    put16(&mut t, 0);
    put32(&mut t, 0x0001_0000);
    put32(&mut t, 0);
    put32(&mut t, 0x5F0F_3CF5);
    put16(&mut t, 0);
    put16(&mut t, 1000);
    t.extend_from_slice(&[0; 16]);
    t.extend_from_slice(&[0; 8]);
    put16(&mut t, mac_style);
    put16(&mut t, 8);
    put16(&mut t, 2);
    put16(&mut t, 0);
    put16(&mut t, 0);
    assert_eq!(t.len(), 54);
    t
}

fn post_table(is_fixed_pitch: u32) -> Vec<u8> {
    let mut t = Vec::new();
    put32(&mut t, 0x0003_0000);
    put32(&mut t, 0);
    put16(&mut t, 0);
    put16(&mut t, 0);
    put32(&mut t, is_fixed_pitch);
    t.extend_from_slice(&[0; 16]);
    assert_eq!(t.len(), 32);
    t
}

fn os2_table(panose_class: u8) -> Vec<u8> {
    let mut t = vec![0u8; 68];
    t[32] = panose_class;
    t[33] = 7;
    t
}

fn hhea_table(num_h_metrics: u16) -> Vec<u8> {
    let mut t = Vec::new();
    put16(&mut t, 1);
    put16(&mut t, 0);
    t.extend_from_slice(&[0; 30]);
    put16(&mut t, num_h_metrics);
    assert_eq!(t.len(), 36);
    t
}

fn maxp_table(num_glyphs: u16) -> Vec<u8> {
    let mut t = Vec::new();
    put32(&mut t, 0x0000_5000);
    put16(&mut t, num_glyphs);
    t
}

fn hmtx_table(advances: &[u16], extra_bearings: usize) -> Vec<u8> {
    let mut t = Vec::new();
    for advance in advances {
        put16(&mut t, *advance);
        put16(&mut t, 0);
    }
    for _ in 0..extra_bearings {
        put16(&mut t, 0);
    }
    t
}

fn name_table(records: &[(u16, &str)]) -> Vec<u8> {
    let mut storage: Vec<u8> = Vec::new();
    let mut t = Vec::new();
    put16(&mut t, 0);
    put16(&mut t, records.len() as u16);
    put16(&mut t, (6 + 12 * records.len()) as u16);
    for (name_id, text) in records {
        let mut encoded = Vec::new();
        for unit in text.encode_utf16() {
            put16(&mut encoded, unit);
        }
        put16(&mut t, 3);
        put16(&mut t, 1);
        put16(&mut t, 0x409);
        put16(&mut t, *name_id);
        put16(&mut t, encoded.len() as u16);
        put16(&mut t, storage.len() as u16);
        storage.extend_from_slice(&encoded);
    }
    t.extend_from_slice(&storage);
    t
}

fn font_file(tables: &[(u32, Vec<u8>)]) -> Vec<u8> {
    let mut sorted: Vec<(u32, Vec<u8>)> = tables.to_vec();
    sorted.sort_by_key(|(tag, _)| *tag);
    let mut out = Vec::new();
    put32(&mut out, 0x0001_0000);
    put16(&mut out, sorted.len() as u16);
    put16(&mut out, 0);
    put16(&mut out, 0);
    put16(&mut out, 0);
    let mut offset = 12 + 16 * sorted.len();
    let mut body = Vec::new();
    for (tag, data) in &sorted {
        put32(&mut out, *tag);
        put32(&mut out, 0);
        put32(&mut out, offset as u32);
        put32(&mut out, data.len() as u32);
        body.extend_from_slice(data);
        offset += data.len();
        while offset % 4 != 0 {
            body.push(0);
            offset += 1;
        }
    }
    out.extend_from_slice(&body);
    out
}

fn font_collection(fonts: &[Vec<(u32, Vec<u8>)>]) -> Vec<u8> {
    let mut out = Vec::new();
    put32(&mut out, 0x7474_6366);
    put16(&mut out, 1);
    put16(&mut out, 0);
    put32(&mut out, fonts.len() as u32);
    let mut directory_at = 12 + 4 * fonts.len();
    for tables in fonts {
        put32(&mut out, directory_at as u32);
        directory_at += 12 + 16 * tables.len();
    }
    let mut data_at = directory_at;
    let mut body = Vec::new();
    for tables in fonts {
        put32(&mut out, 0x0001_0000);
        put16(&mut out, tables.len() as u16);
        out.extend_from_slice(&[0; 6]);
        for (tag, data) in tables {
            put32(&mut out, *tag);
            put32(&mut out, 0);
            put32(&mut out, data_at as u32);
            put32(&mut out, data.len() as u32);
            body.extend_from_slice(data);
            data_at += data.len();
        }
    }
    out.extend_from_slice(&body);
    out
}

fn compressed_container(flavor: u32, directory: &[u8], table_count: u16, collection: &[u8]) -> Vec<u8> {
    let empty_stream = [0x06u8];
    let mut out = Vec::new();
    put32(&mut out, 0x774F_4632);
    put32(&mut out, flavor);
    put32(&mut out, (48 + directory.len() + collection.len() + empty_stream.len()) as u32);
    put16(&mut out, table_count);
    put16(&mut out, 0);
    put32(&mut out, 0);
    put32(&mut out, empty_stream.len() as u32);
    put16(&mut out, 1);
    put16(&mut out, 0);
    out.extend_from_slice(&[0; 20]);
    assert_eq!(out.len(), 48);
    out.extend_from_slice(directory);
    out.extend_from_slice(collection);
    out.extend_from_slice(&empty_stream);
    out
}

fn names() -> Vec<u8> {
    name_table(&[(1, "Test Family"), (2, "Bold"), (4, "Test Family Bold")])
}

fn metrics(advances: &[u16]) -> Vec<(u32, Vec<u8>)> {
    vec![
        (TAG_HHEA, hhea_table(advances.len() as u16)),
        (TAG_MAXP, maxp_table(advances.len() as u16 + 2)),
        (TAG_HMTX, hmtx_table(advances, 2)),
    ]
}

fn expected(bold: bool, italic: bool, monospace: bool) -> (FcPattern, FcFontPath) {
    let flag = |b: bool| if b { PatternMatch::True } else { PatternMatch::False };
    (
        FcPattern {
            name: Some("Test Family Bold".to_string()),
            family: Some("Test Family".to_string()),
            bold: flag(bold),
            italic: flag(italic),
            monospace: flag(monospace),
            ..Default::default()
        },
        FcFontPath { path: "/fonts/test.ttf".to_string(), font_index: 0 },
    )
}

fn entry(name_id: u16, text: Option<&str>) -> NameEntry {
    NameEntry { name_id, text: text.map(|t| t.to_string()) }
}

#[test]
fn table_tags_are_those_of_the_table_reader() {
    assert_eq!(TAG_HEAD, allsorts::tag::HEAD);
    assert_eq!(TAG_POST, allsorts::tag::POST);
    assert_eq!(TAG_OS_2, allsorts::tag::OS_2);
    assert_eq!(TAG_HHEA, allsorts::tag::HHEA);
    assert_eq!(TAG_MAXP, allsorts::tag::MAXP);
    assert_eq!(TAG_HMTX, allsorts::tag::HMTX);
    assert_eq!(TAG_NAME, allsorts::tag::NAME);
    assert_eq!(TAG_GLYF, allsorts::tag::GLYF);
}

#[test]
fn parses_a_complete_font() {
    let mut tables = vec![
        (TAG_HEAD, head_table(1)),
        (TAG_POST, post_table(1)),
        (TAG_OS_2, os2_table(0)),
        (TAG_NAME, names()),
    ];
    tables.extend(metrics(&[500, 600, 700]));
    let font = font_file(&tables);
    assert_eq!(FcParseFont("/fonts/test.ttf", &font), Some(vec![expected(true, false, true)]));
}

#[test]
fn header_flags_are_read_separately() {
    for (mac_style, bold, italic) in [(0u16, false, false), (1, true, false), (2, false, true), (3, true, true)] {
        let font = font_file(&[
            (TAG_HEAD, head_table(mac_style)),
            (TAG_POST, post_table(0)),
            (TAG_NAME, names()),
        ]);
        assert_eq!(
            FcParseFont("/fonts/test.ttf", &font),
            Some(vec![expected(bold, italic, false)])
        );
    }
}

#[test]
fn spacing_table_decides_first() {
    let mut tables = vec![
        (TAG_HEAD, head_table(0)),
        (TAG_POST, post_table(0)),
        (TAG_OS_2, os2_table(2)),
        (TAG_NAME, names()),
    ];
    tables.extend(metrics(&[500, 500]));
    let font = font_file(&tables);
    let evidence = read_spacing_evidence(&font, 0);
    assert_eq!(evidence.fixed_pitch, Some(0));
    assert_eq!(evidence.panose, Found::Present([2, 7, 0, 0, 0, 0, 0, 0, 0, 0]));
    assert_eq!(evidence.advances, Found::Present(vec![500, 500]));
    assert_eq!(evidence.is_monospace(), Some(false));
    assert_eq!(FcParseFont("/fonts/test.ttf", &font), Some(vec![expected(false, false, false)]));
}

#[test]
fn panose_class_decides_without_spacing_table() {
    let mut tables = vec![
        (TAG_HEAD, head_table(0)),
        (TAG_OS_2, os2_table(2)),
        (TAG_NAME, names()),
    ];
    let font = font_file(&tables);
    assert_eq!(FcParseFont("/fonts/test.ttf", &font), Some(vec![expected(false, false, true)]));

    tables.extend(metrics(&[500, 600, 500]));
    let font = font_file(&tables);
    let evidence = read_spacing_evidence(&font, 0);
    assert_eq!(evidence.fixed_pitch, None);
    assert_eq!(evidence.advances, Found::Present(vec![500, 600, 500]));
    assert_eq!(evidence.is_monospace(), Some(true));
    assert_eq!(FcParseFont("/fonts/test.ttf", &font), Some(vec![expected(false, false, true)]));
}

#[test]
fn panose_class_other_than_two_decides_against_uniform_advances() {
    let mut tables = vec![
        (TAG_HEAD, head_table(0)),
        (TAG_OS_2, os2_table(3)),
        (TAG_NAME, names()),
    ];
    tables.extend(metrics(&[500, 500, 500]));
    let font = font_file(&tables);
    assert_eq!(FcParseFont("/fonts/test.ttf", &font), Some(vec![expected(false, false, false)]));
}

#[test]
fn advances_decide_last() {
    let mut uniform = vec![(TAG_HEAD, head_table(0)), (TAG_NAME, names())];
    uniform.extend(metrics(&[512, 512, 512, 512]));
    let font = font_file(&uniform);
    assert_eq!(FcParseFont("/fonts/test.ttf", &font), Some(vec![expected(false, false, true)]));

    let mut mixed = vec![(TAG_HEAD, head_table(0)), (TAG_NAME, names())];
    mixed.extend(metrics(&[512, 512, 513, 512]));
    let font = font_file(&mixed);
    assert_eq!(FcParseFont("/fonts/test.ttf", &font), Some(vec![expected(false, false, false)]));
}

#[test]
fn malformed_spacing_table_falls_through() {
    let font = font_file(&[
        (TAG_HEAD, head_table(0)),
        (TAG_POST, vec![0, 3, 0, 0]),
        (TAG_OS_2, os2_table(2)),
        (TAG_NAME, names()),
    ]);
    assert_eq!(read_spacing_evidence(&font, 0).fixed_pitch, None);
    assert_eq!(FcParseFont("/fonts/test.ttf", &font), Some(vec![expected(false, false, true)]));
}

#[test]
fn incomplete_metrics_give_no_verdict() {
    let font = font_file(&[
        (TAG_HEAD, head_table(0)),
        (TAG_HHEA, hhea_table(2)),
        (TAG_HMTX, hmtx_table(&[500, 500], 0)),
        (TAG_NAME, names()),
    ]);
    let evidence = read_spacing_evidence(&font, 0);
    assert_eq!(evidence.advances, Found::Absent);
    assert_eq!(evidence.is_monospace(), Some(false));
    assert_eq!(FcParseFont("/fonts/test.ttf", &font), Some(vec![expected(false, false, false)]));
}

#[test]
fn malformed_classification_table_aborts_the_file() {
    let short = vec![0u8; 20];
    let font = font_file(&[
        (TAG_HEAD, head_table(0)),
        (TAG_OS_2, short.clone()),
        (TAG_NAME, names()),
    ]);
    let evidence = read_spacing_evidence(&font, 0);
    assert_eq!(evidence.panose, Found::Malformed);
    assert_eq!(evidence.is_monospace(), None);
    assert_eq!(FcParseFont("/fonts/test.ttf", &font), None);

    let decided = font_file(&[
        (TAG_HEAD, head_table(0)),
        (TAG_POST, post_table(1)),
        (TAG_OS_2, short),
        (TAG_NAME, names()),
    ]);
    assert_eq!(FcParseFont("/fonts/test.ttf", &decided), Some(vec![expected(false, false, true)]));
}

#[test]
fn malformed_metrics_abort_the_file() {
    let short_metrics = font_file(&[
        (TAG_HEAD, head_table(0)),
        (TAG_HHEA, hhea_table(3)),
        (TAG_MAXP, maxp_table(3)),
        (TAG_HMTX, hmtx_table(&[500, 500], 0)),
        (TAG_NAME, names()),
    ]);
    assert_eq!(read_spacing_evidence(&short_metrics, 0).advances, Found::Malformed);
    assert_eq!(FcParseFont("/fonts/test.ttf", &short_metrics), None);

    let mut bad_header = hhea_table(2);
    bad_header[1] = 9;
    let bad = font_file(&[
        (TAG_HEAD, head_table(0)),
        (TAG_HHEA, bad_header),
        (TAG_MAXP, maxp_table(2)),
        (TAG_HMTX, hmtx_table(&[500, 500], 0)),
        (TAG_NAME, names()),
    ]);
    assert_eq!(read_spacing_evidence(&bad, 0).advances, Found::Malformed);
    assert_eq!(FcParseFont("/fonts/test.ttf", &bad), None);

    let mut beyond = font_file(&[(TAG_HEAD, head_table(0)), (TAG_OS_2, os2_table(2))]);
    beyond[12 + 8..12 + 12].copy_from_slice(&0x00ff_ffffu32.to_be_bytes());
    assert_eq!(read_spacing_evidence(&beyond, 0).panose, Found::Malformed);
}

#[test]
fn no_spacing_source_means_not_monospace() {
    let font = font_file(&[(TAG_HEAD, head_table(0)), (TAG_NAME, names())]);
    let evidence = read_spacing_evidence(&font, 0);
    assert_eq!(
        evidence,
        SpacingEvidence { fixed_pitch: None, panose: Found::Absent, advances: Found::Absent }
    );
    assert_eq!(FcParseFont("/fonts/test.ttf", &font), Some(vec![expected(false, false, false)]));
}

#[test]
fn missing_mandatory_tables_abort_the_file() {
    let no_head = font_file(&[(TAG_POST, post_table(1)), (TAG_NAME, names())]);
    assert_eq!(FcParseFont("/fonts/test.ttf", &no_head), None);
    let no_name = font_file(&[(TAG_HEAD, head_table(0)), (TAG_POST, post_table(1))]);
    assert_eq!(FcParseFont("/fonts/test.ttf", &no_name), None);
    let mut bad_magic = head_table(0);
    bad_magic[12] = 0;
    let bad_head = font_file(&[(TAG_HEAD, bad_magic), (TAG_NAME, names())]);
    assert_eq!(FcParseFont("/fonts/test.ttf", &bad_head), None);
    assert_eq!(FcParseFont("/fonts/test.ttf", b"not a font at all"), None);
    assert_eq!(FcParseFont("/fonts/test.ttf", &[]), None);
}

#[test]
fn name_before_family_emits_nothing() {
    let font = font_file(&[
        (TAG_HEAD, head_table(0)),
        (TAG_NAME, name_table(&[(4, "Lonely Regular"), (1, "Lonely")])),
    ]);
    assert_eq!(FcParseFont("/fonts/test.ttf", &font), Some(vec![]));
}

#[test]
fn repeated_records_give_one_entry() {
    let font = font_file(&[
        (TAG_HEAD, head_table(1)),
        (TAG_POST, post_table(1)),
        (
            TAG_NAME,
            name_table(&[
                (1, "Test Family"),
                (4, "Test Family Bold"),
                (1, "Test Family"),
                (4, "Test Family Bold"),
            ]),
        ),
    ]);
    assert_eq!(FcParseFont("/fonts/test.ttf", &font), Some(vec![expected(true, false, true)]));
}

#[test]
fn empty_full_name_emits_nothing() {
    let font = font_file(&[
        (TAG_HEAD, head_table(0)),
        (TAG_NAME, name_table(&[(1, "Quiet"), (4, "")])),
    ]);
    assert_eq!(FcParseFont("/fonts/test.ttf", &font), Some(vec![]));
}

#[test]
fn name_records_carry_the_decoded_strings() {
    let font = font_file(&[(TAG_HEAD, head_table(0)), (TAG_NAME, names())]);
    assert_eq!(
        read_name_records(&font, 0),
        Some(vec![
            entry(1, Some("Test Family")),
            entry(2, None),
            entry(4, Some("Test Family Bold")),
        ])
    );
    assert_eq!(read_name_records(&font, 1), Some(vec![
        entry(1, Some("Test Family")),
        entry(2, None),
        entry(4, Some("Test Family Bold")),
    ]));
    assert_eq!(read_name_records(b"garbage", 0), None);
}

#[test]
fn font_name_lookup_reads_family_and_name() {
    let font = font_file(&[(TAG_HEAD, head_table(0)), (TAG_NAME, names())]);
    let place = FcFontPath { path: "/fonts/test.ttf".to_string(), font_index: 0 };
    assert_eq!(
        get_font_name(&place, &font),
        Some(("Test Family".to_string(), "Test Family Bold".to_string()))
    );
    let only_family = font_file(&[(TAG_NAME, name_table(&[(1, "Alone")]))]);
    assert_eq!(get_font_name(&place, &only_family), None);
    assert_eq!(get_font_name(&place, b"garbage"), None);
}

#[test]
fn sub_fonts_of_a_collection_are_told_apart_by_index() {
    let collection = font_collection(&[
        vec![
            (TAG_HEAD, head_table(1)),
            (TAG_NAME, name_table(&[(1, "First"), (4, "First Bold")])),
            (TAG_POST, post_table(0)),
        ],
        vec![
            (TAG_HEAD, head_table(2)),
            (TAG_NAME, name_table(&[(1, "Second"), (4, "Second Italic")])),
            (TAG_POST, post_table(1)),
        ],
    ]);
    let at = |font_index: usize| FcFontPath { path: "/fonts/two.ttc".to_string(), font_index };
    let pair = |f: &str, n: &str| Some((f.to_string(), n.to_string()));
    assert_eq!(get_font_name(&at(0), &collection), pair("First", "First Bold"));
    assert_eq!(get_font_name(&at(1), &collection), pair("Second", "Second Italic"));
    assert_eq!(get_font_name(&at(2), &collection), None);
    assert_eq!(read_spacing_evidence(&collection, 0).fixed_pitch, Some(0));
    assert_eq!(read_spacing_evidence(&collection, 1).fixed_pitch, Some(1));
    assert_eq!(read_spacing_evidence(&collection, 2).fixed_pitch, None);
    assert_eq!(read_spacing_evidence(&collection, 2).panose, Found::Malformed);
    assert_eq!(
        FcParseFont("/fonts/two.ttc", &collection),
        Some(vec![(
            FcPattern {
                name: Some("First Bold".to_string()),
                family: Some("First".to_string()),
                bold: PatternMatch::True,
                italic: PatternMatch::False,
                monospace: PatternMatch::False,
                ..Default::default()
            },
            at(0),
        )])
    );
}

#[test]
fn compressed_container_without_transformed_tables_opens() {
    let font = compressed_container(
        0x0001_0000,
        &[0x05, 0x00, 0x02, 0x00, 0x03, 0x00, 0xCA, 0x00],
        4,
        &[],
    );
    assert_eq!(
        read_spacing_evidence(&font, 0),
        SpacingEvidence { fixed_pitch: None, panose: Found::Absent, advances: Found::Malformed }
    );
    assert_eq!(read_name_records(&font, 0), None);
    assert_eq!(FcParseFont("/fonts/a.woff2", &font), None);
    let only_names = compressed_container(0x0001_0000, &[0x05, 0x00], 1, &[]);
    assert_eq!(
        read_spacing_evidence(&only_names, 7),
        SpacingEvidence { fixed_pitch: None, panose: Found::Absent, advances: Found::Absent }
    );
}

#[test]
fn compressed_container_with_transformed_tables_does_not_open() {
    let glyphs = compressed_container(0x0001_0000, &[0x05, 0x00, 0x0A, 0x00, 0x00], 2, &[]);
    assert_eq!(read_spacing_evidence(&glyphs, 0).panose, Found::Malformed);
    assert_eq!(read_spacing_evidence(&glyphs, 0).advances, Found::Malformed);
    assert_eq!(read_name_records(&glyphs, 0), None);
    let metrics =
        compressed_container(0x0001_0000, &[0x43, 0x00, 0x00, 0xCA, 0x00, 0x05, 0x00], 3, &[]);
    assert_eq!(read_spacing_evidence(&metrics, 0).panose, Found::Malformed);
    assert_eq!(FcParseFont("/fonts/a.woff2", &metrics), None);
    let place = FcFontPath { path: "/fonts/a.woff2".to_string(), font_index: 0 };
    assert_eq!(get_font_name(&place, &metrics), None);
}

#[test]
fn compressed_collection_opens_only_within_its_fonts() {
    let no_fonts = compressed_container(0x7474_6366, &[0x05, 0x00], 1, &[0, 2, 0, 0, 0]);
    assert_eq!(read_spacing_evidence(&no_fonts, 0).panose, Found::Malformed);
    assert_eq!(read_name_records(&no_fonts, 0), None);
    let one_font = compressed_container(
        0x7474_6366,
        &[0x05, 0x00],
        1,
        &[0, 2, 0, 0, 1, 1, 0, 1, 0, 0, 0],
    );
    assert_eq!(read_spacing_evidence(&one_font, 0).panose, Found::Absent);
    assert_eq!(read_spacing_evidence(&one_font, 1).panose, Found::Malformed);
    let place = |font_index: usize| FcFontPath { path: "/fonts/c.woff2".to_string(), font_index };
    assert_eq!(get_font_name(&place(0), &one_font), None);
    assert_eq!(get_font_name(&place(1), &one_font), None);
    assert_eq!(get_font_name(&place(usize::MAX), &one_font), None);
}

#[test]
fn transformed_entries_are_those_with_a_transformed_length() {
    assert!(stored_transformed(Some(Some(0))));
    assert!(stored_transformed(Some(Some(812))));
    assert!(!stored_transformed(Some(None)));
    assert!(!stored_transformed(None));
}

#[test]
fn patterns_follow_the_most_recent_family() {
    let records = vec![
        entry(4, Some("Too Early")),
        entry(1, Some("Zeta")),
        entry(4, Some("Zeta One")),
        entry(1, None),
        entry(4, Some("Zeta Two")),
        entry(1, Some("Alpha")),
        entry(2, Some("ignored")),
        entry(4, Some("")),
        entry(4, None),
        entry(4, Some("Alpha One")),
        entry(4, Some("Zeta One")),
    ];
    let found = patterns_from_names(&records, true, false, true, "/f.ttf", 3);
    let names: Vec<(Option<String>, Option<String>)> =
        found.iter().map(|(p, _)| (p.name.clone(), p.family.clone())).collect();
    let pair = |n: &str, f: &str| (Some(n.to_string()), Some(f.to_string()));
    assert_eq!(
        names,
        vec![
            pair("Alpha One", "Alpha"),
            pair("Zeta One", "Alpha"),
            pair("Zeta One", "Zeta"),
            pair("Zeta Two", "Zeta"),
        ]
    );
    for (pattern, place) in &found {
        assert_eq!(pattern.bold, PatternMatch::True);
        assert_eq!(pattern.italic, PatternMatch::False);
        assert_eq!(pattern.monospace, PatternMatch::True);
        assert_eq!(pattern.oblique, PatternMatch::DontCare);
        assert_eq!(pattern.condensed, PatternMatch::DontCare);
        assert_eq!(pattern.weight, 0);
        assert_eq!(pattern.unicode_range, [0, 0]);
        assert_eq!(place, &FcFontPath { path: "/f.ttf".to_string(), font_index: 3 });
    }
    let mut sorted = found.clone();
    sorted.sort();
    assert_eq!(found, sorted);
}

#[test]
fn patterns_of_no_records_are_none() {
    assert_eq!(patterns_from_names(&vec![], false, false, false, "/f.ttf", 0), vec![]);
    let only_family = vec![entry(1, Some("F"))];
    assert_eq!(patterns_from_names(&only_family, false, false, false, "/f.ttf", 0), vec![]);
}

#[test]
fn family_and_name_stop_at_the_first_complete_pair() {
    let pair = |f: &str, n: &str| Some((f.to_string(), n.to_string()));
    assert_eq!(family_and_name(&vec![]), None);
    assert_eq!(family_and_name(&vec![entry(1, Some("F"))]), None);
    assert_eq!(family_and_name(&vec![entry(4, Some("N"))]), None);
    assert_eq!(family_and_name(&vec![entry(1, None), entry(4, Some("N"))]), None);
    assert_eq!(
        family_and_name(&vec![entry(4, Some("N")), entry(1, Some("F")), entry(1, Some("G"))]),
        pair("F", "N")
    );
    assert_eq!(
        family_and_name(&vec![entry(1, Some("F1")), entry(1, Some("F2")), entry(4, Some("N"))]),
        pair("F2", "N")
    );
    assert_eq!(
        family_and_name(&vec![
            entry(4, Some("N1")),
            entry(3, Some("x")),
            entry(4, Some("N2")),
            entry(1, Some("F")),
            entry(4, Some("N3")),
        ]),
        pair("F", "N2")
    );
    assert_eq!(family_and_name(&vec![entry(1, Some("")), entry(4, Some(""))]), pair("", ""));
}

#[test]
fn verdict_takes_the_first_source() {
    let panose = |class: u8| Found::Present([class, 0, 0, 0, 0, 0, 0, 0, 0, 0]);
    let widths = |w: &[u16]| Found::Present(w.to_vec());
    let case = |fixed_pitch, panose, advances: Found<Vec<u16>>| {
        SpacingEvidence { fixed_pitch, panose, advances }.is_monospace()
    };
    assert_eq!(case(Some(1), Found::Absent, Found::Absent), Some(true));
    assert_eq!(case(Some(7), panose(0), widths(&[1, 2])), Some(true));
    assert_eq!(case(Some(0), panose(2), widths(&[5, 5])), Some(false));
    assert_eq!(case(Some(0), Found::Malformed, Found::Malformed), Some(false));
    assert_eq!(case(None, panose(2), widths(&[1, 2])), Some(true));
    assert_eq!(case(None, panose(2), Found::Malformed), Some(true));
    assert_eq!(case(None, panose(0), widths(&[5, 5])), Some(false));
    assert_eq!(case(None, panose(1), Found::Absent), Some(false));
    assert_eq!(case(None, Found::Malformed, widths(&[5, 5])), None);
    assert_eq!(case(None, Found::Absent, widths(&[5, 5, 5])), Some(true));
    assert_eq!(case(None, Found::Absent, widths(&[5, 5, 6])), Some(false));
    assert_eq!(case(None, Found::Absent, widths(&[])), Some(true));
    assert_eq!(case(None, Found::Absent, Found::Malformed), None);
    assert_eq!(case(None, Found::Absent, Found::Absent), Some(false));
}

#[test]
fn all_equal_compares_every_advance() {
    assert!(all_equal(&[]));
    assert!(all_equal(&[9]));
    assert!(all_equal(&[9, 9, 9]));
    assert!(!all_equal(&[9, 9, 8]));
    assert!(!all_equal(&[8, 9, 9]));
    assert!(!all_equal(&[9, 8, 9]));
}

#[test]
fn parsed_files_are_gathered_in_order() {
    let a = expected(true, false, false);
    let b = expected(false, true, false);
    let c = expected(false, false, true);
    assert_eq!(FcParseFontFiles(vec![]), vec![]);
    assert_eq!(FcParseFontFiles(vec![None, None]), vec![]);
    assert_eq!(
        FcParseFontFiles(vec![
            Some(vec![a.clone(), b.clone()]),
            None,
            Some(vec![]),
            Some(vec![c.clone()]),
            Some(vec![a.clone()]),
        ]),
        vec![a.clone(), b, c, a]
    );
}
