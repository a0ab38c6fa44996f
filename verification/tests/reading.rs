use openhero::chart::{
    add_note, chart_item, note_entry, parse_chart, parse_difficulty, parse_instrument,
    parse_note_line, NoteEntry,
};
use openhero::charts::Charts;
use openhero::events::{
    choose_keyword_end, cut_event, find_word_end, global_event, is_phrase_keyword, joined_words,
    parse_event_line, parse_events, split_event,
};
use openhero::metadata::{parse_song, set_field, strip_year_lead};
use openhero::number::{
    is_real, parse_u32, parse_u8, parse_unsigned, parse_usize, power_of_two,
};
use openhero::song::{
    kind_of_section, read_section, remove_chars, remove_quotes, Chart, Difficulty, GlobalEvent,
    Instrument, Note, ParseError, SectionKind, Song, SongSection, StarpowerEvent, SyncEvent,
    TempoEvent, Warning,
};
use openhero::sync::{parse_sync, parse_sync_line, sync_event};
use openhero::tempo::{
    calculate_note_times, is_timeable, map_tempo, ticks_to_micros, Breakpoint, DEFAULT_BPM,
    TEMPO_SCALE,
};
use openhero::text::{
    chars_of, decode, ends_with, equals, find, is_whitespace, split, split_assignment,
    starts_with, string_of, strip, to_lowercase, trim,
};

fn chars(s: &str) -> Vec<char> {
    s.chars().collect()
}

fn text(v: &[char]) -> String {
    v.iter().collect()
}

fn lines(s: &str) -> Vec<String> {
    s.split('\n').map(|line| line.to_string()).collect()
}

#[test]
fn characters_are_taken_off_both_ends() {
    assert_eq!(remove_chars("\"Star\"".to_string(), 1, 1), "Star");
    assert_eq!(remove_chars("E \"end\"".to_string(), 3, 1), "end");
    assert_eq!(remove_chars("abcdef".to_string(), 0, 0), "abcdef");
    assert_eq!(remove_chars("abcdef".to_string(), 2, 0), "cdef");
    assert_eq!(remove_chars("abcdef".to_string(), 0, 5), "a");
    assert_eq!(remove_chars("abcdef".to_string(), 3, 3), "");
    assert_eq!(remove_chars("abcdef".to_string(), 4, 3), "");
    assert_eq!(remove_chars("abcdef".to_string(), 7, 0), "");
    assert_eq!(remove_chars("abcdef".to_string(), 0, 7), "");
    assert_eq!(remove_chars("x".to_string(), usize::MAX, usize::MAX), "");
    assert_eq!(remove_chars(String::new(), 0, 0), "");
    assert_eq!(remove_chars("«ñandú»".to_string(), 1, 1), "ñandú");
    assert_eq!(remove_quotes("[Song]".to_string()), "Song");
    assert_eq!(remove_quotes("\"\"".to_string()), "");
    assert_eq!(remove_quotes("x".to_string()), "");
    assert_eq!(remove_quotes(String::new()), "");
    assert_eq!(text(&strip(&chars("abc"), 1, 1)), "b");
}

#[test]
fn whitespace_is_trimmed() {
    assert_eq!(text(&trim(&chars("  a b \t\r\n"))), "a b");
    assert_eq!(text(&trim(&chars("\u{3000}\u{a0}x\u{2028}\u{85}"))), "x");
    assert_eq!(text(&trim(&chars("\u{200b}x\u{180e}"))), "\u{200b}x\u{180e}");
    assert_eq!(text(&trim(&chars(" \t "))), "");
    assert_eq!(text(&trim(&chars(""))), "");
    for code in 0u32..=0x10ffff {
        if let Some(c) = char::from_u32(code) {
            assert_eq!(is_whitespace(c), c.is_whitespace(), "code {:x}", code);
        }
    }
    assert!(!is_whitespace('\u{feff}'));
}

#[test]
fn text_and_characters_go_both_ways() {
    assert_eq!(chars_of("añ€😀"), vec!['a', 'ñ', '€', '😀']);
    assert_eq!(string_of(&vec!['a', 'ñ', '€', '😀']), "añ€😀");
    assert_eq!(string_of(&Vec::new()), "");
    assert_eq!(decode("añ€😀".as_bytes()), Some(vec!['a', 'ñ', '€', '😀']));
    assert_eq!(decode(&[]), Some(Vec::new()));
    assert_eq!(decode(&[0x61, 0x80]), None);
    assert_eq!(decode(&[0xed, 0xa0, 0x80]), None);
    assert_eq!(decode(&[0xc0, 0x80]), None);
    assert_eq!(text(&to_lowercase(&chars("ExPeRtSiNgLe ÀÉ"))), "expertsingle àé");
    assert_eq!(text(&to_lowercase(&chars("İ"))), "i\u{307}");
}

#[test]
fn prefixes_and_suffixes() {
    let s = chars("expertsingle");
    assert!(starts_with(&s, "expert"));
    assert!(starts_with(&s, ""));
    assert!(starts_with(&s, "expertsingle"));
    assert!(!starts_with(&s, "expertsingles"));
    assert!(!starts_with(&s, "hard"));
    assert!(ends_with(&s, "single"));
    assert!(ends_with(&s, ""));
    assert!(!ends_with(&s, "double"));
    assert!(!ends_with(&s, "xexpertsingle"));
    assert!(equals(&s, "expertsingle"));
    assert!(!equals(&s, "expertsingl"));
    assert!(!equals(&s, "expertsinglE"));
    assert!(equals(&Vec::new(), ""));
    assert_eq!(find(&s, &chars("e"), 0), 0);
    assert_eq!(find(&s, &chars("e"), 1), 3);
    assert_eq!(find(&s, &chars("e"), 4), 11);
    assert_eq!(find(&s, &chars("e"), 12), 12);
    assert_eq!(find(&s, &chars("e"), 99), 12);
    assert_eq!(find(&s, &chars("z"), 0), 12);
    assert_eq!(find(&s, &chars("le"), 0), 10);
    assert_eq!(find(&s, &chars("lee"), 0), 12);
    assert_eq!(find(&s, &chars(""), 5), 5);
}

#[test]
fn lines_split_into_fields() {
    let pieces: Vec<String> = split(&chars("0 = TS 4  3 "), ' ').iter().map(|p| text(p)).collect();
    assert_eq!(pieces, vec!["0", "=", "TS", "4", "", "3", ""]);
    assert_eq!(split(&chars(""), ' '), vec![Vec::<char>::new()]);
    assert_eq!(split(&chars("abc"), '\n'), vec![chars("abc")]);
    assert_eq!(split(&chars("\n"), '\n'), vec![Vec::<char>::new(), Vec::new()]);
    let (key, value) = split_assignment(&chars("Name = \"A = B\" = C"));
    assert_eq!(text(&key), "Name");
    assert_eq!(value.map(|v| text(&v)), Some("\"A".to_string()));
    let (key, value) = split_assignment(&chars("Name =x"));
    assert_eq!(text(&key), "Name =x");
    assert_eq!(value, None);
    let (key, value) = split_assignment(&chars(" = "));
    assert_eq!(text(&key), "");
    assert_eq!(value, Some(Vec::new()));
    let (key, value) = split_assignment(&chars("a = = b"));
    assert_eq!(text(&key), "a");
    assert_eq!(value.map(|v| text(&v)), Some("= b".to_string()));
    let (key, value) = split_assignment(&chars("a = b = "));
    assert_eq!(text(&key), "a");
    assert_eq!(value.map(|v| text(&v)), Some("b".to_string()));
}

#[test]
fn unsigned_numbers_are_read() {
    assert_eq!(parse_usize(&chars("0")), Some(0));
    assert_eq!(parse_usize(&chars("+42")), Some(42));
    assert_eq!(parse_usize(&chars("007")), Some(7));
    assert_eq!(parse_usize(&chars(&usize::MAX.to_string())), Some(usize::MAX));
    assert_eq!(parse_usize(&chars("18446744073709551616")), None);
    assert_eq!(parse_usize(&chars("99999999999999999999999999999999999999999")), None);
    assert_eq!(parse_usize(&chars("000000000000000000000000000000000000000001")), Some(1));
    for bad in ["", "+", "-", "-0", "-1", "++1", "1+", " 1", "1 ", "1_0", "0x10", "1.0", "١٢", "1e3"] {
        assert_eq!(parse_usize(&chars(bad)), None, "{:?}", bad);
        assert_eq!(bad.parse::<usize>().ok(), None, "{:?}", bad);
    }
    assert_eq!(parse_u8(&chars("255")), Some(255));
    assert_eq!(parse_u8(&chars("256")), None);
    assert_eq!(parse_u32(&chars("4294967295")), Some(u32::MAX));
    assert_eq!(parse_u32(&chars("4294967296")), None);
    assert_eq!(parse_unsigned(&chars("100"), 99), None);
    assert_eq!(parse_unsigned(&chars("99"), 99), Some(99));
    assert_eq!(parse_unsigned(&chars("0"), 0), Some(0));
    assert_eq!(parse_unsigned(&chars("18446744073709551615"), u64::MAX), Some(u64::MAX));
}

#[test]
fn powers_of_two() {
    assert_eq!(power_of_two(0), Some(1));
    assert_eq!(power_of_two(2), Some(4));
    assert_eq!(power_of_two(usize::BITS - 1), Some(1 << (usize::BITS - 1)));
    assert_eq!(power_of_two(usize::BITS), None);
    assert_eq!(power_of_two(u32::MAX), None);
}

#[test]
fn real_literals_are_told_from_other_text() {
    for good in [
        "0", "5", "+5", "-5", "5.", ".5", "5.5", "-.5", "+5.", "1e5", "1E5", "1e+5", "1e-5",
        "1.e5", ".1e5", "1.5E-10", "00012.3400", "inf", "INF", "-Infinity", "+iNfInItY", "nan",
        "NaN", "-nan", "1e400", "123456789012345678901234567890",
    ] {
        assert!(is_real(&chars(good)), "{:?}", good);
        assert!(good.parse::<f32>().is_ok(), "{:?}", good);
    }
    for bad in [
        "", "+", "-", ".", "+.", "e5", ".e5", "1e", "1e+", "1e-", "1e5.0", "1..0", "1.2.3", "--1",
        "+-1", "1 ", " 1", "1f", "0x10", "1_0", "infinit", "infinityy", "in", "na", "nane",
        "i\u{307}nf", "1,5", "١", "1e٣",
    ] {
        assert!(!is_real(&chars(bad)), "{:?}", bad);
        assert!(bad.parse::<f32>().is_err(), "{:?}", bad);
    }
}

#[test]
fn the_year_loses_its_comma() {
    assert_eq!(text(&strip_year_lead(&chars(", 2007"))), "2007");
    assert_eq!(text(&strip_year_lead(&chars(", , , 2007"))), "2007");
    assert_eq!(text(&strip_year_lead(&chars(",2007"))), ",2007");
    assert_eq!(text(&strip_year_lead(&chars("2007, "))), "2007, ");
    assert_eq!(text(&strip_year_lead(&chars(", , "))), "");
    assert_eq!(text(&strip_year_lead(&chars(", ,"))), ",");
    assert_eq!(text(&strip_year_lead(&chars(""))), "");
    assert_eq!(", , 2007".trim_start_matches(", "), "2007");
}

#[test]
fn the_song_section_alone() {
    let body = lines("  Name = \"N\"\n  Year = \", 1999\"\n  Oddity = 1\n  Offset = 0.25\n}\nName = \"later\"");
    let mut i = 0;
    let (meta, unknown) = parse_song(&body, &mut i).unwrap();
    assert_eq!(i, 4);
    assert_eq!(unknown, vec![Warning::UnknownKey("Oddity".to_string(), "1".to_string())]);
    assert_eq!(meta.name.as_deref(), Some("N"));
    assert_eq!(meta.year.as_deref(), Some("1999"));
    assert_eq!(meta.offset.as_ref().unwrap().literal, "0.25");
    assert_eq!(meta.resolution, None);
    assert_eq!(meta.artist, None);
    let mut i = 5;
    assert_eq!(parse_song(&body, &mut i).err(), Some(ParseError::MalformedLine));
    assert_eq!(i, 6);
    let mut i = 99;
    assert_eq!(parse_song(&body, &mut i).err(), Some(ParseError::MalformedLine));
    assert_eq!(i, 99);
    let body = lines("Length = long\n}");
    let mut i = 0;
    assert_eq!(parse_song(&body, &mut i).err(), Some(ParseError::MalformedNumber));
    assert_eq!(i, 0);
    let body = lines("  }  ");
    let mut i = 0;
    let (meta, unknown) = parse_song(&body, &mut i).unwrap();
    assert_eq!(i, 0);
    assert_eq!(meta, Default::default());
    assert!(unknown.is_empty());
}

#[test]
fn the_sync_section_alone() {
    let body = lines("0 = TS 4\n0 x b 120000 and more\n10 = TS 7 0\n20 = Q\n}");
    let mut i = 0;
    let track = parse_sync(&body, &mut i).unwrap();
    assert_eq!(i, 4);
    assert_eq!(
        track,
        vec![
            (0, SyncEvent::TimeSignature(4, 4)),
            (0, SyncEvent::Tempo(TempoEvent { bpm: 120_000, time: 0 })),
            (10, SyncEvent::TimeSignature(7, 1)),
        ]
    );
    assert_eq!(parse_sync_line(&chars("5 = TS 3 1")), Ok(Some((5, SyncEvent::TimeSignature(3, 2)))));
    assert_eq!(parse_sync_line(&chars("5 = ts 3 63 9")).is_ok(), usize::BITS > 63);
    assert_eq!(parse_sync_line(&chars("5 = TS 3 64")), Err(ParseError::MalformedNumber));
    assert_eq!(parse_sync_line(&chars("5 = TS 3 ")), Err(ParseError::MalformedNumber));
    assert_eq!(parse_sync_line(&chars("5 = TS")), Err(ParseError::MalformedLine));
    assert_eq!(parse_sync_line(&chars("5 =")), Err(ParseError::MalformedLine));
    assert_eq!(parse_sync_line(&chars("5 = ")), Ok(None));
    assert_eq!(parse_sync_line(&chars("5  = B 1")), Ok(None));
    assert_eq!(parse_sync_line(&chars("")), Err(ParseError::MalformedNumber));
    assert_eq!(parse_sync_line(&chars("5=B 1")), Err(ParseError::MalformedNumber));
    let body = lines("0 = B 1\n1 = B\n}");
    let mut i = 0;
    assert_eq!(parse_sync(&body, &mut i).err(), Some(ParseError::MalformedLine));
    assert_eq!(i, 1);
}

#[test]
fn phrases_lyrics_and_the_end_are_all_read() {
    let body = lines(
        "10 = E \"phrase_start\"\n20 = E \"lyric Hel-\"\n30 = E \"phrase_end\"\n40 = E \"end\"\n}",
    );
    let mut i = 0;
    let events = parse_events(&body, &mut i).unwrap();
    assert_eq!(i, 4);
    assert_eq!(
        events,
        vec![
            (10, GlobalEvent::PhraseStart),
            (20, GlobalEvent::Lyric("Hel-".to_string())),
            (30, GlobalEvent::PhraseEnd),
            (40, GlobalEvent::SongEnd),
        ]
    );
}

#[test]
fn lower_cased_words_choose_what_is_read() {
    let mut meta = SongSection::default();
    assert_eq!(set_field(&mut meta, &chars("name"), &chars("NAME"), &chars("\"N\"")), Ok(None));
    assert_eq!(set_field(&mut meta, &chars("resolution"), &chars("x"), &chars("480")), Ok(None));
    assert_eq!(
        set_field(&mut meta, &chars("Name"), &chars("Name"), &chars("\"M\"")),
        Ok(Some(Warning::UnknownKey("Name".to_string(), "\"M\"".to_string())))
    );
    assert_eq!(
        set_field(&mut meta, &chars("difficulty"), &chars("d"), &chars("hard")),
        Err(ParseError::MalformedNumber)
    );
    assert_eq!(
        set_field(&mut meta, &chars("previewend"), &chars("p"), &chars("1e")),
        Err(ParseError::MalformedNumber)
    );
    assert_eq!(set_field(&mut meta, &chars("year"), &chars("y"), &chars("\", 1999\"")), Ok(None));
    assert_eq!(meta.name.as_deref(), Some("N"));
    assert_eq!(meta.resolution, Some(480));
    assert_eq!(meta.difficulty, None);
    assert_eq!(meta.preview_end, None);
    assert_eq!(meta.year.as_deref(), Some("1999"));
    let words: Vec<Vec<char>> = "5 = XX 7 2".split(' ').map(chars).collect();
    assert_eq!(
        sync_event(&chars("ts"), 5, &words),
        Ok(Some((5, SyncEvent::TimeSignature(7, 4))))
    );
    assert_eq!(
        sync_event(&chars("b"), 9, &words),
        Ok(Some((9, SyncEvent::Tempo(TempoEvent { bpm: 7, time: 0 }))))
    );
    assert_eq!(sync_event(&chars("TS"), 5, &words), Ok(None));
    assert_eq!(sync_event(&chars("b"), 5, &words[..3].to_vec()), Err(ParseError::MalformedLine));
    let words: Vec<Vec<char>> = "Q 3 12".split(' ').map(chars).collect();
    assert_eq!(note_entry(8, &words), Ok(NoteEntry { tick: 8, lane: 3, length: 12 }));
    assert_eq!(chart_item(&chars("n"), 8, &words), Ok(Some(NoteEntry { tick: 8, lane: 3, length: 12 })));
    assert_eq!(chart_item(&chars("N"), 8, &words), Ok(None));
    assert_eq!(chart_item(&chars("n"), 8, &words[..2].to_vec()), Err(ParseError::MalformedLine));
    assert_eq!(note_entry(8, &words[..1].to_vec()), Err(ParseError::MalformedLine));
    assert_eq!(kind_of_section(&chars("song")), SectionKind::Metadata);
    assert_eq!(kind_of_section(&chars("synctrack")), SectionKind::SyncTrack);
    assert_eq!(kind_of_section(&chars("events")), SectionKind::Events);
    assert_eq!(kind_of_section(&chars("easy")), SectionKind::Notes);
    assert_eq!(kind_of_section(&chars("mediumsingle")), SectionKind::Notes);
    assert_eq!(kind_of_section(&chars("harder")), SectionKind::Notes);
    assert_eq!(kind_of_section(&chars("expertdoublebass")), SectionKind::Notes);
    assert_eq!(kind_of_section(&chars("Song")), SectionKind::Unknown);
    assert_eq!(kind_of_section(&chars("songs")), SectionKind::Unknown);
    assert_eq!(kind_of_section(&chars("")), SectionKind::Unknown);
}

#[test]
fn one_section_is_read_by_its_name() {
    let body = lines("[x]\n{\n  Resolution = 96\n  Odd = 1\n}\n  0 = N 2 0\n}\nrest");
    let header = chars("[x]");
    let mut i = 2;
    let (song, warnings) =
        read_section(&body, &mut i, &chars("song"), &header, Song::default(), Vec::new()).unwrap();
    assert_eq!(i, 5);
    assert_eq!(song.metadata.as_ref().unwrap().resolution, Some(96));
    assert_eq!(warnings, vec![Warning::UnknownKey("Odd".to_string(), "1".to_string())]);
    let mut i = 5;
    let (song, warnings) =
        read_section(&body, &mut i, &chars("easysingle"), &header, song, warnings).unwrap();
    assert_eq!(i, 7);
    assert_eq!(song.charts.len(), 1);
    assert_eq!(warnings.len(), 1);
    let mut i = 5;
    let (song, warnings) =
        read_section(&body, &mut i, &chars("easysingle"), &header, song, warnings).unwrap();
    assert_eq!(song.charts.len(), 1);
    assert_eq!(warnings[1], Warning::DuplicateChart("[x]".to_string()));
    let mut i = 5;
    let (song, warnings) =
        read_section(&body, &mut i, &chars("other"), &header, song, warnings).unwrap();
    assert_eq!(i, 5);
    assert_eq!(warnings[2], Warning::UnknownSection("[x]".to_string()));
    assert_eq!(song.metadata.as_ref().unwrap().resolution, Some(96));
    let mut i = 2;
    assert_eq!(
        read_section(&body, &mut i, &chars("events"), &header, song, warnings).err(),
        Some(ParseError::MalformedNumber)
    );
    assert_eq!(i, 2);
    let mut i = 7;
    assert_eq!(
        read_section(&body, &mut i, &chars("synctrack"), &header, Song::default(), Vec::new())
            .err(),
        Some(ParseError::MalformedNumber)
    );
    assert_eq!(i, 7);
}

#[test]
fn the_events_section_alone() {
    let body = lines("junk\n  5 = E \"section A_b c\"\n  6 = E \"nothing\"\n  7 = E \"End\"\n }\n");
    let mut i = 1;
    let events = parse_events(&body, &mut i).unwrap();
    assert_eq!(i, 4);
    assert_eq!(
        events,
        vec![(5, GlobalEvent::Section("A b c".to_string())), (7, GlobalEvent::SongEnd)]
    );
    let mut i = 0;
    assert_eq!(parse_events(&body, &mut i).err(), Some(ParseError::MalformedNumber));
    assert_eq!(i, 0);
    let mut i = 5;
    assert_eq!(parse_events(&body, &mut i).err(), Some(ParseError::MalformedNumber));
    assert_eq!(i, 5);
    let mut i = 6;
    assert_eq!(parse_events(&body, &mut i).err(), Some(ParseError::MalformedLine));
    assert_eq!(i, 6);
    assert_eq!(
        parse_event_line(&chars("3 = E \"lyric\"")),
        Ok(Some((3, GlobalEvent::Lyric(String::new()))))
    );
    assert_eq!(
        parse_event_line(&chars("3 = E \"phrase_end\"")),
        Ok(Some((3, GlobalEvent::PhraseEnd)))
    );
    assert_eq!(
        parse_event_line(&chars("3 = E \"Phrase_START\"")),
        Ok(Some((3, GlobalEvent::PhraseStart)))
    );
    assert_eq!(
        parse_event_line(&chars("3 = E \"phrase_start and more\"")),
        Ok(Some((3, GlobalEvent::PhraseStart)))
    );
    assert_eq!(parse_event_line(&chars("3 = E \"phrase start\"")), Ok(None));
    assert_eq!(parse_event_line(&chars("3 = E \"phrase_starts\"")), Ok(None));
    assert_eq!(parse_event_line(&chars("3 = E \"phrase\"")), Ok(None));
    assert_eq!(parse_event_line(&chars("3 = E \"phrase_\"")), Ok(None));
    assert_eq!(
        parse_event_line(&chars("3 = E \"end_start\"")),
        Ok(Some((3, GlobalEvent::SongEnd)))
    );
    assert_eq!(
        parse_event_line(&chars("3 = E \"lyric_end\"")),
        Ok(Some((3, GlobalEvent::Lyric("end".to_string()))))
    );
    assert_eq!(parse_event_line(&chars("3 = xxxendx")), Ok(Some((3, GlobalEvent::SongEnd))));
    assert_eq!(parse_event_line(&chars("3 = ab")), Ok(None));
    assert_eq!(parse_event_line(&chars("3 = ")), Ok(None));
    let (word, payload) = split_event(&chars("Lyric_a_b c__"));
    assert_eq!(text(&word), "lyric");
    assert_eq!(text(&payload), "a b c  ");
    let (word, payload) = split_event(&chars(" x"));
    assert_eq!(text(&word), "");
    assert_eq!(text(&payload), "x");
    let (word, payload) = split_event(&chars("PHRASE_End_of it"));
    assert_eq!(text(&word), "phrase_end");
    assert_eq!(text(&payload), "of it");
    let (word, payload) = split_event(&chars("phrase_ending"));
    assert_eq!(text(&word), "phrase");
    assert_eq!(text(&payload), "ending");
    assert_eq!(find_word_end(&chars("ab_c d"), 0), 2);
    assert_eq!(find_word_end(&chars("ab_c d"), 3), 4);
    assert_eq!(find_word_end(&chars("ab_c d"), 5), 6);
    assert_eq!(find_word_end(&chars("ab_c d"), 9), 9);
    assert_eq!(text(&joined_words(&chars("ab_c d"))), "ab_c");
    assert_eq!(text(&joined_words(&chars("ab c_d"))), "ab");
    assert_eq!(text(&joined_words(&chars("ab_"))), "ab_");
    assert_eq!(choose_keyword_end(&chars("ab_c d"), &chars("phrase_start")), 4);
    assert_eq!(choose_keyword_end(&chars("ab_c d"), &chars("phrase_end")), 4);
    assert_eq!(choose_keyword_end(&chars("ab_c d"), &chars("ab_c")), 2);
    assert_eq!(choose_keyword_end(&chars("ab c_d"), &chars("phrase_end")), 2);
    assert!(is_phrase_keyword(&chars("phrase_start")));
    assert!(!is_phrase_keyword(&chars("phrase")));
    assert!(!is_phrase_keyword(&chars("Phrase_end")));
    let (word, payload) = cut_event(&chars("ab_c d"), 4);
    assert_eq!((text(&word), text(&payload)), ("ab_c".to_string(), "d".to_string()));
    let (word, payload) = cut_event(&chars("ab_c d"), 6);
    assert_eq!((text(&word), text(&payload)), ("ab_c d".to_string(), String::new()));
    let (word, payload) = cut_event(&chars("ab_c d"), 60);
    assert_eq!((text(&word), text(&payload)), ("ab_c d".to_string(), String::new()));
    assert_eq!(
        global_event(&chars("section"), &chars("a b")),
        Some(GlobalEvent::Section("a b".to_string()))
    );
    assert_eq!(global_event(&chars("lyric"), &chars("")), Some(GlobalEvent::Lyric(String::new())));
    assert_eq!(global_event(&chars("phrase_start"), &chars("x")), Some(GlobalEvent::PhraseStart));
    assert_eq!(global_event(&chars("phrase_end"), &chars("")), Some(GlobalEvent::PhraseEnd));
    assert_eq!(global_event(&chars("end"), &chars("x")), Some(GlobalEvent::SongEnd));
    assert_eq!(global_event(&chars("End"), &chars("")), None);
    assert_eq!(global_event(&chars("phrase"), &chars("start")), None);
}

#[test]
fn the_note_section_alone() {
    let body = lines("0 = N 1 5\n0 = N 1 9\n0 = N 2 0\n4 = X\n4 = N 0 1 and more\n}");
    let mut i = 0;
    let (instrument, difficulty, chart) =
        parse_chart(&body, &mut i, "mediumdoublebass".to_string()).unwrap();
    assert_eq!(i, 5);
    assert_eq!(instrument, Instrument::DoubleBass);
    assert_eq!(difficulty, Difficulty::Medium);
    assert_eq!(
        chart.notes,
        vec![
            Note { tick: 0, frets: 0b110, length: [0, 9, 0, 0, 0, 0, 0, 0], time: 0 },
            Note { tick: 4, frets: 0b001, length: [1, 0, 0, 0, 0, 0, 0, 0], time: 0 },
        ]
    );
    assert_eq!(chart.starpower_events, Vec::<StarpowerEvent>::new());
    let mut i = 5;
    let (instrument, difficulty, chart) = parse_chart(&body, &mut i, String::new()).unwrap();
    assert_eq!(i, 5);
    assert_eq!((instrument, difficulty), (Instrument::Unknown, Difficulty::Expert));
    assert!(chart.notes.is_empty());
    assert_eq!(parse_difficulty(&chars("easyhard")), Difficulty::Easy);
    assert_eq!(parse_difficulty(&chars("hardeasy")), Difficulty::Hard);
    assert_eq!(parse_difficulty(&chars("single")), Difficulty::Expert);
    assert_eq!(parse_instrument(&chars("doublebasssingle")), Instrument::Single);
    assert_eq!(parse_instrument(&chars("doublerhythm")), Instrument::DoubleRhythm);
    assert_eq!(parse_instrument(&chars("doubleguitar")), Instrument::DoubleGuitar);
    assert_eq!(parse_instrument(&chars("singles")), Instrument::Unknown);
    assert_eq!(
        parse_note_line(&chars("7 = n 3 2")),
        Ok(Some(NoteEntry { tick: 7, lane: 3, length: 2 }))
    );
    assert_eq!(parse_note_line(&chars("7 = N 9 x")), Err(ParseError::MalformedNumber));
    assert_eq!(parse_note_line(&chars("7 = N 9")), Err(ParseError::MalformedLine));
    assert_eq!(parse_note_line(&chars("7 = N 9 2")), Err(ParseError::MalformedNumber));
    assert_eq!(parse_note_line(&chars("7 = NN 9 2")), Ok(None));
    assert_eq!(parse_note_line(&chars("7 = ")), Ok(None));
    let mut notes = Vec::new();
    add_note(&mut notes, NoteEntry { tick: 1, lane: 7, length: 3 });
    add_note(&mut notes, NoteEntry { tick: 1, lane: 7, length: 4 });
    add_note(&mut notes, NoteEntry { tick: 2, lane: 0, length: 0 });
    add_note(&mut notes, NoteEntry { tick: 1, lane: 1, length: 0 });
    assert_eq!(notes.len(), 3);
    assert_eq!(notes[0], Note { tick: 1, frets: 0x80, length: [0, 0, 0, 0, 0, 0, 0, 4], time: 0 });
}

#[test]
fn ticks_turn_into_microseconds() {
    assert_eq!(TEMPO_SCALE, 60_000_000_000);
    assert_eq!(DEFAULT_BPM, 120_000);
    assert_eq!(ticks_to_micros(192, 120_000, 192), 500_000);
    assert_eq!(ticks_to_micros(384, 120_000, 192), 1_000_000);
    assert_eq!(ticks_to_micros(0, 1, 1), 0);
    assert_eq!(ticks_to_micros(1, 120_000, 192), 2_604);
    assert_eq!(ticks_to_micros(1, 333_333, 480), 375);
    assert_eq!(ticks_to_micros(7, 1, 1), 420_000_000_000);
    assert_eq!(ticks_to_micros(1, usize::MAX, usize::MAX), 0);
    assert_eq!(ticks_to_micros(5, 0, 192), 0);
    assert_eq!(ticks_to_micros(5, 120_000, 0), 0);
    assert_eq!(
        ticks_to_micros(usize::MAX, 1, 1),
        usize::MAX as u128 * 60_000_000_000
    );
}

#[test]
fn a_tempo_map_is_built_from_a_sync_track() {
    let tempo = |bpm| SyncEvent::Tempo(TempoEvent { bpm, time: 77 });
    let mut track = vec![
        (0, SyncEvent::TimeSignature(4, 4)),
        (96, tempo(60_000)),
        (96, tempo(120_000)),
        (50, SyncEvent::TimeSignature(3, 4)),
        (288, tempo(30_000)),
    ];
    assert!(is_timeable(&track, 192));
    assert!(!is_timeable(&track, 0));
    let map = map_tempo(&mut track, 192).ok().unwrap();
    assert_eq!(map.resolution(), 192);
    assert_eq!(
        map.breakpoints(),
        &vec![
            Breakpoint { tick: 96, time: 250_000, bpm: 60_000 },
            Breakpoint { tick: 96, time: 250_000, bpm: 120_000 },
            Breakpoint { tick: 288, time: 750_000, bpm: 30_000 },
        ]
    );
    assert_eq!(track[1], (96, SyncEvent::Tempo(TempoEvent { bpm: 60_000, time: 250_000 })));
    assert_eq!(track[2], (96, SyncEvent::Tempo(TempoEvent { bpm: 120_000, time: 250_000 })));
    assert_eq!(track[3], (50, SyncEvent::TimeSignature(3, 4)));
    assert_eq!(track[4], (288, SyncEvent::Tempo(TempoEvent { bpm: 30_000, time: 750_000 })));
    assert_eq!(map.time_at(0), 0);
    assert_eq!(map.time_at(95), 247_395);
    assert_eq!(map.time_at(96), 250_000);
    assert_eq!(map.time_at(192), 500_000);
    assert_eq!(map.time_at(287), 747_395);
    assert_eq!(map.time_at(288), 750_000);
    assert_eq!(map.time_at(480), 2_750_000);
    let mut reached = 0;
    assert_eq!(map.time_onward(480, &mut reached), 2_750_000);
    assert_eq!(reached, 3);
    assert_eq!(map.time_onward(100, &mut reached), 260_416);
    assert_eq!(reached, 2);
    assert_eq!(map.time_onward(5, &mut reached), 13_020);
    assert_eq!(reached, 0);
    reached = 99;
    assert_eq!(map.time_onward(300, &mut reached), 875_000);
    assert_eq!(reached, 3);
    let mut last = 0;
    for tick in 0..600 {
        let time = map.time_at(tick);
        assert!(last <= time);
        last = time;
    }
    let mut chart = Chart {
        notes: vec![
            Note { tick: 480, frets: 1, length: [0; 8], time: 5 },
            Note { tick: 0, frets: 2, length: [1; 8], time: 5 },
            Note { tick: 192, frets: 4, length: [2; 8], time: 5 },
        ],
        starpower_events: vec![StarpowerEvent { tick: 3, length: 4 }],
    };
    calculate_note_times(&mut chart, &map);
    assert_eq!(
        chart.notes,
        vec![
            Note { tick: 480, frets: 1, length: [0; 8], time: 2_750_000 },
            Note { tick: 0, frets: 2, length: [1; 8], time: 0 },
            Note { tick: 192, frets: 4, length: [2; 8], time: 500_000 },
        ]
    );
    assert_eq!(chart.starpower_events, vec![StarpowerEvent { tick: 3, length: 4 }]);
}

#[test]
fn a_track_that_cannot_be_timed_is_left_alone() {
    let tempo = |bpm| SyncEvent::Tempo(TempoEvent { bpm, time: 0 });
    let mut backwards = vec![(10, tempo(1)), (5, SyncEvent::TimeSignature(1, 1)), (9, tempo(1))];
    let copy = backwards.clone();
    assert!(!is_timeable(&backwards, 1));
    assert_eq!(map_tempo(&mut backwards, 1).err(), Some(ParseError::MalformedNumber));
    assert_eq!(backwards, copy);
    let mut still = vec![(10, tempo(1)), (10, tempo(0))];
    assert_eq!(map_tempo(&mut still, 1).err(), Some(ParseError::MalformedNumber));
    let mut fine = vec![(10, tempo(1))];
    assert_eq!(map_tempo(&mut fine, 0).err(), Some(ParseError::MalformedNumber));
    assert_eq!(fine[0], (10, tempo(1)));
    let mut extreme = vec![(0, tempo(1)), (usize::MAX, tempo(usize::MAX))];
    let map = map_tempo(&mut extreme, 1).ok().unwrap();
    assert_eq!(map.time_at(usize::MAX), usize::MAX as u128 * 60_000_000_000);
    let mut none: Vec<(usize, SyncEvent)> = Vec::new();
    let map = map_tempo(&mut none, 192).ok().unwrap();
    assert!(map.breakpoints().is_empty());
    assert_eq!(map.time_at(192), 500_000);
}

#[test]
fn charts_are_filed_by_instrument_and_difficulty() {
    let chart = |tick| Chart {
        notes: vec![Note { tick, frets: 1, length: [0; 8], time: 0 }],
        starpower_events: Vec::new(),
    };
    let mut charts = Charts::new();
    assert_eq!(charts.len(), 0);
    assert!(charts.get(Instrument::Single, Difficulty::Easy).is_none());
    assert_eq!(charts.insert(Instrument::Single, Difficulty::Easy, chart(1)), None);
    assert_eq!(charts.insert(Instrument::Single, Difficulty::Hard, chart(2)), None);
    assert_eq!(charts.insert(Instrument::DoubleBass, Difficulty::Easy, chart(3)), None);
    assert_eq!(charts.len(), 3);
    assert_eq!(charts.insert(Instrument::Single, Difficulty::Hard, chart(4)), Some(chart(2)));
    assert_eq!(charts.len(), 3);
    assert_eq!(charts.get(Instrument::Single, Difficulty::Easy), Some(&chart(1)));
    assert_eq!(charts.get(Instrument::Single, Difficulty::Hard), Some(&chart(4)));
    assert_eq!(charts.get(Instrument::DoubleBass, Difficulty::Easy), Some(&chart(3)));
    assert_eq!(charts.get(Instrument::DoubleBass, Difficulty::Hard), None);
    let mut seen = Vec::new();
    assert!(charts.entry(3).is_none());
    let keys: Vec<_> = (0..3)
        .map(|n| charts.entry(n).map(|found| (found.instrument, found.difficulty)).unwrap())
        .collect();
    assert!(keys[0] != keys[1] && keys[0] != keys[2] && keys[1] != keys[2]);
    for n in 0..charts.len() {
        let entry = charts.entry(n).unwrap();
        seen.push((entry.instrument, entry.difficulty, entry.chart.notes[0].tick));
    }
    seen.sort_by_key(|found| found.2);
    assert_eq!(
        seen,
        vec![
            (Instrument::Single, Difficulty::Easy, 1),
            (Instrument::DoubleBass, Difficulty::Easy, 3),
            (Instrument::Single, Difficulty::Hard, 4),
        ]
    );
    let mut track = vec![(0, SyncEvent::Tempo(TempoEvent { bpm: 60_000, time: 0 }))];
    let map = map_tempo(&mut track, 1).ok().unwrap();
    charts.set_times(&map);
    assert_eq!(charts.len(), 3);
    assert_eq!(charts.get(Instrument::Single, Difficulty::Hard).unwrap().notes[0].time, 4_000_000);
    assert_eq!(charts.get(Instrument::Single, Difficulty::Easy).unwrap().notes[0].time, 1_000_000);
}

fn next(seed: &mut u64) -> u64 {
    *seed = seed.wrapping_mul(6364136223846793005).wrapping_add(1442695040888963407);
    *seed >> 33
}

fn sample(seed: &mut u64, alphabet: &[char], longest: u64) -> String {
    let len = next(seed) % (longest + 1);
    (0..len).map(|_| alphabet[(next(seed) % alphabet.len() as u64) as usize]).collect()
}

#[test]
fn text_helpers_agree_with_the_standard_library() {
    let alphabet: Vec<char> = " =\t\r+-.059eE_,x[}\"".chars().collect();
    let mut seed = 7;
    for _ in 0..20_000 {
        let s = sample(&mut seed, &alphabet, 12);
        let v = chars(&s);
        assert_eq!(text(&trim(&v)), s.trim(), "{:?}", s);
        let pieces: Vec<String> = split(&v, ' ').iter().map(|p| text(p)).collect();
        let expected: Vec<String> = s.split(' ').map(|p| p.to_string()).collect();
        assert_eq!(pieces, expected, "{:?}", s);
        let (key, value) = split_assignment(&v);
        let parts: Vec<&str> = s.split(" = ").collect();
        assert_eq!(text(&key), parts[0], "{:?}", s);
        assert_eq!(value.map(|p| text(&p)), parts.get(1).map(|p| p.to_string()), "{:?}", s);
        assert_eq!(text(&strip_year_lead(&v)), s.trim_start_matches(", "), "{:?}", s);
        let (word, payload) = cut_event(&v, find_word_end(&v, 0));
        let words: Vec<&str> = s.split([' ', '_']).collect();
        assert_eq!(text(&word), words[0], "{:?}", s);
        assert_eq!(text(&payload), words[1..].join(" "), "{:?}", s);
        let start = (next(&mut seed) % 5) as usize;
        let end = (next(&mut seed) % 5) as usize;
        if start + end <= v.len() {
            let expected: String = s.chars().skip(start).take(v.len() - start - end).collect();
            assert_eq!(remove_chars(s.clone(), start, end), expected, "{:?}", s);
        } else {
            assert_eq!(remove_chars(s.clone(), start, end), "", "{:?}", s);
        }
        let pattern = sample(&mut seed, &alphabet, 3);
        let from = (next(&mut seed) % 14) as usize;
        let found = if from <= s.len() && !(pattern.is_empty() && from == s.len()) {
            s[from..].find(&pattern).map(|at| at + from).unwrap_or(s.len())
        } else {
            s.len()
        };
        assert_eq!(find(&v, &chars(&pattern), from), found, "{:?} {:?} {}", s, pattern, from);
        assert_eq!(starts_with(&v, &pattern), s.starts_with(&pattern), "{:?} {:?}", s, pattern);
        assert_eq!(ends_with(&v, &pattern), s.ends_with(&pattern), "{:?} {:?}", s, pattern);
        assert_eq!(equals(&v, &pattern), s == pattern, "{:?} {:?}", s, pattern);
    }
}

#[test]
fn number_readers_agree_with_the_standard_library() {
    let alphabet: Vec<char> = "+-.0123456789eEinfINFatyn ".chars().collect();
    let digits: Vec<char> = "+0123456789".chars().collect();
    let mut seed = 11;
    for round in 0..60_000 {
        let s = if round % 2 == 0 {
            sample(&mut seed, &alphabet, 9)
        } else {
            sample(&mut seed, &digits, 22)
        };
        let v = chars(&s);
        assert_eq!(parse_usize(&v), s.parse::<usize>().ok(), "{:?}", s);
        assert_eq!(parse_u32(&v), s.parse::<u32>().ok(), "{:?}", s);
        assert_eq!(parse_u8(&v), s.parse::<u8>().ok(), "{:?}", s);
        assert_eq!(parse_unsigned(&v, u64::MAX), s.parse::<u64>().ok(), "{:?}", s);
        assert_eq!(is_real(&v), s.parse::<f32>().is_ok(), "{:?}", s);
    }
}
