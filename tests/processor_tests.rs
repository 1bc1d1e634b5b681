use tagotomatik::processor::MetadataProcessorService;

#[test]
fn test_corriger_casse() {
    let processor = MetadataProcessorService::new();

    assert_eq!(processor.corriger_casse("HELLO WORLD"), "Hello world");
    assert_eq!(processor.corriger_casse("hello world"), "Hello world");

    assert_eq!(processor.corriger_casse("part ii"), "Part II");
    assert_eq!(processor.corriger_casse("chapter iv"), "Chapter IV");
    assert_eq!(processor.corriger_casse("louis xiv"), "Louis XIV");

    assert_eq!(processor.corriger_casse("live in usa"), "Live in USA");
    assert_eq!(processor.corriger_casse("bbc news"), "BBC news");

    assert_eq!(processor.corriger_casse("am i wrong"), "Am I wrong");
    assert_eq!(processor.corriger_casse("i love you"), "I love you");

    assert_eq!(processor.corriger_casse("hello. world"), "Hello. World");
    assert_eq!(
        processor.corriger_casse("title: subtitle"),
        "Title: Subtitle"
    );
    assert_eq!(processor.corriger_casse("(remix)"), "(Remix)");
}

#[test]
fn test_format_folder_name() {
    let processor = MetadataProcessorService::new();

    assert_eq!(
        processor.format_folder_name("Artist", "Album", Some(2020)),
        "(2020) Album"
    );
    assert_eq!(
        processor.format_folder_name("Artist", "Album", None),
        "Album"
    );
    assert_eq!(
        processor.format_folder_name("AC/DC", "Live at River Plate", Some(2012)),
        "(2012) Live at river plate"
    );
    assert_eq!(
        processor.format_folder_name("AC/DC", "The AC/DC Collection", Some(2000)),
        "(2000) The AC-DC collection"
    );
}

#[test]
fn test_format_track_filename() {
    let processor = MetadataProcessorService::new();

    assert_eq!(
        processor.format_track_filename(Some(1), "Title", "mp3"),
        "01. Title.mp3"
    );
    assert_eq!(
        processor.format_track_filename(Some(10), "Title", ".FLAC"),
        "10. Title.FLAC"
    );
    assert_eq!(
        processor.format_track_filename(None, "Title", "mp3"),
        "00. Title.mp3"
    );
    assert_eq!(
        processor.format_track_filename(Some(1), "Title/With/Slash", "mp3"),
        "01. Title-With-Slash.mp3"
    );
}

#[test]
fn corriger_casse_blank_text_is_empty() {
    let processor = MetadataProcessorService::new();
    assert_eq!(processor.corriger_casse("   \t "), "");
    assert_eq!(processor.corriger_casse(""), "");
    assert_eq!(processor.corriger_casse("  many   spaces  here "), "Many spaces here");
}

#[test]
fn corriger_casse_after_question_and_dash() {
    let processor = MetadataProcessorService::new();
    assert_eq!(processor.corriger_casse("why? because - maybe"), "Why? Because - Maybe");
}

#[test]
fn format_track_number_pads_numbers_only() {
    let processor = MetadataProcessorService::new();
    assert_eq!(processor.format_track_number("1"), "01");
    assert_eq!(processor.format_track_number("+7"), "07");
    assert_eq!(processor.format_track_number("12"), "12");
    assert_eq!(processor.format_track_number("123"), "123");
    assert_eq!(processor.format_track_number("3/12"), "3/12");
    assert_eq!(processor.format_track_number(""), "");
    assert_eq!(processor.format_track_number("+"), "+");
    assert_eq!(processor.format_track_number("4294967295"), "4294967295");
    assert_eq!(processor.format_track_number("4294967296"), "4294967296");
}

#[test]
fn normalize_genre_capitalises_each_word() {
    let processor = MetadataProcessorService::new();
    assert_eq!(processor.normalize_genre("progressive  rock"), "Progressive Rock");
    assert_eq!(processor.normalize_genre("(hip) hop 2"), "(Hip) Hop 2");
    assert_eq!(processor.normalize_genre(""), "");
}

#[test]
fn folder_name_zero_year_is_left_out() {
    let processor = MetadataProcessorService::new();
    assert_eq!(processor.format_folder_name("X", "best of", Some(0)), "Best of");
    assert_eq!(processor.format_folder_name("X", "", Some(1999)), "(1999)");
}

#[test]
fn folder_name_sanitises_forbidden_characters() {
    let processor = MetadataProcessorService::new();
    assert_eq!(
        processor.format_folder_name("", "a<b>c|d\"e?f*g", Some(5)),
        "(5) A(b)c-d'efg"
    );
}

#[test]
fn track_filename_trims_title_and_dots() {
    let processor = MetadataProcessorService::new();
    assert_eq!(
        processor.format_track_filename(Some(123), "  Song  ", "..ogg"),
        "123. Song.ogg"
    );
}
