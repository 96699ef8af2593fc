use proxy_deck::decklist::{process_lines, try_mtga, try_mtgo, try_xmage, try_xmage_line, XMageCard};

fn lines_of(input: &str) -> Vec<String> {
    input.lines().map(|l| l.to_string()).collect()
}

#[test]
pub fn test_xmage() {
    let input = r#"
1 [MID:163] Tavern Ruffian
1 [ELD:287] Murderous Rider
1 [GRN:153] Aurelia, Exemplar of Justice
1 [3ED:9] Circle of Protection: Black
1 [AKH:194] Ahn-Crop Champion
1 [PLST:M19-121] Stitcher's Supplier
SB: 1 [AKH:194] Ahn-Crop Champion
        "#;
    let processed = process_lines(&lines_of(input)).unwrap();
    let cards = &processed.mainboard;
    assert_eq!(cards.len(), 6)
}

#[test]
pub fn test_mtgo() {
    let input = r#"
1 Tavern Ruffian
1 Murderous Rider
1 Aurelia, Exemplar of Justice
1 Circle of Protection: Black
1 Ahn-Crop Champion

1 Ahn-Crop Champion
        "#;
    assert!(try_mtgo(&lines_of(input)).is_err());
}

#[test]
pub fn test_mtga() {
    let input = r#"
1 Tavern Ruffian (MID) 163
1 Murderous Rider (ELD) 287
1 Aurelia, Exemplar of Justice (GRN) 153
1 Circle of Protection: Black (3ED) 9
1 Ahn-Crop Champion (AKH) 194

1 Ahn-Crop Champion (AKH) 194
        "#;
    assert!(try_mtga(&lines_of(input)).is_err());
}

#[test]
fn single_line_reads_into_mainboard() {
    let deck = process_lines(&lines_of("1 [MID:163] Tavern Ruffian")).unwrap();
    assert_eq!(deck.mainboard.len(), 1);
    assert!(deck.sideboard.is_empty());
    let card = &deck.mainboard[0];
    assert_eq!(card.quantity, 1);
    assert_eq!(card.set_code.as_deref(), Some("MID"));
    assert_eq!(card.collector_number.as_deref(), Some("163"));
    assert_eq!(card.name, "Tavern Ruffian");
    assert_eq!(card.double_sided, None);
}

#[test]
fn sideboard_prefix_routes_to_sideboard() {
    let main = match try_xmage_line("4 [AKH:194] Ahn-Crop Champion").unwrap() {
        XMageCard::Mainboard(c) => c,
        XMageCard::Sideboard(_) => panic!("expected the mainboard"),
    };
    let side = match try_xmage_line("SB: 4 [AKH:194] Ahn-Crop Champion").unwrap() {
        XMageCard::Sideboard(c) => c,
        XMageCard::Mainboard(_) => panic!("expected the sideboard"),
    };
    assert_eq!(main.quantity, side.quantity);
    assert_eq!(main.set_code, side.set_code);
    assert_eq!(main.collector_number, side.collector_number);
    assert_eq!(main.name, side.name);
}

#[test]
fn sideboard_prefix_takes_any_white_space() {
    let deck = process_lines(&lines_of("SB:2 [M19:121] Llanowar Elves\nSB:\t\u{3000}3 [M19:121] Llanowar Elves")).unwrap();
    assert!(deck.mainboard.is_empty());
    assert_eq!(deck.sideboard.len(), 2);
    assert_eq!(deck.sideboard[0].quantity, 2);
    assert_eq!(deck.sideboard[1].quantity, 3);
}

#[test]
fn aggregate_collector_number_is_kept_whole() {
    let deck = process_lines(&lines_of("1 [PLST:M19-121] Stitcher's Supplier")).unwrap();
    let card = &deck.mainboard[0];
    assert_eq!(card.set_code.as_deref(), Some("PLST"));
    assert_eq!(card.collector_number.as_deref(), Some("M19-121"));
    assert_eq!(card.name, "Stitcher's Supplier");
}

#[test]
fn order_is_kept_within_sections() {
    let deck = process_lines(&lines_of(
        "1 [A:1] First\nSB: 1 [B:2] Second\n\n2 [C:3] Third\nSB: 3 [D:4] Fourth",
    ))
    .unwrap();
    let main: Vec<&str> = deck.mainboard.iter().map(|c| c.name.as_str()).collect();
    let side: Vec<&str> = deck.sideboard.iter().map(|c| c.name.as_str()).collect();
    assert_eq!(main, vec!["First", "Third"]);
    assert_eq!(side, vec!["Second", "Fourth"]);
}

#[test]
fn malformed_line_fails_the_list() {
    assert!(try_xmage(&lines_of("1 [MID:163] Tavern Ruffian\n1 Tavern Ruffian")).is_err());
    assert_eq!(
        process_lines(&lines_of("1 Tavern Ruffian")).err(),
        Some("Could not detect deck format")
    );
}

#[test]
fn line_shapes_that_do_not_read() {
    for line in [
        "[MID:163] Tavern Ruffian",
        "1 [mid:163] Tavern Ruffian",
        "1 [MID:] Tavern Ruffian",
        "1 [MID:163] ",
        "1 [MID:163]Tavern Ruffian",
        "1  [MID:163] Tavern Ruffian",
        " 1 [MID:163] Tavern Ruffian",
        "SB 1 [MID:163] Tavern Ruffian",
        "1 [MID:1/63] Tavern Ruffian",
    ] {
        assert!(try_xmage_line(line).is_err(), "{}", line);
    }
}

#[test]
fn quantity_must_fit_in_32_bits() {
    let ok = try_xmage_line("4294967295 [MID:163] Tavern Ruffian").unwrap();
    match ok {
        XMageCard::Mainboard(c) => assert_eq!(c.quantity, 4294967295),
        XMageCard::Sideboard(_) => panic!("expected the mainboard"),
    }
    assert!(try_xmage_line("4294967296 [MID:163] Tavern Ruffian").is_err());
}

#[test]
fn collector_numbers_take_letters_and_hyphens() {
    match try_xmage_line("1 [PLST:M19-121a_b] Name // Other Name").unwrap() {
        XMageCard::Mainboard(c) => {
            assert_eq!(c.collector_number.as_deref(), Some("M19-121a_b"));
            assert_eq!(c.name, "Name // Other Name");
        }
        XMageCard::Sideboard(_) => panic!("expected the mainboard"),
    }
}

#[test]
fn blank_only_list_is_an_empty_deck() {
    let deck = process_lines(&lines_of("\n   \n\t\n")).unwrap();
    assert!(deck.mainboard.is_empty());
    assert!(deck.sideboard.is_empty());
}

#[test]
fn collector_numbers_take_unicode_word_characters() {
    let deck = process_lines(&lines_of("1 [MID:1é] X\nSB: 2 [MID:1é] X")).unwrap();
    assert_eq!(deck.mainboard.len(), 1);
    assert_eq!(deck.mainboard[0].collector_number.as_deref(), Some("1é"));
    assert_eq!(deck.sideboard.len(), 1);
    assert_eq!(deck.sideboard[0].collector_number.as_deref(), Some("1é"));
    assert_eq!(deck.sideboard[0].quantity, 2);
    assert_eq!(deck.sideboard[0].name, "X");
    match try_xmage_line("1 [PLST:Ω-٣_x] Name").unwrap() {
        XMageCard::Mainboard(c) => assert_eq!(c.collector_number.as_deref(), Some("Ω-٣_x")),
        XMageCard::Sideboard(_) => panic!("expected the mainboard"),
    }
    // A symbol is no word character.
    assert!(try_xmage_line("1 [SLD:1★] Name").is_err());
}
