use reaction_roles::parser::{parse, ParseError};

#[test]
fn empty_text_has_no_role_list() {
    let out = parse("", "🎮");
    assert_eq!(out.resolution, Err(ParseError::NoRoleListFound));
    assert!(out.malformed.is_empty());
}

#[test]
fn text_without_separator_has_no_role_list() {
    let out = parse("🎮: Gamer\n🎨: Artist", "🎮");
    assert_eq!(out.resolution, Err(ParseError::NoRoleListFound));
    assert!(out.malformed.is_empty());
}

#[test]
fn separator_with_empty_role_list() {
    let out = parse("React below!\n\n", "🎮");
    assert_eq!(out.resolution, Err(ParseError::NoRoleForEmoji("🎮".to_string())));
    assert!(out.malformed.is_empty());
}

#[test]
fn single_mapping_resolves() {
    let out = parse("React to get a role!\n\n🎮: Gamer\n🎨: Artist", "🎨");
    assert_eq!(out.resolution, Ok("Artist".to_string()));
    assert!(out.malformed.is_empty());
}

#[test]
fn duplicate_symbol_last_line_wins() {
    let out = parse("React!\n\n🎮: Gamer\n🎮: Retro-Gamer", "🎮");
    assert_eq!(out.resolution, Ok("Retro-Gamer".to_string()));
}

#[test]
fn only_last_segment_is_parsed() {
    let out = parse("🎮: Old\n\n🎮: New", "🎮");
    assert_eq!(out.resolution, Ok("New".to_string()));
}

#[test]
fn mapping_in_earlier_segment_is_ignored() {
    let out = parse("🎮: Old\n\nnothing to see here", "🎮");
    assert_eq!(out.resolution, Err(ParseError::NoRoleForEmoji("🎮".to_string())));
}

#[test]
fn line_without_colon_is_skipped_not_fatal() {
    let out = parse("Menu\n\n🎮 Gamer\n🎮: Real", "🎮");
    assert_eq!(out.resolution, Ok("Real".to_string()));
    assert_eq!(out.malformed, vec!["🎮 Gamer".to_string()]);
}

#[test]
fn all_matching_lines_without_colon_give_no_role() {
    let out = parse("Menu\n\n🎮 Gamer", "🎮");
    assert_eq!(out.resolution, Err(ParseError::NoRoleForEmoji("🎮".to_string())));
    assert_eq!(out.malformed, vec!["🎮 Gamer".to_string()]);
}

#[test]
fn symbol_match_is_substring_containment() {
    // a line may hold other symbols too; containment is enough
    let out = parse("Menu\n\n🎮🎨: Both", "🎨");
    assert_eq!(out.resolution, Ok("Both".to_string()));
}

#[test]
fn distinct_symbol_does_not_false_positive() {
    let out = parse("Menu\n\n🎮: Gamer", "🎨");
    assert_eq!(out.resolution, Err(ParseError::NoRoleForEmoji("🎨".to_string())));
}

#[test]
fn role_name_is_trimmed() {
    let out = parse("Menu\n\n🎮:   Spaced Role  ", "🎮");
    assert_eq!(out.resolution, Ok("Spaced Role".to_string()));
}

#[test]
fn split_is_on_first_colon() {
    let out = parse("Menu\n\n🎮: Role: With Colon", "🎮");
    assert_eq!(out.resolution, Ok("Role: With Colon".to_string()));
}

#[test]
fn later_separator_moves_the_block() {
    let out = parse("a\n\nb\n\n🎮: Last", "🎮");
    assert_eq!(out.resolution, Ok("Last".to_string()));
}
