use tabletop_session::modifier::ModifierMap;
use tabletop_session::tag::Tag;

#[test]
fn positive_power_tag_is_bracketed_with_plus_signs() {
    let mut mods = ModifierMap::default();
    mods.add_positive_tag(Tag::new_power("Strong"));
    assert_eq!(mods.summary(), "+[Strong]+");
}

#[test]
fn burned_power_tag_triples_the_sign_markers() {
    let mut mods = ModifierMap::default();
    mods.add_burned_tag(Tag::new_power("Agile"));
    assert_eq!(mods.summary(), "+++[Agile]+++");
}

#[test]
fn burned_story_tag_triples_the_sign_markers() {
    let mut mods = ModifierMap::default();
    mods.add_burned_tag(Tag::new_story("Haunted"));
    assert_eq!(mods.summary(), "+++[Haunted]+++");
}

#[test]
fn negative_weakness_tag_uses_minus_signs() {
    let mut mods = ModifierMap::default();
    mods.add_negative_tag(Tag::new_weakness("Clumsy"));
    assert_eq!(mods.summary(), "-[Clumsy]-");
}

#[test]
fn status_tag_lists_its_tiers_ascending() {
    let mut status = Tag::new_status("Poisoned", 4);
    status.add_tier(2);
    let mut mods = ModifierMap::default();
    mods.add_negative_tag(status);
    assert_eq!(mods.summary(), "-{Poisoned:2,4}-");
}

#[test]
fn burned_flag_does_not_change_a_status_entry() {
    let mut mods = ModifierMap::default();
    mods.add_burned_tag(Tag::new_status("Blessed", 3));
    assert_eq!(mods.summary(), "+{Blessed:3}+");
}

#[test]
fn empty_map_renders_as_the_empty_string() {
    let mods = ModifierMap::default();
    assert_eq!(mods.summary(), "");
}

#[test]
fn entries_are_joined_by_single_spaces() {
    let mut mods = ModifierMap::default();
    mods.add_positive_tag(Tag::new_power("Strong"));
    mods.add_negative_tag(Tag::new_weakness("Clumsy"));
    let s = mods.summary();
    assert!(s.contains("+[Strong]+"));
    assert!(s.contains("-[Clumsy]-"));
    assert_eq!(s.matches(' ').count(), 1);
}
