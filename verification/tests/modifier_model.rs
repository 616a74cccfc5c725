use tabletop_session::modifier::{ModifierMap, Polarity};
use tabletop_session::tag::Tag;
use tabletop_session::theme::Theme;
use tabletop_session::might::Might;
use tabletop_session::session::{apply_mods_to_roll, total_contribution};

fn empty_map() -> ModifierMap {
    ModifierMap::default()
}

#[test]
fn empty_map_leaves_every_dice_sum_alone() {
    for d1 in 1i8..=6 {
        for d2 in 1i8..=6 {
            let mods = empty_map();
            assert_eq!(apply_mods_to_roll(d1 + d2, &mods), d1 + d2);
        }
    }
}

#[test]
fn one_positive_modifier_adds_its_value() {
    for d1 in 1i8..=6 {
        for d2 in 1i8..=6 {
            let mut mods = empty_map();
            mods.add_positive_tag(Tag::new_power("Strong"));
            assert_eq!(apply_mods_to_roll(d1 + d2, &mods), d1 + d2 + 1);

            let mut mods = empty_map();
            mods.add_positive_tag(Tag::new_status("Blessed", 4));
            assert_eq!(apply_mods_to_roll(d1 + d2, &mods), d1 + d2 + 4);
        }
    }
}

#[test]
fn one_burned_positive_modifier_adds_triple_its_value() {
    for d1 in 1i8..=6 {
        for d2 in 1i8..=6 {
            let mut mods = empty_map();
            mods.add_burned_tag(Tag::new_power("Agile"));
            assert_eq!(apply_mods_to_roll(d1 + d2, &mods), d1 + d2 + 3);

            let mut mods = empty_map();
            mods.add_burned_tag(Tag::new_status("Blessed", 2));
            assert_eq!(apply_mods_to_roll(d1 + d2, &mods), d1 + d2 + 6);
        }
    }
}

#[test]
fn one_negative_modifier_subtracts_its_value() {
    for d1 in 1i8..=6 {
        for d2 in 1i8..=6 {
            let mut mods = empty_map();
            mods.add_negative_tag(Tag::new_weakness("Clumsy"));
            assert_eq!(apply_mods_to_roll(d1 + d2, &mods), d1 + d2 - 1);

            let mut mods = empty_map();
            mods.add_negative_tag(Tag::new_status("Poisoned", 4));
            assert_eq!(apply_mods_to_roll(d1 + d2, &mods), d1 + d2 - 4);
        }
    }
}

#[test]
fn burned_negative_modifier_still_subtracts_single_value() {
    let mut mods = empty_map();
    mods.add_tag(Tag::new_power("Cursed"), Polarity::Negative, true);
    assert_eq!(apply_mods_to_roll(7, &mods), 6);
}

#[test]
fn mixed_modifiers_sum_their_signed_contributions() {
    let mut mods = empty_map();
    mods.add_positive_tag(Tag::new_power("Strong"));
    mods.add_burned_tag(Tag::new_power("Agile"));
    mods.add_negative_tag(Tag::new_weakness("Clumsy"));
    mods.add_negative_tag(Tag::new_status("Poisoned", 4));
    // +1 + 3 - 1 - 4 = -1
    assert_eq!(total_contribution(&mods), -1);
    assert_eq!(apply_mods_to_roll(7, &mods), 6);
    assert_eq!(apply_mods_to_roll(2, &mods), 1);
}

#[test]
fn totals_below_zero_are_not_clamped() {
    let mut mods = empty_map();
    mods.add_negative_tag(Tag::new_status("Doomed", 6));
    mods.add_negative_tag(Tag::new_status("Broken", 6));
    assert_eq!(apply_mods_to_roll(2, &mods), -10);
}

#[test]
fn add_then_remove_yields_an_empty_map() {
    let mut mods = empty_map();
    mods.add_positive_tag(Tag::new_power("Strong"));
    assert_eq!(mods.get_modifiers().len(), 1);
    mods.remove_modifier("Strong");
    assert_eq!(mods.get_modifiers().len(), 0);
    assert_eq!(total_contribution(&mods), 0);
}

#[test]
fn removing_an_absent_name_is_a_no_op() {
    let mut mods = empty_map();
    mods.add_positive_tag(Tag::new_power("Strong"));
    mods.remove_modifier("Swift");
    assert_eq!(mods.get_modifiers().len(), 1);
}

#[test]
fn last_insert_for_a_name_wins() {
    let mut mods = empty_map();
    mods.add_positive_tag(Tag::new_power("Strong"));
    mods.add_negative_tag(Tag::new_power("Strong"));
    let entries = mods.get_modifiers();
    assert_eq!(entries.len(), 1);
    assert!(matches!(entries[0].1, Polarity::Negative));
}

#[test]
fn theme_contributes_the_fixed_placeholder_value() {
    let theme = Theme {
        name: "Street Urchin".to_string(),
        power_tags: vec![Tag::new_power("Nimble")],
        weakness_tags: vec![Tag::new_weakness("Hungry")],
        might: Might::Origin,
        quest: "Find a home".to_string(),
        improve: 0,
        abandon: 0,
        milestone: 0,
        special_improvements: vec![],
    };
    assert_eq!(theme.get_value(), 1);
    let mut mods = empty_map();
    mods.add_positive_theme(theme.clone());
    assert_eq!(apply_mods_to_roll(7, &mods), 8);
    let mut mods = empty_map();
    mods.add_burned_theme(theme.clone());
    assert_eq!(apply_mods_to_roll(7, &mods), 10);
    let mut mods = empty_map();
    mods.add_negative_theme(theme);
    assert_eq!(apply_mods_to_roll(7, &mods), 6);
}

#[test]
fn status_value_is_the_highest_tier() {
    let mut status = Tag::new_status("Poisoned", 2);
    assert_eq!(status.get_value(), 2);
    status.add_tier(5);
    assert_eq!(status.get_value(), 5);
    status.add_tier(3);
    assert_eq!(status.get_value(), 5);
}

#[test]
fn status_value_is_zero_with_no_tiers() {
    let mut status = Tag::new_status("Stunned", 1);
    status.decrease_tier();
    assert_eq!(status.get_value(), 0);
}

#[test]
fn add_tier_steps_past_collisions() {
    let mut status = Tag::new_status("Burning", 2);
    status.add_tier(2);
    // 2 was taken, so the new tier settles on 3
    assert_eq!(status.get_value(), 3);
    status.add_tier(2);
    // 2 and 3 taken: the next free value is 4
    assert_eq!(status.get_value(), 4);
}

#[test]
fn add_tier_on_a_full_set_is_dropped() {
    let mut status = Tag::new_status("Overwhelmed", 1);
    for t in 2u8..=6 {
        status.add_tier(t);
    }
    assert_eq!(status.get_value(), 6);
    status.add_tier(1);
    assert_eq!(status.get_value(), 6);
    match &status {
        Tag::Status { tiers, .. } => assert_eq!(tiers.len(), 6),
        _ => panic!("expected a status tag"),
    }
}

#[test]
fn decrease_tier_shifts_every_tier_down() {
    let mut status = Tag::new_status("Bleeding", 2);
    status.add_tier(5);
    status.decrease_tier();
    // {2,5} became {1,4}
    assert_eq!(status.get_value(), 4);
    status.decrease_tier();
    // {1,4} became {3}: the tier that reached 0 is removed
    assert_eq!(status.get_value(), 3);
    match &status {
        Tag::Status { tiers, .. } => assert_eq!(tiers.len(), 1),
        _ => panic!("expected a status tag"),
    }
}

#[test]
fn scratching_a_power_tag_then_unscratching_restores_its_value() {
    let mut tag = Tag::new_power("Strong");
    assert_eq!(tag.get_value(), 1);
    tag.scratch();
    assert_eq!(tag.get_value(), 0);
    tag.unscratch();
    assert_eq!(tag.get_value(), 1);
}

#[test]
fn scratching_affects_only_power_and_story_tags() {
    let mut story = Tag::new_story("Haunted");
    story.scratch();
    assert_eq!(story.get_value(), 0);
    story.unscratch();
    assert_eq!(story.get_value(), 1);

    let mut weakness = Tag::new_weakness("Clumsy");
    weakness.scratch();
    assert_eq!(weakness.get_value(), 1);

    let mut status = Tag::new_status("Poisoned", 4);
    status.scratch();
    assert_eq!(status.get_value(), 4);
}

#[test]
fn add_tier_affects_only_status_tags() {
    let mut power = Tag::new_power("Strong");
    power.add_tier(3);
    assert_eq!(power.get_value(), 1);
    power.decrease_tier();
    assert_eq!(power.get_value(), 1);
}
