use mrrper::mention::{
    clone_targets, matches_target, parse_group_ref, resolve, rewrite_content, rewrite_line,
    rewrite_spans, to_lower_letter, GroupRef, MentionTarget,
};

fn target(name: &str, token: &str) -> MentionTarget {
    MentionTarget { display_name: name.to_string(), token: token.to_string() }
}

fn classes() -> Vec<MentionTarget> {
    vec![target("3b", "mention_3b"), target("2a", "mention_2a")]
}

#[test]
fn rewrites_both_references_at_their_places() {
    let mut mentions = String::new();
    let out = rewrite_line("3bC-zmiana, 2aB- też", &classes(), &mut mentions);
    assert_eq!(out, "mention_3bzmiana, mention_2a też");
    assert_eq!(mentions, "mention_3bmention_2a");
}

#[test]
fn rewriting_twice_gives_the_same() {
    let mut first_mentions = String::new();
    let mut second_mentions = String::new();
    let first = rewrite_line("1a- wf, 4cd -religia", &classes(), &mut first_mentions);
    let second = rewrite_line("1a- wf, 4cd -religia", &classes(), &mut second_mentions);
    assert_eq!(first, second);
    assert_eq!(first_mentions, second_mentions);
}

#[test]
fn line_without_reference_is_unchanged() {
    let mut mentions = String::from("x");
    let out = rewrite_line("Jutro nie ma lekcji - dzień wolny 5a-", &classes(), &mut mentions);
    assert_eq!(out, "Jutro nie ma lekcji - dzień wolny 5a-");
    assert_eq!(mentions, "x");
}

#[test]
fn empty_line_is_unchanged() {
    let mut mentions = String::new();
    assert_eq!(rewrite_line("", &classes(), &mut mentions), "");
    assert_eq!(mentions, "");
}

#[test]
fn reference_without_target_stays() {
    let mut mentions = String::new();
    let out = rewrite_line("1zx- odwołane, 3b- zastępstwo", &classes(), &mut mentions);
    assert_eq!(out, "1zx- odwołane, mention_3b zastępstwo");
    assert_eq!(mentions, "mention_3b");
}

#[test]
fn shorter_and_longer_tokens_keep_later_places() {
    let targets = vec![target("1a", "A"), target("2b", "<@&930512190220435516>")];
    let mut mentions = String::new();
    let out = rewrite_line("ł 2b- x 1a -y 2b-z 4q-", &targets, &mut mentions);
    assert_eq!(out, "ł <@&930512190220435516> x Ay <@&930512190220435516>z 4q-");
    assert_eq!(mentions, "<@&930512190220435516>A<@&930512190220435516>");
}

#[test]
fn adjacent_references_are_both_replaced() {
    let mut mentions = String::new();
    let out = rewrite_line("3b-2a-", &classes(), &mut mentions);
    assert_eq!(out, "mention_3bmention_2a");
    assert_eq!(mentions, "mention_3bmention_2a");
}

#[test]
fn every_answering_target_is_mentioned_in_list_order() {
    let targets = vec![target("3c", "<C>"), target("3b", "<B>"), target("2b", "<X>")];
    let mut mentions = String::new();
    let out = rewrite_line("3bc- basen", &targets, &mut mentions);
    assert_eq!(out, "<C><B> basen");
    assert_eq!(mentions, "<C><B>");
}

#[test]
fn case_of_name_and_letters_does_not_matter() {
    let targets = vec![target("3B", "<B>")];
    let mut mentions = String::new();
    assert_eq!(rewrite_line("3b- tak", &targets, &mut mentions), "<B> tak");
    assert_eq!(rewrite_line("3B- nie", &targets, &mut mentions), "<B> nie");
    assert_eq!(mentions, "<B><B>");

    let lower = vec![target("3b", "M")];
    let mut mentions = String::new();
    assert_eq!(rewrite_line("3B-x", &lower, &mut mentions), "Mx");
    assert_eq!(rewrite_line("3aB -x", &lower, &mut mentions), "Mx");
    assert_eq!(rewrite_line("3AC-x", &lower, &mut mentions), "3AC-x");
    assert_eq!(mentions, "MM");
}

#[test]
fn letters_are_lowered_one_by_one() {
    assert_eq!(to_lower_letter(b'A'), b'a');
    assert_eq!(to_lower_letter(b'Z'), b'z');
    assert_eq!(to_lower_letter(b'a'), b'a');
    assert_eq!(to_lower_letter(b'z'), b'z');
    assert_eq!(to_lower_letter(b'@'), b'@');
    assert_eq!(to_lower_letter(b'['), b'[');
    assert_eq!(to_lower_letter(b'3'), b'3');
    assert_eq!(to_lower_letter(0xff), 0xff);
}

#[test]
fn longer_display_names_never_answer() {
    let targets = vec![target("3bc", "<BC>"), target("3", "<3>"), target("klasa 3b", "<K>")];
    let mut mentions = String::new();
    assert_eq!(rewrite_line("3bc- i 3b-", &targets, &mut mentions), "3bc- i 3b-");
    assert_eq!(mentions, "");
}

#[test]
fn target_matching_by_digit_and_letter() {
    let r = GroupRef { digit: b'3', first: b'b', second: Some(b'C') };
    assert!(matches_target(&target("3b", "t"), &r));
    assert!(matches_target(&target("b3", "t"), &r));
    assert!(matches_target(&target("3B", "t"), &r));
    assert!(matches_target(&target("3c", "t"), &r));
    assert!(matches_target(&target("3C", "t"), &r));
    assert!(matches_target(&target("C3", "t"), &r));
    assert!(!matches_target(&target("3d", "t"), &r));
    assert!(!matches_target(&target("2b", "t"), &r));
    assert!(!matches_target(&target("33", "t"), &r));
    assert!(!matches_target(&target("3bb", "t"), &r));
    let single = GroupRef { digit: b'1', first: b'a', second: None };
    assert!(matches_target(&target("1a", "t"), &single));
    assert!(!matches_target(&target("1b", "t"), &single));
    let upper = GroupRef { digit: b'3', first: b'B', second: None };
    assert!(matches_target(&target("3b", "t"), &upper));
    assert!(matches_target(&target("3B", "t"), &upper));
    assert!(!matches_target(&target("3a", "t"), &upper));
}

#[test]
fn resolve_collects_tokens_or_nothing() {
    let r = GroupRef { digit: b'2', first: b'a', second: None };
    assert_eq!(resolve(&classes(), &r), Some("mention_2a".to_string()));
    let none = GroupRef { digit: b'4', first: b'a', second: None };
    assert_eq!(resolve(&classes(), &none), None);
    assert_eq!(resolve(&Vec::new(), &r), None);
}

#[test]
fn group_references_are_read_exactly() {
    assert_eq!(
        parse_group_ref(b"3bC-"),
        Some(GroupRef { digit: b'3', first: b'b', second: Some(b'C') })
    );
    assert_eq!(parse_group_ref(b"2a -"), Some(GroupRef { digit: b'2', first: b'a', second: None }));
    assert_eq!(parse_group_ref(b"1z-"), Some(GroupRef { digit: b'1', first: b'z', second: None }));
    assert_eq!(
        parse_group_ref(b"4Ab -"),
        Some(GroupRef { digit: b'4', first: b'A', second: Some(b'b') })
    );
    assert_eq!(parse_group_ref(b"5a-"), None);
    assert_eq!(parse_group_ref(b"0a-"), None);
    assert_eq!(parse_group_ref(b"3-"), None);
    assert_eq!(parse_group_ref(b"3a"), None);
    assert_eq!(parse_group_ref(b"3abc-"), None);
    assert_eq!(parse_group_ref(b"3a  -"), None);
    assert_eq!(parse_group_ref(b"3a-x"), None);
    assert_eq!(parse_group_ref(b"31-"), None);
    assert_eq!(parse_group_ref(b""), None);
}

#[test]
fn spans_are_replaced_where_they_stand() {
    let mut mentions = String::from(">");
    let spans = vec![(1usize, 4usize), (6usize, 10usize)];
    let out = rewrite_spans("_3b-__2a -_", &spans, &classes(), &mut mentions);
    assert_eq!(out, "_mention_3b__mention_2a_");
    assert_eq!(mentions, ">mention_3bmention_2a");
}

#[test]
fn spans_that_are_no_reference_stay() {
    let mut mentions = String::new();
    let spans = vec![(0usize, 2usize), (2usize, 2usize)];
    let out = rewrite_spans("ab3b-", &spans, &classes(), &mut mentions);
    assert_eq!(out, "ab3b-");
    assert_eq!(mentions, "");
}

#[test]
fn content_is_rewritten_line_by_line() {
    let mut mentions = String::from(":bangbang:");
    let out = rewrite_content("3b- matematyka\r\nbez zmian\n\n2a -wf\n", &classes(), &mut mentions);
    assert_eq!(out, "mention_3b matematyka\r\nbez zmian\n\nmention_2awf\n");
    assert_eq!(mentions, ":bangbang:mention_3bmention_2a");
}

#[test]
fn content_without_targets_is_unchanged() {
    let mut mentions = String::new();
    let text = "3b- matematyka\n2a- wf\nżółć";
    assert_eq!(rewrite_content(text, &Vec::new(), &mut mentions), text);
    assert_eq!(mentions, "");
    assert_eq!(rewrite_content("", &classes(), &mut mentions), "");
}

#[test]
fn targets_are_copied_as_they_are() {
    assert_eq!(clone_targets(&classes()), classes());
}
