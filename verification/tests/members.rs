use conlang_bot::archive::{choose_archive, ArchiveChoice, ARCHIVE_CAPACITY};
use conlang_bot::members::{get_channels_in_category, sort_category, ChannelInfo};
use conlang_bot::profile::{Category, Profile, ProfileRoles};

fn channel(id: u64, name: &str, parent_id: Option<u64>) -> ChannelInfo {
    ChannelInfo { id, name: name.to_string(), parent_id }
}

fn profile() -> Profile {
    Profile {
        name: "test".to_string(),
        guild: 77,
        archives: vec![900, 901, 902],
        private_archives: vec![950],
        per_row: 3,
        roles: ProfileRoles { everyone: 1, member: 2, conlanger: 3 },
        categories: vec![
            Category { id: 100, name: "A Priori".to_string() },
            Category { id: 200, name: "Natlangs".to_string() },
            Category { id: 300, name: "natlangs".to_string() },
        ],
    }
}

#[test]
fn sorts_by_name_ascending() {
    let members =
        vec![channel(1, "zulu", Some(5)), channel(2, "alpha", Some(5)), channel(3, "mike", Some(5))];
    assert_eq!(sort_category(&members), vec![(2, 0), (3, 1), (1, 2)]);
}

#[test]
fn sorting_is_case_sensitive_and_bytewise() {
    let members = vec![
        channel(1, "b", None),
        channel(2, "a", None),
        channel(3, "B", None),
        channel(4, "ab", None),
        channel(5, "", None),
        channel(6, "école", None),
    ];
    assert_eq!(sort_category(&members), vec![(5, 0), (3, 1), (2, 2), (4, 3), (1, 4), (6, 5)]);
}

#[test]
fn sorting_twice_gives_the_same_order() {
    let members =
        vec![channel(1, "zulu", Some(5)), channel(2, "alpha", Some(5)), channel(3, "mike", Some(5))];
    let first = sort_category(&members);
    let mut listed: Vec<ChannelInfo> = Vec::new();
    for (id, _) in &first {
        let found = members.iter().find(|c| c.id == *id).unwrap();
        listed.push(channel(found.id, &found.name, found.parent_id));
    }
    assert_eq!(sort_category(&listed), first);
    let shuffled =
        vec![channel(3, "mike", Some(5)), channel(1, "zulu", Some(5)), channel(2, "alpha", Some(5))];
    assert_eq!(sort_category(&shuffled), first);
}

#[test]
fn equal_names_keep_their_listing_order() {
    let members = vec![channel(1, "same", None), channel(2, "a", None), channel(3, "same", None)];
    assert_eq!(sort_category(&members), vec![(2, 0), (1, 1), (3, 2)]);
}

#[test]
fn sorting_nothing_gives_nothing() {
    assert_eq!(sort_category(&vec![]), vec![]);
    assert_eq!(sort_category(&vec![channel(4, "x", None)]), vec![(4, 0)]);
}

#[test]
fn children_are_filtered_by_parent() {
    let all = vec![
        channel(1, "a", Some(5)),
        channel(2, "b", Some(6)),
        channel(3, "c", None),
        channel(4, "d", Some(5)),
    ];
    let children = get_channels_in_category(5, &all);
    let ids: Vec<u64> = children.iter().map(|c| c.id).collect();
    assert_eq!(ids, vec![1, 4]);
    assert_eq!(children[0].name, "a");
    assert_eq!(children[1].name, "d");
    assert_eq!(children[1].parent_id, Some(5));
    assert!(get_channels_in_category(7, &all).is_empty());
}

#[test]
fn first_archive_with_room_is_chosen() {
    let archives = vec![900, 901, 902];
    assert_eq!(ARCHIVE_CAPACITY, 50);
    assert_eq!(
        choose_archive(&archives, &vec![Some(50), Some(50), Some(3)]),
        ArchiveChoice::Chosen(902)
    );
    assert_eq!(
        choose_archive(&archives, &vec![Some(50), Some(50), Some(50)]),
        ArchiveChoice::NoCapacity
    );
    assert_eq!(
        choose_archive(&archives, &vec![Some(49), Some(0), Some(3)]),
        ArchiveChoice::Chosen(900)
    );
    assert_eq!(choose_archive(&archives, &vec![Some(0)]), ArchiveChoice::Chosen(900));
}

#[test]
fn archives_are_probed_in_declared_order() {
    let archives = vec![900, 901, 902];
    assert_eq!(choose_archive(&archives, &vec![]), ArchiveChoice::Probe(900));
    assert_eq!(choose_archive(&archives, &vec![Some(50)]), ArchiveChoice::Probe(901));
    assert_eq!(choose_archive(&archives, &vec![Some(50), None]), ArchiveChoice::Probe(902));
    assert_eq!(choose_archive(&archives, &vec![Some(51), None, None]), ArchiveChoice::NoCapacity);
    assert_eq!(choose_archive(&vec![], &vec![]), ArchiveChoice::NoCapacity);
    assert_eq!(choose_archive(&vec![], &vec![Some(1)]), ArchiveChoice::NoCapacity);
}

#[test]
fn archive_membership_covers_both_lists() {
    let profile = profile();
    assert!(profile.is_archive(900));
    assert!(profile.is_archive(902));
    assert!(profile.is_archive(950));
    assert!(!profile.is_archive(100));
    assert!(!profile.is_archive(0));
}

#[test]
fn categories_are_selected_by_lower_case_name() {
    let profile = profile();
    assert_eq!(profile.find_category("a priori"), Some(0));
    assert_eq!(profile.find_category("natlangs"), Some(1));
    assert_eq!(profile.find_category("Natlangs"), None);
    assert_eq!(profile.find_category("A Priori"), None);
    assert_eq!(profile.find_category("other"), None);
    assert_eq!(profile.category_id(1), Some(200));
    assert_eq!(profile.category_id(2), Some(300));
    assert_eq!(profile.category_id(3), None);
}

#[test]
fn profile_getters() {
    let profile = profile();
    assert_eq!(profile.guild(), 77);
    assert_eq!(profile.roles.everyone(), 1);
    assert_eq!(profile.roles.member(), 2);
    assert_eq!(profile.roles.conlanger(), 3);
}

#[test]
fn sorting_agrees_with_a_stable_sort_by_name() {
    let names = ["b", "a", "", "B", "ab", "a", "é", "z", "aa", "b", "~", "A", "0"];
    let members: Vec<ChannelInfo> = names
        .iter()
        .enumerate()
        .map(|(i, name)| channel(100 + i as u64, name, Some(5)))
        .collect();
    let mut expected: Vec<(u64, String)> =
        members.iter().map(|c| (c.id, c.name.clone())).collect();
    expected.sort_by(|a, b| a.1.cmp(&b.1));
    let expected: Vec<(u64, u64)> =
        expected.into_iter().enumerate().map(|(i, (id, _))| (id, i as u64)).collect();
    assert_eq!(sort_category(&members), expected);
}
