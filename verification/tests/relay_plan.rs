use matrix_ping_bot::relay::{
    classify_room_ref, pending_aliases, relay_deliveries, relay_targets, resolve_relay_map, PlanNeed,
    Relay,
    RelayCluster, RelayConfig, RelayOptions, RelayPlan, RoomRefKind,
};

const R1: &str = "!r1:example.org";
const R2: &str = "!r2:example.org";
const R3: &str = "!r3:example.org";

fn cluster(rooms: &[&str]) -> RelayCluster {
    RelayCluster::of_rooms(rooms.iter().map(|s| s.to_string()).collect())
}

fn config(clusters: Vec<RelayCluster>) -> RelayConfig {
    RelayConfig { clusters, reupload_media: None, caption_media: None }
}

fn peers(plan: &RelayPlan, room: &str) -> Option<Vec<String>> {
    plan.targets(room)
}

fn strings(list: &[&str]) -> Vec<String> {
    list.iter().map(|s| s.to_string()).collect()
}

#[test]
fn one_cluster_links_every_room_to_the_others() {
    let plan = resolve_relay_map(&config(vec![cluster(&[R1, R2, R3])]), &Vec::new());
    assert_eq!(peers(&plan, R1), Some(strings(&[R2, R3])));
    assert_eq!(peers(&plan, R2), Some(strings(&[R1, R3])));
    assert_eq!(peers(&plan, R3), Some(strings(&[R1, R2])));
    for room in [R1, R2, R3] {
        assert!(!peers(&plan, room).unwrap().contains(&room.to_owned()));
    }
    assert_eq!(plan.room_count(), 3);
    assert_eq!(peers(&plan, "!elsewhere:example.org"), None);
}

#[test]
fn adjacency_is_the_union_across_clusters() {
    let plan = resolve_relay_map(&config(vec![cluster(&[R1, R2]), cluster(&[R2, R3])]), &Vec::new());
    assert_eq!(peers(&plan, R2), Some(strings(&[R1, R3])));
    assert_eq!(peers(&plan, R1), Some(strings(&[R2])));
    assert_eq!(peers(&plan, R3), Some(strings(&[R2])));
}

#[test]
fn repeated_rooms_and_clusters_add_no_duplicate_peers() {
    let plan = resolve_relay_map(
        &config(vec![cluster(&[R1, R1, R2]), cluster(&[R2, R1]), cluster(&[R3])]),
        &Vec::new(),
    );
    assert_eq!(peers(&plan, R1), Some(strings(&[R2])));
    assert_eq!(peers(&plan, R2), Some(strings(&[R1])));
    assert_eq!(peers(&plan, R3), Some(strings(&[])));
    assert_eq!(plan.room_count(), 3);
}

#[test]
fn options_resolve_cluster_then_global_then_on() {
    let mut first = cluster(&[R1, R2]);
    first.reupload_media = Some(false);
    let second = cluster(&[R3]);
    let mut cfg = config(vec![first, second]);
    cfg.caption_media = Some(false);
    let plan = resolve_relay_map(&cfg, &Vec::new());
    assert_eq!(
        plan.options_for(R1),
        RelayOptions { reupload_media: false, caption_media: false }
    );
    assert_eq!(
        plan.options_for(R3),
        RelayOptions { reupload_media: true, caption_media: false }
    );
    assert_eq!(
        plan.options_for("!unknown:example.org"),
        RelayOptions { reupload_media: true, caption_media: true }
    );
}

#[test]
fn a_later_cluster_overwrites_the_options_of_a_room() {
    let mut first = cluster(&[R1, R2]);
    first.reupload_media = Some(false);
    first.caption_media = Some(false);
    let mut second = cluster(&[R2, R3]);
    second.caption_media = Some(true);
    let plan = resolve_relay_map(&config(vec![first, second]), &Vec::new());
    assert_eq!(
        plan.options_for(R1),
        RelayOptions { reupload_media: false, caption_media: false }
    );
    assert_eq!(
        plan.options_for(R2),
        RelayOptions { reupload_media: true, caption_media: true }
    );
}

#[test]
fn room_references_are_classified() {
    assert_eq!(classify_room_ref(R1), RoomRefKind::Id);
    assert_eq!(classify_room_ref("!noserver"), RoomRefKind::Id);
    assert_eq!(classify_room_ref("#room:example.org"), RoomRefKind::Alias);
    assert_eq!(classify_room_ref("#room"), RoomRefKind::BadAlias);
    assert_eq!(classify_room_ref("#"), RoomRefKind::BadAlias);
    assert_eq!(classify_room_ref("room:example.org"), RoomRefKind::Invalid);
    assert_eq!(classify_room_ref(""), RoomRefKind::Invalid);
    assert_eq!(classify_room_ref("!nul\0:example.org"), RoomRefKind::Invalid);
    let long = format!("!{}", "a".repeat(254));
    assert_eq!(classify_room_ref(&long), RoomRefKind::Id);
    let too_long = format!("!{}", "a".repeat(255));
    assert_eq!(classify_room_ref(&too_long), RoomRefKind::Invalid);
    let wide = format!("!{}", "\u{e9}".repeat(127));
    assert_eq!(classify_room_ref(&wide), RoomRefKind::Id);
    let too_wide = format!("!{}", "\u{e9}".repeat(128));
    assert_eq!(classify_room_ref(&too_wide), RoomRefKind::Invalid);
    let alias = format!("#{}:example.org", "a".repeat(242));
    assert_eq!(alias.len(), 255);
    assert_eq!(classify_room_ref(&alias), RoomRefKind::Alias);
    let long_alias = format!("#{}:example.org", "a".repeat(243));
    assert_eq!(classify_room_ref(&long_alias), RoomRefKind::BadAlias);
}

#[test]
fn aliases_resolve_through_their_answers_in_order() {
    let cfg = config(vec![
        cluster(&["#a:example.org", R1, "bogus", "#bad"]),
        cluster(&["#b:example.org", "#a:example.org", R2]),
    ]);
    assert_eq!(
        pending_aliases(&cfg),
        strings(&["#a:example.org", "#b:example.org", "#a:example.org"])
    );
    let answers = vec![Some(R3.to_owned()), None, Some(R1.to_owned())];
    let plan = resolve_relay_map(&cfg, &answers);
    assert_eq!(peers(&plan, R3), Some(strings(&[R1])));
    assert_eq!(peers(&plan, R1), Some(strings(&[R3, R2])));
    assert_eq!(peers(&plan, R2), Some(strings(&[R1])));
    assert_eq!(plan.room_count(), 3);
}

#[test]
fn unanswered_aliases_are_dropped_without_failing_the_plan() {
    let cfg = config(vec![cluster(&["#a:example.org", R1, R2, "#b:example.org"])]);
    let plan = resolve_relay_map(&cfg, &Vec::new());
    assert_eq!(peers(&plan, R1), Some(strings(&[R2])));
    assert_eq!(plan.room_count(), 2);
    let short = vec![Some(R3.to_owned())];
    let plan = resolve_relay_map(&cfg, &short);
    assert_eq!(peers(&plan, R3), Some(strings(&[R1, R2])));
    assert_eq!(plan.room_count(), 3);
}

#[test]
fn the_plan_is_built_once() {
    let mut relay = Relay::new();
    assert!(relay.plan().is_none());
    assert_eq!(relay.prepare(None), PlanNeed::NotConfigured);
    assert_eq!(relay.prepare(Some(&RelayConfig::empty())), PlanNeed::NotConfigured);
    let cfg = config(vec![cluster(&[R1, "#a:example.org"])]);
    assert_eq!(relay.prepare(Some(&cfg)), PlanNeed::Resolve(strings(&["#a:example.org"])));
    relay.install(&cfg, &vec![Some(R2.to_owned())]);
    assert_eq!(relay.prepare(Some(&cfg)), PlanNeed::Ready);
    assert_eq!(relay.prepare(None), PlanNeed::Ready);
    assert_eq!(relay.plan().unwrap().targets(R1), Some(strings(&[R2])));
    let other = config(vec![cluster(&[R1, R3])]);
    relay.install(&other, &Vec::new());
    assert_eq!(relay.plan().unwrap().targets(R1), Some(strings(&[R2])));
    assert_eq!(relay.plan().unwrap().targets(R3), None);
}

#[test]
fn relay_targets_are_empty_in_dev_mode_and_without_a_plan() {
    let mut relay = Relay::new();
    assert_eq!(relay_targets(&relay, R1, false), Vec::<String>::new());
    relay.install(&config(vec![cluster(&[R1, R2, R3])]), &Vec::new());
    assert_eq!(relay_targets(&relay, R1, false), strings(&[R2, R3]));
    assert_eq!(relay_targets(&relay, R1, true), Vec::<String>::new());
    assert_eq!(relay_targets(&relay, "!else:example.org", false), Vec::<String>::new());
}

#[test]
fn each_target_is_delivered_under_its_own_options() {
    let mut first = cluster(&[R1, R2]);
    first.reupload_media = Some(true);
    first.caption_media = Some(true);
    let mut second = cluster(&[R2, R3]);
    second.reupload_media = Some(false);
    second.caption_media = Some(false);
    let mut relay = Relay::new();
    assert_eq!(relay_deliveries(&relay, R1, false), Vec::new());
    relay.install(&config(vec![first, second]), &Vec::new());
    let on = RelayOptions { reupload_media: true, caption_media: true };
    let off = RelayOptions { reupload_media: false, caption_media: false };
    assert_eq!(relay.plan().unwrap().options_for(R1), on);
    assert_eq!(relay_deliveries(&relay, R1, false), vec![(R2.to_owned(), off)]);
    assert_eq!(
        relay_deliveries(&relay, R2, false),
        vec![(R1.to_owned(), on), (R3.to_owned(), off)]
    );
    assert_eq!(relay_deliveries(&relay, R2, true), Vec::new());
    assert_eq!(relay_deliveries(&relay, "!else:example.org", false), Vec::new());
}
