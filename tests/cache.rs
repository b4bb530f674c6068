use steam_analyzer::cache::{
    plan_after_fetch, profile_update, serve_from_cache, snapshot_for, ProfileTable, ResourceKind, SnapshotStore,
};
use steam_analyzer::models::SteamSnapshot;
use steam_analyzer::retry::FetchError;

const SUMMARY: &str = "{\"response\":{\"players\":[{\"personaname\":\"Gabe\",\"avatarfull\":\"http://a/b.jpg\"}]}}";

fn snap(key: &str, tag: &str, data: &str, at: u64) -> SteamSnapshot {
    SteamSnapshot {
        steam_id: key.to_string(),
        data_type: tag.to_string(),
        json_data: data.to_string(),
        created_at: at,
    }
}

#[test]
fn tags_name_each_kind() {
    assert_eq!(ResourceKind::PlayerSummary.tag(), "player_summary");
    assert_eq!(ResourceKind::OwnedGames.tag(), "owned_games");
    assert_eq!(ResourceKind::Achievements("440".to_string()).tag(), "achievements_440");
}

#[test]
fn upstream_urls_carry_key_and_subject() {
    assert_eq!(
        ResourceKind::PlayerSummary.upstream_url("K", "76"),
        "http://api.steampowered.com/ISteamUser/GetPlayerSummaries/v0002/?key=K&steamids=76"
    );
    assert_eq!(
        ResourceKind::OwnedGames.upstream_url("K", "76"),
        "http://api.steampowered.com/IPlayerService/GetOwnedGames/v0001/?key=K&steamid=76&include_appinfo=1&include_played_free_games=1"
    );
    assert_eq!(
        ResourceKind::Achievements("440".to_string()).upstream_url("K", "76"),
        "http://api.steampowered.com/ISteamUserStats/GetPlayerAchievements/v0001/?appid=440&key=K&steamid=76"
    );
}

#[test]
fn first_profile_fetch_writes_once_then_serves_from_cache() {
    let mut store = SnapshotStore::new();
    let mut profiles = ProfileTable::new();
    let key = "76561197960287930".to_string();
    let kind = ResourceKind::PlayerSummary;
    let mut upstream_calls = 0;

    for round in 0..2u64 {
        match store.lookup(&key, &kind) {
            Some(p) => assert_eq!(p, SUMMARY),
            None => {
                upstream_calls += 1;
                let payload = SUMMARY.to_string();
                if let Some(u) = profile_update(&key, &kind, &payload, 1_000 + round) {
                    profiles.upsert(u);
                }
                store.record(snapshot_for(&key, &kind, payload, 1_000 + round));
            }
        }
    }
    assert_eq!(upstream_calls, 1);
    assert_eq!(store.len(), 1);
    assert_eq!(profiles.len(), 1);
    let u = profiles.get(&key).unwrap();
    assert_eq!(u.username.as_deref(), Some("Gabe"));
    assert_eq!(u.avatar_url.as_deref(), Some("http://a/b.jpg"));
    assert_eq!(u.last_updated, Some(1_000));
}

#[test]
fn payload_reads_back_verbatim() {
    let mut store = SnapshotStore::new();
    let key = "1".to_string();
    let kind = ResourceKind::OwnedGames;
    let payload = "{ \"response\" : { \"games\": [ {\"name\":\"Portal \\u00e9\", \"x\": 1.50} ] } }\n";
    store.record(snapshot_for(&key, &kind, payload.to_string(), 5));
    assert_eq!(store.lookup(&key, &kind).unwrap(), payload);
    assert_eq!(store.latest(&key, &"owned_games".to_string()).unwrap().json_data, payload);
}

#[test]
fn latest_row_wins_and_ties_go_to_the_later_write() {
    let mut store = SnapshotStore::new();
    let key = "7".to_string();
    let tag = "owned_games".to_string();
    store.record(snap("7", "owned_games", "[1]", 10));
    store.record(snap("7", "owned_games", "[3]", 30));
    store.record(snap("7", "owned_games", "[2]", 20));
    store.record(snap("7", "player_summary", "[9]", 90));
    store.record(snap("8", "owned_games", "[8]", 80));
    assert_eq!(store.latest(&key, &tag).unwrap().json_data, "[3]");
    store.record(snap("7", "owned_games", "[4]", 30));
    assert_eq!(store.latest(&key, &tag).unwrap().json_data, "[4]");
    assert!(store.latest(&"9".to_string(), &tag).is_none());
}

#[test]
fn unreadable_cached_row_is_a_miss() {
    let mut store = SnapshotStore::new();
    let key = "7".to_string();
    store.record(snap("7", "achievements_10", "{\"ok\":true}", 1));
    store.record(snap("7", "achievements_10", "{broken", 2));
    assert!(store.lookup(&key, &ResourceKind::Achievements("10".to_string())).is_none());
    assert_eq!(serve_from_cache(Some(&"{}".to_string())), Some("{}".to_string()));
    assert_eq!(serve_from_cache(Some(&"{".to_string())), None);
    assert_eq!(serve_from_cache(None), None);
}

#[test]
fn profile_rows_are_upserted_per_subject() {
    let mut profiles = ProfileTable::new();
    let key = "5".to_string();
    let first = profile_update(&key, &ResourceKind::PlayerSummary, SUMMARY, 1).unwrap();
    profiles.upsert(first);
    let renamed = "{\"response\":{\"players\":[{\"personaname\":\"New\"}]}}";
    let second = profile_update(&key, &ResourceKind::PlayerSummary, renamed, 2).unwrap();
    profiles.upsert(second);
    assert_eq!(profiles.len(), 1);
    let u = profiles.get(&key).unwrap();
    assert_eq!(u.username.as_deref(), Some("New"));
    assert_eq!(u.avatar_url.as_deref(), Some(""));
    assert_eq!(u.last_updated, Some(2));
    assert!(profile_update(&key, &ResourceKind::OwnedGames, SUMMARY, 3).is_none());
}

#[test]
fn fetch_plan_writes_on_success_only() {
    let key = "42".to_string();
    let plan = plan_after_fetch(&key, &ResourceKind::PlayerSummary, Ok(SUMMARY.to_string()), 77);
    assert_eq!(plan.served, Ok(SUMMARY.to_string()));
    let s = plan.snapshot.unwrap();
    assert_eq!(s.steam_id, "42");
    assert_eq!(s.data_type, "player_summary");
    assert_eq!(s.json_data, SUMMARY);
    assert_eq!(s.created_at, 77);
    let u = plan.profile.unwrap();
    assert_eq!(u.username.as_deref(), Some("Gabe"));

    let plan = plan_after_fetch(&key, &ResourceKind::OwnedGames, Ok("{}".to_string()), 5);
    assert!(plan.snapshot.is_some());
    assert!(plan.profile.is_none());

    let plan = plan_after_fetch(&key, &ResourceKind::OwnedGames, Err(FetchError::Throttled), 5);
    assert!(plan.snapshot.is_none());
    assert!(plan.profile.is_none());
    assert_eq!(plan.served, Err(FetchError::Throttled));
}
