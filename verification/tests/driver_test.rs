use discord_rich_presence::activity::{Activity, Assets, Timestamps};
use discord_rich_presence::config::{RPCConfig, RPCProfile};
use discord_rich_presence::driver::{get_activity, STARTED_BEFORE};

#[test]
fn started_before_is_six_seconds_short_of_a_day() {
    assert_eq!(STARTED_BEFORE, 23 * 3600 + 59 * 60 + 54);
    assert_eq!(STARTED_BEFORE, 86394);
}

#[test]
fn get_activity_of_the_demo_profile() {
    let config = RPCConfig::default();
    let activity = get_activity(&config.profiles[0].1, 1_700_000_000);
    let expected = Activity::new()
        .timestamps(Timestamps::new().start(1_700_000_000 - 86394))
        .assets(
            Assets::new()
                .large_image("large_image")
                .small_image("small_image")
                .large_text("large_text")
                .small_text("small_text"),
        )
        .details("details")
        .state("state");
    assert_eq!(activity, expected);
    assert_eq!(
        activity.timestamps,
        Some(Timestamps {
            start: Some(1_699_913_606),
            end: None
        })
    );
}

#[test]
fn get_activity_leaves_out_what_the_profile_lacks() {
    let bare = RPCProfile {
        client_id: "1".to_string(),
        ..RPCProfile::default()
    };
    let activity = get_activity(&bare, 0);
    assert_eq!(
        activity.to_json(),
        serde_json::from_str::<serde_json::Value>(r#"{"timestamps":{"start":-86394},"assets":{}}"#)
            .unwrap()
    );
    let partly = RPCProfile {
        client_id: "1".to_string(),
        small_text: Some("st".to_string()),
        state: Some("s".to_string()),
        ..RPCProfile::default()
    };
    let activity = get_activity(&partly, 86394);
    assert_eq!(
        activity.to_json(),
        serde_json::from_str::<serde_json::Value>(
            r#"{"state":"s","timestamps":{"start":0},"assets":{"small_text":"st"}}"#
        )
        .unwrap()
    );
}

#[test]
fn get_activity_at_the_earliest_time() {
    let bare = RPCProfile::default();
    let activity = get_activity(&bare, i64::MIN + 86394);
    assert_eq!(
        activity.timestamps,
        Some(Timestamps {
            start: Some(i64::MIN),
            end: None
        })
    );
}
