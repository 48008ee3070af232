use discord_rich_presence::activity::{Activity, Assets, Button, Party, Timestamps};
use serde_json::Value;

fn json(text: &str) -> Value {
    serde_json::from_str(text).unwrap()
}

#[test]
fn empty_activity_is_the_empty_object() {
    assert_eq!(Activity::new().to_json(), json("{}"));
    assert_eq!(Assets::new().to_json(), json("{}"));
    assert_eq!(Timestamps::new().to_json(), json("{}"));
    assert_eq!(Party::new().to_json(), json("{}"));
}

#[test]
fn fields_that_are_set_become_members() {
    let activity = Activity::new().state("hello").details("world");
    assert_eq!(
        activity.to_json(),
        json(r#"{"state":"hello","details":"world"}"#)
    );
    assert_eq!(activity.state, Some("hello".to_string()));
    assert_eq!(activity.details, Some("world".to_string()));
    assert_eq!(activity.assets, None);
}

#[test]
fn a_later_value_replaces_an_earlier_one() {
    let activity = Activity::new().state("one").state("two");
    assert_eq!(activity.to_json(), json(r#"{"state":"two"}"#));
}

#[test]
fn timestamps_hold_start_and_end() {
    assert_eq!(
        Timestamps::new().start(1).to_json(),
        json(r#"{"start":1}"#)
    );
    assert_eq!(
        Timestamps::new().end(-5).to_json(),
        json(r#"{"end":-5}"#)
    );
    assert_eq!(
        Timestamps::new().start(i64::MIN).end(i64::MAX).to_json(),
        json(r#"{"start":-9223372036854775808,"end":9223372036854775807}"#)
    );
}

#[test]
fn assets_hold_images_and_texts() {
    let assets = Assets::new()
        .large_image("li")
        .large_text("lt")
        .small_image("si")
        .small_text("st");
    assert_eq!(
        assets.to_json(),
        json(r#"{"large_image":"li","large_text":"lt","small_image":"si","small_text":"st"}"#)
    );
    assert_eq!(
        Assets::new().small_text("only").to_json(),
        json(r#"{"small_text":"only"}"#)
    );
}

#[test]
fn party_holds_id_and_size() {
    assert_eq!(
        Party::new().id("party-a").size([2, 5]).to_json(),
        json(r#"{"id":"party-a","size":[2,5]}"#)
    );
    assert_eq!(
        Party::new().size([-1, i32::MAX]).to_json(),
        json(r#"{"size":[-1,2147483647]}"#)
    );
}

#[test]
fn buttons_keep_their_order() {
    let buttons = vec![
        Button::new("first", "https://one.example"),
        Button::new("second", "https://two.example"),
    ];
    assert_eq!(
        Activity::new().buttons(buttons).to_json(),
        json(
            r#"{"buttons":[{"label":"first","url":"https://one.example"},
                           {"label":"second","url":"https://two.example"}]}"#
        )
    );
    assert_eq!(
        Activity::new().buttons(Vec::new()).to_json(),
        json(r#"{"buttons":[]}"#)
    );
}

#[test]
fn a_full_activity_nests_its_parts() {
    let activity = Activity::new()
        .state("s")
        .details("d")
        .timestamps(Timestamps::new().start(10).end(20))
        .party(Party::new().id("p").size([1, 4]))
        .assets(Assets::new().large_image("big"))
        .buttons(vec![Button::new("l", "u")])
        .instance(true);
    assert_eq!(
        activity.to_json(),
        json(
            r#"{"state":"s","details":"d",
                "timestamps":{"start":10,"end":20},
                "party":{"id":"p","size":[1,4]},
                "assets":{"large_image":"big"},
                "buttons":[{"label":"l","url":"u"}],
                "instance":true}"#
        )
    );
    assert_eq!(
        Activity::new().instance(false).to_json(),
        json(r#"{"instance":false}"#)
    );
}

#[test]
fn texts_are_escaped_by_the_serializer() {
    let activity = Activity::new().state("quote \" and \\ and \n");
    let text = activity.to_json().to_string();
    assert_eq!(text, r#"{"state":"quote \" and \\ and \n"}"#);
}
