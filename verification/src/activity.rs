//! The activity payload: a record of optional display fields, and the JSON
//! document that is sent for it. A field that is not set has no member in
//! the document.

use vstd::prelude::*;
use crate::json::{
    array_value, bool_value, integer_value, json_members, json_model, json_models, no_members,
    object_insert, object_new, object_value, text_value, JsonObject, JsonValue, Members,
};

verus! {

/// The start and the end of an activity, in seconds since the Unix epoch.
#[derive(Debug, Clone, PartialEq, Eq)]
pub struct Timestamps {
    pub start: Option<i64>,
    pub end: Option<i64>,
}

/// The images of an activity and the texts shown with them.
#[derive(Debug, Clone, PartialEq, Eq)]
pub struct Assets {
    pub large_image: Option<String>,
    pub large_text: Option<String>,
    pub small_image: Option<String>,
    pub small_text: Option<String>,
}

/// The party of an activity: its id, and its current and maximum size.
#[derive(Debug, Clone, PartialEq, Eq)]
pub struct Party {
    pub id: Option<String>,
    pub size: Option<[i32; 2]>,
}

/// A button shown with an activity.
#[derive(Debug, Clone, PartialEq, Eq)]
pub struct Button {
    pub label: String,
    pub url: String,
}

/// What is shown of the user: every field is optional.
#[derive(Debug, Clone, PartialEq, Eq)]
pub struct Activity {
    pub state: Option<String>,
    pub details: Option<String>,
    pub timestamps: Option<Timestamps>,
    pub party: Option<Party>,
    pub assets: Option<Assets>,
    pub buttons: Option<Vec<Button>>,
    pub instance: Option<bool>,
}

/// `members` with the text of `field` under `key`, where the field is set.
pub open spec fn with_text(members: Members, key: Seq<char>, field: Option<String>) -> Members {
    match field {
        Some(text) => members.insert(key, JsonValue::Text(text@)),
        None => members,
    }
}

/// `members` with the number of `field` under `key`, where the field is set.
pub open spec fn with_integer(members: Members, key: Seq<char>, field: Option<i64>) -> Members {
    match field {
        Some(n) => members.insert(key, JsonValue::Integer(n as int)),
        None => members,
    }
}

/// `members` with `document` under `key`, where there is one.
pub open spec fn with_document(
    members: Members,
    key: Seq<char>,
    document: Option<JsonValue>,
) -> Members {
    match document {
        Some(inner) => members.insert(key, inner),
        None => members,
    }
}

/// Adds the text of `field` under `key`, where the field is set.
fn put_text(object: JsonObject, key: &str, field: &Option<String>) -> (grown: JsonObject)
    ensures
        json_members(grown) == with_text(json_members(object), key@, *field),
{
    match field {
        Some(text) => object_insert(object, key, text_value(text.as_str())),
        None => object,
    }
}

/// Adds the number of `field` under `key`, where the field is set.
fn put_integer(object: JsonObject, key: &str, field: Option<i64>) -> (grown: JsonObject)
    ensures
        json_members(grown) == with_integer(json_members(object), key@, field),
{
    match field {
        Some(n) => object_insert(object, key, integer_value(n)),
        None => object,
    }
}

impl Timestamps {
    /// Timestamps with neither start nor end.
    pub fn new() -> (timestamps: Timestamps)
        ensures
            timestamps == (Timestamps { start: None, end: None }),
    {
        Timestamps { start: None, end: None }
    }

    /// Sets the start.
    pub fn start(self, start: i64) -> (timestamps: Timestamps)
        ensures
            timestamps == (Timestamps { start: Some(start), end: self.end }),
    {
        Timestamps { start: Some(start), end: self.end }
    }

    /// Sets the end.
    pub fn end(self, end: i64) -> (timestamps: Timestamps)
        ensures
            timestamps == (Timestamps { start: self.start, end: Some(end) }),
    {
        Timestamps { start: self.start, end: Some(end) }
    }

    /// The document sent for these timestamps.
    pub open spec fn document(self) -> JsonValue {
        JsonValue::Object(
            with_integer(with_integer(no_members(), "start"@, self.start), "end"@, self.end),
        )
    }

    /// Builds the document.
    pub fn to_json(&self) -> (value: serde_json::Value)
        ensures
            json_model(value) == self.document(),
    {
        let object = object_new();
        let object = put_integer(object, "start", self.start);
        let object = put_integer(object, "end", self.end);
        object_value(object)
    }
}

impl Assets {
    /// Assets with no image and no text.
    pub fn new() -> (assets: Assets)
        ensures
            assets.large_image is None,
            assets.large_text is None,
            assets.small_image is None,
            assets.small_text is None,
    {
        Assets { large_image: None, large_text: None, small_image: None, small_text: None }
    }

    /// Sets the key or URL of the large image.
    pub fn large_image(self, large_image: &str) -> (assets: Assets)
        ensures
            assets.large_image matches Some(text) && text@ == large_image@,
            assets.large_text == self.large_text,
            assets.small_image == self.small_image,
            assets.small_text == self.small_text,
    {
        Assets {
            large_image: Some(large_image.to_owned()),
            large_text: self.large_text,
            small_image: self.small_image,
            small_text: self.small_text,
        }
    }

    /// Sets the text shown with the large image.
    pub fn large_text(self, large_text: &str) -> (assets: Assets)
        ensures
            assets.large_image == self.large_image,
            assets.large_text matches Some(text) && text@ == large_text@,
            assets.small_image == self.small_image,
            assets.small_text == self.small_text,
    {
        Assets {
            large_image: self.large_image,
            large_text: Some(large_text.to_owned()),
            small_image: self.small_image,
            small_text: self.small_text,
        }
    }

    /// Sets the key or URL of the small image.
    pub fn small_image(self, small_image: &str) -> (assets: Assets)
        ensures
            assets.large_image == self.large_image,
            assets.large_text == self.large_text,
            assets.small_image matches Some(text) && text@ == small_image@,
            assets.small_text == self.small_text,
    {
        Assets {
            large_image: self.large_image,
            large_text: self.large_text,
            small_image: Some(small_image.to_owned()),
            small_text: self.small_text,
        }
    }

    /// Sets the text shown with the small image.
    pub fn small_text(self, small_text: &str) -> (assets: Assets)
        ensures
            assets.large_image == self.large_image,
            assets.large_text == self.large_text,
            assets.small_image == self.small_image,
            assets.small_text matches Some(text) && text@ == small_text@,
    {
        Assets {
            large_image: self.large_image,
            large_text: self.large_text,
            small_image: self.small_image,
            small_text: Some(small_text.to_owned()),
        }
    }

    /// The document sent for these assets.
    pub open spec fn document(self) -> JsonValue {
        JsonValue::Object(
            with_text(
                with_text(
                    with_text(
                        with_text(no_members(), "large_image"@, self.large_image),
                        "large_text"@,
                        self.large_text,
                    ),
                    "small_image"@,
                    self.small_image,
                ),
                "small_text"@,
                self.small_text,
            ),
        )
    }

    /// Builds the document.
    pub fn to_json(&self) -> (value: serde_json::Value)
        ensures
            json_model(value) == self.document(),
    {
        let object = object_new();
        let object = put_text(object, "large_image", &self.large_image);
        let object = put_text(object, "large_text", &self.large_text);
        let object = put_text(object, "small_image", &self.small_image);
        let object = put_text(object, "small_text", &self.small_text);
        object_value(object)
    }
}

impl Party {
    /// A party without id and size.
    pub fn new() -> (party: Party)
        ensures
            party.id is None,
            party.size is None,
    {
        Party { id: None, size: None }
    }

    /// Sets the id.
    pub fn id(self, id: &str) -> (party: Party)
        ensures
            party.id matches Some(text) && text@ == id@,
            party.size == self.size,
    {
        Party { id: Some(id.to_owned()), size: self.size }
    }

    /// Sets the size: the current number of members, then the maximum.
    pub fn size(self, size: [i32; 2]) -> (party: Party)
        ensures
            party.id == self.id,
            party.size == Some(size),
    {
        Party { id: self.id, size: Some(size) }
    }

    /// The document sent for a size: the array of the two numbers.
    pub open spec fn size_document(size: [i32; 2]) -> JsonValue {
        JsonValue::Array(
            seq![JsonValue::Integer(size[0] as int), JsonValue::Integer(size[1] as int)],
        )
    }

    /// The document sent for this party.
    pub open spec fn document(self) -> JsonValue {
        JsonValue::Object(
            with_document(
                with_text(no_members(), "id"@, self.id),
                "size"@,
                match self.size {
                    Some(size) => Some(Self::size_document(size)),
                    None => None,
                },
            ),
        )
    }

    /// Builds the document.
    pub fn to_json(&self) -> (value: serde_json::Value)
        ensures
            json_model(value) == self.document(),
    {
        let object = object_new();
        let object = put_text(object, "id", &self.id);
        let object = match self.size {
            Some(size) => {
                let mut items: Vec<serde_json::Value> = Vec::new();
                items.push(integer_value(size[0] as i64));
                items.push(integer_value(size[1] as i64));
                assert(json_models(items@) =~= seq![
                    JsonValue::Integer(size[0] as int),
                    JsonValue::Integer(size[1] as int),
                ]);
                object_insert(object, "size", array_value(items))
            },
            None => object,
        };
        object_value(object)
    }
}

impl Button {
    /// A button with this label that opens this URL.
    pub fn new(label: &str, url: &str) -> (button: Button)
        ensures
            button.label@ == label@,
            button.url@ == url@,
    {
        Button { label: label.to_owned(), url: url.to_owned() }
    }

    /// The document sent for this button.
    pub open spec fn document(self) -> JsonValue {
        JsonValue::Object(
            no_members().insert("label"@, JsonValue::Text(self.label@)).insert(
                "url"@,
                JsonValue::Text(self.url@),
            ),
        )
    }

    /// Builds the document.
    pub fn to_json(&self) -> (value: serde_json::Value)
        ensures
            json_model(value) == self.document(),
    {
        let object = object_new();
        let object = object_insert(object, "label", text_value(self.label.as_str()));
        let object = object_insert(object, "url", text_value(self.url.as_str()));
        object_value(object)
    }
}

/// The documents sent for a list of buttons, in order.
pub open spec fn button_documents(buttons: Seq<Button>) -> Seq<JsonValue> {
    buttons.map_values(|button: Button| button.document())
}

/// Builds the array of the buttons' documents.
fn buttons_to_json(buttons: &Vec<Button>) -> (value: serde_json::Value)
    ensures
        json_model(value) == JsonValue::Array(button_documents(buttons@)),
{
    let mut items: Vec<serde_json::Value> = Vec::new();
    let mut i: usize = 0;
    while i < buttons.len()
        invariant
            i <= buttons.len(),
            json_models(items@) == button_documents(buttons@.take(i as int)),
        decreases buttons.len() - i,
    {
        let ghost before = items@;
        let item = buttons[i].to_json();
        let ghost document = json_model(item);
        items.push(item);
        proof {
            assert(buttons@.take(i + 1) =~= buttons@.take(i as int).push(buttons@[i as int]));
            assert(json_models(items@) =~= json_models(before).push(document));
            assert(button_documents(buttons@.take(i + 1)) =~= button_documents(
                buttons@.take(i as int),
            ).push(document));
        }
        i += 1;
    }
    assert(buttons@.take(i as int) =~= buttons@);
    array_value(items)
}

impl Activity {
    /// An activity with no field set.
    pub fn new() -> (activity: Activity)
        ensures
            activity.state is None,
            activity.details is None,
            activity.timestamps is None,
            activity.party is None,
            activity.assets is None,
            activity.buttons is None,
            activity.instance is None,
    {
        Activity {
            state: None,
            details: None,
            timestamps: None,
            party: None,
            assets: None,
            buttons: None,
            instance: None,
        }
    }

    /// Sets the state text.
    pub fn state(self, state: &str) -> (activity: Activity)
        ensures
            activity.state matches Some(text) && text@ == state@,
            activity.details == self.details,
            activity.timestamps == self.timestamps,
            activity.party == self.party,
            activity.assets == self.assets,
            activity.buttons == self.buttons,
            activity.instance == self.instance,
    {
        Activity {
            state: Some(state.to_owned()),
            details: self.details,
            timestamps: self.timestamps,
            party: self.party,
            assets: self.assets,
            buttons: self.buttons,
            instance: self.instance,
        }
    }

    /// Sets the details text.
    pub fn details(self, details: &str) -> (activity: Activity)
        ensures
            activity.state == self.state,
            activity.details matches Some(text) && text@ == details@,
            activity.timestamps == self.timestamps,
            activity.party == self.party,
            activity.assets == self.assets,
            activity.buttons == self.buttons,
            activity.instance == self.instance,
    {
        Activity {
            state: self.state,
            details: Some(details.to_owned()),
            timestamps: self.timestamps,
            party: self.party,
            assets: self.assets,
            buttons: self.buttons,
            instance: self.instance,
        }
    }

    /// Sets the timestamps.
    pub fn timestamps(self, timestamps: Timestamps) -> (activity: Activity)
        ensures
            activity.state == self.state,
            activity.details == self.details,
            activity.timestamps == Some(timestamps),
            activity.party == self.party,
            activity.assets == self.assets,
            activity.buttons == self.buttons,
            activity.instance == self.instance,
    {
        Activity {
            state: self.state,
            details: self.details,
            timestamps: Some(timestamps),
            party: self.party,
            assets: self.assets,
            buttons: self.buttons,
            instance: self.instance,
        }
    }

    /// Sets the party.
    pub fn party(self, party: Party) -> (activity: Activity)
        ensures
            activity.state == self.state,
            activity.details == self.details,
            activity.timestamps == self.timestamps,
            activity.party == Some(party),
            activity.assets == self.assets,
            activity.buttons == self.buttons,
            activity.instance == self.instance,
    {
        Activity {
            state: self.state,
            details: self.details,
            timestamps: self.timestamps,
            party: Some(party),
            assets: self.assets,
            buttons: self.buttons,
            instance: self.instance,
        }
    }

    /// Sets the assets.
    pub fn assets(self, assets: Assets) -> (activity: Activity)
        ensures
            activity.state == self.state,
            activity.details == self.details,
            activity.timestamps == self.timestamps,
            activity.party == self.party,
            activity.assets == Some(assets),
            activity.buttons == self.buttons,
            activity.instance == self.instance,
    {
        Activity {
            state: self.state,
            details: self.details,
            timestamps: self.timestamps,
            party: self.party,
            assets: Some(assets),
            buttons: self.buttons,
            instance: self.instance,
        }
    }

    /// Sets the buttons.
    pub fn buttons(self, buttons: Vec<Button>) -> (activity: Activity)
        ensures
            activity.state == self.state,
            activity.details == self.details,
            activity.timestamps == self.timestamps,
            activity.party == self.party,
            activity.assets == self.assets,
            activity.buttons == Some(buttons),
            activity.instance == self.instance,
    {
        Activity {
            state: self.state,
            details: self.details,
            timestamps: self.timestamps,
            party: self.party,
            assets: self.assets,
            buttons: Some(buttons),
            instance: self.instance,
        }
    }

    /// Sets whether the activity is an instanced game session.
    pub fn instance(self, instance: bool) -> (activity: Activity)
        ensures
            activity.state == self.state,
            activity.details == self.details,
            activity.timestamps == self.timestamps,
            activity.party == self.party,
            activity.assets == self.assets,
            activity.buttons == self.buttons,
            activity.instance == Some(instance),
    {
        Activity {
            state: self.state,
            details: self.details,
            timestamps: self.timestamps,
            party: self.party,
            assets: self.assets,
            buttons: self.buttons,
            instance: Some(instance),
        }
    }

    /// The members of the document sent for this activity: one for each field
    /// that is set, under the field's name.
    pub open spec fn members(self) -> Members {
        let m0 = with_text(no_members(), "state"@, self.state);
        let m1 = with_text(m0, "details"@, self.details);
        let m2 = with_document(
            m1,
            "timestamps"@,
            match self.timestamps {
                Some(timestamps) => Some(timestamps.document()),
                None => None,
            },
        );
        let m3 = with_document(
            m2,
            "party"@,
            match self.party {
                Some(party) => Some(party.document()),
                None => None,
            },
        );
        let m4 = with_document(
            m3,
            "assets"@,
            match self.assets {
                Some(assets) => Some(assets.document()),
                None => None,
            },
        );
        let m5 = with_document(
            m4,
            "buttons"@,
            match self.buttons {
                Some(buttons) => Some(JsonValue::Array(button_documents(buttons@))),
                None => None,
            },
        );
        with_document(
            m5,
            "instance"@,
            match self.instance {
                Some(instance) => Some(JsonValue::Bool(instance)),
                None => None,
            },
        )
    }

    /// The document sent for this activity.
    pub open spec fn document(self) -> JsonValue {
        JsonValue::Object(self.members())
    }

    /// Builds the document.
    pub fn to_json(&self) -> (value: serde_json::Value)
        ensures
            json_model(value) == self.document(),
    {
        let object = object_new();
        let object = put_text(object, "state", &self.state);
        let object = put_text(object, "details", &self.details);
        let object = match &self.timestamps {
            Some(timestamps) => object_insert(object, "timestamps", timestamps.to_json()),
            None => object,
        };
        let object = match &self.party {
            Some(party) => object_insert(object, "party", party.to_json()),
            None => object,
        };
        let object = match &self.assets {
            Some(assets) => object_insert(object, "assets", assets.to_json()),
            None => object,
        };
        let object = match &self.buttons {
            Some(buttons) => object_insert(object, "buttons", buttons_to_json(buttons)),
            None => object,
        };
        let object = match self.instance {
            Some(instance) => object_insert(object, "instance", bool_value(instance)),
            None => object,
        };
        object_value(object)
    }
}

} // verus!
