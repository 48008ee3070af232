//! Profiles: named records of a client id and display fields, and the
//! configuration that holds them.

use std::collections::HashMap;
use vstd::prelude::*;
use vstd::utf8::encode_utf8;
use crate::text::{contains, occurs_in, replace, replaced, trim, trimmed};

verus! {

/// `config::Value`, a value of a configuration. Nothing is known of what is
/// inside: it is handed on as it is.
#[verifier::external_type_specification]
#[verifier::external_body]
pub struct ExConfigValue(config::Value);

/// A profile: the client id of the application, and what to show.
#[derive(Debug, Clone, Default, PartialEq, Eq)]
pub struct RPCProfile {
    pub client_id: String,
    pub large_image: Option<String>,
    pub large_text: Option<String>,
    pub small_image: Option<String>,
    pub small_text: Option<String>,
    pub state: Option<String>,
    pub details: Option<String>,
}

/// The profiles by name, in the order in which they are listed.
#[derive(Debug, Clone, PartialEq, Eq)]
pub struct RPCConfig {
    pub profiles: Vec<(String, RPCProfile)>,
}

/// The message with which the `config` crate rejects a text as TOML, `None`
/// where it accepts the text.
pub uninterp spec fn config_rejection(text: Seq<char>) -> Option<Seq<char>>;

/// `config::Format::parse` of `config::FileFormat::Toml`: the table that the
/// text holds, each top-level key with its value, or the message of the error
/// with which the text is rejected. The keys are taken as they are written:
/// none is read as a path.
#[verifier::external_body]
fn parse_toml(text: &str) -> (parsed: Result<HashMap<String, config::Value>, String>)
    ensures
        match parsed {
            Ok(_) => config_rejection(text@) is None,
            Err(message) => config_rejection(text@) == Some(message@),
        },
{
    match config::Format::parse(&config::FileFormat::Toml, None, text) {
        Ok(table) => Ok(table),
        Err(e) => Err(e.to_string()),
    }
}

/// What to do about a profile file that could not be loaded.
#[derive(Debug, Clone, Copy, PartialEq, Eq)]
pub enum Recovery {
    /// The file is not there: write a new one with the demo profile.
    CreateFile,
    /// Anything else is fatal.
    Abort,
}

/// What a typed line picks from the listed profiles, and how.
#[derive(Debug, Clone, Copy, PartialEq, Eq)]
pub enum Selection {
    /// The profile at this position, picked by its number in the list.
    ByNumber(usize),
    /// The profile at this position, picked by its name.
    ByName(usize),
}

impl Selection {
    /// The position of the profile that was picked.
    pub fn position(self) -> (position: usize)
        ensures
            position == match self {
                Selection::ByNumber(p) => p,
                Selection::ByName(p) => p,
            },
    {
        match self {
            Selection::ByNumber(p) => p,
            Selection::ByName(p) => p,
        }
    }
}

/// Whether a byte is an ASCII decimal digit.
pub open spec fn is_digit(byte: u8) -> bool {
    48 <= byte <= 57
}

/// The number that a run of decimal digits writes.
pub open spec fn digits_value(digits: Seq<u8>) -> nat
    decreases digits.len(),
{
    if digits.len() == 0 {
        0
    } else {
        10 * digits_value(digits.drop_last()) + (digits.last() - 48) as nat
    }
}

/// Whether every byte is a decimal digit.
pub open spec fn all_digits(digits: Seq<u8>) -> bool {
    forall|i: int| 0 <= i < digits.len() ==> is_digit(#[trigger] digits[i])
}

/// A text without the `+` that it may start with.
pub open spec fn unsigned_part(text: Seq<u8>) -> Seq<u8> {
    if text.len() > 0 && text[0] == 43 {
        text.skip(1)
    } else {
        text
    }
}

/// The number that a text writes: decimal digits, at least one, with or
/// without a `+` in front. `None` where the text is no such number.
pub open spec fn number_of(text: Seq<u8>) -> Option<nat> {
    if unsigned_part(text).len() > 0 && all_digits(unsigned_part(text)) {
        Some(digits_value(unsigned_part(text)))
    } else {
        None
    }
}

/// The position that a text picks by number from a list of `count` entries:
/// the number `n` from 1 to `count` picks position `n - 1`.
pub open spec fn listed_position(text: Seq<u8>, count: nat) -> Option<int> {
    match number_of(text) {
        Some(n) => if 1 <= n <= count {
            Some(n - 1)
        } else {
            None
        },
        None => None,
    }
}

/// A digit after a run of digits makes the number ten times as large, plus
/// the digit.
proof fn lemma_digits_value_grows(digits: Seq<u8>, digit: u8)
    requires
        is_digit(digit),
    ensures
        digits_value(digits.push(digit)) == 10 * digits_value(digits) + (digit - 48),
        digits_value(digits.push(digit)) >= digits_value(digits),
{
    assert(digits.push(digit).drop_last() =~= digits);
}

/// Reads the position that `text` picks by number from `count` entries.
fn read_position(text: &[u8], count: usize) -> (position: Option<usize>)
    ensures
        match position {
            Some(p) => listed_position(text@, count as nat) == Some(p as int),
            None => listed_position(text@, count as nat) is None,
        },
{
    let start: usize = if text.len() > 0 && text[0] == 43 {
        1
    } else {
        0
    };
    if start == text.len() {
        return None;
    }
    let ghost digits = unsigned_part(text@);
    let mut value: usize = 0;
    let mut beyond: bool = false;
    let mut i: usize = start;
    while i < text.len()
        invariant
            start <= i <= text.len(),
            digits == unsigned_part(text@),
            digits.len() == text.len() - start,
            forall|j: int| 0 <= j < digits.len() ==> digits[j] == text@[start + j],
            forall|j: int| 0 <= j < i - start ==> is_digit(#[trigger] digits[j]),
            !beyond ==> value == digits_value(digits.take(i - start)) && value <= count,
            beyond ==> digits_value(digits.take(i - start)) > count,
        decreases text.len() - i,
    {
        let byte: u8 = text[i];
        assert(digits[i - start] == byte);
        if byte < 48 || byte > 57 {
            assert(!is_digit(digits[i - start]));
            return None;
        }
        proof {
            lemma_digits_value_grows(digits.take(i - start), byte);
            assert(digits.take(i - start).push(byte) =~= digits.take(i + 1 - start));
        }
        if !beyond {
            let digit: usize = (byte - 48) as usize;
            if value > count / 10 {
                beyond = true;
            } else {
                let tens: usize = 10 * value;
                if digit > count - tens {
                    beyond = true;
                } else {
                    value = tens + digit;
                }
            }
        }
        i += 1;
    }
    assert(digits.take(i - start) =~= digits);
    if beyond || value == 0 {
        None
    } else {
        Some(value - 1)
    }
}

/// Whether an optional text is set to exactly this text.
pub open spec fn is_text(field: Option<String>, text: Seq<char>) -> bool {
    field matches Some(value) && value@ == text
}

/// Whether a profile is the demo profile, in which every field is set to a
/// placeholder.
pub open spec fn is_demo_profile(profile: RPCProfile) -> bool {
    &&& profile.client_id@ == "1234567890"@
    &&& is_text(profile.large_image, "large_image"@)
    &&& is_text(profile.large_text, "large_text"@)
    &&& is_text(profile.small_image, "small_image"@)
    &&& is_text(profile.small_text, "small_text"@)
    &&& is_text(profile.state, "state"@)
    &&& is_text(profile.details, "details"@)
}

impl Default for RPCConfig {
    /// The configuration of a new profile file: the demo profile, under the
    /// name `demo`.
    fn default() -> (config: RPCConfig)
        ensures
            config.wf(),
            config.names() == seq!["demo"@],
            is_demo_profile(config.profiles@[0].1),
    {
        let demo_profile = RPCProfile {
            client_id: "1234567890".to_owned(),
            large_image: Some("large_image".to_owned()),
            large_text: Some("large_text".to_owned()),
            small_image: Some("small_image".to_owned()),
            small_text: Some("small_text".to_owned()),
            state: Some("state".to_owned()),
            details: Some("details".to_owned()),
        };
        let mut profiles: Vec<(String, RPCProfile)> = Vec::new();
        profiles.push(("demo".to_owned(), demo_profile));
        let config = RPCConfig { profiles };
        assert(config.names() =~= seq!["demo"@]);
        config
    }
}

impl RPCConfig {
    /// The names of the profiles, in their order.
    pub open spec fn names(self) -> Seq<Seq<char>> {
        self.profiles@.map_values(|entry: (String, RPCProfile)| entry.0@)
    }

    /// Whether no two profiles have the same name.
    pub open spec fn wf(self) -> bool {
        self.names().no_duplicates()
    }

    /// The position of the profile with this name, if there is one.
    pub fn position(&self, name: &str) -> (found: Option<usize>)
        ensures
            match found {
                Some(p) => p < self.names().len() && self.names()[p as int] == name@ && forall|
                    j: int,
                | 0 <= j < p ==> self.names()[j] != name@,
                None => !self.names().contains(name@),
            },
    {
        let wanted: String = name.to_owned();
        let mut i: usize = 0;
        while i < self.profiles.len()
            invariant
                i <= self.profiles.len(),
                wanted@ == name@,
                forall|j: int| 0 <= j < i ==> self.names()[j] != name@,
            decreases self.profiles.len() - i,
        {
            if self.profiles[i].0 == wanted {
                return Some(i);
            }
            i += 1;
        }
        None
    }

    /// Sets the profile of this name: in place of the one that has the name,
    /// or else after all others.
    pub fn insert(&mut self, name: String, profile: RPCProfile)
        requires
            old(self).wf(),
        ensures
            final(self).wf(),
            final(self).names().contains(name@),
            forall|p: int|
                0 <= p < final(self).profiles@.len() && #[trigger] final(self).names()[p]
                    == name@ ==> final(self).profiles@[p].1 == profile,
            forall|p: int|
                0 <= p < old(self).profiles@.len() && #[trigger] old(self).names()[p] != name@
                    ==> final(self).profiles@[p] == old(self).profiles@[p],
            final(self).profiles@.len() == if old(self).names().contains(name@) {
                old(self).profiles@.len()
            } else {
                old(self).profiles@.len() + 1
            },
    {
        match self.position(name.as_str()) {
            Some(p) => {
                self.profiles.set(p, (name, profile));
                assert(self.names() =~= old(self).names());
                assert(self.names()[p as int] == name@);
            },
            None => {
                self.profiles.push((name, profile));
                assert(self.names() =~= old(self).names().push(name@));
                assert(self.names()[self.names().len() - 1] == name@);
            },
        }
    }

    /// What the line that the user typed picks from the listed profiles: the
    /// profile with that number, counted from 1, or else the first profile
    /// with that name. White space around the text does not count.
    pub fn select(&self, input: &str) -> (chosen: Option<Selection>)
        ensures
            match listed_position(encode_utf8(trimmed(input@)), self.names().len()) {
                Some(listed) => chosen == Some(Selection::ByNumber(listed as usize)) && listed
                    < self.names().len(),
                None => match chosen {
                    Some(Selection::ByName(p)) => {
                        &&& p < self.names().len()
                        &&& self.names()[p as int] == trimmed(input@)
                        &&& forall|j: int| 0 <= j < p ==> self.names()[j] != trimmed(input@)
                    },
                    Some(Selection::ByNumber(_)) => false,
                    None => !self.names().contains(trimmed(input@)),
                },
            },
    {
        let text: &str = trim(input);
        match read_position(text.as_bytes(), self.profiles.len()) {
            Some(p) => Some(Selection::ByNumber(p)),
            None => match self.position(text) {
                Some(p) => Some(Selection::ByName(p)),
                None => None,
            },
        }
    }

    /// What to do about the error with this message from loading the
    /// profile file: a file that was not found is created, anything else is
    /// fatal.
    pub fn handle_error(message: &str) -> (recovery: Recovery)
        ensures
            recovery == if occurs_in(message@, "not found"@) {
                Recovery::CreateFile
            } else {
                Recovery::Abort
            },
    {
        if contains(message, "not found") {
            Recovery::CreateFile
        } else {
            Recovery::Abort
        }
    }

    /// Whether the error with this message says that a field is missing from
    /// a profile; if so, the message without the words `missing field `.
    pub fn is_it_missing_field(message: &str) -> (fields: Option<String>)
        ensures
            match fields {
                Some(text) => occurs_in(message@, "missing field"@) && text@ == replaced(
                    message@,
                    "missing field "@,
                    ""@,
                ),
                None => !occurs_in(message@, "missing field"@),
            },
    {
        if !contains(message, "missing field") {
            return None;
        }
        proof {
            reveal_strlit("missing field ");
        }
        Some(replace(message, "missing field ", ""))
    }

    /// What the answer to a yes-or-no question amounts to: `true` for every
    /// answer but `y`. White space around the answer does not count.
    pub fn can_i_proceed(input: &str) -> (proceed: bool)
        ensures
            proceed == (trimmed(input@) != "y"@),
    {
        let answer: String = trim(input).to_owned();
        let yes: String = "y".to_owned();
        !(answer == yes)
    }

    /// Loads the table that the text of a profile file holds: what stands
    /// under each of its top-level keys.
    ///
    /// Fails with the message of the `config` crate where the text is
    /// rejected.
    pub fn try_load(text: &str) -> (loaded: Result<HashMap<String, config::Value>, String>)
        ensures
            match loaded {
                Ok(_) => config_rejection(text@) is None,
                Err(message) => config_rejection(text@) == Some(message@),
            },
    {
        parse_toml(text)
    }
}

} // verus!
