//! What the driver shows for a profile.

use vstd::prelude::*;
use crate::activity::{Activity, Assets, Timestamps};
use crate::config::RPCProfile;

verus! {

/// How long before now an activity is said to have started: 23 hours, 59
/// minutes and 54 seconds, in seconds.
pub const STARTED_BEFORE: i64 = 86394;

/// Whether two optional texts are the same text, or both not set.
pub open spec fn same_text(left: Option<String>, right: Option<String>) -> bool {
    match (left, right) {
        (Some(a), Some(b)) => a@ == b@,
        (None, None) => true,
        _ => false,
    }
}

/// The activity that is shown for a profile at the time `now`, in seconds
/// since the Unix epoch: the profile's texts and images, with a start
/// `STARTED_BEFORE` seconds ago.
pub fn get_activity(rpc_profile: &RPCProfile, now: i64) -> (activity: Activity)
    requires
        i64::MIN + STARTED_BEFORE <= now,
    ensures
        activity.timestamps == Some(
            Timestamps { start: Some((now - STARTED_BEFORE) as i64), end: None },
        ),
        activity.assets matches Some(assets) && same_text(
            assets.large_image,
            rpc_profile.large_image,
        ) && same_text(assets.large_text, rpc_profile.large_text) && same_text(
            assets.small_image,
            rpc_profile.small_image,
        ) && same_text(assets.small_text, rpc_profile.small_text),
        same_text(activity.details, rpc_profile.details),
        same_text(activity.state, rpc_profile.state),
        activity.party is None,
        activity.buttons is None,
        activity.instance is None,
{
    let mut activity = Activity::new();
    let timestamp = Timestamps::new().start(now - STARTED_BEFORE);
    activity = activity.timestamps(timestamp);

    let mut assets = Assets::new();
    if let Some(large_image) = &rpc_profile.large_image {
        assets = assets.large_image(large_image.as_str());
    }
    if let Some(small_image) = &rpc_profile.small_image {
        assets = assets.small_image(small_image.as_str());
    }
    if let Some(large_text) = &rpc_profile.large_text {
        assets = assets.large_text(large_text.as_str());
    }
    if let Some(small_text) = &rpc_profile.small_text {
        assets = assets.small_text(small_text.as_str());
    }
    activity = activity.assets(assets);

    if let Some(details) = &rpc_profile.details {
        activity = activity.details(details.as_str());
    }
    if let Some(state) = &rpc_profile.state {
        activity = activity.state(state.as_str());
    }
    activity
}

} // verus!
