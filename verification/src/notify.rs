//! Notification channel routing. Delivery itself is an external sink; the
//! library only decides which channels a selector addresses.

use vstd::prelude::*;

use crate::render::str_eq;

verus! {

/// The notification sink's routing rules.
pub struct Notifier;

impl Notifier {
    /// Which channels the `notification_type` selector addresses, as
    /// (console, system toast). `windows` addresses the toast alone, `both`
    /// addresses both, and `console` — like any unknown selector — falls
    /// back to the console alone.
    pub fn channels(notification_type: &str) -> (r: (bool, bool))
        ensures
            r.0 == (notification_type@ != "windows"@),
            r.1 == (notification_type@ == "windows"@ || notification_type@ == "both"@),
    {
        let windows = str_eq(notification_type, "windows");
        let both = str_eq(notification_type, "both");
        (!windows, windows || both)
    }
}

} // verus!
