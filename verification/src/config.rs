//! Monitor configuration.
//!
//! One immutable snapshot is read per scheduling cycle. Thresholds are held
//! in tenths of a percent, so a threshold of `90.0%` is `900`.

use crate::percent::MAX_TENTHS;
use crate::strutil::chars_of;
use crate::strutil::is_space;
use crate::strutil::spec_is_space;
use vstd::prelude::*;

verus! {

/// Display language of alert texts.
#[derive(Clone, Copy, Debug, PartialEq, Eq, Structural)]
pub enum Locale {
    /// Chinese.
    Zh,
    /// English.
    En,
}

/// Configuration snapshot of the monitor.
#[derive(Clone, Debug)]
pub struct AppConfig {
    /// Warning threshold in tenths of a percent, above zero and at most
    /// `100%`.
    pub warning_threshold_tenths: u32,
    /// Check interval in minutes, at least one.
    pub check_interval_minutes: u32,
    /// Webhook URL; a blank string means the webhook channel is not
    /// configured.
    pub webhook_url: String,
    /// Language of alert texts.
    pub locale: Locale,
}

/// A blank string: empty or nothing but whitespace.
pub open spec fn spec_is_blank(s: Seq<char>) -> bool {
    forall|i: int| 0 <= i < s.len() ==> spec_is_space(#[trigger] s[i])
}

impl AppConfig {
    /// The configuration lies within its documented bounds.
    pub open spec fn well_formed(&self) -> bool {
        &&& 0 < self.warning_threshold_tenths <= MAX_TENTHS
        &&& 1 <= self.check_interval_minutes
    }

    /// The webhook channel is configured: the URL is not blank.
    pub open spec fn webhook_configured(&self) -> bool {
        !spec_is_blank(self.webhook_url@)
    }

    /// A copy of the snapshot, field for field.
    pub fn snapshot(&self) -> (r: AppConfig)
        ensures
            r.warning_threshold_tenths == self.warning_threshold_tenths,
            r.check_interval_minutes == self.check_interval_minutes,
            r.webhook_url@ == self.webhook_url@,
            r.locale == self.locale,
    {
        AppConfig {
            warning_threshold_tenths: self.warning_threshold_tenths,
            check_interval_minutes: self.check_interval_minutes,
            webhook_url: self.webhook_url.clone(),
            locale: self.locale,
        }
    }
}

impl Default for AppConfig {
    /// The default configuration: threshold `90.0%`, a check every thirty
    /// minutes, no webhook, Chinese alert texts.
    fn default() -> (c: Self)
        ensures
            c.well_formed(),
            c.warning_threshold_tenths == 900,
            c.check_interval_minutes == 30,
            c.webhook_url@ == Seq::<char>::empty(),
            c.locale is Zh,
    {
        AppConfig {
            warning_threshold_tenths: 900,
            check_interval_minutes: 30,
            webhook_url: String::new(),
            locale: Locale::Zh,
        }
    }
}

/// Blank test, per [`spec_is_blank`].
pub fn is_blank(s: &str) -> (r: bool)
    ensures
        r == spec_is_blank(s@),
{
    let cs = chars_of(s);
    let n = cs.len();
    let mut i: usize = 0;
    while i < n
        invariant
            i <= n,
            n == s@.len(),
            cs@ == s@,
            forall|k: int| 0 <= k < i ==> spec_is_space(#[trigger] s@[k]),
        decreases n - i,
    {
        if !is_space(cs[i]) {
            return false;
        }
        i = i + 1;
    }
    true
}

} // verus!
