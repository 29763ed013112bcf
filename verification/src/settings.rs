//! Settings of a scan.
use vstd::prelude::*;

verus! {

/// The largest number of guilds below that a scan covers.
pub const DOWN_LIMIT_MAX: u32 = 50_000;

/// The largest number of extra pages above that a scan covers.
pub const EXTRA_UP_PAGES_MAX: u32 = 50;

/// What a scan covers and how it judges.
#[derive(Clone, Copy, Debug, PartialEq, Eq, Structural)]
pub struct ScanSettings {
    /// How many guilds below our rank to cover.
    pub down_limit: u32,
    /// Whether to go on above our rank by the honor rule.
    pub honor_up_scan: bool,
    /// The limit of extra pages above the window of ranks.
    pub max_extra_up_pages: u32,
    /// Whether to compare levels with our active members.
    pub strict_mode: bool,
    /// Whether to compare with our best members, as many as the enemy has.
    pub strict_topn: bool,
    /// Whether to go on up to rank 1, without the honor rule and the limit of
    /// pages.
    pub full_up_scan: bool,
}

impl Default for ScanSettings {
    fn default() -> (r: ScanSettings)
        ensures
            r == (ScanSettings {
                down_limit: 300,
                honor_up_scan: true,
                max_extra_up_pages: 10,
                strict_mode: true,
                strict_topn: true,
                full_up_scan: false,
            }),
    {
        ScanSettings {
            down_limit: 300,
            honor_up_scan: true,
            max_extra_up_pages: 10,
            strict_mode: true,
            strict_topn: true,
            full_up_scan: false,
        }
    }
}

/// Changes to the settings that come with the request for a scan.
#[derive(Clone, Copy, Debug)]
pub struct ScanRequest {
    pub down_limit: Option<u32>,
    pub honor_up_scan: Option<bool>,
    pub max_extra_up_pages: Option<u32>,
    pub strict_mode: Option<bool>,
    pub strict_topn: Option<bool>,
    pub full_up_scan: Option<bool>,
}

/// The requested value, or the present one.
pub open spec fn or_present<T>(requested: Option<T>, present: T) -> T {
    match requested {
        Some(v) => v,
        None => present,
    }
}

/// `v`, but at most `max`.
pub open spec fn capped(v: u32, max: u32) -> u32 {
    if v <= max {
        v
    } else {
        max
    }
}

impl ScanSettings {
    /// The settings after a request: what it asks for, and otherwise what was
    /// set before, with the two numbers capped.
    pub open spec fn updated(self, req: ScanRequest) -> ScanSettings {
        ScanSettings {
            down_limit: capped(or_present(req.down_limit, self.down_limit), 50_000),
            honor_up_scan: or_present(req.honor_up_scan, self.honor_up_scan),
            max_extra_up_pages: capped(
                or_present(req.max_extra_up_pages, self.max_extra_up_pages),
                50,
            ),
            strict_mode: or_present(req.strict_mode, self.strict_mode),
            strict_topn: or_present(req.strict_topn, self.strict_topn),
            full_up_scan: or_present(req.full_up_scan, self.full_up_scan),
        }
    }

    /// Applies the changes of a request.
    pub fn apply(self, req: ScanRequest) -> (r: ScanSettings)
        ensures
            r == self.updated(req),
    {
        let mut s: ScanSettings = self;
        if let Some(v) = req.down_limit {
            s.down_limit = v;
        }
        if let Some(v) = req.honor_up_scan {
            s.honor_up_scan = v;
        }
        if let Some(v) = req.max_extra_up_pages {
            s.max_extra_up_pages = v;
        }
        if let Some(v) = req.strict_mode {
            s.strict_mode = v;
        }
        if let Some(v) = req.strict_topn {
            s.strict_topn = v;
        }
        if let Some(v) = req.full_up_scan {
            s.full_up_scan = v;
        }
        if s.down_limit > DOWN_LIMIT_MAX {
            s.down_limit = DOWN_LIMIT_MAX;
        }
        if s.max_extra_up_pages > EXTRA_UP_PAGES_MAX {
            s.max_extra_up_pages = EXTRA_UP_PAGES_MAX;
        }
        s
    }
}

/// Whatever was set and whatever is asked for, a scan covers at most 50000
/// guilds below and, by the honor rule, at most 50 extra pages above.
pub proof fn updated_settings_are_sane(s: ScanSettings, req: ScanRequest)
    ensures
        s.updated(req).down_limit <= 50_000,
        s.updated(req).max_extra_up_pages <= 50,
{
}

/// A request that was applied changes nothing when it is applied again.
pub proof fn updating_twice_is_updating_once(s: ScanSettings, req: ScanRequest)
    ensures
        s.updated(req).updated(req) == s.updated(req),
{
}

/// What a request asks for is set, up to 50000 guilds below and 50 extra pages,
/// and what it does not ask for stays as it was, up to the same limits.
pub proof fn settings_follow_the_request(s: ScanSettings, req: ScanRequest)
    ensures
        req.down_limit matches Some(v) ==> s.updated(req).down_limit == if v <= 50_000 {
            v
        } else {
            50_000
        },
        req.down_limit is None ==> s.updated(req).down_limit == if s.down_limit <= 50_000 {
            s.down_limit
        } else {
            50_000
        },
        req.max_extra_up_pages matches Some(v) ==> s.updated(req).max_extra_up_pages == if v
            <= 50 {
            v
        } else {
            50
        },
        req.max_extra_up_pages is None ==> s.updated(req).max_extra_up_pages == if s.max_extra_up_pages
            <= 50 {
            s.max_extra_up_pages
        } else {
            50
        },
        req.honor_up_scan matches Some(v) ==> s.updated(req).honor_up_scan == v,
        req.honor_up_scan is None ==> s.updated(req).honor_up_scan == s.honor_up_scan,
        req.strict_mode matches Some(v) ==> s.updated(req).strict_mode == v,
        req.strict_mode is None ==> s.updated(req).strict_mode == s.strict_mode,
        req.strict_topn matches Some(v) ==> s.updated(req).strict_topn == v,
        req.strict_topn is None ==> s.updated(req).strict_topn == s.strict_topn,
        req.full_up_scan matches Some(v) ==> s.updated(req).full_up_scan == v,
        req.full_up_scan is None ==> s.updated(req).full_up_scan == s.full_up_scan,
{
}

} // verus!
