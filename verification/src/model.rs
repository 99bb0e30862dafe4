use vstd::prelude::*;

verus! {

/// What the store keeps of one link, as a mathematical value.
pub struct LinkRow {
    pub slug: Seq<char>,
    pub target_url: Seq<char>,
    pub created_at: i64,
    pub updated_at: i64,
    pub expires_at: Option<i64>,
}

/// One recorded redirect, as a mathematical value.
pub struct ClickRow {
    pub slug: Seq<char>,
    pub datetime: Option<i64>,
    pub client_ip_address: Seq<char>,
    pub client_browser: Seq<char>,
    pub expires_at: Option<i64>,
}

/// A link as it is shown to a caller, as a mathematical value.
pub struct LinkView {
    pub row: LinkRow,
    pub clicks: int,
    pub shortened_url: Option<Seq<char>>,
}

/// An expiry horizon lies in the past of `now` when it is set and earlier than `now`.
pub open spec fn is_expired(expires_at: Option<i64>, now: i64) -> bool {
    match expires_at {
        Some(t) => t < now,
        None => false,
    }
}

/// The view of an optional string.
pub open spec fn opt_text(s: Option<String>) -> Option<Seq<char>> {
    match s {
        Some(t) => Some(t@),
        None => None,
    }
}

/// A link as the management surface shows it: the stored row, the number of
/// recorded clicks and the public address under which the link redirects.
/// Timestamps are seconds since the Unix epoch.
#[derive(Debug, Clone, PartialEq, Eq)]
pub struct Link {
    pub slug: String,
    pub target_url: String,
    pub created_at: i64,
    pub updated_at: i64,
    pub expires_at: Option<i64>,
    pub clicks: i32,
    pub shortened_url: Option<String>,
}

impl View for Link {
    type V = LinkView;

    open spec fn view(&self) -> LinkView {
        LinkView {
            row: LinkRow {
                slug: self.slug@,
                target_url: self.target_url@,
                created_at: self.created_at,
                updated_at: self.updated_at,
                expires_at: self.expires_at,
            },
            clicks: self.clicks as int,
            shortened_url: opt_text(self.shortened_url),
        }
    }
}

/// A request to create a link. An empty `slug` asks for a generated one.
#[derive(Debug, Clone, PartialEq, Eq)]
pub struct CreateLinkRequest {
    pub slug: String,
    pub target_url: String,
    pub expires_in_secs: Option<u64>,
}

/// The expiry of a link created at `now` that is to live for `expires_in_secs`.
pub open spec fn expiry_horizon(now: i64, expires_in_secs: Option<u64>) -> Option<i64> {
    match expires_in_secs {
        Some(secs) => Some((now + secs) as i64),
        None => None,
    }
}

/// Whether a creation request can be accepted at `now`: it names a target,
/// and its expiry is a time that can be stored.
pub open spec fn is_acceptable(request: CreateLinkRequest, now: i64) -> bool {
    &&& request.target_url@.len() > 0
    &&& match request.expires_in_secs {
        Some(secs) => now + secs <= i64::MAX,
        None => true,
    }
}

/// One click event: a redirect that was served, with what is known of the requester.
#[derive(Debug, Clone, PartialEq, Eq)]
pub struct LinkClickTracking {
    pub slug: String,
    pub datetime: Option<i64>,
    pub client_ip_address: String,
    pub client_browser: String,
    pub expires_at: Option<i64>,
}

impl View for LinkClickTracking {
    type V = ClickRow;

    open spec fn view(&self) -> ClickRow {
        ClickRow {
            slug: self.slug@,
            datetime: self.datetime,
            client_ip_address: self.client_ip_address@,
            client_browser: self.client_browser@,
            expires_at: self.expires_at,
        }
    }
}

/// The views of a sequence of click events.
pub open spec fn click_rows(events: Seq<LinkClickTracking>) -> Seq<ClickRow> {
    events.map_values(|c: LinkClickTracking| c@)
}

/// The stored rows of a sequence of links.
pub open spec fn link_rows(links: Seq<Link>) -> Seq<LinkRow> {
    links.map_values(|l: Link| l@.row)
}

/// The views of a sequence of links.
pub open spec fn link_views(links: Seq<Link>) -> Seq<LinkView> {
    links.map_values(|l: Link| l@)
}

impl LinkClickTracking {
    /// A copy of the event, field by field.
    pub fn duplicate(&self) -> (copy: LinkClickTracking)
        ensures
            copy@ == self@,
    {
        LinkClickTracking {
            slug: self.slug.clone(),
            datetime: self.datetime,
            client_ip_address: self.client_ip_address.clone(),
            client_browser: self.client_browser.clone(),
            expires_at: self.expires_at,
        }
    }
}

} // verus!
