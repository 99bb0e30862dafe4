use crate::model::{expiry_horizon, is_expired, ClickRow, LinkRow};
use crate::state::{new_click, new_row, owns, StoreView, MAX_CLICK_EVENTS};
use vstd::prelude::*;

verus! {

/// What is known of the requester of one redirect, and when it was served.
pub struct Visit {
    pub client_ip_address: Seq<char>,
    pub client_browser: Seq<char>,
    pub now: i64,
}

/// The state after the redirects `visits` through `slug` were served one
/// after the other.
pub open spec fn resolved_all(s: StoreView, slug: Seq<char>, visits: Seq<Visit>) -> StoreView
    decreases visits.len(),
{
    if visits.len() == 0 {
        s
    } else {
        let v = visits.last();
        resolved_all(s, slug, visits.drop_last()).resolved(
            slug,
            v.client_ip_address,
            v.client_browser,
            v.now,
        )
    }
}

/// With unique slugs, the link found under a slug is the one in the place
/// where that slug stands.
pub proof fn lemma_link_of_place(s: StoreView, i: int)
    requires
        s.unique_slugs(),
        0 <= i < s.links.len(),
    ensures
        s.has_slug(s.links[i].slug),
        s.index_of(s.links[i].slug) == i,
        s.link_of(s.links[i].slug) == s.links[i],
{
    let slug = s.links[i].slug;
    assert(s.has_slug(slug));
    let j = s.index_of(slug);
    assert(s.links[j].slug == s.links[i].slug);
    if j < i {
        assert(s.links[j].slug != s.links[i].slug);
    } else if i < j {
        assert(s.links[i].slug != s.links[j].slug);
    }
}

/// One served redirect adds exactly one click event: the count of the
/// resolved slug grows by one, every other count stays, the links stay, and
/// the event carries the time of the request.
pub proof fn lemma_resolution_records_one_click(
    s: StoreView,
    slug: Seq<char>,
    client_ip_address: Seq<char>,
    client_browser: Seq<char>,
    now: i64,
)
    requires
        s.well_formed(),
        s.has_slug(slug),
        s.clicks.len() < MAX_CLICK_EVENTS,
    ensures
        s.resolved(slug, client_ip_address, client_browser, now).well_formed(),
        s.resolved(slug, client_ip_address, client_browser, now).links == s.links,
        s.resolved(slug, client_ip_address, client_browser, now).clicks.len() == s.clicks.len() + 1,
        s.resolved(slug, client_ip_address, client_browser, now).clicks.last().datetime == Some(
            now,
        ),
        s.resolved(slug, client_ip_address, client_browser, now).click_count(slug) == s.click_count(
            slug,
        ) + 1,
        forall|other: Seq<char>|
            other != slug ==> #[trigger] s.resolved(
                slug,
                client_ip_address,
                client_browser,
                now,
            ).click_count(other) == s.click_count(other),
{
    let click = new_click(s.link_of(slug), client_ip_address, client_browser, now);
    let after = s.resolved(slug, client_ip_address, client_browser, now);
    let i = s.index_of(slug);
    assert(s.links[i].slug == slug);
    assert forall|k: int| 0 <= k < after.clicks.len() implies owns(
        after.links,
        #[trigger] after.clicks[k],
    ) by {
        if k < s.clicks.len() {
            assert(owns(s.links, s.clicks[k]));
        } else {
            assert(after.links[i].slug == click.slug);
        }
    }
    s.clicks.lemma_filter_push(click, |c: ClickRow| c.slug == slug);
    assert forall|other: Seq<char>| other != slug implies #[trigger] after.click_count(other)
        == s.click_count(other) by {
        s.clicks.lemma_filter_push(click, |c: ClickRow| c.slug == other);
    }
}

/// However many redirects through one slug are served, each one is recorded:
/// `n` resolutions leave `n` more click events against the slug, and the link
/// is still there for the next.
pub proof fn lemma_every_resolution_is_recorded(s: StoreView, slug: Seq<char>, visits: Seq<Visit>)
    requires
        s.well_formed(),
        s.has_slug(slug),
        s.clicks.len() + visits.len() <= MAX_CLICK_EVENTS,
    ensures
        resolved_all(s, slug, visits).well_formed(),
        resolved_all(s, slug, visits).links == s.links,
        resolved_all(s, slug, visits).has_slug(slug),
        resolved_all(s, slug, visits).clicks.len() == s.clicks.len() + visits.len(),
        resolved_all(s, slug, visits).click_count(slug) == s.click_count(slug) + visits.len(),
    decreases visits.len(),
{
    if visits.len() > 0 {
        let v = visits.last();
        let before = resolved_all(s, slug, visits.drop_last());
        lemma_every_resolution_is_recorded(s, slug, visits.drop_last());
        lemma_resolution_records_one_click(
            before,
            slug,
            v.client_ip_address,
            v.client_browser,
            v.now,
        );
        let i = s.index_of(slug);
        assert(resolved_all(s, slug, visits).links[i].slug == slug);
    }
}

/// A sweep keeps exactly the links that have not expired.
pub proof fn lemma_sweep_keeps_the_unexpired(s: StoreView, slug: Seq<char>, now: i64)
    requires
        s.unique_slugs(),
    ensures
        s.swept(now).has_slug(slug) <==> s.has_slug(slug) && !is_expired(
            s.link_of(slug).expires_at,
            now,
        ),
        s.swept(now).has_slug(slug) ==> s.swept(now).link_of(slug) == s.link_of(slug),
{
    let keep = |l: LinkRow| !is_expired(l.expires_at, now);
    let after = s.swept(now);
    if after.has_slug(slug) {
        let i = after.index_of(slug);
        s.links.lemma_filter_pred(keep, i);
        assert(after.links.contains(after.links[i]));
        s.links.lemma_filter_contains_rev(keep, after.links[i]);
        let k = choose|k: int| 0 <= k < s.links.len() && s.links[k] == after.links[i];
        lemma_link_of_place(s, k);
    }
    if s.has_slug(slug) && !is_expired(s.link_of(slug).expires_at, now) {
        let k = s.index_of(slug);
        s.links.lemma_filter_contains(keep, k);
        let i = choose|i: int| 0 <= i < after.links.len() && after.links[i] == s.links[k];
        assert(after.links[i].slug == slug);
    }
}

/// A link created with a lifetime of zero seconds is gone after any sweep
/// that runs later than its creation.
pub proof fn lemma_zero_lifetime_is_swept(
    s: StoreView,
    slug: Seq<char>,
    target_url: Seq<char>,
    created: i64,
    swept_at: i64,
)
    requires
        s.well_formed(),
        !s.has_slug(slug),
        created < swept_at,
    ensures
        expiry_horizon(created, Some(0)) == Some(created),
        !s.with_link(new_row(slug, target_url, Some(created), created)).swept(swept_at).has_slug(
            slug,
        ),
{
    let row = new_row(slug, target_url, Some(created), created);
    let with = s.with_link(row);
    assert(with.unique_slugs()) by {
        assert forall|i: int, j: int|
            #![trigger with.links[i], with.links[j]]
            0 <= i < j < with.links.len() implies with.links[i].slug != with.links[j].slug by {
            if j == s.links.len() {
                assert(s.links[i].slug != slug);
            } else {
                assert(s.links[i].slug != s.links[j].slug);
            }
        }
    }
    lemma_link_of_place(with, s.links.len() as int);
    lemma_sweep_keeps_the_unexpired(with, slug, swept_at);
}

/// A link without an expiry is never swept.
pub proof fn lemma_unexpiring_link_is_never_swept(s: StoreView, slug: Seq<char>, now: i64)
    requires
        s.unique_slugs(),
        s.has_slug(slug),
        s.link_of(slug).expires_at is None,
    ensures
        s.swept(now).has_slug(slug),
        s.swept(now).link_of(slug) == s.link_of(slug),
{
    lemma_sweep_keeps_the_unexpired(s, slug, now);
}

/// Filtering by `keep` first loses nothing of a later filtering by `wanted`,
/// where `keep` holds of every wanted element of the sequence.
pub proof fn lemma_filter_after_filter<A>(
    s: Seq<A>,
    keep: spec_fn(A) -> bool,
    wanted: spec_fn(A) -> bool,
)
    requires
        forall|i: int| 0 <= i < s.len() && wanted(#[trigger] s[i]) ==> keep(s[i]),
    ensures
        s.filter(keep).filter(wanted) == s.filter(wanted),
    decreases s.len(),
{
    reveal(Seq::filter);
    if s.len() > 0 {
        let front = s.drop_last();
        assert forall|i: int| 0 <= i < front.len() && wanted(#[trigger] front[i]) implies keep(
            front[i],
        ) by {
            assert(front[i] == s[i]);
        }
        lemma_filter_after_filter(front, keep, wanted);
        if keep(s.last()) {
            front.filter(keep).lemma_filter_push(s.last(), wanted);
        }
    }
}

/// Creating a link leaves every other link, and its click events, as they were.
pub proof fn lemma_creation_keeps_links(s: StoreView, row: LinkRow, slug: Seq<char>)
    requires
        s.unique_slugs(),
        !s.has_slug(row.slug),
        s.has_slug(slug),
    ensures
        s.with_link(row).has_slug(slug),
        s.with_link(row).link_of(slug) == s.link_of(slug),
        s.with_link(row).clicks_of(slug) == s.clicks_of(slug),
{
    let after = s.with_link(row);
    let i = s.index_of(slug);
    assert(after.links[i] == s.links[i]);
    assert(after.unique_slugs()) by {
        assert forall|a: int, b: int|
            #![trigger after.links[a], after.links[b]]
            0 <= a < b < after.links.len() implies after.links[a].slug != after.links[b].slug by {
            if b == s.links.len() {
                assert(s.links[a].slug != row.slug);
            } else {
                assert(s.links[a].slug != s.links[b].slug);
            }
        }
    }
    lemma_link_of_place(after, i);
}

/// Deleting a link leaves every other link, and its click events, as they were.
pub proof fn lemma_deletion_keeps_other_links(s: StoreView, gone: Seq<char>, slug: Seq<char>)
    requires
        s.unique_slugs(),
        s.has_slug(slug),
        slug != gone,
    ensures
        s.without_slug(gone).has_slug(slug),
        s.without_slug(gone).link_of(slug) == s.link_of(slug),
        s.without_slug(gone).clicks_of(slug) == s.clicks_of(slug),
{
    let keep = |l: LinkRow| l.slug != gone;
    let after = s.without_slug(gone);
    let k = s.index_of(slug);
    s.links.lemma_filter_contains(keep, k);
    let i = choose|i: int| 0 <= i < after.links.len() && after.links[i] == s.links[k];
    assert(after.links[i].slug == slug);
    crate::state::lemma_filter_distinct(s.links, keep);
    lemma_link_of_place(after, i);
    lemma_filter_after_filter(
        s.clicks,
        |c: ClickRow| c.slug != gone,
        |c: ClickRow| c.slug == slug,
    );
}

/// A sweep drops no click event of a link that it keeps: the link's click
/// count is the same before and after.
pub proof fn lemma_sweep_keeps_clicks_of_kept_links(s: StoreView, slug: Seq<char>, now: i64)
    requires
        s.well_formed(),
        s.swept(now).has_slug(slug),
    ensures
        s.swept(now).clicks_of(slug) == s.clicks_of(slug),
        s.swept(now).click_count(slug) == s.click_count(slug),
{
    lemma_sweep_keeps_the_unexpired(s, slug, now);
    let keep = |c: ClickRow| !is_expired(c.expires_at, now);
    let wanted = |c: ClickRow| c.slug == slug;
    let k = s.index_of(slug);
    assert forall|i: int| 0 <= i < s.clicks.len() && wanted(#[trigger] s.clicks[i]) implies keep(
        s.clicks[i],
    ) by {
        assert(owns(s.links, s.clicks[i]));
        let j = choose|j: int|
            #![trigger s.links[j]]
            0 <= j < s.links.len() && s.links[j].slug == s.clicks[i].slug && s.links[j].expires_at
                == s.clicks[i].expires_at;
        lemma_link_of_place(s, j);
    }
    lemma_filter_after_filter(s.clicks, keep, wanted);
}

} // verus!
