use crate::model::{is_expired, ClickRow, LinkRow, LinkView};
use crate::slug::is_generated_slug;
use vstd::prelude::*;

verus! {

/// The largest number of click events the store holds, so that every click
/// count fits the `clicks` field of a link.
pub const MAX_CLICK_EVENTS: usize = 0x7fff_ffff;

/// `s` without the slashes at its end.
pub open spec fn without_trailing_slashes(s: Seq<char>) -> Seq<char>
    decreases s.len(),
{
    if s.len() > 0 && s.last() == '/' {
        without_trailing_slashes(s.drop_last())
    } else {
        s
    }
}

/// The public address of a slug: the base address, a slash, the slug.
pub open spec fn shortened_url(base_url: Seq<char>, slug: Seq<char>) -> Seq<char> {
    base_url + seq!['/'] + slug
}

/// The row of a link created at `now`.
pub open spec fn new_row(
    slug: Seq<char>,
    target_url: Seq<char>,
    expires_at: Option<i64>,
    now: i64,
) -> LinkRow {
    LinkRow { slug, target_url, created_at: now, updated_at: now, expires_at }
}

/// The click event recorded for a redirect through `link` at `now`.
pub open spec fn new_click(
    link: LinkRow,
    client_ip_address: Seq<char>,
    client_browser: Seq<char>,
    now: i64,
) -> ClickRow {
    ClickRow {
        slug: link.slug,
        datetime: Some(now),
        client_ip_address,
        client_browser,
        expires_at: link.expires_at,
    }
}

/// Whether some link of `links` carries the click's slug and expiry.
pub open spec fn owns(links: Seq<LinkRow>, click: ClickRow) -> bool {
    exists|i: int|
        #![trigger links[i]]
        0 <= i < links.len() && links[i].slug == click.slug && links[i].expires_at
            == click.expires_at
}

/// No two rows of `links` carry the same slug.
pub open spec fn distinct_slugs(links: Seq<LinkRow>) -> bool {
    forall|i: int, j: int|
        #![trigger links[i], links[j]]
        0 <= i < j < links.len() ==> links[i].slug != links[j].slug
}

/// The engine's state as a mathematical value: the base address under which
/// slugs are served, the links in the order of their creation, and the click
/// events in the order of their recording.
pub struct StoreView {
    pub base_url: Seq<char>,
    pub links: Seq<LinkRow>,
    pub clicks: Seq<ClickRow>,
}

impl StoreView {
    /// Whether a link carries `slug`.
    pub open spec fn has_slug(self, slug: Seq<char>) -> bool {
        exists|i: int| #![trigger self.links[i]] 0 <= i < self.links.len() && self.links[i].slug == slug
    }

    /// No link carries a slug of the generated shape: whatever is drawn is free.
    pub open spec fn free_of_generated_slugs(self) -> bool {
        forall|s: Seq<char>| #[trigger] is_generated_slug(s) ==> !self.has_slug(s)
    }

    /// The place of the link that carries `slug`.
    pub open spec fn index_of(self, slug: Seq<char>) -> int {
        choose|i: int| #![trigger self.links[i]] 0 <= i < self.links.len() && self.links[i].slug == slug
    }

    /// The link that carries `slug`.
    pub open spec fn link_of(self, slug: Seq<char>) -> LinkRow {
        self.links[self.index_of(slug)]
    }

    /// The click events recorded against `slug`, oldest first.
    pub open spec fn clicks_of(self, slug: Seq<char>) -> Seq<ClickRow> {
        self.clicks.filter(|c: ClickRow| c.slug == slug)
    }

    /// The number of click events recorded against `slug`.
    pub open spec fn click_count(self, slug: Seq<char>) -> nat {
        self.clicks_of(slug).len()
    }

    /// No two links carry the same slug.
    pub open spec fn unique_slugs(self) -> bool {
        distinct_slugs(self.links)
    }

    /// Every click event belongs to a link of the store and carries that
    /// link's expiry.
    pub open spec fn clicks_owned(self) -> bool {
        forall|k: int| 0 <= k < self.clicks.len() ==> owns(self.links, #[trigger] self.clicks[k])
    }

    /// The invariant of the engine's state.
    pub open spec fn well_formed(self) -> bool {
        &&& self.unique_slugs()
        &&& self.clicks_owned()
        &&& self.clicks.len() <= MAX_CLICK_EVENTS
    }

    /// How a caller sees the link in place `i`.
    pub open spec fn shown(self, i: int) -> LinkView {
        self.present(self.links[i])
    }

    /// Every link as a caller sees it, oldest first.
    pub open spec fn listing(self) -> Seq<LinkView> {
        Seq::new(self.links.len(), |i: int| self.shown(i))
    }

    /// How a caller sees `row`: with its click count and its public address.
    pub open spec fn present(self, row: LinkRow) -> LinkView {
        LinkView {
            row,
            clicks: self.click_count(row.slug) as int,
            shortened_url: Some(shortened_url(self.base_url, row.slug)),
        }
    }

    /// The state after `row` was added.
    pub open spec fn with_link(self, row: LinkRow) -> StoreView {
        StoreView { links: self.links.push(row), ..self }
    }

    /// The state after `click` was recorded.
    pub open spec fn with_click(self, click: ClickRow) -> StoreView {
        StoreView { clicks: self.clicks.push(click), ..self }
    }

    /// The state after one redirect through `slug` was served and recorded.
    pub open spec fn resolved(
        self,
        slug: Seq<char>,
        client_ip_address: Seq<char>,
        client_browser: Seq<char>,
        now: i64,
    ) -> StoreView {
        self.with_click(new_click(self.link_of(slug), client_ip_address, client_browser, now))
    }

    /// The state after the link `slug` and its click events were deleted.
    pub open spec fn without_slug(self, slug: Seq<char>) -> StoreView {
        StoreView {
            links: self.links.filter(|l: LinkRow| l.slug != slug),
            clicks: self.clicks.filter(|c: ClickRow| c.slug != slug),
            ..self
        }
    }

    /// The state after a sweep at `now`: what has expired is gone.
    pub open spec fn swept(self, now: i64) -> StoreView {
        StoreView {
            links: self.links.filter(|l: LinkRow| !is_expired(l.expires_at, now)),
            clicks: self.clicks.filter(|c: ClickRow| !is_expired(c.expires_at, now)),
            ..self
        }
    }
}

/// Dropping rows keeps the slugs distinct.
pub proof fn lemma_filter_distinct(links: Seq<LinkRow>, keep: spec_fn(LinkRow) -> bool)
    requires
        distinct_slugs(links),
    ensures
        distinct_slugs(links.filter(keep)),
    decreases links.len(),
{
    reveal(Seq::filter);
    if links.len() > 0 {
        let front = links.drop_last();
        assert(distinct_slugs(front)) by {
            assert forall|i: int, j: int|
                #![trigger front[i], front[j]]
                0 <= i < j < front.len() implies front[i].slug != front[j].slug by {
                assert(links[i].slug != links[j].slug);
            }
        }
        lemma_filter_distinct(front, keep);
        if keep(links.last()) {
            let kept = front.filter(keep);
            let all = kept.push(links.last());
            assert forall|i: int, j: int|
                #![trigger all[i], all[j]]
                0 <= i < j < all.len() implies all[i].slug != all[j].slug by {
                if j == kept.len() {
                    assert(kept.contains(kept[i]));
                    front.lemma_filter_contains_rev(keep, kept[i]);
                    let k = choose|k: int| 0 <= k < front.len() && front[k] == kept[i];
                    assert(links[k].slug != links[links.len() - 1].slug);
                } else {
                    assert(kept[i].slug != kept[j].slug);
                }
            }
        }
    }
}

/// Dropping links and click events keeps the state well formed, where every
/// click event that stays keeps its link.
pub proof fn lemma_filtered_well_formed(
    s: StoreView,
    keep_link: spec_fn(LinkRow) -> bool,
    keep_click: spec_fn(ClickRow) -> bool,
)
    requires
        s.well_formed(),
        forall|l: LinkRow, c: ClickRow|
            #![trigger keep_link(l), keep_click(c)]
            l.slug == c.slug && l.expires_at == c.expires_at && keep_click(c) ==> keep_link(l),
    ensures
        (StoreView {
            links: s.links.filter(keep_link),
            clicks: s.clicks.filter(keep_click),
            ..s
        }).well_formed(),
{
    let links = s.links.filter(keep_link);
    let clicks = s.clicks.filter(keep_click);
    lemma_filter_distinct(s.links, keep_link);
    s.clicks.lemma_filter_len(keep_click);
    assert forall|k: int| 0 <= k < clicks.len() implies owns(links, #[trigger] clicks[k]) by {
        let c = clicks[k];
        s.clicks.lemma_filter_pred(keep_click, k);
        assert(clicks.contains(c));
        s.clicks.lemma_filter_contains_rev(keep_click, c);
        let k0 = choose|k0: int| 0 <= k0 < s.clicks.len() && s.clicks[k0] == c;
        assert(owns(s.links, s.clicks[k0]));
        let i0 = choose|i0: int|
            #![trigger s.links[i0]]
            0 <= i0 < s.links.len() && s.links[i0].slug == c.slug && s.links[i0].expires_at
                == c.expires_at;
        assert(keep_link(s.links[i0]));
        s.links.lemma_filter_contains(keep_link, i0);
        let i = choose|i: int| 0 <= i < links.len() && links[i] == s.links[i0];
        assert(links[i].slug == c.slug);
    }
}

/// A slug that no link carries has no click events.
pub proof fn lemma_no_clicks_without_link(s: StoreView, slug: Seq<char>)
    requires
        s.well_formed(),
        !s.has_slug(slug),
    ensures
        s.click_count(slug) == 0,
{
    let wanted = |c: ClickRow| c.slug == slug;
    if s.clicks.filter(wanted).len() > 0 {
        s.clicks.lemma_filter_pred(wanted, 0);
        let c = s.clicks.filter(wanted)[0];
        s.clicks.lemma_filter_contains_rev(wanted, c);
        let k = choose|k: int| 0 <= k < s.clicks.len() && s.clicks[k] == c;
        assert(owns(s.links, s.clicks[k]));
    }
}

} // verus!
