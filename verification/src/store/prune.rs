use crate::error::EngineError;
use crate::model::{is_expired, ClickRow, LinkClickTracking, LinkRow};
use crate::state::lemma_filtered_well_formed;
use crate::store::{LinkStore, StoredLink};
use vstd::prelude::*;
use vstd::string::*;

verus! {

/// What a pruning pass removes.
enum Prune<'a> {
    /// The link with this slug, and its click events.
    Slug(&'a String),
    /// Whatever had expired at this time.
    ExpiredAt(i64),
}

impl<'a> Prune<'a> {
    spec fn keeps_link(&self, row: LinkRow) -> bool {
        match self {
            Prune::Slug(slug) => row.slug != slug@,
            Prune::ExpiredAt(now) => !is_expired(row.expires_at, *now),
        }
    }

    spec fn keeps_click(&self, row: ClickRow) -> bool {
        match self {
            Prune::Slug(slug) => row.slug != slug@,
            Prune::ExpiredAt(now) => !is_expired(row.expires_at, *now),
        }
    }

    fn outlives(expires_at: Option<i64>, now: i64) -> (kept: bool)
        ensures
            kept == !is_expired(expires_at, now),
    {
        match expires_at {
            Some(t) => t >= now,
            None => true,
        }
    }

    fn keep_link(&self, link: &StoredLink) -> (kept: bool)
        ensures
            kept == self.keeps_link(link@),
    {
        match self {
            Prune::Slug(slug) => link.slug != **slug,
            Prune::ExpiredAt(now) => Self::outlives(link.expires_at, *now),
        }
    }

    fn keep_click(&self, click: &LinkClickTracking) -> (kept: bool)
        ensures
            kept == self.keeps_click(click@),
    {
        match self {
            Prune::Slug(slug) => click.slug != **slug,
            Prune::ExpiredAt(now) => Self::outlives(click.expires_at, *now),
        }
    }
}

impl LinkStore {
    /// Removes the links that `rule` does not keep.
    fn prune_links(&mut self, rule: &Prune)
        ensures
            final(self)@.links == old(self)@.links.filter(|l: LinkRow| rule.keeps_link(l)),
            final(self)@.clicks == old(self)@.clicks,
            final(self)@.base_url == old(self)@.base_url,
    {
        let ghost keep = |l: LinkRow| rule.keeps_link(l);
        let ghost before = self@.links;
        let ghost mut done: int = 0;
        let mut i: usize = 0;
        proof {
            reveal(Seq::filter);
            assert(before.take(0) =~= Seq::<LinkRow>::empty());
            assert(before.skip(0) =~= before);
            assert(self@.links =~= before.take(0).filter(keep) + before.skip(0));
        }
        while i < self.links.len()
            invariant
                0 <= done <= before.len(),
                i <= self.links@.len(),
                keep == (|l: LinkRow| rule.keeps_link(l)),
                self@.links == before.take(done).filter(keep) + before.skip(done),
                i == before.take(done).filter(keep).len(),
                self@.clicks == old(self)@.clicks,
                self@.base_url == old(self)@.base_url,
            decreases before.len() - done,
        {
            let ghost current = self@.links;
            proof {
                assert(current[i as int] == before.skip(done)[0]);
                assert(before.take(done + 1) =~= before.take(done).push(before[done]));
                before.take(done).lemma_filter_push(before[done], keep);
            }
            if rule.keep_link(&self.links[i]) {
                proof {
                    assert(current =~= before.take(done + 1).filter(keep) + before.skip(done + 1));
                }
                i = i + 1;
            } else {
                self.links.remove(i);
                proof {
                    assert(self@.links =~= current.remove(i as int));
                    assert(self@.links =~= before.take(done + 1).filter(keep) + before.skip(
                        done + 1,
                    ));
                }
            }
            proof {
                done = done + 1;
            }
        }
        proof {
            assert(before.take(done) =~= before);
            assert(self@.links =~= before.filter(keep));
        }
    }

    /// Removes the click events that `rule` does not keep.
    fn prune_clicks(&mut self, rule: &Prune)
        ensures
            final(self)@.clicks == old(self)@.clicks.filter(|c: ClickRow| rule.keeps_click(c)),
            final(self)@.links == old(self)@.links,
            final(self)@.base_url == old(self)@.base_url,
    {
        let ghost keep = |c: ClickRow| rule.keeps_click(c);
        let ghost before = self@.clicks;
        let ghost mut done: int = 0;
        let mut i: usize = 0;
        proof {
            reveal(Seq::filter);
            assert(before.take(0) =~= Seq::<ClickRow>::empty());
            assert(before.skip(0) =~= before);
            assert(self@.clicks =~= before.take(0).filter(keep) + before.skip(0));
        }
        while i < self.clicks.len()
            invariant
                0 <= done <= before.len(),
                i <= self.clicks@.len(),
                keep == (|c: ClickRow| rule.keeps_click(c)),
                self@.clicks == before.take(done).filter(keep) + before.skip(done),
                i == before.take(done).filter(keep).len(),
                self@.links == old(self)@.links,
                self@.base_url == old(self)@.base_url,
            decreases before.len() - done,
        {
            let ghost current = self@.clicks;
            proof {
                assert(current[i as int] == before.skip(done)[0]);
                assert(before.take(done + 1) =~= before.take(done).push(before[done]));
                before.take(done).lemma_filter_push(before[done], keep);
            }
            if rule.keep_click(&self.clicks[i]) {
                proof {
                    assert(current =~= before.take(done + 1).filter(keep) + before.skip(done + 1));
                }
                i = i + 1;
            } else {
                self.clicks.remove(i);
                proof {
                    assert(self@.clicks =~= current.remove(i as int));
                    assert(self@.clicks =~= before.take(done + 1).filter(keep) + before.skip(
                        done + 1,
                    ));
                }
            }
            proof {
                done = done + 1;
            }
        }
        proof {
            assert(before.take(done) =~= before);
            assert(self@.clicks =~= before.filter(keep));
        }
    }

    /// Deletes the link `slug` together with its click events.
    pub fn delete(&mut self, slug: &str) -> (outcome: Result<(), EngineError>)
        requires
            old(self).wf(),
        ensures
            final(self).wf(),
            match outcome {
                Ok(_) => {
                    &&& old(self)@.has_slug(slug@)
                    &&& final(self)@ == old(self)@.without_slug(slug@)
                    &&& !final(self)@.has_slug(slug@)
                },
                Err(e) => {
                    &&& e == EngineError::NotFound
                    &&& !old(self)@.has_slug(slug@)
                    &&& final(self)@ == old(self)@
                },
            },
    {
        let key = String::from_str(slug);
        if self.position(&key).is_none() {
            return Err(EngineError::NotFound);
        }
        let rule = Prune::Slug(&key);
        self.prune_links(&rule);
        self.prune_clicks(&rule);
        proof {
            let keep_link = |l: LinkRow| rule.keeps_link(l);
            let keep_click = |c: ClickRow| rule.keeps_click(c);
            assert(keep_link =~= (|l: LinkRow| l.slug != slug@));
            assert(keep_click =~= (|c: ClickRow| c.slug != slug@));
            lemma_filtered_well_formed(old(self)@, keep_link, keep_click);
            assert(self@ == old(self)@.without_slug(slug@));
            if self@.has_slug(slug@) {
                let i = self@.index_of(slug@);
                old(self)@.links.lemma_filter_pred(keep_link, i);
            }
        }
        Ok(())
    }

    /// One sweep cycle at `now`: removes the links whose expiry lies in the
    /// past, and the click events whose expiry lies in the past.
    pub fn sweep(&mut self, now: i64)
        requires
            old(self).wf(),
        ensures
            final(self).wf(),
            final(self)@ == old(self)@.swept(now),
    {
        let rule = Prune::ExpiredAt(now);
        self.prune_links(&rule);
        self.prune_clicks(&rule);
        proof {
            let keep_link = |l: LinkRow| rule.keeps_link(l);
            let keep_click = |c: ClickRow| rule.keeps_click(c);
            assert(keep_link =~= (|l: LinkRow| !is_expired(l.expires_at, now)));
            assert(keep_click =~= (|c: ClickRow| !is_expired(c.expires_at, now)));
            lemma_filtered_well_formed(old(self)@, keep_link, keep_click);
            assert(self@ == old(self)@.swept(now));
        }
    }
}

} // verus!
